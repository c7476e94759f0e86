//! White space in a line of text: trimming it and splitting at it.
//!
//! The specifications are written over `Seq<char>`, the view of a string. Which
//! characters are white space is stated here, character by character, and the
//! standard library is trusted to answer the same; everything else in this
//! module is proved.

use vstd::prelude::*;

verus! {

/// Whether a character is white space: whether it has the Unicode property
/// `White_Space`. These are the tab, the line feed, the vertical tab, the form
/// feed, the carriage return and the space of ASCII, the next line and the
/// no-break space of Latin-1, the Ogham space mark, the spaces from the en
/// quad to the hair space, the line and the paragraph separator, the narrow
/// no-break space, the medium mathematical space and the ideographic space.
pub open spec fn white_space(c: char) -> bool {
    let code = c as u32;
    ||| 0x0009 <= code <= 0x000D
    ||| code == 0x0020
    ||| code == 0x0085
    ||| code == 0x00A0
    ||| code == 0x1680
    ||| 0x2000 <= code <= 0x200A
    ||| code == 0x2028
    ||| code == 0x2029
    ||| code == 0x202F
    ||| code == 0x205F
    ||| code == 0x3000
}

/// `char::is_whitespace` of the standard library, which answers whether a
/// character has the Unicode property `White_Space`. Not proved: that its
/// answer is the one that `white_space` states.
pub assume_specification[ char::is_whitespace ](c: char) -> (r: bool)
    ensures
        r == white_space(c),
;

/// `s` without the white space it begins with.
pub open spec fn trim_start(s: Seq<char>) -> Seq<char>
    decreases s.len(),
{
    if s.len() > 0 && white_space(s[0]) {
        trim_start(s.drop_first())
    } else {
        s
    }
}

/// `s` without the white space it ends with.
pub open spec fn trim_end(s: Seq<char>) -> Seq<char>
    decreases s.len(),
{
    if s.len() > 0 && white_space(s.last()) {
        trim_end(s.drop_last())
    } else {
        s
    }
}

/// `s` without the white space at either end.
pub open spec fn trimmed(s: Seq<char>) -> Seq<char> {
    trim_end(trim_start(s))
}

/// The length of the longest prefix of `s` that holds no white space.
pub open spec fn token_len(s: Seq<char>) -> nat
    decreases s.len(),
{
    if s.len() > 0 && !white_space(s[0]) {
        1 + token_len(s.drop_first())
    } else {
        0
    }
}

/// The tokens of `s`: its maximal runs of characters that are not white
/// space, from left to right.
pub open spec fn tokens(s: Seq<char>) -> Seq<Seq<char>>
    decreases s.len(),
{
    if s.len() == 0 {
        Seq::empty()
    } else if white_space(s[0]) {
        tokens(s.drop_first())
    } else {
        proof {
            lemma_token_len_bounds(s);
        }
        seq![s.take(token_len(s) as int)] + tokens(s.skip(token_len(s) as int))
    }
}

/// The first `limit` tokens of `s`, or all of them where there are fewer.
pub open spec fn leading_tokens(s: Seq<char>, limit: nat) -> Seq<Seq<char>> {
    if tokens(s).len() <= limit {
        tokens(s)
    } else {
        tokens(s).take(limit as int)
    }
}

/// A token is never longer than the text it starts, and is not empty where
/// the text starts with a character that is not white space.
pub proof fn lemma_token_len_bounds(s: Seq<char>)
    ensures
        token_len(s) <= s.len(),
        s.len() > 0 && !white_space(s[0]) ==> token_len(s) >= 1,
    decreases s.len(),
{
    if s.len() > 0 && !white_space(s[0]) {
        lemma_token_len_bounds(s.drop_first());
    }
}

/// Where the first `n` characters of `s` are white space and the next one, if
/// there is one, is not, trimming the start removes exactly those `n`.
pub proof fn lemma_trim_start_is_skip(s: Seq<char>, n: int)
    requires
        0 <= n <= s.len(),
        forall|i: int| 0 <= i < n ==> white_space(#[trigger] s[i]),
        n < s.len() ==> !white_space(s[n]),
    ensures
        trim_start(s) == s.skip(n),
    decreases n,
{
    if n == 0 {
        assert(s.skip(0) =~= s);
    } else {
        let rest = s.drop_first();
        assert forall|i: int| 0 <= i < n - 1 implies white_space(#[trigger] rest[i]) by {
            assert(rest[i] == s[i + 1]);
        }
        lemma_trim_start_is_skip(rest, n - 1);
        assert(rest.skip(n - 1) =~= s.skip(n));
    }
}

/// Where the characters of `s` from position `n` on are white space and the
/// one before, if there is one, is not, trimming the end keeps exactly the
/// first `n`.
pub proof fn lemma_trim_end_is_take(s: Seq<char>, n: int)
    requires
        0 <= n <= s.len(),
        forall|i: int| n <= i < s.len() ==> white_space(#[trigger] s[i]),
        n > 0 ==> !white_space(s[n - 1]),
    ensures
        trim_end(s) == s.take(n),
    decreases s.len() - n,
{
    if n == s.len() {
        assert(s.take(n) =~= s);
    } else {
        let rest = s.drop_last();
        lemma_trim_end_is_take(rest, n);
        assert(rest.take(n) =~= s.take(n));
    }
}

/// Where the first `n` characters of `s` are not white space and the next
/// one, if there is one, is, the token that starts `s` has length `n`.
pub proof fn lemma_token_len_is(s: Seq<char>, n: int)
    requires
        0 <= n <= s.len(),
        forall|i: int| 0 <= i < n ==> !white_space(#[trigger] s[i]),
        n < s.len() ==> white_space(s[n]),
    ensures
        token_len(s) == n,
    decreases n,
{
    if n > 0 {
        let rest = s.drop_first();
        assert forall|i: int| 0 <= i < n - 1 implies !white_space(#[trigger] rest[i]) by {
            assert(rest[i] == s[i + 1]);
        }
        lemma_token_len_is(rest, n - 1);
    }
}

/// White space at the start of a text holds no token.
pub proof fn lemma_tokens_skip_white_space(s: Seq<char>, n: int)
    requires
        0 <= n <= s.len(),
        forall|i: int| 0 <= i < n ==> white_space(#[trigger] s[i]),
    ensures
        tokens(s) == tokens(s.skip(n)),
    decreases n,
{
    if n == 0 {
        assert(s.skip(0) =~= s);
    } else {
        let rest = s.drop_first();
        assert forall|i: int| 0 <= i < n - 1 implies white_space(#[trigger] rest[i]) by {
            assert(rest[i] == s[i + 1]);
        }
        lemma_tokens_skip_white_space(rest, n - 1);
        assert(rest.skip(n - 1) =~= s.skip(n));
    }
}

/// What is left of a text once its start is trimmed is empty or starts with a
/// character that is not white space.
pub proof fn lemma_trim_start_starts_a_word(s: Seq<char>)
    ensures
        trim_start(s).len() > 0 ==> !white_space(trim_start(s)[0]),
    decreases s.len(),
{
    if s.len() > 0 && white_space(s[0]) {
        lemma_trim_start_starts_a_word(s.drop_first());
    }
}

/// What is left of a text once its end is trimmed is the start of the text,
/// and is empty or ends with a character that is not white space.
pub proof fn lemma_trim_end_ends_a_word(s: Seq<char>)
    ensures
        trim_end(s).len() <= s.len(),
        trim_end(s) == s.take(trim_end(s).len() as int),
        trim_end(s).len() > 0 ==> !white_space(trim_end(s).last()),
    decreases s.len(),
{
    if s.len() > 0 && white_space(s.last()) {
        let rest = s.drop_last();
        lemma_trim_end_ends_a_word(rest);
        assert(rest.take(trim_end(rest).len() as int) =~= s.take(trim_end(rest).len() as int));
    } else {
        assert(s.take(s.len() as int) =~= s);
    }
}

/// A trimmed text is empty or has a character that is not white space at
/// either end.
pub proof fn lemma_trimmed_has_words_at_its_ends(s: Seq<char>)
    ensures
        trimmed(s).len() > 0 ==> !white_space(trimmed(s)[0]) && !white_space(trimmed(s).last()),
{
    lemma_trim_start_starts_a_word(s);
    lemma_trim_end_ends_a_word(trim_start(s));
}

/// The token that starts a text holds no white space.
pub proof fn lemma_token_holds_no_white_space(s: Seq<char>)
    ensures
        forall|i: int| 0 <= i < token_len(s) ==> !white_space(#[trigger] s[i]),
    decreases s.len(),
{
    if s.len() > 0 && !white_space(s[0]) {
        let rest = s.drop_first();
        lemma_token_holds_no_white_space(rest);
        lemma_token_len_bounds(s);
        assert forall|i: int| 0 <= i < token_len(s) implies !white_space(#[trigger] s[i]) by {
            if i > 0 {
                assert(s[i] == rest[i - 1]);
            }
        }
    }
}

/// Every token of a text holds a character, and none of its characters is
/// white space.
pub proof fn lemma_tokens_are_words(s: Seq<char>)
    ensures
        forall|i: int|
            0 <= i < tokens(s).len() ==> {
                &&& (#[trigger] tokens(s)[i]).len() > 0
                &&& forall|j: int| 0 <= j < tokens(s)[i].len() ==> !white_space(tokens(s)[i][j])
            },
    decreases s.len(),
{
    if s.len() == 0 {
        assert(tokens(s).len() == 0);
    } else if white_space(s[0]) {
        lemma_tokens_are_words(s.drop_first());
        assert(tokens(s) == tokens(s.drop_first()));
    } else {
        let n = token_len(s) as int;
        lemma_token_len_bounds(s);
        lemma_token_holds_no_white_space(s);
        lemma_tokens_are_words(s.skip(n));
        let first = s.take(n);
        let later = tokens(s.skip(n));
        assert(tokens(s) == seq![first] + later);
        assert forall|i: int| 0 <= i < tokens(s).len() implies {
            &&& (#[trigger] tokens(s)[i]).len() > 0
            &&& forall|j: int| 0 <= j < tokens(s)[i].len() ==> !white_space(tokens(s)[i][j])
        } by {
            if i == 0 {
                assert(tokens(s)[0] == first);
                assert forall|j: int| 0 <= j < first.len() implies !white_space(first[j]) by {
                    assert(first[j] == s[j]);
                }
            } else {
                assert(tokens(s)[i] == later[i - 1]);
            }
        }
    }
}

/// The characters of a string, one by one.
pub fn chars_of(s: &str) -> (v: Vec<char>)
    ensures
        v@ == s@,
{
    let mut v: Vec<char> = Vec::new();
    for c in it: s.chars()
        invariant
            it.seq() == s@,
            v@ == it.seq().take(it.index()),
    {
        v.push(c);
    }
    v
}

/// Whether two strings hold the same characters.
pub fn same_text(a: &str, b: &str) -> (r: bool)
    ensures
        r == (a@ == b@),
{
    let x = chars_of(a);
    let y = chars_of(b);
    if x.len() != y.len() {
        return false;
    }
    let mut i: usize = 0;
    while i < x.len()
        invariant
            x@ == a@,
            y@ == b@,
            i <= x.len(),
            x.len() == y.len(),
            forall|j: int| 0 <= j < i ==> x@[j] == y@[j],
        decreases x.len() - i,
    {
        if x[i] != y[i] {
            return false;
        }
        i = i + 1;
    }
    assert(x@ =~= y@);
    true
}

/// A copy of `s` without the white space at either end.
pub fn trim(s: &str) -> (r: String)
    ensures
        r@ == trimmed(s@),
{
    let cs = chars_of(s);
    let mut start: usize = 0;
    while start < cs.len() && cs[start].is_whitespace()
        invariant
            start <= cs.len(),
            forall|i: int| 0 <= i < start ==> white_space(#[trigger] cs@[i]),
        decreases cs.len() - start,
    {
        start = start + 1;
    }
    let mut end: usize = cs.len();
    while end > start && cs[end - 1].is_whitespace()
        invariant
            start <= end <= cs.len(),
            forall|i: int| end <= i < cs.len() ==> white_space(#[trigger] cs@[i]),
        decreases end,
    {
        end = end - 1;
    }
    proof {
        let rest = cs@.skip(start as int);
        lemma_trim_start_is_skip(cs@, start as int);
        lemma_trim_end_is_take(rest, end - start);
    }
    s.substring_char(start, end).to_owned()
}

/// The first `limit` tokens of `s`, or all of them where there are fewer.
pub fn split_leading(s: &str, limit: usize) -> (r: Vec<String>)
    ensures
        r.deep_view() == leading_tokens(s@, limit as nat),
{
    let cs = chars_of(s);
    let mut found: Vec<String> = Vec::new();
    let mut at: usize = 0;
    assert(cs@.skip(0) =~= cs@);
    while found.len() < limit && at < cs.len()
        invariant
            cs@ == s@,
            at <= cs.len(),
            found.len() <= limit,
            tokens(cs@) == found.deep_view() + tokens(cs@.skip(at as int)),
        decreases cs.len() - at,
    {
        let ghost before = cs@.skip(at as int);
        let mut start: usize = at;
        while start < cs.len() && cs[start].is_whitespace()
            invariant
                at <= start <= cs.len(),
                forall|i: int| at <= i < start ==> white_space(#[trigger] cs@[i]),
            decreases cs.len() - start,
        {
            start = start + 1;
        }
        proof {
            lemma_tokens_skip_white_space(before, start - at);
            assert(before.skip(start - at) =~= cs@.skip(start as int));
        }
        if start == cs.len() {
            at = start;
        } else {
            let mut end: usize = start + 1;
            while end < cs.len() && !cs[end].is_whitespace()
                invariant
                    start < end <= cs.len(),
                    forall|i: int| start <= i < end ==> !white_space(#[trigger] cs@[i]),
                decreases cs.len() - end,
            {
                end = end + 1;
            }
            let token = s.substring_char(start, end).to_owned();
            proof {
                let here = cs@.skip(start as int);
                lemma_token_len_is(here, end - start);
                assert(here.take(end - start) =~= cs@.subrange(start as int, end as int));
                assert(here.skip(end - start) =~= cs@.skip(end as int));
            }
            found.push(token);
            at = end;
        }
    }
    found
}

} // verus!
