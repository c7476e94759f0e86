//! A trap as text and as a record: the lines that a trap daemon hands to its
//! handler, and the message that is read from them.
//!
//! The first line names the host that sent the trap, the second holds the
//! transport address, and every further line binds one variable. A trap without
//! the first two lines, or with a second line that is no transport address, is
//! refused. A further line that does not hold two tokens is passed over.

use crate::address::{
    address_of_groups, address_of_line, has_arrow, joined, lemma_address_is_the_whole_line,
    lemma_no_arrow_no_address, regex_captures, TransportAddress, TransportAddressView,
    TRANSPORT_ADDRESS_PATTERN,
};
use crate::text::{split_leading, tokens, trim, trimmed};
use chrono::Utc;
use vstd::prelude::*;

verus! {

/// The number of lines that a trap starts with before its variable bindings.
pub const HEADER_LINES: usize = 2;

/// A variable binding: an object identifier and the value bound to it.
#[derive(Debug, PartialEq, Eq)]
pub struct VarBind {
    pub oid: String,
    pub value: String,
}

/// A variable binding as plain sequences of characters.
pub struct VarBindView {
    pub oid: Seq<char>,
    pub value: Seq<char>,
}

impl View for VarBind {
    type V = VarBindView;

    open spec fn view(&self) -> VarBindView {
        VarBindView { oid: self.oid@, value: self.value@ }
    }
}

impl DeepView for VarBind {
    type V = VarBindView;

    open spec fn deep_view(&self) -> VarBindView {
        self@
    }
}

impl Clone for VarBind {
    fn clone(&self) -> (r: Self)
        ensures
            r@ == self@,
    {
        VarBind { oid: self.oid.clone(), value: self.value.clone() }
    }
}

/// A moment in time: whole seconds since the start of 1970 in UTC, and the
/// nanoseconds since the last whole second.
#[derive(Debug, Clone, Copy, PartialEq, Eq, Structural)]
pub struct Timestamp {
    pub seconds: i64,
    pub nanoseconds: u32,
}

/// A trap that was read in full.
#[derive(Debug, PartialEq, Eq)]
pub struct TrapMessage {
    pub remote_hostname: String,
    pub transport_address: TransportAddress,
    pub varbinds: Vec<VarBind>,
    pub timestamp: Timestamp,
}

/// A trap as plain values.
pub struct TrapMessageView {
    pub remote_hostname: Seq<char>,
    pub transport_address: TransportAddressView,
    pub varbinds: Seq<VarBindView>,
    pub timestamp: Timestamp,
}

impl View for TrapMessage {
    type V = TrapMessageView;

    open spec fn view(&self) -> TrapMessageView {
        TrapMessageView {
            remote_hostname: self.remote_hostname@,
            transport_address: self.transport_address@,
            varbinds: self.varbinds.deep_view(),
            timestamp: self.timestamp,
        }
    }
}

impl Clone for TrapMessage {
    fn clone(&self) -> (r: Self)
        ensures
            r@ == self@,
    {
        let mut varbinds: Vec<VarBind> = Vec::new();
        let mut at: usize = 0;
        while at < self.varbinds.len()
            invariant
                at <= self.varbinds.len(),
                varbinds.deep_view() == self.varbinds.deep_view().take(at as int),
            decreases self.varbinds.len() - at,
        {
            let binding = self.varbinds[at].clone();
            let ghost earlier = varbinds.deep_view();
            varbinds.push(binding);
            assert(varbinds.deep_view() =~= earlier.push(self.varbinds[at as int]@));
            at = at + 1;
        }
        assert(self.varbinds.deep_view().take(at as int) =~= self.varbinds.deep_view());
        TrapMessage {
            remote_hostname: self.remote_hostname.clone(),
            transport_address: self.transport_address.clone(),
            varbinds,
            timestamp: self.timestamp,
        }
    }
}

/// Why the lines of a trap were refused.
#[derive(Debug, Clone, Copy, PartialEq, Eq, Structural)]
pub enum MalformedInput {
    /// There is no first line, which would name the host.
    MissingHostname,
    /// There is no second line, or it is no transport address.
    TransportAddress,
}

/// The binding that a line holds: its first two tokens, where it has two.
pub open spec fn varbind_of(line: Seq<char>) -> Option<VarBindView> {
    let found = tokens(line);
    if found.len() >= 2 {
        Some(VarBindView { oid: found[0], value: found[1] })
    } else {
        None
    }
}

/// The bindings that a sequence of lines holds, in the order of the lines. A
/// line that holds no binding adds nothing.
pub open spec fn varbinds_of(lines: Seq<Seq<char>>) -> Seq<VarBindView>
    decreases lines.len(),
{
    if lines.len() == 0 {
        Seq::empty()
    } else {
        match varbind_of(lines.last()) {
            Some(binding) => varbinds_of(lines.drop_last()).push(binding),
            None => varbinds_of(lines.drop_last()),
        }
    }
}

/// Why the lines of a trap are refused, or `None` where they are read: a trap
/// is read where it has two lines or more and its second line, once trimmed,
/// holds a transport address.
pub open spec fn refusal(lines: Seq<Seq<char>>) -> Option<MalformedInput> {
    if lines.len() < 1 {
        Some(MalformedInput::MissingHostname)
    } else if lines.len() < HEADER_LINES || address_of_line(trimmed(lines[1])) is None {
        Some(MalformedInput::TransportAddress)
    } else {
        None
    }
}

/// The message that the lines of a trap hold, stamped with `timestamp`: the
/// hostname is the first line trimmed, the address is that of the second line
/// trimmed, and the bindings are those of the lines after it. This is what is
/// read where the lines are not refused.
pub open spec fn message_of(lines: Seq<Seq<char>>, timestamp: Timestamp) -> TrapMessageView {
    TrapMessageView {
        remote_hostname: trimmed(lines[0]),
        transport_address: address_of_line(trimmed(lines[1]))->0,
        varbinds: varbinds_of(lines.skip(HEADER_LINES as int)),
        timestamp,
    }
}

/// The bindings of two runs of lines, one after the other, are the bindings of
/// the first run followed by those of the second.
pub proof fn lemma_varbinds_of_concat(first: Seq<Seq<char>>, second: Seq<Seq<char>>)
    ensures
        varbinds_of(first + second) == varbinds_of(first) + varbinds_of(second),
    decreases second.len(),
{
    if second.len() == 0 {
        assert(first + second =~= first);
        assert(varbinds_of(first) + varbinds_of(second) =~= varbinds_of(first));
    } else {
        let all = first + second;
        assert(all.drop_last() =~= first + second.drop_last());
        assert(all.last() == second.last());
        lemma_varbinds_of_concat(first, second.drop_last());
        match varbind_of(second.last()) {
            Some(binding) => {
                assert((varbinds_of(first) + varbinds_of(second.drop_last())).push(binding)
                    =~= varbinds_of(first) + varbinds_of(second.drop_last()).push(binding));
            },
            None => {},
        }
    }
}

/// Lines that each hold two tokens or more bind one variable each: there are
/// as many bindings as lines, and the binding at each position holds the first
/// two tokens of the line at that position.
pub proof fn lemma_full_lines_bind_one_each(lines: Seq<Seq<char>>)
    requires
        forall|i: int| 0 <= i < lines.len() ==> tokens(#[trigger] lines[i]).len() >= 2,
    ensures
        varbinds_of(lines).len() == lines.len(),
        forall|i: int|
            0 <= i < lines.len() ==> (#[trigger] varbinds_of(lines)[i]) == (VarBindView {
                oid: tokens(lines[i])[0],
                value: tokens(lines[i])[1],
            }),
    decreases lines.len(),
{
    if lines.len() > 0 {
        let earlier = lines.drop_last();
        assert forall|i: int| 0 <= i < earlier.len() implies tokens(#[trigger] earlier[i]).len()
            >= 2 by {
            assert(earlier[i] == lines[i]);
        }
        lemma_full_lines_bind_one_each(earlier);
        assert(tokens(lines[lines.len() - 1]).len() >= 2);
        assert forall|i: int| 0 <= i < lines.len() implies (#[trigger] varbinds_of(lines)[i]) == (
        VarBindView { oid: tokens(lines[i])[0], value: tokens(lines[i])[1] }) by {
            if i < earlier.len() {
                assert(earlier[i] == lines[i]);
                assert(varbinds_of(lines)[i] == varbinds_of(earlier)[i]);
            }
        }
    }
}

/// A line with fewer than two tokens among the bindings of a trap is passed
/// over, and the lines after it are read as before: with such a line put in
/// at any place after the two header lines, the trap reads as it does without
/// it.
pub proof fn lemma_short_line_is_passed_over(
    lines: Seq<Seq<char>>,
    at: int,
    line: Seq<char>,
    timestamp: Timestamp,
)
    requires
        HEADER_LINES <= at <= lines.len(),
        tokens(line).len() < 2,
    ensures
        refusal(lines.insert(at, line)) == refusal(lines),
        message_of(lines.insert(at, line), timestamp) == message_of(lines, timestamp),
{
    let longer = lines.insert(at, line);
    let before = lines.subrange(HEADER_LINES as int, at);
    let after = lines.skip(at);
    assert(longer[0] == lines[0]);
    assert(longer[1] == lines[1]);
    assert(lines.skip(HEADER_LINES as int) =~= before + after);
    assert(longer.skip(HEADER_LINES as int) =~= (before + seq![line]) + after);
    lemma_varbinds_of_concat(before, after);
    lemma_varbinds_of_concat(before + seq![line], after);
    lemma_varbinds_of_concat(before, seq![line]);
    assert(seq![line].drop_last() =~= Seq::<Seq<char>>::empty());
    assert(seq![line].last() == line);
    assert(varbinds_of(Seq::<Seq<char>>::empty()) =~= Seq::<VarBindView>::empty());
    assert(varbinds_of(seq![line]) =~= Seq::<VarBindView>::empty());
    assert(varbinds_of(before) + varbinds_of(seq![line]) =~= varbinds_of(before));
}

/// A trap whose second line, once trimmed, holds no arrow between the
/// endpoints is refused for its transport address, whatever its other lines
/// hold.
pub proof fn lemma_missing_arrow_is_malformed(lines: Seq<Seq<char>>)
    requires
        lines.len() >= HEADER_LINES,
        !has_arrow(trimmed(lines[1])),
    ensures
        refusal(lines) == Some(MalformedInput::TransportAddress),
{
    lemma_no_arrow_no_address(trimmed(lines[1]));
}

/// A trap of fewer than two lines is refused: for its hostname where it has
/// no line, for its transport address where it has one.
pub proof fn lemma_missing_header_is_malformed(lines: Seq<Seq<char>>)
    requires
        lines.len() < HEADER_LINES,
    ensures
        lines.len() == 0 ==> refusal(lines) == Some(MalformedInput::MissingHostname),
        lines.len() == 1 ==> refusal(lines) == Some(MalformedInput::TransportAddress),
{
}

/// A trap of two lines or more whose second line, once trimmed, has the
/// shape of a transport address is read, and every field is what its lines
/// hold. The line has the shape where the search for the pattern names a
/// protocol and two endpoints and the line is these three written out: the
/// protocol, a colon and a space, the remote endpoint, the arrow and the local
/// endpoint. The message then holds the first line trimmed as the hostname,
/// that protocol and those endpoints, and the bindings of the lines after the
/// second, in their order.
pub proof fn lemma_well_formed_is_read(
    lines: Seq<Seq<char>>,
    groups: Seq<Option<Seq<char>>>,
    timestamp: Timestamp,
)
    requires
        lines.len() >= HEADER_LINES,
        regex_captures(TRANSPORT_ADDRESS_PATTERN@, trimmed(lines[1])) == Some(groups),
        address_of_groups(groups) is Some,
        trimmed(lines[1]) == joined(address_of_groups(groups)->0),
    ensures
        refusal(lines) is None,
        message_of(lines, timestamp) == (TrapMessageView {
            remote_hostname: trimmed(lines[0]),
            transport_address: address_of_groups(groups)->0,
            varbinds: varbinds_of(lines.skip(HEADER_LINES as int)),
            timestamp,
        }),
{
}

/// A trap is read only where it has two lines or more and the second, once
/// trimmed, is the address that is read, written out: nothing that stands
/// before the protocol or after the local endpoint is passed over.
pub proof fn lemma_read_only_where_the_address_is_the_line(
    lines: Seq<Seq<char>>,
    timestamp: Timestamp,
)
    requires
        refusal(lines) is None,
    ensures
        lines.len() >= HEADER_LINES,
        trimmed(lines[1]) == joined(message_of(lines, timestamp).transport_address),
{
    lemma_address_is_the_whole_line(trimmed(lines[1]));
}

/// `Utc::now` of the `chrono` crate, taken apart into seconds and nanoseconds
/// by `DateTime::timestamp` and `DateTime::timestamp_subsec_nanos`. Nothing is
/// claimed of the moment handed back. `chrono` does not return where the clock
/// of the system reads a time before 1970.
#[verifier::external_body]
fn now() -> Timestamp {
    let moment = Utc::now();
    Timestamp { seconds: moment.timestamp(), nanoseconds: moment.timestamp_subsec_nanos() }
}

impl MalformedInput {
    /// The words in which this error is reported.
    pub fn message(&self) -> (r: String)
        ensures
            r@ == match self {
                MalformedInput::MissingHostname => "Malformed input: missing hostname"@,
                MalformedInput::TransportAddress =>
                    "Malformed input: missing or unparseable transport address"@,
            },
    {
        match self {
            MalformedInput::MissingHostname => "Malformed input: missing hostname".to_owned(),
            MalformedInput::TransportAddress =>
                "Malformed input: missing or unparseable transport address".to_owned(),
        }
    }
}

impl VarBind {
    /// Reads a binding from a line: its first token is the object identifier,
    /// its second the value, and what follows is dropped. The result is `None`
    /// where the line holds fewer than two tokens.
    pub fn parse(line: &str) -> (r: Option<VarBind>)
        ensures
            match r {
                Some(binding) => varbind_of(line@) == Some(binding@),
                None => varbind_of(line@) is None,
            },
    {
        let mut found = split_leading(line, 2);
        let ghost both = found.deep_view();
        assert(both.len() == found.len());
        if found.len() < 2 {
            return None;
        }
        assert(both[0] == found@[0]@ && both[1] == found@[1]@);
        let value = found.pop().unwrap();
        let oid = found.pop().unwrap();
        Some(VarBind { oid, value })
    }
}

/// Reads the bindings of the lines from `first` on.
fn parse_varbinds(lines: &[String], first: usize) -> (r: Vec<VarBind>)
    requires
        first <= lines.len(),
    ensures
        r.deep_view() == varbinds_of(lines.deep_view().skip(first as int)),
{
    let mut bindings: Vec<VarBind> = Vec::new();
    let mut at: usize = first;
    while at < lines.len()
        invariant
            first <= at <= lines.len(),
            bindings.deep_view() == varbinds_of(
                lines.deep_view().subrange(first as int, at as int),
            ),
        decreases lines.len() - at,
    {
        let ghost before = lines.deep_view().subrange(first as int, at as int);
        let ghost after = lines.deep_view().subrange(first as int, at + 1);
        assert(after.drop_last() =~= before);
        match VarBind::parse(lines[at].as_str()) {
            Some(binding) => {
                bindings.push(binding);
            },
            None => {},
        }
        at = at + 1;
    }
    bindings
}

/// Reads everything of a trap but the time of reading.
fn parse_fields(lines: &[String]) -> (r: Result<
    (String, TransportAddress, Vec<VarBind>),
    MalformedInput,
>)
    ensures
        match r {
            Ok((hostname, address, bindings)) => {
                &&& refusal(lines.deep_view()) is None
                &&& hostname@ == trimmed(lines.deep_view()[0])
                &&& Some(address@) == address_of_line(trimmed(lines.deep_view()[1]))
                &&& bindings.deep_view() == varbinds_of(
                    lines.deep_view().skip(HEADER_LINES as int),
                )
            },
            Err(error) => refusal(lines.deep_view()) == Some(error),
        },
{
    if lines.len() < 1 {
        return Err(MalformedInput::MissingHostname);
    }
    let hostname = trim(lines[0].as_str());
    if lines.len() < HEADER_LINES {
        return Err(MalformedInput::TransportAddress);
    }
    let address_line = trim(lines[1].as_str());
    match TransportAddress::parse(address_line.as_str()) {
        Some(address) => {
            let bindings = parse_varbinds(lines, HEADER_LINES);
            Ok((hostname, address, bindings))
        },
        None => Err(MalformedInput::TransportAddress),
    }
}

/// Reads a trap from its lines and stamps it with the given time. The lines
/// are refused where `refusal` says so, and for that reason; else the message
/// holds exactly what `message_of` says.
pub fn parse_trap(lines: &[String], timestamp: Timestamp) -> (r: Result<
    TrapMessage,
    MalformedInput,
>)
    ensures
        match r {
            Ok(message) => refusal(lines.deep_view()) is None && message@ == message_of(
                lines.deep_view(),
                timestamp,
            ),
            Err(error) => refusal(lines.deep_view()) == Some(error),
        },
{
    match parse_fields(lines) {
        Ok((remote_hostname, transport_address, varbinds)) => Ok(
            TrapMessage { remote_hostname, transport_address, varbinds, timestamp },
        ),
        Err(error) => Err(error),
    }
}

/// Reads a trap from its lines and stamps it with the time at which the
/// reading was done. The lines are refused where `refusal` says so, and for
/// that reason; else the message holds exactly what `message_of` says, with
/// the time that the clock gave.
pub fn read_trap(lines: &[String]) -> (r: Result<TrapMessage, MalformedInput>)
    ensures
        match r {
            Ok(message) => refusal(lines.deep_view()) is None && message@ == message_of(
                lines.deep_view(),
                message.timestamp,
            ),
            Err(error) => refusal(lines.deep_view()) == Some(error),
        },
{
    match parse_fields(lines) {
        Ok((remote_hostname, transport_address, varbinds)) => Ok(
            TrapMessage { remote_hostname, transport_address, varbinds, timestamp: now() },
        ),
        Err(error) => Err(error),
    }
}

} // verus!
