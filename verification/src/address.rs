//! The transport address of a trap: the protocol and the two endpoints it
//! travelled between, read from one line of text.
//!
//! The line is searched for a regular expression by the `regex` crate. What
//! that search returns is named by `regex_captures`; what this module makes of
//! the returned groups is defined here and proved. An address is read only
//! where its three fields, joined again, are the whole line: nothing of the
//! line is dropped and nothing is added to it.

use crate::text::same_text;
use regex::Regex;
use vstd::prelude::*;
use vstd::string::StringExecFns;

verus! {

/// The shape of a transport address line: a protocol, a colon and a space, the
/// remote endpoint, an arrow, the local endpoint. An endpoint is an address in
/// square brackets, optionally followed by a colon and a port number. The
/// pattern is searched for in the line; `address_of_line` then accepts the
/// match only where it is the whole line.
pub const TRANSPORT_ADDRESS_PATTERN: &'static str = r"(.+): (\[.+](:\d+)?)->(\[.+](:\d+)?)";

/// The group of the pattern that holds the protocol.
pub const PROTOCOL_GROUP: usize = 1;

/// The group of the pattern that holds the remote endpoint, port included.
pub const REMOTE_GROUP: usize = 2;

/// The group of the pattern that holds the local endpoint, port included.
pub const LOCAL_GROUP: usize = 4;

/// Over which protocol and between which endpoints a trap was received.
#[derive(Debug, PartialEq, Eq)]
pub struct TransportAddress {
    pub protocol: String,
    pub remote_address: String,
    pub local_address: String,
}

/// A transport address as plain sequences of characters.
pub struct TransportAddressView {
    pub protocol: Seq<char>,
    pub remote_address: Seq<char>,
    pub local_address: Seq<char>,
}

impl View for TransportAddress {
    type V = TransportAddressView;

    open spec fn view(&self) -> TransportAddressView {
        TransportAddressView {
            protocol: self.protocol@,
            remote_address: self.remote_address@,
            local_address: self.local_address@,
        }
    }
}

impl Clone for TransportAddress {
    fn clone(&self) -> (r: Self)
        ensures
            r@ == self@,
    {
        TransportAddress {
            protocol: self.protocol.clone(),
            remote_address: self.remote_address.clone(),
            local_address: self.local_address.clone(),
        }
    }
}

/// What the `regex` crate finds when it compiles `pattern` and searches `text`
/// for its first match: `None` where nothing matches or the pattern does not
/// compile, else the text of every capture group, the whole match first and
/// the others in the order of their opening brackets, each `None` where the
/// group took no part in the match.
pub uninterp spec fn regex_captures(pattern: Seq<char>, text: Seq<char>) -> Option<
    Seq<Option<Seq<char>>>,
>;

/// The address that a list of capture groups holds: the protocol and the two
/// endpoints, where all three groups are there.
pub open spec fn address_of_groups(groups: Seq<Option<Seq<char>>>) -> Option<TransportAddressView> {
    if groups.len() > LOCAL_GROUP && groups[PROTOCOL_GROUP as int] is Some
        && groups[REMOTE_GROUP as int] is Some && groups[LOCAL_GROUP as int] is Some {
        Some(
            TransportAddressView {
                protocol: groups[PROTOCOL_GROUP as int]->0,
                remote_address: groups[REMOTE_GROUP as int]->0,
                local_address: groups[LOCAL_GROUP as int]->0,
            },
        )
    } else {
        None
    }
}

/// The line that holds an address and nothing else: the protocol, a colon and
/// a space, the remote endpoint, an arrow, the local endpoint.
pub open spec fn joined(address: TransportAddressView) -> Seq<char> {
    address.protocol + ": "@ + address.remote_address + "->"@ + address.local_address
}

/// Whether the arrow `->`, which parts the two endpoints, stands in `line`
/// at position `at`.
pub open spec fn arrow_at(line: Seq<char>, at: int) -> bool {
    0 <= at && at + 1 < line.len() && line[at] == '-' && line[at + 1] == '>'
}

/// Whether the arrow stands anywhere in `line`.
pub open spec fn has_arrow(line: Seq<char>) -> bool {
    exists|at: int| arrow_at(line, at)
}

/// The address that a line of text holds: the one that the groups of the
/// search name, where its fields joined are the line from its first character
/// to its last. A line with anything before, between or after the fields
/// holds none.
pub open spec fn address_of_line(line: Seq<char>) -> Option<TransportAddressView> {
    match regex_captures(TRANSPORT_ADDRESS_PATTERN@, line) {
        Some(groups) => match address_of_groups(groups) {
            Some(address) => if joined(address) == line {
                Some(address)
            } else {
                None
            },
            None => None,
        },
        None => None,
    }
}

/// A line that holds an address is that address written out: the protocol, a
/// colon and a space, the remote endpoint, the arrow and the local endpoint,
/// and no character more.
pub proof fn lemma_address_is_the_whole_line(line: Seq<char>)
    requires
        address_of_line(line) is Some,
    ensures
        line == joined(address_of_line(line)->0),
        line.len() == address_of_line(line)->0.protocol.len() + address_of_line(
            line,
        )->0.remote_address.len() + address_of_line(line)->0.local_address.len() + 4,
{
    reveal_strlit(": ");
    reveal_strlit("->");
}

/// The line of an address holds the arrow, between the two endpoints.
pub proof fn lemma_joined_has_arrow(address: TransportAddressView)
    ensures
        arrow_at(
            joined(address),
            (address.protocol.len() + 2 + address.remote_address.len()) as int,
        ),
        has_arrow(joined(address)),
{
    reveal_strlit(": ");
    reveal_strlit("->");
    let at = (address.protocol.len() + 2 + address.remote_address.len()) as int;
    let line = joined(address);
    assert(line[at] == "->"@[0]);
    assert(line[at + 1] == "->"@[1]);
    assert(arrow_at(line, at));
}

/// A line without the arrow between the endpoints holds no address.
pub proof fn lemma_no_arrow_no_address(line: Seq<char>)
    requires
        !has_arrow(line),
    ensures
        address_of_line(line) is None,
{
    if address_of_line(line) is Some {
        lemma_joined_has_arrow(address_of_line(line)->0);
    }
}

/// `regex::Error`, which the `regex` crate gives for a pattern that it
/// refuses. Nothing is known of what it holds.
#[verifier::external_type_specification]
#[verifier::external_body]
pub struct ExRegexError(regex::Error);

/// `Regex::new` and then `Regex::captures` of the `regex` crate, with every
/// group of the match copied out as a string. Not proved: that the groups
/// handed back are those that `regex_captures` names for this pattern and
/// text, and that the name is `None` where the pattern is refused.
#[verifier::external_body]
fn captures(pattern: &str, text: &str) -> (r: Result<Option<Vec<Option<String>>>, regex::Error>)
    ensures
        r matches Ok(groups) ==> groups.deep_view() == regex_captures(pattern@, text@),
        r is Err ==> regex_captures(pattern@, text@) is None,
{
    let regex = Regex::new(pattern)?;
    Ok(
        regex.captures(text).map(
            |found| found.iter().map(|group| group.map(|m| m.as_str().to_owned())).collect(),
        ),
    )
}

impl TransportAddress {
    /// The address that a list of capture groups holds, or `None` where one of
    /// the three groups is missing.
    pub fn from_groups(groups: &Vec<Option<String>>) -> (r: Option<TransportAddress>)
        ensures
            match r {
                Some(address) => address_of_groups(groups.deep_view()) == Some(address@),
                None => address_of_groups(groups.deep_view()) is None,
            },
    {
        if groups.len() <= LOCAL_GROUP {
            return None;
        }
        match (&groups[PROTOCOL_GROUP], &groups[REMOTE_GROUP], &groups[LOCAL_GROUP]) {
            (Some(protocol), Some(remote), Some(local)) => Some(
                TransportAddress {
                    protocol: protocol.clone(),
                    remote_address: remote.clone(),
                    local_address: local.clone(),
                },
            ),
            _ => None,
        }
    }

    /// This address written out as a line: the protocol, a colon and a space,
    /// the remote endpoint, the arrow and the local endpoint.
    pub fn line(&self) -> (r: String)
        ensures
            r@ == joined(self@),
    {
        self.protocol.clone().concat(": ").concat(self.remote_address.as_str()).concat(
            "->",
        ).concat(self.local_address.as_str())
    }

    /// Reads a transport address from a line such as
    /// `UDP: [127.0.0.1]:57517->[127.0.0.1]:162`. The result is `None` where
    /// the line does not have that shape from its first character to its
    /// last. An address is never filled in part, and where one is read, the
    /// line is that address written out.
    pub fn parse(line: &str) -> (r: Option<TransportAddress>)
        ensures
            match r {
                Some(address) => address_of_line(line@) == Some(address@),
                None => address_of_line(line@) is None,
            },
            r matches Some(address) ==> line@ == address@.protocol + ": "@
                + address@.remote_address + "->"@ + address@.local_address,
    {
        match captures(TRANSPORT_ADDRESS_PATTERN, line) {
            Ok(Some(groups)) => match TransportAddress::from_groups(&groups) {
                Some(address) => {
                    if same_text(address.line().as_str(), line) {
                        Some(address)
                    } else {
                        None
                    }
                },
                None => None,
            },
            Ok(None) => None,
            Err(_) => None,
        }
    }
}

} // verus!
