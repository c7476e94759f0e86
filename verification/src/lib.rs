//! Relays one trap, received as lines of text, to a list of HTTP destinations.
//!
//! `destination` says which addresses are accepted as destinations, `trap`
//! reads the message from its lines with the help of `address` and `text`, and
//! `delivery` plans the requests and judges what came of them. Reading the
//! lines, turning the message into a body and sending the requests are left to
//! the caller.

pub mod address;
pub mod delivery;
pub mod destination;
pub mod text;
pub mod trap;
