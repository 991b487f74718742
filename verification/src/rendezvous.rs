//! The address at which the peers of one room find each other.
//!
//! It has the form `ws://host:port/room?next=N`, where `N` is the number of
//! peers that the signalling server puts together.

use vstd::prelude::*;
use vstd::string::StringExecFns;
use crate::model::PEER_COUNT;

verus! {

/// The character of a decimal digit.
pub open spec fn digit(d: int) -> char {
    if d == 0 {
        '0'
    } else if d == 1 {
        '1'
    } else if d == 2 {
        '2'
    } else if d == 3 {
        '3'
    } else if d == 4 {
        '4'
    } else if d == 5 {
        '5'
    } else if d == 6 {
        '6'
    } else if d == 7 {
        '7'
    } else if d == 8 {
        '8'
    } else {
        '9'
    }
}

/// A number written in decimal, without leading zeros.
pub open spec fn decimal(n: nat) -> Seq<char>
    decreases n,
{
    if n < 10 {
        seq![digit(n as int)]
    } else {
        decimal(n / 10).push(digit((n % 10) as int))
    }
}

/// The address of a room.
pub open spec fn room_address(host: Seq<char>, port: nat, room: Seq<char>, peers: nat) -> Seq<
    char,
> {
    "ws://"@ + host + ":"@ + decimal(port) + "/"@ + room + "?next="@ + decimal(peers)
}

/// One decimal digit as text.
fn digit_text(d: u64) -> (r: &'static str)
    requires
        d < 10,
    ensures
        r@ == seq![digit(d as int)],
{
    proof {
        reveal_strlit("0");
        reveal_strlit("1");
        reveal_strlit("2");
        reveal_strlit("3");
        reveal_strlit("4");
        reveal_strlit("5");
        reveal_strlit("6");
        reveal_strlit("7");
        reveal_strlit("8");
        reveal_strlit("9");
    }
    let r = if d == 0 {
        "0"
    } else if d == 1 {
        "1"
    } else if d == 2 {
        "2"
    } else if d == 3 {
        "3"
    } else if d == 4 {
        "4"
    } else if d == 5 {
        "5"
    } else if d == 6 {
        "6"
    } else if d == 7 {
        "7"
    } else if d == 8 {
        "8"
    } else {
        "9"
    };
    assert(r@ =~= seq![digit(d as int)]);
    r
}

/// Writes a number in decimal.
pub fn decimal_text(n: u64) -> (text: String)
    ensures
        text@ == decimal(n as nat),
    decreases n,
{
    if n < 10 {
        String::from_str(digit_text(n))
    } else {
        let mut text = decimal_text(n / 10);
        text.append(digit_text(n % 10));
        assert(text@ =~= decimal(n as nat));
        text
    }
}

/// Writes the address of `room` on the signalling server at `host` and
/// `port`, for a match of [`PEER_COUNT`] peers.
pub fn room_url(host: &str, port: u16, room: &str) -> (url: String)
    ensures
        url@ == room_address(host@, port as nat, room@, PEER_COUNT as nat),
{
    let mut url = String::from_str("ws://");
    url.append(host);
    url.append(":");
    let port_text = decimal_text(port as u64);
    url.append(port_text.as_str());
    url.append("/");
    url.append(room);
    url.append("?next=");
    let peers_text = decimal_text(PEER_COUNT as u64);
    url.append(peers_text.as_str());
    url
}

} // verus!
