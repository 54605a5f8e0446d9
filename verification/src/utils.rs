//! Text for the log: the flags of a segment and the endpoints of a
//! connection.

use vstd::prelude::*;
use crate::segment::SegmentModel;
use crate::segment::TcpSegment;

verus! {

/// The character of the decimal digit `digit`.
pub open spec fn digit_char(digit: nat) -> char {
    ((48 + digit) as u8) as char
}

/// The decimal numeral of `n`, without leading zeros.
pub open spec fn decimal(n: nat) -> Seq<char>
    decreases n,
{
    if n < 10 {
        seq![digit_char(n)]
    } else {
        decimal(n / 10).push(digit_char(n % 10))
    }
}

/// The text of an endpoint: the four octets of the IP in decimal, from the
/// highest, with dots between them, then a colon and the port in decimal.
pub open spec fn endpoint_text(ip: u32, port: u16) -> Seq<char> {
    decimal((ip / 0x100_0000) as nat) + seq!['.'] + decimal(((ip / 0x1_0000) % 0x100) as nat)
        + seq!['.'] + decimal(((ip / 0x100) % 0x100) as nat) + seq!['.'] + decimal(
        (ip % 0x100) as nat,
    ) + seq![':'] + decimal(port as nat)
}

/// Joins four octets and a port into `A.B.C.D:P` with `format!`.
///
/// Trusted: `format!` renders each unsigned number as its decimal numeral
/// without leading zeros, and copies the dots and the colon.
#[verifier::external_body]
fn join_endpoint(a: u8, b: u8, c: u8, d: u8, port: u16) -> (text: String)
    ensures
        text@ == decimal(a as nat) + seq!['.'] + decimal(b as nat) + seq!['.'] + decimal(c as nat)
            + seq!['.'] + decimal(d as nat) + seq![':'] + decimal(port as nat),
{
    format!("{}.{}.{}.{}:{}", a, b, c, d, port)
}

/// The text `A.B.C.D:P` of an endpoint.
pub fn format_endpoint(ip: u32, port: u16) -> (text: String)
    ensures
        text@ == endpoint_text(ip, port),
{
    join_endpoint(
        (ip / 0x100_0000) as u8,
        ((ip / 0x1_0000) % 0x100) as u8,
        ((ip / 0x100) % 0x100) as u8,
        (ip % 0x100) as u8,
        port,
    )
}

/// The label of the flags of a segment: of the first that is set among
/// RST, FIN and SYN, with a SYN that comes with an ACK as `SYN/ACK`, and
/// the empty label where none of the three is set.
pub open spec fn flags_label(segment: SegmentModel) -> Seq<char> {
    if segment.rst {
        "RST"@
    } else if segment.fin {
        "FIN"@
    } else if segment.syn && segment.ack {
        "SYN/ACK"@
    } else if segment.syn {
        "SYN"@
    } else {
        ""@
    }
}

/// The most meaningful flag of a TCP segment, by priority: RST, FIN,
/// SYN/ACK, SYN, or nothing.
pub fn tcp_flags_to_string(tcp: &TcpSegment) -> (label: &'static str)
    ensures
        label@ == flags_label(tcp@),
{
    if tcp.rst {
        return "RST";
    }
    if tcp.fin {
        return "FIN";
    }
    if tcp.syn {
        if tcp.ack {
            return "SYN/ACK";
        }
        return "SYN";
    }
    return "";
}

} // verus!
