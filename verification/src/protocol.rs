//! The wire format of the canvas protocol: the commands a client sends, the
//! replies a server gives, and how a command is written as a line of ASCII.

use vstd::prelude::*;

verus! {

/// A command sent to the canvas server.
#[derive(Debug, Clone, Copy, PartialEq, Eq, Structural)]
pub enum PixelflutRequest {
    GetSize,
    /// Layout of `rgb`: 8 bits padding, 8 bits red, 8 bits green, 8 bits blue.
    SetPixel { x: u16, y: u16, rgb: u32 },
    GetPixel { x: u16, y: u16 },
}

/// A reply read from the canvas server.
#[derive(Debug, Clone, Copy, PartialEq, Eq, Structural)]
pub enum PixelflutResponse {
    Size { width: u16, height: u16 },
    /// Layout of `rgb`: 8 bits padding, 8 bits red, 8 bits green, 8 bits blue.
    Pixel { x: u16, y: u16, rgb: u32 },
}

/// Why a conversation with the server had to stop. Neither kind is recovered
/// from: the caller gives up the connection.
#[derive(Debug, Clone, Copy, PartialEq, Eq, Structural)]
pub enum ClientError {
    /// A reply line has none of the known shapes, or one of its numbers does
    /// not parse.
    ProtocolError,
    /// A well-formed reply of a kind that was not asked for.
    UnexpectedReplyKind,
}

/// ASCII space, which separates the fields of a line.
pub const SPACE: u8 = 32;

/// ASCII line feed, which ends a line.
pub const NEWLINE: u8 = 10;

/// ASCII `0`.
pub const DIGIT_ZERO: u8 = 48;

/// ASCII `a`.
pub const LOWER_A: u8 = 97;

/// ASCII `A`.
pub const UPPER_A: u8 = 65;

/// The number of colours that the wire format can carry: 2^24.
pub const COLOR_LIMIT: u32 = 0x100_0000;

/// The keyword `SIZE`.
pub open spec fn keyword_size() -> Seq<u8> {
    seq![83u8, 73u8, 90u8, 69u8]
}

/// The keyword `PX`.
pub open spec fn keyword_px() -> Seq<u8> {
    seq![80u8, 88u8]
}

/// `n` in decimal, without sign or leading zeros.
pub open spec fn decimal_digits(n: nat) -> Seq<u8>
    decreases n,
{
    if n < 10 {
        seq![(DIGIT_ZERO + n) as u8]
    } else {
        decimal_digits(n / 10).push((DIGIT_ZERO + n % 10) as u8)
    }
}

/// The lowercase hexadecimal digit for `d`, where `d < 16`.
pub open spec fn hex_digit(d: int) -> u8 {
    if d < 10 {
        (DIGIT_ZERO + d) as u8
    } else {
        (LOWER_A + d - 10) as u8
    }
}

/// The low 24 bits of `rgb` as six lowercase hexadecimal digits, the most
/// significant first. The padding byte is not transmitted.
#[verifier::opaque]
pub open spec fn hex_color(rgb: u32) -> Seq<u8> {
    let c = rgb as int % 0x100_0000;
    seq![
        hex_digit(c / 0x10_0000 % 16),
        hex_digit(c / 0x1_0000 % 16),
        hex_digit(c / 0x1000 % 16),
        hex_digit(c / 0x100 % 16),
        hex_digit(c / 0x10 % 16),
        hex_digit(c % 16),
    ]
}

/// The line that carries `request`, with its line feed.
pub open spec fn encode_request(request: PixelflutRequest) -> Seq<u8> {
    match request {
        PixelflutRequest::GetSize => keyword_size().push(NEWLINE),
        PixelflutRequest::SetPixel { x, y, rgb } => keyword_px().push(SPACE) + decimal_digits(
            x as nat,
        ) + seq![SPACE] + decimal_digits(y as nat) + seq![SPACE] + hex_color(rgb) + seq![NEWLINE],
        PixelflutRequest::GetPixel { x, y } => keyword_px().push(SPACE) + decimal_digits(x as nat)
            + seq![SPACE] + decimal_digits(y as nat) + seq![NEWLINE],
    }
}

/// The lines of `requests`, one after the other.
pub open spec fn encode_requests(requests: Seq<PixelflutRequest>) -> Seq<u8>
    decreases requests.len(),
{
    if requests.len() == 0 {
        Seq::empty()
    } else {
        encode_requests(requests.drop_last()) + encode_request(requests.last())
    }
}

/// A value that can be written to the wire.
pub trait Serialize {
    /// The bytes that stand for this value on the wire.
    spec fn wire_format(&self) -> Seq<u8>;

    /// Appends the wire format of this value to `vec`.
    fn serialize(&self, vec: &mut Vec<u8>)
        ensures
            final(vec)@ == old(vec)@ + self.wire_format(),
    ;
}

fn push_decimal(vec: &mut Vec<u8>, n: u16)
    ensures
        final(vec)@ == old(vec)@ + decimal_digits(n as nat),
    decreases n,
{
    if n >= 10 {
        push_decimal(vec, n / 10);
    }
    vec.push(DIGIT_ZERO + (n % 10) as u8);
    assert(vec@ =~= old(vec)@ + decimal_digits(n as nat));
}

fn push_hex_digit(vec: &mut Vec<u8>, d: u32)
    requires
        d < 16,
    ensures
        final(vec)@ == old(vec)@.push(hex_digit(d as int)),
{
    if d < 10 {
        vec.push(DIGIT_ZERO + d as u8);
    } else {
        vec.push(LOWER_A + (d - 10) as u8);
    }
}

fn push_hex_color(vec: &mut Vec<u8>, rgb: u32)
    ensures
        final(vec)@ == old(vec)@ + hex_color(rgb),
{
    proof {
        reveal(hex_color);
    }
    let c: u32 = rgb % COLOR_LIMIT;
    push_hex_digit(vec, c / 0x10_0000 % 16);
    push_hex_digit(vec, c / 0x1_0000 % 16);
    push_hex_digit(vec, c / 0x1000 % 16);
    push_hex_digit(vec, c / 0x100 % 16);
    push_hex_digit(vec, c / 0x10 % 16);
    push_hex_digit(vec, c % 16);
    assert(vec@ =~= old(vec)@ + hex_color(rgb));
}

impl Serialize for PixelflutRequest {
    open spec fn wire_format(&self) -> Seq<u8> {
        encode_request(*self)
    }

    fn serialize(&self, vec: &mut Vec<u8>) {
        match *self {
            PixelflutRequest::GetSize => {
                vec.push(83u8);
                vec.push(73u8);
                vec.push(90u8);
                vec.push(69u8);
                vec.push(NEWLINE);
            },
            PixelflutRequest::SetPixel { x, y, rgb } => {
                vec.push(80u8);
                vec.push(88u8);
                vec.push(SPACE);
                push_decimal(vec, x);
                vec.push(SPACE);
                push_decimal(vec, y);
                vec.push(SPACE);
                push_hex_color(vec, rgb);
                vec.push(NEWLINE);
            },
            PixelflutRequest::GetPixel { x, y } => {
                vec.push(80u8);
                vec.push(88u8);
                vec.push(SPACE);
                push_decimal(vec, x);
                vec.push(SPACE);
                push_decimal(vec, y);
                vec.push(NEWLINE);
            },
        }
        assert(vec@ =~= old(vec)@ + encode_request(*self));
    }
}

} // verus!
