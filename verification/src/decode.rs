//! Reading lines of the canvas protocol.
//!
//! A line is a keyword and its fields, separated by single spaces and ended
//! by at most one line feed. The keyword may be written in either case. A
//! coordinate or a dimension is a run of decimal digits whose value fits in
//! 16 bits; a colour is exactly six hexadecimal digits of either case.
//! Anything else is a protocol error: no line is skipped or repaired.

use vstd::prelude::*;
use crate::protocol::{
    decimal_digits, encode_request, hex_color, hex_digit, keyword_px, keyword_size, ClientError,
    PixelflutRequest, PixelflutResponse, COLOR_LIMIT, DIGIT_ZERO, LOWER_A, NEWLINE, SPACE, UPPER_A,
};

verus! {

/// Whether `b` is one of `0` to `9`.
pub open spec fn is_digit(b: u8) -> bool {
    DIGIT_ZERO <= b <= DIGIT_ZERO + 9
}

/// Whether every byte of `s` is a decimal digit.
pub open spec fn all_digits(s: Seq<u8>) -> bool {
    forall|i: int| 0 <= i < s.len() ==> is_digit(#[trigger] s[i])
}

/// The number that the decimal digits `s` write, the most significant first.
pub open spec fn decimal_value(s: Seq<u8>) -> nat
    decreases s.len(),
{
    if s.len() == 0 {
        0
    } else {
        decimal_value(s.drop_last()) * 10 + (s.last() - DIGIT_ZERO) as nat
    }
}

/// The 16-bit number that `s` writes in decimal, if it writes one.
#[verifier::opaque]
pub open spec fn parse_decimal(s: Seq<u8>) -> Option<u16> {
    if s.len() > 0 && all_digits(s) && decimal_value(s) <= u16::MAX {
        Some(decimal_value(s) as u16)
    } else {
        None
    }
}

/// Whether `b` is a hexadecimal digit of either case.
pub open spec fn is_hex_digit(b: u8) -> bool {
    is_digit(b) || LOWER_A <= b <= LOWER_A + 5 || UPPER_A <= b <= UPPER_A + 5
}

/// The value of the hexadecimal digit `b`.
pub open spec fn hex_digit_value(b: u8) -> int {
    if is_digit(b) {
        b - DIGIT_ZERO
    } else if LOWER_A <= b {
        b - LOWER_A + 10
    } else {
        b - UPPER_A + 10
    }
}

/// The colour that `s` writes as six hexadecimal digits, if it writes one.
#[verifier::opaque]
pub open spec fn parse_color(s: Seq<u8>) -> Option<u32> {
    if s.len() == 6 && (forall|i: int| 0 <= i < 6 ==> is_hex_digit(#[trigger] s[i])) {
        Some(
            (hex_digit_value(s[0]) * 0x10_0000 + hex_digit_value(s[1]) * 0x1_0000
                + hex_digit_value(s[2]) * 0x1000 + hex_digit_value(s[3]) * 0x100
                + hex_digit_value(s[4]) * 0x10 + hex_digit_value(s[5])) as u32,
        )
    } else {
        None
    }
}

/// `line` without the line feed that ends it, if one does.
pub open spec fn trim_line_end(line: Seq<u8>) -> Seq<u8> {
    if line.len() > 0 && line.last() == NEWLINE {
        line.drop_last()
    } else {
        line
    }
}

/// The fields of `s`: the runs of bytes between its spaces, in order. There
/// is always one field more than there are spaces, so a field may be empty.
pub open spec fn split_fields(s: Seq<u8>) -> Seq<Seq<u8>>
    decreases s.len(),
{
    if s.len() == 0 {
        seq![Seq::empty()]
    } else {
        let before = split_fields(s.drop_last());
        if s.last() == SPACE {
            before.push(Seq::empty())
        } else {
            before.drop_last().push(before.last().push(s.last()))
        }
    }
}

/// `b` with a lowercase ASCII letter turned into its capital.
pub open spec fn to_upper(b: u8) -> u8 {
    if LOWER_A <= b <= LOWER_A + 25 {
        (b - 32) as u8
    } else {
        b
    }
}

/// Whether `field` spells `keyword`, itself in capitals, in either case.
pub open spec fn is_keyword(field: Seq<u8>, keyword: Seq<u8>) -> bool {
    &&& field.len() == keyword.len()
    &&& forall|i: int| 0 <= i < field.len() ==> to_upper(#[trigger] field[i]) == keyword[i]
}

/// The reply that the fields of a line make up.
#[verifier::opaque]
pub open spec fn response_of_fields(fields: Seq<Seq<u8>>) -> Option<PixelflutResponse> {
    if fields.len() == 3 && is_keyword(fields[0], keyword_size()) {
        match (parse_decimal(fields[1]), parse_decimal(fields[2])) {
            (Some(width), Some(height)) => Some(PixelflutResponse::Size { width, height }),
            _ => None,
        }
    } else if fields.len() == 4 && is_keyword(fields[0], keyword_px()) {
        match (parse_decimal(fields[1]), parse_decimal(fields[2]), parse_color(fields[3])) {
            (Some(x), Some(y), Some(rgb)) => Some(PixelflutResponse::Pixel { x, y, rgb }),
            _ => None,
        }
    } else {
        None
    }
}

/// The command that the fields of a line make up.
#[verifier::opaque]
pub open spec fn request_of_fields(fields: Seq<Seq<u8>>) -> Option<PixelflutRequest> {
    if fields.len() == 1 && is_keyword(fields[0], keyword_size()) {
        Some(PixelflutRequest::GetSize)
    } else if fields.len() == 3 && is_keyword(fields[0], keyword_px()) {
        match (parse_decimal(fields[1]), parse_decimal(fields[2])) {
            (Some(x), Some(y)) => Some(PixelflutRequest::GetPixel { x, y }),
            _ => None,
        }
    } else if fields.len() == 4 && is_keyword(fields[0], keyword_px()) {
        match (parse_decimal(fields[1]), parse_decimal(fields[2]), parse_color(fields[3])) {
            (Some(x), Some(y), Some(rgb)) => Some(PixelflutRequest::SetPixel { x, y, rgb }),
            _ => None,
        }
    } else {
        None
    }
}

/// The reply that `line` carries, if it has the shape of one:
/// `SIZE <width> <height>` or `PX <x> <y> <rrggbb>`.
pub open spec fn decode_response(line: Seq<u8>) -> Option<PixelflutResponse> {
    response_of_fields(split_fields(trim_line_end(line)))
}

/// The command that `line` carries, if it has the shape of one:
/// `SIZE`, `PX <x> <y>` or `PX <x> <y> <rrggbb>`.
pub open spec fn decode_request(line: Seq<u8>) -> Option<PixelflutRequest> {
    request_of_fields(split_fields(trim_line_end(line)))
}

/// The views of the vectors in `fields`.
pub open spec fn field_views(fields: Seq<Vec<u8>>) -> Seq<Seq<u8>> {
    fields.map_values(|field: Vec<u8>| field@)
}

proof fn lemma_decimal_value_prefix(s: Seq<u8>, k: int)
    requires
        0 <= k <= s.len(),
    ensures
        decimal_value(s.take(k)) <= decimal_value(s),
    decreases s.len(),
{
    if k == s.len() {
        assert(s.take(k) =~= s);
    } else {
        assert(s.drop_last().take(k) =~= s.take(k));
        lemma_decimal_value_prefix(s.drop_last(), k);
    }
}

fn parse_u16(field: &[u8]) -> (value: Option<u16>)
    ensures
        value == parse_decimal(field@),
{
    proof {
        reveal(parse_decimal);
    }
    let len = field.len();
    if len == 0 {
        return None;
    }
    let mut acc: u32 = 0;
    let mut i: usize = 0;
    while i < len
        invariant
            len == field.len(),
            i <= len,
            all_digits(field@.take(i as int)),
            acc == decimal_value(field@.take(i as int)),
            acc <= u16::MAX,
        decreases len - i,
    {
        proof {
            reveal(parse_decimal);
        }
        let b = field[i];
        if b < DIGIT_ZERO || b > DIGIT_ZERO + 9 {
            assert(!is_digit(field@[i as int]));
            return None;
        }
        assert(field@.take(i + 1).drop_last() =~= field@.take(i as int));
        assert(field@.take(i + 1).last() == b);
        acc = acc * 10 + (b - DIGIT_ZERO) as u32;
        if acc > 0xffff {
            proof {
                lemma_decimal_value_prefix(field@, i + 1);
            }
            return None;
        }
        i += 1;
    }
    assert(field@.take(len as int) =~= field@);
    Some(acc as u16)
}

fn hex_value(b: u8) -> (value: Option<u32>)
    ensures
        value is Some <==> is_hex_digit(b),
        value is Some ==> value->0 == hex_digit_value(b),
{
    if b >= DIGIT_ZERO && b <= DIGIT_ZERO + 9 {
        Some((b - DIGIT_ZERO) as u32)
    } else if b >= LOWER_A && b <= LOWER_A + 5 {
        Some((b - LOWER_A) as u32 + 10)
    } else if b >= UPPER_A && b <= UPPER_A + 5 {
        Some((b - UPPER_A) as u32 + 10)
    } else {
        None
    }
}

fn parse_hex_color(field: &[u8]) -> (value: Option<u32>)
    ensures
        value == parse_color(field@),
{
    proof {
        reveal(parse_color);
    }
    if field.len() != 6 {
        return None;
    }
    let mut acc: u32 = 0;
    let mut i: usize = 0;
    while i < 6
        invariant
            field.len() == 6,
            i <= 6,
            forall|j: int| 0 <= j < i ==> is_hex_digit(#[trigger] field@[j]),
            i == 0 ==> acc == 0,
            i == 1 ==> acc == hex_digit_value(field@[0]),
            i == 2 ==> acc == hex_digit_value(field@[0]) * 0x10 + hex_digit_value(field@[1]),
            i == 3 ==> acc == hex_digit_value(field@[0]) * 0x100 + hex_digit_value(field@[1])
                * 0x10 + hex_digit_value(field@[2]),
            i == 4 ==> acc == hex_digit_value(field@[0]) * 0x1000 + hex_digit_value(field@[1])
                * 0x100 + hex_digit_value(field@[2]) * 0x10 + hex_digit_value(field@[3]),
            i == 5 ==> acc == hex_digit_value(field@[0]) * 0x1_0000 + hex_digit_value(field@[1])
                * 0x1000 + hex_digit_value(field@[2]) * 0x100 + hex_digit_value(field@[3]) * 0x10
                + hex_digit_value(field@[4]),
            i == 6 ==> acc == hex_digit_value(field@[0]) * 0x10_0000 + hex_digit_value(field@[1])
                * 0x1_0000 + hex_digit_value(field@[2]) * 0x1000 + hex_digit_value(field@[3])
                * 0x100 + hex_digit_value(field@[4]) * 0x10 + hex_digit_value(field@[5]),
        decreases 6 - i,
    {
        proof {
            reveal(parse_color);
        }
        match hex_value(field[i]) {
            None => {
                return None;
            },
            Some(d) => {
                acc = acc * 16 + d;
            },
        }
        i += 1;
    }
    Some(acc)
}

fn upper(b: u8) -> (c: u8)
    ensures
        c == to_upper(b),
{
    if b >= LOWER_A && b <= LOWER_A + 25 {
        b - 32
    } else {
        b
    }
}

fn is_size_keyword(field: &[u8]) -> (yes: bool)
    ensures
        yes == is_keyword(field@, keyword_size()),
{
    field.len() == 4 && upper(field[0]) == 83 && upper(field[1]) == 73 && upper(field[2]) == 90
        && upper(field[3]) == 69
}

fn is_px_keyword(field: &[u8]) -> (yes: bool)
    ensures
        yes == is_keyword(field@, keyword_px()),
{
    field.len() == 2 && upper(field[0]) == 80 && upper(field[1]) == 88
}

fn split_line(line: &[u8]) -> (fields: Vec<Vec<u8>>)
    ensures
        field_views(fields@) == split_fields(trim_line_end(line@)),
{
    let mut end = line.len();
    if end > 0 && line[end - 1] == NEWLINE {
        end = end - 1;
    }
    let ghost body = line@.take(end as int);
    assert(body =~= trim_line_end(line@));
    let mut fields: Vec<Vec<u8>> = Vec::new();
    let mut current: Vec<u8> = Vec::new();
    let mut i: usize = 0;
    assert(body.take(0) =~= Seq::<u8>::empty());
    assert(field_views(fields@).push(current@) =~= seq![Seq::<u8>::empty()]);
    while i < end
        invariant
            i <= end <= line.len(),
            body == line@.take(end as int),
            split_fields(body.take(i as int)) == field_views(fields@).push(current@),
        decreases end - i,
    {
        let b = line[i];
        let ghost before = field_views(fields@).push(current@);
        assert(body.take(i + 1).drop_last() =~= body.take(i as int));
        assert(body.take(i + 1).last() == b);
        if b == SPACE {
            fields.push(current);
            current = Vec::new();
            assert(field_views(fields@).push(current@) =~= before.push(Seq::empty()));
        } else {
            current.push(b);
            assert(field_views(fields@).push(current@) =~= before.drop_last().push(
                before.last().push(b),
            ));
        }
        i += 1;
    }
    assert(body.take(end as int) =~= body);
    let ghost before = field_views(fields@).push(current@);
    fields.push(current);
    assert(field_views(fields@) =~= before);
    fields
}

/// Reads one reply line, with or without its line feed.
pub fn parse_response(line: &[u8]) -> (result: Result<PixelflutResponse, ClientError>)
    ensures
        result == match decode_response(line@) {
            Some(response) => Ok::<PixelflutResponse, ClientError>(response),
            None => Err(ClientError::ProtocolError),
        },
{
    proof {
        reveal(response_of_fields);
    }
    let fields = split_line(line);
    assert(forall|i: int|
        0 <= i < fields.len() ==> (#[trigger] fields@[i])@ == field_views(fields@)[i]);
    if fields.len() == 3 && is_size_keyword(fields[0].as_slice()) {
        let width = parse_u16(fields[1].as_slice());
        let height = parse_u16(fields[2].as_slice());
        match (width, height) {
            (Some(width), Some(height)) => Ok(PixelflutResponse::Size { width, height }),
            _ => Err(ClientError::ProtocolError),
        }
    } else if fields.len() == 4 && is_px_keyword(fields[0].as_slice()) {
        let x = parse_u16(fields[1].as_slice());
        let y = parse_u16(fields[2].as_slice());
        let rgb = parse_hex_color(fields[3].as_slice());
        match (x, y, rgb) {
            (Some(x), Some(y), Some(rgb)) => Ok(PixelflutResponse::Pixel { x, y, rgb }),
            _ => Err(ClientError::ProtocolError),
        }
    } else {
        Err(ClientError::ProtocolError)
    }
}

/// Reads one command line, with or without its line feed.
pub fn parse_request(line: &[u8]) -> (result: Result<PixelflutRequest, ClientError>)
    ensures
        result == match decode_request(line@) {
            Some(request) => Ok::<PixelflutRequest, ClientError>(request),
            None => Err(ClientError::ProtocolError),
        },
{
    proof {
        reveal(request_of_fields);
    }
    let fields = split_line(line);
    assert(forall|i: int|
        0 <= i < fields.len() ==> (#[trigger] fields@[i])@ == field_views(fields@)[i]);
    if fields.len() == 1 && is_size_keyword(fields[0].as_slice()) {
        Ok(PixelflutRequest::GetSize)
    } else if fields.len() == 3 && is_px_keyword(fields[0].as_slice()) {
        let x = parse_u16(fields[1].as_slice());
        let y = parse_u16(fields[2].as_slice());
        match (x, y) {
            (Some(x), Some(y)) => Ok(PixelflutRequest::GetPixel { x, y }),
            _ => Err(ClientError::ProtocolError),
        }
    } else if fields.len() == 4 && is_px_keyword(fields[0].as_slice()) {
        let x = parse_u16(fields[1].as_slice());
        let y = parse_u16(fields[2].as_slice());
        let rgb = parse_hex_color(fields[3].as_slice());
        match (x, y, rgb) {
            (Some(x), Some(y), Some(rgb)) => Ok(PixelflutRequest::SetPixel { x, y, rgb }),
            _ => Err(ClientError::ProtocolError),
        }
    } else {
        Err(ClientError::ProtocolError)
    }
}

/// Whether no byte of `s` is a space.
pub open spec fn no_space(s: Seq<u8>) -> bool {
    forall|i: int| 0 <= i < s.len() ==> #[trigger] s[i] != SPACE
}

proof fn lemma_split_fields_len(s: Seq<u8>)
    ensures
        split_fields(s).len() >= 1,
    decreases s.len(),
{
    if s.len() > 0 {
        lemma_split_fields_len(s.drop_last());
    }
}

proof fn lemma_split_extend(s: Seq<u8>, word: Seq<u8>)
    requires
        no_space(word),
    ensures
        split_fields(s + word) == split_fields(s).drop_last().push(split_fields(s).last() + word),
    decreases word.len(),
{
    lemma_split_fields_len(s);
    let fields = split_fields(s);
    if word.len() == 0 {
        assert(s + word =~= s);
        assert(fields.last() + word =~= fields.last());
        assert(fields.drop_last().push(fields.last()) =~= fields);
    } else {
        let shorter = word.drop_last();
        assert(no_space(shorter)) by {
            assert forall|i: int| 0 <= i < shorter.len() implies #[trigger] shorter[i] != SPACE by {
                assert(shorter[i] == word[i]);
            }
        }
        lemma_split_extend(s, shorter);
        assert((s + word).drop_last() =~= s + shorter);
        assert((s + word).last() == word.last());
        assert(word.last() == word[word.len() - 1]);
        let before = split_fields(s + shorter);
        assert(before.last() == fields.last() + shorter);
        assert(before.drop_last() =~= fields.drop_last());
        assert((fields.last() + shorter).push(word.last()) =~= fields.last() + word);
    }
}

proof fn lemma_split_word(word: Seq<u8>)
    requires
        no_space(word),
    ensures
        split_fields(word) == seq![word],
{
    let empty = Seq::<u8>::empty();
    lemma_split_extend(empty, word);
    assert(empty + word =~= word);
    assert(split_fields(empty).drop_last().push(split_fields(empty).last() + word) =~= seq![word]);
}

proof fn lemma_split_next_field(s: Seq<u8>, word: Seq<u8>)
    requires
        no_space(word),
    ensures
        split_fields(s.push(SPACE) + word) == split_fields(s).push(word),
{
    let spaced = s.push(SPACE);
    assert(spaced.drop_last() =~= s);
    lemma_split_extend(spaced, word);
    let fields = split_fields(spaced);
    assert(fields == split_fields(s).push(Seq::<u8>::empty()));
    assert(fields.drop_last() =~= split_fields(s));
    assert(fields.last() + word =~= word);
}

proof fn lemma_decimal_digits_read_back(n: nat)
    ensures
        decimal_digits(n).len() > 0,
        all_digits(decimal_digits(n)),
        no_space(decimal_digits(n)),
        decimal_value(decimal_digits(n)) == n,
    decreases n,
{
    let digits = decimal_digits(n);
    if n < 10 {
        assert(digits.drop_last() =~= Seq::<u8>::empty());
        assert(decimal_value(digits.drop_last()) == 0);
    } else {
        lemma_decimal_digits_read_back(n / 10);
        assert(digits.drop_last() =~= decimal_digits(n / 10));
    }
}

proof fn lemma_hex_digit_read_back(d: int)
    requires
        0 <= d < 16,
    ensures
        is_hex_digit(hex_digit(d)),
        hex_digit_value(hex_digit(d)) == d,
        hex_digit(d) != SPACE,
{
}

proof fn lemma_hex_color_read_back(rgb: u32)
    ensures
        hex_color(rgb).len() == 6,
        no_space(hex_color(rgb)),
        parse_color(hex_color(rgb)) == Some((rgb % COLOR_LIMIT) as u32),
{
    reveal(hex_color);
    reveal(parse_color);
    let c: u32 = rgb % 0x100_0000;
    let d5: u32 = c / 0x10_0000 % 16;
    let d4: u32 = c / 0x1_0000 % 16;
    let d3: u32 = c / 0x1000 % 16;
    let d2: u32 = c / 0x100 % 16;
    let d1: u32 = c / 0x10 % 16;
    let d0: u32 = c % 16;
    assert(d5 * 0x10_0000 + d4 * 0x1_0000 + d3 * 0x1000 + d2 * 0x100 + d1 * 0x10 + d0 == c)
        by (bit_vector)
        requires
            c < 0x100_0000,
            d5 == c / 0x10_0000 % 16,
            d4 == c / 0x1_0000 % 16,
            d3 == c / 0x1000 % 16,
            d2 == c / 0x100 % 16,
            d1 == c / 0x10 % 16,
            d0 == c % 16,
    ;
    lemma_hex_digit_read_back(d5 as int);
    lemma_hex_digit_read_back(d4 as int);
    lemma_hex_digit_read_back(d3 as int);
    lemma_hex_digit_read_back(d2 as int);
    lemma_hex_digit_read_back(d1 as int);
    lemma_hex_digit_read_back(d0 as int);
    let digits = hex_color(rgb);
    assert(digits[0] == hex_digit(d5 as int));
    assert(digits[1] == hex_digit(d4 as int));
    assert(digits[2] == hex_digit(d3 as int));
    assert(digits[3] == hex_digit(d2 as int));
    assert(digits[4] == hex_digit(d1 as int));
    assert(digits[5] == hex_digit(d0 as int));
}

proof fn lemma_keywords()
    ensures
        no_space(keyword_px()),
        no_space(keyword_size()),
        is_keyword(keyword_px(), keyword_px()),
        is_keyword(keyword_size(), keyword_size()),
{
}

/// The colour that a command carries on the wire: its low 24 bits.
pub open spec fn wire_color(rgb: u32) -> u32 {
    (rgb % COLOR_LIMIT) as u32
}

/// `request` as the wire carries it: a set command keeps the low 24 bits of
/// its colour, anything else is unchanged.
pub open spec fn as_transmitted(request: PixelflutRequest) -> PixelflutRequest {
    match request {
        PixelflutRequest::SetPixel { x, y, rgb } => PixelflutRequest::SetPixel {
            x,
            y,
            rgb: wire_color(rgb),
        },
        other => other,
    }
}

proof fn lemma_fields_of_pixel_line(x: u16, y: u16)
    ensures
        split_fields(
            keyword_px().push(SPACE) + decimal_digits(x as nat) + seq![SPACE] + decimal_digits(
                y as nat,
            ),
        ) == seq![keyword_px(), decimal_digits(x as nat), decimal_digits(y as nat)],
{
    let dx = decimal_digits(x as nat);
    let dy = decimal_digits(y as nat);
    lemma_keywords();
    lemma_decimal_digits_read_back(x as nat);
    lemma_decimal_digits_read_back(y as nat);
    lemma_split_word(keyword_px());
    lemma_split_next_field(keyword_px(), dx);
    let first = keyword_px().push(SPACE) + dx;
    lemma_split_next_field(first, dy);
    assert(first + seq![SPACE] + dy =~= first.push(SPACE) + dy);
    assert(seq![keyword_px()].push(dx).push(dy) =~= seq![keyword_px(), dx, dy]);
}

proof fn lemma_fields_of_set_pixel(x: u16, y: u16, rgb: u32)
    ensures
        split_fields(
            trim_line_end(encode_request(PixelflutRequest::SetPixel { x, y, rgb })),
        ) == seq![
            keyword_px(),
            decimal_digits(x as nat),
            decimal_digits(y as nat),
            hex_color(rgb),
        ],
{
    let line = encode_request(PixelflutRequest::SetPixel { x, y, rgb });
    let coordinates = keyword_px().push(SPACE) + decimal_digits(x as nat) + seq![SPACE]
        + decimal_digits(y as nat);
    let body = coordinates + seq![SPACE] + hex_color(rgb);
    assert(line.last() == NEWLINE);
    assert(trim_line_end(line) =~= body);
    lemma_fields_of_pixel_line(x, y);
    lemma_hex_color_read_back(rgb);
    lemma_split_next_field(coordinates, hex_color(rgb));
    assert(body =~= coordinates.push(SPACE) + hex_color(rgb));
    assert(seq![keyword_px(), decimal_digits(x as nat), decimal_digits(y as nat)].push(
        hex_color(rgb),
    ) =~= seq![
        keyword_px(),
        decimal_digits(x as nat),
        decimal_digits(y as nat),
        hex_color(rgb),
    ]);
}

proof fn lemma_fields_of_get_pixel(x: u16, y: u16)
    ensures
        split_fields(trim_line_end(encode_request(PixelflutRequest::GetPixel { x, y }))) == seq![
            keyword_px(),
            decimal_digits(x as nat),
            decimal_digits(y as nat),
        ],
{
    let line = encode_request(PixelflutRequest::GetPixel { x, y });
    let body = keyword_px().push(SPACE) + decimal_digits(x as nat) + seq![SPACE] + decimal_digits(
        y as nat,
    );
    assert(line.last() == NEWLINE);
    assert(trim_line_end(line) =~= body);
    lemma_fields_of_pixel_line(x, y);
}

proof fn lemma_fields_of_get_size()
    ensures
        split_fields(trim_line_end(encode_request(PixelflutRequest::GetSize))) == seq![
            keyword_size(),
        ],
{
    let line = encode_request(PixelflutRequest::GetSize);
    assert(line.last() == NEWLINE);
    assert(trim_line_end(line) =~= keyword_size());
    lemma_keywords();
    lemma_split_word(keyword_size());
}

proof fn lemma_coordinate_fields(x: u16, y: u16)
    ensures
        parse_decimal(decimal_digits(x as nat)) == Some(x),
        parse_decimal(decimal_digits(y as nat)) == Some(y),
{
    reveal(parse_decimal);
    lemma_decimal_digits_read_back(x as nat);
    lemma_decimal_digits_read_back(y as nat);
}

proof fn lemma_request_of_size_fields(keyword: Seq<u8>)
    requires
        is_keyword(keyword, keyword_size()),
    ensures
        request_of_fields(seq![keyword]) == Some(PixelflutRequest::GetSize),
{
    reveal(request_of_fields);
    let fields = seq![keyword];
    assert(fields.len() == 1);
    assert(fields[0] == keyword);
}

proof fn lemma_request_of_get_fields(keyword: Seq<u8>, first: Seq<u8>, second: Seq<u8>)
    requires
        is_keyword(keyword, keyword_px()),
        parse_decimal(first) is Some,
        parse_decimal(second) is Some,
    ensures
        request_of_fields(seq![keyword, first, second]) == Some(
            PixelflutRequest::GetPixel { x: parse_decimal(first)->0, y: parse_decimal(second)->0 },
        ),
{
    reveal(request_of_fields);
    let fields = seq![keyword, first, second];
    assert(fields.len() == 3);
    assert(fields[0] == keyword);
    assert(fields[1] == first);
    assert(fields[2] == second);
}

proof fn lemma_request_of_set_fields(
    keyword: Seq<u8>,
    first: Seq<u8>,
    second: Seq<u8>,
    third: Seq<u8>,
)
    requires
        is_keyword(keyword, keyword_px()),
        parse_decimal(first) is Some,
        parse_decimal(second) is Some,
        parse_color(third) is Some,
    ensures
        request_of_fields(seq![keyword, first, second, third]) == Some(
            PixelflutRequest::SetPixel {
                x: parse_decimal(first)->0,
                y: parse_decimal(second)->0,
                rgb: parse_color(third)->0,
            },
        ),
{
    reveal(request_of_fields);
    let fields = seq![keyword, first, second, third];
    assert(fields.len() == 4);
    assert(fields[0] == keyword);
    assert(fields[1] == first);
    assert(fields[2] == second);
    assert(fields[3] == third);
}

proof fn lemma_response_of_pixel_fields(
    keyword: Seq<u8>,
    first: Seq<u8>,
    second: Seq<u8>,
    third: Seq<u8>,
)
    requires
        is_keyword(keyword, keyword_px()),
        parse_decimal(first) is Some,
        parse_decimal(second) is Some,
        parse_color(third) is Some,
    ensures
        response_of_fields(seq![keyword, first, second, third]) == Some(
            PixelflutResponse::Pixel {
                x: parse_decimal(first)->0,
                y: parse_decimal(second)->0,
                rgb: parse_color(third)->0,
            },
        ),
{
    reveal(response_of_fields);
    let fields = seq![keyword, first, second, third];
    assert(fields.len() == 4);
    assert(fields[0] == keyword);
    assert(fields[1] == first);
    assert(fields[2] == second);
    assert(fields[3] == third);
}

/// Reading back the line of any command gives the command as transmitted.
pub proof fn lemma_request_round_trip(request: PixelflutRequest)
    ensures
        decode_request(encode_request(request)) == Some(as_transmitted(request)),
{
    lemma_keywords();
    match request {
        PixelflutRequest::GetSize => {
            lemma_fields_of_get_size();
            lemma_request_of_size_fields(keyword_size());
        },
        PixelflutRequest::GetPixel { x, y } => {
            lemma_fields_of_get_pixel(x, y);
            lemma_coordinate_fields(x, y);
            lemma_request_of_get_fields(
                keyword_px(),
                decimal_digits(x as nat),
                decimal_digits(y as nat),
            );
        },
        PixelflutRequest::SetPixel { x, y, rgb } => {
            lemma_fields_of_set_pixel(x, y, rgb);
            lemma_coordinate_fields(x, y);
            lemma_hex_color_read_back(rgb);
            lemma_request_of_set_fields(
                keyword_px(),
                decimal_digits(x as nat),
                decimal_digits(y as nat),
                hex_color(rgb),
            );
        },
    }
}

/// A command to set a pixel to a colour below 2^24 reads back as itself:
/// both coordinates and all six digits of the colour, leading zeros too.
pub proof fn lemma_set_pixel_round_trip(x: u16, y: u16, rgb: u32)
    requires
        rgb < COLOR_LIMIT,
    ensures
        hex_color(rgb).len() == 6,
        decode_request(encode_request(PixelflutRequest::SetPixel { x, y, rgb })) == Some(
            PixelflutRequest::SetPixel { x, y, rgb },
        ),
{
    lemma_request_round_trip(PixelflutRequest::SetPixel { x, y, rgb });
    lemma_hex_color_read_back(rgb);
    assert(wire_color(rgb) == rgb);
}

/// A command to get a pixel reads back as itself.
pub proof fn lemma_get_pixel_round_trip(x: u16, y: u16)
    ensures
        decode_request(encode_request(PixelflutRequest::GetPixel { x, y })) == Some(
            PixelflutRequest::GetPixel { x, y },
        ),
{
    lemma_request_round_trip(PixelflutRequest::GetPixel { x, y });
}

/// The line that sets a pixel is also the reply that reports it: a server
/// that echoes the line answers with the same coordinates and colour.
pub proof fn lemma_set_pixel_reads_as_reply(x: u16, y: u16, rgb: u32)
    ensures
        decode_response(encode_request(PixelflutRequest::SetPixel { x, y, rgb })) == Some(
            PixelflutResponse::Pixel { x, y, rgb: wire_color(rgb) },
        ),
{
    lemma_keywords();
    lemma_fields_of_set_pixel(x, y, rgb);
    lemma_coordinate_fields(x, y);
    lemma_hex_color_read_back(rgb);
    lemma_response_of_pixel_fields(
        keyword_px(),
        decimal_digits(x as nat),
        decimal_digits(y as nat),
        hex_color(rgb),
    );
}

} // verus!
