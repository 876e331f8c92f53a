//! Hexadecimal: 32-byte values read from 64 digits, and bytes shown as digits.

use crate::text;
use crate::text::chars_of;
use vstd::prelude::*;
use vstd::string::StringExecFns;

verus! {

/// The value of a hexadecimal digit of either case, if `c` is one.
pub open spec fn hex_value(c: char) -> Option<u8> {
    if '0' <= c <= '9' {
        Some((c as u8 - 48) as u8)
    } else if 'a' <= c <= 'f' {
        Some((c as u8 - 87) as u8)
    } else if 'A' <= c <= 'F' {
        Some((c as u8 - 55) as u8)
    } else {
        None
    }
}

/// The byte that two digits stand for, the high one first.
pub open spec fn hex_byte(high: char, low: char) -> u8 {
    (16 * hex_value(high).unwrap() + hex_value(low).unwrap()) as u8
}

/// The 32 bytes that exactly 64 hexadecimal digits stand for.
pub open spec fn hex32(digits: Seq<char>) -> Option<Seq<u8>> {
    if digits.len() == 64 && forall|i: int|
        0 <= i < 64 ==> hex_value(#[trigger] digits[i]) is Some {
        Some(Seq::new(32, |i: int| hex_byte(digits[2 * i], digits[2 * i + 1])))
    } else {
        None
    }
}

/// Each byte as two lower-case digits.
pub open spec fn hex_text(bytes: Seq<u8>) -> Seq<char>
    decreases bytes.len(),
{
    if bytes.len() == 0 {
        Seq::empty()
    } else {
        hex_text(bytes.drop_last()) + seq![
            text::digit_char(bytes.last() as int / 16),
            text::digit_char(bytes.last() as int % 16),
        ]
    }
}

/// The start of `bytes`, as far as a preview shows it.
pub open spec fn preview(bytes: Seq<u8>) -> Seq<u8> {
    if bytes.len() <= 32 {
        bytes
    } else {
        bytes.take(32)
    }
}

/// The value of a hexadecimal digit of either case, if `c` is one.
fn digit_value(c: char) -> (value: Option<u8>)
    ensures
        value == hex_value(c),
        value matches Some(v) ==> v < 16,
{
    if '0' <= c && c <= '9' {
        Some(c as u8 - 48)
    } else if 'a' <= c && c <= 'f' {
        Some(c as u8 - 87)
    } else if 'A' <= c && c <= 'F' {
        Some(c as u8 - 55)
    } else {
        None
    }
}

/// Reads a 32-byte value from its 64 hexadecimal digits, in either case.
pub fn parse_hex32(s: &str) -> (bytes: Option<[u8; 32]>)
    ensures
        match bytes {
            Some(value) => hex32(s@) == Some(value@),
            None => hex32(s@) is None,
        },
        bytes is Some <==> s@.len() == 64 && forall|i: int|
            0 <= i < 64 ==> ('0' <= #[trigger] s@[i] <= '9' || 'a' <= s@[i] <= 'f' || 'A' <= s@[i]
                <= 'F'),
{
    let digits = chars_of(s);
    if digits.len() != 64 {
        return None;
    }
    let mut out = [0u8; 32];
    for i in 0..32usize
        invariant
            digits@ == s@,
            digits@.len() == 64,
            forall|j: int| 0 <= j < 2 * i ==> hex_value(#[trigger] digits@[j]) is Some,
            forall|j: int|
                0 <= j < i ==> #[trigger] out@[j] == hex_byte(digits@[2 * j], digits@[2 * j + 1]),
    {
        match (digit_value(digits[2 * i]), digit_value(digits[2 * i + 1])) {
            (Some(high), Some(low)) => {
                out[i] = 16 * high + low;
            },
            _ => return None,
        }
    }
    assert(hex32(s@) == Some(out@));
    Some(out)
}

/// The first 32 of `b`'s bytes, or all of them if there are fewer, as digits.
pub fn hex_preview(b: &[u8]) -> (digits: String)
    ensures
        digits@ == hex_text(preview(b@)),
        digits@.len() == 2 * (if b@.len() < 32 {
            b@.len()
        } else {
            32
        }),
        forall|i: int|
            0 <= i < 32 && i < b@.len() ==> digits@[2 * i] == "0123456789abcdef"@[
            #[trigger] b@[i] as int / 16] && digits@[2 * i + 1] == "0123456789abcdef"@[b@[i] as int
                % 16],
{
    let n: usize = if b.len() <= 32 {
        b.len()
    } else {
        32
    };
    let mut digits = String::new();
    for i in 0..n
        invariant
            n <= b@.len(),
            digits@ == hex_text(b@.take(i as int)),
    {
        let ghost next = b@.take(i as int + 1);
        assert(next.drop_last() == b@.take(i as int));
        assert(next.last() == b@[i as int]);
        digits.append(text::digit(b[i] / 16));
        digits.append(text::digit(b[i] % 16));
        assert(digits@ == hex_text(next));
    }
    assert(b@.take(n as int) == preview(b@));
    proof {
        hex_text_digits(preview(b@));
        assert forall|i: int| 0 <= i < 32 && i < b@.len() implies digits@[2 * i]
            == "0123456789abcdef"@[#[trigger] b@[i] as int / 16] && digits@[2 * i + 1]
            == "0123456789abcdef"@[b@[i] as int % 16] by {
            assert(preview(b@)[i] == b@[i]);
            bytes_are_shown_in_pairs(preview(b@), i);
        }
    }
    digits
}

/// What bytes look like in digits: two for each, the high half first.
proof fn hex_text_digits(bytes: Seq<u8>)
    ensures
        hex_text(bytes).len() == 2 * bytes.len(),
        forall|i: int|
            0 <= i < bytes.len() ==> hex_text(bytes)[2 * i] == text::digit_char(
                #[trigger] bytes[i] as int / 16,
            ) && hex_text(bytes)[2 * i + 1] == text::digit_char(bytes[i] as int % 16),
    decreases bytes.len(),
{
    if bytes.len() > 0 {
        let rest = bytes.drop_last();
        hex_text_digits(rest);
        assert forall|i: int| 0 <= i < bytes.len() implies hex_text(bytes)[2 * i]
            == text::digit_char(#[trigger] bytes[i] as int / 16) && hex_text(bytes)[2 * i + 1]
            == text::digit_char(bytes[i] as int % 16) by {
            if i < rest.len() {
                assert(rest[i] == bytes[i]);
            }
        }
    }
}

/// Digits shown are digits read: any 32 bytes come back from their hexadecimal text.
pub proof fn hex_reads_back(bytes: Seq<u8>)
    requires
        bytes.len() == 32,
    ensures
        hex32(hex_text(bytes)) == Some(bytes),
{
    let digits = hex_text(bytes);
    hex_text_digits(bytes);
    assert forall|i: int| 0 <= i < 64 implies hex_value(#[trigger] digits[i]) is Some by {
        assert(i == 2 * (i / 2) || i == 2 * (i / 2) + 1);
        let b = bytes[i / 2];
    }
    let read = Seq::new(32, |i: int| hex_byte(digits[2 * i], digits[2 * i + 1]));
    assert forall|i: int| 0 <= i < 32 implies #[trigger] read[i] == bytes[i] by {
        let b = bytes[i];
        assert(16 * (b as int / 16) + b as int % 16 == b);
    }
    assert(read == bytes);
}

/// A digit has the value of its place in the row of digits, in either case, and nothing else is a
/// digit.
pub proof fn hex_digits_stand_in_their_row(c: char, v: u8)
    ensures
        hex_value(c) == Some(v) <==> v < 16 && (c == "0123456789abcdef"@[v as int] || c
            == "0123456789ABCDEF"@[v as int]),
{
    reveal_strlit("0123456789abcdef");
    reveal_strlit("0123456789ABCDEF");
}

/// Reading digits takes them two by two, the high one first: any 64 digits, of either case, give 32
/// bytes, each made of its own two digits.
pub proof fn digits_are_read_in_pairs(digits: Seq<char>, values: Seq<u8>, i: int)
    requires
        digits.len() == 64,
        values.len() == 64,
        forall|j: int|
            0 <= j < 64 ==> values[j] < 16 && (#[trigger] digits[j] == "0123456789abcdef"@[
            values[j] as int] || digits[j] == "0123456789ABCDEF"@[values[j] as int]),
        0 <= i < 32,
    ensures
        hex32(digits) is Some,
        hex32(digits).unwrap().len() == 32,
        hex32(digits).unwrap()[i] == 16 * values[2 * i] + values[2 * i + 1],
{
    assert forall|j: int| 0 <= j < 64 implies hex_value(#[trigger] digits[j]) == Some(
        values[j],
    ) by {
        hex_digits_stand_in_their_row(digits[j], values[j]);
    }
    assert(hex_value(digits[2 * i]) == Some(values[2 * i]));
    assert(hex_value(digits[2 * i + 1]) == Some(values[2 * i + 1]));
}

/// Showing bytes writes two lower-case digits for each, in order, the high one first.
pub proof fn bytes_are_shown_in_pairs(bytes: Seq<u8>, i: int)
    requires
        0 <= i < bytes.len(),
    ensures
        hex_text(bytes).len() == 2 * bytes.len(),
        hex_text(bytes)[2 * i] == "0123456789abcdef"@[bytes[i] as int / 16],
        hex_text(bytes)[2 * i + 1] == "0123456789abcdef"@[bytes[i] as int % 16],
{
    hex_text_digits(bytes);
    text::digits_stand_in_their_row(bytes[i] as int / 16);
    text::digits_stand_in_their_row(bytes[i] as int % 16);
}

/// A preview is the first 32 bytes, in order, or all of them where there are fewer.
pub proof fn previews_are_the_start(bytes: Seq<u8>)
    ensures
        preview(bytes).len() == if bytes.len() < 32 {
            bytes.len()
        } else {
            32
        },
        forall|i: int| 0 <= i < preview(bytes).len() ==> #[trigger] preview(bytes)[i] == bytes[i],
{
}

} // verus!
