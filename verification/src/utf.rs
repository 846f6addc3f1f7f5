//! Decoding of one Unicode scalar value from the front of a byte slice.
//!
//! The mathematical model is [`decode`]; [`read_utf`] is the executable
//! decoder and is proved to agree with it on every input.

use vstd::prelude::*;
use vstd::utf8::{
    codepoint_width_1, codepoint_width_2, codepoint_width_3, codepoint_width_4,
    decode_first_codepoint, encode_scalar, last_continuation_byte, leading_byte_width_1,
    leading_byte_width_2, leading_byte_width_3, leading_byte_width_4, length_of_first_codepoint,
    second_last_continuation_byte, third_last_continuation_byte, utf8_byte_ranges_bitwise,
    valid_first_scalar, valid_leading_and_continuation_bytes_first_codepoint,
};

use crate::binary::{binary_digits, binary_text};
use crate::errors::Error;

verus! {

/// How many continuation bytes the leading byte `lead` announces, read off
/// the four leading forms `0xxxxxxx`, `110xxxxx`, `1110xxxx` and `11110xxx`.
/// `None` where `lead` has none of these forms.
pub open spec fn announced(lead: u8) -> Option<nat> {
    if lead & 0x80 == 0x00 {
        Some(0nat)
    } else if lead & 0xE0 == 0xC0 {
        Some(1nat)
    } else if lead & 0xF0 == 0xE0 {
        Some(2nat)
    } else if lead & 0xF8 == 0xF0 {
        Some(3nat)
    } else {
        None
    }
}

/// The value bits of a leading byte that announces `extra` continuation
/// bytes: the byte with the bits of its form cleared.
pub open spec fn lead_bits(lead: u8, extra: nat) -> u32 {
    if extra == 0 {
        (lead & 0x7F) as u32
    } else if extra == 1 {
        (lead & 0x1F) as u32
    } else if extra == 2 {
        (lead & 0x0F) as u32
    } else {
        (lead & 0x07) as u32
    }
}

/// Whether `byte` has the continuation form `10xxxxxx`.
pub open spec fn is_continuation(byte: u8) -> bool {
    byte & 0xC0 == 0x80
}

/// The accumulator after one more continuation byte: six places up, and the
/// byte's low six bits in the room made.
pub open spec fn fold_continuation(acc: u32, byte: u8) -> u32 {
    (acc << 6) | ((byte & 0x3F) as u32)
}

/// The accumulator after the leading byte of `bytes`, which announces `extra`
/// continuation bytes, and the first `taken` of them.
pub open spec fn accumulated(bytes: Seq<u8>, extra: nat, taken: nat) -> u32
    decreases taken,
{
    if taken == 0 {
        lead_bits(bytes[0], extra)
    } else {
        fold_continuation(accumulated(bytes, extra, (taken - 1) as nat), bytes[taken as int])
    }
}

/// Whether the bytes at positions `1..=extra` all have the continuation form.
pub open spec fn continuations_ok(bytes: Seq<u8>, extra: nat) -> bool {
    forall|i: int| 1 <= i <= extra ==> is_continuation(#[trigger] bytes[i])
}

/// Whether `value` is a Unicode scalar value: at most `0x10FFFF` and outside
/// the surrogate range `0xD800..=0xDFFF`.
pub open spec fn is_scalar(value: u32) -> bool {
    value < 0xD800 || (0xE000 <= value && value <= 0x10FFFF)
}

/// The ways in which bytes fail to decode.
pub enum Fault {
    /// The input is empty or ends before the announced sequence is complete.
    Truncated,
    /// The first byte, held here, has none of the four leading forms.
    Lead(u8),
    /// A byte inside the announced sequence lacks the continuation form.
    Continuation,
    /// The assembled number is not a Unicode scalar value.
    Scalar,
}

impl Fault {
    /// Whether `error` is the report of this fault: `EofError` for a
    /// truncated input, and otherwise a `Utf8Error` whose text is the
    /// offending leading byte in base two, `Byte` for a bad continuation
    /// byte, or `Invalid UTF8 Code` for a number that is no scalar value.
    pub open spec fn reported_as(self, error: Error) -> bool {
        match self {
            Fault::Truncated => error is EofError,
            Fault::Lead(byte) => error matches Error::Utf8Error(detail) && detail@
                == binary_digits(byte as nat),
            Fault::Continuation => error matches Error::Utf8Error(detail) && detail@ == "Byte"@,
            Fault::Scalar => error matches Error::Utf8Error(detail) && detail@
                == "Invalid UTF8 Code"@,
        }
    }
}

/// What the front of `bytes` decodes to: the scalar value together with the
/// number of continuation bytes behind its leading byte, or the first fault
/// met. The leading form is judged first, then the length, then each
/// continuation byte, then the assembled number. Shorter forms are not
/// preferred: a sequence longer than its value needs still decodes.
pub open spec fn decode(bytes: Seq<u8>) -> Result<(char, nat), Fault> {
    if bytes.len() == 0 {
        Err(Fault::Truncated)
    } else {
        match announced(bytes[0]) {
            None => Err(Fault::Lead(bytes[0])),
            Some(extra) => {
                if bytes.len() <= extra {
                    Err(Fault::Truncated)
                } else if !continuations_ok(bytes, extra) {
                    Err(Fault::Continuation)
                } else if !is_scalar(accumulated(bytes, extra, extra)) {
                    Err(Fault::Scalar)
                } else {
                    Ok((accumulated(bytes, extra, extra) as char, extra))
                }
            },
        }
    }
}

/// `char::from_u32`: the character whose number is `i` where `i` is a Unicode
/// scalar value, and nothing for a surrogate or a number above `0x10FFFF`.
pub assume_specification[ char::from_u32 ](i: u32) -> (r: Option<char>)
    ensures
        r == (if is_scalar(i) {
            Some(i as char)
        } else {
            None::<char>
        }),
;

/// Decodes the scalar value at the front of `vec`.
///
/// On success the second component counts the continuation bytes behind the
/// leading byte, so the caller advances by one more than it.
pub fn read_utf(vec: &[u8]) -> (r: Result<(char, usize), Error>)
    ensures
        match decode(vec@) {
            Ok((c, extra)) => r == Ok::<(char, usize), Error>((c, extra as usize)),
            Err(fault) => r matches Err(error) && fault.reported_as(error),
        },
        r matches Ok((_, extra)) ==> extra <= 3 && extra < vec@.len(),
{
    if vec.len() == 0 {
        return Err(Error::EofError);
    }
    let first: u8 = vec[0];
    let extra: usize = if first & 0x80 == 0x00 {
        0
    } else if first & 0xE0 == 0xC0 {
        1
    } else if first & 0xF0 == 0xE0 {
        2
    } else if first & 0xF8 == 0xF0 {
        3
    } else {
        return Err(Error::Utf8Error(binary_text(first)));
    };
    if vec.len() <= extra {
        return Err(Error::EofError);
    }
    let mut value: u32 = if extra == 0 {
        (first & 0x7F) as u32
    } else if extra == 1 {
        (first & 0x1F) as u32
    } else if extra == 2 {
        (first & 0x0F) as u32
    } else {
        (first & 0x07) as u32
    };
    let mut i: usize = 1;
    while i <= extra
        invariant
            1 <= i <= extra + 1,
            extra < vec@.len(),
            announced(vec@[0]) == Some(extra as nat),
            value == accumulated(vec@, extra as nat, (i - 1) as nat),
            forall|j: int| 1 <= j < i ==> is_continuation(#[trigger] vec@[j]),
        decreases extra + 1 - i,
    {
        let byte: u8 = vec[i];
        if byte & 0xC0 != 0x80 {
            return Err(Error::Utf8Error("Byte".to_owned()));
        }
        value = (value << 6) | ((byte & 0x3F) as u32);
        i = i + 1;
    }
    match char::from_u32(value) {
        Some(c) => Ok((c, extra)),
        None => Err(Error::Utf8Error("Invalid UTF8 Code".to_owned())),
    }
}

/// A decoded scalar value has at most three continuation bytes, and all of
/// them lie inside the input. So four bytes are never too few: an input of
/// that length is not reported as truncated.
pub proof fn lemma_decode_bounds(bytes: Seq<u8>)
    ensures
        decode(bytes) matches Ok((_, extra)) ==> extra <= 3 && extra < bytes.len(),
        bytes.len() >= 4 ==> decode(bytes) != Err::<(char, nat), Fault>(Fault::Truncated),
{
}

/// Decoding looks at the announced sequence and at nothing behind it: unless
/// `bytes` is too short, bytes appended to it change neither the scalar value
/// nor the fault.
pub proof fn lemma_decode_ignores_tail(bytes: Seq<u8>, tail: Seq<u8>)
    requires
        decode(bytes) != Err::<(char, nat), Fault>(Fault::Truncated),
    ensures
        decode(bytes + tail) == decode(bytes),
{
    let longer = bytes + tail;
    if let Some(extra) = announced(bytes[0]) {
        // The announced sequence lies inside `bytes`, where the two agree.
        assert(forall|i: int| 0 <= i <= extra ==> longer[i] == bytes[i]);
        assert(continuations_ok(longer, extra) == continuations_ok(bytes, extra));
        reveal_with_fuel(accumulated, 4);
    }
}

/// Folding continuation bytes into the accumulator one by one gives the
/// number that `vstd::utf8` writes with one shift for each byte; the shorter
/// forms carry numbers below the bounds named here.
proof fn lemma_fold_is_shift_or(b0: u8, b1: u8, b2: u8, b3: u8)
    by (bit_vector)
    ensures
        (b0 & 0x7F) as u32 == codepoint_width_1(b0),
        fold_continuation((b0 & 0x1F) as u32, b1) == codepoint_width_2(b0, b1),
        fold_continuation(fold_continuation((b0 & 0x0F) as u32, b1), b2) == codepoint_width_3(
            b0,
            b1,
            b2,
        ),
        fold_continuation(
            fold_continuation(fold_continuation((b0 & 0x07) as u32, b1), b2),
            b3,
        ) == codepoint_width_4(b0, b1, b2, b3),
        codepoint_width_1(b0) <= 0x7F,
        codepoint_width_2(b0, b1) <= 0x7FF,
        codepoint_width_3(b0, b1, b2) <= 0xFFFF,
{
}

/// The decoder reads the leading and continuation forms as the Unicode
/// standard lays them out, here in the words of `vstd::utf8`. Bytes decode
/// exactly when they begin with a leading byte followed by as many
/// continuation bytes as it announces and the number they carry is a scalar
/// value; the result is then that number and one less than the length of the
/// sequence. In particular every well-formed first scalar decodes.
pub proof fn lemma_decode_matches_standard_forms(bytes: Seq<u8>)
    ensures
        decode(bytes) is Ok <==> valid_leading_and_continuation_bytes_first_codepoint(bytes)
            && is_scalar(decode_first_codepoint(bytes)),
        decode(bytes) matches Ok((c, extra)) ==> c as u32 == decode_first_codepoint(bytes)
            && extra + 1 == length_of_first_codepoint(bytes),
        valid_first_scalar(bytes) ==> decode(bytes) is Ok,
{
    if bytes.len() > 0 {
        // The forms as masks are the forms as ranges, byte by byte.
        utf8_byte_ranges_bitwise(bytes[0]);
        utf8_byte_ranges_bitwise(bytes[1]);
        utf8_byte_ranges_bitwise(bytes[2]);
        utf8_byte_ranges_bitwise(bytes[3]);
        // Folding byte by byte builds the number that the standard spells
        // out with one shift for each byte.
        lemma_fold_is_shift_or(bytes[0], bytes[1], bytes[2], bytes[3]);
        reveal_with_fuel(accumulated, 4);
    }
}

/// The number of continuation bytes in the standard UTF-8 form of `c`: none
/// below `0x80`, one below `0x800`, two below `0x10000`, and three from there
/// on.
pub open spec fn standard_extra(c: char) -> nat {
    if (c as u32) < 0x80 {
        0
    } else if (c as u32) < 0x800 {
        1
    } else if (c as u32) < 0x10000 {
        2
    } else {
        3
    }
}

/// The one-byte encoding of `v` has the one-byte form and carries `v`.
proof fn lemma_one_byte_form(v: u32)
    by (bit_vector)
    requires
        v <= 0x7F,
    ensures
        leading_byte_width_1(v) & 0x80 == 0x00,
        (leading_byte_width_1(v) & 0x7F) as u32 == v,
{
}

/// The two-byte encoding of `v` has the two-byte form and carries `v`.
proof fn lemma_two_byte_form(v: u32)
    by (bit_vector)
    requires
        0x80 <= v <= 0x7FF,
    ensures
        leading_byte_width_2(v) & 0x80 != 0x00,
        leading_byte_width_2(v) & 0xE0 == 0xC0,
        last_continuation_byte(v) & 0xC0 == 0x80,
        fold_continuation(
            (leading_byte_width_2(v) & 0x1F) as u32,
            last_continuation_byte(v),
        ) == v,
{
}

/// The three-byte encoding of `v` has the three-byte form and carries `v`.
proof fn lemma_three_byte_form(v: u32)
    by (bit_vector)
    requires
        0x800 <= v <= 0xFFFF,
    ensures
        leading_byte_width_3(v) & 0x80 != 0x00,
        leading_byte_width_3(v) & 0xE0 != 0xC0,
        leading_byte_width_3(v) & 0xF0 == 0xE0,
        second_last_continuation_byte(v) & 0xC0 == 0x80,
        last_continuation_byte(v) & 0xC0 == 0x80,
        fold_continuation(
            fold_continuation(
                (leading_byte_width_3(v) & 0x0F) as u32,
                second_last_continuation_byte(v),
            ),
            last_continuation_byte(v),
        ) == v,
{
}

/// The four-byte encoding of `v` has the four-byte form and carries `v`.
proof fn lemma_four_byte_form(v: u32)
    by (bit_vector)
    requires
        0x10000 <= v <= 0x10FFFF,
    ensures
        leading_byte_width_4(v) & 0x80 != 0x00,
        leading_byte_width_4(v) & 0xE0 != 0xC0,
        leading_byte_width_4(v) & 0xF0 != 0xE0,
        leading_byte_width_4(v) & 0xF8 == 0xF0,
        third_last_continuation_byte(v) & 0xC0 == 0x80,
        second_last_continuation_byte(v) & 0xC0 == 0x80,
        last_continuation_byte(v) & 0xC0 == 0x80,
        fold_continuation(
            fold_continuation(
                fold_continuation(
                    (leading_byte_width_4(v) & 0x07) as u32,
                    third_last_continuation_byte(v),
                ),
                second_last_continuation_byte(v),
            ),
            last_continuation_byte(v),
        ) == v,
{
}

/// Decoding undoes encoding. For every character `c`, the bytes that
/// `vstd::utf8::encode_scalar` gives for it, followed by any bytes `rest`,
/// decode to `c` with as many continuation bytes as the standard length
/// table gives, which is one less than the length of the encoding.
pub proof fn lemma_decode_inverts_encode(c: char, rest: Seq<u8>)
    ensures
        encode_scalar(c as u32).len() == standard_extra(c) + 1,
        decode(encode_scalar(c as u32) + rest) == Ok::<(char, nat), Fault>(
            (c, standard_extra(c)),
        ),
        decode(encode_scalar(c as u32)) == Ok::<(char, nat), Fault>((c, standard_extra(c))),
{
    let v = c as u32;
    let encoded = encode_scalar(v);
    let extra = standard_extra(c);
    reveal_with_fuel(accumulated, 4);
    if v < 0x80 {
        lemma_one_byte_form(v);
    } else if v < 0x800 {
        lemma_two_byte_form(v);
    } else if v < 0x10000 {
        lemma_three_byte_form(v);
    } else {
        lemma_four_byte_form(v);
    }
    lemma_decode_ignores_tail(encoded, rest);
}

} // verus!
