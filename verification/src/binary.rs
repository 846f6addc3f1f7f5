//! Base-two rendering of a byte, used to name an offending byte in an error.

use vstd::prelude::*;
use vstd::string::StringExecFns;

verus! {

/// The digit that stands for one bit.
pub open spec fn bit_char(bit: nat) -> char {
    if bit == 0 {
        '0'
    } else {
        '1'
    }
}

/// The digits of `n` in base two, most significant first, without leading
/// zeros; zero is the single digit `0`.
pub open spec fn binary_digits(n: nat) -> Seq<char>
    decreases n,
{
    if n < 2 {
        seq![bit_char(n)]
    } else {
        binary_digits(n / 2).push(bit_char(n % 2))
    }
}

/// One place further down, the shifted byte doubles and gains the next bit.
proof fn lemma_shift_halves(byte: u8, shift: u32)
    by (bit_vector)
    requires
        1 <= shift <= 7,
    ensures
        (byte >> shift) == (byte >> ((shift - 1) as u32)) / 2,
        (byte >> ((shift - 1) as u32)) & 1 == (byte >> ((shift - 1) as u32)) % 2,
        (byte >> shift) >= 1 ==> (byte >> ((shift - 1) as u32)) >= 2,
{
}

/// With nothing set above `shift`, what is left after shifting is one bit.
proof fn lemma_top_bit(byte: u8, shift: u32)
    by (bit_vector)
    requires
        shift <= 7,
        shift < 7 ==> (byte >> ((shift + 1) as u32)) == 0,
    ensures
        (byte >> shift) < 2,
{
}

/// Shifting by no places changes nothing.
proof fn lemma_unshifted(byte: u8)
    by (bit_vector)
    ensures
        (byte >> 0u32) == byte,
{
}

/// Writes `byte` in base two: its digits from the most significant set bit
/// down, or `0` alone for zero.
pub fn binary_text(byte: u8) -> (s: String)
    ensures
        s@ == binary_digits(byte as nat),
{
    let mut shift: u32 = 7;
    while shift > 0 && (byte >> shift) == 0
        invariant
            shift <= 7,
            shift < 7 ==> (byte >> ((shift + 1) as u32)) == 0,
        decreases shift,
    {
        shift = shift - 1;
    }
    proof {
        lemma_top_bit(byte, shift);
        reveal_strlit("0");
        reveal_strlit("1");
    }
    let top: u8 = byte >> shift;
    let mut s = String::from_str(if top == 0 { "0" } else { "1" });
    while shift > 0
        invariant
            shift <= 7,
            s@ == binary_digits((byte >> shift) as nat),
            shift > 0 ==> (byte >> shift) >= 1,
        decreases shift,
    {
        proof {
            lemma_shift_halves(byte, shift);
            reveal_strlit("0");
            reveal_strlit("1");
        }
        shift = shift - 1;
        let low: u8 = (byte >> shift) & 1;
        s.append(if low == 0 { "0" } else { "1" });
    }
    proof {
        lemma_unshifted(byte);
    }
    s
}

} // verus!
