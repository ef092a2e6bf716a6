//! The Unicode decimal digits (general category `Nd`, Unicode 16.0): the
//! class `\d` of the `:61:` field grammar.
use vstd::prelude::*;

verus! {

/// `c` is a Unicode decimal digit (`Nd`).
pub open spec fn is_decimal_digit(c: char) -> bool {
    let u = c as u32;
    ||| (0x30 <= u && u <= 0x39)
    ||| (0x660 <= u && u <= 0x669)
    ||| (0x6f0 <= u && u <= 0x6f9)
    ||| (0x7c0 <= u && u <= 0x7c9)
    ||| (0x966 <= u && u <= 0x96f)
    ||| (0x9e6 <= u && u <= 0x9ef)
    ||| (0xa66 <= u && u <= 0xa6f)
    ||| (0xae6 <= u && u <= 0xaef)
    ||| (0xb66 <= u && u <= 0xb6f)
    ||| (0xbe6 <= u && u <= 0xbef)
    ||| (0xc66 <= u && u <= 0xc6f)
    ||| (0xce6 <= u && u <= 0xcef)
    ||| (0xd66 <= u && u <= 0xd6f)
    ||| (0xde6 <= u && u <= 0xdef)
    ||| (0xe50 <= u && u <= 0xe59)
    ||| (0xed0 <= u && u <= 0xed9)
    ||| (0xf20 <= u && u <= 0xf29)
    ||| (0x1040 <= u && u <= 0x1049)
    ||| (0x1090 <= u && u <= 0x1099)
    ||| (0x17e0 <= u && u <= 0x17e9)
    ||| (0x1810 <= u && u <= 0x1819)
    ||| (0x1946 <= u && u <= 0x194f)
    ||| (0x19d0 <= u && u <= 0x19d9)
    ||| (0x1a80 <= u && u <= 0x1a89)
    ||| (0x1a90 <= u && u <= 0x1a99)
    ||| (0x1b50 <= u && u <= 0x1b59)
    ||| (0x1bb0 <= u && u <= 0x1bb9)
    ||| (0x1c40 <= u && u <= 0x1c49)
    ||| (0x1c50 <= u && u <= 0x1c59)
    ||| (0xa620 <= u && u <= 0xa629)
    ||| (0xa8d0 <= u && u <= 0xa8d9)
    ||| (0xa900 <= u && u <= 0xa909)
    ||| (0xa9d0 <= u && u <= 0xa9d9)
    ||| (0xa9f0 <= u && u <= 0xa9f9)
    ||| (0xaa50 <= u && u <= 0xaa59)
    ||| (0xabf0 <= u && u <= 0xabf9)
    ||| (0xff10 <= u && u <= 0xff19)
    ||| (0x104a0 <= u && u <= 0x104a9)
    ||| (0x10d30 <= u && u <= 0x10d39)
    ||| (0x10d40 <= u && u <= 0x10d49)
    ||| (0x11066 <= u && u <= 0x1106f)
    ||| (0x110f0 <= u && u <= 0x110f9)
    ||| (0x11136 <= u && u <= 0x1113f)
    ||| (0x111d0 <= u && u <= 0x111d9)
    ||| (0x112f0 <= u && u <= 0x112f9)
    ||| (0x11450 <= u && u <= 0x11459)
    ||| (0x114d0 <= u && u <= 0x114d9)
    ||| (0x11650 <= u && u <= 0x11659)
    ||| (0x116c0 <= u && u <= 0x116c9)
    ||| (0x116d0 <= u && u <= 0x116e3)
    ||| (0x11730 <= u && u <= 0x11739)
    ||| (0x118e0 <= u && u <= 0x118e9)
    ||| (0x11950 <= u && u <= 0x11959)
    ||| (0x11bf0 <= u && u <= 0x11bf9)
    ||| (0x11c50 <= u && u <= 0x11c59)
    ||| (0x11d50 <= u && u <= 0x11d59)
    ||| (0x11da0 <= u && u <= 0x11da9)
    ||| (0x11f50 <= u && u <= 0x11f59)
    ||| (0x16130 <= u && u <= 0x16139)
    ||| (0x16a60 <= u && u <= 0x16a69)
    ||| (0x16ac0 <= u && u <= 0x16ac9)
    ||| (0x16b50 <= u && u <= 0x16b59)
    ||| (0x16d70 <= u && u <= 0x16d79)
    ||| (0x1ccf0 <= u && u <= 0x1ccf9)
    ||| (0x1d7ce <= u && u <= 0x1d7ff)
    ||| (0x1e140 <= u && u <= 0x1e149)
    ||| (0x1e2f0 <= u && u <= 0x1e2f9)
    ||| (0x1e4f0 <= u && u <= 0x1e4f9)
    ||| (0x1e5f1 <= u && u <= 0x1e5fa)
    ||| (0x1e950 <= u && u <= 0x1e959)
    ||| (0x1fbf0 <= u && u <= 0x1fbf9)
}

pub fn is_decimal_digit_exec(c: char) -> (b: bool)
    ensures
        b == is_decimal_digit(c),
{
    let u = c as u32;
    (0x30 <= u && u <= 0x39) ||
        (0x660 <= u && u <= 0x669) ||
        (0x6f0 <= u && u <= 0x6f9) ||
        (0x7c0 <= u && u <= 0x7c9) ||
        (0x966 <= u && u <= 0x96f) ||
        (0x9e6 <= u && u <= 0x9ef) ||
        (0xa66 <= u && u <= 0xa6f) ||
        (0xae6 <= u && u <= 0xaef) ||
        (0xb66 <= u && u <= 0xb6f) ||
        (0xbe6 <= u && u <= 0xbef) ||
        (0xc66 <= u && u <= 0xc6f) ||
        (0xce6 <= u && u <= 0xcef) ||
        (0xd66 <= u && u <= 0xd6f) ||
        (0xde6 <= u && u <= 0xdef) ||
        (0xe50 <= u && u <= 0xe59) ||
        (0xed0 <= u && u <= 0xed9) ||
        (0xf20 <= u && u <= 0xf29) ||
        (0x1040 <= u && u <= 0x1049) ||
        (0x1090 <= u && u <= 0x1099) ||
        (0x17e0 <= u && u <= 0x17e9) ||
        (0x1810 <= u && u <= 0x1819) ||
        (0x1946 <= u && u <= 0x194f) ||
        (0x19d0 <= u && u <= 0x19d9) ||
        (0x1a80 <= u && u <= 0x1a89) ||
        (0x1a90 <= u && u <= 0x1a99) ||
        (0x1b50 <= u && u <= 0x1b59) ||
        (0x1bb0 <= u && u <= 0x1bb9) ||
        (0x1c40 <= u && u <= 0x1c49) ||
        (0x1c50 <= u && u <= 0x1c59) ||
        (0xa620 <= u && u <= 0xa629) ||
        (0xa8d0 <= u && u <= 0xa8d9) ||
        (0xa900 <= u && u <= 0xa909) ||
        (0xa9d0 <= u && u <= 0xa9d9) ||
        (0xa9f0 <= u && u <= 0xa9f9) ||
        (0xaa50 <= u && u <= 0xaa59) ||
        (0xabf0 <= u && u <= 0xabf9) ||
        (0xff10 <= u && u <= 0xff19) ||
        (0x104a0 <= u && u <= 0x104a9) ||
        (0x10d30 <= u && u <= 0x10d39) ||
        (0x10d40 <= u && u <= 0x10d49) ||
        (0x11066 <= u && u <= 0x1106f) ||
        (0x110f0 <= u && u <= 0x110f9) ||
        (0x11136 <= u && u <= 0x1113f) ||
        (0x111d0 <= u && u <= 0x111d9) ||
        (0x112f0 <= u && u <= 0x112f9) ||
        (0x11450 <= u && u <= 0x11459) ||
        (0x114d0 <= u && u <= 0x114d9) ||
        (0x11650 <= u && u <= 0x11659) ||
        (0x116c0 <= u && u <= 0x116c9) ||
        (0x116d0 <= u && u <= 0x116e3) ||
        (0x11730 <= u && u <= 0x11739) ||
        (0x118e0 <= u && u <= 0x118e9) ||
        (0x11950 <= u && u <= 0x11959) ||
        (0x11bf0 <= u && u <= 0x11bf9) ||
        (0x11c50 <= u && u <= 0x11c59) ||
        (0x11d50 <= u && u <= 0x11d59) ||
        (0x11da0 <= u && u <= 0x11da9) ||
        (0x11f50 <= u && u <= 0x11f59) ||
        (0x16130 <= u && u <= 0x16139) ||
        (0x16a60 <= u && u <= 0x16a69) ||
        (0x16ac0 <= u && u <= 0x16ac9) ||
        (0x16b50 <= u && u <= 0x16b59) ||
        (0x16d70 <= u && u <= 0x16d79) ||
        (0x1ccf0 <= u && u <= 0x1ccf9) ||
        (0x1d7ce <= u && u <= 0x1d7ff) ||
        (0x1e140 <= u && u <= 0x1e149) ||
        (0x1e2f0 <= u && u <= 0x1e2f9) ||
        (0x1e4f0 <= u && u <= 0x1e4f9) ||
        (0x1e5f1 <= u && u <= 0x1e5fa) ||
        (0x1e950 <= u && u <= 0x1e959) ||
        (0x1fbf0 <= u && u <= 0x1fbf9)
}

/// ASCII digits are decimal digits, and a decimal digit that is ASCII is one
/// of `0`..`9`.
pub proof fn lemma_decimal_digit_ascii(c: char)
    ensures
        ('0' <= c && c <= '9') ==> is_decimal_digit(c),
        is_decimal_digit(c) && (c as u32) < 0x80 ==> '0' <= c && c <= '9',
        is_decimal_digit(c) ==> c != 'R' && c != 'D' && c != 'C' && c != ',' && c != 'N' && c
            != 'F' && !('A' <= c && c <= 'Z'),
{
}

} // verus!
