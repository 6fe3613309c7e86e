//! Sizes in bytes, written in units that a person reads: `B`, `KB`, `MB`,
//! `GB`, `TB`, each 1024 of the one before.

use vstd::prelude::*;
use vstd::string::*;
use crate::text::{append_decimal, decimal};

verus! {

/// `num / den` taken to the nearest whole number; a quotient half way
/// between two whole numbers goes to the even one.
pub open spec fn round_half_even(num: nat, den: nat) -> nat {
    let q = num / den;
    let r = num % den;
    if 2 * r > den || (2 * r == den && q % 2 == 1) {
        q + 1
    } else {
        q
    }
}

/// The distance between neighbouring numbers that a 64-bit float holds, at
/// the magnitude of `bytes`: 1 below 2^53, and twice as much for each
/// further bit.
pub open spec fn float_spacing(bytes: u64) -> nat {
    if bytes < 0x20_0000_0000_0000 {
        1
    } else if bytes < 0x40_0000_0000_0000 {
        2
    } else if bytes < 0x80_0000_0000_0000 {
        4
    } else if bytes < 0x100_0000_0000_0000 {
        8
    } else if bytes < 0x200_0000_0000_0000 {
        16
    } else if bytes < 0x400_0000_0000_0000 {
        32
    } else if bytes < 0x800_0000_0000_0000 {
        64
    } else if bytes < 0x1000_0000_0000_0000 {
        128
    } else if bytes < 0x2000_0000_0000_0000 {
        256
    } else if bytes < 0x4000_0000_0000_0000 {
        512
    } else if bytes < 0x8000_0000_0000_0000 {
        1024
    } else {
        2048
    }
}

/// The number that a 64-bit float holds in place of `bytes`: the nearest
/// one that 53 bits of mantissa can write, the even mantissa where two are
/// equally near.
pub open spec fn float_value(bytes: u64) -> nat {
    round_half_even(bytes as nat, float_spacing(bytes)) * float_spacing(bytes)
}

/// Which unit a size is written in: the largest of which it holds at least
/// one, from 0 for `B` to 4 for `TB`.
pub open spec fn unit_index(bytes: u64) -> nat {
    if bytes < 0x400 {
        0
    } else if bytes < 0x10_0000 {
        1
    } else if bytes < 0x4000_0000 {
        2
    } else if bytes < 0x100_0000_0000 {
        3
    } else {
        4
    }
}

/// The number of bytes in the unit with this index.
pub open spec fn unit_size(index: nat) -> nat {
    if index == 0 {
        1
    } else if index == 1 {
        0x400
    } else if index == 2 {
        0x10_0000
    } else if index == 3 {
        0x4000_0000
    } else {
        0x100_0000_0000
    }
}

/// The name of the unit with this index.
pub open spec fn unit_name(index: nat) -> Seq<char> {
    if index == 0 {
        "B"@
    } else if index == 1 {
        "KB"@
    } else if index == 2 {
        "MB"@
    } else if index == 3 {
        "GB"@
    } else {
        "TB"@
    }
}

/// The size in tenths of its unit, as it is shown: the float value of the
/// size, divided by the unit, rounded to one decimal place, a tie to the
/// even digit.
pub open spec fn shown_tenths(bytes: u64) -> nat {
    round_half_even(float_value(bytes) * 10, unit_size(unit_index(bytes)))
}

/// A size as a person reads it: whole bytes below 1024 (`512 B`), else one
/// decimal place in the largest unit that fits (`1.5 KB`), digit for digit
/// as a 64-bit float of the size prints with one decimal place.
pub open spec fn format_bytes_spec(bytes: u64) -> Seq<char> {
    if unit_index(bytes) == 0 {
        decimal(bytes as nat) + " B"@
    } else {
        decimal(shown_tenths(bytes) / 10) + "."@ + decimal(shown_tenths(bytes) % 10) + " "@
            + unit_name(unit_index(bytes))
    }
}

/// `num / den` taken to the nearest whole number, ties to the even one.
pub fn rounded_quotient(num: u128, den: u128) -> (r: u128)
    requires
        0 < den <= 0x10_0000_0000_0000_0000_0000_0000,
        num <= 0x10_0000_0000_0000_0000_0000_0000,
    ensures
        r == round_half_even(num as nat, den as nat),
        num / den <= r <= num / den + 1,
{
    let q = num / den;
    let rem = num % den;
    if 2 * rem > den || (2 * rem == den && q % 2 == 1) {
        q + 1
    } else {
        q
    }
}

/// The distance between neighbouring numbers that a 64-bit float holds, at
/// the magnitude of `bytes`.
pub fn float_spacing_of(bytes: u64) -> (r: u128)
    ensures
        r == float_spacing(bytes),
        1 <= r <= 2048,
{
    if bytes < 0x20_0000_0000_0000 {
        1
    } else if bytes < 0x40_0000_0000_0000 {
        2
    } else if bytes < 0x80_0000_0000_0000 {
        4
    } else if bytes < 0x100_0000_0000_0000 {
        8
    } else if bytes < 0x200_0000_0000_0000 {
        16
    } else if bytes < 0x400_0000_0000_0000 {
        32
    } else if bytes < 0x800_0000_0000_0000 {
        64
    } else if bytes < 0x1000_0000_0000_0000 {
        128
    } else if bytes < 0x2000_0000_0000_0000 {
        256
    } else if bytes < 0x4000_0000_0000_0000 {
        512
    } else if bytes < 0x8000_0000_0000_0000 {
        1024
    } else {
        2048
    }
}

/// The number that a 64-bit float holds in place of `bytes`.
pub fn float_value_of(bytes: u64) -> (r: u128)
    ensures
        r == float_value(bytes),
        r <= bytes + 2048,
        bytes < r + 2048,
        bytes < 0x20_0000_0000_0000 ==> r == bytes,
{
    let spacing = float_spacing_of(bytes);
    let mantissa = rounded_quotient(bytes as u128, spacing);
    let ghost whole = (bytes as int) / (spacing as int);
    assert(bytes < (whole + 1) * spacing) by (nonlinear_arith)
        requires
            whole == (bytes as int) / (spacing as int),
            spacing >= 1,
            bytes >= 0,
    ;
    assert(whole * spacing <= mantissa * spacing) by (nonlinear_arith)
        requires
            whole <= mantissa,
            spacing >= 1,
    ;
    assert((whole + 1) * spacing == whole * spacing + spacing) by (nonlinear_arith);
    assert(whole * spacing <= bytes) by (nonlinear_arith)
        requires
            whole == (bytes as int) / (spacing as int),
            spacing >= 1,
            bytes >= 0,
    ;
    assert(mantissa * spacing <= bytes + spacing) by (nonlinear_arith)
        requires
            mantissa <= whole + 1,
            whole * spacing <= bytes,
            spacing >= 1,
    ;
    mantissa * spacing
}

/// Writes a size as a person reads it.
pub fn format_bytes(bytes: u64) -> (r: String)
    ensures
        r@ == format_bytes_spec(bytes),
{
    let mut out = String::new();
    if bytes < 0x400 {
        append_decimal(&mut out, bytes);
        out.append(" B");
        assert(out@ =~= format_bytes_spec(bytes));
        return out;
    }
    let value: u128 = float_value_of(bytes);
    let (size, name) = if bytes < 0x10_0000 {
        (0x400u128, "KB")
    } else if bytes < 0x4000_0000 {
        (0x10_0000u128, "MB")
    } else if bytes < 0x100_0000_0000 {
        (0x4000_0000u128, "GB")
    } else {
        (0x100_0000_0000u128, "TB")
    };
    let tenths = rounded_quotient(value * 10, size);
    append_decimal(&mut out, (tenths / 10) as u64);
    out.append(".");
    append_decimal(&mut out, (tenths % 10) as u64);
    out.append(" ");
    out.append(name);
    assert(out@ =~= format_bytes_spec(bytes));
    out
}

} // verus!
