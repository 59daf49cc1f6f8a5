//! Sizes of files, for people to read.

use vstd::prelude::*;

use crate::numerals::{decimal, digit, to_decimal};

verus! {

/// `a / b` rounded to a whole number, a half to the even one.
pub open spec fn rounded_even(a: nat, b: nat) -> nat {
    let q = a / b;
    let r = a % b;
    if 2 * r < b || (2 * r == b && q % 2 == 0) {
        q
    } else {
        q + 1
    }
}

/// The distance between neighbouring double-precision numbers of the size of `n`: the least power
/// of two, from `p` on, that leaves no more than 53 bits.
pub open spec fn double_step(n: nat, p: nat) -> nat
    decreases n - p,
{
    if p == 0 || n < 0x20_0000_0000_0000 * p {
        p
    } else {
        double_step(n, 2 * p)
    }
}

/// The double-precision number nearest to `n`, a half to the even one.
pub open spec fn nearest_double(n: nat) -> nat {
    let p = double_step(n, 1);
    rounded_even(n, p) * p
}

/// How often `v` can be divided by 1024, at most four times, before it falls below 1024.
pub open spec fn size_unit(v: nat) -> nat {
    if v < 0x400 {
        0
    } else if v < 0x10_0000 {
        1
    } else if v < 0x4000_0000 {
        2
    } else if v < 0x100_0000_0000 {
        3
    } else {
        4
    }
}

/// The number of bytes in a unit.
pub open spec fn unit_bytes(unit: nat) -> nat {
    if unit == 0 {
        1
    } else if unit == 1 {
        0x400
    } else if unit == 2 {
        0x10_0000
    } else if unit == 3 {
        0x4000_0000
    } else {
        0x100_0000_0000
    }
}

/// The name of a unit, after a space.
pub open spec fn unit_name(unit: nat) -> Seq<char> {
    if unit == 0 {
        " B"@
    } else if unit == 1 {
        " KB"@
    } else if unit == 2 {
        " MB"@
    } else if unit == 3 {
        " GB"@
    } else {
        " TB"@
    }
}

/// A size for people to read: whole bytes below 1024, and above that the largest unit that leaves
/// at least one, to a tenth, reckoned in double precision.
pub open spec fn size_text(bytes: nat) -> Seq<char> {
    let v = nearest_double(bytes);
    let unit = size_unit(v);
    if unit == 0 {
        decimal(bytes) + unit_name(0)
    } else {
        let tenths = rounded_even(v * 10, unit_bytes(unit));
        decimal(tenths / 10) + seq!['.', digit((tenths % 10) as int)] + unit_name(unit)
    }
}

fn round_even(a: u128, b: u128) -> (r: u128)
    requires
        b > 0,
        2 * b <= u128::MAX,
    ensures
        r == rounded_even(a as nat, b as nat),
        r <= a / b + 1,
{
    let q = a / b;
    let rem = a % b;
    if 2 * rem < b || (2 * rem == b && q % 2 == 0) {
        q
    } else {
        assert(q < u128::MAX) by {
            if b == 1 {
                assert(rem == 0);
            } else {
                assert(q <= a / 2) by (nonlinear_arith)
                    requires
                        q == a / b,
                        b >= 2,
                ;
            }
        }
        q + 1
    }
}

/// A power of two up to 2048.
spec fn small_power(p: int) -> bool {
    p == 1 || p == 2 || p == 4 || p == 8 || p == 16 || p == 32 || p == 64 || p == 128 || p == 256
        || p == 512 || p == 1024 || p == 2048
}

proof fn lemma_double_step(n: nat, p: nat)
    requires
        n < 0x1_0000_0000_0000_0000,
        small_power(p as int),
    ensures
        1 <= double_step(n, p) <= 2048,
    decreases 2048 - p,
{
    if n >= 0x20_0000_0000_0000 * p {
        lemma_double_step(n, 2 * p);
    }
}

fn double_step_of(n: u128) -> (r: u128)
    requires
        n < 0x1_0000_0000_0000_0000,
    ensures
        r == double_step(n as nat, 1),
        1 <= r <= 2048,
{
    let mut p: u128 = 1;
    proof {
        lemma_double_step(n as nat, 1);
    }
    while n >= 0x20_0000_0000_0000 * p
        invariant
            n < 0x1_0000_0000_0000_0000,
            small_power(p as int),
            double_step(n as nat, 1) == double_step(n as nat, p as nat),
            1 <= double_step(n as nat, 1) <= 2048,
        decreases 4096 - p,
    {
        p = 2 * p;
    }
    p
}

fn nearest_double_of(n: u64) -> (r: u128)
    ensures
        r == nearest_double(n as nat),
        r <= 0x1_0000_0000_0000_0000 + 2048,
{
    let p = double_step_of(n as u128);
    let q = round_even(n as u128, p);
    assert(q * p <= n + p) by (nonlinear_arith)
        requires
            q <= n as u128 / p + 1,
            p > 0,
    ;
    q * p
}

/// See [`size_text`].
pub fn human_size(bytes: u64) -> (r: String)
    ensures
        r@ == size_text(bytes as nat),
{
    let v = nearest_double_of(bytes);
    if v < 0x400 {
        let mut out = to_decimal(bytes);
        out.append(" B");
        return out;
    }
    let (size, name): (u128, &str) = if v < 0x10_0000 {
        (0x400, " KB")
    } else if v < 0x4000_0000 {
        (0x10_0000, " MB")
    } else if v < 0x100_0000_0000 {
        (0x4000_0000, " GB")
    } else {
        (0x100_0000_0000, " TB")
    };
    let tenths = round_even(v * 10, size);
    assert(tenths <= v * 10 / 0x400 + 1) by (nonlinear_arith)
        requires
            tenths <= (v * 10) / (size as int) + 1,
            size >= 0x400,
            v >= 0,
    ;
    let whole = (tenths / 10) as u64;
    let tenth = (tenths % 10) as u8;
    let mut out = to_decimal(whole);
    out.push('.');
    out.push((48 + tenth) as char);
    assert(out@ =~= decimal((tenths / 10) as nat) + seq!['.', digit((tenths % 10) as int)]);
    out.append(name);
    out
}

} // verus!
