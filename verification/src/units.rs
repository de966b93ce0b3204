use crate::text::{decimal, digit, digit_char, push_char, push_decimal};
use vstd::prelude::*;
use vstd::string::*;

verus! {

/// The power of two by which a byte count is cut down when it is held as a
/// double-precision number: 1 below 2^53, and so that 53 bits are left above.
pub open spec fn double_unit(n: nat) -> nat {
    if n < 0x20_0000_0000_0000 {
        1
    } else if n < 0x40_0000_0000_0000 {
        2
    } else if n < 0x80_0000_0000_0000 {
        4
    } else if n < 0x100_0000_0000_0000 {
        8
    } else if n < 0x200_0000_0000_0000 {
        16
    } else if n < 0x400_0000_0000_0000 {
        32
    } else if n < 0x800_0000_0000_0000 {
        64
    } else if n < 0x1000_0000_0000_0000 {
        128
    } else if n < 0x2000_0000_0000_0000 {
        256
    } else if n < 0x4000_0000_0000_0000 {
        512
    } else if n < 0x8000_0000_0000_0000 {
        1024
    } else {
        2048
    }
}

/// The whole number nearest to `num / den`; of two equally near ones the
/// even one.
pub open spec fn rounded_half_even(num: nat, den: nat) -> nat {
    let q = num / den;
    let r = num % den;
    if 2 * r > den || (2 * r == den && q % 2 == 1) {
        q + 1
    } else {
        q
    }
}

/// The value that a byte count has as a double-precision number.
pub open spec fn as_double(n: nat) -> nat {
    rounded_half_even(n, double_unit(n)) * double_unit(n)
}

/// The place of the unit in which `v` bytes are shown: the first of B, KB,
/// MB, GB and TB in which the value is below 1024, and PB beyond them.
pub open spec fn unit_index(v: nat) -> nat {
    if v < 0x400 {
        0
    } else if v < 0x10_0000 {
        1
    } else if v < 0x4000_0000 {
        2
    } else if v < 0x100_0000_0000 {
        3
    } else if v < 0x4_0000_0000_0000 {
        4
    } else {
        5
    }
}

/// The number of bytes in the unit at place `k`.
pub open spec fn unit_size(k: nat) -> nat {
    if k == 0 {
        1
    } else if k == 1 {
        0x400
    } else if k == 2 {
        0x10_0000
    } else if k == 3 {
        0x4000_0000
    } else if k == 4 {
        0x100_0000_0000
    } else {
        0x4_0000_0000_0000
    }
}

/// The name of the unit at place `k`.
pub open spec fn unit_name(k: nat) -> Seq<char> {
    if k == 0 {
        "B"@
    } else if k == 1 {
        "KB"@
    } else if k == 2 {
        "MB"@
    } else if k == 3 {
        "GB"@
    } else if k == 4 {
        "TB"@
    } else {
        "PB"@
    }
}

/// A number of tenths with one decimal place.
pub open spec fn one_decimal(tenths: nat) -> Seq<char> {
    decimal(tenths / 10) + "."@ + seq![digit_char(tenths % 10)]
}

/// A byte count for reading: the count as a double-precision number, in the
/// largest unit of 1024 that leaves at least 1, rounded to one decimal place.
pub open spec fn bytes_text(bytes: nat) -> Seq<char> {
    let v = as_double(bytes);
    let k = unit_index(v);
    one_decimal(rounded_half_even(v * 10, unit_size(k))) + " "@ + unit_name(k)
}

/// A number of seconds for reading: seconds below a minute, minutes and
/// seconds below an hour, hours and minutes from there.
pub open spec fn time_text(seconds: nat) -> Seq<char> {
    if seconds < 60 {
        decimal(seconds) + "s"@
    } else if seconds < 3600 {
        decimal(seconds / 60) + "m "@ + decimal(seconds % 60) + "s"@
    } else {
        decimal(seconds / 3600) + "h "@ + decimal((seconds % 3600) / 60) + "m"@
    }
}

/// The whole number nearest to `num / den`; of two equally near ones the
/// even one.
pub fn round_half_even(num: u128, den: u128) -> (q: u128)
    requires
        den > 0,
        num / den < u128::MAX,
        den <= u128::MAX / 2,
    ensures
        q == rounded_half_even(num as nat, den as nat),
{
    let q: u128 = num / den;
    let r: u128 = num % den;
    if 2 * r > den || (2 * r == den && q % 2 == 1) {
        q + 1
    } else {
        q
    }
}

/// The power of two by which `n` is cut down when it is held as a
/// double-precision number.
pub fn unit_of_double(n: u64) -> (u: u64)
    ensures
        u == double_unit(n as nat),
        1 <= u <= 2048,
{
    if n < 0x20_0000_0000_0000 {
        1
    } else if n < 0x40_0000_0000_0000 {
        2
    } else if n < 0x80_0000_0000_0000 {
        4
    } else if n < 0x100_0000_0000_0000 {
        8
    } else if n < 0x200_0000_0000_0000 {
        16
    } else if n < 0x400_0000_0000_0000 {
        32
    } else if n < 0x800_0000_0000_0000 {
        64
    } else if n < 0x1000_0000_0000_0000 {
        128
    } else if n < 0x2000_0000_0000_0000 {
        256
    } else if n < 0x4000_0000_0000_0000 {
        512
    } else if n < 0x8000_0000_0000_0000 {
        1024
    } else {
        2048
    }
}

/// The value that `n` has as a double-precision number.
pub fn double_value(n: u64) -> (v: u128)
    ensures
        v == as_double(n as nat),
        v <= 0x1_0000_0000_0000_0000,
{
    let u: u128 = unit_of_double(n) as u128;
    let q: u128 = round_half_even(n as u128, u);
    assert(q * u <= 0x1_0000_0000_0000_0000) by {
        if u == 1 {
            assert(q == n);
        } else if u == 2 {
            assert(n as u128 / 2 < 0x20_0000_0000_0000);
            assert(q * 2 <= 0x1_0000_0000_0000_0000);
        } else if u == 4 {
            assert(n as u128 / 4 < 0x20_0000_0000_0000);
            assert(q * 4 <= 0x1_0000_0000_0000_0000);
        } else if u == 8 {
            assert(n as u128 / 8 < 0x20_0000_0000_0000);
            assert(q * 8 <= 0x1_0000_0000_0000_0000);
        } else if u == 16 {
            assert(n as u128 / 16 < 0x20_0000_0000_0000);
            assert(q * 16 <= 0x1_0000_0000_0000_0000);
        } else if u == 32 {
            assert(n as u128 / 32 < 0x20_0000_0000_0000);
            assert(q * 32 <= 0x1_0000_0000_0000_0000);
        } else if u == 64 {
            assert(n as u128 / 64 < 0x20_0000_0000_0000);
            assert(q * 64 <= 0x1_0000_0000_0000_0000);
        } else if u == 128 {
            assert(n as u128 / 128 < 0x20_0000_0000_0000);
            assert(q * 128 <= 0x1_0000_0000_0000_0000);
        } else if u == 256 {
            assert(n as u128 / 256 < 0x20_0000_0000_0000);
            assert(q * 256 <= 0x1_0000_0000_0000_0000);
        } else if u == 512 {
            assert(n as u128 / 512 < 0x20_0000_0000_0000);
            assert(q * 512 <= 0x1_0000_0000_0000_0000);
        } else if u == 1024 {
            assert(n as u128 / 1024 < 0x20_0000_0000_0000);
            assert(q * 1024 <= 0x1_0000_0000_0000_0000);
        } else if u == 2048 {
            assert(n as u128 / 2048 < 0x20_0000_0000_0000);
            assert(q * 2048 <= 0x1_0000_0000_0000_0000);
        }
    }
    q * u
}

/// The place of the unit in which `v` bytes are shown, and its size.
pub fn unit_for(v: u128) -> (r: (u8, u128))
    ensures
        r.0 == unit_index(v as nat),
        r.1 == unit_size(r.0 as nat),
        r.0 <= 5,
{
    if v < 0x400 {
        (0, 1)
    } else if v < 0x10_0000 {
        (1, 0x400)
    } else if v < 0x4000_0000 {
        (2, 0x10_0000)
    } else if v < 0x100_0000_0000 {
        (3, 0x4000_0000)
    } else if v < 0x4_0000_0000_0000 {
        (4, 0x100_0000_0000)
    } else {
        (5, 0x4_0000_0000_0000)
    }
}

/// The name of the unit at place `k`.
pub fn name_of_unit(k: u8) -> (name: &'static str)
    ensures
        name@ == unit_name(k as nat),
{
    if k == 0 {
        "B"
    } else if k == 1 {
        "KB"
    } else if k == 2 {
        "MB"
    } else if k == 3 {
        "GB"
    } else if k == 4 {
        "TB"
    } else {
        "PB"
    }
}

/// A byte count for reading, such as `1.5 KB`.
pub fn format_bytes(bytes: u64) -> (s: String)
    ensures
        s@ == bytes_text(bytes as nat),
{
    let v: u128 = double_value(bytes);
    let (k, size) = unit_for(v);
    let tenths: u128 = round_half_even(v * 10, size);
    assert(tenths / 10 <= 0xffff_ffff_ffff_ffff) by {
        if k == 0 {
        } else if k == 1 {
        } else if k == 2 {
        } else if k == 3 {
        } else if k == 4 {
        } else {
        }
    }
    let mut s = String::new();
    push_decimal(&mut s, (tenths / 10) as u64);
    s.append(".");
    push_char(&mut s, digit((tenths % 10) as u8));
    s.append(" ");
    s.append(name_of_unit(k));
    assert(s@ =~= bytes_text(bytes as nat));
    s
}

/// A number of seconds for reading, such as `2m 5s`.
pub fn format_time(seconds: u64) -> (s: String)
    ensures
        s@ == time_text(seconds as nat),
{
    let mut s = String::new();
    if seconds < 60 {
        push_decimal(&mut s, seconds);
        s.append("s");
    } else if seconds < 3600 {
        push_decimal(&mut s, seconds / 60);
        s.append("m ");
        push_decimal(&mut s, seconds % 60);
        s.append("s");
    } else {
        push_decimal(&mut s, seconds / 3600);
        s.append("h ");
        push_decimal(&mut s, (seconds % 3600) / 60);
        s.append("m");
    }
    s
}

} // verus!
