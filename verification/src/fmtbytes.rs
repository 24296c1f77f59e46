//! Rendering byte counts and byte rates in decimal units: `bytes`, `KB`,
//! `MB`, `GB`, `TB`, chosen by successive decimal-thousand thresholds, the
//! value rendered with exactly two fractional digits.
//!
//! Quantities are held as whole thousandths of a byte, so rates keep
//! sub-byte precision without floating point.

use vstd::prelude::*;
use vstd::string::StringExecFns;

verus! {

/// The decimal digit character for `d < 10`.
pub open spec fn digit_char(d: nat) -> char
    recommends
        d < 10,
{
    if d == 0 {
        '0'
    } else if d == 1 {
        '1'
    } else if d == 2 {
        '2'
    } else if d == 3 {
        '3'
    } else if d == 4 {
        '4'
    } else if d == 5 {
        '5'
    } else if d == 6 {
        '6'
    } else if d == 7 {
        '7'
    } else if d == 8 {
        '8'
    } else {
        '9'
    }
}

/// The decimal digits of `n`, most significant first, with no leading zero
/// except for `n == 0` itself.
pub open spec fn dec_digits(n: nat) -> Seq<char>
    decreases n,
{
    if n < 10 {
        seq![digit_char(n)]
    } else {
        dec_digits(n / 10).push(digit_char(n % 10))
    }
}

fn digit_str(d: u8) -> (s: &'static str)
    requires
        d < 10,
    ensures
        s@ == seq![digit_char(d as nat)],
{
    proof {
        reveal_strlit("0");
        reveal_strlit("1");
        reveal_strlit("2");
        reveal_strlit("3");
        reveal_strlit("4");
        reveal_strlit("5");
        reveal_strlit("6");
        reveal_strlit("7");
        reveal_strlit("8");
        reveal_strlit("9");
    }
    let s: &'static str = if d == 0 {
        "0"
    } else if d == 1 {
        "1"
    } else if d == 2 {
        "2"
    } else if d == 3 {
        "3"
    } else if d == 4 {
        "4"
    } else if d == 5 {
        "5"
    } else if d == 6 {
        "6"
    } else if d == 7 {
        "7"
    } else if d == 8 {
        "8"
    } else {
        "9"
    };
    proof {
        assert(s@ =~= seq![digit_char(d as nat)]);
    }
    s
}

/// The decimal rendering of `n`.
pub fn u64_to_dec(n: u64) -> (s: String)
    ensures
        s@ == dec_digits(n as nat),
    decreases n,
{
    if n < 10 {
        digit_str(n as u8).to_owned()
    } else {
        let mut s = u64_to_dec(n / 10);
        s.append(digit_str((n % 10) as u8));
        proof {
            assert(dec_digits((n / 10) as nat) + seq![digit_char((n % 10) as nat)] =~= dec_digits(
                (n / 10) as nat,
            ).push(digit_char((n % 10) as nat)));
        }
        s
    }
}

/// `m` scaled down by `d` into hundredths, rounded to the nearest hundredth
/// (half away from zero).
pub open spec fn rounded_hundredths(m: nat, d: nat) -> nat
    recommends
        d >= 1,
{
    (m / d + if m % d * 2 >= d {
        1nat
    } else {
        0nat
    }) as nat
}

fn scale_to_hundredths(m: u64, d: u64) -> (q: u64)
    requires
        1 <= d <= 10_000_000_000_000,
    ensures
        q == rounded_hundredths(m as nat, d as nat),
{
    let q0 = m / d;
    let r = m % d;
    if r * 2 >= d {
        proof {
            vstd::arithmetic::div_mod::lemma_fundamental_div_mod(m as int, d as int);
            assert(q0 < 0xffff_ffff_ffff_ffff) by (nonlinear_arith)
                requires
                    m == d * q0 + r,
                    2 <= d,
                    0 <= r,
                    m <= 0xffff_ffff_ffff_ffff,
            ;
        }
        q0 + 1
    } else {
        q0
    }
}

/// The digits of a hundredths count `q`: the whole part, a point, and
/// exactly two fractional digits.
pub open spec fn hundredths_digits(q: nat) -> Seq<char> {
    dec_digits(q / 100) + seq!['.', digit_char(q / 10 % 10), digit_char(q % 10)]
}

fn render_hundredths(q: u64) -> (s: String)
    ensures
        s@ == hundredths_digits(q as nat),
{
    let mut s = u64_to_dec(q / 100);
    s.append(".");
    s.append(digit_str((q / 10 % 10) as u8));
    s.append(digit_str((q % 10) as u8));
    proof {
        reveal_strlit(".");
        assert(s@ =~= hundredths_digits(q as nat));
    }
    s
}

/// The formatted form of `m` thousandths of a byte: the unit is chosen by
/// successive decimal-thousand thresholds (below one thousand bytes plain
/// `bytes`, below a million `KB`, and so on up to `TB`, with anything above
/// the last threshold falling back to plain `bytes`), and the scaled value
/// keeps exactly two fractional digits.
pub open spec fn format_millibytes(m: nat) -> Seq<char> {
    if m < 1_000_000 {
        hundredths_digits(rounded_hundredths(m, 10)) + " bytes"@
    } else if m < 1_000_000_000 {
        hundredths_digits(rounded_hundredths(m, 10_000)) + " KB"@
    } else if m < 1_000_000_000_000 {
        hundredths_digits(rounded_hundredths(m, 10_000_000)) + " MB"@
    } else if m < 1_000_000_000_000_000 {
        hundredths_digits(rounded_hundredths(m, 10_000_000_000)) + " GB"@
    } else if m < 1_000_000_000_000_000_000 {
        hundredths_digits(rounded_hundredths(m, 10_000_000_000_000)) + " TB"@
    } else {
        hundredths_digits(rounded_hundredths(m, 10)) + " bytes"@
    }
}

/// A byte quantity or byte rate, held as a whole number of thousandths of a
/// byte.
#[derive(Clone, Copy, Debug, PartialEq, Eq, Structural)]
pub struct ByteRate {
    pub millibytes: u64,
}

impl ByteRate {
    /// The rate of `millibytes` thousandths of a byte.
    pub fn from_millibytes(millibytes: u64) -> (r: Self)
        ensures
            r.millibytes == millibytes,
    {
        ByteRate { millibytes }
    }

    /// The quantity of `bytes` whole bytes.
    pub fn from_bytes(bytes: u64) -> (r: Self)
        requires
            bytes * 1000 <= u64::MAX,
        ensures
            r.millibytes == bytes * 1000,
    {
        ByteRate { millibytes: bytes * 1000 }
    }

    /// The human-readable form: a value with two fractional digits and a
    /// decimal unit.
    pub fn render(&self) -> (s: String)
        ensures
            s@ == format_millibytes(self.millibytes as nat),
    {
        let m = self.millibytes;
        let (d, unit): (u64, &'static str) = if m < 1_000_000 {
            (10, " bytes")
        } else if m < 1_000_000_000 {
            (10_000, " KB")
        } else if m < 1_000_000_000_000 {
            (10_000_000, " MB")
        } else if m < 1_000_000_000_000_000 {
            (10_000_000_000, " GB")
        } else if m < 1_000_000_000_000_000_000 {
            (10_000_000_000_000, " TB")
        } else {
            (10, " bytes")
        };
        let q = scale_to_hundredths(m, d);
        let mut s = render_hundredths(q);
        s.append(unit);
        s
    }
}

} // verus!
