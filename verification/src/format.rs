//! Pure formatting of byte counts, transfer speeds and durations into
//! human-readable strings. Quantities at or above a unit boundary are shown
//! with two fractional digits of that unit, rounded to nearest with ties to
//! even — the rounding `{:.2}` applies to exactly representable values;
//! smaller byte counts are shown as a plain count, while speeds always carry
//! the two decimals.

use vstd::prelude::*;
use vstd::string::StrSliceExecFns;
use vstd::string::StringExecFns;
use vstd::arithmetic::div_mod::lemma_div_is_ordered;
use vstd::arithmetic::div_mod::lemma_fundamental_div_mod;
use vstd::arithmetic::div_mod::lemma_fundamental_div_mod_converse;
use vstd::arithmetic::div_mod::lemma_mod_multiples_vanish;

verus! {

/// Bytes per kilobyte.
pub const KB: u64 = 1024;

/// Bytes per megabyte.
pub const MB: u64 = 1024 * 1024;

/// Bytes per gigabyte.
pub const GB: u64 = 1024 * 1024 * 1024;

/// The decimal digit character for `d` (meaningful for `d <= 9`).
pub open spec fn digit_char(d: nat) -> char {
    seq!['0', '1', '2', '3', '4', '5', '6', '7', '8', '9'][d as int]
}

/// The decimal representation of `n`, most significant digit first.
pub open spec fn spec_dec(n: nat) -> Seq<char>
    decreases n,
{
    if n < 10 {
        seq![digit_char(n)]
    } else {
        spec_dec(n / 10).push(digit_char(n % 10))
    }
}

/// The one-character string holding the decimal digit `d`.
fn digit_str(d: u64) -> (r: &'static str)
    requires
        d < 10,
    ensures
        r@ =~= seq![digit_char(d as nat)],
{
    match d {
        0 => {
            proof { reveal_strlit("0"); }
            "0"
        },
        1 => {
            proof { reveal_strlit("1"); }
            "1"
        },
        2 => {
            proof { reveal_strlit("2"); }
            "2"
        },
        3 => {
            proof { reveal_strlit("3"); }
            "3"
        },
        4 => {
            proof { reveal_strlit("4"); }
            "4"
        },
        5 => {
            proof { reveal_strlit("5"); }
            "5"
        },
        6 => {
            proof { reveal_strlit("6"); }
            "6"
        },
        7 => {
            proof { reveal_strlit("7"); }
            "7"
        },
        8 => {
            proof { reveal_strlit("8"); }
            "8"
        },
        _ => {
            proof { reveal_strlit("9"); }
            "9"
        },
    }
}

/// Renders `n` in decimal.
pub fn u64_to_string(n: u64) -> (r: String)
    ensures
        r@ == spec_dec(n as nat),
    decreases n,
{
    if n < 10 {
        let d = digit_str(n);
        d.to_owned()
    } else {
        let mut s = u64_to_string(n / 10);
        s.append(digit_str(n % 10));
        proof {
            assert(s@ =~= spec_dec((n / 10) as nat).push(digit_char((n % 10) as nat)));
        }
        s
    }
}

/// `n / d` rounded to the nearest integer, ties to the even quotient — the
/// rounding that `{:.2}` float formatting applies to exactly representable
/// values (meaningful for `n >= 0`, `d >= 1`).
pub open spec fn rnd_div(n: int, d: int) -> int {
    let q = n / d;
    let r = n % d;
    if 2 * r > d {
        q + 1
    } else if 2 * r < d {
        q
    } else if q % 2 == 0 {
        q
    } else {
        q + 1
    }
}

/// Rounded division never loses more than the quotient's neighbourhood: the
/// result sits between the floor and the floor plus one, and it is monotone
/// in the numerator.
pub proof fn lemma_rnd_div_monotone(n1: int, n2: int, d: int)
    requires
        0 <= n1 <= n2,
        d >= 1,
    ensures
        n1 / d <= rnd_div(n1, d) <= n1 / d + 1,
        rnd_div(n1, d) <= rnd_div(n2, d),
{
    lemma_fundamental_div_mod(n1, d);
    lemma_fundamental_div_mod(n2, d);
    lemma_div_is_ordered(n1, n2, d);
    let q1 = n1 / d;
    let r1 = n1 % d;
    let q2 = n2 / d;
    let r2 = n2 % d;
    if q1 == q2 {
        // Same whole quotient: the remainders are ordered, and the rounding
        // adjustment can only grow with the remainder (a tie rounds down
        // only when everything smaller also rounds down).
        assert(r1 <= r2) by (nonlinear_arith)
            requires n1 == d * q1 + r1 && n2 == d * q2 + r2 && q1 == q2 && n1 <= n2;
    }
}

/// Splitting `100 * b` by `unit` equals scaling the split of `b`: the
/// quotient gains `100 * (b / unit)` and the remainder is that of
/// `(b % unit) * 100`.
proof fn lemma_scaled_parts(b: u64, unit: u64)
    requires
        unit >= 1,
    ensures
        100 * (b as int) / (unit as int) == 100 * ((b as int) / (unit as int)) + ((b as int)
            % (unit as int)) * 100 / (unit as int),
        100 * (b as int) % (unit as int) == ((b as int) % (unit as int)) * 100 % (unit as int),
{
    let x = b as int;
    let d = unit as int;
    let q = x / d;
    let r = x % d;
    lemma_fundamental_div_mod(x, d);
    lemma_fundamental_div_mod(100 * r, d);
    let q2 = (100 * r) / d;
    let r2 = (100 * r) % d;
    assert(100 * x == d * (100 * q + q2) + r2) by (nonlinear_arith)
        requires x == d * q + r && 100 * r == d * q2 + r2;
    lemma_fundamental_div_mod_converse(100 * x, d, 100 * q + q2, r2);
}

/// `"W.FF"`: `b` in hundredths of `unit`, rounded to nearest (ties to
/// even), rendered as whole units and two fractional digits — a rounded
/// fraction of one hundred carries into the whole part.
pub open spec fn spec_scaled(b: u64, unit: u64) -> Seq<char> {
    let h = rnd_div(100 * (b as int), unit as int);
    spec_dec((h / 100) as nat) + seq!['.'] + seq![
        digit_char(((h % 100) / 10) as nat),
        digit_char((h % 100 % 10) as nat),
    ]
}

fn scaled_string(b: u64, unit: u64) -> (r: String)
    requires
        1 <= unit <= 1024 * 1024 * 1024,
    ensures
        r@ == spec_scaled(b, unit),
{
    let whole: u64 = b / unit;
    let rem: u64 = b % unit;
    let scaled: u64 = rem * 100;
    let q: u64 = scaled / unit;
    let part: u64 = scaled % unit;
    proof {
        assert((rem as int) * 100 / (unit as int) < 100) by (nonlinear_arith)
            requires rem < unit && unit >= 1;
    }
    let frac_rounded: u64 = if 2 * part > unit {
        q + 1
    } else if 2 * part < unit {
        q
    } else if q % 2 == 0 {
        q
    } else {
        q + 1
    };
    let (whole, frac): (u64, u64) = if frac_rounded == 100 {
        proof {
            // A fraction can only round up to a full hundred when the unit
            // exceeds one hundred, so the whole part stays clear of the
            // ceiling.
            assert(unit >= 100) by (nonlinear_arith)
                requires
                    rem < unit && unit >= 1 && (rem as int) * 100 / (unit as int) >= 99;
            assert((b as int) / (unit as int) < u64::MAX) by (nonlinear_arith)
                requires unit >= 100 && b <= u64::MAX;
        }
        (whole + 1, 0)
    } else {
        (whole, frac_rounded)
    };
    proof {
        lemma_scaled_parts(b, unit);
        let h = rnd_div(100 * (b as int), unit as int);
        lemma_mod_multiples_vanish(50 * ((b as int) / (unit as int)), q as int, 2);
        assert(h == 100 * ((b as int) / (unit as int)) + frac_rounded);
        lemma_fundamental_div_mod_converse(h, 100, whole as int, frac as int);
    }
    let mut s = u64_to_string(whole);
    s.append(".");
    s.append(digit_str(frac / 10));
    s.append(digit_str(frac % 10));
    proof {
        reveal_strlit(".");
        assert(s@ =~= spec_scaled(b, unit));
    }
    s
}

/// The text `format_bytes` returns for `b`.
pub open spec fn spec_format_bytes(b: u64) -> Seq<char> {
    if b >= GB {
        spec_scaled(b, GB) + " GB"@
    } else if b >= MB {
        spec_scaled(b, MB) + " MB"@
    } else if b >= KB {
        spec_scaled(b, KB) + " KB"@
    } else {
        spec_dec(b as nat) + " B"@
    }
}

/// Formats a byte count with the largest unit it reaches, e.g. `"1.50 KB"`,
/// `"3.00 MB"`, `"512 B"`.
pub fn format_bytes(bytes: u64) -> (r: String)
    ensures
        r@ == spec_format_bytes(bytes),
{
    if bytes >= GB {
        let mut s = scaled_string(bytes, GB);
        s.append(" GB");
        s
    } else if bytes >= MB {
        let mut s = scaled_string(bytes, MB);
        s.append(" MB");
        s
    } else if bytes >= KB {
        let mut s = scaled_string(bytes, KB);
        s.append(" KB");
        s
    } else {
        let mut s = u64_to_string(bytes);
        s.append(" B");
        s
    }
}

/// The text `format_speed` returns for `b` bytes per second. Unlike plain
/// byte counts, the bytes-per-second branch keeps the two decimals, so a
/// zero speed reads `"0.00 B/s"`.
pub open spec fn spec_format_speed(b: u64) -> Seq<char> {
    if b >= GB {
        spec_scaled(b, GB) + " GB/s"@
    } else if b >= MB {
        spec_scaled(b, MB) + " MB/s"@
    } else if b >= KB {
        spec_scaled(b, KB) + " KB/s"@
    } else {
        spec_scaled(b, 1) + " B/s"@
    }
}

/// Formats an average throughput, e.g. `"2.00 MB/s"`, `"0.00 B/s"`.
pub fn format_speed(bytes_per_sec: u64) -> (r: String)
    ensures
        r@ == spec_format_speed(bytes_per_sec),
{
    if bytes_per_sec >= GB {
        let mut s = scaled_string(bytes_per_sec, GB);
        s.append(" GB/s");
        s
    } else if bytes_per_sec >= MB {
        let mut s = scaled_string(bytes_per_sec, MB);
        s.append(" MB/s");
        s
    } else if bytes_per_sec >= KB {
        let mut s = scaled_string(bytes_per_sec, KB);
        s.append(" KB/s");
        s
    } else {
        let mut s = scaled_string(bytes_per_sec, 1);
        s.append(" B/s");
        s
    }
}

/// The text `format_duration` returns for `s` seconds.
pub open spec fn spec_format_duration(s: u64) -> Seq<char> {
    let h = s as nat / 3600;
    let m = (s as nat % 3600) / 60;
    let sec = s as nat % 60;
    if h > 0 {
        spec_dec(h) + "h "@ + spec_dec(m) + "m "@ + spec_dec(sec) + "s"@
    } else if m > 0 {
        spec_dec(m) + "m "@ + spec_dec(sec) + "s"@
    } else {
        spec_dec(sec) + "s"@
    }
}

/// Formats a duration as hours, minutes and seconds, omitting leading zero
/// parts: `"1h 2m 3s"`, `"5m 0s"`, `"42s"`.
pub fn format_duration(seconds: u64) -> (r: String)
    ensures
        r@ == spec_format_duration(seconds),
{
    let hours: u64 = seconds / 3600;
    let minutes: u64 = (seconds % 3600) / 60;
    let secs: u64 = seconds % 60;
    if hours > 0 {
        let mut s = u64_to_string(hours);
        s.append("h ");
        let m = u64_to_string(minutes);
        s.append(m.as_str());
        s.append("m ");
        let sec = u64_to_string(secs);
        s.append(sec.as_str());
        s.append("s");
        proof {
            assert(s@ =~= spec_format_duration(seconds));
        }
        s
    } else if minutes > 0 {
        let mut s = u64_to_string(minutes);
        s.append("m ");
        let sec = u64_to_string(secs);
        s.append(sec.as_str());
        s.append("s");
        proof {
            assert(s@ =~= spec_format_duration(seconds));
        }
        s
    } else {
        let mut s = u64_to_string(secs);
        s.append("s");
        proof {
            assert(s@ =~= spec_format_duration(seconds));
        }
        s
    }
}

/// The divisor of the unit `format_bytes` picks for `b`.
pub open spec fn unit_divisor(b: u64) -> int {
    if b >= GB {
        GB as int
    } else if b >= MB {
        MB as int
    } else if b >= KB {
        KB as int
    } else {
        1
    }
}

/// The magnitude `format_bytes(b)` displays, in hundredths of a byte: the
/// whole part and the two rounded fractional digits, scaled back up by the
/// chosen unit.
pub open spec fn displayed_centibytes(b: u64) -> int {
    rnd_div(100 * (b as int), unit_divisor(b)) * unit_divisor(b)
}

/// The quantity shown by `format_bytes` never decreases as the byte count
/// grows, including across unit boundaries: `1023` renders as `"1023 B"`
/// (1023.00 bytes) and `1024` as `"1.00 KB"` (1024.00 bytes); the top of
/// each band rounds up to exactly the value the next band starts with.
pub proof fn lemma_format_bytes_monotone(b1: u64, b2: u64)
    requires
        b1 <= b2,
    ensures
        displayed_centibytes(b1) <= displayed_centibytes(b2),
{
    let d1 = unit_divisor(b1);
    let d2 = unit_divisor(b2);
    let x1 = 100 * (b1 as int);
    let x2 = 100 * (b2 as int);
    let h1 = rnd_div(x1, d1);
    let h2 = rnd_div(x2, d2);
    if d1 == d2 {
        lemma_rnd_div_monotone(x1, x2, d1);
        assert(h1 * d1 <= h2 * d1) by (nonlinear_arith)
            requires h1 <= h2 && d1 >= 1;
    } else {
        // b1 sits in a strictly lower band, so b1 < d2 <= b2.
        assert(b1 < d2);
        // The upper band never displays less than its boundary value.
        lemma_rnd_div_monotone(x2, x2, d2);
        lemma_fundamental_div_mod(x2, d2);
        assert(x2 / d2 >= 100) by (nonlinear_arith)
            requires x2 == d2 * (x2 / d2) + x2 % d2 && x2 % d2 < d2 && x2 >= 100 * d2 && d2 >= 1;
        assert(h2 * d2 >= 100 * d2) by (nonlinear_arith)
            requires h2 >= 100 && d2 >= 1;
        // The lower band tops out at that same boundary value: its largest
        // displayable count is d2 - 1, whose rounded display is exactly
        // 100 * d2 (checked concretely for each adjacent pair of units).
        lemma_rnd_div_monotone(x1, 100 * (d2 - 1), d1);
        let top = rnd_div(100 * (d2 - 1), d1);
        if d1 == 1 {
            assert(top * d1 <= 100 * d2);
        } else {
            assert(rnd_div(100 * ((MB as int) - 1), KB as int) * (KB as int) == 100 * (
            MB as int));
            assert(rnd_div(100 * ((GB as int) - 1), KB as int) * (KB as int) == 100 * (
            GB as int));
            assert(rnd_div(100 * ((GB as int) - 1), MB as int) * (MB as int) == 100 * (
            GB as int));
            assert(top * d1 <= 100 * d2);
        }
        assert(h1 * d1 <= top * d1) by (nonlinear_arith)
            requires h1 <= top && d1 >= 1;
    }
}

} // verus!
