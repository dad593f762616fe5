//! Human-readable sizes and durations.
//!
//! Sizes are shown as the value of `bytes as f64` divided by a power of two and
//! printed with a fixed number of decimals. That computation is carried out
//! here exactly, in integers: converting a `u64` to `f64` rounds it to 53
//! significant bits (ties to even), dividing by a power of two is exact, and
//! printing with `p` decimals rounds the exact value to the nearest multiple
//! of `10^-p` (ties to even).

use vstd::prelude::*;
use crate::text::{
    decimal, decimal_string, digit_char, lemma_two_digits_injective, lemma_two_digits_len, push_char,
    push_decimal, push_decimal_padded, two_digits,
};

verus! {

/// Bytes in a gibibyte.
pub const GIB: u64 = 1_073_741_824;

/// Bytes in a mebibyte.
pub const MIB: u64 = 1_048_576;

/// Bytes in a kibibyte.
pub const KIB: u64 = 1024;

/// `n / d` rounded to the nearest integer, ties to the even neighbour.
pub open spec fn round_half_even(n: nat, d: nat) -> nat
    recommends
        d > 0,
{
    let q = n / d;
    let r = n % d;
    if 2 * r < d {
        q
    } else if 2 * r > d {
        q + 1
    } else if q % 2 == 0 {
        q
    } else {
        q + 1
    }
}

/// The distance between consecutive `f64` values around `x`, for `x < 2^64`:
/// an `f64` holds 53 significant bits.
pub open spec fn f64_spacing(x: nat) -> nat {
    if x < 0x20_0000_0000_0000 {
        1
    } else if x < 0x40_0000_0000_0000 {
        2
    } else if x < 0x80_0000_0000_0000 {
        4
    } else if x < 0x100_0000_0000_0000 {
        8
    } else if x < 0x200_0000_0000_0000 {
        16
    } else if x < 0x400_0000_0000_0000 {
        32
    } else if x < 0x800_0000_0000_0000 {
        64
    } else if x < 0x1000_0000_0000_0000 {
        128
    } else if x < 0x2000_0000_0000_0000 {
        256
    } else if x < 0x4000_0000_0000_0000 {
        512
    } else if x < 0x8000_0000_0000_0000 {
        1024
    } else {
        2048
    }
}

/// The value of `x as f64`: `x` rounded to the nearest multiple of the
/// spacing of `f64` values there, ties to even.
pub open spec fn as_f64(x: nat) -> nat {
    round_half_even(x, f64_spacing(x)) * f64_spacing(x)
}

/// The rendering of `t / 10` with one decimal, for a count `t` of tenths.
pub open spec fn tenths_text(t: nat) -> Seq<char> {
    decimal(t / 10) + seq!['.', digit_char(t % 10)]
}

/// The number of tenths of a gibibyte that `{:.1}` shows for `bytes as f64 / 2^30`.
pub open spec fn gib_tenths(bytes: nat) -> nat {
    round_half_even(as_f64(bytes) * 10, GIB as nat)
}

/// The text that `format_bytes` produces for `bytes`.
pub open spec fn bytes_text(bytes: nat) -> Seq<char> {
    if bytes >= GIB {
        tenths_text(gib_tenths(bytes)) + " GB"@
    } else if bytes >= MIB {
        decimal(round_half_even(bytes, MIB as nat)) + " MB"@
    } else {
        decimal(round_half_even(bytes, KIB as nat)) + " KB"@
    }
}

/// Hours, minutes and seconds of an uptime: whole hours, then the minutes and
/// seconds left over.
pub open spec fn uptime_fields(secs: nat) -> (nat, nat, nat) {
    (secs / 3600, (secs % 3600) / 60, secs % 60)
}

/// The text that `format_uptime` produces for `secs`.
pub open spec fn uptime_text(secs: nat) -> Seq<char> {
    let (h, m, s) = uptime_fields(secs);
    two_digits(h) + "h "@ + two_digits(m) + "m "@ + two_digits(s) + "s"@
}

/// The hours, minutes and seconds shown add up to the uptime, and minutes
/// and seconds stay below 60.
pub proof fn lemma_uptime_fields_recompose(secs: nat)
    ensures
        uptime_fields(secs).0 * 3600 + uptime_fields(secs).1 * 60 + uptime_fields(secs).2 == secs,
        uptime_fields(secs).1 < 60,
        uptime_fields(secs).2 < 60,
{
    let h = secs / 3600;
    let r = secs % 3600;
    assert(secs == h * 3600 + r);
    assert(r == (r / 60) * 60 + r % 60);
    assert(r % 60 == secs % 60) by (nonlinear_arith)
        requires
            secs == h * 3600 + r,
            r < 3600,
            h >= 0,
    {
        assert(secs == (h * 60 + r / 60) * 60 + r % 60);
    }
}

/// The uptime text is the hours (at least two digits) followed by nine
/// characters: it is 11 characters long exactly below 100 hours.
pub proof fn lemma_uptime_text_len(secs: nat)
    ensures
        uptime_text(secs).len() == two_digits(secs / 3600).len() + 9,
        uptime_text(secs).len() == 11 <==> secs < 360000,
{
    reveal_strlit("h ");
    reveal_strlit("m ");
    reveal_strlit("s");
    lemma_uptime_fields_recompose(secs);
    lemma_two_digits_len(secs / 3600);
    lemma_two_digits_len((secs % 3600) / 60);
    lemma_two_digits_len(secs % 60);
}

/// Different uptimes give different texts: the text can be read back into
/// the number of seconds.
pub proof fn lemma_uptime_text_injective(a: nat, b: nat)
    requires
        uptime_text(a) == uptime_text(b),
    ensures
        a == b,
{
    reveal_strlit("h ");
    reveal_strlit("m ");
    reveal_strlit("s");
    lemma_uptime_text_len(a);
    lemma_uptime_text_len(b);
    lemma_uptime_fields_recompose(a);
    lemma_uptime_fields_recompose(b);
    let (ha, ma, sa) = uptime_fields(a);
    let (hb, mb, sb) = uptime_fields(b);
    lemma_two_digits_len(ma);
    lemma_two_digits_len(sa);
    lemma_two_digits_len(mb);
    lemma_two_digits_len(sb);
    let ta = uptime_text(a);
    let tb = uptime_text(b);
    let k = two_digits(ha).len() as int;
    assert(two_digits(hb).len() == k);
    assert(ta.subrange(0, k) =~= two_digits(ha));
    assert(tb.subrange(0, k) =~= two_digits(hb));
    lemma_two_digits_injective(ha, hb);
    assert(ta.subrange(k + 2, k + 4) =~= two_digits(ma));
    assert(tb.subrange(k + 2, k + 4) =~= two_digits(mb));
    lemma_two_digits_injective(ma, mb);
    assert(ta.subrange(k + 6, k + 8) =~= two_digits(sa));
    assert(tb.subrange(k + 6, k + 8) =~= two_digits(sb));
    lemma_two_digits_injective(sa, sb);
}

/// Sizes below 2^53 bytes convert to `f64` exactly.
pub proof fn lemma_as_f64_exact(x: nat)
    requires
        x < 0x20_0000_0000_0000,
    ensures
        as_f64(x) == x,
{
}

/// Rounding is to a neighbour: the result is within half a step of `n / d`.
pub proof fn lemma_round_half_even_nearest(n: nat, d: nat)
    requires
        d > 0,
    ensures
        round_half_even(n, d) == n / d || round_half_even(n, d) == n / d + 1,
        2 * n <= (2 * round_half_even(n, d) + 1) * d,
        (2 * round_half_even(n, d)) * d <= 2 * n + d,
{
    let q = n / d;
    let r = n % d;
    vstd::arithmetic::div_mod::lemma_fundamental_div_mod(n as int, d as int);
    assert(n == q * d + r);
    assert((2 * q + 1) * d == 2 * q * d + d) by (nonlinear_arith);
    assert((2 * (q + 1)) * d == 2 * q * d + 2 * d) by (nonlinear_arith);
    assert((2 * q) * d == 2 * (q * d)) by (nonlinear_arith);
    assert((2 * q + 3) * d == 2 * q * d + 3 * d) by (nonlinear_arith);
}

/// For sizes below 2^53 bytes (where the conversion to `f64` is exact), the
/// tenths of a gibibyte shown are within half a tenth of the exact size:
/// `|t / 10 - bytes / 2^30| <= 1 / 20`.
pub proof fn lemma_gib_tenths_close(bytes: nat)
    requires
        bytes < 0x20_0000_0000_0000,
    ensures
        2 * (bytes * 10) <= (2 * gib_tenths(bytes) + 1) * (GIB as nat),
        (2 * gib_tenths(bytes)) * (GIB as nat) <= 2 * (bytes * 10) + GIB as nat,
{
    lemma_as_f64_exact(bytes);
    lemma_round_half_even_nearest(bytes * 10, GIB as nat);
}

/// Rounding to a whole number of steps never reverses the order of two
/// values.
pub proof fn lemma_round_half_even_monotone(n1: nat, n2: nat, d: nat)
    requires
        d > 0,
        n1 <= n2,
    ensures
        round_half_even(n1, d) <= round_half_even(n2, d),
{
    vstd::arithmetic::div_mod::lemma_div_is_ordered(n1 as int, n2 as int, d as int);
    vstd::arithmetic::div_mod::lemma_fundamental_div_mod(n1 as int, d as int);
    vstd::arithmetic::div_mod::lemma_fundamental_div_mod(n2 as int, d as int);
    if n1 / d == n2 / d {
        let t = d * (n1 / d);
        assert(t == d * (n2 / d));
        assert(n1 % d <= n2 % d);
    }
}

proof fn lemma_round_to_multiple_monotone(x: nat, y: nat, u: nat)
    requires
        u > 0,
        x <= y,
    ensures
        round_half_even(x, u) * u <= round_half_even(y, u) * u,
{
    lemma_round_half_even_monotone(x, y, u);
    let a = round_half_even(x, u);
    let b = round_half_even(y, u);
    assert(a * u <= b * u) by (nonlinear_arith)
        requires
            a <= b,
    ;
}

proof fn lemma_round_to_multiple_below(x: nat, u: nat, top: nat)
    requires
        u > 0,
        x < top,
        top % u == 0,
    ensures
        round_half_even(x, u) * u <= top,
{
    vstd::arithmetic::div_mod::lemma_fundamental_div_mod(x as int, u as int);
    vstd::arithmetic::div_mod::lemma_fundamental_div_mod(top as int, u as int);
    let q = x / u;
    let k = top / u;
    assert(q < k) by (nonlinear_arith)
        requires
            x == u * q + x % u,
            top == u * k,
            x < top,
            x % u >= 0,
            u > 0,
    ;
    let r = round_half_even(x, u);
    assert(r <= k);
    assert(r * u <= k * u) by (nonlinear_arith)
        requires
            r <= k,
    ;
    assert(k * u == u * k) by (nonlinear_arith);
}

proof fn lemma_round_to_multiple_above(y: nat, u: nat, bottom: nat)
    requires
        u > 0,
        y >= bottom,
        bottom % u == 0,
    ensures
        round_half_even(y, u) * u >= bottom,
{
    vstd::arithmetic::div_mod::lemma_fundamental_div_mod(y as int, u as int);
    vstd::arithmetic::div_mod::lemma_fundamental_div_mod(bottom as int, u as int);
    let q = y / u;
    let k = bottom / u;
    assert(q >= k) by (nonlinear_arith)
        requires
            y == u * q + y % u,
            bottom == u * k,
            y >= bottom,
            y % u < u,
            u > 0,
    ;
    let r = round_half_even(y, u);
    assert(r >= k);
    assert(r * u >= k * u) by (nonlinear_arith)
        requires
            r >= k,
    ;
    assert(k * u == u * k) by (nonlinear_arith);
}

/// The first value past the range of `f64_spacing(x)` (the next power of
/// two at which the spacing doubles).
pub open spec fn spacing_top(x: nat) -> nat {
    0x20_0000_0000_0000 * f64_spacing(x)
}

proof fn lemma_spacing_bands(x: nat, y: nat)
    requires
        x <= y,
        y < 0x1_0000_0000_0000_0000,
    ensures
        f64_spacing(x) <= f64_spacing(y),
        x < spacing_top(x),
        f64_spacing(x) < f64_spacing(y) ==> y >= spacing_top(x),
        spacing_top(x) % f64_spacing(x) == 0,
        spacing_top(x) % f64_spacing(y) == 0,
{
    let ux = f64_spacing(x);
    let uy = f64_spacing(y);
    let c = 0x20_0000_0000_0000nat / uy;
    assert(0x20_0000_0000_0000nat == uy * c);
    vstd::arithmetic::div_mod::lemma_mod_multiples_basic(0x20_0000_0000_0000int, ux as int);
    assert(spacing_top(x) == uy * (c * ux)) by (nonlinear_arith)
        requires
            spacing_top(x) == 0x20_0000_0000_0000nat * ux,
            0x20_0000_0000_0000nat == uy * c,
    ;
    vstd::arithmetic::div_mod::lemma_mod_multiples_basic((c * ux) as int, uy as int);
    assert((c * ux) * uy == uy * (c * ux)) by (nonlinear_arith);
}

/// Converting to `f64` never reverses the order of two sizes.
pub proof fn lemma_as_f64_monotone(x: nat, y: nat)
    requires
        x <= y,
        y < 0x1_0000_0000_0000_0000,
    ensures
        as_f64(x) <= as_f64(y),
{
    lemma_spacing_bands(x, y);
    let ux = f64_spacing(x);
    let uy = f64_spacing(y);
    if ux == uy {
        lemma_round_to_multiple_monotone(x, y, ux);
    } else {
        lemma_round_to_multiple_below(x, ux, spacing_top(x));
        lemma_round_to_multiple_above(y, uy, spacing_top(x));
    }
}

/// A larger size is never shown as fewer gibibytes: the tenths that
/// `mb_to_gb` shows grow with the size.
pub proof fn lemma_gib_tenths_monotone(a: nat, b: nat)
    requires
        a <= b,
        b < 0x1_0000_0000_0000_0000,
    ensures
        gib_tenths(a) <= gib_tenths(b),
{
    lemma_as_f64_monotone(a, b);
    lemma_round_half_even_monotone(as_f64(a) * 10, as_f64(b) * 10, GIB as nat);
}

/// The unit that `format_bytes` picks: 2 for GB, 1 for MB, 0 for KB.
pub open spec fn bytes_unit(bytes: nat) -> nat {
    if bytes >= GIB {
        2
    } else if bytes >= MIB {
        1
    } else {
        0
    }
}

/// The number that `format_bytes` shows before the unit: tenths of a
/// gibibyte, or whole mebibytes or kibibytes.
pub open spec fn bytes_figure(bytes: nat) -> nat {
    if bytes >= GIB {
        gib_tenths(bytes)
    } else if bytes >= MIB {
        round_half_even(bytes, MIB as nat)
    } else {
        round_half_even(bytes, KIB as nat)
    }
}

/// A larger unit is picked for a larger size, and within one unit the number
/// shown grows with the size.
pub proof fn lemma_bytes_figure_monotone(a: nat, b: nat)
    requires
        a <= b,
        b < 0x1_0000_0000_0000_0000,
    ensures
        bytes_unit(a) <= bytes_unit(b),
        bytes_unit(a) == bytes_unit(b) ==> bytes_figure(a) <= bytes_figure(b),
{
    if bytes_unit(a) == bytes_unit(b) {
        if a >= GIB {
            lemma_gib_tenths_monotone(a, b);
        } else if a >= MIB {
            lemma_round_half_even_monotone(a, b, MIB as nat);
        } else {
            lemma_round_half_even_monotone(a, b, KIB as nat);
        }
    }
}

/// The text of `format_bytes` is the number shown, then the unit's name.
pub proof fn lemma_bytes_text_parts(bytes: nat)
    ensures
        bytes_text(bytes) == if bytes_unit(bytes) == 2 {
            tenths_text(bytes_figure(bytes)) + " GB"@
        } else if bytes_unit(bytes) == 1 {
            decimal(bytes_figure(bytes)) + " MB"@
        } else {
            decimal(bytes_figure(bytes)) + " KB"@
        },
{
}

fn round_half_even_u128(n: u128, d: u128) -> (r: u128)
    requires
        d > 0,
        n / d < u128::MAX,
    ensures
        r == round_half_even(n as nat, d as nat),
{
    let q = n / d;
    let rem = n % d;
    if rem < d - rem {
        q
    } else if rem > d - rem {
        q + 1
    } else if q % 2 == 0 {
        q
    } else {
        q + 1
    }
}

fn f64_spacing_exec(x: u64) -> (u: u64)
    ensures
        u == f64_spacing(x as nat),
        1 <= u <= 2048,
{
    if x < 0x20_0000_0000_0000 {
        1
    } else if x < 0x40_0000_0000_0000 {
        2
    } else if x < 0x80_0000_0000_0000 {
        4
    } else if x < 0x100_0000_0000_0000 {
        8
    } else if x < 0x200_0000_0000_0000 {
        16
    } else if x < 0x400_0000_0000_0000 {
        32
    } else if x < 0x800_0000_0000_0000 {
        64
    } else if x < 0x1000_0000_0000_0000 {
        128
    } else if x < 0x2000_0000_0000_0000 {
        256
    } else if x < 0x4000_0000_0000_0000 {
        512
    } else if x < 0x8000_0000_0000_0000 {
        1024
    } else {
        2048
    }
}

/// Tenths of a gibibyte shown for `bytes`, computed in integers.
fn gib_tenths_exec(bytes: u64) -> (t: u64)
    ensures
        t == gib_tenths(bytes as nat),
{
    let u = f64_spacing_exec(bytes);
    let q = round_half_even_u128(bytes as u128, u as u128);
    assert(q <= bytes as nat / (u as nat) + 1);
    assert(q * u <= 0x1_0000_0000_0000_0000 + 2048) by (nonlinear_arith)
        requires
            q <= bytes as nat / (u as nat) + 1,
            1 <= u <= 2048,
            bytes < 0x1_0000_0000_0000_0000,
    {
        assert((bytes as nat / (u as nat)) * u <= bytes);
    }
    let value = q * (u as u128);
    let scaled = value * 10;
    let t = round_half_even_u128(scaled, GIB as u128);
    assert(t <= scaled as nat / (GIB as nat) + 1);
    t as u64
}

/// The size `bytes`, in gibibytes, with one decimal (as `{:.1}` prints
/// `bytes as f64 / 2^30`).
pub fn mb_to_gb(bytes: u64) -> (r: String)
    ensures
        r@ == tenths_text(gib_tenths(bytes as nat)),
{
    let t = gib_tenths_exec(bytes);
    let mut r = String::new();
    push_decimal(&mut r, t / 10);
    push_char(&mut r, '.');
    push_decimal(&mut r, t % 10);
    assert(decimal((t % 10) as nat) == seq![digit_char((t % 10) as nat)]);
    assert(r@ =~= tenths_text(t as nat));
    r
}

/// The size `bytes` in the largest unit among GB, MB and KB that it reaches
/// (KB below one mebibyte): gibibytes with one decimal, mebibytes and
/// kibibytes rounded to whole numbers.
pub fn format_bytes(bytes: u64) -> (r: String)
    ensures
        r@ == bytes_text(bytes as nat),
{
    let mut r;
    if bytes >= GIB {
        r = mb_to_gb(bytes);
        r.append(" GB");
    } else if bytes >= MIB {
        let n = round_half_even_u128(bytes as u128, MIB as u128);
        r = decimal_string(n as u64);
        r.append(" MB");
    } else {
        let n = round_half_even_u128(bytes as u128, KIB as u128);
        r = decimal_string(n as u64);
        r.append(" KB");
    }
    r
}

/// An uptime in seconds as `HHh MMm SSs`: hours, minutes and seconds, each at
/// least two digits wide.
pub fn format_uptime(secs: u64) -> (r: String)
    ensures
        r@ == uptime_text(secs as nat),
{
    let h = secs / 3600;
    let m = (secs % 3600) / 60;
    let s = secs % 60;
    let mut r = String::new();
    push_decimal_padded(&mut r, h, 2, '0');
    r.append("h ");
    push_decimal_padded(&mut r, m, 2, '0');
    r.append("m ");
    push_decimal_padded(&mut r, s, 2, '0');
    r.append("s");
    r
}

} // verus!
