//! How numbers, times and names are written on pages.
use vstd::prelude::*;
use vstd::string::*;

use crate::text::{hex_digit_upper, push_decimal, push_decimal_signed};

verus! {

/// The quotient rounded to the nearest integer, to the even one where two are as near.
pub open spec fn half_even(n: int, d: int) -> int {
    let q = n / d;
    let r = n % d;
    if 2 * r < d || (2 * r == d && q % 2 == 0) {
        q
    } else {
        q + 1
    }
}

fn round_half_even(n: u128, d: u128) -> (r: u128)
    requires
        0 < d <= 0x1_0000_0000_0000_0000,
        n <= 0xffff_ffff_ffff_ffff_ffff,
    ensures
        r == half_even(n as int, d as int),
{
    let q: u128 = n / d;
    let rest: u128 = n % d;
    proof {
        assert(q <= n) by (nonlinear_arith)
            requires
                q == n / d,
                d > 0,
        ;
    }
    if 2 * rest < d || (2 * rest == d && q % 2 == 0) {
        q
    } else {
        q + 1
    }
}

/// The number with at most 53 significant bits that is nearest to `v`, where the low bits of `v`
/// weigh at least `step`: amounts beyond that are not told apart.
pub open spec fn coarse(v: int, step: int) -> int
    decreases v - step,
{
    if step <= 0 || v < 0x20_0000_0000_0000 * step {
        half_even(v, step) * step
    } else {
        coarse(v, step * 2)
    }
}

proof fn lemma_half_even(n: int, d: int)
    requires
        n >= 0,
        d > 0,
    ensures
        0 <= half_even(n, d),
        half_even(n, d) * d <= n + d,
        half_even(n, d) <= n + 1,
{
    let q = n / d;
    assert(q * d <= n && (q + 1) * d <= n + d && 0 <= q <= n) by (nonlinear_arith)
        requires
            q == n / d,
            n >= 0,
            d > 0,
    ;
}

/// Rounds an integer to 53 significant bits.
fn coarse_amount(n: u128) -> (r: u128)
    requires
        n <= 0xffff_ffff_ffff_ffff_ffff,
    ensures
        r == coarse(n as int, 1),
        r <= 2 * n,
{
    let mut step: u128 = 1;
    while n >= 0x20_0000_0000_0000 * step
        invariant
            n <= 0xffff_ffff_ffff_ffff_ffff,
            1 <= step,
            step == 1 || step <= n,
            step <= 0xffff_ffff,
            coarse(n as int, 1) == coarse(n as int, step as int),
        decreases n - step,
    {
        step = step * 2;
    }
    let rounded: u128 = round_half_even(n, step);
    proof {
        lemma_half_even(n as int, step as int);
        if n == 0 {
            assert(half_even(0, 1) == 0);
        }
    }
    rounded * step
}

/// How many bytes the unit has in which an amount is written, with its name.
pub open spec fn unit_of(v: u64) -> (int, Seq<char>) {
    if v < 0x400 {
        (1, "B"@)
    } else if v < 0x10_0000 {
        (0x400, "KiB"@)
    } else if v < 0x4000_0000 {
        (0x10_0000, "MiB"@)
    } else if v < 0x100_0000_0000 {
        (0x4000_0000, "GiB"@)
    } else {
        (0x100_0000_0000, "TiB"@)
    }
}

/// An amount of traffic in the largest unit of which there is at least one: bytes as they are,
/// others with one decimal.
pub open spec fn bytes_text(v: u64) -> Seq<char> {
    let unit = unit_of(v);
    if unit.0 == 1 {
        crate::text::decimal(v as nat) + " "@ + unit.1
    } else {
        let tenths = half_even(coarse(v as int, 1) * 10, unit.0);
        crate::text::decimal((tenths / 10) as nat) + "."@ + crate::text::decimal(
            (tenths % 10) as nat,
        ) + " "@ + unit.1
    }
}

/// Writes an amount of traffic.
pub fn format_bytes(value: u64) -> (r: String)
    ensures
        r@ == bytes_text(value),
{
    let mut out = String::new();
    if value < 0x400 {
        push_decimal(&mut out, value);
        out.append(" ");
        out.append("B");
        proof {
            assert(out@ =~= bytes_text(value));
        }
        return out;
    }
    let (unit, name): (u128, &'static str) = if value < 0x10_0000 {
        (0x400, "KiB")
    } else if value < 0x4000_0000 {
        (0x10_0000, "MiB")
    } else if value < 0x100_0000_0000 {
        (0x4000_0000, "GiB")
    } else {
        (0x100_0000_0000, "TiB")
    };
    let amount: u128 = coarse_amount(value as u128);
    let tenths: u128 = round_half_even(amount * 10, unit);
    proof {
        assert(tenths <= amount * 10 + 1) by {
            let n = (amount * 10) as int;
            let d = unit as int;
            assert(n / d <= n) by (nonlinear_arith)
                requires
                    n >= 0,
                    d >= 1,
            ;
        }
        if value < 0x100_0000_0000 {
            assert(coarse(value as int, 1) == half_even(value as int, 1) * 1);
            assert(amount == value);
        } else {
            let n = (amount * 10) as int;
            assert(n / 0x100_0000_0000 <= 335_544_320);
        }
    }
    push_decimal(&mut out, (tenths / 10) as u64);
    out.append(".");
    push_decimal(&mut out, (tenths % 10) as u64);
    out.append(" ");
    out.append(name);
    proof {
        assert(out@ =~= bytes_text(value));
    }
    out
}

/// The fraction with at most 53 significant bits in its numerator and a power of two as its
/// denominator that is nearest to `n / d`: the quotient of two amounts, as precise as it is kept.
pub open spec fn nearest(n: int, d: int) -> (int, int)
    decreases
            if n >= 0x20_0000_0000_0000 * d {
                1int
            } else {
                0int
            },
            if n >= 0x20_0000_0000_0000 * d {
                n - 0x20_0000_0000_0000 * d
            } else {
                0x20_0000_0000_0000 * d - n
            },
{
    if n <= 0 || d <= 0 {
        (0, 1)
    } else if n >= 0x20_0000_0000_0000 * d {
        let q = nearest(n, 2 * d);
        (2 * q.0, q.1)
    } else if n < 0x10_0000_0000_0000 * d {
        let q = nearest(2 * n, d);
        (q.0, 2 * q.1)
    } else {
        (half_even(n, d), 1)
    }
}

/// How many hundredths of `maximum` an amount is, to the nearest whole number.
pub open spec fn percent(value: u64, maximum: u64) -> int {
    if maximum == 0 {
        0
    } else {
        let q = nearest(coarse(value as int, 1), coarse(maximum as int, 1));
        let hundredths = (2 * coarse(100 * q.0, 1) + q.1) / (2 * q.1);
        if hundredths > 255 {
            255
        } else {
            hundredths
        }
    }
}

/// Finds how wide a bar is: which part of the largest amount an amount is, in hundredths.
pub fn relative_meter(value: u64, maximum: u64) -> (r: u8)
    ensures
        r == percent(value, maximum),
{
    if maximum == 0 {
        return 0;
    }
    let n: u128 = coarse_amount(value as u128);
    let d: u128 = coarse_amount(maximum as u128);
    proof {
        lemma_coarse_positive(maximum as int, 1);
    }
    let (top, bottom) = nearest_fraction(n, d);
    let product: u128 = coarse_amount(100 * top);
    let hundredths: u128 = (2 * product + bottom) / (2 * bottom);
    if hundredths > 255 {
        255
    } else {
        hundredths as u8
    }
}

proof fn lemma_coarse_positive(v: int, step: int)
    requires
        v > 0,
        step > 0,
        v >= step,
    ensures
        coarse(v, step) > 0,
    decreases v - step,
{
    if v < 0x20_0000_0000_0000 * step {
        let q = v / step;
        assert(q >= 1) by (nonlinear_arith)
            requires
                q == v / step,
                v >= step,
                step > 0,
        ;
        assert(half_even(v, step) >= 1);
        assert(half_even(v, step) * step > 0) by (nonlinear_arith)
            requires
                half_even(v, step) >= 1,
                step > 0,
        ;
    } else {
        lemma_coarse_positive(v, step * 2);
    }
}

fn nearest_fraction(n: u128, d: u128) -> (r: (u128, u128))
    requires
        n <= 0x2_0000_0000_0000_0000,
        0 < d <= 0x2_0000_0000_0000_0000,
    ensures
        (r.0 as int, r.1 as int) == nearest(n as int, d as int),
        r.0 <= 0x4_0000_0000_0000_0000,
        0 < r.1 <= 0x40_0000_0000_0000_0000_0000_0000_0000,
{
    if n == 0 {
        return (0, 1);
    }
    if n >= 0x20_0000_0000_0000 * d {
        let shrunk = shrunk_fraction(n, d);
        proof {
            let top = shrunk.0 as int;
            assert(top <= 2 * n) by (nonlinear_arith)
                requires
                    top * d <= 2 * n,
                    top >= 0,
                    d >= 1,
            ;
        }
        return shrunk;
    }
    let mut top: u128 = n;
    let mut scale: u128 = 1;
    while top < 0x10_0000_0000_0000 * d
        invariant
            n > 0,
            0 < d <= 0x2_0000_0000_0000_0000,
            0 < top < 0x20_0000_0000_0000 * d,
            top == n * scale,
            scale >= 1,
            scale <= top,
            nearest(n as int, d as int) == ({
                let q = nearest(top as int, d as int);
                (q.0, scale * q.1)
            }),
        decreases 0x20_0000_0000_0000 * d - top,
    {
        let ghost (before, factor) = (top as int, scale as int);
        proof {
            let q = nearest(2 * top as int, d as int);
            assert(nearest(top as int, d as int) == (q.0, 2 * q.1));
            assert(factor * (2 * q.1) == (2 * factor) * q.1) by (nonlinear_arith);
            assert(2 * (n * scale) == n * (2 * scale)) by (nonlinear_arith);
        }
        top = 2 * top;
        scale = 2 * scale;
    }
    let rounded: u128 = round_half_even_wide(top, d);
    proof {
        assert(nearest(top as int, d as int) == (half_even(top as int, d as int), 1int));
        lemma_quotient(top as int, d as int);
    }
    (rounded, scale)
}

proof fn lemma_quotient(n: int, d: int)
    requires
        0 <= n < 0x20_0000_0000_0000 * d,
        d > 0,
    ensures
        half_even(n, d) <= 0x20_0000_0000_0000,
{
    assert(n / d < 0x20_0000_0000_0000) by (nonlinear_arith)
        requires
            0 <= n < 0x20_0000_0000_0000 * d,
            d > 0,
    ;
}

fn round_half_even_wide(n: u128, d: u128) -> (r: u128)
    requires
        0 < d <= 0x2_0000_0000_0000_0000,
        n < 0x20_0000_0000_0000 * d,
    ensures
        r == half_even(n as int, d as int),
{
    let q: u128 = n / d;
    let rest: u128 = n % d;
    proof {
        lemma_quotient(n as int, d as int);
        assert(q < 0x20_0000_0000_0000) by (nonlinear_arith)
            requires
                q == n / d,
                n < 0x20_0000_0000_0000 * d,
                d > 0,
        ;
    }
    if 2 * rest < d || (2 * rest == d && q % 2 == 0) {
        q
    } else {
        q + 1
    }
}

fn shrunk_fraction(n: u128, d: u128) -> (r: (u128, u128))
    requires
        0 < n <= 0x2_0000_0000_0000_0000,
        0 < d,
        n >= 0x20_0000_0000_0000 * d,
    ensures
        (r.0 as int, r.1 as int) == nearest(n as int, d as int),
        r.0 * d <= 2 * n,
        r.1 == 1,
    decreases n - d,
{
    let next: u128 = 2 * d;
    if n >= 0x20_0000_0000_0000 * next {
        let (top, bottom) = shrunk_fraction(n, next);
        proof {
            assert((2 * top) * d == top * next) by (nonlinear_arith)
                requires
                    next == 2 * d,
            ;
            assert(top <= 2 * n) by (nonlinear_arith)
                requires
                    top * next <= 2 * n,
                    next >= 1,
            ;
        }
        (2 * top, bottom)
    } else {
        let rounded: u128 = round_half_even_wide(n, next);
        proof {
            assert(nearest(n as int, next as int) == (half_even(n as int, next as int), 1int));
            lemma_half_even(n as int, next as int);
            lemma_quotient(n as int, next as int);
            assert((2 * rounded) * d == rounded * next) by (nonlinear_arith)
                requires
                    next == 2 * d,
            ;
        }
        (2 * rounded, 1)
    }
}

/// Three decimal digits.
pub open spec fn three_digits(n: int) -> Seq<char> {
    seq![
        crate::text::digit_char(n / 100),
        crate::text::digit_char(n / 10 % 10),
        crate::text::digit_char(n % 10),
    ]
}

/// A time as seconds since the epoch with three decimals.
pub open spec fn timestamp_text(ts: i64) -> Seq<char> {
    crate::text::decimal_signed(ts as int / 1_000) + "."@ + three_digits(ts as int % 1_000)
        + " UTC"@
}

/// Writes a time.
pub fn format_timestamp(timestamp_ms: i64) -> (r: String)
    ensures
        r@ == timestamp_text(timestamp_ms),
{
    let millis: i64 = crate::num::rem_euclid_i64(timestamp_ms, 1_000);
    let whole: i128 = timestamp_ms as i128 - millis as i128;
    let seconds: i64 = (whole / 1_000) as i64;
    proof {
        let q = timestamp_ms as int / 1_000;
        assert(whole == q * 1_000);
        assert(seconds == q);
    }
    let mut out = String::new();
    push_decimal_signed(&mut out, seconds);
    out.append(".");
    let n: u16 = millis as u16;
    out.push(((n / 100) as u8 + 48) as char);
    out.push(((n / 10 % 10) as u8 + 48) as char);
    out.push(((n % 10) as u8 + 48) as char);
    out.append(" UTC");
    proof {
        assert(out@ =~= timestamp_text(timestamp_ms));
    }
    out
}

/// The byte stands for itself in a URL.
pub open spec fn is_unreserved(b: u8) -> bool {
    (0x30 <= b <= 0x39) || (0x41 <= b <= 0x5a) || (0x61 <= b <= 0x7a) || b == 0x2d || b == 0x2e
        || b == 0x5f || b == 0x7e
}

/// How a byte is written in a URL: as itself, or by a percent sign and two hexadecimal digits.
pub open spec fn encoded_byte(b: u8) -> Seq<char> {
    if is_unreserved(b) {
        seq![b as char]
    } else {
        seq![
            '%',
            crate::text::hex_char_upper(b as int / 16),
            crate::text::hex_char_upper(b as int % 16),
        ]
    }
}

/// How bytes are written in a URL.
pub open spec fn encoded(bytes: Seq<u8>) -> Seq<char>
    decreases bytes.len(),
{
    if bytes.len() == 0 {
        seq![]
    } else {
        encoded(bytes.drop_last()) + encoded_byte(bytes.last())
    }
}

/// Writes a text so that it can stand in the query of a URL.
pub fn percent_encode_component(value: &str) -> (r: String)
    ensures
        r@ == encoded(vstd::utf8::encode_utf8(value@)),
{
    let bytes = value.as_bytes();
    let mut out = String::new();
    let mut i: usize = 0;
    proof {
        assert(bytes@.take(0) =~= Seq::<u8>::empty());
    }
    while i < bytes.len()
        invariant
            i <= bytes@.len(),
            out@ == encoded(bytes@.take(i as int)),
        decreases bytes@.len() - i,
    {
        let b: u8 = bytes[i];
        let ghost before = out@;
        proof {
            assert(bytes@.take(i + 1).drop_last() =~= bytes@.take(i as int));
            assert(bytes@.take(i + 1).last() == b);
        }
        if (0x30 <= b && b <= 0x39) || (0x41 <= b && b <= 0x5a) || (0x61 <= b && b <= 0x7a) || b
            == 0x2d || b == 0x2e || b == 0x5f || b == 0x7e {
            out.push(b as char);
        } else {
            out.push('%');
            out.push(hex_digit_upper(b / 16));
            out.push(hex_digit_upper(b % 16));
        }
        proof {
            assert(out@ =~= before + encoded_byte(b));
        }
        i = i + 1;
    }
    proof {
        assert(bytes@.take(i as int) =~= bytes@);
    }
    out
}

/// The character can stand in the value of a query: it neither ends the value nor means another
/// character, but for the percent sign of an encoded byte.
pub open spec fn query_safe(c: char) -> bool {
    c == '%' || ('0' <= c <= '9') || ('A' <= c <= 'Z') || ('a' <= c <= 'z') || c == '-' || c == '.'
        || c == '_' || c == '~'
}

/// An encoded text holds no character that has a meaning of its own in a URL, and no two texts are
/// encoded alike.
pub proof fn encoding_is_safe_and_distinct(a: Seq<u8>, b: Seq<u8>)
    ensures
        forall|i: int| 0 <= i < encoded(a).len() ==> query_safe(#[trigger] encoded(a)[i]),
        encoded(a) == encoded(b) ==> a == b,
    decreases a.len(),
{
    if a.len() > 0 {
        let t = encoded(a.drop_last());
        let e = encoded_byte(a.last());
        encoding_is_safe_and_distinct(a.drop_last(), b.drop_last());
        assert(e.len() > 0);
        assert forall|i: int| 0 <= i < encoded(a).len() implies query_safe(
            #[trigger] encoded(a)[i],
        ) by {
            if i < t.len() {
                assert(encoded(a)[i] == t[i]);
            } else {
                assert(encoded(a)[i] == e[i - t.len()]);
            }
        }
        if encoded(a) == encoded(b) {
            assert(b.len() > 0);
            lemma_last_byte(a, b);
            let u = encoded(b.drop_last());
            assert(t =~= encoded(a).take(encoded(a).len() - e.len()));
            assert(u =~= encoded(b).take(encoded(b).len() - encoded_byte(b.last()).len()));
            assert(a =~= a.drop_last().push(a.last()));
            assert(b =~= b.drop_last().push(b.last()));
        }
    } else if encoded(a) == encoded(b) {
        if b.len() > 0 {
            assert(encoded_byte(b.last()).len() > 0);
            assert(encoded(b).len() > 0);
        }
        assert(a =~= b);
    }
}

/// A percent sign in an encoded text is followed by two digits of the same byte.
proof fn lemma_percent(a: Seq<u8>, i: int)
    requires
        0 <= i < encoded(a).len(),
        encoded(a)[i] == '%',
    ensures
        i + 2 < encoded(a).len(),
    decreases a.len(),
{
    if a.len() > 0 {
        let t = encoded(a.drop_last());
        let e = encoded_byte(a.last());
        if i < t.len() {
            assert(t[i] == encoded(a)[i]);
            lemma_percent(a.drop_last(), i);
        } else {
            assert(e[i - t.len()] == '%');
            if is_unreserved(a.last()) {
                assert(a.last() as char != '%');
            } else {
                assert(i == t.len()) by {
                    assert(e[1] != '%' && e[2] != '%');
                }
            }
        }
    }
}

proof fn lemma_last_byte(a: Seq<u8>, b: Seq<u8>)
    requires
        a.len() > 0,
        b.len() > 0,
        encoded(a) == encoded(b),
    ensures
        a.last() == b.last(),
{
    let s = encoded(a);
    let n = s.len() as int;
    let (ta, tb) = (encoded(a.drop_last()), encoded(b.drop_last()));
    let (ea, eb) = (encoded_byte(a.last()), encoded_byte(b.last()));
    assert(s =~= ta + ea);
    assert(s =~= tb + eb);
    if ea.len() == eb.len() {
        assert(ea =~= s.subrange(n - ea.len(), n));
        assert(eb =~= s.subrange(n - eb.len(), n));
        assert(ea[0] == eb[0]);
        if ea.len() == 3 {
            assert(ea[1] == eb[1] && ea[2] == eb[2]);
            assert(a.last() as int / 16 == b.last() as int / 16);
            assert(a.last() as int % 16 == b.last() as int % 16);
        } else {
            assert(a.last() as char == b.last() as char);
        }
    } else if ea.len() == 3 {
        assert(s[n - 3] == '%');
        assert(tb[n - 3] == s[n - 3]);
        lemma_percent(b.drop_last(), n - 3);
    } else {
        assert(s[n - 3] == '%');
        assert(ta[n - 3] == s[n - 3]);
        lemma_percent(a.drop_last(), n - 3);
    }
}

} // verus!
