//! How numbers, amounts, times and names are written, told by what a reader makes of them.
use vstd::prelude::*;

verus! {

/// What a digit stands for: `0` to `9`, then `a` to `f`.
pub open spec fn digit_of(c: char) -> int {
    if '0' <= c <= '9' {
        c as int - '0' as int
    } else if 'a' <= c <= 'f' {
        c as int - 'a' as int + 10
    } else {
        -1
    }
}

/// What digits stand for in a base, the first one weighing most.
pub open spec fn value_of(text: Seq<char>, base: int) -> int {
    text.fold_left(0int, |v: int, c: char| v * base + digit_of(c))
}

/// The text writes a number in a base, with no digit more than it takes.
pub open spec fn writes(text: Seq<char>, base: int, n: int) -> bool {
    &&& text.len() >= 1
    &&& forall|i: int| 0 <= i < text.len() ==> 0 <= digit_of(#[trigger] text[i]) < base
    &&& text.len() > 1 ==> text[0] != '0'
    &&& value_of(text, base) == n
}

proof fn lemma_writes_push(text: Seq<char>, base: int, n: int, c: char)
    requires
        writes(text, base, n),
        n > 0,
        0 <= digit_of(c) < base,
    ensures
        writes(text.push(c), base, n * base + digit_of(c)),
{
    let more = text.push(c);
    assert(more.drop_last() =~= text);
    assert(more.last() == c);
    let f = |v: int, c: char| v * base + digit_of(c);
    assert(more.fold_left(0int, f) == f(text.fold_left(0int, f), c));
    if text.len() == 1 {
        lemma_writes_one(text[0], base);
        assert(text =~= seq![text[0]]);
    }
}

proof fn lemma_writes_one(c: char, base: int)
    requires
        0 <= digit_of(c) < base,
    ensures
        writes(seq![c], base, digit_of(c)),
{
    let f = |v: int, c: char| v * base + digit_of(c);
    assert(seq![c].drop_last() =~= Seq::<char>::empty());
    assert(seq![c].last() == c);
    assert(Seq::<char>::empty().fold_left(0int, f) == 0);
    assert(seq![c].fold_left(0int, f) == f(0, c));
}

/// A number is written in decimal digits.
pub proof fn numbers_are_written_in_decimal(n: nat)
    ensures
        writes(crate::text::decimal(n), 10, n as int),
    decreases n,
{
    if n < 10 {
        lemma_writes_one(crate::text::digit_char(n as int), 10);
    } else {
        numbers_are_written_in_decimal(n / 10);
        lemma_writes_push(
            crate::text::decimal(n / 10),
            10,
            (n / 10) as int,
            crate::text::digit_char((n % 10) as int),
        );
    }
}

/// A number is written in lower-case hexadecimal digits where that is asked for.
pub proof fn numbers_are_written_in_hexadecimal(n: nat)
    ensures
        writes(crate::text::hex(n), 16, n as int),
    decreases n,
{
    if n < 16 {
        lemma_writes_one(crate::text::hex_char(n as int), 16);
    } else {
        numbers_are_written_in_hexadecimal(n / 16);
        lemma_writes_push(
            crate::text::hex(n / 16),
            16,
            (n / 16) as int,
            crate::text::hex_char((n % 16) as int),
        );
    }
}

/// A number below zero is written with a sign before what it is without one.
pub proof fn numbers_are_written_with_their_sign(n: int)
    ensures
        n >= 0 ==> writes(crate::text::decimal_signed(n), 10, n),
        n < 0 ==> crate::text::decimal_signed(n)[0] == '-' && writes(
            crate::text::decimal_signed(n).skip(1),
            10,
            -n,
        ),
{
    if n >= 0 {
        numbers_are_written_in_decimal(n as nat);
    } else {
        numbers_are_written_in_decimal((-n) as nat);
        assert(crate::text::decimal_signed(n).skip(1) =~= crate::text::decimal((-n) as nat));
    }
}

/// The text is a time in seconds, with three digits of milliseconds.
pub open spec fn is_time(text: Seq<char>, seconds: int, a: char, b: char, c: char) -> bool {
    text == crate::text::decimal_signed(seconds) + seq!['.', a, b, c, ' ', 'U', 'T', 'C']
}

/// A time is written in seconds, a point and three digits of milliseconds, which go forward also
/// before the beginning of time.
pub proof fn times_are_written_in_seconds(ts: i64)
    ensures
        exists|seconds: int, a: char, b: char, c: char|
            {
                &&& #[trigger] is_time(crate::format::timestamp_text(ts), seconds, a, b, c)
                &&& 0 <= digit_of(a) <= 9
                &&& 0 <= digit_of(b) <= 9
                &&& 0 <= digit_of(c) <= 9
                &&& ts == seconds * 1_000 + digit_of(a) * 100 + digit_of(b) * 10 + digit_of(c)
            },
{
    reveal_strlit(".");
    reveal_strlit(" UTC");
    let seconds = ts as int / 1_000;
    let ms = ts as int % 1_000;
    let a = crate::text::digit_char(ms / 100);
    let b = crate::text::digit_char(ms / 10 % 10);
    let c = crate::text::digit_char(ms % 10);
    assert(crate::format::timestamp_text(ts) =~= crate::text::decimal_signed(seconds) + seq![
        '.',
        a,
        b,
        c,
        ' ',
        'U',
        'T',
        'C',
    ]);
    assert(is_time(crate::format::timestamp_text(ts), seconds, a, b, c));
}

/// The whole number that is nearest to `n / d`, and of two that are as near the even one.
pub open spec fn is_nearest(r: int, n: int, d: int) -> bool {
    &&& -d <= 2 * (r * d - n) <= d
    &&& 2 * (r * d - n) == d || 2 * (r * d - n) == -d ==> r % 2 == 0
}

proof fn lemma_half_even_is_nearest(n: int, d: int)
    requires
        d > 0,
    ensures
        is_nearest(crate::format::half_even(n, d), n, d),
{
    let q = n / d;
    let r = n % d;
    assert(n == q * d + r && 0 <= r < d) by (nonlinear_arith)
        requires
            q == n / d,
            r == n % d,
            d > 0,
    ;
    assert((q + 1) * d == q * d + d) by (nonlinear_arith);
}

proof fn lemma_coarse(v: int, step: int)
    requires
        step >= 1,
        v >= 0,
        step == 1 || v >= 0x10_0000_0000_0000 * step,
    ensures
        -v <= 0x20_0000_0000_0000 * (crate::format::coarse(v, step) - v) <= v,
        step == 1 && v < 0x20_0000_0000_0000 ==> crate::format::coarse(v, step) == v,
    decreases v - step,
{
    if v < 0x20_0000_0000_0000 * step {
        lemma_half_even_is_nearest(v, step);
        if step == 1 {
            assert(crate::format::half_even(v, 1) * 1 == v);
        }
    } else {
        lemma_coarse(v, step * 2);
    }
}

/// The text tells an amount in tenths of a unit.
pub open spec fn tells(text: Seq<char>, tenths: int, unit: Seq<char>) -> bool {
    text == crate::text::decimal((tenths / 10) as nat) + seq!['.'] + crate::text::decimal(
        (tenths % 10) as nat,
    ) + seq![' '] + unit
}

/// The unit in which an amount is told.
pub open spec fn is_unit_of(unit: Seq<char>, size: int, v: u64) -> bool {
    ||| unit == "KiB"@ && size == 1024 && 1024 <= v < 1024 * 1024
    ||| unit == "MiB"@ && size == 1024 * 1024 && size <= v < 1024 * size
    ||| unit == "GiB"@ && size == 1024 * 1024 * 1024 && size <= v < 1024 * size
    ||| unit == "TiB"@ && size == 1024 * 1024 * 1024 * 1024 && size <= v
}

/// An amount below a kibibyte is told in bytes. Any other is told in tenths of the largest unit of
/// which there is at least one, to the nearest tenth; beyond 53 bits the amount is itself known
/// only to one part in as many.
pub proof fn amounts_are_told_to_the_nearest_tenth(v: u64)
    ensures
        v < 1024 ==> crate::format::bytes_text(v) == crate::text::decimal(v as nat) + seq![
            ' ',
            'B',
        ],
        v >= 1024 ==> exists|unit: Seq<char>, size: int, amount: int, tenths: int|
            {
                &&& #[trigger] is_unit_of(unit, size, v)
                &&& -v <= 0x20_0000_0000_0000 * (amount - v) <= v
                &&& v < 0x20_0000_0000_0000 ==> amount == v
                &&& #[trigger] is_nearest(tenths, 10 * amount, size)
                &&& tells(crate::format::bytes_text(v), tenths, unit)
            },
{
    reveal_strlit(".");
    reveal_strlit(" ");
    reveal_strlit("B");
    if v < 1024 {
        assert(crate::format::bytes_text(v) =~= crate::text::decimal(v as nat) + seq![' ', 'B']);
    } else {
        let (size, unit) = crate::format::unit_of(v);
        let amount = crate::format::coarse(v as int, 1);
        lemma_coarse(v as int, 1);
        let tenths = crate::format::half_even(amount * 10, size);
        lemma_half_even_is_nearest(amount * 10, size);
        assert(is_unit_of(unit, size, v));
        assert(is_nearest(tenths, 10 * amount, size));
        assert(crate::format::bytes_text(v) =~= crate::text::decimal((tenths / 10) as nat) + seq![
            '.',
        ] + crate::text::decimal((tenths % 10) as nat) + seq![' '] + unit);
        assert(tells(crate::format::bytes_text(v), tenths, unit));
    }
}

proof fn lemma_fraction(n: int, d: int)
    requires
        n > 0,
        d > 0,
    ensures
        ({
            let q = crate::format::nearest(n, d);
            &&& q.0 >= 0
            &&& q.1 > 0
            &&& -(n * q.1) <= 0x20_0000_0000_0000 * (q.0 * d - n * q.1) <= n * q.1
        }),
    decreases
            if n >= 0x20_0000_0000_0000 * d {
                1int
            } else {
                0int
            },
            if n >= 0x20_0000_0000_0000 * d {
                n - 0x20_0000_0000_0000 * d
            } else {
                0x20_0000_0000_0000 * d - n
            },
{
    if n >= 0x20_0000_0000_0000 * d {
        lemma_fraction(n, 2 * d);
        let q = crate::format::nearest(n, 2 * d);
        assert((2 * q.0) * d == q.0 * (2 * d)) by (nonlinear_arith);
    } else if n < 0x10_0000_0000_0000 * d {
        lemma_fraction(2 * n, d);
        let q = crate::format::nearest(2 * n, d);
        assert((2 * n) * q.1 == n * (2 * q.1)) by (nonlinear_arith);
    } else {
        lemma_half_even_is_nearest(n, d);
        let h = crate::format::half_even(n, d);
        assert(n / d >= 0) by (nonlinear_arith)
            requires
                n > 0,
                d > 0,
        ;
        assert(n * 1 == n);
    }
}

/// A bar is as wide as its amount is large beside the largest, in hundredths and to the nearest of
/// them but for a thousandth; no amount has no bar, and the largest the whole width.
pub proof fn bars_are_as_wide_as_their_part(value: u64, maximum: u64)
    requires
        value <= maximum < 0x20_0000_0000_0000,
    ensures
        maximum == 0 ==> crate::format::percent(value, maximum) == 0,
        ({
            let off = crate::format::percent(value, maximum) * maximum - 100 * value;
            -1_001 * maximum <= 2_000 * off <= 1_001 * maximum
        }),
{
    if maximum > 0 {
        let v = value as int;
        let m = maximum as int;
        lemma_coarse(v, 1);
        lemma_coarse(m, 1);
        let q = crate::format::nearest(v, m);
        let a = q.0;
        let b = q.1;
        if v > 0 {
            lemma_fraction(v, m);
        }
        let c = crate::format::coarse(100 * a, 1);
        lemma_coarse(100 * a, 1);
        let h = (2 * c + b) / (2 * b);
        assert(2 * b * h <= 2 * c + b < 2 * b * h + 2 * b) by (nonlinear_arith)
            requires
                h == (2 * c + b) / (2 * b),
                b > 0,
        ;
        let k = 0x20_0000_0000_0000int;
        let e1 = a * m - v * b;
        let e2 = c - 100 * a;
        let e3 = b * h - c;
        assert(k > 0);
        assert(-(v * b) <= k * e1 <= v * b) by {
            if v == 0 {
                assert(a * m == 0) by (nonlinear_arith)
                    requires
                        a == 0,
                ;
                assert(v * b == 0) by (nonlinear_arith)
                    requires
                        v == 0,
                ;
            }
        }
        assert(-b <= 2 * e3 <= b) by {
            assert(2 * b * h == 2 * (b * h)) by (nonlinear_arith);
        }
        lemma_bar(v, m, a, b, c, h);
    }
}

proof fn lemma_bar(v: int, m: int, a: int, b: int, c: int, h: int)
    requires
        0 <= v <= m,
        0 < m,
        0 <= a,
        0 < b,
        -(v * b) <= 0x20_0000_0000_0000 * (a * m - v * b) <= v * b,
        -(100 * a) <= 0x20_0000_0000_0000 * (c - 100 * a) <= 100 * a,
        -b <= 2 * (b * h - c) <= b,
    ensures
        -1_001 * m <= 2_000 * (h * m - 100 * v) <= 1_001 * m,
        h <= 101,
{
    let k = 0x20_0000_0000_0000int;
    let e1 = a * m - v * b;
    let e2 = c - 100 * a;
    let e3 = b * h - c;
    // Everything is told in units of `b`.
    assert((h * m - 100 * v) * b == m * e3 + m * e2 + 100 * e1) by (nonlinear_arith)
        requires
            e1 == a * m - v * b,
            e2 == c - 100 * a,
            e3 == b * h - c,
    ;
    let mb = m * b;
    assert(v * b <= mb) by (nonlinear_arith)
        requires
            v <= m,
            b > 0,
            mb == m * b,
    ;
    assert(mb >= 1) by (nonlinear_arith)
        requires
            m >= 1,
            b >= 1,
            mb == m * b,
    ;
    assert(-mb <= k * e1 <= mb);
    assert(a * m <= 2 * mb);
    assert(-mb <= 2 * (m * e3) <= mb) by (nonlinear_arith)
        requires
            -b <= 2 * e3 <= b,
            m > 0,
            mb == m * b,
    ;
    assert(-(200 * mb) <= k * (m * e2) <= 200 * mb) by {
        assert(-(100 * (a * m)) <= k * (m * e2) <= 100 * (a * m)) by (nonlinear_arith)
            requires
                -(100 * a) <= k * e2 <= 100 * a,
                m > 0,
        ;
    }
    let x = (h * m - 100 * v) * b;
    assert(-1_001 * mb <= 2_000 * x <= 1_001 * mb);
    assert(-1_001 * m <= 2_000 * (h * m - 100 * v) <= 1_001 * m) by (nonlinear_arith)
        requires
            -1_001 * mb <= 2_000 * x <= 1_001 * mb,
            x == (h * m - 100 * v) * b,
            mb == m * b,
            b > 0,
    ;
    assert(h <= 101) by (nonlinear_arith)
        requires
            2_000 * (h * m - 100 * v) <= 1_001 * m,
            v <= m,
            m > 0,
    ;
}

/// A byte of a name is written in a link as it is where it is a letter, a digit or one of four
/// marks, and as a percent sign and two upper-case hexadecimal digits where it is not.
pub proof fn names_are_written_byte_by_byte_in_links(bytes: Seq<u8>, b: u8)
    ensures
        crate::format::encoded(Seq::empty()) == Seq::<char>::empty(),
        ({
            let more = crate::format::encoded(bytes.push(b));
            let plain = ('0' as int <= b <= '9' as int) || ('A' as int <= b <= 'Z' as int) || (
            'a' as int <= b <= 'z' as int) || b == '-' as int || b == '.' as int || b == '_' as int
                || b == '~' as int;
            &&& plain ==> more == crate::format::encoded(bytes).push(b as char)
            &&& !plain ==> exists|x: char, y: char|
                {
                    &&& more == crate::format::encoded(bytes) + seq!['%', x, y]
                    &&& #[trigger] is_upper_hex(x, b as int / 16)
                    &&& #[trigger] is_upper_hex(y, b as int % 16)
                }
        }),
{
    assert(bytes.push(b).drop_last() =~= bytes);
    let x = crate::text::hex_char_upper(b as int / 16);
    let y = crate::text::hex_char_upper(b as int % 16);
    let more = crate::format::encoded(bytes.push(b));
    if crate::format::is_unreserved(b) {
        assert(more =~= crate::format::encoded(bytes).push(b as char));
    } else {
        assert(more =~= crate::format::encoded(bytes) + seq!['%', x, y]);
        assert(is_upper_hex(x, b as int / 16));
        assert(is_upper_hex(y, b as int % 16));
    }
}

/// The character is the upper-case hexadecimal digit.
pub open spec fn is_upper_hex(c: char, d: int) -> bool {
    if d < 10 {
        c as int == '0' as int + d
    } else {
        c as int == 'A' as int + (d - 10)
    }
}

} // verus!
