//! Byte counts in decimal units. The text is that of the quotient as a double holds
//! it, to one or two places, worked out in whole numbers.

use vstd::prelude::*;

use crate::text::{concat, decimal, decimal_of, digit_char, string_of};

verus! {

/// Bytes in a megabyte.
pub const MB: u64 = 1_000_000;

/// Bytes in a gigabyte.
pub const GB: u64 = 1_000_000_000;

/// The whole number nearest `num / den`, the even one where two are.
pub open spec fn half_even(num: nat, den: nat) -> nat {
    let q = num / den;
    let r = num % den;
    if 2 * r > den || (2 * r == den && q % 2 == 1) {
        q + 1
    } else {
        q
    }
}

/// The first of `g`, twice `g` and so on that brings `n` below two of the top bit.
pub open spec fn spacing(n: nat, g: nat) -> nat
    decreases n - g,
{
    if g == 0 || n < 0x20_0000_0000_0000 * g || g > n {
        g
    } else {
        spacing(n, 2 * g)
    }
}

/// The double nearest a whole number, which is a whole number.
pub open spec fn as_double(n: nat) -> nat {
    let g = spacing(n, 1);
    half_even(n, g) * g
}

/// The first of `p`, twice `p` and so on that brings `num / den` up to the top bit.
pub open spec fn scale(num: nat, den: nat, p: nat) -> nat
    decreases
            (if num * p < 0x10_0000_0000_0000 * den {
                0x10_0000_0000_0000 * den - num * p
            } else {
                0
            }),
    when num > 0 && p > 0
    via scale_decreases
{
    if num * p >= 0x10_0000_0000_0000 * den {
        p
    } else {
        scale(num, den, 2 * p)
    }
}

#[via_fn]
proof fn scale_decreases(num: nat, den: nat, p: nat) {
    assert(num * (2 * p) > num * p) by (nonlinear_arith)
        requires
            num > 0,
            p > 0,
    ;
}

/// The quotient of two whole numbers as a double holds it, times `places`, to the
/// nearest whole number.
pub open spec fn rounded_quotient(num: nat, den: nat, places: nat) -> nat {
    if num == 0 {
        0
    } else {
        let p = scale(num, den, 1);
        half_even(half_even(num * p, den) * places, p)
    }
}

/// A byte count in gigabytes to two places, or in megabytes to one when it is less
/// than one gigabyte.
pub open spec fn size_text(bytes: nat) -> Seq<char> {
    let b = as_double(bytes);
    if b >= GB {
        let n = rounded_quotient(b, GB as nat, 100);
        decimal(n / 100) + "."@ + seq![digit_char(n / 10 % 10), digit_char(n % 10)] + " GB"@
    } else {
        megabytes_text(bytes) + " MB"@
    }
}

/// A byte count in megabytes, to one place.
pub open spec fn megabytes_text(bytes: nat) -> Seq<char> {
    let n = rounded_quotient(as_double(bytes), MB as nat, 10);
    decimal(n / 10) + "."@ + seq![digit_char(n % 10)]
}

fn half_even_of(num: u128, den: u128) -> (r: u128)
    requires
        0 < den <= 0x1_0000_0000_0000_0000_0000_0000,
        num <= 0x1_0000_0000_0000_0000_0000_0000,
    ensures
        r == half_even(num as nat, den as nat),
        r <= num + 1,
{
    let q: u128 = num / den;
    let rem: u128 = num % den;
    assert(num / den <= num) by (nonlinear_arith)
        requires
            den > 0,
    ;
    if 2 * rem > den || (2 * rem == den && q % 2 == 1) {
        q + 1
    } else {
        q
    }
}

fn as_double_of(n: u64) -> (b: u128)
    ensures
        b == as_double(n as nat),
        b <= 0x1_0000_0000_0000_0000,
        n > 0 ==> b > 0,
{
    let mut g: u128 = 1;
    let wide: u128 = n as u128;
    while wide >= 0x20_0000_0000_0000 * g && g <= wide
        invariant
            1 <= g <= 0x1000,
            wide == n,
            g == 1 || g == 2 || g == 4 || g == 8 || g == 16 || g == 32 || g == 64 || g == 128 || g
                == 256 || g == 512 || g == 1024 || g == 2048,
            spacing(n as nat, g as nat) == spacing(n as nat, 1),
        decreases wide - g,
    {
        assert(g < 2048);
        g = 2 * g;
    }
    assert(g <= wide || g == 1) by {
        assert(wide < 0x20_0000_0000_0000 * g || g > wide);
    }
    let m: u128 = half_even_of(wide, g);
    proof {
        lemma_rounded_size(n as nat, g as nat);
    }
    m * g
}

/// A whole number that is rounded to a multiple of a small power of two stays in
/// range, and above zero where it was.
proof fn lemma_rounded_size(n: nat, g: nat)
    requires
        n <= u64::MAX,
        g == 1 || g == 2 || g == 4 || g == 8 || g == 16 || g == 32 || g == 64 || g == 128 || g
            == 256 || g == 512 || g == 1024 || g == 2048,
        g <= n || g == 1,
    ensures
        half_even(n, g) * g <= 0x1_0000_0000_0000_0000,
        n > 0 ==> half_even(n, g) * g > 0,
{
    let q = n / g;
    assert(q * g <= n < (q + 1) * g) by (nonlinear_arith)
        requires
            q == n / g,
            g > 0,
    ;
    let limit = 0x1_0000_0000_0000_0000nat;
    assert((q + 1) * g <= limit) by {
        let k = limit / g;
        assert(k * g == limit);
        assert(q < k) by (nonlinear_arith)
            requires
                q * g < k * g,
                g > 0,
        ;
        assert((q + 1) * g <= k * g) by (nonlinear_arith)
            requires
                q + 1 <= k,
                g > 0,
        ;
    }
    assert(half_even(n, g) == q || half_even(n, g) == q + 1);
    if n > 0 {
        assert(q >= 1) by (nonlinear_arith)
            requires
                q == n / g,
                g <= n,
                g > 0,
        ;
        assert(q * g > 0) by (nonlinear_arith)
            requires
                q >= 1,
                g > 0,
        ;
        assert((q + 1) * g > 0) by (nonlinear_arith)
            requires
                q >= 1,
                g > 0,
        ;
    }
}

fn rounded_quotient_of(num: u128, den: u64, places: u64) -> (n: u64)
    requires
        num <= 0x1_0000_0000_0000_0000,
        den == MB || den == GB,
        places == 10 || places == 100,
    ensures
        n == rounded_quotient(num as nat, den as nat, places as nat),
{
    if num == 0 {
        return 0;
    }
    let goal: u128 = 0x10_0000_0000_0000 * den as u128;
    let mut p: u128 = 1;
    while num * p < goal
        invariant
            num > 0,
            p > 0,
            den == MB || den == GB,
            goal == 0x10_0000_0000_0000 * den,
            num <= 0x1_0000_0000_0000_0000,
            num * p <= 2 * goal || p == 1,
            p <= goal * 2,
            num * p <= u128::MAX,
            scale(num as nat, den as nat, p as nat) == scale(num as nat, den as nat, 1),
        decreases
            (if num * p < goal {
                goal - num * p
            } else {
                0
            }),
    {
        assert(num * (2 * p) == 2 * (num * p) && num * (2 * p) > num * p && p <= num * p)
            by (nonlinear_arith)
            requires
                num > 0,
                p > 0,
        ;
        p = 2 * p;
    }
    assert(num * p <= 2 * goal) by {
        assert(goal >= 0x1_0000_0000_0000_0000);
    }
    let m: u128 = half_even_of(num * p, den as u128);
    proof {
        lemma_quotient_size((num * p) as nat, den as nat, 2 * goal as nat);
        assert(p <= 2 * goal);
        assert(p <= num * p) by (nonlinear_arith)
            requires
                num > 0,
                p > 0,
        ;
    }
    assert(m * places <= 100 * m) by (nonlinear_arith)
        requires
            places <= 100,
            m >= 0,
    ;
    let n: u128 = half_even_of(m * places as u128, p);
    proof {
        lemma_final_size(num as nat, p as nat, den as nat, m as nat, places as nat);
    }
    n as u64
}

proof fn lemma_quotient_size(num: nat, den: nat, limit: nat)
    requires
        den == MB || den == GB,
        limit == 0x20_0000_0000_0000 * den,
        num <= limit,
    ensures
        half_even(num, den) <= 0x20_0000_0000_0001,
{
    assert(num / den <= 0x20_0000_0000_0000) by (nonlinear_arith)
        requires
            num <= 0x20_0000_0000_0000 * den,
            den > 0,
    ;
}

/// The quotient is far below what a word holds.
proof fn lemma_final_size(num: nat, p: nat, den: nat, m: nat, places: nat)
    requires
        0 < num <= 0x1_0000_0000_0000_0000,
        p > 0,
        den == MB || den == GB,
        places == 10 || places == 100,
        m == half_even(num * p, den),
    ensures
        half_even(m * places, p) <= u64::MAX,
{
    let q = num * p / den;
    assert(q * den <= num * p) by (nonlinear_arith)
        requires
            q == num * p / den,
            den > 0,
    ;
    assert(m <= q + 1);
    let top = 0x1_0000_0000_0000_0000nat;
    assert(num * p <= top * p) by (nonlinear_arith)
        requires
            num <= top,
            p > 0,
    ;
    // A millionth of the largest count, and one for the rounding.
    assert(q <= 18446744073710 * p) by (nonlinear_arith)
        requires
            q * den <= top * p,
            den >= 1_000_000,
            top == 0x1_0000_0000_0000_0000nat,
            p > 0,
    ;
    assert(m <= 18446744073711 * p) by (nonlinear_arith)
        requires
            m <= q + 1,
            q <= 18446744073710 * p,
            p >= 1,
    ;
    let r = m * places / p;
    assert(m * places <= 1844674407371100 * p) by (nonlinear_arith)
        requires
            m <= 18446744073711 * p,
            places <= 100,
            p > 0,
    ;
    assert(r <= 1844674407371100) by (nonlinear_arith)
        requires
            r == m * places / p,
            m * places <= 1844674407371100 * p,
            p > 0,
    ;
}

fn digit(d: u64) -> (c: char)
    requires
        d < 10,
    ensures
        c == digit_char(d as nat),
{
    (48 + d as u8) as char
}

/// A byte count in megabytes, to one place.
pub fn fmt_megabytes(bytes: u64) -> (text: String)
    ensures
        text@ == megabytes_text(bytes as nat),
{
    let n: u64 = rounded_quotient_of(as_double_of(bytes), MB, 10);
    let mut text = concat(string_of(&decimal_of(n / 10)).as_str(), ".");
    let ghost head = text@;
    text.push(digit(n % 10));
    assert(text@ == head + seq![digit_char((n % 10) as nat)]);
    text
}

/// Format a byte count as MB/GB (decimal units).
pub fn fmt_size(bytes: u64) -> (text: String)
    ensures
        text@ == size_text(bytes as nat),
{
    let b: u128 = as_double_of(bytes);
    if b >= GB as u128 {
        let n: u64 = rounded_quotient_of(b, GB, 100);
        let mut text = concat(string_of(&decimal_of(n / 100)).as_str(), ".");
        let ghost head = text@;
        text.push(digit(n / 10 % 10));
        text.push(digit(n % 10));
        assert(text@ == head + seq![
            digit_char((n / 10 % 10) as nat),
            digit_char((n % 10) as nat),
        ]);
        text.append(" GB");
        text
    } else {
        concat(fmt_megabytes(bytes).as_str(), " MB")
    }
}

/// Rounding is to the nearest: what it is off by is at most half of what it is counted
/// in.
proof fn lemma_half_even(num: nat, den: nat)
    requires
        den > 0,
    ensures
        -den <= 2 * (half_even(num, den) * den - num) <= den,
{
    let q = num / den;
    let r = num % den;
    assert(num == q * den + r && r < den) by (nonlinear_arith)
        requires
            q == num / den,
            r == num % den,
            den > 0,
    ;
    assert((q + 1) * den == q * den + den) by (nonlinear_arith);
}

/// A whole number that a double holds as it is stays as it is.
proof fn lemma_small_is_exact(n: nat)
    requires
        n < 0x20_0000_0000_0000,
    ensures
        as_double(n) == n,
{
    assert(spacing(n, 1) == 1);
    assert(n / 1 == n && n % 1 == 0);
}

proof fn lemma_scale(num: nat, den: nat, p: nat)
    requires
        num > 0,
        p > 0,
    ensures
        scale(num, den, p) >= p,
        num * scale(num, den, p) >= 0x10_0000_0000_0000 * den,
    decreases
            (if num * p < 0x10_0000_0000_0000 * den {
                0x10_0000_0000_0000 * den - num * p
            } else {
                0
            }),
{
    if num * p < 0x10_0000_0000_0000 * den {
        assert(num * (2 * p) > num * p) by (nonlinear_arith)
            requires
                num > 0,
                p > 0,
        ;
        lemma_scale(num, den, 2 * p);
    }
}

/// A quotient is written to the nearest of its last place: what it is off by is half of
/// that, give or take a twentieth of it for what a double can hold.
pub proof fn law_quotients_are_rounded_to_the_nearest(num: nat, den: nat, places: nat)
    requires
        num <= 0x1_0000_0000_0000_0000,
        (den == MB && places == 10) || (den == GB && places == 100),
    ensures
        -11 * den <= 20 * (rounded_quotient(num, den, places) * den - num * places) <= 11 * den,
{
    if num > 0 {
        let p = scale(num, den, 1);
        let m = half_even(num * p, den);
        let n = half_even(m * places, p);
        lemma_scale(num, den, 1);
        lemma_half_even(num * p, den);
        lemma_half_even(m * places, p);
        assert(0x1_0000_0000_0000_0000 * p >= num * p) by (nonlinear_arith)
            requires
                num <= 0x1_0000_0000_0000_0000,
                p > 0,
        ;
        // A double has bits to spare behind the last place.
        assert(p >= 10 * places);
        let e = m * den - num * p;
        let f = n * p - m * places;
        assert(n * p * den - num * places * p == f * den + e * places) by (nonlinear_arith)
            requires
                e == m * den - num * p,
                f == n * p - m * places,
        ;
        assert(-(p * den) <= 2 * (f * den) <= p * den) by (nonlinear_arith)
            requires
                -p <= 2 * f <= p,
                den > 0,
        ;
        assert(-(den * places) <= 2 * (e * places) <= den * places) by (nonlinear_arith)
            requires
                -den <= 2 * e <= den,
                places > 0,
        ;
        let off = n * den - num * places;
        assert(off * p == n * p * den - num * places * p) by (nonlinear_arith)
            requires
                off == n * den - num * places,
        ;
        assert(10 * (den * places) <= p * den) by (nonlinear_arith)
            requires
                p >= 10 * places,
                den > 0,
        ;
        assert(-(11 * (p * den)) <= 20 * (off * p) <= 11 * (p * den));
        assert(-11 * den <= 20 * off <= 11 * den) by (nonlinear_arith)
            requires
                -(11 * (p * den)) <= 20 * (off * p) <= 11 * (p * den),
                p > 0,
        ;
    }
}

/// A whole number of tenths of a megabyte is written as it is.
pub proof fn law_whole_tenths_are_written_as_they_are(tenths: nat)
    requires
        tenths * 100_000 < 0x20_0000_0000_0000,
    ensures
        megabytes_text(tenths * 100_000) == decimal(tenths / 10) + "."@ + seq![
            digit_char(tenths % 10),
        ],
{
    let bytes = tenths * 100_000;
    lemma_small_is_exact(bytes);
    law_quotients_are_rounded_to_the_nearest(bytes, MB as nat, 10);
    assert(rounded_quotient(bytes, MB as nat, 10) == tenths);
}

/// A size is given in gigabytes from one gigabyte on and in megabytes below.
pub proof fn law_sizes_have_the_unit_that_fits(bytes: nat)
    requires
        bytes < 0x20_0000_0000_0000,
    ensures
        bytes < 1_000_000_000 ==> size_text(bytes) == megabytes_text(bytes) + " MB"@,
        bytes >= 1_000_000_000 ==> " GB"@.is_suffix_of(size_text(bytes)),
{
    lemma_small_is_exact(bytes);
    let text = size_text(bytes);
    if bytes >= 1_000_000_000 {
        assert(text.skip(text.len() - " GB"@.len()) == " GB"@);
    }
}

/// A whole number of hundredths of a gigabyte, from one gigabyte on, is written as it is.
pub proof fn law_whole_hundredths_are_written_as_they_are(hundredths: nat)
    requires
        hundredths >= 100,
        hundredths * 10_000_000 < 0x20_0000_0000_0000,
    ensures
        size_text(hundredths * 10_000_000) == decimal(hundredths / 100) + "."@ + seq![
            digit_char(hundredths / 10 % 10),
            digit_char(hundredths % 10),
        ] + " GB"@,
{
    let bytes = hundredths * 10_000_000;
    lemma_small_is_exact(bytes);
    law_quotients_are_rounded_to_the_nearest(bytes, GB as nat, 100);
    assert(rounded_quotient(bytes, GB as nat, 100) == hundredths);
}

} // verus!
