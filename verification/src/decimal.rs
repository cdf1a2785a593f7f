//! Fixed-point decimals. A price or a volume is an `i64` count of units of
//! 10⁻⁸; an instant is an `i64` count of microseconds. Both are read from
//! the plain decimal notation that the feeds send.

use crate::text::chars_of;
use vstd::prelude::*;

verus! {

/// A price or a volume, counted in units of 10⁻⁸.
pub type Decimal = i64;

/// Decimal places that a `Decimal` keeps.
pub const DECIMAL_PLACES: u8 = 8;

/// Units of a `Decimal` that make one.
pub const DECIMAL_ONE: i64 = 100_000_000;

/// Decimal places below the second that an instant keeps.
pub const MICRO_PLACES: u8 = 6;

/// Whether `c` is one of `0` to `9`.
pub open spec fn is_digit(c: char) -> bool {
    48 <= c as int <= 57
}

/// The digit that `c` writes.
pub open spec fn digit_of(c: char) -> int {
    c as int - 48
}

/// 10 to the power of `k`.
pub open spec fn pow10(k: nat) -> nat
    decreases k,
{
    if k == 0 {
        1
    } else {
        10 * pow10((k - 1) as nat)
    }
}

/// Value of a run of digits read as a decimal number.
pub open spec fn digits_value(s: Seq<char>) -> nat
    decreases s.len(),
{
    if s.len() == 0 {
        0
    } else {
        (digits_value(s.drop_last()) * 10 + digit_of(s.last())) as nat
    }
}

/// Length of the longest run of digits in `s` that starts at `from`.
pub open spec fn digit_run(s: Seq<char>, from: int) -> nat
    decreases s.len() - from,
{
    if 0 <= from < s.len() && is_digit(s[from]) {
        1 + digit_run(s, from + 1)
    } else {
        0
    }
}

/// Whether `s` starts with a sign.
pub open spec fn has_sign(s: Seq<char>) -> bool {
    s.len() > 0 && (s[0] == '-' || s[0] == '+')
}

/// Where the digits before the point start: behind the sign, if any.
pub open spec fn whole_start(s: Seq<char>) -> int {
    if has_sign(s) {
        1
    } else {
        0
    }
}

/// Where the digits before the point end.
pub open spec fn whole_end(s: Seq<char>) -> int {
    whole_start(s) + digit_run(s, whole_start(s))
}

/// The notation accepted: an optional sign, one digit or more, and
/// optionally a point followed by one digit or more. Nothing else may
/// stand in the text.
pub open spec fn is_decimal_notation(s: Seq<char>) -> bool {
    let point = whole_end(s);
    &&& whole_start(s) < point
    &&& (point == s.len() || {
        &&& s[point] == '.'
        &&& digit_run(s, point + 1) > 0
        &&& point + 1 + digit_run(s, point + 1) == s.len()
    })
}

/// The digits before the point.
pub open spec fn whole_digits(s: Seq<char>) -> Seq<char> {
    s.subrange(whole_start(s), whole_end(s))
}

/// The digits after the point; none where the text has no point.
pub open spec fn fraction_digits(s: Seq<char>) -> Seq<char> {
    if whole_end(s) < s.len() {
        s.subrange(whole_end(s) + 1, s.len() as int)
    } else {
        Seq::empty()
    }
}

/// The fraction counted in units of 10^-places: digits beyond `places` are
/// dropped, missing ones read as zero.
pub open spec fn fraction_units(frac: Seq<char>, places: nat) -> nat {
    if frac.len() >= places {
        digits_value(frac.take(places as int))
    } else {
        digits_value(frac) * pow10((places - frac.len()) as nat)
    }
}

/// Absolute value of the number written in `s`, in units of 10^-places.
pub open spec fn magnitude(s: Seq<char>, places: nat) -> nat {
    digits_value(whole_digits(s)) * pow10(places) + fraction_units(fraction_digits(s), places)
}

/// The number written in `s` in units of 10^-places, where `s` is in the
/// accepted notation and the result fits an `i64`.
pub open spec fn fixed_value(s: Seq<char>, places: nat) -> Option<int> {
    if is_decimal_notation(s) && magnitude(s, places) <= i64::MAX {
        if s[0] == '-' {
            Some(-(magnitude(s, places) as int))
        } else {
            Some(magnitude(s, places) as int)
        }
    } else {
        None
    }
}

proof fn lemma_digits_value_push(s: Seq<char>, c: char)
    ensures
        digits_value(s.push(c)) == digits_value(s) * 10 + digit_of(c) || !is_digit(c),
{
    assert(s.push(c).drop_last() =~= s);
}

fn digit_at(chars: &Vec<char>, pos: usize) -> (d: Option<u8>)
    requires
        pos < chars.len(),
    ensures
        d is Some <==> is_digit(chars@[pos as int]),
        d is Some ==> d->0 == digit_of(chars@[pos as int]),
{
    let c = chars[pos];
    if '0' <= c && c <= '9' {
        Some((c as u32 - 48) as u8)
    } else {
        None
    }
}

proof fn lemma_pow10_monotonic(a: nat, b: nat)
    requires
        a <= b,
    ensures
        pow10(a) <= pow10(b),
    decreases b,
{
    if a < b {
        lemma_pow10_monotonic(a, (b - 1) as nat);
    }
}

proof fn lemma_pow10_eighteen()
    ensures
        pow10(18) == 1_000_000_000_000_000_000,
{
    reveal_with_fuel(pow10, 19);
}

fn power_of_ten(k: u8) -> (p: u64)
    requires
        k <= 18,
    ensures
        p == pow10(k as nat),
        1 <= p <= 1_000_000_000_000_000_000,
{
    let mut p: u64 = 1;
    let mut i: u8 = 0;
    proof {
        lemma_pow10_eighteen();
        lemma_pow10_monotonic(0, 18);
    }
    while i < k
        invariant
            i <= k <= 18,
            p == pow10(i as nat),
            1 <= p <= 1_000_000_000_000_000_000,
        decreases k - i,
    {
        proof {
            lemma_pow10_eighteen();
            lemma_pow10_monotonic((i + 1) as nat, 18);
        }
        p = p * 10;
        i += 1;
    }
    p
}

proof fn lemma_pow10_add(a: nat, b: nat)
    ensures
        pow10(a + b) == pow10(a) * pow10(b),
    decreases b,
{
    if b > 0 {
        lemma_pow10_add(a, (b - 1) as nat);
        assert(pow10(a + b) == 10 * pow10((a + b - 1) as nat));
        assert(10 * (pow10(a) * pow10((b - 1) as nat)) == pow10(a) * (10 * pow10((b - 1) as nat)))
            by (nonlinear_arith);
    } else {
        assert(pow10(a) * 1 == pow10(a)) by (nonlinear_arith);
    }
}

proof fn lemma_digit_run_bound(s: Seq<char>, from: int)
    requires
        0 <= from <= s.len(),
    ensures
        from + digit_run(s, from) <= s.len(),
        forall|j: int| from <= j < from + digit_run(s, from) ==> is_digit(#[trigger] s[j]),
        from + digit_run(s, from) < s.len() ==> !is_digit(s[from + digit_run(s, from)]),
    decreases s.len() - from,
{
    if from < s.len() && is_digit(s[from]) {
        lemma_digit_run_bound(s, from + 1);
    }
}

/// Reads the run of digits that starts at `from`: where it ends, and its
/// value unless that is above `i64::MAX`.
fn read_digits(chars: &Vec<char>, from: usize) -> (r: (usize, Option<u64>))
    requires
        from <= chars.len(),
    ensures
        r.0 == from + digit_run(chars@, from as int),
        r.0 <= chars.len(),
        match r.1 {
            Some(v) => v == digits_value(chars@.subrange(from as int, r.0 as int)) && v
                <= i64::MAX,
            None => digits_value(chars@.subrange(from as int, r.0 as int)) > i64::MAX,
        },
{
    let n = chars.len();
    let mut pos = from;
    let mut acc: u64 = 0;
    let mut fits = true;
    proof {
        lemma_digit_run_bound(chars@, from as int);
        assert(chars@.subrange(from as int, from as int) =~= Seq::<char>::empty());
    }
    while pos < n
        invariant
            n == chars.len(),
            from <= pos <= from + digit_run(chars@, from as int) <= n,
            forall|j: int|
                from <= j < from + digit_run(chars@, from as int) ==> is_digit(
                    #[trigger] chars@[j],
                ),
            from + digit_run(chars@, from as int) < n ==> !is_digit(
                chars@[from + digit_run(chars@, from as int)],
            ),
            fits ==> acc == digits_value(chars@.subrange(from as int, pos as int)) && acc
                <= i64::MAX,
            !fits ==> digits_value(chars@.subrange(from as int, pos as int)) > i64::MAX,
        decreases n - pos,
    {
        let d = match digit_at(chars, pos) {
            Some(d) => d,
            None => {
                return (pos, if fits { Some(acc) } else { None });
            },
        };
        proof {
            assert(chars@.subrange(from as int, pos + 1) =~= chars@.subrange(
                from as int,
                pos as int,
            ).push(chars@[pos as int]));
            lemma_digits_value_push(chars@.subrange(from as int, pos as int), chars@[pos as int]);
        }
        if fits {
            let next: u128 = acc as u128 * 10 + d as u128;
            if next > i64::MAX as u128 {
                fits = false;
            } else {
                acc = next as u64;
            }
        }
        pos += 1;
    }
    (pos, if fits { Some(acc) } else { None })
}

/// The fraction in `chars[from..end]`, all of them digits, counted in
/// units of 10^-places.
fn read_fraction(chars: &Vec<char>, from: usize, end: usize, places: u8) -> (units: u64)
    requires
        from <= end <= chars.len(),
        places <= 18,
        forall|j: int| from <= j < end ==> is_digit(#[trigger] chars@[j]),
    ensures
        units == fraction_units(chars@.subrange(from as int, end as int), places as nat),
        units < pow10(places as nat),
{
    let ghost frac = chars@.subrange(from as int, end as int);
    let available = end - from;
    let take: usize = if available >= places as usize { places as usize } else { available };
    let mut acc: u64 = 0;
    let mut i: usize = 0;
    proof {
        lemma_pow10_eighteen();
        assert(frac.take(0) =~= Seq::<char>::empty());
    }
    while i < take
        invariant
            from <= end <= chars.len(),
            take <= end - from,
            take <= places <= 18,
            i <= take,
            frac == chars@.subrange(from as int, end as int),
            forall|j: int| from <= j < end ==> is_digit(#[trigger] chars@[j]),
            acc == digits_value(frac.take(i as int)),
            acc < pow10(i as nat),
            pow10(18) == 1_000_000_000_000_000_000,
        decreases take - i,
    {
        let d = match digit_at(chars, from + i) {
            Some(d) => d,
            None => 0,
        };
        proof {
            assert(frac[i as int] == chars@[from + i]);
            assert(frac.take(i + 1) =~= frac.take(i as int).push(frac[i as int]));
            lemma_digits_value_push(frac.take(i as int), frac[i as int]);
            lemma_pow10_monotonic((i + 1) as nat, 18);
        }
        acc = acc * 10 + d as u64;
        i += 1;
    }
    if take < places as usize {
        let scale = power_of_ten(places - take as u8);
        proof {
            assert(frac.take(take as int) =~= frac);
            lemma_pow10_add(take as nat, (places - take) as nat);
            assert(acc * scale < pow10(take as nat) * scale) by (nonlinear_arith)
                requires
                    acc < pow10(take as nat),
                    scale >= 1,
            ;
            lemma_pow10_monotonic(places as nat, 18);
        }
        acc * scale
    } else {
        acc
    }
}

/// Reads a number in decimal notation as a count of units of 10^-places.
/// `None` where the text is not in that notation or the count does not fit.
pub fn parse_fixed(text: &str, places: u8) -> (r: Option<i64>)
    requires
        places <= 18,
    ensures
        match r {
            Some(v) => fixed_value(text@, places as nat) == Some(v as int),
            None => fixed_value(text@, places as nat) is None,
        },
{
    let chars = chars_of(text);
    let n = chars.len();
    let negative = n > 0 && chars[0] == '-';
    let start: usize = if n > 0 && (chars[0] == '-' || chars[0] == '+') { 1 } else { 0 };
    let (point, whole) = read_digits(&chars, start);
    if point == start {
        return None;
    }
    proof {
        assert(whole_start(text@) == start);
        assert(whole_end(text@) == point);
        assert(whole_digits(text@) == chars@.subrange(start as int, point as int));
    }
    let mut fraction: u64 = 0;
    if point < n {
        if chars[point] != '.' {
            return None;
        }
        let (end, _) = read_digits(&chars, point + 1);
        if end == point + 1 || end != n {
            return None;
        }
        proof {
            lemma_digit_run_bound(chars@, point + 1);
        }
        fraction = read_fraction(&chars, point + 1, n, places);
        proof {
            assert(fraction_digits(text@) == chars@.subrange(point + 1, n as int));
        }
    } else {
        proof {
            let none = Seq::<char>::empty();
            assert(fraction_digits(text@) == none);
            assert(none.take(0) =~= none);
            assert(digits_value(none) == 0);
            assert(digits_value(none) * pow10(places as nat) == 0) by (nonlinear_arith)
                requires
                    digits_value(none) == 0,
            ;
            assert(fraction_units(none, places as nat) == 0);
        }
    }
    assert(is_decimal_notation(text@));
    assert(fraction == fraction_units(fraction_digits(text@), places as nat));
    let scale = power_of_ten(places);
    match whole {
        None => {
            proof {
                let high = digits_value(whole_digits(text@));
                assert(high > i64::MAX);
                assert(high * pow10(places as nat) >= high) by (nonlinear_arith)
                    requires
                        pow10(places as nat) >= 1,
                        high >= 0,
                ;
                assert(magnitude(text@, places as nat) > i64::MAX);
            }
            None
        },
        Some(w) => {
            assert(w * scale <= 0x7fff_ffff_ffff_ffff * 1_000_000_000_000_000_000)
                by (nonlinear_arith)
                requires
                    0 <= w <= 0x7fff_ffff_ffff_ffff,
                    0 <= scale <= 1_000_000_000_000_000_000,
            ;
            let total: u128 = w as u128 * scale as u128 + fraction as u128;
            assert(total == magnitude(text@, places as nat));
            if total > i64::MAX as u128 {
                None
            } else if negative {
                assert(text@[0] == '-');
                Some(-(total as i64))
            } else {
                assert(text@.len() > 0 && text@[0] != '-');
                Some(total as i64)
            }
        },
    }
}

/// Reads a price or a volume. `None` where the text is not a decimal
/// number or is too large.
pub fn parse_decimal(text: &str) -> (r: Option<Decimal>)
    ensures
        match r {
            Some(v) => fixed_value(text@, 8) == Some(v as int),
            None => fixed_value(text@, 8) is None,
        },
{
    parse_fixed(text, DECIMAL_PLACES)
}

} // verus!
