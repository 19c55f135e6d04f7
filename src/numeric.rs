use vstd::prelude::*;

verus! {

/// Fixed-point values carry eight fractional decimal digits: a stored
/// value `v` stands for `v / 10^8`.
pub const SCALE: i128 = 100_000_000;

/// Largest bound under which a run of digits is read.
pub const DIGITS_BOUND_LIMIT: u128 = 100_000_000_000_000_000_000;

/// Largest magnitude of a parsed fixed-point value.
pub const FIXED_LIMIT: i128 = 10_000_000_000_000_000_000_000_000_000;

/// Largest exponent magnitude a decimal text may carry.
pub const EXP_LIMIT: u128 = 4000;

pub open spec fn is_digit(c: char) -> bool {
    '0' <= c && c <= '9'
}

pub open spec fn digit_of(c: char) -> nat {
    (c as int - '0' as int) as nat
}

pub open spec fn digit_char(d: nat) -> char {
    ((d % 10) + '0' as int) as char
}

pub open spec fn all_digits(s: Seq<char>) -> bool {
    forall|i: int| 0 <= i < s.len() ==> is_digit(#[trigger] s[i])
}

/// The natural number that a sequence of decimal digits spells.
pub open spec fn digits_value(s: Seq<char>) -> nat
    decreases s.len(),
{
    if s.len() == 0 {
        0
    } else {
        digits_value(s.drop_last()) * 10 + digit_of(s.last())
    }
}

/// Length of a leading `+` or `-`.
pub open spec fn sign_len(s: Seq<char>) -> int {
    if s.len() > 0 && (s[0] == '-' || s[0] == '+') {
        1
    } else {
        0
    }
}

pub open spec fn is_negative(s: Seq<char>) -> bool {
    s.len() > 0 && s[0] == '-'
}

/// The value of an integer text: an optional sign and at least one digit,
/// within the range of `i64`.
pub open spec fn integer_text_value(s: Seq<char>) -> Option<int> {
    let body = s.subrange(sign_len(s), s.len() as int);
    if body.len() > 0 && all_digits(body) {
        let v = if is_negative(s) {
            -digits_value(body)
        } else {
            digits_value(body) as int
        };
        if i64::MIN <= v <= i64::MAX {
            Some(v)
        } else {
            None
        }
    } else {
        None
    }
}

/// Index of the first `.` at or after `i`, or the length of `s`.
pub open spec fn find_dot(s: Seq<char>, i: int) -> int
    decreases s.len() - i,
{
    if i < 0 || i >= s.len() {
        s.len() as int
    } else if s[i] == '.' {
        i
    } else {
        find_dot(s, i + 1)
    }
}

/// The number the first `n` digits of `f` spell, zeros standing for
/// missing ones.
pub open spec fn frac_scaled(f: Seq<char>, n: nat) -> nat
    decreases n,
{
    if n == 0 {
        0
    } else {
        frac_scaled(f, (n - 1) as nat) * 10 + if n - 1 < f.len() {
            digit_of(f[n - 1])
        } else {
            0
        }
    }
}

/// Index of the first `e` or `E` at or after `i`, or the length of `s`.
pub open spec fn find_exp(s: Seq<char>, i: int) -> int
    decreases s.len() - i,
{
    if i < 0 || i >= s.len() {
        s.len() as int
    } else if s[i] == 'e' || s[i] == 'E' {
        i
    } else {
        find_exp(s, i + 1)
    }
}

/// The digits of `s[start..end]` with a `.` at `dot` left out.
pub open spec fn digits_between(s: Seq<char>, start: int, dot: int, end: int) -> Seq<char> {
    s.subrange(start, dot) + if dot < end {
        s.subrange(dot + 1, end)
    } else {
        Seq::empty()
    }
}

/// Where the mantissa of a decimal text ends: at its exponent marker.
pub open spec fn mantissa_end(s: Seq<char>) -> int {
    find_exp(s, sign_len(s))
}

/// Where the `.` of the mantissa stands, or the mantissa's end.
pub open spec fn dot_index(s: Seq<char>) -> int {
    let m = s.subrange(sign_len(s), mantissa_end(s));
    sign_len(s) + find_dot(m, 0)
}

/// The exponent of a decimal text: 0 without one; `None` where it is not an
/// optional sign and at least one digit, or exceeds `EXP_LIMIT`.
pub open spec fn exponent_value(s: Seq<char>) -> Option<int> {
    let x = mantissa_end(s);
    if x >= s.len() {
        Some(0)
    } else {
        let t = s.subrange(x + 1, s.len() as int);
        let b = t.subrange(sign_len(t), t.len() as int);
        if b.len() > 0 && all_digits(b) && digits_value(b) <= EXP_LIMIT {
            Some(
                if is_negative(t) {
                    -digits_value(b)
                } else {
                    digits_value(b) as int
                },
            )
        } else {
            None
        }
    }
}

/// The value that digits `d` spell with the decimal point after their
/// first `keep` digits, rounded half away from zero to an integer.
pub open spec fn rounded_scaled(d: Seq<char>, keep: int) -> nat {
    (if keep > 0 {
        frac_scaled(d, keep as nat)
    } else {
        0
    }) + if 0 <= keep < d.len() && digit_of(d[keep]) >= 5 {
        1nat
    } else {
        0nat
    }
}

/// The fixed-point value of a decimal text: an optional sign, digits with
/// at most one `.` and at least one digit, and optionally `e` or `E`
/// followed by an optional sign and digits. The value is rounded half away
/// from zero at the eighth fractional digit, and is at most `FIXED_LIMIT`.
pub open spec fn fixed_text_value(s: Seq<char>) -> Option<int> {
    let d = digits_between(s, sign_len(s), dot_index(s), mantissa_end(s));
    let int_len = dot_index(s) - sign_len(s);
    match exponent_value(s) {
        None => None,
        Some(e) => if d.len() > 0 && all_digits(d) && rounded_scaled(d, int_len + e + 8)
            <= FIXED_LIMIT {
            let m = rounded_scaled(d, int_len + e + 8);
            Some(
                if is_negative(s) {
                    -m
                } else {
                    m as int
                },
            )
        } else {
            None
        },
    }
}

/// Decimal digits of `n`, without leading zeros.
pub open spec fn natural_text(n: nat) -> Seq<char>
    decreases n,
{
    if n < 10 {
        seq![digit_char(n)]
    } else {
        natural_text(n / 10).push(digit_char(n % 10))
    }
}

/// The last `k` decimal digits of `n`, with leading zeros.
pub open spec fn padded_text(n: nat, k: nat) -> Seq<char>
    decreases k,
{
    if k == 0 {
        Seq::empty()
    } else {
        padded_text(n / 10, (k - 1) as nat).push(digit_char(n % 10))
    }
}

pub open spec fn abs(v: int) -> nat {
    if v < 0 {
        (-v) as nat
    } else {
        v as nat
    }
}

/// A fixed-point value written with exactly eight fractional digits.
pub open spec fn fixed_text(v: int) -> Seq<char> {
    let sign = if v < 0 {
        seq!['-']
    } else {
        Seq::empty()
    };
    sign + natural_text(abs(v) / SCALE as nat) + seq!['.'] + padded_text(abs(v) % SCALE as nat, 8)
}

/// The text holds a `.` followed by exactly eight digits at its end.
pub open spec fn has_eight_fraction_digits(t: Seq<char>) -> bool {
    &&& t.len() >= 9
    &&& t[t.len() - 9] == '.'
    &&& all_digits(t.subrange(t.len() - 8, t.len() as int))
}

proof fn lemma_digits_prefix(s: Seq<char>, k: int)
    requires
        0 <= k <= s.len(),
    ensures
        digits_value(s.subrange(0, k)) <= digits_value(s),
    decreases s.len() - k,
{
    if k < s.len() {
        lemma_digits_prefix(s, k + 1);
        assert(s.subrange(0, k + 1).drop_last() =~= s.subrange(0, k));
    } else {
        assert(s.subrange(0, k) =~= s);
    }
}

/// The digit a character stands for, if it is a decimal digit.
fn digit_value(c: char) -> (r: Option<u32>)
    ensures
        r == (if is_digit(c) {
            Some(digit_of(c) as u32)
        } else {
            None::<u32>
        }),
{
    if '0' <= c && c <= '9' {
        Some((c as u32) - ('0' as u32))
    } else {
        None
    }
}

/// Reads `s[from..to]` as decimal digits whose value is at most `bound`.
fn parse_digits(s: &str, from: usize, to: usize, bound: u128) -> (r: Option<u128>)
    requires
        from <= to <= s@.len(),
        bound <= DIGITS_BOUND_LIMIT,
    ensures
        ({
            let t = s@.subrange(from as int, to as int);
            r == if all_digits(t) && digits_value(t) <= bound {
                Some(digits_value(t) as u128)
            } else {
                None::<u128>
            }
        }),
{
    let ghost t = s@.subrange(from as int, to as int);
    let mut v: u128 = 0;
    let mut i: usize = from;
    while i < to
        invariant
            from <= i <= to <= s@.len(),
            bound <= DIGITS_BOUND_LIMIT,
            t == s@.subrange(from as int, to as int),
            all_digits(t.subrange(0, i - from)),
            v == digits_value(t.subrange(0, i - from)),
            v <= bound,
        decreases to - i,
    {
        let c = s.get_char(i);
        let ghost k = i - from;
        match digit_value(c) {
            None => {
                assert(t[k] == c);
                return None;
            },
            Some(d) => {
                assert(t.subrange(0, k + 1).drop_last() =~= t.subrange(0, k));
                assert(t.subrange(0, k + 1).last() == c);
                let nv = v * 10 + d as u128;
                i = i + 1;
                if nv > bound {
                    proof {
                        if all_digits(t) {
                            lemma_digits_prefix(t, k + 1);
                        }
                    }
                    return None;
                }
                v = nv;
            },
        }
    }
    assert(t.subrange(0, to - from) =~= t);
    Some(v)
}

/// Whether `s[from..to]` consists of decimal digits only.
fn check_digits(s: &str, from: usize, to: usize) -> (r: bool)
    requires
        from <= to <= s@.len(),
    ensures
        r == all_digits(s@.subrange(from as int, to as int)),
{
    let ghost t = s@.subrange(from as int, to as int);
    let mut i: usize = from;
    while i < to
        invariant
            from <= i <= to <= s@.len(),
            t == s@.subrange(from as int, to as int),
            all_digits(t.subrange(0, i - from)),
        decreases to - i,
    {
        let c = s.get_char(i);
        if digit_value(c).is_none() {
            assert(t[i - from] == c);
            return false;
        }
        assert(t.subrange(0, i + 1 - from) =~= t.subrange(0, i - from).push(c));
        i = i + 1;
    }
    assert(t.subrange(0, to - from) =~= t);
    true
}

/// Parses an integer text: an optional sign and decimal digits, within `i64`.
pub fn parse_integer(s: &str) -> (r: Option<i64>)
    ensures
        match r {
            Some(v) => integer_text_value(s@) == Some(v as int),
            None => integer_text_value(s@) is None,
        },
{
    let n = s.unicode_len();
    let mut p: usize = 0;
    if n > 0 {
        let c = s.get_char(0);
        if c == '-' || c == '+' {
            p = 1;
        }
    }
    let negative = p == 1 && s.get_char(0) == '-';
    assert(p == sign_len(s@));
    assert(negative == is_negative(s@));
    if p == n {
        return None;
    }
    match parse_digits(s, p, n, 9_223_372_036_854_775_808) {
        None => None,
        Some(m) => {
            if negative {
                Some((0 - (m as i128)) as i64)
            } else if m <= 9_223_372_036_854_775_807 {
                Some(m as i64)
            } else {
                None
            }
        },
    }
}

proof fn lemma_frac_mono(f: Seq<char>, a: nat, b: nat)
    requires
        a <= b,
    ensures
        frac_scaled(f, a) <= frac_scaled(f, b),
    decreases b,
{
    if a < b {
        lemma_frac_mono(f, a, (b - 1) as nat);
    }
}

proof fn lemma_all_digits_concat(a: Seq<char>, b: Seq<char>)
    ensures
        all_digits(a + b) <==> (all_digits(a) && all_digits(b)),
{
    if all_digits(a + b) {
        assert forall|i: int| 0 <= i < a.len() implies is_digit(#[trigger] a[i]) by {
            assert((a + b)[i] == a[i]);
        }
        assert forall|i: int| 0 <= i < b.len() implies is_digit(#[trigger] b[i]) by {
            assert((a + b)[a.len() + i] == b[i]);
        }
    }
    if all_digits(a) && all_digits(b) {
        assert forall|i: int| 0 <= i < (a + b).len() implies is_digit(#[trigger] (a + b)[i]) by {
            if i < a.len() {
                assert((a + b)[i] == a[i]);
            } else {
                assert((a + b)[i] == b[i - a.len()]);
            }
        }
    }
}

/// Position of the first `e` or `E` at or after `from`.
fn find_exponent(s: &str, from: usize, n: usize) -> (r: usize)
    requires
        from <= n == s@.len(),
    ensures
        r as int == find_exp(s@, from as int),
        from <= r <= n,
{
    let mut x: usize = from;
    while x < n && s.get_char(x) != 'e' && s.get_char(x) != 'E'
        invariant
            from <= x <= n == s@.len(),
            find_exp(s@, from as int) == find_exp(s@, x as int),
        decreases n - x,
    {
        x = x + 1;
    }
    x
}

/// Position of the first `.` in `s[from..to]`, or `to`.
fn find_dot_in(s: &str, from: usize, to: usize) -> (r: usize)
    requires
        from <= to <= s@.len(),
    ensures
        r == from + find_dot(s@.subrange(from as int, to as int), 0),
        from <= r <= to,
{
    let ghost m = s@.subrange(from as int, to as int);
    let mut d: usize = from;
    while d < to && s.get_char(d) != '.'
        invariant
            from <= d <= to <= s@.len(),
            m == s@.subrange(from as int, to as int),
            find_dot(m, 0) == find_dot(m, d - from),
        decreases to - d,
    {
        assert(m[d - from] == s@[d as int]);
        d = d + 1;
    }
    if d < to {
        assert(m[d - from] == s@[d as int]);
    }
    d
}

/// The value of the `k`-th digit of `s[start..end]` with the `.` at `dot`
/// left out.
fn mantissa_digit(s: &str, start: usize, dot: usize, end: usize, k: usize) -> (r: u128)
    requires
        start <= dot <= end <= s@.len(),
        all_digits(digits_between(s@, start as int, dot as int, end as int)),
        k < digits_between(s@, start as int, dot as int, end as int).len(),
    ensures
        r == digit_of(digits_between(s@, start as int, dot as int, end as int)[k as int]),
        r < 10,
{
    let ghost dg = digits_between(s@, start as int, dot as int, end as int);
    let ilen = dot - start;
    let c = if k < ilen {
        s.get_char(start + k)
    } else {
        s.get_char(dot + 1 + (k - ilen))
    };
    assert(dg[k as int] == c);
    assert(is_digit(dg[k as int]));
    (c as u32 - '0' as u32) as u128
}

/// The exponent of a decimal text whose mantissa ends at `x`.
fn parse_exponent(s: &str, x: usize, n: usize) -> (r: Option<i128>)
    requires
        x == mantissa_end(s@),
        x <= n == s@.len(),
    ensures
        match r {
            Some(e) => exponent_value(s@) == Some(e as int) && -4000 <= e <= 4000,
            None => exponent_value(s@) is None,
        },
{
    if x == n {
        return Some(0);
    }
    let ghost t = s@.subrange(x + 1, n as int);
    let mut es: usize = 0;
    if x + 1 < n {
        let c = s.get_char(x + 1);
        assert(t[0] == c);
        if c == '-' || c == '+' {
            es = 1;
        }
    }
    let eneg = es == 1 && s.get_char(x + 1) == '-';
    assert(es == sign_len(t));
    assert(eneg == is_negative(t));
    assert(t.subrange(sign_len(t), t.len() as int) =~= s@.subrange(x + 1 + es, n as int));
    if x + 1 + es == n {
        return None;
    }
    match parse_digits(s, x + 1 + es, n, EXP_LIMIT) {
        None => None,
        Some(v) => if eneg {
            Some(0 - (v as i128))
        } else {
            Some(v as i128)
        },
    }
}

/// `rounded_scaled` of the digits of `s[start..end]` (the `.` at `dot`
/// left out), where it is at most `FIXED_LIMIT`.
fn scaled_mantissa(s: &str, start: usize, dot: usize, end: usize, keep: i128) -> (r: Option<u128>)
    requires
        start <= dot <= end <= s@.len(),
        all_digits(digits_between(s@, start as int, dot as int, end as int)),
        keep < 0x1_0000_0000_0000_0000_0000_0000,
    ensures
        ({
            let dg = digits_between(s@, start as int, dot as int, end as int);
            match r {
                Some(m) => m == rounded_scaled(dg, keep as int) && m <= FIXED_LIMIT,
                None => rounded_scaled(dg, keep as int) > FIXED_LIMIT,
            }
        }),
{
    let ghost dg = digits_between(s@, start as int, dot as int, end as int);
    let ilen = dot - start;
    let dlen: usize = if dot < end {
        ilen + (end - dot - 1)
    } else {
        ilen
    };
    assert(dg.len() == dlen);
    let mut v: u128 = 0;
    if keep > 0 {
        let mut k: u128 = 0;
        while (k as i128) < keep
            invariant
                0 < keep < 0x1_0000_0000_0000_0000_0000_0000,
                k as int <= keep,
                dlen == dg.len(),
                all_digits(dg),
                dg == digits_between(s@, start as int, dot as int, end as int),
                start <= dot <= end <= s@.len(),
                v == frac_scaled(dg, k as nat),
                v <= FIXED_LIMIT,
            decreases keep - k,
        {
            let dd: u128 = if k < dlen as u128 {
                mantissa_digit(s, start, dot, end, k as usize)
            } else {
                0
            };
            let nv = v * 10 + dd;
            k = k + 1;
            assert(nv == frac_scaled(dg, k as nat));
            if nv > FIXED_LIMIT as u128 {
                proof {
                    lemma_frac_mono(dg, k as nat, keep as nat);
                }
                return None;
            }
            v = nv;
        }
    }
    let round: u128 = if keep >= 0 && keep < dlen as i128 && mantissa_digit(
        s,
        start,
        dot,
        end,
        keep as usize,
    ) >= 5 {
        1
    } else {
        0
    };
    let m = v + round;
    if m > FIXED_LIMIT as u128 {
        return None;
    }
    Some(m)
}

/// Parses a decimal text, with an optional exponent, into a fixed-point
/// value with eight fractional digits, rounded half away from zero.
pub fn parse_fixed(s: &str) -> (r: Option<i128>)
    ensures
        match r {
            Some(v) => fixed_text_value(s@) == Some(v as int) && -FIXED_LIMIT <= v <= FIXED_LIMIT,
            None => fixed_text_value(s@) is None,
        },
{
    let n = s.unicode_len();
    let mut p: usize = 0;
    if n > 0 {
        let c = s.get_char(0);
        if c == '-' || c == '+' {
            p = 1;
        }
    }
    let negative = p == 1 && s.get_char(0) == '-';
    assert(p == sign_len(s@));
    assert(negative == is_negative(s@));
    let x = find_exponent(s, p, n);
    let d = find_dot_in(s, p, x);
    assert(x == mantissa_end(s@));
    assert(d == dot_index(s@));
    let e = match parse_exponent(s, x, n) {
        Some(e) => e,
        None => {
            return None;
        },
    };
    let ghost dg = digits_between(s@, p as int, d as int, x as int);
    let ok_int = check_digits(s, p, d);
    let ok_frac = if d < x {
        check_digits(s, d + 1, x)
    } else {
        true
    };
    let ilen = d - p;
    let dlen: usize = if d < x {
        ilen + (x - d - 1)
    } else {
        ilen
    };
    proof {
        lemma_all_digits_concat(
            s@.subrange(p as int, d as int),
            if d < x {
                s@.subrange(d + 1, x as int)
            } else {
                Seq::empty()
            },
        );
        if d >= x {
            assert(all_digits(Seq::<char>::empty()));
        }
    }
    assert(dg.len() == dlen);
    if dlen == 0 || !ok_int || !ok_frac {
        return None;
    }
    let keep: i128 = ilen as i128 + e + 8;
    match scaled_mantissa(s, p, d, x, keep) {
        None => None,
        Some(m) => {
            let mi = m as i128;
            if negative {
                Some(0 - mi)
            } else {
                Some(mi)
            }
        },
    }
}

proof fn lemma_digits_push(x: Seq<char>, c: char)
    ensures
        digits_value(x.push(c)) == digits_value(x) * 10 + digit_of(c),
{
    assert(x.push(c).drop_last() =~= x);
}

/// The decimal text of `n` is digits only and spells `n`.
pub proof fn lemma_natural_text(n: nat)
    ensures
        natural_text(n).len() > 0,
        all_digits(natural_text(n)),
        digits_value(natural_text(n)) == n,
    decreases n,
{
    let c = digit_char(n % 10);
    assert(digit_of(c) == n % 10);
    if n < 10 {
        assert(natural_text(n) =~= Seq::<char>::empty().push(c));
        lemma_digits_push(Seq::<char>::empty(), c);
    } else {
        lemma_natural_text(n / 10);
        let x = natural_text(n / 10);
        lemma_digits_push(x, c);
        assert forall|i: int| 0 <= i < x.push(c).len() implies is_digit(#[trigger] x.push(c)[i]) by {
            if i < x.len() {
                assert(x.push(c)[i] == x[i]);
            }
        }
    }
}

pub open spec fn pow10(k: nat) -> nat
    decreases k,
{
    if k == 0 {
        1
    } else {
        10 * pow10((k - 1) as nat)
    }
}

/// The last `k` digits of `n`, zero-padded, are `k` digits spelling
/// `n % 10^k`.
pub proof fn lemma_padded_text(n: nat, k: nat)
    ensures
        padded_text(n, k).len() == k,
        all_digits(padded_text(n, k)),
        digits_value(padded_text(n, k)) == n % pow10(k),
    decreases k,
{
    if k > 0 {
        lemma_padded_text(n / 10, (k - 1) as nat);
        let c = digit_char(n % 10);
        assert(digit_of(c) == n % 10);
        let p = padded_text(n / 10, (k - 1) as nat);
        lemma_digits_push(p, c);
        assert forall|i: int| 0 <= i < p.push(c).len() implies is_digit(#[trigger] p.push(c)[i]) by {
            if i < p.len() {
                assert(p.push(c)[i] == p[i]);
            }
        }
        assert(pow10((k - 1) as nat) > 0) by {
            lemma_pow10_positive((k - 1) as nat);
        }
        vstd::arithmetic::div_mod::lemma_mod_breakdown(n as int, 10, pow10((k - 1) as nat) as int);
    }
}

proof fn lemma_pow10_positive(k: nat)
    ensures
        pow10(k) > 0,
    decreases k,
{
    if k > 0 {
        lemma_pow10_positive((k - 1) as nat);
    }
}

proof fn lemma_digits_concat(x: Seq<char>, y: Seq<char>)
    ensures
        digits_value(x + y) == digits_value(x) * pow10(y.len()) + digits_value(y),
    decreases y.len(),
{
    if y.len() == 0 {
        assert(x + y =~= x);
        assert(pow10(0) == 1);
        assert(digits_value(y) == 0);
        assert(digits_value(x) * 1 == digits_value(x));
    } else {
        let z = y.drop_last();
        lemma_digits_concat(x, z);
        assert((x + y).drop_last() =~= x + z);
        assert((x + y).last() == y.last());
        let a = digits_value(x);
        let p = pow10(z.len());
        let b = digits_value(z);
        let c = digit_of(y.last());
        assert(digits_value(y) == b * 10 + c);
        assert(digits_value(x + y) == (a * p + b) * 10 + c);
        assert(pow10(y.len()) == 10 * p);
        assert((a * p + b) * 10 + c == a * (10 * p) + (b * 10 + c)) by (nonlinear_arith);
        assert(digits_value(x) * pow10(y.len()) == a * (10 * p));
    }
}

proof fn lemma_frac_scaled_prefix(d: Seq<char>, k: nat)
    requires
        k <= d.len(),
    ensures
        frac_scaled(d, k) == digits_value(d.subrange(0, k as int)),
    decreases k,
{
    if k > 0 {
        lemma_frac_scaled_prefix(d, (k - 1) as nat);
        assert(d.subrange(0, k as int).drop_last() =~= d.subrange(0, k - 1));
    }
}

proof fn lemma_find_exp_none(t: Seq<char>, j: int)
    requires
        0 <= j <= t.len(),
        forall|i: int| j <= i < t.len() ==> #[trigger] t[i] != 'e' && t[i] != 'E',
    ensures
        find_exp(t, j) == t.len(),
    decreases t.len() - j,
{
    if j < t.len() {
        lemma_find_exp_none(t, j + 1);
    }
}

proof fn lemma_find_dot_at(t: Seq<char>, j: int, k: int)
    requires
        0 <= j <= k < t.len(),
        t[k] == '.',
        forall|i: int| j <= i < k ==> #[trigger] t[i] != '.',
    ensures
        find_dot(t, j) == k,
    decreases k - j,
{
    if j < k {
        lemma_find_dot_at(t, j + 1, k);
    }
}

/// The fixed-point text of a value within `FIXED_LIMIT` reads back as that
/// value.
pub proof fn lemma_fixed_text_round_trip(v: int)
    requires
        -FIXED_LIMIT <= v <= FIXED_LIMIT,
    ensures
        fixed_text_value(fixed_text(v)) == Some(v),
{
    let a = abs(v);
    let hi = natural_text(a / 100_000_000);
    let lo = padded_text(a % 100_000_000, 8);
    lemma_natural_text(a / 100_000_000);
    lemma_padded_text(a % 100_000_000, 8);
    reveal_with_fuel(pow10, 9);
    let sign = if v < 0 {
        seq!['-']
    } else {
        Seq::<char>::empty()
    };
    let t = fixed_text(v);
    assert(t =~= sign + hi + seq!['.'] + lo);
    let sl = sign.len() as int;
    let hl = hi.len() as int;
    assert(is_digit(hi[0]));
    assert(sign_len(t) == sl) by {
        if v >= 0 {
            assert(t[0] == hi[0]);
        }
    }
    assert forall|i: int| sl <= i < t.len() implies #[trigger] t[i] != 'e' && t[i] != 'E' by {
        if i < sl + hl {
            assert(t[i] == hi[i - sl]);
            assert(is_digit(hi[i - sl]));
        } else if i > sl + hl {
            assert(t[i] == lo[i - sl - hl - 1]);
            assert(is_digit(lo[i - sl - hl - 1]));
        }
    }
    lemma_find_exp_none(t, sl);
    let m = t.subrange(sl, t.len() as int);
    assert forall|i: int| 0 <= i < hl implies #[trigger] m[i] != '.' by {
        assert(m[i] == hi[i]);
        assert(is_digit(hi[i]));
    }
    assert(m[hl] == '.');
    lemma_find_dot_at(m, 0, hl);
    assert(dot_index(t) == sl + hl);
    assert(mantissa_end(t) == t.len());
    assert(exponent_value(t) == Some(0int));
    let d = digits_between(t, sl, sl + hl, t.len() as int);
    assert(d =~= hi + lo);
    lemma_all_digits_concat(hi, lo);
    lemma_digits_concat(hi, lo);
    lemma_frac_scaled_prefix(d, d.len());
    assert(d.subrange(0, d.len() as int) =~= d);
    assert(rounded_scaled(d, hl + 0 + 8) == digits_value(d));
    assert(pow10(lo.len()) == 100_000_000);
    assert(digits_value(d) == digits_value(hi) * 100_000_000 + digits_value(lo));
    vstd::arithmetic::div_mod::lemma_fundamental_div_mod(a as int, 100_000_000);
    let q = a / 100_000_000;
    let r = a % 100_000_000;
    assert(digits_value(hi) == q);
    assert(r % 100_000_000 == r);
    assert(digits_value(lo) == r);
    assert(a == q * 100_000_000 + r);
    assert(digits_value(d) == a);
}

/// The one-character text of a decimal digit.
fn digit_text(d: u128) -> (r: &'static str)
    requires
        d < 10,
    ensures
        r@ == seq![digit_char(d as nat)],
{
    if d == 0 {
        proof {
            reveal_strlit("0");
        }
        "0"
    } else if d == 1 {
        proof {
            reveal_strlit("1");
        }
        "1"
    } else if d == 2 {
        proof {
            reveal_strlit("2");
        }
        "2"
    } else if d == 3 {
        proof {
            reveal_strlit("3");
        }
        "3"
    } else if d == 4 {
        proof {
            reveal_strlit("4");
        }
        "4"
    } else if d == 5 {
        proof {
            reveal_strlit("5");
        }
        "5"
    } else if d == 6 {
        proof {
            reveal_strlit("6");
        }
        "6"
    } else if d == 7 {
        proof {
            reveal_strlit("7");
        }
        "7"
    } else if d == 8 {
        proof {
            reveal_strlit("8");
        }
        "8"
    } else {
        proof {
            reveal_strlit("9");
        }
        "9"
    }
}

/// Writes `n` in decimal, without leading zeros.
pub fn render_natural(n: u128) -> (r: String)
    ensures
        r@ == natural_text(n as nat),
    decreases n,
{
    if n < 10 {
        String::from_str(digit_text(n))
    } else {
        let mut t = render_natural(n / 10);
        t.append(digit_text(n % 10));
        t
    }
}

/// Writes the last `k` decimal digits of `n`, with leading zeros.
fn render_padded(n: u128, k: u32) -> (r: String)
    ensures
        r@ == padded_text(n as nat, k as nat),
    decreases k,
{
    if k == 0 {
        String::new()
    } else {
        let mut t = render_padded(n / 10, k - 1);
        t.append(digit_text(n % 10));
        t
    }
}

/// Writes a fixed-point value with exactly eight fractional digits.
pub fn render_fixed(v: i128) -> (r: String)
    ensures
        r@ == fixed_text(v as int),
{
    let m: u128 = if v < 0 {
        ((0 - (v + 1)) as u128) + 1
    } else {
        v as u128
    };
    assert(m == abs(v as int));
    let mut t = if v < 0 {
        proof {
            reveal_strlit("-");
        }
        String::from_str("-")
    } else {
        String::new()
    };
    let whole = render_natural(m / (SCALE as u128));
    t.append(whole.as_str());
    proof {
        reveal_strlit(".");
    }
    t.append(".");
    let fraction = render_padded(m % (SCALE as u128), 8);
    t.append(fraction.as_str());
    t
}

} // verus!
