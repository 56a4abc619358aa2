use vstd::prelude::*;

verus! {

/// An exact decimal number: the value `num / 10^scale`.
///
/// Percentages and opacity values from the configuration are carried as
/// decimals so that all resolution arithmetic is exact integer arithmetic.
#[derive(Debug, Clone, Copy, PartialEq, Eq, Structural)]
pub struct Decimal {
    pub num: i64,
    pub scale: u32,
}

/// Largest number of fractional digits a parsed decimal may carry.
pub const MAX_SCALE: u32 = 15;

pub open spec fn pow10(k: nat) -> nat
    decreases k,
{
    if k == 0 {
        1
    } else {
        10 * pow10((k - 1) as nat)
    }
}

pub proof fn lemma_pow10_pos(k: nat)
    ensures
        pow10(k) >= 1,
    decreases k,
{
    if k > 0 {
        lemma_pow10_pos((k - 1) as nat)
    }
}

pub proof fn lemma_pow10_monotone(a: nat, b: nat)
    requires
        a <= b,
    ensures
        pow10(a) <= pow10(b),
        pow10(a) >= 1,
    decreases b,
{
    lemma_pow10_pos(a);
    if a < b {
        lemma_pow10_monotone(a, (b - 1) as nat);
    }
}

pub proof fn lemma_pow10_15()
    ensures
        pow10(15) == 0x38d7ea4c68000,
{
    assert(pow10(15) == 1000000000000000) by {
        assert(pow10(0) == 1);
        assert(pow10(1) == 10);
        assert(pow10(2) == 100);
        assert(pow10(3) == 1000);
        assert(pow10(4) == 10000);
        assert(pow10(5) == 100000);
        assert(pow10(6) == 1000000);
        assert(pow10(7) == 10000000);
        assert(pow10(8) == 100000000);
        assert(pow10(9) == 1000000000);
        assert(pow10(10) == 10000000000);
        assert(pow10(11) == 100000000000);
        assert(pow10(12) == 1000000000000);
        assert(pow10(13) == 10000000000000);
        assert(pow10(14) == 100000000000000);
        assert(pow10(15) == 1000000000000000);
    }
}

pub proof fn lemma_pow10_19()
    ensures
        pow10(18) == 0xde0b6b3a7640000,
        pow10(19) == 0x8ac7230489e80000,
{
    lemma_pow10_15();
    assert(pow10(16) == 10 * pow10(15));
    assert(pow10(17) == 10 * pow10(16));
    assert(pow10(18) == 10 * pow10(17));
    assert(pow10(19) == 10 * pow10(18));
}

/// `10^k` as a machine integer, up to the largest power an exponent
/// application may multiply by.
pub fn pow10_u64(k: u32) -> (r: u64)
    requires
        k <= 18,
    ensures
        r == pow10(k as nat),
{
    proof {
        lemma_pow10_19();
        lemma_pow10_monotone(k as nat, 18);
    }
    let mut r: u64 = 1;
    let mut i: u32 = 0;
    while i < k
        invariant
            i <= k,
            k <= 18,
            r == pow10(i as nat),
            pow10(k as nat) <= pow10(18),
            pow10(18) == 0xde0b6b3a7640000,
        decreases k - i,
    {
        proof {
            lemma_pow10_monotone((i + 1) as nat, k as nat);
        }
        r = r * 10;
        i = i + 1;
    }
    r
}

/// A decimal digit `'0'..='9'`.
pub open spec fn is_digit(c: char) -> bool {
    48 <= c as u32 && c as u32 <= 57
}

pub open spec fn digit_val(c: char) -> nat {
    (c as u32 - 48) as nat
}

pub open spec fn all_digits(s: Seq<char>) -> bool {
    forall|i: int| 0 <= i < s.len() ==> is_digit(#[trigger] s[i])
}

/// Numeric value of a digit string, most significant digit first.
pub open spec fn digits_val(s: Seq<char>) -> nat
    decreases s.len(),
{
    if s.len() == 0 {
        0
    } else {
        10 * digits_val(s.drop_last()) + digit_val(s.last())
    }
}

pub open spec fn is_sign(c: char) -> bool {
    c as u32 == 43 || c as u32 == 45  // '+' or '-'
}

pub open spec fn strip_sign(s: Seq<char>) -> Seq<char> {
    if s.len() > 0 && is_sign(s[0]) {
        s.drop_first()
    } else {
        s
    }
}

pub open spec fn is_negative(s: Seq<char>) -> bool {
    s.len() > 0 && s[0] as u32 == 45  // leading '-'
}

/// What `str::parse` to a (mathematical) integer accepts: an optional sign
/// followed by one or more digits.
pub open spec fn spec_parse_int(s: Seq<char>) -> Option<int> {
    let t = strip_sign(s);
    if t.len() >= 1 && all_digits(t) {
        if is_negative(s) {
            Some(-(digits_val(t) as int))
        } else {
            Some(digits_val(t) as int)
        }
    } else {
        None
    }
}

/// Whether the string ends in a `'%'` sign.
pub open spec fn ends_with_pct(s: Seq<char>) -> bool {
    s.len() > 0 && s.last() as u32 == 37
}

/// Index of the first `'.'` in `s`, if any.
pub open spec fn first_dot(s: Seq<char>) -> Option<int>
    decreases s.len(),
{
    if s.len() == 0 {
        None
    } else if s[0] as u32 == 46 {
        Some(0)
    } else {
        match first_dot(s.drop_first()) {
            Some(i) => Some(i + 1),
            None => None,
        }
    }
}

/// A plain decimal numeral: an optional sign, digits, and at most one point,
/// with at least one digit overall. The result is the pair of the signed
/// numerator and the number of fractional digits.
pub open spec fn spec_parse_plain(s: Seq<char>) -> Option<(int, nat)> {
    let t = strip_sign(s);
    match first_dot(t) {
        None => match spec_parse_int(s) {
            Some(v) => Some((v, 0)),
            None => None,
        },
        Some(i) => {
            let ip = t.take(i);
            let fp = t.skip(i + 1);
            if ip.len() + fp.len() >= 1 && all_digits(ip) && all_digits(fp) {
                let mag = digits_val(ip) * pow10(fp.len()) + digits_val(fp);
                if is_negative(s) {
                    Some((-(mag as int), fp.len()))
                } else {
                    Some((mag as int, fp.len()))
                }
            } else {
                None
            }
        },
    }
}

/// Index of the first exponent marker (`'e'` or `'E'`) in `s`, if any.
pub open spec fn first_exp(s: Seq<char>) -> Option<int>
    decreases s.len(),
{
    if s.len() == 0 {
        None
    } else if s[0] as u32 == 101 || s[0] as u32 == 69 {
        Some(0)
    } else {
        match first_exp(s.drop_first()) {
            Some(i) => Some(i + 1),
            None => None,
        }
    }
}

/// A decimal exponent applied to a numeral: shifting the scale, or
/// multiplying the numerator out once the fraction digits are used up.
pub open spec fn spec_apply_exp(num: int, k: nat, v: int) -> (int, nat) {
    if v >= k {
        (num * pow10((v - k) as nat), 0)
    } else {
        (num, (k - v) as nat)
    }
}

/// A decimal numeral as a float parse reads finite values: a plain numeral,
/// optionally followed by an exponent marker and a signed integer exponent.
/// The word forms of a float parse (infinities, the not-a-number value)
/// have no exact decimal and are not numerals here.
pub open spec fn spec_parse_decimal(s: Seq<char>) -> Option<(int, nat)> {
    match first_exp(s) {
        None => spec_parse_plain(s),
        Some(p) => match spec_parse_plain(s.take(p)) {
            Some(vk) => match spec_parse_int(s.skip(p + 1)) {
                Some(v) => Some(spec_apply_exp(vk.0, vk.1, v)),
                None => None,
            },
            None => None,
        },
    }
}

/// A signed value clamped just beyond `b` in magnitude, keeping its sign.
pub open spec fn clamp_mag(v: int, b: int) -> int {
    if v > b {
        b + 1
    } else if v < -b {
        -(b + 1)
    } else {
        v
    }
}

proof fn lemma_digits_val_push(s: Seq<char>, c: char)
    ensures
        digits_val(s.push(c)) == 10 * digits_val(s) + digit_val(c),
{
    assert(s.push(c).drop_last() =~= s);
    assert(s.push(c).last() == c);
}

proof fn lemma_digits_val_concat(a: Seq<char>, b: Seq<char>)
    ensures
        digits_val(a + b) == digits_val(a) * pow10(b.len()) + digits_val(b),
    decreases b.len(),
{
    if b.len() == 0 {
        assert(a + b =~= a);
        assert(pow10(0) == 1);
    } else {
        let b0 = b.drop_last();
        lemma_digits_val_concat(a, b0);
        assert((a + b).drop_last() =~= a + b0);
        assert((a + b).last() == b.last());
        assert(digits_val(a + b) == 10 * digits_val(a + b0) + digit_val(b.last()));
        assert(10 * (digits_val(a) * pow10(b0.len())) == digits_val(a) * (10 * pow10(b0.len())))
            by (nonlinear_arith);
        assert(pow10(b.len()) == 10 * pow10(b0.len()));
    }
}

proof fn lemma_first_dot_found(s: Seq<char>, i: int)
    requires
        0 <= i < s.len(),
        s[i] as u32 == 46,
        forall|j: int| 0 <= j < i ==> (#[trigger] s[j]) as u32 != 46,
    ensures
        first_dot(s) == Some(i),
    decreases s.len(),
{
    if i > 0 {
        lemma_first_dot_found(s.drop_first(), i - 1);
    }
}

proof fn lemma_first_dot_absent(s: Seq<char>)
    requires
        forall|j: int| 0 <= j < s.len() ==> (#[trigger] s[j]) as u32 != 46,
    ensures
        first_dot(s) is None,
    decreases s.len(),
{
    if s.len() > 0 {
        lemma_first_dot_absent(s.drop_first());
    }
}

proof fn lemma_first_exp_found(s: Seq<char>, i: int)
    requires
        0 <= i < s.len(),
        s[i] as u32 == 101 || s[i] as u32 == 69,
        forall|j: int|
            0 <= j < i ==> (#[trigger] s[j]) as u32 != 101 && s[j] as u32 != 69,
    ensures
        first_exp(s) == Some(i),
    decreases s.len(),
{
    if i > 0 {
        lemma_first_exp_found(s.drop_first(), i - 1);
    }
}

proof fn lemma_first_exp_absent(s: Seq<char>)
    requires
        forall|j: int|
            0 <= j < s.len() ==> (#[trigger] s[j]) as u32 != 101 && s[j] as u32 != 69,
    ensures
        first_exp(s) is None,
    decreases s.len(),
{
    if s.len() > 0 {
        lemma_first_exp_absent(s.drop_first());
    }
}

/// Magnitude accumulator value, saturated just above `2^63` so that overflow
/// of the parsed numeral is still detected exactly.
spec fn capped_val(v: nat) -> nat {
    if v > 0x8000000000000000 {
        0x8000000000000001
    } else {
        v
    }
}

impl Decimal {
    /// The decimals produced by parsing keep their scale within machine range.
    pub open spec fn wf(&self) -> bool {
        self.scale <= MAX_SCALE
    }
}

/// Parses a signed integer numeral the way `str::parse` into a 64-bit
/// signed integer does: an optional sign, then one or more digits, rejected
/// when the value does not fit.
pub fn parse_i64_str(s: &str) -> (r: Option<i64>)
    ensures
        ({
            let p = spec_parse_int(s@);
            match r {
                Some(v) => p == Some(v as int),
                None => p is None || (p matches Some(v) && (v < i64::MIN || v > i64::MAX)),
            }
        }),
{
    let ghost whole = s@;
    let n = s.unicode_len();
    let mut start: usize = 0;
    let mut neg = false;
    if n > 0 {
        let c0 = s.get_char(0);
        let u0 = c0 as u32;
        if u0 == 43 || u0 == 45 {
            start = 1;
            neg = u0 == 45;
        }
    }
    let ghost t = whole.skip(start as int);
    proof {
        assert(t =~= strip_sign(whole));
        assert(neg == is_negative(whole));
    }
    if n == start {
        return None;
    }
    let tlen = n - start;
    let mut mag: u128 = 0;
    let mut j: usize = 0;
    while j < tlen
        invariant
            s@ == whole,
            t == strip_sign(whole),
            t == whole.skip(start as int),
            start <= 1,
            n == whole.len(),
            tlen == n - start,
            j <= tlen,
            all_digits(t.take(j as int)),
            mag == capped_val(digits_val(t.take(j as int))),
        decreases tlen - j,
    {
        let c = s.get_char(start + j);
        assert(c == t[j as int]);
        let u = c as u32;
        if u < 48 || u > 57 {
            assert(!is_digit(t[j as int]));
            return None;
        }
        let d = (u - 48) as u128;
        proof {
            lemma_digits_val_push(t.take(j as int), c);
            assert(t.take(j as int).push(c) =~= t.take(j as int + 1));
        }
        let nm = 10 * mag + d;
        mag = if nm > 0x8000000000000000 {
            0x8000000000000001
        } else {
            nm
        };
        j = j + 1;
    }
    assert(t.take(tlen as int) =~= t);
    if neg {
        if mag < 0x8000000000000000 {
            Some(-(mag as i64))
        } else if mag == 0x8000000000000000 {
            Some(i64::MIN)
        } else {
            None
        }
    } else {
        if mag <= 0x7fffffffffffffff {
            Some(mag as i64)
        } else {
            None
        }
    }
}

/// `parse_i64_str` narrowed to the 32-bit signed range, as `str::parse`
/// into a 32-bit signed integer behaves.
pub fn parse_i32_str(s: &str) -> (r: Option<i32>)
    ensures
        ({
            let p = spec_parse_int(s@);
            match r {
                Some(v) => p == Some(v as int),
                None => p is None || (p matches Some(v) && (v < i32::MIN || v > i32::MAX)),
            }
        }),
{
    match parse_i64_str(s) {
        Some(v) => {
            if -0x80000000i64 <= v && v <= 0x7fffffffi64 {
                Some(v as i32)
            } else {
                None
            }
        },
        None => None,
    }
}

/// Parses the plain part of a decimal numeral into its raw pieces: the
/// sign, the magnitude of the numerator (saturated just above `2^63`), and
/// the count of fraction digits.
fn parse_plain_parts(s: &str) -> (r: Option<(bool, u128, usize)>)
    ensures
        ({
            let p = spec_parse_plain(s@);
            match r {
                Some(parts) => p matches Some(vk) && ({
                    let a = if vk.0 >= 0 {
                        vk.0
                    } else {
                        -vk.0
                    };
                    &&& parts.0 == is_negative(s@)
                    &&& parts.1 == capped_val(a as nat)
                    &&& parts.2 as nat == vk.1
                    &&& (parts.0 ==> vk.0 <= 0)
                    &&& (!parts.0 ==> vk.0 >= 0)
                }),
                None => p is None,
            }
        }),
{
    let ghost whole = s@;
    let n = s.unicode_len();
    let mut start: usize = 0;
    let mut neg = false;
    if n > 0 {
        let c0 = s.get_char(0);
        let u0 = c0 as u32;
        if u0 == 43 || u0 == 45 {
            start = 1;
            neg = u0 == 45;
        }
    }
    let ghost t = whole.skip(start as int);
    proof {
        assert(t =~= strip_sign(whole));
        assert(neg == is_negative(whole));
    }
    let tlen = n - start;

    // Find the first decimal point, if any.
    let mut dpos: usize = 0;
    let mut found = false;
    let mut j: usize = 0;
    while j < tlen
        invariant
            s@ == whole,
            t == whole.skip(start as int),
            start <= 1,
            n == whole.len(),
            tlen == n - start,
            t == strip_sign(whole),
            neg == is_negative(whole),
            j <= tlen,
            !found ==> forall|jj: int| 0 <= jj < j ==> (#[trigger] t[jj]) as u32 != 46,
            found ==> dpos < j && t[dpos as int] as u32 == 46 && forall|jj: int|
                0 <= jj < dpos ==> (#[trigger] t[jj]) as u32 != 46,
        decreases tlen - j,
    {
        if !found {
            let c = s.get_char(start + j);
            assert(c == t[j as int]);
            if c as u32 == 46 {
                found = true;
                dpos = j;
            }
        }
        j = j + 1;
    }
    proof {
        if found {
            lemma_first_dot_found(t, dpos as int);
        } else {
            lemma_first_dot_absent(t);
        }
    }

    if !found {
        // No point: the whole body is the numerator's digits.
        if n == start {
            return None;
        }
        let mut mag: u128 = 0;
        let mut j0: usize = 0;
        while j0 < tlen
            invariant
                s@ == whole,
                t == strip_sign(whole),
                t == whole.skip(start as int),
                first_dot(t) is None,
                neg == is_negative(whole),
                start <= 1,
                n == whole.len(),
                tlen == n - start,
                tlen >= 1,
                j0 <= tlen,
                all_digits(t.take(j0 as int)),
                mag == capped_val(digits_val(t.take(j0 as int))),
            decreases tlen - j0,
        {
            let c = s.get_char(start + j0);
            assert(c == t[j0 as int]);
            let u = c as u32;
            if u < 48 || u > 57 {
                assert(!is_digit(t[j0 as int]));
                return None;
            }
            let d = (u - 48) as u128;
            proof {
                lemma_digits_val_push(t.take(j0 as int), c);
                assert(t.take(j0 as int).push(c) =~= t.take(j0 as int + 1));
            }
            let nm = 10 * mag + d;
            mag = if nm > 0x8000000000000000 {
                0x8000000000000001
            } else {
                nm
            };
            j0 = j0 + 1;
        }
        assert(t.take(tlen as int) =~= t);
        return Some((neg, mag, 0));
    }

    let ghost ip = t.take(dpos as int);
    let ghost fp = t.skip(dpos as int + 1);
    if tlen == 1 {
        // A bare point, with no digit on either side.
        return None;
    }
    let k = tlen - dpos - 1;

    // Digits before the point.
    let mut mag: u128 = 0;
    let mut j1: usize = 0;
    while j1 < dpos
        invariant
            s@ == whole,
            t == whole.skip(start as int),
            ip == t.take(dpos as int),
            fp == t.skip(dpos as int + 1),
            t == strip_sign(whole),
            neg == is_negative(whole),
            first_dot(t) == Some(dpos as int),
            start <= 1,
            n == whole.len(),
            tlen == n - start,
            dpos < tlen,
            k == tlen - dpos - 1,
            tlen >= 2,
            j1 <= dpos,
            all_digits(ip.take(j1 as int)),
            mag == capped_val(digits_val(ip.take(j1 as int))),
        decreases dpos - j1,
    {
        let c = s.get_char(start + j1);
        assert(c == ip[j1 as int]);
        let u = c as u32;
        if u < 48 || u > 57 {
            assert(!is_digit(ip[j1 as int]));
            return None;
        }
        let d = (u - 48) as u128;
        proof {
            lemma_digits_val_push(ip.take(j1 as int), c);
            assert(ip.take(j1 as int).push(c) =~= ip.take(j1 as int + 1));
        }
        let nm = 10 * mag + d;
        mag = if nm > 0x8000000000000000 {
            0x8000000000000001
        } else {
            nm
        };
        j1 = j1 + 1;
    }
    assert(ip.take(dpos as int) =~= ip);

    // Digits after the point.
    let mut j2: usize = 0;
    while j2 < k
        invariant
            s@ == whole,
            t == whole.skip(start as int),
            ip == t.take(dpos as int),
            fp == t.skip(dpos as int + 1),
            t == strip_sign(whole),
            neg == is_negative(whole),
            first_dot(t) == Some(dpos as int),
            all_digits(ip),
            start <= 1,
            n == whole.len(),
            tlen == n - start,
            dpos < tlen,
            k == tlen - dpos - 1,
            tlen >= 2,
            j2 <= k,
            k == fp.len(),
            all_digits(fp.take(j2 as int)),
            mag == capped_val(digits_val(ip + fp.take(j2 as int))),
        decreases k - j2,
    {
        let c = s.get_char(start + dpos + 1 + j2);
        assert(c == fp[j2 as int]);
        let u = c as u32;
        if u < 48 || u > 57 {
            assert(!is_digit(fp[j2 as int]));
            return None;
        }
        let d = (u - 48) as u128;
        proof {
            lemma_digits_val_push(ip + fp.take(j2 as int), c);
            assert((ip + fp.take(j2 as int)).push(c) =~= ip + fp.take(j2 as int + 1));
        }
        let nm = 10 * mag + d;
        mag = if nm > 0x8000000000000000 {
            0x8000000000000001
        } else {
            nm
        };
        j2 = j2 + 1;
    }
    assert(fp.take(k as int) =~= fp);
    assert(ip + fp.take(k as int) =~= ip + fp);
    proof {
        lemma_digits_val_concat(ip, fp);
    }
    Some((neg, mag, k))
}

/// Parses a signed integer exponent, its value clamped just beyond `bound`
/// in magnitude: beyond the clamp only the sign matters to the caller.
fn parse_exp_clamped(s: &str, bound: i128) -> (r: Option<i128>)
    requires
        0 <= bound <= 0x40000000000000000i128,
    ensures
        r is Some <==> spec_parse_int(s@) is Some,
        r matches Some(e) ==> e as int == clamp_mag(spec_parse_int(s@)->Some_0, bound as int),
{
    let ghost whole = s@;
    let n = s.unicode_len();
    let mut start: usize = 0;
    let mut neg = false;
    if n > 0 {
        let c0 = s.get_char(0);
        let u0 = c0 as u32;
        if u0 == 43 || u0 == 45 {
            start = 1;
            neg = u0 == 45;
        }
    }
    let ghost t = whole.skip(start as int);
    proof {
        assert(t =~= strip_sign(whole));
        assert(neg == is_negative(whole));
    }
    if n == start {
        return None;
    }
    let tlen = n - start;
    let mut a: i128 = 0;
    let mut j: usize = 0;
    while j < tlen
        invariant
            s@ == whole,
            t == strip_sign(whole),
            t == whole.skip(start as int),
            neg == is_negative(whole),
            start <= 1,
            n == whole.len(),
            tlen == n - start,
            0 <= bound <= 0x40000000000000000i128,
            j <= tlen,
            all_digits(t.take(j as int)),
            0 <= a <= bound + 1,
            a as int == (if digits_val(t.take(j as int)) > bound {
                bound + 1
            } else {
                digits_val(t.take(j as int)) as int
            }),
        decreases tlen - j,
    {
        let c = s.get_char(start + j);
        assert(c == t[j as int]);
        let u = c as u32;
        if u < 48 || u > 57 {
            assert(!is_digit(t[j as int]));
            return None;
        }
        let d = (u - 48) as i128;
        proof {
            lemma_digits_val_push(t.take(j as int), c);
            assert(t.take(j as int).push(c) =~= t.take(j as int + 1));
        }
        let nm = 10 * a + d;
        a = if nm > bound {
            bound + 1
        } else {
            nm
        };
        j = j + 1;
    }
    assert(t.take(tlen as int) =~= t);
    if neg {
        Some(-a)
    } else {
        Some(a)
    }
}

/// Parses a decimal numeral into an exact `Decimal`. Accepts what a float
/// parse accepts for finite values — an optional sign, digits with at most
/// one point, optionally an exponent — and rejects what exact decimals
/// cannot carry: the word forms (infinities, the not-a-number value), a
/// numerator beyond 64 bits, or more than `MAX_SCALE` fraction digits once
/// the exponent is applied.
pub fn parse_decimal_str(s: &str) -> (r: Option<Decimal>)
    ensures
        ({
            let p = spec_parse_decimal(s@);
            match r {
                Some(d) => d.wf() && p == Some((d.num as int, d.scale as nat)),
                None => p is None || (p matches Some(vk) && (vk.0 < i64::MIN || vk.0 > i64::MAX
                    || vk.1 > MAX_SCALE)),
            }
        }),
{
    let ghost whole = s@;
    let n = s.unicode_len();

    // Find the first exponent marker, if any.
    let mut epos: usize = 0;
    let mut efound = false;
    let mut j: usize = 0;
    while j < n
        invariant
            s@ == whole,
            n == whole.len(),
            j <= n,
            !efound ==> forall|jj: int|
                0 <= jj < j ==> (#[trigger] whole[jj]) as u32 != 101 && whole[jj] as u32 != 69,
            efound ==> epos < j && (whole[epos as int] as u32 == 101 || whole[epos as int] as u32
                == 69) && forall|jj: int|
                0 <= jj < epos ==> (#[trigger] whole[jj]) as u32 != 101 && whole[jj] as u32 != 69,
        decreases n - j,
    {
        if !efound {
            let c = s.get_char(j);
            let u = c as u32;
            if u == 101 || u == 69 {
                efound = true;
                epos = j;
            }
        }
        j = j + 1;
    }
    proof {
        if efound {
            lemma_first_exp_found(whole, epos as int);
        } else {
            lemma_first_exp_absent(whole);
        }
    }

    if !efound {
        return match parse_plain_parts(s) {
            Some(parts) => finish_decimal(parts.0, parts.1, parts.2, Ghost(spec_parse_plain(whole))),
            None => None,
        };
    }

    let mant = s.substring_char(0, epos);
    let exps = s.substring_char(epos + 1, n);
    proof {
        assert(mant@ =~= whole.take(epos as int));
        assert(exps@ =~= whole.skip(epos as int + 1));
    }

    let parts = match parse_plain_parts(mant) {
        Some(p) => p,
        None => {
            return None;
        },
    };
    let neg = parts.0;
    let mag = parts.1;
    let k = parts.2;
    let ghost vk = spec_parse_plain(mant@)->Some_0;
    let ghost mval = if vk.0 >= 0 {
        vk.0
    } else {
        -vk.0
    };

    let bound: i128 = k as i128 + 19;
    let e = match parse_exp_clamped(exps, bound) {
        Some(e) => e,
        None => {
            return None;
        },
    };
    let ghost v = spec_parse_int(exps@)->Some_0;
    let ghost fin = spec_apply_exp(vk.0, vk.1, v);

    if e >= k as i128 {
        // The exponent uses up all fraction digits and multiplies on.
        proof {
            assert(v >= k as int);
        }
        let ghost dd = (v - vk.1) as nat;
        if mag == 0 {
            proof {
                assert(vk.0 == 0);
                assert(vk.0 * pow10(dd) == 0) by (nonlinear_arith)
                    requires
                        vk.0 == 0,
                ;
                assert(fin == (0int, 0nat));
            }
            return Some(Decimal { num: 0, scale: 0 });
        }
        proof {
            assert(mval >= 1);
            lemma_pow10_pos(dd);
            assert(mval * pow10(dd) >= pow10(dd)) by (nonlinear_arith)
                requires
                    mval >= 1,
                    pow10(dd) >= 1,
            ;
            assert(mval * pow10(dd) >= mval) by (nonlinear_arith)
                requires
                    mval >= 1,
                    pow10(dd) >= 1,
            ;
        }
        let d = e - k as i128;
        if d > 18 {
            proof {
                assert(v - vk.1 >= 19);
                lemma_pow10_19();
                lemma_pow10_monotone(19, dd);
                assert(fin.0 == vk.0 * pow10(dd));
                if vk.0 >= 0 {
                    assert(fin.0 >= pow10(19));
                } else {
                    assert(vk.0 * pow10(dd) == -(mval * pow10(dd))) by (nonlinear_arith)
                        requires
                            vk.0 == -mval,
                    ;
                }
            }
            return None;
        }
        proof {
            assert(v == e as int);
            assert(dd == d as nat);
        }
        if mag > 0x8000000000000000 {
            proof {
                assert(mval > 0x8000000000000000);
                if vk.0 < 0 {
                    assert(vk.0 * pow10(dd) == -(mval * pow10(dd))) by (nonlinear_arith)
                        requires
                            vk.0 == -mval,
                    ;
                }
            }
            return None;
        }
        let factor = pow10_u64(d as u32);
        proof {
            lemma_pow10_19();
            lemma_pow10_monotone(d as nat, 18);
            assert(mag * (factor as u128) <= 0x8000000000000000u128 * 0xde0b6b3a7640000u128)
                by (nonlinear_arith)
                requires
                    mag <= 0x8000000000000000u128,
                    factor as u128 <= 0xde0b6b3a7640000u128,
            ;
            assert(mag as int * (factor as int) == mval * pow10(dd));
            if vk.0 < 0 {
                assert(vk.0 * pow10(dd) == -(mval * pow10(dd))) by (nonlinear_arith)
                    requires
                        vk.0 == -mval,
                ;
            }
        }
        let prod: u128 = mag * factor as u128;
        if neg {
            if prod < 0x8000000000000000 {
                Some(Decimal { num: -(prod as i64), scale: 0 })
            } else if prod == 0x8000000000000000 {
                Some(Decimal { num: i64::MIN, scale: 0 })
            } else {
                None
            }
        } else {
            if prod <= 0x7fffffffffffffff {
                Some(Decimal { num: prod as i64, scale: 0 })
            } else {
                None
            }
        }
    } else {
        // The exponent only shifts the scale.
        proof {
            assert(v < k as int);
            assert(fin == (vk.0, (vk.1 - v) as nat));
        }
        let ks: i128 = k as i128 - e;
        if ks > 15 {
            proof {
                assert(vk.1 - v >= ks);
            }
            return None;
        }
        proof {
            assert(v == e as int);
        }
        finish_decimal(neg, mag, ks as usize, Ghost(Some(fin)))
    }
}

/// Builds the decimal from parsed raw pieces, rejecting what the exact
/// representation cannot carry.
fn finish_decimal(neg: bool, mag: u128, k: usize, Ghost(p): Ghost<Option<(int, nat)>>) -> (r:
    Option<Decimal>)
    requires
        p matches Some(vk) && ({
            let a = if vk.0 >= 0 {
                vk.0
            } else {
                -vk.0
            };
            &&& mag == capped_val(a as nat)
            &&& k as nat == vk.1
            &&& (neg ==> vk.0 <= 0)
            &&& (!neg ==> vk.0 >= 0)
        }),
    ensures
        ({
            match r {
                Some(d) => d.wf() && p == Some((d.num as int, d.scale as nat)),
                None => p matches Some(vk) && (vk.0 < i64::MIN || vk.0 > i64::MAX || vk.1
                    > MAX_SCALE),
            }
        }),
{
    if k > 15 {
        return None;
    }
    let scale = k as u32;
    if neg {
        if mag < 0x8000000000000000 {
            Some(Decimal { num: -(mag as i64), scale })
        } else if mag == 0x8000000000000000 {
            Some(Decimal { num: i64::MIN, scale })
        } else {
            None
        }
    } else {
        if mag <= 0x7fffffffffffffff {
            Some(Decimal { num: mag as i64, scale })
        } else {
            None
        }
    }
}

} // verus!
