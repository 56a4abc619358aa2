use vstd::prelude::*;

use crate::decimal::{pow10, pow10_u64};

verus! {

/// The unicode scalar of `c`, with ASCII capitals folded to lower case.
pub open spec fn lower_scalar(c: char) -> int {
    if 65 <= c as u32 && c as u32 <= 90 {
        c as u32 + 32
    } else {
        c as u32 as int
    }
}

/// Character-wise equality up to ASCII case, as `str::eq_ignore_ascii_case`
/// decides it.
pub open spec fn eq_ignore_case(a: Seq<char>, b: Seq<char>) -> bool {
    a.len() == b.len() && forall|i: int|
        0 <= i < a.len() ==> lower_scalar(#[trigger] a[i]) == lower_scalar(b[i])
}

pub fn str_eq_ignore_ascii_case(a: &str, b: &str) -> (r: bool)
    ensures
        r == eq_ignore_case(a@, b@),
{
    let na = a.unicode_len();
    let nb = b.unicode_len();
    if na != nb {
        return false;
    }
    let mut i: usize = 0;
    while i < na
        invariant
            na == a@.len(),
            na == b@.len(),
            i <= na,
            forall|j: int| 0 <= j < i ==> lower_scalar(#[trigger] a@[j]) == lower_scalar(b@[j]),
        decreases na - i,
    {
        let ca = a.get_char(i);
        let cb = b.get_char(i);
        let mut ua = ca as u32;
        let mut ub = cb as u32;
        if 65 <= ua && ua <= 90 {
            ua = ua + 32;
        }
        if 65 <= ub && ub <= 90 {
            ub = ub + 32;
        }
        if ua != ub {
            return false;
        }
        i = i + 1;
    }
    true
}

/// The texts of an optional string.
pub open spec fn opt_text_view(o: Option<String>) -> Option<Seq<char>> {
    match o {
        Some(s) => Some(s@),
        None => None,
    }
}

/// Plain character-wise string equality.
pub fn str_eq(a: &str, b: &str) -> (r: bool)
    ensures
        r == (a@ == b@),
{
    let na = a.unicode_len();
    let nb = b.unicode_len();
    if na != nb {
        proof {
            assert(a@.len() != b@.len());
        }
        return false;
    }
    let mut i: usize = 0;
    while i < na
        invariant
            na == a@.len(),
            na == b@.len(),
            i <= na,
            forall|j: int| 0 <= j < i ==> #[trigger] a@[j] == b@[j],
        decreases na - i,
    {
        let ca = a.get_char(i);
        let cb = b.get_char(i);
        if ca != cb {
            return false;
        }
        i = i + 1;
    }
    proof {
        assert(a@ =~= b@);
    }
    true
}

pub open spec fn digit_char(d: nat) -> char {
    if d == 0 {
        '0'
    } else if d == 1 {
        '1'
    } else if d == 2 {
        '2'
    } else if d == 3 {
        '3'
    } else if d == 4 {
        '4'
    } else if d == 5 {
        '5'
    } else if d == 6 {
        '6'
    } else if d == 7 {
        '7'
    } else if d == 8 {
        '8'
    } else {
        '9'
    }
}

/// Decimal digit string of `n`, most significant digit first, no sign.
pub open spec fn spec_u64_digits(n: nat) -> Seq<char>
    decreases n,
{
    if n < 10 {
        seq![digit_char(n)]
    } else {
        spec_u64_digits(n / 10).push(digit_char(n % 10))
    }
}

/// Decimal digit string of a signed value.
pub open spec fn spec_i64_digits(v: int) -> Seq<char> {
    if v < 0 {
        seq!['-'] + spec_u64_digits((-v) as nat)
    } else {
        spec_u64_digits(v as nat)
    }
}

fn digit_str(d: u64) -> (r: &'static str)
    requires
        d < 10,
    ensures
        r@ == seq![digit_char(d as nat)],
{
    proof {
        reveal_strlit("0");
        reveal_strlit("1");
        reveal_strlit("2");
        reveal_strlit("3");
        reveal_strlit("4");
        reveal_strlit("5");
        reveal_strlit("6");
        reveal_strlit("7");
        reveal_strlit("8");
        reveal_strlit("9");
    }
    if d == 0 {
        "0"
    } else if d == 1 {
        "1"
    } else if d == 2 {
        "2"
    } else if d == 3 {
        "3"
    } else if d == 4 {
        "4"
    } else if d == 5 {
        "5"
    } else if d == 6 {
        "6"
    } else if d == 7 {
        "7"
    } else if d == 8 {
        "8"
    } else {
        "9"
    }
}

pub fn u64_to_string(n: u64) -> (s: String)
    ensures
        s@ == spec_u64_digits(n as nat),
    decreases n,
{
    if n < 10 {
        let d = digit_str(n);
        d.to_owned()
    } else {
        let mut s = u64_to_string(n / 10);
        let d = digit_str(n % 10);
        s.append(d);
        proof {
            assert(spec_u64_digits((n / 10) as nat).push(digit_char((n % 10) as nat))
                =~= spec_u64_digits((n / 10) as nat) + seq![digit_char((n % 10) as nat)]);
        }
        s
    }
}

pub fn u32_to_string(n: u32) -> (s: String)
    ensures
        s@ == spec_u64_digits(n as nat),
{
    u64_to_string(n as u64)
}

pub fn usize_to_string(n: usize) -> (s: String)
    ensures
        s@ == spec_u64_digits(n as nat),
{
    u64_to_string(n as u64)
}

pub fn i64_to_string(v: i64) -> (s: String)
    ensures
        s@ == spec_i64_digits(v as int),
{
    if v >= 0 {
        u64_to_string(v as u64)
    } else {
        proof {
            reveal_strlit("-");
        }
        let mut s = String::from_str("-");
        let mag = if v == i64::MIN {
            0x8000000000000000u64
        } else {
            (-v) as u64
        };
        let digits = u64_to_string(mag);
        s.append(digits.as_str());
        proof {
            assert(s@ =~= seq!['-'] + spec_u64_digits(mag as nat));
        }
        s
    }
}

pub fn i32_to_string(v: i32) -> (s: String)
    ensures
        s@ == spec_i64_digits(v as int),
{
    i64_to_string(v as i64)
}


// DECIMAL RENDERING

/// The fraction digits of `fr`, padded on the left to `k` digits.
pub open spec fn frac_digits(fr: nat, k: nat) -> Seq<char>
    decreases k,
{
    if k == 0 {
        Seq::empty()
    } else {
        frac_digits(fr / 10, (k - 1) as nat).push(digit_char(fr % 10))
    }
}

/// Trailing zeros removed.
pub open spec fn trim_zeros(s: Seq<char>) -> Seq<char>
    decreases s.len(),
{
    if s.len() > 0 && s.last() == '0' {
        trim_zeros(s.drop_last())
    } else {
        s
    }
}

/// The plain decimal rendering of `num / 10^scale`: sign, integer part,
/// and the fraction digits with trailing zeros trimmed (no point when the
/// fraction is zero).
pub open spec fn spec_decimal_digits(num: int, scale: nat) -> Seq<char> {
    let mag = (if num < 0 { -num } else { num }) as nat;
    let den = pow10(scale);
    let ip = mag / den;
    let fr = mag % den;
    let f = trim_zeros(frac_digits(fr, scale));
    (if num < 0 { seq!['-'] } else { Seq::<char>::empty() }) + spec_u64_digits(ip) + (if f.len()
        == 0 { Seq::<char>::empty() } else { seq!['.'] + f })
}

proof fn lemma_frac_digits_len(fr: nat, k: nat)
    ensures
        frac_digits(fr, k).len() == k,
    decreases k,
{
    if k > 0 {
        lemma_frac_digits_len(fr / 10, (k - 1) as nat);
    }
}

proof fn lemma_trim_step(fr: nat, k: nat)
    requires
        k > 0,
        fr % 10 == 0,
    ensures
        trim_zeros(frac_digits(fr, k)) == trim_zeros(frac_digits(fr / 10, (k - 1) as nat)),
{
    let s = frac_digits(fr / 10, (k - 1) as nat);
    assert(frac_digits(fr, k) == s.push(digit_char(0)));
    assert(s.push(digit_char(0)).last() == '0');
    assert(s.push(digit_char(0)).drop_last() =~= s);
}

proof fn lemma_trim_done(fr: nat, k: nat)
    requires
        k == 0 || fr % 10 != 0,
    ensures
        trim_zeros(frac_digits(fr, k)) == frac_digits(fr, k),
{
    if k > 0 {
        lemma_frac_digits_len(fr / 10, (k - 1) as nat);
        assert(frac_digits(fr, k).last() == digit_char(fr % 10));
        assert(fr % 10 >= 1 && fr % 10 <= 9);
        assert(digit_char(fr % 10) != '0');
    }
}

fn frac_string(fr: u64, k: u32) -> (s: String)
    ensures
        s@ == frac_digits(fr as nat, k as nat),
    decreases k,
{
    if k == 0 {
        String::new()
    } else {
        let mut s = frac_string(fr / 10, k - 1);
        let d = digit_str(fr % 10);
        s.append(d);
        proof {
            assert(frac_digits((fr / 10) as nat, (k - 1) as nat).push(digit_char((fr % 10) as nat))
                =~= frac_digits((fr / 10) as nat, (k - 1) as nat) + seq![
                digit_char((fr % 10) as nat),
            ]);
        }
        s
    }
}

/// Renders a decimal in plain notation, as its value reads: `0.95`, `-0.5`,
/// `1`.
pub fn decimal_to_string(d: &crate::decimal::Decimal) -> (s: String)
    requires
        d.wf(),
    ensures
        s@ == spec_decimal_digits(d.num as int, d.scale as nat),
{
    let den = pow10_u64(d.scale);
    proof {
        crate::decimal::lemma_pow10_pos(d.scale as nat);
    }
    let mag: u64 = if d.num >= 0 {
        d.num as u64
    } else if d.num == i64::MIN {
        0x8000000000000000u64
    } else {
        (-d.num) as u64
    };
    let ip = mag / den;
    let fr = mag % den;

    let mut fr2 = fr;
    let mut k2 = d.scale;
    proof {
        assert(trim_zeros(frac_digits(fr as nat, d.scale as nat)) == trim_zeros(
            frac_digits(fr2 as nat, k2 as nat),
        ));
    }
    while k2 > 0 && fr2 % 10 == 0
        invariant
            trim_zeros(frac_digits(fr as nat, d.scale as nat)) == trim_zeros(
                frac_digits(fr2 as nat, k2 as nat),
            ),
        decreases k2,
    {
        proof {
            lemma_trim_step(fr2 as nat, k2 as nat);
        }
        fr2 = fr2 / 10;
        k2 = k2 - 1;
    }
    proof {
        lemma_trim_done(fr2 as nat, k2 as nat);
        lemma_frac_digits_len(fr2 as nat, k2 as nat);
    }

    let mut s = if d.num < 0 {
        proof {
            reveal_strlit("-");
        }
        String::from_str("-")
    } else {
        String::new()
    };
    let ips = u64_to_string(ip);
    s.append(ips.as_str());
    if k2 > 0 {
        s.append(".");
        let fs = frac_string(fr2, k2);
        s.append(fs.as_str());
        proof {
            reveal_strlit(".");
            assert(s@ =~= spec_decimal_digits(d.num as int, d.scale as nat));
        }
    } else {
        proof {
            assert(s@ =~= spec_decimal_digits(d.num as int, d.scale as nat));
        }
    }
    s
}

} // verus!
