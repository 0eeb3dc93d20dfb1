//! Decimal integers as `str::parse` reads them.
use vstd::prelude::*;

verus! {

/// `c` is an ASCII decimal digit.
pub open spec fn is_digit(c: char) -> bool {
    '0' <= c && c <= '9'
}

/// Every character of `d` is a decimal digit.
pub open spec fn all_digits(d: Seq<char>) -> bool {
    forall|i: int| 0 <= i < d.len() ==> is_digit(#[trigger] d[i])
}

/// The value of the digit `c`.
pub open spec fn digit_value(c: char) -> nat {
    ((c as int) - ('0' as int)) as nat
}

/// The value of the decimal numeral `d` (most significant digit first).
pub open spec fn numeral_value(d: Seq<char>) -> nat
    decreases d.len(),
{
    if d.len() == 0 {
        0
    } else {
        numeral_value(d.drop_last()) * 10 + digit_value(d.last())
    }
}

/// `d` is a non-empty run of decimal digits.
pub open spec fn is_numeral(d: Seq<char>) -> bool {
    d.len() > 0 && all_digits(d)
}

/// The digits of an unsigned number: `s` without one leading `+`.
pub open spec fn unsigned_digits(s: Seq<char>) -> Seq<char> {
    if s.len() > 0 && s[0] == '+' {
        s.drop_first()
    } else {
        s
    }
}

/// What `s.parse::<u128>()` gives: an optional `+`, then one or more digits
/// whose value fits in a `u128`.
pub open spec fn parsed_u128(s: Seq<char>) -> Option<u128> {
    let d = unsigned_digits(s);
    if is_numeral(d) && numeral_value(d) <= u128::MAX {
        Some(numeral_value(d) as u128)
    } else {
        None
    }
}

/// What `s.parse::<i64>()` gives: an optional `+` or `-`, then one or more
/// digits, whose signed value fits in an `i64`.
pub open spec fn parsed_i64(s: Seq<char>) -> Option<i64> {
    if s.len() > 0 && s[0] == '-' {
        let d = s.drop_first();
        if is_numeral(d) && numeral_value(d) <= 0x8000_0000_0000_0000 {
            Some((-(numeral_value(d) as int)) as i64)
        } else {
            None
        }
    } else {
        let d = unsigned_digits(s);
        if is_numeral(d) && numeral_value(d) <= i64::MAX {
            Some(numeral_value(d) as i64)
        } else {
            None
        }
    }
}

/// A prefix of a numeral is worth no more than the whole.
pub proof fn lemma_numeral_prefix_le(d: Seq<char>, i: int)
    requires
        0 <= i <= d.len(),
    ensures
        numeral_value(d.take(i)) <= numeral_value(d),
    decreases d.len(),
{
    if i < d.len() {
        assert(d.drop_last().take(i) =~= d.take(i));
        lemma_numeral_prefix_le(d.drop_last(), i);
    } else {
        assert(d.take(i) =~= d);
    }
}

/// `d` written with `n` digits: zeros in front, as many as it takes.
pub open spec fn padded(d: Seq<char>, n: nat) -> Seq<char> {
    Seq::new(n, |k: int| if k < n - d.len() { '0' } else { d[k - (n - d.len())] })
}

/// Zeros in front change neither the digits' kind nor the value.
proof fn lemma_padded(d: Seq<char>, n: nat)
    requires
        d.len() <= n,
        all_digits(d),
    ensures
        all_digits(padded(d, n)),
        numeral_value(padded(d, n)) == numeral_value(d),
    decreases n,
{
    let p = padded(d, n);
    assert forall|k: int| 0 <= k < n implies is_digit(#[trigger] p[k]) by {
        if k >= n - d.len() {
            assert(is_digit(d[k - (n - d.len())]));
        }
    }
    if n > 0 {
        if d.len() == 0 {
            assert(p.drop_last() =~= padded(d, (n - 1) as nat));
            lemma_padded(d, (n - 1) as nat);
        } else {
            let e = d.drop_last();
            assert(p.drop_last() =~= padded(e, (n - 1) as nat));
            assert(all_digits(e)) by {
                assert forall|k: int| 0 <= k < e.len() implies is_digit(#[trigger] e[k]) by {
                    assert(e[k] == d[k]);
                }
            }
            lemma_padded(e, (n - 1) as nat);
        }
    } else {
        assert(d =~= Seq::<char>::empty());
    }
}

/// Whether every character of `v` is a digit and there is at least one.
pub fn is_numeral_chars(v: &Vec<char>) -> (r: bool)
    ensures
        r == is_numeral(v@),
{
    if v.len() == 0 {
        return false;
    }
    let mut i: usize = 0;
    while i < v.len()
        invariant
            i <= v.len(),
            forall|k: int| 0 <= k < i ==> is_digit(#[trigger] v@[k]),
        decreases v.len() - i,
    {
        if !('0' <= v[i] && v[i] <= '9') {
            return false;
        }
        i += 1;
    }
    true
}

/// Whether the numeral `a` is worth less than the numeral `b`, whatever
/// their size.
pub fn numeral_lt(a: &Vec<char>, b: &Vec<char>) -> (r: bool)
    requires
        all_digits(a@),
        all_digits(b@),
    ensures
        r == (numeral_value(a@) < numeral_value(b@)),
{
    let n: usize = if a.len() < b.len() {
        b.len()
    } else {
        a.len()
    };
    let ga: usize = n - a.len();
    let gb: usize = n - b.len();
    let ghost pa = padded(a@, n as nat);
    let ghost pb = padded(b@, n as nat);
    proof {
        lemma_padded(a@, n as nat);
        lemma_padded(b@, n as nat);
    }
    let mut order: i8 = 0;
    let mut k: usize = 0;
    while k < n
        invariant
            k <= n,
            ga == n - a.len(),
            gb == n - b.len(),
            pa == padded(a@, n as nat),
            pb == padded(b@, n as nat),
            all_digits(pa),
            all_digits(pb),
            order == 0 ==> numeral_value(pa.take(k as int)) == numeral_value(pb.take(k as int)),
            order < 0 ==> numeral_value(pa.take(k as int)) < numeral_value(pb.take(k as int)),
            order > 0 ==> numeral_value(pa.take(k as int)) > numeral_value(pb.take(k as int)),
        decreases n - k,
    {
        let da: char = if k < ga {
            '0'
        } else {
            a[k - ga]
        };
        let db: char = if k < gb {
            '0'
        } else {
            b[k - gb]
        };
        proof {
            assert(da == pa[k as int]);
            assert(db == pb[k as int]);
            assert(is_digit(pa[k as int]));
            assert(is_digit(pb[k as int]));
            assert(pa.take(k + 1).drop_last() =~= pa.take(k as int));
            assert(pb.take(k + 1).drop_last() =~= pb.take(k as int));
            assert(numeral_value(pa.take(k + 1)) == numeral_value(pa.take(k as int)) * 10
                + digit_value(da));
            assert(numeral_value(pb.take(k + 1)) == numeral_value(pb.take(k as int)) * 10
                + digit_value(db));
        }
        if order == 0 {
            if da < db {
                order = -1;
            } else if db < da {
                order = 1;
            }
        }
        k += 1;
    }
    proof {
        assert(pa.take(n as int) =~= pa);
        assert(pb.take(n as int) =~= pb);
    }
    order < 0
}

/// The value of the numeral `d`, if every character is a digit and the value
/// fits in a `u128`.
fn numeral_u128(d: &Vec<char>) -> (r: Option<u128>)
    ensures
        match r {
            Some(v) => all_digits(d@) && v == numeral_value(d@),
            None => !all_digits(d@) || numeral_value(d@) > u128::MAX,
        },
{
    let mut acc: u128 = 0;
    let mut i: usize = 0;
    while i < d.len()
        invariant
            i <= d.len(),
            all_digits(d@.take(i as int)),
            acc == numeral_value(d@.take(i as int)),
        decreases d.len() - i,
    {
        let c = d[i];
        assert(d@.take(i + 1).drop_last() =~= d@.take(i as int));
        if !('0' <= c && c <= '9') {
            return None;
        }
        let digit = ((c as u32) - ('0' as u32)) as u128;
        match acc.checked_mul(10) {
            Some(m) => match m.checked_add(digit) {
                Some(n) => {
                    acc = n;
                },
                None => {
                    proof {
                        if all_digits(d@) {
                            lemma_numeral_prefix_le(d@, i + 1);
                        }
                    }
                    return None;
                },
            },
            None => {
                proof {
                    if all_digits(d@) {
                        lemma_numeral_prefix_le(d@, i + 1);
                    }
                }
                return None;
            },
        }
        i += 1;
        assert(all_digits(d@.take(i as int))) by {
            assert forall|j: int| 0 <= j < i implies is_digit(#[trigger] d@.take(i as int)[j]) by {
                if j < i - 1 {
                    assert(d@.take(i as int)[j] == d@.take(i - 1)[j]);
                }
            }
        }
    }
    assert(d@.take(d@.len() as int) =~= d@);
    Some(acc)
}

/// `s.parse::<u128>()`.
pub fn parse_u128(s: &Vec<char>) -> (r: Option<u128>)
    ensures
        r == parsed_u128(s@),
{
    let digits = if s.len() > 0 && s[0] == '+' {
        let mut t: Vec<char> = Vec::new();
        let mut k: usize = 1;
        while k < s.len()
            invariant
                1 <= k <= s.len(),
                t@ == s@.subrange(1, k as int),
            decreases s.len() - k,
        {
            t.push(s[k]);
            k += 1;
        }
        assert(t@ =~= s@.drop_first());
        t
    } else {
        s.clone()
    };
    assert(digits@ == unsigned_digits(s@));
    if digits.len() == 0 {
        return None;
    }
    numeral_u128(&digits)
}

/// `s.parse::<i64>()`.
pub fn parse_i64(s: &Vec<char>) -> (r: Option<i64>)
    ensures
        r == parsed_i64(s@),
{
    let negative = s.len() > 0 && s[0] == '-';
    let plus = s.len() > 0 && s[0] == '+';
    let digits = if negative || plus {
        let mut t: Vec<char> = Vec::new();
        let mut k: usize = 1;
        while k < s.len()
            invariant
                1 <= k <= s.len(),
                t@ == s@.subrange(1, k as int),
            decreases s.len() - k,
        {
            t.push(s[k]);
            k += 1;
        }
        assert(t@ =~= s@.drop_first());
        t
    } else {
        s.clone()
    };
    if digits.len() == 0 {
        return None;
    }
    match numeral_u128(&digits) {
        None => None,
        Some(v) => {
            if negative {
                if v <= 0x8000_0000_0000_0000u128 {
                    Some((0i128 - (v as i128)) as i64)
                } else {
                    None
                }
            } else {
                if v <= 0x7fff_ffff_ffff_ffffu128 {
                    Some(v as i64)
                } else {
                    None
                }
            }
        },
    }
}

/// `x / 1000` as integer division in `i64` does it: toward zero.
pub open spec fn div_toward_zero(x: int, d: int) -> int {
    if x >= 0 {
        x / d
    } else {
        -((-x) / d)
    }
}

/// The digit character for `d` (0 to 9).
pub open spec fn digit_char(d: nat) -> char {
    (('0' as int) + d) as char
}

/// The decimal numeral of `n`, without leading zeros.
pub open spec fn decimal_digits(n: nat) -> Seq<char>
    decreases n,
{
    if n < 10 {
        seq![digit_char(n)]
    } else {
        decimal_digits(n / 10).push(digit_char(n % 10))
    }
}

/// How `i16`'s `Display` writes `n`: a `-` for negative numbers, then the
/// digits of its magnitude.
pub open spec fn decimal_i16(n: i16) -> Seq<char> {
    if n < 0 {
        seq!['-'] + decimal_digits((-(n as int)) as nat)
    } else {
        decimal_digits(n as nat)
    }
}

fn digits_u32(n: u32) -> (v: Vec<char>)
    ensures
        v@ == decimal_digits(n as nat),
    decreases n,
{
    let c = ((48u8 + (n % 10) as u8) as char);
    if n < 10 {
        let mut v: Vec<char> = Vec::new();
        v.push(c);
        assert(v@ =~= seq![digit_char(n as nat)]);
        v
    } else {
        let mut v = digits_u32(n / 10);
        v.push(c);
        v
    }
}

/// `n` written in decimal, as `i16`'s `Display` writes it.
pub fn format_i16(n: i16) -> (s: String)
    ensures
        s@ == decimal_i16(n),
{
    let magnitude: u32 = if n < 0 {
        (0i32 - (n as i32)) as u32
    } else {
        n as u32
    };
    let digits = digits_u32(magnitude);
    let mut v: Vec<char> = Vec::new();
    if n < 0 {
        v.push('-');
    }
    let mut i: usize = 0;
    let ghost start = v@;
    while i < digits.len()
        invariant
            i <= digits.len(),
            v@ == start + digits@.take(i as int),
        decreases digits.len() - i,
    {
        v.push(digits[i]);
        i += 1;
        assert(v@ =~= start + digits@.take(i as int));
    }
    assert(digits@.take(digits@.len() as int) =~= digits@);
    proof {
        if n < 0 {
            assert(start =~= seq!['-']);
        } else {
            assert(start =~= Seq::<char>::empty());
            assert(v@ =~= digits@);
        }
    }
    crate::text::string_of(&v)
}

} // verus!
