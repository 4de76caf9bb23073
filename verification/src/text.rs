//! Decimal text of integers and fixed-point prices, and string helpers.

use vstd::prelude::*;
use vstd::string::StrSliceExecFns;
use vstd::string::StringExecFns;

use crate::types::PRICE_SCALE;

verus! {

/// The decimal digit character of `d` (0..=9).
pub open spec fn digit_char(d: int) -> char {
    (d + 48) as char
}

/// Decimal text of a natural number, without leading zeros.
pub open spec fn nat_text(n: nat) -> Seq<char>
    decreases n,
{
    if n < 10 {
        seq![digit_char(n as int)]
    } else {
        nat_text(n / 10).push(digit_char((n % 10) as int))
    }
}

/// Decimal text of an integer, with a leading `-` when negative.
pub open spec fn int_text(n: int) -> Seq<char> {
    if n < 0 {
        seq!['-'] + nat_text((-n) as nat)
    } else {
        nat_text(n as nat)
    }
}

/// The `k` lowest decimal digits of `f`, zero-padded on the left.
pub open spec fn padded_digits(f: nat, k: nat) -> Seq<char>
    decreases k,
{
    if k == 0 {
        Seq::empty()
    } else {
        padded_digits(f / 10, (k - 1) as nat).push(digit_char((f % 10) as int))
    }
}

/// The fraction digits of `f / 10^k` (`0 < f < 10^k`) without trailing zeros.
pub open spec fn fraction_text(f: nat, k: nat) -> Seq<char>
    decreases k,
{
    if k > 0 && f % 10 == 0 {
        fraction_text(f / 10, (k - 1) as nat)
    } else {
        padded_digits(f, k)
    }
}

/// Text of a fixed-point price (scale `PRICE_SCALE` = 10^8): an optional `-`,
/// the whole part, and, when the fraction is not zero, `.` and the fraction
/// digits without trailing zeros. `150_10000000` is `"150.1"`, `2 * PRICE_SCALE` is `"2"`.
pub open spec fn price_text(p: int) -> Seq<char> {
    let a = if p < 0 { -p } else { p };
    let sign = if p < 0 { seq!['-'] } else { Seq::<char>::empty() };
    let whole = nat_text((a / PRICE_SCALE as int) as nat);
    let frac = a % PRICE_SCALE as int;
    if frac == 0 {
        sign + whole
    } else {
        sign + whole + seq!['.'] + fraction_text(frac as nat, 8)
    }
}

/// The one-character string of a decimal digit.
pub fn digit_str(d: u64) -> (s: &'static str)
    requires
        d < 10,
    ensures
        s@ == seq![digit_char(d as int)],
{
    proof {
        reveal_strlit("0");
        reveal_strlit("1");
        reveal_strlit("2");
        reveal_strlit("3");
        reveal_strlit("4");
        reveal_strlit("5");
        reveal_strlit("6");
        reveal_strlit("7");
        reveal_strlit("8");
        reveal_strlit("9");
    }
    let s = if d == 0 {
        "0"
    } else if d == 1 {
        "1"
    } else if d == 2 {
        "2"
    } else if d == 3 {
        "3"
    } else if d == 4 {
        "4"
    } else if d == 5 {
        "5"
    } else if d == 6 {
        "6"
    } else if d == 7 {
        "7"
    } else if d == 8 {
        "8"
    } else {
        "9"
    };
    assert(s@ =~= seq![digit_char(d as int)]);
    s
}

/// Decimal text of an unsigned integer (what `n.to_string()` gives).
pub fn u64_text(n: u64) -> (s: String)
    ensures
        s@ == nat_text(n as nat),
    decreases n,
{
    if n < 10 {
        digit_str(n).to_string()
    } else {
        let mut s = u64_text(n / 10);
        s.append(digit_str(n % 10));
        s
    }
}

/// Decimal text of a signed integer (what `n.to_string()` gives).
pub fn i64_text(n: i64) -> (s: String)
    ensures
        s@ == int_text(n as int),
{
    if n < 0 {
        let m: u64 = ((-(n + 1)) as u64) + 1;
        let mut s = "-".to_string();
        let t = u64_text(m);
        s.append(t.as_str());
        proof {
            reveal_strlit("-");
            assert(s@ =~= seq!['-'] + nat_text((-n) as nat));
        }
        s
    } else {
        u64_text(n as u64)
    }
}

/// The `k` lowest decimal digits of `f`, zero-padded.
fn padded_text(f: u64, k: u64) -> (s: String)
    ensures
        s@ == padded_digits(f as nat, k as nat),
    decreases k,
{
    if k == 0 {
        proof {
            reveal_strlit("");
            assert(""@ =~= Seq::<char>::empty());
        }
        "".to_string()
    } else {
        let mut s = padded_text(f / 10, k - 1);
        s.append(digit_str(f % 10));
        s
    }
}

/// Text of a fixed-point price (see `price_text`).
pub fn format_price(price: i64) -> (s: String)
    ensures
        s@ == price_text(price as int),
{
    let a: u64 = if price < 0 { ((-(price + 1)) as u64) + 1 } else { price as u64 };
    let scale: u64 = PRICE_SCALE as u64;
    let whole = u64_text(a / scale);
    let frac = a % scale;
    let mut s = if price < 0 { "-".to_string() } else { "".to_string() };
    proof {
        reveal_strlit("-");
        reveal_strlit("");
        reveal_strlit(".");
    }
    let ghost sign = if price < 0 { seq!['-'] } else { Seq::<char>::empty() };
    assert(s@ =~= sign);
    s.append(whole.as_str());
    if frac != 0 {
        let mut f = frac;
        let mut k: u64 = 8;
        while k > 0 && f % 10 == 0
            invariant
                k <= 8,
                fraction_text(frac as nat, 8) == fraction_text(f as nat, k as nat),
            decreases k,
        {
            f = f / 10;
            k = k - 1;
        }
        s.append(".");
        let t = padded_text(f, k);
        s.append(t.as_str());
        assert(s@ =~= price_text(price as int));
    } else {
        assert(s@ =~= price_text(price as int));
    }
    s
}

/// Whether two strings hold the same characters.
pub fn str_eq(a: &str, b: &str) -> (r: bool)
    ensures
        r == (a@ == b@),
{
    let n = a.unicode_len();
    let m = b.unicode_len();
    if n != m {
        return false;
    }
    let mut i: usize = 0;
    while i < n
        invariant
            n == a@.len(),
            m == b@.len(),
            n == m,
            i <= n,
            forall|j: int| 0 <= j < i ==> a@[j] == b@[j],
        decreases n - i,
    {
        if a.get_char(i) != b.get_char(i) {
            return false;
        }
        i = i + 1;
    }
    assert(a@ =~= b@);
    true
}


/// Law: a whole price is written as its integer, without a fraction.
pub proof fn law_whole_price_text(w: int)
    ensures
        price_text(w * PRICE_SCALE as int) == int_text(w),
{
    let s = PRICE_SCALE as int;
    let p = w * s;
    let m = if w < 0 { -w } else { w };
    assert(if p < 0 { -p } else { p } == m * s) by (nonlinear_arith)
        requires
            p == w * s,
            s > 0,
            m == (if w < 0 { -w } else { w }),
    ;
    vstd::arithmetic::div_mod::lemma_mod_multiples_basic(m, s);
    vstd::arithmetic::div_mod::lemma_div_multiples_vanish(m, s);
    assert(s * m == m * s) by (nonlinear_arith);
    assert((p < 0) == (w < 0)) by (nonlinear_arith)
        requires
            p == w * s,
            s > 0,
    ;
}
} // verus!
