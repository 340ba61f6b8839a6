//! Natural numbers of any size, for exact comparisons of long products.

use vstd::prelude::*;

verus! {

/// The number some digits stand for, least significant first, to the base of
/// 2^32.
pub open spec fn number(digits: Seq<u32>) -> nat
    decreases digits.len(),
{
    if digits.len() == 0 {
        0
    } else {
        digits[0] as nat + 0x1_0000_0000 * number(digits.skip(1))
    }
}

/// A natural number.
pub struct Natural {
    digits: Vec<u32>,
}

impl View for Natural {
    type V = nat;

    closed spec fn view(&self) -> nat {
        number(self.digits@)
    }
}

proof fn lemma_prefixed(digit: u32, rest: Seq<u32>)
    ensures
        number(seq![digit] + rest) == digit as nat + 0x1_0000_0000 * number(rest),
{
    assert((seq![digit] + rest).skip(1) =~= rest);
}

/// `digit` in front of `rest`: the least significant place.
fn prefixed(digit: u32, rest: Vec<u32>) -> (r: Vec<u32>)
    ensures
        number(r@) == digit as nat + 0x1_0000_0000 * number(rest@),
{
    let mut r: Vec<u32> = rest;
    r.insert(0, digit);
    proof {
        assert(r@ =~= seq![digit] + rest@);
        lemma_prefixed(digit, rest@);
    }
    r
}

/// The digit at `i`, 0 past the end.
fn digit(a: &Vec<u32>, i: usize) -> (r: u32)
    ensures
        r == (if i < a@.len() {
            a@[i as int]
        } else {
            0
        }),
{
    if i < a.len() {
        a[i]
    } else {
        0
    }
}

/// The number of the digits from `i` on.
spec fn tail(a: Seq<u32>, i: int) -> nat {
    if i < a.len() {
        number(a.skip(i))
    } else {
        0
    }
}

proof fn lemma_tail(a: Seq<u32>, i: int)
    requires
        0 <= i,
    ensures
        tail(a, i) == (if i < a.len() {
            a[i] as nat
        } else {
            0
        }) + 0x1_0000_0000 * tail(a, i + 1),
        tail(a, 0) == number(a),
{
    assert(a.skip(0) =~= a);
    if i < a.len() {
        assert(a.skip(i).skip(1) =~= a.skip(i + 1));
        if i + 1 == a.len() {
            assert(number(a.skip(i + 1)) == 0);
        }
    }
}

/// The digits of `a` from `i` on, times `k`, plus `carry`.
fn scaled_from(a: &Vec<u32>, i: usize, k: u32, carry: u32) -> (r: Vec<u32>)
    requires
        i <= a@.len(),
    ensures
        number(r@) == tail(a@, i as int) * k + carry,
    decreases a@.len() - i,
{
    proof {
        lemma_tail(a@, i as int);
    }
    if i >= a.len() {
        let r: Vec<u32> = prefixed(carry, Vec::new());
        proof {
            assert(0 * k == 0) by (nonlinear_arith);
        }
        return r;
    }
    proof {
        assert(a@[i as int] * k <= 0xffff_ffff * 0xffff_ffff) by (nonlinear_arith)
            requires
                0 <= a@[i as int] <= 0xffff_ffff,
                0 <= k <= 0xffff_ffff,
        ;
    }
    let t: u64 = a[i] as u64 * k as u64 + carry as u64;
    proof {
        assert(t / 0x1_0000_0000 <= 0xffff_ffff);
    }
    let rest: Vec<u32> = scaled_from(a, i + 1, k, (t / 0x1_0000_0000) as u32);
    let r: Vec<u32> = prefixed((t % 0x1_0000_0000) as u32, rest);
    proof {
        let d = a@[i as int] as int;
        let v = tail(a@, i + 1) as int;
        assert((d + 0x1_0000_0000 * v) * k == d * k + 0x1_0000_0000 * (v * k)) by (nonlinear_arith);
    }
    r
}

/// The digits of `a` and `b` from `i` on, added, plus `carry`.
fn sum_from(a: &Vec<u32>, b: &Vec<u32>, i: usize, carry: u32) -> (r: Vec<u32>)
    requires
        carry <= 1,
        i <= a@.len() || i <= b@.len(),
    ensures
        number(r@) == tail(a@, i as int) + tail(b@, i as int) + carry,
    decreases a@.len() + b@.len() + 1 - i,
{
    proof {
        lemma_tail(a@, i as int);
        lemma_tail(b@, i as int);
    }
    if i >= a.len() && i >= b.len() {
        return prefixed(carry, Vec::new());
    }
    let t: u64 = digit(a, i) as u64 + digit(b, i) as u64 + carry as u64;
    let rest: Vec<u32> = sum_from(a, b, i + 1, (t / 0x1_0000_0000) as u32);
    prefixed((t % 0x1_0000_0000) as u32, rest)
}

/// `a` times the digits of `b` from `i` on.
fn product_from(a: &Vec<u32>, b: &Vec<u32>, i: usize) -> (r: Vec<u32>)
    requires
        i <= b@.len(),
    ensures
        number(r@) == number(a@) * tail(b@, i as int),
    decreases b@.len() - i,
{
    proof {
        lemma_tail(b@, i as int);
        lemma_tail(a@, 0);
    }
    if i >= b.len() {
        let r: Vec<u32> = Vec::new();
        proof {
            assert(number(a@) * 0 == 0) by (nonlinear_arith);
        }
        return r;
    }
    let high: Vec<u32> = prefixed(0, product_from(a, b, i + 1));
    let low: Vec<u32> = scaled_from(a, 0, b[i], 0);
    proof {
        lemma_tail(low@, 0);
        lemma_tail(high@, 0);
        let n = number(a@) as int;
        let d = b@[i as int] as int;
        let v = tail(b@, i + 1) as int;
        assert(n * (d + 0x1_0000_0000 * v) == n * d + 0x1_0000_0000 * (n * v)) by (nonlinear_arith);
    }
    sum_from(&low, &high, 0, 0)
}

/// Which of the digits of `a` and of `b` from `i` on stand for more: a positive
/// result for `a`, a negative one for `b`.
fn balance_from(a: &Vec<u32>, b: &Vec<u32>, i: usize) -> (r: i8)
    requires
        i <= a@.len() || i <= b@.len(),
    ensures
        r > 0 <==> tail(a@, i as int) > tail(b@, i as int),
        r < 0 <==> tail(a@, i as int) < tail(b@, i as int),
    decreases a@.len() + b@.len() + 1 - i,
{
    proof {
        lemma_tail(a@, i as int);
        lemma_tail(b@, i as int);
    }
    if i >= a.len() && i >= b.len() {
        return 0;
    }
    let above: i8 = balance_from(a, b, i + 1);
    if above != 0 {
        above
    } else if digit(a, i) > digit(b, i) {
        1
    } else if digit(a, i) < digit(b, i) {
        -1
    } else {
        0
    }
}

impl Natural {
    /// The natural number `n`.
    pub fn of(n: u128) -> (r: Self)
        ensures
            r@ == n,
    {
        let low: Vec<u32> = Vec::new();
        let n1: u128 = n / 0x1_0000_0000;
        let n2: u128 = n1 / 0x1_0000_0000;
        let n3: u128 = n2 / 0x1_0000_0000;
        proof {
            assert(n3 <= 0xffff_ffff);
        }
        let d3: Vec<u32> = prefixed(n3 as u32, low);
        let d2: Vec<u32> = prefixed((n2 % 0x1_0000_0000) as u32, d3);
        let d1: Vec<u32> = prefixed((n1 % 0x1_0000_0000) as u32, d2);
        let d0: Vec<u32> = prefixed((n % 0x1_0000_0000) as u32, d1);
        Self { digits: d0 }
    }

    /// The product of two numbers.
    pub fn times(&self, other: &Natural) -> (r: Self)
        ensures
            r@ == self@ * other@,
    {
        proof {
            lemma_tail(other.digits@, 0);
        }
        Self { digits: product_from(&self.digits, &other.digits, 0) }
    }

    /// Whether this number is at least `other`.
    pub fn at_least(&self, other: &Natural) -> (r: bool)
        ensures
            r == (self@ >= other@),
    {
        proof {
            lemma_tail(self.digits@, 0);
            lemma_tail(other.digits@, 0);
        }
        balance_from(&self.digits, &other.digits, 0) >= 0
    }
}

} // verus!
