//! Token amounts of any size: natural numbers held as base-2^32 digits,
//! least significant first, with no zero digit on top.
use vstd::prelude::*;

verus! {

/// The digit base.
pub open spec fn radix() -> nat {
    0x1_0000_0000
}

/// `radix()` to the power `i`.
pub open spec fn radix_pow(i: nat) -> nat
    decreases i,
{
    if i == 0 {
        1
    } else {
        radix() * radix_pow((i - 1) as nat)
    }
}

/// The number that little-endian base-2^32 digits stand for.
pub open spec fn digits_val(s: Seq<u32>) -> nat
    decreases s.len(),
{
    if s.len() == 0 {
        0
    } else {
        digits_val(s.drop_last()) + s.last() as nat * radix_pow((s.len() - 1) as nat)
    }
}

/// The `i`-th digit, zero beyond the end.
pub open spec fn digit_at(s: Seq<u32>, i: int) -> nat {
    if 0 <= i < s.len() {
        s[i] as nat
    } else {
        0
    }
}

proof fn lemma_radix_pow_pos(i: nat)
    ensures
        radix_pow(i) >= 1,
    decreases i,
{
    if i > 0 {
        lemma_radix_pow_pos((i - 1) as nat);
        assert(radix() * radix_pow((i - 1) as nat) >= 1) by (nonlinear_arith)
            requires
                radix_pow((i - 1) as nat) >= 1,
                radix() == 0x1_0000_0000,
        ;
    }
}

/// Digits are worth less than the next place.
proof fn lemma_digits_bound(s: Seq<u32>)
    ensures
        digits_val(s) < radix_pow(s.len()),
    decreases s.len(),
{
    if s.len() > 0 {
        let n = (s.len() - 1) as nat;
        lemma_digits_bound(s.drop_last());
        assert(s.drop_last().len() == n);
        let v = digits_val(s.drop_last());
        let d = s.last() as nat;
        let p = radix_pow(n);
        assert(v + d * p < radix() * p) by (nonlinear_arith)
            requires
                v < p,
                d <= 0xffff_ffff,
                radix() == 0x1_0000_0000,
        ;
    }
}

/// The value of the first `i + 1` digits adds digit `i` at its place.
proof fn lemma_take_step(s: Seq<u32>, i: int)
    requires
        0 <= i < s.len(),
    ensures
        digits_val(s.take(i + 1)) == digits_val(s.take(i)) + s[i] as nat * radix_pow(i as nat),
{
    assert(s.take(i + 1).drop_last() =~= s.take(i));
}

/// Zero digits on top add nothing.
proof fn lemma_push_zero(s: Seq<u32>)
    ensures
        digits_val(s.push(0)) == digits_val(s),
{
    let t = s.push(0);
    assert(t.drop_last() =~= s);
    assert(t.last() == 0);
    assert(digits_val(t) == digits_val(t.drop_last()) + t.last() as nat * radix_pow(
        (t.len() - 1) as nat,
    ));
}

/// Zero-extending digits to a length keeps their value.
proof fn lemma_padded(s: Seq<u32>, n: int)
    requires
        n >= s.len(),
    ensures
        digits_val(padded(s, n)) == digits_val(s),
        padded(s, n).len() == n,
        forall|j: int| 0 <= j < n ==> #[trigger] padded(s, n)[j] as nat == digit_at(s, j),
    decreases n - s.len(),
{
    if n > s.len() {
        lemma_padded(s, n - 1);
        assert(padded(s, n) =~= padded(s, n - 1).push(0));
        lemma_push_zero(padded(s, n - 1));
    } else {
        assert(padded(s, n) =~= s);
    }
}

/// `s` zero-extended to length `n`.
pub open spec fn padded(s: Seq<u32>, n: int) -> Seq<u32> {
    Seq::new(n as nat, |j: int| if j < s.len() { s[j] } else { 0u32 })
}

/// An amount of tokens: a natural number of any size.
#[derive(PartialEq, Eq, Debug)]
pub struct Amount {
    digits: Vec<u32>,
}

impl View for Amount {
    type V = nat;

    closed spec fn view(&self) -> nat {
        digits_val(self.digits@)
    }
}

impl Amount {
    /// No zero digit on top, so that equal amounts have equal digits.
    #[verifier::type_invariant]
    spec fn normalized(self) -> bool {
        self.digits@.len() == 0 || self.digits@.last() != 0
    }

    /// The amount that base-2^32 digits (least significant first) stand for.
    pub fn from_digits(digits: Vec<u32>) -> (res: Amount)
        ensures
            res@ == digits_val(digits@),
    {
        let ghost v = digits_val(digits@);
        let mut d = digits;
        while d.len() > 0 && d[d.len() - 1] == 0
            invariant
                digits_val(d@) == v,
            decreases d@.len(),
        {
            let ghost before = d@;
            d.pop();
            proof {
                assert(before =~= d@.push(0));
                lemma_push_zero(d@);
            }
        }
        Amount { digits: d }
    }

    /// The digits of the amount, base 2^32, least significant first.
    pub fn to_digits(&self) -> (res: Vec<u32>)
        ensures
            digits_val(res@) == self@,
    {
        let mut out: Vec<u32> = Vec::new();
        let mut i: usize = 0;
        while i < self.digits.len()
            invariant
                i <= self.digits@.len(),
                out@ =~= self.digits@.take(i as int),
            decreases self.digits@.len() - i,
        {
            out.push(self.digits[i]);
            i = i + 1;
        }
        proof {
            assert(self.digits@.take(self.digits@.len() as int) =~= self.digits@);
        }
        out
    }

    /// Zero.
    pub fn zero() -> (res: Amount)
        ensures
            res@ == 0,
    {
        Amount::from_digits(Vec::new())
    }

    /// The amount `x`.
    pub fn from_u64(x: u64) -> (res: Amount)
        ensures
            res@ == x,
    {
        let lo: u32 = (x % 0x1_0000_0000) as u32;
        let hi: u32 = (x / 0x1_0000_0000) as u32;
        let mut v: Vec<u32> = Vec::new();
        v.push(lo);
        v.push(hi);
        proof {
            let s = v@;
            assert(s.drop_last().drop_last() =~= Seq::<u32>::empty());
            assert(radix_pow(1) == radix()) by {
                assert(radix_pow(0) == 1);
            }
            let t = s.drop_last();
            assert(t.len() == 1 && t.last() == lo);
            assert(t.drop_last() =~= Seq::<u32>::empty());
            assert(digits_val(t.drop_last()) == 0);
            assert(radix_pow(0) == 1);
            assert(digits_val(t) == digits_val(t.drop_last()) + t.last() as nat * radix_pow(0));
            assert(digits_val(s) == digits_val(t) + hi as nat * radix_pow(1));
        }
        Amount::from_digits(v)
    }

    /// A copy of the amount.
    pub fn copy(&self) -> (res: Amount)
        ensures
            res@ == self@,
    {
        Amount::from_digits(self.to_digits())
    }

    /// Whether the amount is zero.
    pub fn is_zero(&self) -> (res: bool)
        ensures
            res == (self@ == 0),
    {
        proof {
            use_type_invariant(self);
            if self.digits@.len() > 0 {
                let s = self.digits@;
                let n = (s.len() - 1) as nat;
                lemma_radix_pow_pos(n);
                assert(s.last() as nat * radix_pow(n) >= 1) by (nonlinear_arith)
                    requires
                        s.last() as nat >= 1,
                        radix_pow(n) >= 1,
                ;
            }
        }
        self.digits.len() == 0
    }

    /// The sum of two amounts.
    pub fn add(&self, other: &Amount) -> (res: Amount)
        ensures
            res@ == self@ + other@,
    {
        let a = &self.digits;
        let b = &other.digits;
        let n: usize = if a.len() >= b.len() {
            a.len()
        } else {
            b.len()
        };
        let ghost pa = padded(a@, n as int);
        let ghost pb = padded(b@, n as int);
        proof {
            lemma_padded(a@, n as int);
            lemma_padded(b@, n as int);
            assert(pa.take(0) =~= Seq::<u32>::empty());
            assert(pb.take(0) =~= Seq::<u32>::empty());
        }
        let mut r: Vec<u32> = Vec::new();
        let mut carry: u64 = 0;
        let mut i: usize = 0;
        while i < n
            invariant
                n == pa.len(),
                n == pb.len(),
                n >= a@.len(),
                n >= b@.len(),
                forall|j: int| 0 <= j < n ==> #[trigger] pa[j] as nat == digit_at(a@, j),
                forall|j: int| 0 <= j < n ==> #[trigger] pb[j] as nat == digit_at(b@, j),
                i <= n,
                r@.len() == i,
                carry <= 1,
                digits_val(r@) + carry * radix_pow(i as nat) == digits_val(pa.take(i as int))
                    + digits_val(pb.take(i as int)),
            decreases n - i,
        {
            let da: u64 = if i < a.len() {
                a[i] as u64
            } else {
                0
            };
            let db: u64 = if i < b.len() {
                b[i] as u64
            } else {
                0
            };
            assert(da == pa[i as int] && db == pb[i as int]);
            let s: u64 = da + db + carry;
            let low: u32 = (s % 0x1_0000_0000) as u32;
            let ghost old_r = r@;
            let ghost c = carry;
            r.push(low);
            carry = s / 0x1_0000_0000;
            proof {
                lemma_take_step(pa, i as int);
                lemma_take_step(pb, i as int);
                assert(r@.drop_last() =~= old_r);
                let p = radix_pow(i as nat);
                assert(radix_pow((i + 1) as nat) == radix() * p);
                assert(digits_val(r@) == digits_val(old_r) + low as nat * p);
                assert(low as nat * p + carry * (radix() * p) == s * p) by (nonlinear_arith)
                    requires
                        low == s % 0x1_0000_0000,
                        carry == s / 0x1_0000_0000,
                        radix() == 0x1_0000_0000,
                ;
                assert(s * p == da * p + db * p + c * p) by (nonlinear_arith)
                    requires
                        s == da + db + c,
                ;
            }
            i = i + 1;
        }
        let ghost before = r@;
        r.push(carry as u32);
        proof {
            assert(r@.drop_last() =~= before);
            assert(pa.take(n as int) =~= pa);
            assert(pb.take(n as int) =~= pb);
            lemma_padded(a@, n as int);
            lemma_padded(b@, n as int);
        }
        Amount::from_digits(r)
    }

    /// `self - other`, or `None` when `other` is larger.
    pub fn checked_sub(&self, other: &Amount) -> (res: Option<Amount>)
        ensures
            match res {
                Some(d) => other@ <= self@ && d@ == self@ - other@,
                None => self@ < other@,
            },
    {
        let a = &self.digits;
        let b = &other.digits;
        let n: usize = if a.len() >= b.len() {
            a.len()
        } else {
            b.len()
        };
        let ghost pa = padded(a@, n as int);
        let ghost pb = padded(b@, n as int);
        proof {
            lemma_padded(a@, n as int);
            lemma_padded(b@, n as int);
            assert(pa.take(0) =~= Seq::<u32>::empty());
            assert(pb.take(0) =~= Seq::<u32>::empty());
        }
        let mut r: Vec<u32> = Vec::new();
        let mut borrow: u64 = 0;
        let mut i: usize = 0;
        while i < n
            invariant
                n == pa.len(),
                n == pb.len(),
                n >= a@.len(),
                n >= b@.len(),
                forall|j: int| 0 <= j < n ==> #[trigger] pa[j] as nat == digit_at(a@, j),
                forall|j: int| 0 <= j < n ==> #[trigger] pb[j] as nat == digit_at(b@, j),
                i <= n,
                r@.len() == i,
                borrow <= 1,
                digits_val(r@) + digits_val(pb.take(i as int)) == digits_val(pa.take(i as int))
                    + borrow * radix_pow(i as nat),
            decreases n - i,
        {
            let da: u64 = if i < a.len() {
                a[i] as u64
            } else {
                0
            };
            let db: u64 = if i < b.len() {
                b[i] as u64
            } else {
                0
            };
            assert(da == pa[i as int] && db == pb[i as int]);
            let s: u64 = da + 0x1_0000_0000 - db - borrow;
            let low: u32 = (s % 0x1_0000_0000) as u32;
            let ghost old_r = r@;
            let ghost bw = borrow;
            r.push(low);
            borrow = 1 - s / 0x1_0000_0000;
            proof {
                lemma_take_step(pa, i as int);
                lemma_take_step(pb, i as int);
                assert(r@.drop_last() =~= old_r);
                let p = radix_pow(i as nat);
                assert(radix_pow((i + 1) as nat) == radix() * p);
                assert(digits_val(r@) == digits_val(old_r) + low as nat * p);
                assert(s / 0x1_0000_0000 <= 1);
                assert(low as nat * p + db * p == da * p + borrow * (radix() * p) - bw * p)
                    by (nonlinear_arith)
                    requires
                        low == s % 0x1_0000_0000,
                        borrow == 1 - s / 0x1_0000_0000,
                        s == da + 0x1_0000_0000 - db - bw,
                        radix() == 0x1_0000_0000,
                ;
            }
            i = i + 1;
        }
        proof {
            assert(pa.take(n as int) =~= pa);
            assert(pb.take(n as int) =~= pb);
            lemma_padded(a@, n as int);
            lemma_padded(b@, n as int);
            lemma_digits_bound(r@);
            lemma_digits_bound(pa);
            lemma_digits_bound(pb);
        }
        if borrow == 0 {
            Some(Amount::from_digits(r))
        } else {
            None
        }
    }

    /// `self - other`, for `other` at most `self`.
    pub fn sub(&self, other: &Amount) -> (res: Amount)
        requires
            other@ <= self@,
        ensures
            res@ == self@ - other@,
    {
        match self.checked_sub(other) {
            Some(d) => d,
            None => Amount::zero(),
        }
    }

    /// Whether `self` is at most `other`.
    pub fn le(&self, other: &Amount) -> (res: bool)
        ensures
            res == (self@ <= other@),
    {
        other.checked_sub(self).is_some()
    }

    /// The amount times `k`.
    pub fn mul_u64(&self, k: u64) -> (res: Amount)
        ensures
            res@ == self@ * k,
    {
        let a = &self.digits;
        let n = a.len();
        proof {
            assert(a@.take(0) =~= Seq::<u32>::empty());
        }
        let mut r: Vec<u32> = Vec::new();
        let mut carry: u128 = 0;
        proof {
            assert(r@ =~= Seq::<u32>::empty());
            assert(digits_val(a@.take(0)) == 0);
            assert(digits_val(a@.take(0)) * k == 0);
        }
        let mut i: usize = 0;
        while i < n
            invariant
                n == a@.len(),
                i <= n,
                r@.len() == i,
                carry <= u64::MAX,
                digits_val(r@) + carry * radix_pow(i as nat) == digits_val(a@.take(i as int)) * k,
            decreases n - i,
        {
            let da: u128 = a[i] as u128;
            assert(da * (k as u128) <= 0xffff_ffff * 0xffff_ffff_ffff_ffff) by (nonlinear_arith)
                requires
                    da <= 0xffff_ffff,
                    k <= 0xffff_ffff_ffff_ffff,
            ;
            let s: u128 = da * (k as u128) + carry;
            let low: u32 = (s % 0x1_0000_0000) as u32;
            let ghost old_r = r@;
            let ghost c = carry;
            r.push(low);
            carry = s / 0x1_0000_0000;
            proof {
                lemma_take_step(a@, i as int);
                assert(r@.drop_last() =~= old_r);
                let p = radix_pow(i as nat);
                assert(radix_pow((i + 1) as nat) == radix() * p);
                assert(digits_val(r@) == digits_val(old_r) + low as nat * p);
                assert(low as nat * p + carry * (radix() * p) == s * p) by (nonlinear_arith)
                    requires
                        low == s % 0x1_0000_0000,
                        carry == s / 0x1_0000_0000,
                        radix() == 0x1_0000_0000,
                ;
                let va = digits_val(a@.take(i as int));
                assert(s * p == (da * k) * p + c * p) by (nonlinear_arith)
                    requires
                        s == da * k + c,
                ;
                assert((va + da * p) * k == va * k + (da * k) * p) by (nonlinear_arith);
            }
            i = i + 1;
        }
        let c_lo: u32 = (carry % 0x1_0000_0000) as u32;
        let c_hi: u32 = (carry / 0x1_0000_0000) as u32;
        let ghost before = r@;
        r.push(c_lo);
        r.push(c_hi);
        proof {
            assert(a@.take(n as int) =~= a@);
            let p = radix_pow(n as nat);
            assert(r@.drop_last() =~= before.push(c_lo));
            assert(r@.drop_last().drop_last() =~= before);
            assert(radix_pow((n + 1) as nat) == radix() * p);
            let t = before.push(c_lo);
            assert(t.drop_last() =~= before);
            assert(digits_val(t) == digits_val(before) + c_lo as nat * p);
            assert(digits_val(r@) == digits_val(t) + c_hi as nat * radix_pow((n + 1) as nat));
            assert(c_lo as nat * p + c_hi as nat * (radix() * p) == carry * p) by (nonlinear_arith)
                requires
                    c_lo == carry % 0x1_0000_0000,
                    c_hi == carry / 0x1_0000_0000,
                    radix() == 0x1_0000_0000,
            ;
        }
        Amount::from_digits(r)
    }
}

} // verus!
