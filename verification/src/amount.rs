//! Amounts of ledger units: natural numbers of any size, as the candid
//! `Nat` of the ledgers' interfaces is, held as decimal digits.

use vstd::prelude::*;

verus! {

/// Ten to the power `k`.
pub open spec fn pow10(k: nat) -> nat
    decreases k,
{
    if k == 0 {
        1
    } else {
        10 * pow10((k - 1) as nat)
    }
}

/// The digit of `s` at position `j` (least significant first), zero beyond
/// its end.
pub open spec fn digit_at(s: Seq<u8>, j: int) -> nat {
    if 0 <= j < s.len() {
        s[j] as nat
    } else {
        0
    }
}

/// The number that the lowest `k` digits of `s` (least significant first)
/// stand for.
pub open spec fn value_upto(s: Seq<u8>, k: nat) -> nat
    decreases k,
{
    if k == 0 {
        0
    } else {
        value_upto(s, (k - 1) as nat) + digit_at(s, k - 1) * pow10((k - 1) as nat)
    }
}

/// The number that the decimal digits `s` stand for, least significant first.
pub open spec fn value(s: Seq<u8>) -> nat {
    value_upto(s, s.len())
}

/// Every entry of `s` is a decimal digit.
pub open spec fn all_digits(s: Seq<u8>) -> bool {
    forall|j: int| 0 <= j < s.len() ==> #[trigger] s[j] < 10
}

/// `s` is the shortest digit list of its number: at least one digit, and no
/// zero at the most significant end unless it is the only digit.
pub open spec fn normal(s: Seq<u8>) -> bool {
    &&& s.len() >= 1
    &&& all_digits(s)
    &&& (s.len() == 1 || s[s.len() - 1] != 0)
}

/// `t` is decimal text as candid writes a `Nat`: ASCII digits, most
/// significant first, with no leading zero unless it is the only digit.
pub open spec fn is_decimal_text(t: Seq<u8>) -> bool {
    &&& t.len() >= 1
    &&& forall|j: int| 0 <= j < t.len() ==> 48 <= #[trigger] t[j] <= 57
    &&& (t.len() == 1 || t[0] != 48)
}

/// The digits (least significant first) of decimal text `t`.
pub open spec fn text_digits(t: Seq<u8>) -> Seq<u8> {
    Seq::new(t.len(), |i: int| (t[t.len() - 1 - i] - 48) as u8)
}

/// The decimal text (ASCII, most significant first) of digits `s`.
pub open spec fn ascii_digits(s: Seq<u8>) -> Seq<u8> {
    Seq::new(s.len(), |i: int| (s[s.len() - 1 - i] + 48) as u8)
}

proof fn lemma_pow10_positive(k: nat)
    ensures
        pow10(k) >= 1,
    decreases k,
{
    if k > 0 {
        lemma_pow10_positive((k - 1) as nat);
    }
}

/// Only the lowest `k` digits count towards `value_upto(_, k)`.
proof fn lemma_upto_same(s: Seq<u8>, t: Seq<u8>, k: nat)
    requires
        forall|j: int| 0 <= j < k ==> digit_at(s, j) == digit_at(t, j),
    ensures
        value_upto(s, k) == value_upto(t, k),
    decreases k,
{
    if k > 0 {
        lemma_upto_same(s, t, (k - 1) as nat);
        assert(digit_at(s, k - 1) == digit_at(t, k - 1));
    }
}

/// Digits beyond the end add nothing.
proof fn lemma_upto_beyond(s: Seq<u8>, k: nat)
    requires
        k >= s.len(),
    ensures
        value_upto(s, k) == value(s),
    decreases k,
{
    if k > s.len() {
        lemma_upto_beyond(s, (k - 1) as nat);
        assert(digit_at(s, k - 1) == 0);
    }
}

/// The lowest `k` digits stand for less than `10^k`.
proof fn lemma_upto_bound(s: Seq<u8>, k: nat)
    requires
        all_digits(s),
    ensures
        value_upto(s, k) < pow10(k),
    decreases k,
{
    if k > 0 {
        let k1 = (k - 1) as nat;
        lemma_upto_bound(s, k1);
        let d = digit_at(s, k - 1);
        assert(d <= 9) by {
            if 0 <= k - 1 < s.len() {
                assert(s[k - 1] < 10);
            }
        }
        let v = value_upto(s, k1);
        let p = pow10(k1);
        assert(v + d * p < 10 * p) by (nonlinear_arith)
            requires
                v < p,
                d <= 9,
        ;
    }
}

/// A normal digit list of length `n >= 2` stands for at least `10^(n-1)`.
proof fn lemma_normal_lower(s: Seq<u8>)
    requires
        normal(s),
        s.len() >= 2,
    ensures
        value(s) >= pow10((s.len() - 1) as nat),
{
    let n1 = (s.len() - 1) as nat;
    let d = digit_at(s, n1 as int);
    let p = pow10(n1);
    assert(d >= 1);
    assert(d * p >= p) by (nonlinear_arith)
        requires
            d >= 1,
    ;
}

/// Normal digit lists of different lengths: the shorter stands for less.
proof fn lemma_shorter_less(a: Seq<u8>, b: Seq<u8>)
    requires
        normal(a),
        normal(b),
        a.len() < b.len(),
    ensures
        value(a) < value(b),
{
    lemma_upto_bound(a, a.len());
    lemma_normal_lower(b);
    lemma_pow10_mono(a.len(), (b.len() - 1) as nat);
}

proof fn lemma_pow10_mono(i: nat, j: nat)
    requires
        i <= j,
    ensures
        pow10(i) <= pow10(j),
    decreases j,
{
    if i < j {
        lemma_pow10_mono(i, (j - 1) as nat);
        lemma_pow10_positive((j - 1) as nat);
    }
}

/// Digit lists of one length that agree above position `j` and differ at
/// `j`: the one with the smaller digit there stands for less.
proof fn lemma_first_difference(a: Seq<u8>, b: Seq<u8>, j: int)
    requires
        all_digits(a),
        all_digits(b),
        a.len() == b.len(),
        0 <= j < a.len(),
        forall|i: int| j < i < a.len() ==> a[i] == b[i],
        a[j] < b[j],
    ensures
        value(a) < value(b),
    decreases a.len(),
{
    let n1 = (a.len() - 1) as nat;
    let p = pow10(n1);
    let da = digit_at(a, n1 as int);
    let db = digit_at(b, n1 as int);
    let va = value_upto(a, n1);
    let vb = value_upto(b, n1);
    if j == n1 {
        lemma_upto_bound(a, n1);
        assert(va + da * p < vb + db * p) by (nonlinear_arith)
            requires
                va < p,
                da < db,
        ;
    } else {
        let a1 = a.drop_last();
        let b1 = b.drop_last();
        assert forall|i: int| j < i < a1.len() implies a1[i] == b1[i] by {
            assert(a1[i] == a[i]);
            assert(b1[i] == b[i]);
        }
        assert(all_digits(a1)) by {
            assert forall|i: int| 0 <= i < a1.len() implies a1[i] < 10 by {
                assert(a1[i] == a[i]);
            }
        }
        assert(all_digits(b1)) by {
            assert forall|i: int| 0 <= i < b1.len() implies b1[i] < 10 by {
                assert(b1[i] == b[i]);
            }
        }
        assert(a1[j] == a[j] && b1[j] == b[j]);
        lemma_first_difference(a1, b1, j);
        lemma_upto_same(a, a1, n1);
        lemma_upto_same(b, b1, n1);
        assert(a[n1 as int] == b[n1 as int]);
    }
}

/// Digits count from the least significant: no digits stand for zero, and
/// a digit added at the most significant end counts ten to the power of its
/// position.
pub proof fn lemma_value_digits(s: Seq<u8>, d: u8)
    ensures
        value(Seq::<u8>::empty()) == 0,
        value(s.push(d)) == value(s) + d * pow10(s.len()),
        pow10(0) == 1,
        pow10(s.len() + 1) == 10 * pow10(s.len()),
{
    let t = s.push(d);
    lemma_upto_same(t, s, s.len());
    assert(digit_at(t, s.len() as int) == d);
}

/// Decimal text is read most significant digit first: a digit character
/// written after decimal text multiplies its number by ten and adds the
/// digit.
pub proof fn lemma_text_digits_push(t: Seq<u8>, c: u8)
    requires
        48 <= c <= 57,
    ensures
        value(text_digits(t.push(c))) == 10 * value(text_digits(t)) + (c - 48),
{
    let s = text_digits(t);
    assert(text_digits(t.push(c)) =~= seq![(c - 48) as u8] + s);
    lemma_value_prepend(s, (c - 48) as u8);
}

proof fn lemma_value_prepend(s: Seq<u8>, d: u8)
    ensures
        value(seq![d] + s) == d + 10 * value(s),
    decreases s.len(),
{
    let t = seq![d] + s;
    if s.len() == 0 {
        assert(t =~= Seq::<u8>::empty().push(d));
        lemma_value_digits(Seq::<u8>::empty(), d);
        assert(d * pow10(0) == d) by (nonlinear_arith)
            requires
                pow10(0) == 1,
        ;
    } else {
        let s1 = s.drop_last();
        let e = s.last();
        lemma_value_prepend(s1, d);
        assert(t =~= (seq![d] + s1).push(e));
        assert(s =~= s1.push(e));
        lemma_value_digits(seq![d] + s1, e);
        lemma_value_digits(s1, e);
        let p = pow10(s1.len());
        assert(pow10((seq![d] + s1).len()) == 10 * p);
        let v1 = value(s1);
        assert(e * (10 * p) == 10 * (e * p)) by (nonlinear_arith);
        assert(d + 10 * v1 + 10 * (e * p) == d + 10 * (v1 + e * p)) by (nonlinear_arith);
    }
}

/// A natural number of ledger units, of any size.
pub struct Amount {
    digits: Vec<u8>,
}

impl View for Amount {
    type V = nat;

    closed spec fn view(&self) -> nat {
        value(self.digits@)
    }
}

impl Amount {
    #[verifier::type_invariant]
    spec fn is_normal(self) -> bool {
        normal(self.digits@)
    }

    /// The amount `n`.
    pub fn from_u128(n: u128) -> (res: Amount)
        ensures
            res@ == n as nat,
    {
        let mut digits: Vec<u8> = Vec::new();
        if n == 0 {
            digits.push(0);
            assert(value(digits@) == 0) by {
                assert(digit_at(digits@, 0) == 0);
                assert(value_upto(digits@, 1) == value_upto(digits@, 0) + digit_at(digits@, 0)
                    * pow10(0));
                let d = digit_at(digits@, 0);
                assert(d * pow10(0) == 0) by (nonlinear_arith)
                    requires
                        d == 0,
                ;
            }
            return Amount { digits };
        }
        let mut rem: u128 = n;
        let ghost mut k: nat = 0;
        assert(pow10(0) == 1);
        assert(value_upto(digits@, 0) == 0);
        assert(1 * rem == rem);
        while rem > 0
            invariant
                digits@.len() == k,
                all_digits(digits@),
                value_upto(digits@, k) + pow10(k) * rem == n,
                rem == 0 ==> (k >= 1 && digits@[k - 1] != 0),
                k == 0 ==> rem == n,
                n > 0,
            decreases rem,
        {
            let d = (rem % 10) as u8;
            let ghost old_digits = digits@;
            let ghost p = pow10(k);
            let ghost r = rem as nat;
            digits.push(d);
            rem = rem / 10;
            proof {
                lemma_upto_same(digits@, old_digits, k);
                assert(digit_at(digits@, k as int) == d);
                assert(p * r == 10 * p * (r / 10) + (r % 10) * p) by (nonlinear_arith);
                k = k + 1;
            }
        }
        assert(digits@.len() >= 1);
        Amount { digits }
    }

    /// Whether this amount is less than `other`.
    pub fn lt(&self, other: &Amount) -> (res: bool)
        ensures
            res == (self@ < other@),
    {
        proof {
            use_type_invariant(self);
            use_type_invariant(other);
        }
        let a = &self.digits;
        let b = &other.digits;
        if a.len() < b.len() {
            proof {
                lemma_shorter_less(a@, b@);
            }
            return true;
        }
        if b.len() < a.len() {
            proof {
                lemma_shorter_less(b@, a@);
            }
            return false;
        }
        let mut i: usize = a.len();
        while i > 0
            invariant
                a@ == self.digits@,
                b@ == other.digits@,
                a.len() == b.len(),
                i <= a.len(),
                all_digits(a@),
                all_digits(b@),
                forall|j: int| i <= j < a.len() ==> a@[j] == b@[j],
            decreases i,
        {
            i = i - 1;
            if a[i] != b[i] {
                proof {
                    if a@[i as int] < b@[i as int] {
                        lemma_first_difference(a@, b@, i as int);
                    } else {
                        lemma_first_difference(b@, a@, i as int);
                    }
                }
                return a[i] < b[i];
            }
        }
        assert(a@ =~= b@);
        false
    }

    /// This amount less `other`, which is not more than it.
    pub fn sub(&self, other: &Amount) -> (res: Amount)
        requires
            other@ <= self@,
        ensures
            res@ == self@ - other@,
    {
        proof {
            use_type_invariant(self);
            use_type_invariant(other);
        }
        let a = &self.digits;
        let b = &other.digits;
        proof {
            if a@.len() < b@.len() {
                lemma_shorter_less(a@, b@);
            }
        }
        let n = a.len();
        let mut r: Vec<u8> = Vec::new();
        let mut borrow: u8 = 0;
        let mut k: usize = 0;
        while k < n
            invariant
                a@ == self.digits@,
                b@ == other.digits@,
                n == a@.len(),
                b@.len() <= n,
                all_digits(a@),
                all_digits(b@),
                k <= n,
                r@.len() == k,
                all_digits(r@),
                borrow <= 1,
                value_upto(a@, k as nat) + borrow * pow10(k as nat) == value_upto(b@, k as nat)
                    + value_upto(r@, k as nat),
            decreases n - k,
        {
            let da = a[k];
            let db: u8 = if k < b.len() {
                b[k]
            } else {
                0
            };
            let ghost bo = borrow as int;
            let ghost old_r = r@;
            let ghost p = pow10(k as nat);
            let d: u8;
            if da >= db + borrow {
                d = da - db - borrow;
                borrow = 0;
            } else {
                d = da + 10 - db - borrow;
                borrow = 1;
            }
            r.push(d);
            proof {
                lemma_upto_same(r@, old_r, k as nat);
                assert(digit_at(r@, k as int) == d);
                assert(digit_at(a@, k as int) == da);
                assert(digit_at(b@, k as int) == db);
                let bn = borrow as int;
                assert((da + 10 * bn - db - bo - d) * p == 0) by (nonlinear_arith)
                    requires
                        da + 10 * bn - db - bo - d == 0,
                ;
                assert(pow10((k + 1) as nat) == 10 * p);
                assert(bn * (10 * p) == 10 * bn * p) by (nonlinear_arith);
                assert(da * p + 10 * bn * p - db * p - bo * p - d * p == 0) by (nonlinear_arith)
                    requires
                        (da + 10 * bn - db - bo - d) * p == 0,
                ;
            }
            k = k + 1;
        }
        proof {
            lemma_upto_beyond(b@, n as nat);
            lemma_upto_bound(r@, n as nat);
            if borrow == 1 {
                assert(false);
            }
        }
        while r.len() > 1 && r[r.len() - 1] == 0
            invariant
                r@.len() >= 1,
                all_digits(r@),
                value(r@) == value(a@) - value(b@),
            decreases r@.len(),
        {
            let ghost old_r = r@;
            r.pop();
            proof {
                let m = r@.len() as nat;
                lemma_upto_same(r@, old_r, m);
                assert(digit_at(old_r, m as int) == 0);
                assert(value_upto(old_r, m + 1) == value_upto(old_r, m) + digit_at(old_r, m as int)
                    * pow10(m));
                let z = digit_at(old_r, m as int);
                let pm = pow10(m);
                assert(z * pm == 0) by (nonlinear_arith)
                    requires
                        z == 0,
                ;
                assert(value(old_r) == value_upto(old_r, m + 1));
            }
        }
        Amount { digits: r }
    }

    /// The decimal text of this amount: ASCII digits, most significant first.
    pub fn to_decimal_ascii(&self) -> (res: Vec<u8>)
        ensures
            is_decimal_text(res@),
            value(text_digits(res@)) == self@,
    {
        proof {
            use_type_invariant(self);
        }
        let n = self.digits.len();
        let mut t: Vec<u8> = Vec::new();
        let mut i: usize = 0;
        while i < n
            invariant
                n == self.digits@.len(),
                all_digits(self.digits@),
                i <= n,
                t@.len() == i,
                forall|j: int| 0 <= j < i ==> #[trigger] t@[j] == (self.digits@[n - 1 - j] + 48) as u8,
            decreases n - i,
        {
            let d = self.digits[n - 1 - i];
            t.push(d + 48);
            i = i + 1;
        }
        assert(text_digits(t@) =~= self.digits@) by {
            assert forall|j: int| 0 <= j < n implies text_digits(t@)[j] == self.digits@[j] by {
                assert(t@[n - 1 - j] == (self.digits@[j] + 48) as u8);
            }
        }
        t
    }

    /// The amount that decimal text `text` stands for, or `None` where it is
    /// not decimal text as candid writes a `Nat`.
    pub fn from_decimal_ascii(text: &[u8]) -> (res: Option<Amount>)
        ensures
            res is Some <==> is_decimal_text(text@),
            res matches Some(a) ==> a@ == value(text_digits(text@)),
    {
        let n = text.len();
        if n == 0 {
            return None;
        }
        if n > 1 && text[0] == 48 {
            return None;
        }
        let mut digits: Vec<u8> = Vec::new();
        let mut i: usize = 0;
        while i < n
            invariant
                n == text@.len(),
                i <= n,
                digits@.len() == i,
                forall|j: int| 0 <= j < i ==> 48 <= #[trigger] text@[n - 1 - j] <= 57,
                forall|j: int| 0 <= j < i ==> #[trigger] digits@[j] == (text@[n - 1 - j] - 48) as u8,
            decreases n - i,
        {
            let c = text[n - 1 - i];
            if c < 48 || c > 57 {
                proof {
                    assert(!(48 <= text@[n - 1 - i] <= 57));
                }
                return None;
            }
            digits.push(c - 48);
            i = i + 1;
        }
        proof {
            assert forall|j: int| 0 <= j < n implies 48 <= #[trigger] text@[j] <= 57 by {
                assert(48 <= text@[n - 1 - (n - 1 - j)] <= 57);
            }
            assert(digits@ =~= text_digits(text@));
            assert(all_digits(digits@));
            if n > 1 {
                assert(digits@[n - 1] == (text@[0] - 48) as u8);
            }
        }
        Some(Amount { digits })
    }
}

impl Clone for Amount {
    fn clone(&self) -> (res: Self)
        ensures
            res@ == self@,
    {
        proof {
            use_type_invariant(self);
        }
        let digits = self.digits.clone();
        assert(digits@ =~= self.digits@);
        Amount { digits }
    }
}

} // verus!
