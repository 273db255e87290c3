//! On-chain amounts as exact decimal digit sequences.
//!
//! An [`Amount`] is an arbitrary-precision unsigned integer held as its
//! canonical base-10 digit string (most significant digit first, no leading
//! zeros, the empty sequence standing for zero).  This representation makes
//! scaling by powers of ten — the heart of unit conversion — a pure digit
//! manipulation with no rounding loss, and it converts one-for-one to the
//! decimal strings that the chain tooling accepts.
//!
//! The module also provides the digit-sequence theory the rest of the
//! library builds on: the numeric value of a digit sequence, powers of ten,
//! stripping and trimming of zeros, and the order lemmas that justify the
//! overflow check against the 256-bit on-chain integer width.

use vstd::arithmetic::div_mod::{
    lemma_div_decreases, lemma_fundamental_div_mod, lemma_mod_pos_bound, lemma_small_mod,
};
use vstd::prelude::*;

verus! {

/// Every element is a base-10 digit.
pub open spec fn digit_seq_wf(s: Seq<u8>) -> bool {
    forall|i: int| 0 <= i < s.len() ==> s[i] < 10
}

/// A well-formed digit sequence with no leading zero; the canonical
/// representation of a natural number (the empty sequence is zero).
pub open spec fn canonical_digits(s: Seq<u8>) -> bool {
    digit_seq_wf(s) && (s.len() > 0 ==> s[0] != 0)
}

/// Numeric value of a digit sequence, most significant digit first.
pub open spec fn digits_value(s: Seq<u8>) -> nat
    decreases s.len(),
{
    if s.len() == 0 {
        0
    } else {
        digits_value(s.drop_last()) * 10 + (s.last() as nat)
    }
}

/// 10 to the power `n`.
pub open spec fn pow10(n: nat) -> nat
    decreases n,
{
    if n == 0 {
        1
    } else {
        10 * pow10((n - 1) as nat)
    }
}

/// The canonical digit sequence of a natural number.
pub open spec fn digits_of_nat(n: nat) -> Seq<u8>
    decreases n,
{
    if n == 0 {
        Seq::empty()
    } else {
        digits_of_nat(n / 10).push((n % 10) as u8)
    }
}

/// `n` zero digits.
pub open spec fn zero_seq(n: nat) -> Seq<u8> {
    Seq::new(n, |i: int| 0u8)
}

/// The digit sequence with its leading zeros removed.
pub open spec fn strip_leading_zeros(s: Seq<u8>) -> Seq<u8>
    decreases s.len(),
{
    if s.len() == 0 {
        s
    } else if s[0] == 0 {
        strip_leading_zeros(s.drop_first())
    } else {
        s
    }
}

/// The digit sequence with its trailing zeros removed.
pub open spec fn trim_trailing_zeros(s: Seq<u8>) -> Seq<u8>
    decreases s.len(),
{
    if s.len() == 0 {
        s
    } else if s.last() == 0 {
        trim_trailing_zeros(s.drop_last())
    } else {
        s
    }
}

/// 2^256: the first value that does not fit the on-chain integer width.
pub open spec fn u256_limit() -> nat {
    115792089237316195423570985008687907853269984665640564039457584007913129639936nat
}

pub proof fn lemma_pow10_pos(n: nat)
    ensures
        pow10(n) >= 1,
    decreases n,
{
    if n > 0 {
        lemma_pow10_pos((n - 1) as nat);
    }
}

pub proof fn lemma_pow10_monotone(m: nat, n: nat)
    requires
        m <= n,
    ensures
        pow10(m) <= pow10(n),
    decreases n,
{
    if m < n {
        lemma_pow10_monotone(m, (n - 1) as nat);
        lemma_pow10_pos((n - 1) as nat);
    }
}

pub proof fn lemma_pow10_adds(a: nat, b: nat)
    ensures
        pow10(a + b) == pow10(a) * pow10(b),
    decreases a,
{
    if a == 0 {
        assert(pow10(0 + b) == 1 * pow10(b));
    } else {
        lemma_pow10_adds((a - 1) as nat, b);
        assert(pow10(a + b) == 10 * pow10((a + b - 1) as nat));
        assert(10 * (pow10((a - 1) as nat) * pow10(b)) == (10 * pow10((a - 1) as nat)) * pow10(
            b,
        )) by (nonlinear_arith);
    }
}

/// Concatenation shifts the left part by ten to the length of the right.
pub proof fn lemma_digits_value_append(a: Seq<u8>, b: Seq<u8>)
    ensures
        digits_value(a + b) == digits_value(a) * pow10(b.len()) + digits_value(b),
    decreases b.len(),
{
    if b.len() == 0 {
        assert(a + b =~= a);
        assert(digits_value(b) == 0);
        assert(pow10(b.len()) == 1);
        assert(digits_value(a) * pow10(b.len()) == digits_value(a)) by (nonlinear_arith)
            requires
                pow10(b.len()) == 1,
        ;
    } else {
        let bd = b.drop_last();
        lemma_digits_value_append(a, bd);
        assert((a + b).drop_last() =~= a + bd);
        assert((a + b).last() == b.last());
        assert(digits_value(a + b) == digits_value(a + bd) * 10 + (b.last() as nat));
        assert(digits_value(b) == digits_value(bd) * 10 + (b.last() as nat));
        let va = digits_value(a);
        let k = bd.len();
        assert((va * pow10(k) + digits_value(bd)) * 10 == va * (10 * pow10(k)) + digits_value(bd)
            * 10) by (nonlinear_arith);
        assert(pow10(b.len()) == 10 * pow10(k));
        assert(digits_value(a + b) == (va * pow10(k) + digits_value(bd)) * 10 + (b.last() as nat));
        assert(digits_value(a + b) == va * (10 * pow10(k)) + digits_value(bd) * 10 + (
        b.last() as nat));
        assert(va * (10 * pow10(k)) == va * pow10(b.len()));
        assert(digits_value(a + b) == va * pow10(b.len()) + digits_value(b));
    }
}

/// A well-formed digit sequence of length `n` is below `10^n`.
pub proof fn lemma_digits_value_bound(s: Seq<u8>)
    requires
        digit_seq_wf(s),
    ensures
        digits_value(s) < pow10(s.len()),
    decreases s.len(),
{
    if s.len() > 0 {
        assert(digit_seq_wf(s.drop_last()));
        lemma_digits_value_bound(s.drop_last());
        assert(s.last() < 10);
    }
}

/// A nonempty canonical sequence of length `n` is at least `10^(n-1)`.
pub proof fn lemma_canonical_lower_bound(s: Seq<u8>)
    requires
        canonical_digits(s),
        s.len() > 0,
    ensures
        digits_value(s) >= pow10((s.len() - 1) as nat),
    decreases s.len(),
{
    if s.len() == 1 {
        assert(s.drop_last().len() == 0);
        assert(s.last() == s[0]);
    } else {
        assert(canonical_digits(s.drop_last()));
        lemma_canonical_lower_bound(s.drop_last());
    }
}

/// Among equal-length digit sequences, numeric order follows the first
/// differing digit.
pub proof fn lemma_digits_value_lex(a: Seq<u8>, b: Seq<u8>, i: int)
    requires
        digit_seq_wf(a),
        digit_seq_wf(b),
        a.len() == b.len(),
        0 <= i < a.len(),
        a.subrange(0, i) =~= b.subrange(0, i),
        a[i] < b[i],
    ensures
        digits_value(a) < digits_value(b),
{
    let n = a.len() as int;
    let ap = a.subrange(0, i + 1);
    let bp = b.subrange(0, i + 1);
    let asuf = a.subrange(i + 1, n);
    let bsuf = b.subrange(i + 1, n);
    assert(a =~= ap + asuf);
    assert(b =~= bp + bsuf);
    lemma_digits_value_append(ap, asuf);
    lemma_digits_value_append(bp, bsuf);
    assert(digit_seq_wf(asuf));
    assert(digit_seq_wf(bsuf));
    lemma_digits_value_bound(asuf);
    lemma_digits_value_bound(bsuf);
    assert(ap.drop_last() =~= a.subrange(0, i));
    assert(bp.drop_last() =~= a.subrange(0, i));
    assert(digits_value(ap) == digits_value(a.subrange(0, i)) * 10 + (a[i] as nat));
    assert(digits_value(bp) == digits_value(a.subrange(0, i)) * 10 + (b[i] as nat));
    let k = asuf.len();
    assert(bsuf.len() == k);
    lemma_pow10_pos(k);
    assert((digits_value(ap) + 1) * pow10(k) <= digits_value(bp) * pow10(k)) by (nonlinear_arith)
        requires
            digits_value(ap) + 1 <= digits_value(bp),
    ;
    assert((digits_value(ap) + 1) * pow10(k) == digits_value(ap) * pow10(k) + pow10(
        k,
    )) by (nonlinear_arith);
}

pub proof fn lemma_zero_seq_value(n: nat)
    ensures
        digit_seq_wf(zero_seq(n)),
        digits_value(zero_seq(n)) == 0,
    decreases n,
{
    if n > 0 {
        lemma_zero_seq_value((n - 1) as nat);
        assert(zero_seq(n).drop_last() =~= zero_seq((n - 1) as nat));
    }
}

/// Stripping leading zeros keeps the numeric value.
pub proof fn lemma_strip_value(s: Seq<u8>)
    ensures
        digits_value(strip_leading_zeros(s)) == digits_value(s),
    decreases s.len(),
{
    if s.len() > 0 && s[0] == 0 {
        let t = s.drop_first();
        lemma_strip_value(t);
        assert(s =~= seq![0u8] + t);
        lemma_digits_value_append(seq![0u8], t);
        let z = seq![0u8];
        assert(z.drop_last() =~= Seq::<u8>::empty());
        assert(digits_value(z.drop_last()) == 0);
        assert(z.last() == 0);
        assert(digits_value(z) == 0);
    }
}

/// Stripping leading zeros of a well-formed sequence is canonical.
pub proof fn lemma_strip_canonical(s: Seq<u8>)
    requires
        digit_seq_wf(s),
    ensures
        canonical_digits(strip_leading_zeros(s)),
        strip_leading_zeros(s).len() <= s.len(),
    decreases s.len(),
{
    if s.len() > 0 && s[0] == 0 {
        let t = s.drop_first();
        assert(digit_seq_wf(t));
        lemma_strip_canonical(t);
    }
}

/// Stripping removes exactly a prefix of zero digits.
pub proof fn lemma_strip_reconstruct(s: Seq<u8>)
    ensures
        strip_leading_zeros(s).len() <= s.len(),
        zero_seq((s.len() - strip_leading_zeros(s).len()) as nat) + strip_leading_zeros(s) =~= s,
    decreases s.len(),
{
    if s.len() == 0 {
        assert(zero_seq(0) + s =~= s);
    } else if s[0] == 0 {
        let t = s.drop_first();
        lemma_strip_reconstruct(t);
        let st = strip_leading_zeros(s);
        assert(st == strip_leading_zeros(t));
        let k = (s.len() - st.len()) as nat;
        assert forall|j: int| 0 <= j < s.len() implies (zero_seq(k) + st)[j] == s[j] by {
            if j > 0 {
                assert((zero_seq((k - 1) as nat) + st)[j - 1] == t[j - 1]);
                assert(t[j - 1] == s[j]);
            }
        }
        assert(zero_seq(k) + st =~= s);
    } else {
        assert(zero_seq(0) + s =~= s);
    }
}

pub proof fn lemma_trim_append_zeros(s: Seq<u8>, n: nat)
    ensures
        trim_trailing_zeros(s + zero_seq(n)) == trim_trailing_zeros(s),
    decreases n,
{
    if n == 0 {
        assert(s + zero_seq(0) =~= s);
    } else {
        assert((s + zero_seq(n)).last() == 0);
        assert((s + zero_seq(n)).drop_last() =~= s + zero_seq((n - 1) as nat));
        lemma_trim_append_zeros(s, (n - 1) as nat);
    }
}

/// The canonical digit sequence of `n` indeed denotes `n`.
pub proof fn lemma_digits_of_nat_props(n: nat)
    ensures
        canonical_digits(digits_of_nat(n)),
        digits_value(digits_of_nat(n)) == n,
        n > 0 ==> digits_of_nat(n).len() > 0,
    decreases n,
{
    if n > 0 {
        lemma_div_decreases(n as int, 10);
        lemma_digits_of_nat_props(n / 10);
        lemma_fundamental_div_mod(n as int, 10);
        lemma_mod_pos_bound(n as int, 10);
        let d = digits_of_nat(n / 10);
        let whole = digits_of_nat(n);
        assert(whole == d.push((n % 10) as u8));
        assert(whole.drop_last() =~= d);
        assert(whole.last() == (n % 10) as u8);
        if n / 10 == 0 {
            lemma_small_mod(n, 10);
            assert(whole[0] == (n % 10) as u8);
        } else {
            assert(whole[0] == d[0]);
        }
    }
}

/// A quantity of a token in its smallest indivisible unit, held as a
/// canonical decimal digit string.  Never negative by construction.
#[derive(Debug)]
pub struct Amount {
    pub digits: Vec<u8>,
}

impl View for Amount {
    type V = Seq<u8>;

    open spec fn view(&self) -> Seq<u8> {
        self.digits@
    }
}

impl DeepView for Amount {
    type V = Seq<u8>;

    open spec fn deep_view(&self) -> Seq<u8> {
        self.digits@
    }
}

impl Amount {
    /// The digit string is canonical.
    pub open spec fn wf(&self) -> bool {
        canonical_digits(self.digits@)
    }

    /// The number this amount stands for.
    pub open spec fn value(&self) -> nat {
        digits_value(self.digits@)
    }

    /// The canonical amount of a machine integer, digit by digit.
    pub fn from_u64(n: u64) -> (r: Amount)
        ensures
            r@ == digits_of_nat(n as nat),
            r.wf(),
            r.value() == n as nat,
    {
        let mut digits: Vec<u8> = Vec::new();
        let mut rem: u64 = n;
        while rem > 0
            invariant
                digits_of_nat(n as nat) =~= digits_of_nat(rem as nat) + digits@,
            decreases rem,
        {
            let ghost pre = digits@;
            let d: u8 = (rem % 10) as u8;
            digits.insert(0, d);
            proof {
                lemma_div_decreases(rem as int, 10);
                assert(digits_of_nat(rem as nat) =~= digits_of_nat((rem as nat) / 10) + seq![d]);
                assert(digits@ =~= seq![d] + pre);
                assert(digits_of_nat((rem as nat) / 10) + digits@ =~= digits_of_nat(rem as nat)
                    + pre);
            }
            rem = rem / 10;
        }
        proof {
            assert(digits_of_nat(n as nat) =~= digits@);
            lemma_digits_of_nat_props(n as nat);
        }
        Amount { digits }
    }

    /// An exact copy, byte for byte.
    pub fn duplicate(&self) -> (r: Amount)
        ensures
            r@ == self@,
    {
        Amount { digits: copy_bytes(&self.digits) }
    }
}

/// Byte-for-byte copy of a vector.
pub fn copy_bytes(v: &Vec<u8>) -> (r: Vec<u8>)
    ensures
        r@ == v@,
{
    let mut r: Vec<u8> = Vec::new();
    let mut i: usize = 0;
    while i < v.len()
        invariant
            0 <= i <= v.len(),
            r@ =~= v@.subrange(0, i as int),
        decreases v.len() - i,
    {
        r.push(v[i]);
        i = i + 1;
    }
    proof {
        assert(r@ =~= v@);
    }
    r
}

/// Appends one digit, keeping track of the numeric value so that a digit
/// string of a known constant can be built digit by digit.
fn push_digit(v: &mut Vec<u8>, d: u8)
    requires
        d < 10,
        digit_seq_wf(old(v)@),
    ensures
        final(v)@ == old(v)@.push(d),
        digit_seq_wf(final(v)@),
        final(v)@.len() == old(v)@.len() + 1,
        digits_value(final(v)@) == digits_value(old(v)@) * 10 + d,
        final(v)@[0] == (if old(v)@.len() == 0 {
            d
        } else {
            old(v)@[0]
        }),
{
    v.push(d);
    proof {
        assert(v@.drop_last() =~= old(v)@);
    }
}

/// The digit string of the largest on-chain value, for comparisons.
#[verifier::rlimit(100)]
fn u256_max_digit_vec() -> (r: Vec<u8>)
    ensures
        canonical_digits(r@),
        digits_value(r@) == u256_limit() - 1,
        r@.len() == 78,
{
    let mut v: Vec<u8> = Vec::new();
    push_digit(&mut v, 1);
    push_digit(&mut v, 1);
    push_digit(&mut v, 5);
    push_digit(&mut v, 7);
    push_digit(&mut v, 9);
    push_digit(&mut v, 2);
    push_digit(&mut v, 0);
    push_digit(&mut v, 8);
    push_digit(&mut v, 9);
    push_digit(&mut v, 2);
    push_digit(&mut v, 3);
    push_digit(&mut v, 7);
    push_digit(&mut v, 3);
    push_digit(&mut v, 1);
    push_digit(&mut v, 6);
    push_digit(&mut v, 1);
    push_digit(&mut v, 9);
    push_digit(&mut v, 5);
    push_digit(&mut v, 4);
    push_digit(&mut v, 2);
    push_digit(&mut v, 3);
    push_digit(&mut v, 5);
    push_digit(&mut v, 7);
    push_digit(&mut v, 0);
    push_digit(&mut v, 9);
    push_digit(&mut v, 8);
    push_digit(&mut v, 5);
    push_digit(&mut v, 0);
    push_digit(&mut v, 0);
    push_digit(&mut v, 8);
    push_digit(&mut v, 6);
    push_digit(&mut v, 8);
    push_digit(&mut v, 7);
    push_digit(&mut v, 9);
    push_digit(&mut v, 0);
    push_digit(&mut v, 7);
    push_digit(&mut v, 8);
    push_digit(&mut v, 5);
    push_digit(&mut v, 3);
    push_digit(&mut v, 2);
    push_digit(&mut v, 6);
    push_digit(&mut v, 9);
    push_digit(&mut v, 9);
    push_digit(&mut v, 8);
    push_digit(&mut v, 4);
    push_digit(&mut v, 6);
    push_digit(&mut v, 6);
    push_digit(&mut v, 5);
    push_digit(&mut v, 6);
    push_digit(&mut v, 4);
    push_digit(&mut v, 0);
    push_digit(&mut v, 5);
    push_digit(&mut v, 6);
    push_digit(&mut v, 4);
    push_digit(&mut v, 0);
    push_digit(&mut v, 3);
    push_digit(&mut v, 9);
    push_digit(&mut v, 4);
    push_digit(&mut v, 5);
    push_digit(&mut v, 7);
    push_digit(&mut v, 5);
    push_digit(&mut v, 8);
    push_digit(&mut v, 4);
    push_digit(&mut v, 0);
    push_digit(&mut v, 0);
    push_digit(&mut v, 7);
    push_digit(&mut v, 9);
    push_digit(&mut v, 1);
    push_digit(&mut v, 3);
    push_digit(&mut v, 1);
    push_digit(&mut v, 2);
    push_digit(&mut v, 9);
    push_digit(&mut v, 6);
    push_digit(&mut v, 3);
    push_digit(&mut v, 9);
    push_digit(&mut v, 9);
    push_digit(&mut v, 3);
    push_digit(&mut v, 5);
    v
}

/// Whether a canonical digit string denotes a value below 2^256, by
/// length and then lexicographic comparison with the largest such value.
pub fn fits_u256(digits: &Vec<u8>) -> (r: bool)
    requires
        canonical_digits(digits@),
    ensures
        r == (digits_value(digits@) < u256_limit()),
{
    let maxv = u256_max_digit_vec();
    if digits.len() < maxv.len() {
        proof {
            if digits@.len() > 0 {
                lemma_digits_value_bound(digits@);
                lemma_pow10_monotone(digits@.len(), (maxv@.len() - 1) as nat);
                lemma_canonical_lower_bound(maxv@);
            }
        }
        true
    } else if digits.len() > maxv.len() {
        proof {
            lemma_digits_value_bound(maxv@);
            lemma_pow10_monotone(maxv@.len(), (digits@.len() - 1) as nat);
            lemma_canonical_lower_bound(digits@);
        }
        false
    } else {
        let n = digits.len();
        let mut i: usize = 0;
        while i < n && digits[i] == maxv[i]
            invariant
                0 <= i <= n,
                n == digits@.len() == maxv@.len(),
                canonical_digits(digits@),
                canonical_digits(maxv@),
                digits_value(maxv@) == u256_limit() - 1,
                forall|j: int| 0 <= j < i ==> digits@[j] == maxv@[j],
            decreases n - i,
        {
            i = i + 1;
        }
        if i == n {
            proof {
                assert(digits@ =~= maxv@);
            }
            true
        } else if digits[i] < maxv[i] {
            proof {
                assert(digits@.subrange(0, i as int) =~= maxv@.subrange(0, i as int));
                lemma_digits_value_lex(digits@, maxv@, i as int);
            }
            true
        } else {
            proof {
                assert(maxv@.subrange(0, i as int) =~= digits@.subrange(0, i as int));
                lemma_digits_value_lex(maxv@, digits@, i as int);
            }
            false
        }
    }
}

} // verus!
