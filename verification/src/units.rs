//! Exact conversion between user-entered decimal text and on-chain base
//! units.
//!
//! `to_base_units` scales a decimal string by ten to the token's decimal
//! precision using pure digit manipulation — no binary floating point ever
//! enters — and rejects rather than rounds: a fractional part longer than
//! the precision is an error, a negative or malformed number is an error,
//! and a value at or above 2^256 is an error.  `from_base_units` is the
//! exact inverse rendering, with trailing fractional zeros always trimmed
//! so the output is deterministic and canonical.

use crate::amount::{
    canonical_digits, digit_seq_wf, digits_value, lemma_digits_value_append, lemma_pow10_adds,
    lemma_strip_canonical, lemma_strip_reconstruct, lemma_strip_value, lemma_trim_append_zeros,
    lemma_zero_seq_value, pow10, strip_leading_zeros, trim_trailing_zeros, u256_limit, zero_seq,
    fits_u256, Amount,
};
use vstd::prelude::*;

verus! {

/// Why a conversion was refused.
#[derive(Clone, Copy, Debug, PartialEq, Eq, Structural)]
pub enum UnitError {
    /// The decimal precision is outside [0, 255], or the input carries
    /// more fractional digits than the precision allows.
    InvalidPrecision,
    /// The input is not a plain unsigned decimal number.
    InvalidAmount,
    /// The scaled value does not fit the on-chain integer width.
    AmountOverflow,
}

/// The largest decimal precision a token may declare.
pub const MAX_DECIMALS: u64 = 255;

/// ASCII code of the decimal point.
pub const DOT: u8 = 46;

/// ASCII code of the digit zero.
pub const ZERO_CHAR: u8 = 48;

pub open spec fn is_digit_char(c: u8) -> bool {
    48 <= c && c <= 57
}

pub open spec fn all_digit_chars(s: Seq<u8>) -> bool {
    forall|i: int| 0 <= i < s.len() ==> is_digit_char(s[i])
}

/// Index of the first decimal point, or the length if there is none.
pub open spec fn first_dot(s: Seq<u8>) -> int
    decreases s.len(),
{
    if s.len() == 0 {
        0
    } else if s[0] == DOT {
        0
    } else {
        1 + first_dot(s.drop_first())
    }
}

/// The characters before the first decimal point.
pub open spec fn int_text(s: Seq<u8>) -> Seq<u8> {
    s.take(first_dot(s))
}

/// The characters after the first decimal point; empty if there is none.
pub open spec fn frac_text(s: Seq<u8>) -> Seq<u8> {
    if first_dot(s) == s.len() {
        Seq::empty()
    } else {
        s.skip(first_dot(s) + 1)
    }
}

/// A plain unsigned decimal number: a nonempty run of digits, optionally
/// followed by a point and a nonempty run of digits.  A sign, a second
/// point, or any other character makes the text invalid.
pub open spec fn valid_decimal(s: Seq<u8>) -> bool {
    &&& int_text(s).len() > 0
    &&& all_digit_chars(int_text(s))
    &&& (first_dot(s) < s.len() ==> frac_text(s).len() > 0)
    &&& all_digit_chars(frac_text(s))
}

/// Digit values of a run of ASCII digits.
pub open spec fn digits_of_text(s: Seq<u8>) -> Seq<u8> {
    s.map_values(|c: u8| (c - 48) as u8)
}

/// ASCII rendering of a run of digit values.
pub open spec fn text_of_digits(s: Seq<u8>) -> Seq<u8> {
    s.map_values(|d: u8| (d + 48) as u8)
}

/// The canonical digit string of a decimal text scaled by `10^p`:
/// integer digits, then fractional digits, then padding zeros.
pub open spec fn scaled_digits(s: Seq<u8>, p: nat) -> Seq<u8>
    recommends
        valid_decimal(s),
        frac_text(s).len() <= p,
{
    strip_leading_zeros(
        digits_of_text(int_text(s)) + digits_of_text(frac_text(s)) + zero_seq(
            (p - frac_text(s).len()) as nat,
        ),
    )
}

/// The number a decimal text denotes, scaled by `10^p`.
pub open spec fn decimal_value_scaled(s: Seq<u8>, p: nat) -> nat
    recommends
        valid_decimal(s),
        frac_text(s).len() <= p,
{
    digits_value(digits_of_text(int_text(s))) * pow10(p) + digits_value(
        digits_of_text(frac_text(s)),
    ) * pow10((p - frac_text(s).len()) as nat)
}

/// What `to_base_units` returns, for every input: the scaled digit
/// string, or the error owed to the input.
pub open spec fn to_base_spec(s: Seq<u8>, decimals: u64) -> Result<Seq<u8>, UnitError> {
    if decimals > MAX_DECIMALS {
        Err(UnitError::InvalidPrecision)
    } else if !valid_decimal(s) {
        Err(UnitError::InvalidAmount)
    } else if frac_text(s).len() > decimals {
        Err(UnitError::InvalidPrecision)
    } else if digits_value(scaled_digits(s, decimals as nat)) >= u256_limit() {
        Err(UnitError::AmountOverflow)
    } else {
        Ok(scaled_digits(s, decimals as nat))
    }
}

/// `first_dot` lies within the text, points at a dot when it is short of
/// the length, and nothing before it is a dot.
pub proof fn lemma_first_dot_bounds(s: Seq<u8>)
    ensures
        0 <= first_dot(s) <= s.len(),
        first_dot(s) < s.len() ==> s[first_dot(s)] == DOT,
        forall|j: int| 0 <= j < first_dot(s) ==> s[j] != DOT,
    decreases s.len(),
{
    if s.len() > 0 && s[0] != DOT {
        let t = s.drop_first();
        lemma_first_dot_bounds(t);
        assert forall|j: int| 0 <= j < first_dot(s) implies s[j] != DOT by {
            if j > 0 {
                assert(t[j - 1] != DOT);
            }
        }
    }
}

/// A dot-free prefix up to a dot (or the end) pins `first_dot` exactly.
pub proof fn lemma_first_dot_at(s: Seq<u8>, i: int)
    requires
        0 <= i <= s.len(),
        forall|j: int| 0 <= j < i ==> s[j] != DOT,
        i < s.len() ==> s[i] == DOT,
    ensures
        first_dot(s) == i,
    decreases s.len(),
{
    if i == 0 {
    } else {
        let t = s.drop_first();
        assert forall|j: int| 0 <= j < i - 1 implies t[j] != DOT by {
            assert(s[j + 1] != DOT);
        }
        lemma_first_dot_at(t, i - 1);
    }
}

/// No dot up to and including position `i` keeps `first_dot` beyond `i`.
pub proof fn lemma_first_dot_beyond(s: Seq<u8>, i: int)
    requires
        0 <= i < s.len(),
        forall|j: int| 0 <= j <= i ==> s[j] != DOT,
    ensures
        first_dot(s) > i,
{
    lemma_first_dot_bounds(s);
    if first_dot(s) <= i {
        assert(s[first_dot(s)] == DOT);
    }
}

/// Converts a decimal text into an amount of base units, scaling by
/// `10^decimals` with exact integer digit arithmetic.  Excess fractional
/// precision and precision outside [0, 255] are invalid-precision errors;
/// a sign or any malformed character is an invalid-amount error; a scaled
/// value at or above 2^256 is an amount-overflow error.
pub fn to_base_units(text: &[u8], decimals: u64) -> (r: Result<Amount, UnitError>)
    ensures
        match r {
            Ok(a) => to_base_spec(text@, decimals) == Ok::<Seq<u8>, UnitError>(a@) && a.wf()
                && a.value() == decimal_value_scaled(text@, decimals as nat),
            Err(e) => to_base_spec(text@, decimals) == Err::<Seq<u8>, UnitError>(e),
        },
{
    if decimals > MAX_DECIMALS {
        return Err(UnitError::InvalidPrecision);
    }
    let n = text.len();
    let mut i: usize = 0;
    let mut digs: Vec<u8> = Vec::new();
    while i < n && text[i] != DOT
        invariant
            0 <= i <= n,
            n == text@.len(),
            decimals <= MAX_DECIMALS,
            forall|j: int| 0 <= j < i ==> text@[j] != DOT && is_digit_char(text@[j]),
            digs@ =~= digits_of_text(text@.take(i as int)),
            digit_seq_wf(digs@),
        decreases n - i,
    {
        let c = text[i];
        if c < 48 || c > 57 {
            proof {
                lemma_first_dot_bounds(text@);
                lemma_first_dot_beyond(text@, i as int);
                assert(int_text(text@).len() == first_dot(text@));
                assert(int_text(text@)[i as int] == c);
                assert(!all_digit_chars(int_text(text@)));
                assert(!valid_decimal(text@));
            }
            return Err(UnitError::InvalidAmount);
        }
        digs.push(c - 48);
        i = i + 1;
        proof {
            assert(digs@ =~= digits_of_text(text@.take(i as int)));
        }
    }
    proof {
        lemma_first_dot_at(text@, i as int);
    }
    if i == 0 {
        // Empty integer part: covers the empty text, a leading dot, and a
        // leading sign.
        return Err(UnitError::InvalidAmount);
    }
    let mut frac: Vec<u8> = Vec::new();
    if i < n {
        let mut j: usize = i + 1;
        if j == n {
            // A trailing dot with no fractional digits.
            return Err(UnitError::InvalidAmount);
        }
        while j < n
            invariant
                i + 1 <= j <= n,
                n == text@.len(),
                i < n,
                decimals <= MAX_DECIMALS,
                first_dot(text@) == i,
                forall|k: int| i + 1 <= k < j ==> is_digit_char(text@[k]),
                frac@ =~= digits_of_text(text@.subrange(i + 1, j as int)),
                digit_seq_wf(frac@),
            decreases n - j,
        {
            let c = text[j];
            if c < 48 || c > 57 {
                proof {
                    assert(frac_text(text@).len() == n - i - 1);
                    assert(frac_text(text@)[j - i - 1] == c);
                    assert(!all_digit_chars(frac_text(text@)));
                }
                return Err(UnitError::InvalidAmount);
            }
            frac.push(c - 48);
            j = j + 1;
            proof {
                assert(frac@ =~= digits_of_text(text@.subrange(i + 1, j as int)));
            }
        }
        proof {
            assert(text@.subrange(i + 1, n as int) =~= frac_text(text@));
        }
    } else {
        proof {
            assert(frac@ =~= digits_of_text(frac_text(text@)));
        }
    }
    proof {
        assert(text@.take(i as int) =~= int_text(text@));
        assert(valid_decimal(text@));
    }
    if frac.len() as u64 > decimals {
        return Err(UnitError::InvalidPrecision);
    }
    // Assemble integer digits, fractional digits, and padding zeros.
    let ghost whole = digits_of_text(int_text(text@)) + digits_of_text(frac_text(text@))
        + zero_seq((decimals as nat - frac_text(text@).len()) as nat);
    let mut all = digs;
    let mut k: usize = 0;
    while k < frac.len()
        invariant
            0 <= k <= frac@.len(),
            all@ =~= digits_of_text(int_text(text@)) + frac@.subrange(0, k as int),
            frac@ =~= digits_of_text(frac_text(text@)),
            digit_seq_wf(all@),
            digit_seq_wf(frac@),
        decreases frac@.len() - k,
    {
        all.push(frac[k]);
        k = k + 1;
        proof {
            assert(all@ =~= digits_of_text(int_text(text@)) + frac@.subrange(0, k as int));
        }
    }
    let pad = decimals - frac.len() as u64;
    let mut z: u64 = 0;
    while z < pad
        invariant
            0 <= z <= pad,
            all@ =~= digits_of_text(int_text(text@)) + digits_of_text(frac_text(text@)) + zero_seq(
                z as nat,
            ),
            digit_seq_wf(all@),
        decreases pad - z,
    {
        all.push(0);
        z = z + 1;
        proof {
            assert(all@ =~= digits_of_text(int_text(text@)) + digits_of_text(frac_text(text@))
                + zero_seq(z as nat));
        }
    }
    proof {
        assert(all@ =~= whole);
    }
    // Strip leading zeros to reach the canonical digit string.
    let mut start: usize = 0;
    while start < all.len() && all[start] == 0
        invariant
            0 <= start <= all@.len(),
            forall|j: int| 0 <= j < start ==> all@[j] == 0,
        decreases all@.len() - start,
    {
        start = start + 1;
    }
    let mut out: Vec<u8> = Vec::new();
    let mut m: usize = start;
    while m < all.len()
        invariant
            start <= m <= all@.len(),
            out@ =~= all@.subrange(start as int, m as int),
        decreases all@.len() - m,
    {
        out.push(all[m]);
        m = m + 1;
        proof {
            assert(out@ =~= all@.subrange(start as int, m as int));
        }
    }
    proof {
        lemma_strip_skip(all@, start as int);
        assert(out@ =~= all@.skip(start as int));
        assert(out@ == scaled_digits(text@, decimals as nat));
        lemma_strip_canonical(whole);
        lemma_strip_value(whole);
        lemma_scaled_value(text@, decimals as nat);
    }
    if !fits_u256(&out) {
        return Err(UnitError::AmountOverflow);
    }
    Ok(Amount { digits: out })
}

/// A run of zeros and then a nonzero digit (or the end) pins the result
/// of stripping: it is the tail from the first nonzero position.
pub proof fn lemma_strip_skip(s: Seq<u8>, k: int)
    requires
        0 <= k <= s.len(),
        forall|j: int| 0 <= j < k ==> s[j] == 0,
        k < s.len() ==> s[k] != 0,
    ensures
        strip_leading_zeros(s) == s.skip(k),
    decreases s.len(),
{
    if k == 0 {
        if s.len() == 0 || s[0] != 0 {
            assert(s.skip(0) =~= s);
        } else {
            assert(s.skip(0) =~= s);
        }
    } else {
        let t = s.drop_first();
        assert forall|j: int| 0 <= j < k - 1 implies t[j] == 0 by {
            assert(s[j + 1] == 0);
        }
        lemma_strip_skip(t, k - 1);
        assert(t.skip(k - 1) =~= s.skip(k));
    }
}

/// The decimal rendering of a digit string scaled by `10^p`: the digits
/// are padded with leading zeros to at least `p + 1` places, split `p`
/// places from the right, and the fractional part loses its trailing
/// zeros; a decimal point appears only before a nonempty fraction.
pub open spec fn rendered(digs: Seq<u8>, p: nat) -> Seq<u8> {
    let padded = if digs.len() >= p + 1 {
        digs
    } else {
        zero_seq((p + 1 - digs.len()) as nat) + digs
    };
    let cut = padded.len() - p;
    let ip = padded.take(cut);
    let fp = trim_trailing_zeros(padded.skip(cut));
    if fp.len() == 0 {
        text_of_digits(ip)
    } else {
        text_of_digits(ip) + seq![DOT] + text_of_digits(fp)
    }
}

/// What `from_base_units` returns, for every input.
pub open spec fn from_base_spec(digs: Seq<u8>, decimals: u64) -> Result<Seq<u8>, UnitError> {
    if decimals > MAX_DECIMALS {
        Err(UnitError::InvalidPrecision)
    } else {
        Ok(rendered(digs, decimals as nat))
    }
}

/// A run of trailing zeros from position `e` on (and a nonzero digit just
/// before, if any) pins the result of trimming: the first `e` digits.
pub proof fn lemma_trim_take(s: Seq<u8>, e: int)
    requires
        0 <= e <= s.len(),
        forall|j: int| e <= j < s.len() ==> s[j] == 0,
        e > 0 ==> s[e - 1] != 0,
    ensures
        trim_trailing_zeros(s) == s.take(e),
    decreases s.len(),
{
    if e == s.len() {
        assert(s.take(e) =~= s);
    } else {
        let t = s.drop_last();
        lemma_trim_take(t, e);
        assert(t.take(e) =~= s.take(e));
    }
}

/// Digit text maps to digit values and back unchanged.
pub proof fn lemma_text_digit_roundtrip(s: Seq<u8>)
    requires
        all_digit_chars(s),
    ensures
        text_of_digits(digits_of_text(s)) =~= s,
        digit_seq_wf(digits_of_text(s)),
{
    assert forall|i: int| 0 <= i < s.len() implies text_of_digits(digits_of_text(s))[i] == s[i] by {
        assert(digits_of_text(s)[i] == (s[i] - 48) as u8);
    }
}

/// Renders an amount of base units back into decimal text, dividing by
/// `10^decimals` exactly and trimming trailing fractional zeros.
pub fn from_base_units(a: &Amount, decimals: u64) -> (r: Result<Vec<u8>, UnitError>)
    requires
        a.wf(),
    ensures
        match r {
            Ok(t) => from_base_spec(a@, decimals) == Ok::<Seq<u8>, UnitError>(t@),
            Err(e) => from_base_spec(a@, decimals) == Err::<Seq<u8>, UnitError>(e),
        },
{
    if decimals > MAX_DECIMALS {
        return Err(UnitError::InvalidPrecision);
    }
    let p = decimals as usize;
    let ghost spec_padded: Seq<u8> = if a@.len() >= p + 1 {
        a@
    } else {
        zero_seq((p + 1 - a@.len()) as nat) + a@
    };
    let mut padded: Vec<u8> = Vec::new();
    let len = a.digits.len();
    if len < p + 1 {
        let pad = p + 1 - len;
        let mut z: usize = 0;
        while z < pad
            invariant
                0 <= z <= pad,
                padded@ =~= zero_seq(z as nat),
            decreases pad - z,
        {
            padded.push(0);
            z = z + 1;
            proof {
                assert(padded@ =~= zero_seq(z as nat));
            }
        }
    }
    let ghost zprefix = padded@;
    let mut m: usize = 0;
    while m < a.digits.len()
        invariant
            0 <= m <= a.digits@.len(),
            padded@ =~= zprefix + a.digits@.subrange(0, m as int),
        decreases a.digits@.len() - m,
    {
        padded.push(a.digits[m]);
        m = m + 1;
        proof {
            assert(padded@ =~= zprefix + a.digits@.subrange(0, m as int));
        }
    }
    proof {
        assert(padded@ =~= spec_padded);
        lemma_zero_seq_value((p + 1 - a@.len()) as nat);
        assert(digit_seq_wf(padded@));
    }
    let cut = padded.len() - p;
    // Trim trailing zeros of the fractional part.
    let mut e: usize = padded.len();
    while e > cut && padded[e - 1] == 0
        invariant
            cut <= e <= padded@.len(),
            forall|j: int| e <= j < padded@.len() ==> padded@[j] == 0,
        decreases e,
    {
        e = e - 1;
    }
    let mut out: Vec<u8> = Vec::new();
    let mut q: usize = 0;
    while q < cut
        invariant
            0 <= q <= cut <= padded@.len(),
            digit_seq_wf(padded@),
            out@ =~= text_of_digits(padded@.subrange(0, q as int)),
        decreases cut - q,
    {
        out.push(padded[q] + 48);
        q = q + 1;
        proof {
            assert(out@ =~= text_of_digits(padded@.subrange(0, q as int)));
        }
    }
    proof {
        assert(out@ =~= text_of_digits(padded@.take(cut as int)));
    }
    if e > cut {
        out.push(DOT);
        let ghost head = out@;
        let mut k: usize = cut;
        while k < e
            invariant
                cut <= k <= e <= padded@.len(),
                digit_seq_wf(padded@),
                out@ =~= head + text_of_digits(padded@.subrange(cut as int, k as int)),
            decreases e - k,
        {
            out.push(padded[k] + 48);
            k = k + 1;
            proof {
                assert(out@ =~= head + text_of_digits(padded@.subrange(cut as int, k as int)));
            }
        }
    }
    proof {
        let fp_full = padded@.skip(cut as int);
        lemma_trim_take(fp_full, e - cut);
        assert(fp_full.take(e - cut) =~= padded@.subrange(cut as int, e as int));
        if e > cut {
            assert(out@ =~= text_of_digits(padded@.take(cut as int)) + seq![DOT] + text_of_digits(
                padded@.subrange(cut as int, e as int),
            ));
            assert(out@ =~= rendered(a@, decimals as nat));
        } else {
            assert(trim_trailing_zeros(fp_full).len() == 0);
            assert(out@ =~= rendered(a@, decimals as nat));
        }
    }
    Ok(out)
}

/// Decimal text in canonical form: a valid unsigned decimal whose integer
/// part is `0` or carries no leading zero, and whose fractional part, if
/// present, does not end in a zero.
pub open spec fn canonical_decimal(s: Seq<u8>) -> bool {
    &&& valid_decimal(s)
    &&& (int_text(s) == seq![ZERO_CHAR] || int_text(s)[0] != ZERO_CHAR)
    &&& (frac_text(s).len() > 0 ==> frac_text(s).last() != ZERO_CHAR)
}

/// Round-trip law: rendering the scaled digit string of a canonical
/// decimal text at the same precision reproduces the text exactly.
pub proof fn lemma_rendered_round_trip(s: Seq<u8>, p: nat)
    requires
        canonical_decimal(s),
        frac_text(s).len() <= p,
    ensures
        rendered(scaled_digits(s, p), p) == s,
{
    let it = int_text(s);
    let ft = frac_text(s);
    let idg = digits_of_text(it);
    let fdg = digits_of_text(ft);
    let zn = (p - ft.len()) as nat;
    let z = zero_seq(zn);
    let whole = idg + fdg + z;
    let digs = scaled_digits(s, p);
    lemma_zero_seq_value(zn);
    lemma_text_digit_roundtrip(it);
    lemma_text_digit_roundtrip(ft);
    lemma_first_dot_bounds(s);
    assert(digit_seq_wf(whole)) by {
        assert forall|j: int| 0 <= j < whole.len() implies whole[j] < 10 by {
            if j < idg.len() {
                assert(whole[j] == idg[j]);
            } else if j < idg.len() + fdg.len() {
                assert(whole[j] == fdg[j - idg.len()]);
            } else {
                assert(whole[j] == z[j - idg.len() - fdg.len()]);
            }
        }
    }
    // The fractional digits carry no trailing zero, so trimming the
    // fraction-with-padding recovers them exactly.
    lemma_trim_append_zeros(fdg, zn);
    assert(fdg + z =~= fdg + zero_seq(zn));
    if ft.len() > 0 {
        assert(fdg.last() == (ft.last() - 48) as u8);
        assert(fdg.last() != 0);
        assert(trim_trailing_zeros(fdg) == fdg);
    } else {
        assert(fdg =~= Seq::<u8>::empty());
        assert(trim_trailing_zeros(fdg) == fdg);
    }
    // The shape of the input text: integer part, then a dot and the
    // fraction if and only if the fraction is nonempty.
    if ft.len() == 0 {
        assert(first_dot(s) == s.len());
        assert(it =~= s);
    } else {
        assert(first_dot(s) < s.len());
        assert(s[first_dot(s)] == DOT);
        assert(s =~= it + seq![DOT] + ft);
    }
    if it == seq![ZERO_CHAR] {
        // Zero integer part: the scaled digits are the fraction with its
        // padding, stripped; the rendering pads a single zero back.
        assert(idg =~= seq![0u8]);
        assert(whole[0] == 0);
        assert(whole.drop_first() =~= fdg + z);
        assert(digs == strip_leading_zeros(fdg + z));
        lemma_strip_canonical(fdg + z);
        lemma_strip_reconstruct(whole);
        assert(digs.len() <= fdg.len() + zn);
        assert(fdg.len() + zn == p);
        assert(whole.len() == p + 1);
        let padded = zero_seq((p + 1 - digs.len()) as nat) + digs;
        assert(padded =~= whole);
        assert(padded.len() - p == 1);
        assert(padded.take(1) =~= seq![0u8]);
        assert(padded.skip(1) =~= fdg + z);
        assert(text_of_digits(seq![0u8]) =~= seq![ZERO_CHAR]);
        assert(text_of_digits(seq![0u8]) =~= it);
        if ft.len() == 0 {
            assert(trim_trailing_zeros(padded.skip(1)).len() == 0);
            assert(rendered(digs, p) == text_of_digits(padded.take(1)));
            assert(rendered(digs, p) =~= s);
        } else {
            assert(trim_trailing_zeros(padded.skip(1)) == fdg);
            assert(rendered(digs, p) == text_of_digits(padded.take(1)) + seq![DOT]
                + text_of_digits(fdg));
            assert(rendered(digs, p) =~= s);
        }
    } else {
        // Nonzero integer part: nothing is stripped, and the rendering
        // splits exactly at the integer digits.
        assert(it[0] != ZERO_CHAR);
        assert(it.len() > 0);
        assert(is_digit_char(it[0]));
        assert(idg[0] == (it[0] - 48) as u8);
        assert(whole[0] == idg[0]);
        assert(whole[0] != 0);
        assert(digs == whole);
        assert(digs.len() == it.len() + p);
        assert(digs.len() >= p + 1);
        let cut = digs.len() - p;
        assert(cut == it.len());
        assert(digs.take(cut) =~= idg);
        assert(digs.skip(cut) =~= fdg + z);
        assert(text_of_digits(idg) =~= it);
        if ft.len() == 0 {
            assert(trim_trailing_zeros(digs.skip(cut)).len() == 0);
            assert(rendered(digs, p) == text_of_digits(digs.take(cut)));
            assert(rendered(digs, p) =~= s);
        } else {
            assert(trim_trailing_zeros(digs.skip(cut)) == fdg);
            assert(rendered(digs, p) == text_of_digits(digs.take(cut)) + seq![DOT]
                + text_of_digits(fdg));
            assert(rendered(digs, p) =~= s);
        }
    }
}

/// Round-trip law at the conversion interface: whenever `to_base_units`
/// accepts a canonical decimal text, `from_base_units` at the same
/// precision reproduces that text exactly.
pub proof fn lemma_unit_round_trip(s: Seq<u8>, decimals: u64)
    requires
        canonical_decimal(s),
        to_base_spec(s, decimals) is Ok,
    ensures
        from_base_spec(to_base_spec(s, decimals)->Ok_0, decimals) == Ok::<Seq<u8>, UnitError>(s),
{
    lemma_rendered_round_trip(s, decimals as nat);
}

/// The scaled digit string denotes exactly the scaled decimal value.
pub proof fn lemma_scaled_value(s: Seq<u8>, p: nat)
    requires
        valid_decimal(s),
        frac_text(s).len() <= p,
    ensures
        digits_value(scaled_digits(s, p)) == decimal_value_scaled(s, p),
{
    let id = digits_of_text(int_text(s));
    let fd = digits_of_text(frac_text(s));
    let zn = (p - frac_text(s).len()) as nat;
    let z = zero_seq(zn);
    lemma_strip_value(id + fd + z);
    lemma_digits_value_append(id + fd, z);
    lemma_digits_value_append(id, fd);
    lemma_zero_seq_value(zn);
    lemma_pow10_adds(fd.len(), zn);
    assert(fd.len() + zn == p);
    assert((digits_value(id) * pow10(fd.len()) + digits_value(fd)) * pow10(zn) == digits_value(id)
        * (pow10(fd.len()) * pow10(zn)) + digits_value(fd) * pow10(zn)) by (nonlinear_arith);
}

} // verus!
