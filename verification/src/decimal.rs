use vstd::prelude::*;
use crate::errors::VerificationError;

verus! {

// ---------------------------------------------------------------------------
// Decimal digit strings and their mathematical value
// ---------------------------------------------------------------------------

/// Every byte of `s` is an ASCII decimal digit.
pub open spec fn is_dec_digits(s: Seq<u8>) -> bool {
    forall|i: int| 0 <= i < s.len() ==> 48 <= #[trigger] s[i] <= 57
}

/// Non-empty digit string without a superfluous leading zero.
pub open spec fn is_canonical(s: Seq<u8>) -> bool {
    &&& is_dec_digits(s)
    &&& s.len() >= 1
    &&& (s.len() > 1 ==> s[0] != 48)
}

/// Numeric value of a big-endian string of ASCII decimal digits.
pub open spec fn dec_value(s: Seq<u8>) -> int
    decreases s.len(),
{
    if s.len() == 0 {
        0
    } else {
        dec_value(s.drop_last()) * 10 + (s.last() - 48)
    }
}

pub open spec fn pow10(n: nat) -> int
    decreases n,
{
    if n == 0 {
        1
    } else {
        10 * pow10((n - 1) as nat)
    }
}

/// Big-endian ASCII decimal digits of a non-negative integer; empty for 0.
pub open spec fn digits_of(n: int) -> Seq<u8>
    decreases n,
{
    if n <= 0 {
        Seq::empty()
    } else {
        digits_of(n / 10).push((n % 10 + 48) as u8)
    }
}

/// Modulus of the base field of the BN254 pairing curve.
pub open spec fn fq_modulus() -> int {
    21888242871839275222246405745257275088696311157297823662689037894645226208583int
}

/// Modulus of the scalar field of the BN254 pairing curve.
pub open spec fn fr_modulus() -> int {
    21888242871839275222246405745257275088548364400416034343698204186575808495617int
}

// ---------------------------------------------------------------------------
// Lemmas
// ---------------------------------------------------------------------------

pub proof fn lemma_pow10_pos(n: nat)
    ensures
        pow10(n) >= 1,
    decreases n,
{
    if n > 0 {
        lemma_pow10_pos((n - 1) as nat);
    }
}

pub proof fn lemma_pow10_mono(a: nat, b: nat)
    requires
        a <= b,
    ensures
        pow10(a) <= pow10(b),
    decreases b,
{
    lemma_pow10_pos(a);
    if a < b {
        lemma_pow10_mono(a, (b - 1) as nat);
        lemma_pow10_pos((b - 1) as nat);
    }
}

/// The digits of a positive integer form a canonical string whose value is
/// that integer.
pub proof fn lemma_digits_of_wf(n: int)
    requires
        n >= 1,
    ensures
        is_canonical(digits_of(n)),
        dec_value(digits_of(n)) == n,
        digits_of(n)[0] != 48,
    decreases n,
{
    let d: u8 = (n % 10 + 48) as u8;
    let rest = digits_of(n / 10);
    assert(digits_of(n) == rest.push(d));
    assert(rest.push(d).drop_last() =~= rest);
    assert(rest.push(d).last() == d);
    assert(digits_of(n).drop_last() =~= rest);
    assert(digits_of(n).last() == d);
    if n < 10 {
        assert(rest =~= Seq::<u8>::empty());
        assert(dec_value(rest) == 0);
        assert(digits_of(n).len() == 1);
        assert(n % 10 == n);
        assert(dec_value(digits_of(n)) == n);
        assert forall|i: int| 0 <= i < digits_of(n).len() implies 48 <= #[trigger] digits_of(
            n,
        )[i] <= 57 by {
            assert(digits_of(n)[i] == d);
        }
    } else {
        lemma_digits_of_wf(n / 10);
        assert(dec_value(digits_of(n)) == (n / 10) * 10 + n % 10);
        assert((n / 10) * 10 + n % 10 == n);
        assert forall|i: int| 0 <= i < digits_of(n).len() implies 48 <= #[trigger] digits_of(
            n,
        )[i] <= 57 by {
            if i < rest.len() {
                assert(digits_of(n)[i] == rest[i]);
            } else {
                assert(digits_of(n)[i] == d);
            }
        }
        assert(digits_of(n)[0] == rest[0]);
    }
}

/// The value of a digit string is bounded by the power of ten of its length.
pub proof fn lemma_dec_value_bounds(s: Seq<u8>)
    requires
        is_dec_digits(s),
    ensures
        0 <= dec_value(s) < pow10(s.len() as nat),
    decreases s.len(),
{
    if s.len() == 0 {
    } else {
        let p = s.drop_last();
        assert(is_dec_digits(p));
        lemma_dec_value_bounds(p);
        lemma_pow10_pos((s.len() - 1) as nat);
        assert(pow10(s.len() as nat) == 10 * pow10((s.len() - 1) as nat));
    }
}

/// A digit string with a non-zero leading digit is at least the power of ten
/// of its length minus one.
pub proof fn lemma_dec_value_lower(s: Seq<u8>)
    requires
        is_dec_digits(s),
        s.len() >= 1,
        s[0] != 48,
    ensures
        dec_value(s) >= pow10((s.len() - 1) as nat),
    decreases s.len(),
{
    if s.len() == 1 {
        assert(s.drop_last() =~= Seq::<u8>::empty());
        assert(dec_value(s.drop_last()) == 0);
        assert(s.last() == s[0]);
        assert(s[0] >= 49);
        assert(pow10(0) == 1);
        assert(dec_value(s) >= 1);
    } else {
        let p = s.drop_last();
        assert(is_dec_digits(p));
        assert(p[0] == s[0]);
        lemma_dec_value_lower(p);
        assert(s.last() >= 48);
        assert(pow10((s.len() - 1) as nat) == 10 * pow10((s.len() - 2) as nat));
        assert(dec_value(p) * 10 >= pow10((s.len() - 2) as nat) * 10);
    }
}

/// Lexicographic order of equal-length digit strings agrees with numeric order.
pub proof fn lemma_dec_value_lex(a: Seq<u8>, b: Seq<u8>, k: int)
    requires
        is_dec_digits(a),
        is_dec_digits(b),
        a.len() == b.len(),
        0 <= k < a.len(),
        forall|i: int| 0 <= i < k ==> a[i] == b[i],
        a[k] < b[k],
    ensures
        dec_value(a) < dec_value(b),
    decreases a.len(),
{
    let pa = a.drop_last();
    let pb = b.drop_last();
    assert(is_dec_digits(pa));
    assert(is_dec_digits(pb));
    if k == a.len() - 1 {
        assert(pa =~= pb);
    } else {
        lemma_dec_value_lex(pa, pb, k);
        assert(dec_value(pa) * 10 + 10 <= dec_value(pb) * 10);
    }
}

/// A leading zero does not change the value.
pub proof fn lemma_strip_zero(s: Seq<u8>)
    requires
        s.len() >= 1,
        s[0] == 48,
    ensures
        dec_value(s.skip(1)) == dec_value(s),
    decreases s.len(),
{
    if s.len() == 1 {
        assert(s.skip(1) =~= Seq::<u8>::empty());
        assert(s.drop_last() =~= Seq::<u8>::empty());
    } else {
        let p = s.drop_last();
        assert(p[0] == 48);
        lemma_strip_zero(p);
        assert(p.skip(1) =~= s.skip(1).drop_last());
        assert(s.skip(1).last() == s.last());
    }
}

/// A prefix of zeros does not change the value.
pub proof fn lemma_strip_prefix(s: Seq<u8>, k: int)
    requires
        0 <= k <= s.len(),
        forall|j: int| 0 <= j < k ==> s[j] == 48,
    ensures
        dec_value(s.skip(k)) == dec_value(s),
    decreases k,
{
    if k == 0 {
        assert(s.skip(0) =~= s);
    } else {
        lemma_strip_prefix(s, k - 1);
        let t = s.skip(k - 1);
        assert(t[0] == s[k - 1]);
        lemma_strip_zero(t);
        assert(t.skip(1) =~= s.skip(k));
    }
}

/// The only canonical digit string of value zero is "0".
pub proof fn lemma_canonical_zero(s: Seq<u8>)
    requires
        is_canonical(s),
    ensures
        (dec_value(s) == 0) <==> (s.len() == 1 && s[0] == 48),
{
    if s.len() == 1 {
        assert(s.drop_last() =~= Seq::<u8>::empty());
        assert(dec_value(s.drop_last()) == 0);
        assert(s.last() == s[0]);
        assert(dec_value(s) == s[0] - 48);
    } else {
        lemma_dec_value_lower(s);
        lemma_pow10_pos((s.len() - 2) as nat);
        assert(pow10((s.len() - 1) as nat) == 10 * pow10((s.len() - 2) as nat));
    }
}

/// A digit string with superfluous leading zeros stripped.
pub open spec fn spec_canon(t: Seq<u8>) -> Seq<u8>
    decreases t.len(),
{
    if t.len() > 1 && t[0] == 48 {
        spec_canon(t.skip(1))
    } else {
        t
    }
}

/// What parsing a decimal token against the modulus `m` returns: the
/// canonical digits of its value, or the error naming how it fails.
pub open spec fn spec_field_tok(t: Seq<u8>, m: int) -> Result<Seq<u8>, VerificationError> {
    if !(t.len() >= 1 && is_dec_digits(t)) {
        Err(VerificationError::MalformedNumber)
    } else if dec_value(t) >= m {
        Err(VerificationError::OutOfRange)
    } else {
        Ok(spec_canon(t))
    }
}

// ---------------------------------------------------------------------------
// Executable comparison and parsing
// ---------------------------------------------------------------------------

/// Numeric "less than" on canonical decimal strings.
pub fn dec_lt(a: &Vec<u8>, b: &Vec<u8>) -> (r: bool)
    requires
        is_canonical(a@),
        is_canonical(b@),
    ensures
        r == (dec_value(a@) < dec_value(b@)),
{
    if a.len() < b.len() {
        proof {
            lemma_dec_value_bounds(a@);
            lemma_dec_value_lower(b@);
            lemma_pow10_mono(a@.len() as nat, (b@.len() - 1) as nat);
        }
        true
    } else if b.len() < a.len() {
        proof {
            lemma_dec_value_bounds(b@);
            lemma_dec_value_lower(a@);
            lemma_pow10_mono(b@.len() as nat, (a@.len() - 1) as nat);
        }
        false
    } else {
        let mut i: usize = 0;
        while i < a.len()
            invariant
                a@.len() == b@.len(),
                i <= a@.len(),
                forall|j: int| 0 <= j < i ==> a@[j] == b@[j],
                is_canonical(a@),
                is_canonical(b@),
            decreases a@.len() - i,
        {
            if a[i] < b[i] {
                proof {
                    lemma_dec_value_lex(a@, b@, i as int);
                }
                return true;
            }
            if b[i] < a[i] {
                proof {
                    lemma_dec_value_lex(b@, a@, i as int);
                }
                return false;
            }
            i = i + 1;
        }
        proof {
            assert(a@ =~= b@);
        }
        false
    }
}

/// Strip superfluous leading zeros from a non-empty digit string.
pub fn canonicalize(s: &Vec<u8>) -> (r: Vec<u8>)
    requires
        is_dec_digits(s@),
        s@.len() >= 1,
    ensures
        is_canonical(r@),
        dec_value(r@) == dec_value(s@),
        r@ == spec_canon(s@),
{
    let mut i: usize = 0;
    proof {
        assert(s@.skip(0) =~= s@);
    }
    while i < s.len() - 1 && s[i] == 48
        invariant
            s@.len() >= 1,
            i < s@.len(),
            forall|j: int| 0 <= j < i ==> s@[j] == 48,
            spec_canon(s@.skip(i as int)) == spec_canon(s@),
        decreases s@.len() - i,
    {
        proof {
            assert(s@.skip(i as int).skip(1) =~= s@.skip(i + 1));
        }
        i = i + 1;
    }
    proof {
        assert(spec_canon(s@.skip(i as int)) == s@.skip(i as int));
    }
    proof {
        lemma_strip_prefix(s@, i as int);
    }
    let mut r: Vec<u8> = Vec::new();
    let mut j: usize = i;
    while j < s.len()
        invariant
            i <= j <= s@.len(),
            r@ =~= s@.subrange(i as int, j as int),
        decreases s@.len() - j,
    {
        r.push(s[j]);
        j = j + 1;
    }
    proof {
        assert(r@ =~= s@.skip(i as int));
    }
    r
}

/// A validated field element: the canonical decimal digits of a value known
/// to lie below the modulus it was parsed against.
pub struct FieldElement {
    pub digits: Vec<u8>,
}

impl FieldElement {
    /// The mathematical value this element denotes.
    pub open spec fn value(self) -> int {
        dec_value(self.digits@)
    }

    /// Well-formed with respect to the modulus `m`.
    pub open spec fn wf_mod(self, m: int) -> bool {
        &&& is_canonical(self.digits@)
        &&& self.value() < m
    }

    /// Whether this element is the zero of its field.
    pub fn is_zero(&self) -> (r: bool)
        requires
            is_canonical(self.digits@),
        ensures
            r == (self.value() == 0),
    {
        proof {
            lemma_canonical_zero(self.digits@);
        }
        self.digits.len() == 1 && self.digits[0] == 48
    }
}

/// Parse a decimal token as a field element of the field whose modulus has
/// the canonical digit string `m`. The token must be a non-empty string of
/// digits (`MalformedNumber` otherwise) denoting a value strictly below the
/// modulus (`OutOfRange` otherwise); values are never silently reduced.
pub fn parse_field_element(s: &Vec<u8>, m: &Vec<u8>) -> (r: Result<
    FieldElement,
    VerificationError,
>)
    requires
        is_canonical(m@),
    ensures
        (r is Ok) <==> (s@.len() >= 1 && is_dec_digits(s@) && dec_value(s@) < dec_value(m@)),
        r matches Ok(f) ==> f.wf_mod(dec_value(m@)) && f.value() == dec_value(s@),
        r matches Err(e) ==> ((e == VerificationError::MalformedNumber) <==> !(s@.len() >= 1
            && is_dec_digits(s@))),
        r matches Err(e) ==> ((e == VerificationError::OutOfRange) <==> (s@.len() >= 1
            && is_dec_digits(s@) && dec_value(s@) >= dec_value(m@))),
        r matches Ok(f) ==> spec_field_tok(s@, dec_value(m@)) == Ok::<Seq<u8>, VerificationError>(
            f.digits@,
        ),
        r matches Err(e) ==> spec_field_tok(s@, dec_value(m@)) == Err::<Seq<u8>, VerificationError>(
            e,
        ),
{
    if s.len() == 0 {
        return Err(VerificationError::MalformedNumber);
    }
    let mut i: usize = 0;
    while i < s.len()
        invariant
            i <= s@.len(),
            forall|j: int| 0 <= j < i ==> 48 <= #[trigger] s@[j] <= 57,
        decreases s@.len() - i,
    {
        let c = s[i];
        if c < 48 || c > 57 {
            return Err(VerificationError::MalformedNumber);
        }
        i = i + 1;
    }
    let d = canonicalize(s);
    if dec_lt(&d, m) {
        Ok(FieldElement { digits: d })
    } else {
        Err(VerificationError::OutOfRange)
    }
}

} // verus!
