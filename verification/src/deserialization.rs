use vstd::prelude::*;
use crate::decimal::{
    digits_of, dec_value, fq_modulus, fr_modulus, is_canonical, lemma_digits_of_wf,
    parse_field_element, spec_field_tok, FieldElement,
};
use crate::errors::VerificationError;

verus! {

// ---------------------------------------------------------------------------
// Decoded objects
// ---------------------------------------------------------------------------

/// An affine point of group 1 as decoded from text: a coordinate pair, or the
/// point at infinity. Curve membership is deliberately not checked here; that
/// is the preparation layer's single responsibility.
pub enum G1Affine {
    Infinity,
    Point { x: FieldElement, y: FieldElement },
}

/// An affine point of the group-2 twist curve: two coordinates of the
/// quadratic extension field, each a pair of base-field elements.
pub enum G2Affine {
    Infinity,
    Point { x0: FieldElement, x1: FieldElement, y0: FieldElement, y1: FieldElement },
}

impl G1Affine {
    /// Coordinate view: `None` is the point at infinity.
    pub open spec fn view(self) -> Option<(Seq<u8>, Seq<u8>)> {
        match self {
            G1Affine::Infinity => None,
            G1Affine::Point { x, y } => Some((x.digits@, y.digits@)),
        }
    }

    pub open spec fn wf(self) -> bool {
        match self {
            G1Affine::Infinity => true,
            G1Affine::Point { x, y } => x.wf_mod(fq_modulus()) && y.wf_mod(fq_modulus()),
        }
    }
}

impl G2Affine {
    /// Coordinate view: `None` is the point at infinity.
    pub open spec fn view(self) -> Option<(Seq<u8>, Seq<u8>, Seq<u8>, Seq<u8>)> {
        match self {
            G2Affine::Infinity => None,
            G2Affine::Point { x0, x1, y0, y1 } => Some(
                (x0.digits@, x1.digits@, y0.digits@, y1.digits@),
            ),
        }
    }

    pub open spec fn wf(self) -> bool {
        match self {
            G2Affine::Infinity => true,
            G2Affine::Point { x0, x1, y0, y1 } => x0.wf_mod(fq_modulus()) && x1.wf_mod(
                fq_modulus(),
            ) && y0.wf_mod(fq_modulus()) && y1.wf_mod(fq_modulus()),
        }
    }
}

/// A decoded verification key. `ic` must hold one entry more than the number
/// of public inputs of the circuit; that count is checked by the verification
/// engine, where both sides of the comparison are in scope.
pub struct VKey {
    pub alpha: G1Affine,
    pub beta: G2Affine,
    pub gamma: G2Affine,
    pub delta: G2Affine,
    pub ic: Vec<G1Affine>,
}

impl VKey {
    pub open spec fn wf(self) -> bool {
        &&& self.alpha.wf()
        &&& self.beta.wf()
        &&& self.gamma.wf()
        &&& self.delta.wf()
        &&& forall|i: int| 0 <= i < self.ic@.len() ==> (#[trigger] self.ic@[i]).wf()
    }
}

/// A decoded proof.
pub struct Proof {
    pub a: G1Affine,
    pub b: G2Affine,
    pub c: G1Affine,
}

impl Proof {
    pub open spec fn wf(self) -> bool {
        self.a.wf() && self.b.wf() && self.c.wf()
    }
}


/// Ghost image of a decoded verification key.
pub ghost struct VKeyData {
    pub alpha: Option<(Seq<u8>, Seq<u8>)>,
    pub beta: Option<(Seq<u8>, Seq<u8>, Seq<u8>, Seq<u8>)>,
    pub gamma: Option<(Seq<u8>, Seq<u8>, Seq<u8>, Seq<u8>)>,
    pub delta: Option<(Seq<u8>, Seq<u8>, Seq<u8>, Seq<u8>)>,
    pub ic: Seq<Option<(Seq<u8>, Seq<u8>)>>,
}

impl VKey {
    /// The coordinate image of the whole key.
    pub open spec fn data(self) -> VKeyData {
        VKeyData {
            alpha: self.alpha.view(),
            beta: self.beta.view(),
            gamma: self.gamma.view(),
            delta: self.delta.view(),
            ic: Seq::new(self.ic@.len(), |i: int| self.ic@[i].view()),
        }
    }
}

/// Ghost image of a decoded proof.
pub ghost struct ProofData {
    pub a: Option<(Seq<u8>, Seq<u8>)>,
    pub b: Option<(Seq<u8>, Seq<u8>, Seq<u8>, Seq<u8>)>,
    pub c: Option<(Seq<u8>, Seq<u8>)>,
}

impl Proof {
    /// The coordinate image of the whole proof.
    pub open spec fn data(self) -> ProofData {
        ProofData { a: self.a.view(), b: self.b.view(), c: self.c.view() }
    }
}

// ---------------------------------------------------------------------------
// Modulus constants, as executable digit strings
// ---------------------------------------------------------------------------

/// The decimal digits of the base-field modulus.
#[verifier::rlimit(100)]
pub fn fq_mod_dec() -> (r: Vec<u8>)
    ensures
        r@ == digits_of(fq_modulus()),
        is_canonical(r@),
        dec_value(r@) == fq_modulus(),
{
    let lit: [u8; 77] = [
        50u8, 49u8, 56u8, 56u8, 56u8, 50u8, 52u8, 50u8, 56u8, 55u8, 49u8, 56u8, 51u8, 57u8,
        50u8, 55u8, 53u8, 50u8, 50u8, 50u8, 50u8, 52u8, 54u8, 52u8, 48u8, 53u8, 55u8, 52u8,
        53u8, 50u8, 53u8, 55u8, 50u8, 55u8, 53u8, 48u8, 56u8, 56u8, 54u8, 57u8, 54u8, 51u8,
        49u8, 49u8, 49u8, 53u8, 55u8, 50u8, 57u8, 55u8, 56u8, 50u8, 51u8, 54u8, 54u8, 50u8,
        54u8, 56u8, 57u8, 48u8, 51u8, 55u8, 56u8, 57u8, 52u8, 54u8, 52u8, 53u8, 50u8, 50u8,
        54u8, 50u8, 48u8, 56u8, 53u8, 56u8, 51u8,
    ];
    let mut r: Vec<u8> = Vec::new();
    let mut i: usize = 0;
    while i < 77
        invariant
            i <= 77,
            r@ =~= lit@.take(i as int),
        decreases 77 - i,
    {
        r.push(lit[i]);
        i = i + 1;
    }
    proof {
        reveal_with_fuel(digits_of, 79);
        assert(r@ =~= digits_of(fq_modulus()));
        lemma_digits_of_wf(fq_modulus());
    }
    r
}

/// The decimal digits of the scalar-field modulus.
#[verifier::rlimit(100)]
pub fn fr_mod_dec() -> (r: Vec<u8>)
    ensures
        r@ == digits_of(fr_modulus()),
        is_canonical(r@),
        dec_value(r@) == fr_modulus(),
{
    let lit: [u8; 77] = [
        50u8, 49u8, 56u8, 56u8, 56u8, 50u8, 52u8, 50u8, 56u8, 55u8, 49u8, 56u8, 51u8, 57u8,
        50u8, 55u8, 53u8, 50u8, 50u8, 50u8, 50u8, 52u8, 54u8, 52u8, 48u8, 53u8, 55u8, 52u8,
        53u8, 50u8, 53u8, 55u8, 50u8, 55u8, 53u8, 48u8, 56u8, 56u8, 53u8, 52u8, 56u8, 51u8,
        54u8, 52u8, 52u8, 48u8, 48u8, 52u8, 49u8, 54u8, 48u8, 51u8, 52u8, 51u8, 52u8, 51u8,
        54u8, 57u8, 56u8, 50u8, 48u8, 52u8, 49u8, 56u8, 54u8, 53u8, 55u8, 53u8, 56u8, 48u8,
        56u8, 52u8, 57u8, 53u8, 54u8, 49u8, 55u8,
    ];
    let mut r: Vec<u8> = Vec::new();
    let mut i: usize = 0;
    while i < 77
        invariant
            i <= 77,
            r@ =~= lit@.take(i as int),
        decreases 77 - i,
    {
        r.push(lit[i]);
        i = i + 1;
    }
    proof {
        reveal_with_fuel(digits_of, 79);
        assert(r@ =~= digits_of(fr_modulus()));
        lemma_digits_of_wf(fr_modulus());
    }
    r
}

// ---------------------------------------------------------------------------
// Textual decoding: a small reader for the JSON shapes of the three
// documents, stated first as spec-level parsers and then implemented by
// executable parsers proved to return exactly what the spec parsers say.
// Strings may not contain escapes (every value here is a decimal number and
// every key a plain identifier); objects accept their keys in any order,
// reject unknown and duplicate keys, and demand every expected key.
// ---------------------------------------------------------------------------

pub open spec fn is_ws(b: u8) -> bool {
    b == 32 || b == 9 || b == 10 || b == 13
}

/// Position of the first non-whitespace byte at or after `i`.
pub open spec fn spec_ws(s: Seq<u8>, i: int) -> int
    decreases s.len() - i,
{
    if 0 <= i && i < s.len() && is_ws(s[i]) {
        spec_ws(s, i + 1)
    } else {
        i
    }
}

/// Skip whitespace and demand the byte `ch` next.
pub open spec fn spec_expect(s: Seq<u8>, i: int, ch: u8) -> Result<int, VerificationError> {
    let j = spec_ws(s, i);
    if j < s.len() && s[j] == ch {
        Ok(j + 1)
    } else {
        Err(VerificationError::SchemaError)
    }
}

/// Position of the closing quote of a string body starting at `j`; escapes
/// and an unterminated string are schema failures.
pub open spec fn spec_str_end(s: Seq<u8>, j: int) -> Result<int, VerificationError>
    decreases s.len() - j,
{
    if !(0 <= j && j < s.len()) {
        Err(VerificationError::SchemaError)
    } else if s[j] == 34 {
        Ok(j)
    } else if s[j] == 92 {
        Err(VerificationError::SchemaError)
    } else {
        spec_str_end(s, j + 1)
    }
}

/// A quoted string: its contents and the position after the closing quote.
pub open spec fn spec_token(s: Seq<u8>, i: int) -> Result<(Seq<u8>, int), VerificationError> {
    match spec_expect(s, i, 34) {
        Err(e) => Err(e),
        Ok(j) => match spec_str_end(s, j) {
            Err(e) => Err(e),
            Ok(e2) => Ok((s.subrange(j, e2), e2 + 1)),
        },
    }
}

/// A quoted decimal token validated against the modulus `m`.
pub open spec fn spec_field(s: Seq<u8>, i: int, m: int) -> Result<
    (Seq<u8>, int),
    VerificationError,
> {
    match spec_token(s, i) {
        Err(e) => Err(e),
        Ok(t) => match spec_field_tok(t.0, m) {
            Err(e) => Err(e),
            Ok(d) => Ok((d, t.1)),
        },
    }
}

/// A group-1 point `[x, y]`; the all-zero pair is the point at infinity.
pub open spec fn spec_g1(s: Seq<u8>, i: int) -> Result<
    (Option<(Seq<u8>, Seq<u8>)>, int),
    VerificationError,
> {
    match spec_expect(s, i, 91) {
        Err(e) => Err(e),
        Ok(j) => match spec_field(s, j, fq_modulus()) {
            Err(e) => Err(e),
            Ok((x, j2)) => match spec_expect(s, j2, 44) {
                Err(e) => Err(e),
                Ok(j3) => match spec_field(s, j3, fq_modulus()) {
                    Err(e) => Err(e),
                    Ok((y, j4)) => match spec_expect(s, j4, 93) {
                        Err(e) => Err(e),
                        Ok(j5) => if dec_value(x) == 0 && dec_value(y) == 0 {
                            Ok((None, j5))
                        } else {
                            Ok((Some((x, y)), j5))
                        },
                    },
                },
            },
        },
    }
}

/// One extension-field coordinate `[c0, c1]`.
pub open spec fn spec_fq2(s: Seq<u8>, i: int) -> Result<
    ((Seq<u8>, Seq<u8>), int),
    VerificationError,
> {
    match spec_expect(s, i, 91) {
        Err(e) => Err(e),
        Ok(j) => match spec_field(s, j, fq_modulus()) {
            Err(e) => Err(e),
            Ok((c0, j2)) => match spec_expect(s, j2, 44) {
                Err(e) => Err(e),
                Ok(j3) => match spec_field(s, j3, fq_modulus()) {
                    Err(e) => Err(e),
                    Ok((c1, j4)) => match spec_expect(s, j4, 93) {
                        Err(e) => Err(e),
                        Ok(j5) => Ok(((c0, c1), j5)),
                    },
                },
            },
        },
    }
}

/// A group-2 point `[[x0, x1], [y0, y1]]`; the all-zero nest is the point at
/// infinity.
pub open spec fn spec_g2(s: Seq<u8>, i: int) -> Result<
    (Option<(Seq<u8>, Seq<u8>, Seq<u8>, Seq<u8>)>, int),
    VerificationError,
> {
    match spec_expect(s, i, 91) {
        Err(e) => Err(e),
        Ok(j) => match spec_fq2(s, j) {
            Err(e) => Err(e),
            Ok(((x0, x1), j2)) => match spec_expect(s, j2, 44) {
                Err(e) => Err(e),
                Ok(j3) => match spec_fq2(s, j3) {
                    Err(e) => Err(e),
                    Ok(((y0, y1), j4)) => match spec_expect(s, j4, 93) {
                        Err(e) => Err(e),
                        Ok(j5) => if dec_value(x0) == 0 && dec_value(x1) == 0 && dec_value(y0)
                            == 0 && dec_value(y1) == 0 {
                            Ok((None, j5))
                        } else {
                            Ok((Some((x0, x1, y0, y1)), j5))
                        },
                    },
                },
            },
        },
    }
}

/// The comma-separated tail of a non-empty array of group-1 points, up to and
/// including the closing bracket. The `k + 1 > j` guard only keeps the
/// measure decreasing: a successful element parse never moves backwards.
pub open spec fn spec_g1_items(s: Seq<u8>, j: int) -> Result<
    (Seq<Option<(Seq<u8>, Seq<u8>)>>, int),
    VerificationError,
>
    decreases s.len() - j,
{
    match spec_g1(s, j) {
        Err(e) => Err(e),
        Ok((p, j2)) => {
            let k = spec_ws(s, j2);
            if !(0 <= k && k < s.len()) {
                Err(VerificationError::SchemaError)
            } else if s[k] == 93 {
                Ok((seq![p], k + 1))
            } else if s[k] == 44 && k + 1 > j {
                match spec_g1_items(s, k + 1) {
                    Err(e) => Err(e),
                    Ok((rest, j3)) => Ok((seq![p] + rest, j3)),
                }
            } else {
                Err(VerificationError::SchemaError)
            }
        },
    }
}

/// An array of group-1 points.
pub open spec fn spec_g1_array(s: Seq<u8>, i: int) -> Result<
    (Seq<Option<(Seq<u8>, Seq<u8>)>>, int),
    VerificationError,
> {
    match spec_expect(s, i, 91) {
        Err(e) => Err(e),
        Ok(j) => {
            let k = spec_ws(s, j);
            if k < s.len() && s[k] == 93 {
                Ok((Seq::empty(), k + 1))
            } else {
                spec_g1_items(s, j)
            }
        },
    }
}

pub open spec fn key_alpha() -> Seq<u8> {
    seq![97u8, 108u8, 112u8, 104u8, 97u8]
}

pub open spec fn key_beta() -> Seq<u8> {
    seq![98u8, 101u8, 116u8, 97u8]
}

pub open spec fn key_gamma() -> Seq<u8> {
    seq![103u8, 97u8, 109u8, 109u8, 97u8]
}

pub open spec fn key_delta() -> Seq<u8> {
    seq![100u8, 101u8, 108u8, 116u8, 97u8]
}

pub open spec fn key_ic() -> Seq<u8> {
    seq![105u8, 99u8]
}

/// Partially filled verification-key members, while the object is read.
pub ghost struct VkSt {
    pub alpha: Option<Option<(Seq<u8>, Seq<u8>)>>,
    pub beta: Option<Option<(Seq<u8>, Seq<u8>, Seq<u8>, Seq<u8>)>>,
    pub gamma: Option<Option<(Seq<u8>, Seq<u8>, Seq<u8>, Seq<u8>)>>,
    pub delta: Option<Option<(Seq<u8>, Seq<u8>, Seq<u8>, Seq<u8>)>>,
    pub ic: Option<Seq<Option<(Seq<u8>, Seq<u8>)>>>,
}

/// One `"key": value` member of a verification-key object: an unknown or
/// repeated key is a schema failure.
pub open spec fn spec_vk_entry(s: Seq<u8>, j: int, st: VkSt) -> Result<
    (VkSt, int),
    VerificationError,
> {
    match spec_token(s, j) {
        Err(e) => Err(e),
        Ok((key, j2)) => match spec_expect(s, j2, 58) {
            Err(e) => Err(e),
            Ok(j3) => if key == key_alpha() {
                if st.alpha is Some {
                    Err(VerificationError::SchemaError)
                } else {
                    match spec_g1(s, j3) {
                        Err(e) => Err(e),
                        Ok((p, j4)) => Ok((VkSt { alpha: Some(p), ..st }, j4)),
                    }
                }
            } else if key == key_beta() {
                if st.beta is Some {
                    Err(VerificationError::SchemaError)
                } else {
                    match spec_g2(s, j3) {
                        Err(e) => Err(e),
                        Ok((p, j4)) => Ok((VkSt { beta: Some(p), ..st }, j4)),
                    }
                }
            } else if key == key_gamma() {
                if st.gamma is Some {
                    Err(VerificationError::SchemaError)
                } else {
                    match spec_g2(s, j3) {
                        Err(e) => Err(e),
                        Ok((p, j4)) => Ok((VkSt { gamma: Some(p), ..st }, j4)),
                    }
                }
            } else if key == key_delta() {
                if st.delta is Some {
                    Err(VerificationError::SchemaError)
                } else {
                    match spec_g2(s, j3) {
                        Err(e) => Err(e),
                        Ok((p, j4)) => Ok((VkSt { delta: Some(p), ..st }, j4)),
                    }
                }
            } else if key == key_ic() {
                if st.ic is Some {
                    Err(VerificationError::SchemaError)
                } else {
                    match spec_g1_array(s, j3) {
                        Err(e) => Err(e),
                        Ok((v, j4)) => Ok((VkSt { ic: Some(v), ..st }, j4)),
                    }
                }
            } else {
                Err(VerificationError::SchemaError)
            },
        },
    }
}

/// The members of a verification-key object from position `j` up to and
/// including the closing brace. The `k + 1 > j` guard only keeps the measure
/// decreasing: a successful member parse never moves backwards.
pub open spec fn spec_vk_entries(s: Seq<u8>, j: int, st: VkSt) -> Result<
    (VkSt, int),
    VerificationError,
>
    decreases s.len() - j,
{
    match spec_vk_entry(s, j, st) {
        Err(e) => Err(e),
        Ok((st2, j2)) => {
            let k = spec_ws(s, j2);
            if !(0 <= k && k < s.len()) {
                Err(VerificationError::SchemaError)
            } else if s[k] == 125 {
                Ok((st2, k + 1))
            } else if s[k] == 44 && k + 1 > j {
                spec_vk_entries(s, k + 1, st2)
            } else {
                Err(VerificationError::SchemaError)
            }
        },
    }
}

/// What deserializing a verification-key document returns: the decoded key
/// exactly when the document is one object holding each of the five members
/// once, every coordinate an in-range decimal, and nothing else follows.
pub open spec fn spec_vk_doc(s: Seq<u8>) -> Result<VKeyData, VerificationError> {
    match spec_expect(s, 0, 123) {
        Err(e) => Err(e),
        Ok(j) => match spec_vk_entries(
            s,
            j,
            VkSt { alpha: None, beta: None, gamma: None, delta: None, ic: None },
        ) {
            Err(e) => Err(e),
            Ok((st, j2)) => if spec_ws(s, j2) != s.len() {
                Err(VerificationError::SchemaError)
            } else {
                match (st.alpha, st.beta, st.gamma, st.delta, st.ic) {
                    (Some(alpha), Some(beta), Some(gamma), Some(delta), Some(ic)) => Ok(
                        VKeyData { alpha, beta, gamma, delta, ic },
                    ),
                    _ => Err(VerificationError::SchemaError),
                }
            },
        },
    }
}

/// Partially filled proof members, while the object is read.
pub ghost struct PrSt {
    pub a: Option<Option<(Seq<u8>, Seq<u8>)>>,
    pub b: Option<Option<(Seq<u8>, Seq<u8>, Seq<u8>, Seq<u8>)>>,
    pub c: Option<Option<(Seq<u8>, Seq<u8>)>>,
}

/// One `"key": value` member of a proof object.
pub open spec fn spec_pr_entry(s: Seq<u8>, j: int, st: PrSt) -> Result<
    (PrSt, int),
    VerificationError,
> {
    match spec_token(s, j) {
        Err(e) => Err(e),
        Ok((key, j2)) => match spec_expect(s, j2, 58) {
            Err(e) => Err(e),
            Ok(j3) => if key == seq![97u8] {
                if st.a is Some {
                    Err(VerificationError::SchemaError)
                } else {
                    match spec_g1(s, j3) {
                        Err(e) => Err(e),
                        Ok((p, j4)) => Ok((PrSt { a: Some(p), ..st }, j4)),
                    }
                }
            } else if key == seq![98u8] {
                if st.b is Some {
                    Err(VerificationError::SchemaError)
                } else {
                    match spec_g2(s, j3) {
                        Err(e) => Err(e),
                        Ok((p, j4)) => Ok((PrSt { b: Some(p), ..st }, j4)),
                    }
                }
            } else if key == seq![99u8] {
                if st.c is Some {
                    Err(VerificationError::SchemaError)
                } else {
                    match spec_g1(s, j3) {
                        Err(e) => Err(e),
                        Ok((p, j4)) => Ok((PrSt { c: Some(p), ..st }, j4)),
                    }
                }
            } else {
                Err(VerificationError::SchemaError)
            },
        },
    }
}

/// The members of a proof object up to and including the closing brace.
pub open spec fn spec_pr_entries(s: Seq<u8>, j: int, st: PrSt) -> Result<
    (PrSt, int),
    VerificationError,
>
    decreases s.len() - j,
{
    match spec_pr_entry(s, j, st) {
        Err(e) => Err(e),
        Ok((st2, j2)) => {
            let k = spec_ws(s, j2);
            if !(0 <= k && k < s.len()) {
                Err(VerificationError::SchemaError)
            } else if s[k] == 125 {
                Ok((st2, k + 1))
            } else if s[k] == 44 && k + 1 > j {
                spec_pr_entries(s, k + 1, st2)
            } else {
                Err(VerificationError::SchemaError)
            }
        },
    }
}

/// What deserializing a proof document returns.
pub open spec fn spec_proof_doc(s: Seq<u8>) -> Result<ProofData, VerificationError> {
    match spec_expect(s, 0, 123) {
        Err(e) => Err(e),
        Ok(j) => match spec_pr_entries(s, j, PrSt { a: None, b: None, c: None }) {
            Err(e) => Err(e),
            Ok((st, j2)) => if spec_ws(s, j2) != s.len() {
                Err(VerificationError::SchemaError)
            } else {
                match (st.a, st.b, st.c) {
                    (Some(a), Some(b), Some(c)) => Ok(ProofData { a, b, c }),
                    _ => Err(VerificationError::SchemaError),
                }
            },
        },
    }
}

/// The comma-separated tail of a non-empty array of quoted scalars, up to
/// and including the closing bracket.
pub open spec fn spec_input_items(s: Seq<u8>, j: int) -> Result<
    (Seq<Seq<u8>>, int),
    VerificationError,
>
    decreases s.len() - j,
{
    match spec_field(s, j, fr_modulus()) {
        Err(e) => Err(e),
        Ok((d, j2)) => {
            let k = spec_ws(s, j2);
            if !(0 <= k && k < s.len()) {
                Err(VerificationError::SchemaError)
            } else if s[k] == 93 {
                Ok((seq![d], k + 1))
            } else if s[k] == 44 && k + 1 > j {
                match spec_input_items(s, k + 1) {
                    Err(e) => Err(e),
                    Ok((rest, j3)) => Ok((seq![d] + rest, j3)),
                }
            } else {
                Err(VerificationError::SchemaError)
            }
        },
    }
}

/// What deserializing the public-input document returns: the canonical digit
/// strings of a flat array of quoted in-range decimals.
pub open spec fn spec_inputs_doc(s: Seq<u8>) -> Result<Seq<Seq<u8>>, VerificationError> {
    match spec_expect(s, 0, 91) {
        Err(e) => Err(e),
        Ok(j) => {
            let k = spec_ws(s, j);
            if k < s.len() && s[k] == 93 {
                if spec_ws(s, k + 1) == s.len() {
                    Ok(Seq::empty())
                } else {
                    Err(VerificationError::SchemaError)
                }
            } else {
                match spec_input_items(s, j) {
                    Err(e) => Err(e),
                    Ok((v, j2)) => if spec_ws(s, j2) == s.len() {
                        Ok(v)
                    } else {
                        Err(VerificationError::SchemaError)
                    },
                }
            }
        },
    }
}

// ---------------------------------------------------------------------------
// Executable parsers, each returning what its spec parser says
// ---------------------------------------------------------------------------

fn skip_ws(s: &[u8], pos: usize) -> (j: usize)
    requires
        pos <= s@.len(),
    ensures
        pos <= j <= s@.len(),
        j == spec_ws(s@, pos as int),
{
    let mut i: usize = pos;
    while i < s.len() && (s[i] == 32 || s[i] == 9 || s[i] == 10 || s[i] == 13)
        invariant
            pos <= i <= s@.len(),
            spec_ws(s@, i as int) == spec_ws(s@, pos as int),
        decreases s@.len() - i,
    {
        i = i + 1;
    }
    i
}

fn expect_byte(s: &[u8], pos: usize, ch: u8) -> (r: Result<usize, VerificationError>)
    requires
        pos <= s@.len(),
    ensures
        r matches Ok(j) ==> pos < j <= s@.len() && spec_expect(s@, pos as int, ch) == Ok::<
            int,
            VerificationError,
        >(j as int),
        r matches Err(e) ==> spec_expect(s@, pos as int, ch) == Err::<int, VerificationError>(e),
{
    let i = skip_ws(s, pos);
    if i < s.len() && s[i] == ch {
        Ok(i + 1)
    } else {
        Err(VerificationError::SchemaError)
    }
}

fn parse_string_token(s: &[u8], pos: usize) -> (r: Result<(Vec<u8>, usize), VerificationError>)
    requires
        pos <= s@.len(),
    ensures
        r matches Ok(t) ==> pos < t.1 <= s@.len() && spec_token(s@, pos as int) == Ok::<
            (Seq<u8>, int),
            VerificationError,
        >((t.0@, t.1 as int)),
        r matches Err(e) ==> spec_token(s@, pos as int) == Err::<(Seq<u8>, int), VerificationError>(
            e,
        ),
{
    let start = match expect_byte(s, pos, 34) {
        Ok(j) => j,
        Err(e) => {
            return Err(e);
        },
    };
    let mut i: usize = start;
    let mut content: Vec<u8> = Vec::new();
    while i < s.len() && s[i] != 34 && s[i] != 92
        invariant
            start <= i <= s@.len(),
            content@ =~= s@.subrange(start as int, i as int),
            spec_str_end(s@, i as int) == spec_str_end(s@, start as int),
        decreases s@.len() - i,
    {
        content.push(s[i]);
        i = i + 1;
    }
    if i == s.len() || s[i] == 92 {
        return Err(VerificationError::SchemaError);
    }
    proof {
        assert(spec_str_end(s@, i as int) == Ok::<int, VerificationError>(i as int));
        assert(content@ =~= s@.subrange(start as int, i as int));
    }
    Ok((content, i + 1))
}

fn parse_field_str(s: &[u8], pos: usize, m: &Vec<u8>) -> (r: Result<
    (FieldElement, usize),
    VerificationError,
>)
    requires
        pos <= s@.len(),
        is_canonical(m@),
    ensures
        r matches Ok(t) ==> pos < t.1 <= s@.len() && t.0.wf_mod(dec_value(m@)) && spec_field(
            s@,
            pos as int,
            dec_value(m@),
        ) == Ok::<(Seq<u8>, int), VerificationError>((t.0.digits@, t.1 as int)),
        r matches Err(e) ==> spec_field(s@, pos as int, dec_value(m@)) == Err::<
            (Seq<u8>, int),
            VerificationError,
        >(e),
{
    let (tok, j) = match parse_string_token(s, pos) {
        Ok(t) => t,
        Err(e) => {
            return Err(e);
        },
    };
    match parse_field_element(&tok, m) {
        Ok(f) => Ok((f, j)),
        Err(e) => Err(e),
    }
}

fn parse_g1(s: &[u8], pos: usize) -> (r: Result<(G1Affine, usize), VerificationError>)
    requires
        pos <= s@.len(),
    ensures
        r matches Ok(t) ==> pos < t.1 <= s@.len() && t.0.wf() && spec_g1(s@, pos as int) == Ok::<
            (Option<(Seq<u8>, Seq<u8>)>, int),
            VerificationError,
        >((t.0.view(), t.1 as int)),
        r matches Err(e) ==> spec_g1(s@, pos as int) == Err::<
            (Option<(Seq<u8>, Seq<u8>)>, int),
            VerificationError,
        >(e),
{
    let m = fq_mod_dec();
    let j = match expect_byte(s, pos, 91) {
        Ok(j) => j,
        Err(e) => {
            return Err(e);
        },
    };
    let (x, j) = match parse_field_str(s, j, &m) {
        Ok(t) => t,
        Err(e) => {
            return Err(e);
        },
    };
    let j = match expect_byte(s, j, 44) {
        Ok(j) => j,
        Err(e) => {
            return Err(e);
        },
    };
    let (y, j) = match parse_field_str(s, j, &m) {
        Ok(t) => t,
        Err(e) => {
            return Err(e);
        },
    };
    let j = match expect_byte(s, j, 93) {
        Ok(j) => j,
        Err(e) => {
            return Err(e);
        },
    };
    if x.is_zero() && y.is_zero() {
        Ok((G1Affine::Infinity, j))
    } else {
        Ok((G1Affine::Point { x, y }, j))
    }
}

fn parse_fq2(s: &[u8], pos: usize) -> (r: Result<
    ((FieldElement, FieldElement), usize),
    VerificationError,
>)
    requires
        pos <= s@.len(),
    ensures
        r matches Ok(t) ==> pos < t.1 <= s@.len() && t.0.0.wf_mod(fq_modulus()) && t.0.1.wf_mod(
            fq_modulus(),
        ) && spec_fq2(s@, pos as int) == Ok::<((Seq<u8>, Seq<u8>), int), VerificationError>(
            ((t.0.0.digits@, t.0.1.digits@), t.1 as int),
        ),
        r matches Err(e) ==> spec_fq2(s@, pos as int) == Err::<
            ((Seq<u8>, Seq<u8>), int),
            VerificationError,
        >(e),
{
    let m = fq_mod_dec();
    let j = match expect_byte(s, pos, 91) {
        Ok(j) => j,
        Err(e) => {
            return Err(e);
        },
    };
    let (c0, j) = match parse_field_str(s, j, &m) {
        Ok(t) => t,
        Err(e) => {
            return Err(e);
        },
    };
    let j = match expect_byte(s, j, 44) {
        Ok(j) => j,
        Err(e) => {
            return Err(e);
        },
    };
    let (c1, j) = match parse_field_str(s, j, &m) {
        Ok(t) => t,
        Err(e) => {
            return Err(e);
        },
    };
    let j = match expect_byte(s, j, 93) {
        Ok(j) => j,
        Err(e) => {
            return Err(e);
        },
    };
    Ok(((c0, c1), j))
}

fn parse_g2(s: &[u8], pos: usize) -> (r: Result<(G2Affine, usize), VerificationError>)
    requires
        pos <= s@.len(),
    ensures
        r matches Ok(t) ==> pos < t.1 <= s@.len() && t.0.wf() && spec_g2(s@, pos as int) == Ok::<
            (Option<(Seq<u8>, Seq<u8>, Seq<u8>, Seq<u8>)>, int),
            VerificationError,
        >((t.0.view(), t.1 as int)),
        r matches Err(e) ==> spec_g2(s@, pos as int) == Err::<
            (Option<(Seq<u8>, Seq<u8>, Seq<u8>, Seq<u8>)>, int),
            VerificationError,
        >(e),
{
    let j = match expect_byte(s, pos, 91) {
        Ok(j) => j,
        Err(e) => {
            return Err(e);
        },
    };
    let ((x0, x1), j) = match parse_fq2(s, j) {
        Ok(t) => t,
        Err(e) => {
            return Err(e);
        },
    };
    let j = match expect_byte(s, j, 44) {
        Ok(j) => j,
        Err(e) => {
            return Err(e);
        },
    };
    let ((y0, y1), j) = match parse_fq2(s, j) {
        Ok(t) => t,
        Err(e) => {
            return Err(e);
        },
    };
    let j = match expect_byte(s, j, 93) {
        Ok(j) => j,
        Err(e) => {
            return Err(e);
        },
    };
    if x0.is_zero() && x1.is_zero() && y0.is_zero() && y1.is_zero() {
        Ok((G2Affine::Infinity, j))
    } else {
        Ok((G2Affine::Point { x0, x1, y0, y1 }, j))
    }
}

/// The coordinate images of a sequence of decoded group-1 points.
pub open spec fn icv_of(v: Seq<G1Affine>) -> Seq<Option<(Seq<u8>, Seq<u8>)>> {
    Seq::new(v.len(), |i: int| v[i].view())
}

/// The digit images of a sequence of decoded scalars.
pub open spec fn inputs_of(v: Seq<FieldElement>) -> Seq<Seq<u8>> {
    Seq::new(v.len(), |i: int| v[i].digits@)
}

fn parse_g1_items(s: &[u8], pos: usize) -> (r: Result<(Vec<G1Affine>, usize), VerificationError>)
    requires
        pos <= s@.len(),
    ensures
        r matches Ok(t) ==> pos < t.1 <= s@.len() && spec_g1_items(s@, pos as int) == Ok::<
            (Seq<Option<(Seq<u8>, Seq<u8>)>>, int),
            VerificationError,
        >((icv_of(t.0@), t.1 as int)) && forall|i: int|
            0 <= i < t.0@.len() ==> (#[trigger] t.0@[i]).wf(),
        r matches Err(e) ==> spec_g1_items(s@, pos as int) == Err::<
            (Seq<Option<(Seq<u8>, Seq<u8>)>>, int),
            VerificationError,
        >(e),
    decreases s@.len() - pos,
{
    let (p, j2) = match parse_g1(s, pos) {
        Ok(t) => t,
        Err(e) => {
            return Err(e);
        },
    };
    let k = skip_ws(s, j2);
    if k == s.len() {
        return Err(VerificationError::SchemaError);
    }
    if s[k] == 93 {
        let mut v: Vec<G1Affine> = Vec::new();
        v.push(p);
        proof {
            assert(icv_of(v@) =~= seq![p.view()]);
        }
        Ok((v, k + 1))
    } else if s[k] == 44 {
        let (mut rest, j3) = match parse_g1_items(s, k + 1) {
            Ok(t) => t,
            Err(e) => {
                return Err(e);
            },
        };
        let ghost restv = rest@;
        let mut v: Vec<G1Affine> = Vec::new();
        v.push(p);
        v.append(&mut rest);
        proof {
            assert(icv_of(v@) =~= seq![p.view()] + icv_of(restv));
        }
        Ok((v, j3))
    } else {
        Err(VerificationError::SchemaError)
    }
}

fn parse_g1_array(s: &[u8], pos: usize) -> (r: Result<(Vec<G1Affine>, usize), VerificationError>)
    requires
        pos <= s@.len(),
    ensures
        r matches Ok(t) ==> pos < t.1 <= s@.len() && spec_g1_array(s@, pos as int) == Ok::<
            (Seq<Option<(Seq<u8>, Seq<u8>)>>, int),
            VerificationError,
        >((icv_of(t.0@), t.1 as int)) && forall|i: int|
            0 <= i < t.0@.len() ==> (#[trigger] t.0@[i]).wf(),
        r matches Err(e) ==> spec_g1_array(s@, pos as int) == Err::<
            (Seq<Option<(Seq<u8>, Seq<u8>)>>, int),
            VerificationError,
        >(e),
{
    let j = match expect_byte(s, pos, 91) {
        Ok(j) => j,
        Err(e) => {
            return Err(e);
        },
    };
    let k = skip_ws(s, j);
    if k < s.len() && s[k] == 93 {
        let v: Vec<G1Affine> = Vec::new();
        proof {
            assert(icv_of(v@) =~= Seq::<Option<(Seq<u8>, Seq<u8>)>>::empty());
        }
        Ok((v, k + 1))
    } else {
        parse_g1_items(s, j)
    }
}

fn key_is(k: &Vec<u8>, lit: &[u8]) -> (r: bool)
    ensures
        r == (k@ == lit@),
{
    if k.len() != lit.len() {
        proof {
            assert(k@.len() != lit@.len());
        }
        return false;
    }
    let mut i: usize = 0;
    while i < k.len()
        invariant
            i <= k@.len(),
            k@.len() == lit@.len(),
            forall|j: int| 0 <= j < i ==> k@[j] == lit@[j],
        decreases k@.len() - i,
    {
        if k[i] != lit[i] {
            return false;
        }
        i = i + 1;
    }
    proof {
        assert(k@ =~= lit@);
    }
    true
}

pub open spec fn o_g1v(o: Option<G1Affine>) -> Option<Option<(Seq<u8>, Seq<u8>)>> {
    match o {
        None => None,
        Some(p) => Some(p.view()),
    }
}

pub open spec fn o_g2v(o: Option<G2Affine>) -> Option<Option<(Seq<u8>, Seq<u8>, Seq<u8>, Seq<u8>)>> {
    match o {
        None => None,
        Some(p) => Some(p.view()),
    }
}

pub open spec fn o_icv(o: Option<Vec<G1Affine>>) -> Option<Seq<Option<(Seq<u8>, Seq<u8>)>>> {
    match o {
        None => None,
        Some(v) => Some(icv_of(v@)),
    }
}

pub open spec fn vk_st_of(
    alpha: Option<G1Affine>,
    beta: Option<G2Affine>,
    gamma: Option<G2Affine>,
    delta: Option<G2Affine>,
    ic: Option<Vec<G1Affine>>,
) -> VkSt {
    VkSt {
        alpha: o_g1v(alpha),
        beta: o_g2v(beta),
        gamma: o_g2v(gamma),
        delta: o_g2v(delta),
        ic: o_icv(ic),
    }
}

pub open spec fn vk_opts_wf(
    alpha: Option<G1Affine>,
    beta: Option<G2Affine>,
    gamma: Option<G2Affine>,
    delta: Option<G2Affine>,
    ic: Option<Vec<G1Affine>>,
) -> bool {
    &&& (alpha matches Some(p) ==> p.wf())
    &&& (beta matches Some(p) ==> p.wf())
    &&& (gamma matches Some(p) ==> p.wf())
    &&& (delta matches Some(p) ==> p.wf())
    &&& (ic matches Some(v) ==> forall|i: int| 0 <= i < v@.len() ==> (#[trigger] v@[i]).wf())
}

fn vk_entries(
    s: &[u8],
    pos: usize,
    alpha: Option<G1Affine>,
    beta: Option<G2Affine>,
    gamma: Option<G2Affine>,
    delta: Option<G2Affine>,
    ic: Option<Vec<G1Affine>>,
) -> (r: Result<
    (Option<G1Affine>, Option<G2Affine>, Option<G2Affine>, Option<G2Affine>, Option<
        Vec<G1Affine>,
    >, usize),
    VerificationError,
>)
    requires
        pos <= s@.len(),
        vk_opts_wf(alpha, beta, gamma, delta, ic),
    ensures
        r matches Ok(t) ==> t.5 <= s@.len() && spec_vk_entries(
            s@,
            pos as int,
            vk_st_of(alpha, beta, gamma, delta, ic),
        ) == Ok::<(VkSt, int), VerificationError>(
            (vk_st_of(t.0, t.1, t.2, t.3, t.4), t.5 as int),
        ) && vk_opts_wf(t.0, t.1, t.2, t.3, t.4),
        r matches Err(e) ==> spec_vk_entries(
            s@,
            pos as int,
            vk_st_of(alpha, beta, gamma, delta, ic),
        ) == Err::<(VkSt, int), VerificationError>(e),
    decreases s@.len() - pos,
{
    let key_alpha_lit: [u8; 5] = [97u8, 108u8, 112u8, 104u8, 97u8];
    let key_beta_lit: [u8; 4] = [98u8, 101u8, 116u8, 97u8];
    let key_gamma_lit: [u8; 5] = [103u8, 97u8, 109u8, 109u8, 97u8];
    let key_delta_lit: [u8; 5] = [100u8, 101u8, 108u8, 116u8, 97u8];
    let key_ic_lit: [u8; 2] = [105u8, 99u8];
    proof {
        assert(key_alpha_lit@ =~= key_alpha());
        assert(key_beta_lit@ =~= key_beta());
        assert(key_gamma_lit@ =~= key_gamma());
        assert(key_delta_lit@ =~= key_delta());
        assert(key_ic_lit@ =~= key_ic());
    }
    let (key, j2) = match parse_string_token(s, pos) {
        Ok(t) => t,
        Err(e) => {
            return Err(e);
        },
    };
    let j3 = match expect_byte(s, j2, 58) {
        Ok(j) => j,
        Err(e) => {
            return Err(e);
        },
    };
    let mut alpha = alpha;
    let mut beta = beta;
    let mut gamma = gamma;
    let mut delta = delta;
    let mut ic = ic;
    let j4: usize;
    if key_is(&key, &key_alpha_lit) {
        if alpha.is_some() {
            return Err(VerificationError::SchemaError);
        }
        match parse_g1(s, j3) {
            Ok((p, j)) => {
                alpha = Some(p);
                j4 = j;
            },
            Err(e) => {
                return Err(e);
            },
        }
    } else if key_is(&key, &key_beta_lit) {
        if beta.is_some() {
            return Err(VerificationError::SchemaError);
        }
        match parse_g2(s, j3) {
            Ok((p, j)) => {
                beta = Some(p);
                j4 = j;
            },
            Err(e) => {
                return Err(e);
            },
        }
    } else if key_is(&key, &key_gamma_lit) {
        if gamma.is_some() {
            return Err(VerificationError::SchemaError);
        }
        match parse_g2(s, j3) {
            Ok((p, j)) => {
                gamma = Some(p);
                j4 = j;
            },
            Err(e) => {
                return Err(e);
            },
        }
    } else if key_is(&key, &key_delta_lit) {
        if delta.is_some() {
            return Err(VerificationError::SchemaError);
        }
        match parse_g2(s, j3) {
            Ok((p, j)) => {
                delta = Some(p);
                j4 = j;
            },
            Err(e) => {
                return Err(e);
            },
        }
    } else if key_is(&key, &key_ic_lit) {
        if ic.is_some() {
            return Err(VerificationError::SchemaError);
        }
        match parse_g1_array(s, j3) {
            Ok((v, j)) => {
                ic = Some(v);
                j4 = j;
            },
            Err(e) => {
                return Err(e);
            },
        }
    } else {
        return Err(VerificationError::SchemaError);
    }
    let k = skip_ws(s, j4);
    if k == s.len() {
        return Err(VerificationError::SchemaError);
    }
    if s[k] == 125 {
        Ok((alpha, beta, gamma, delta, ic, k + 1))
    } else if s[k] == 44 {
        vk_entries(s, k + 1, alpha, beta, gamma, delta, ic)
    } else {
        Err(VerificationError::SchemaError)
    }
}

impl VKey {
    /// Deserialize a verification-key document: returns the decoded key
    /// exactly when the whole document matches the key schema with in-range
    /// coordinates (`spec_vk_doc`), all-or-nothing, and otherwise the error
    /// that names how it fails.
    pub fn from_json_u8_slice(s: &[u8]) -> (r: Result<VKey, VerificationError>)
        ensures
            r matches Ok(vk) ==> spec_vk_doc(s@) == Ok::<VKeyData, VerificationError>(vk.data())
                && vk.wf(),
            r matches Err(e) ==> spec_vk_doc(s@) == Err::<VKeyData, VerificationError>(e),
    {
        let j = match expect_byte(s, 0, 123) {
            Ok(j) => j,
            Err(e) => {
                return Err(e);
            },
        };
        let (alpha, beta, gamma, delta, ic, j2) = match vk_entries(
            s,
            j,
            None,
            None,
            None,
            None,
            None,
        ) {
            Ok(t) => t,
            Err(e) => {
                return Err(e);
            },
        };
        let k = skip_ws(s, j2);
        if k != s.len() {
            return Err(VerificationError::SchemaError);
        }
        match (alpha, beta, gamma, delta, ic) {
            (Some(alpha), Some(beta), Some(gamma), Some(delta), Some(ic)) => {
                let vk = VKey { alpha, beta, gamma, delta, ic };
                proof {
                    assert(vk.data().ic =~= icv_of(vk.ic@));
                }
                Ok(vk)
            },
            _ => Err(VerificationError::SchemaError),
        }
    }
}

pub open spec fn pr_st_of(a: Option<G1Affine>, b: Option<G2Affine>, c: Option<G1Affine>) -> PrSt {
    PrSt { a: o_g1v(a), b: o_g2v(b), c: o_g1v(c) }
}

pub open spec fn pr_opts_wf(a: Option<G1Affine>, b: Option<G2Affine>, c: Option<G1Affine>) -> bool {
    &&& (a matches Some(p) ==> p.wf())
    &&& (b matches Some(p) ==> p.wf())
    &&& (c matches Some(p) ==> p.wf())
}

fn pr_entries(s: &[u8], pos: usize, a: Option<G1Affine>, b: Option<G2Affine>, c: Option<G1Affine>)
    -> (r: Result<(Option<G1Affine>, Option<G2Affine>, Option<G1Affine>, usize), VerificationError>)
    requires
        pos <= s@.len(),
        pr_opts_wf(a, b, c),
    ensures
        r matches Ok(t) ==> t.3 <= s@.len() && spec_pr_entries(s@, pos as int, pr_st_of(a, b, c))
            == Ok::<(PrSt, int), VerificationError>((pr_st_of(t.0, t.1, t.2), t.3 as int))
            && pr_opts_wf(t.0, t.1, t.2),
        r matches Err(e) ==> spec_pr_entries(s@, pos as int, pr_st_of(a, b, c)) == Err::<
            (PrSt, int),
            VerificationError,
        >(e),
    decreases s@.len() - pos,
{
    let (key, j2) = match parse_string_token(s, pos) {
        Ok(t) => t,
        Err(e) => {
            return Err(e);
        },
    };
    let j3 = match expect_byte(s, j2, 58) {
        Ok(j) => j,
        Err(e) => {
            return Err(e);
        },
    };
    let mut a = a;
    let mut b = b;
    let mut c = c;
    let j4: usize;
    if key.len() == 1 && key[0] == 97 {
        proof {
            assert(key@ =~= seq![97u8]);
        }
        if a.is_some() {
            return Err(VerificationError::SchemaError);
        }
        match parse_g1(s, j3) {
            Ok((p, j)) => {
                a = Some(p);
                j4 = j;
            },
            Err(e) => {
                return Err(e);
            },
        }
    } else if key.len() == 1 && key[0] == 98 {
        proof {
            assert(key@ =~= seq![98u8]);
        }
        if b.is_some() {
            return Err(VerificationError::SchemaError);
        }
        match parse_g2(s, j3) {
            Ok((p, j)) => {
                b = Some(p);
                j4 = j;
            },
            Err(e) => {
                return Err(e);
            },
        }
    } else if key.len() == 1 && key[0] == 99 {
        proof {
            assert(key@ =~= seq![99u8]);
        }
        if c.is_some() {
            return Err(VerificationError::SchemaError);
        }
        match parse_g1(s, j3) {
            Ok((p, j)) => {
                c = Some(p);
                j4 = j;
            },
            Err(e) => {
                return Err(e);
            },
        }
    } else {
        proof {
            assert(key@ != seq![97u8] && key@ != seq![98u8] && key@ != seq![99u8]);
        }
        return Err(VerificationError::SchemaError);
    }
    let k = skip_ws(s, j4);
    if k == s.len() {
        return Err(VerificationError::SchemaError);
    }
    if s[k] == 125 {
        Ok((a, b, c, k + 1))
    } else if s[k] == 44 {
        pr_entries(s, k + 1, a, b, c)
    } else {
        Err(VerificationError::SchemaError)
    }
}

impl Proof {
    /// Deserialize a proof document: the decoded proof exactly when the
    /// whole document matches the proof schema (`spec_proof_doc`),
    /// all-or-nothing, and otherwise the error that names how it fails.
    pub fn from_json_u8_slice(s: &[u8]) -> (r: Result<Proof, VerificationError>)
        ensures
            r matches Ok(p) ==> spec_proof_doc(s@) == Ok::<ProofData, VerificationError>(p.data())
                && p.wf(),
            r matches Err(e) ==> spec_proof_doc(s@) == Err::<ProofData, VerificationError>(e),
    {
        let j = match expect_byte(s, 0, 123) {
            Ok(j) => j,
            Err(e) => {
                return Err(e);
            },
        };
        let (a, b, c, j2) = match pr_entries(s, j, None, None, None) {
            Ok(t) => t,
            Err(e) => {
                return Err(e);
            },
        };
        let k = skip_ws(s, j2);
        if k != s.len() {
            return Err(VerificationError::SchemaError);
        }
        match (a, b, c) {
            (Some(a), Some(b), Some(c)) => Ok(Proof { a, b, c }),
            _ => Err(VerificationError::SchemaError),
        }
    }
}

fn parse_input_items(s: &[u8], pos: usize) -> (r: Result<
    (Vec<FieldElement>, usize),
    VerificationError,
>)
    requires
        pos <= s@.len(),
    ensures
        r matches Ok(t) ==> pos < t.1 <= s@.len() && spec_input_items(s@, pos as int) == Ok::<
            (Seq<Seq<u8>>, int),
            VerificationError,
        >((inputs_of(t.0@), t.1 as int)) && forall|i: int|
            0 <= i < t.0@.len() ==> (#[trigger] t.0@[i]).wf_mod(fr_modulus()),
        r matches Err(e) ==> spec_input_items(s@, pos as int) == Err::<
            (Seq<Seq<u8>>, int),
            VerificationError,
        >(e),
    decreases s@.len() - pos,
{
    let m = fr_mod_dec();
    let (f, j2) = match parse_field_str(s, pos, &m) {
        Ok(t) => t,
        Err(e) => {
            return Err(e);
        },
    };
    let k = skip_ws(s, j2);
    if k == s.len() {
        return Err(VerificationError::SchemaError);
    }
    if s[k] == 93 {
        let mut v: Vec<FieldElement> = Vec::new();
        v.push(f);
        proof {
            assert(inputs_of(v@) =~= seq![v@[0].digits@]);
        }
        Ok((v, k + 1))
    } else if s[k] == 44 {
        let (mut rest, j3) = match parse_input_items(s, k + 1) {
            Ok(t) => t,
            Err(e) => {
                return Err(e);
            },
        };
        let ghost restv = rest@;
        let ghost fd = f.digits@;
        let mut v: Vec<FieldElement> = Vec::new();
        v.push(f);
        v.append(&mut rest);
        proof {
            assert(inputs_of(v@) =~= seq![fd] + inputs_of(restv));
        }
        Ok((v, j3))
    } else {
        Err(VerificationError::SchemaError)
    }
}

/// Deserialize the public inputs: the scalars exactly when the document is a
/// flat array of quoted in-range decimals and nothing else follows
/// (`spec_inputs_doc`), and otherwise the error that names how it fails.
pub fn deserialize_public_inputs(s: &[u8]) -> (r: Result<Vec<FieldElement>, VerificationError>)
    ensures
        r matches Ok(v) ==> spec_inputs_doc(s@) == Ok::<Seq<Seq<u8>>, VerificationError>(
            inputs_of(v@),
        ) && forall|i: int| 0 <= i < v@.len() ==> (#[trigger] v@[i]).wf_mod(fr_modulus()),
        r matches Err(e) ==> spec_inputs_doc(s@) == Err::<Seq<Seq<u8>>, VerificationError>(e),
{
    let j = match expect_byte(s, 0, 91) {
        Ok(j) => j,
        Err(e) => {
            return Err(e);
        },
    };
    let k = skip_ws(s, j);
    if k < s.len() && s[k] == 93 {
        let k2 = skip_ws(s, k + 1);
        if k2 != s.len() {
            return Err(VerificationError::SchemaError);
        }
        let v: Vec<FieldElement> = Vec::new();
        proof {
            assert(inputs_of(v@) =~= Seq::<Seq<u8>>::empty());
        }
        return Ok(v);
    }
    let (v, j2) = match parse_input_items(s, j) {
        Ok(t) => t,
        Err(e) => {
            return Err(e);
        },
    };
    let k2 = skip_ws(s, j2);
    if k2 != s.len() {
        return Err(VerificationError::SchemaError);
    }
    Ok(v)
}

} // verus!
