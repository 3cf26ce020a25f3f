use vstd::prelude::*;
use crate::decimal::{dec_value, fq_modulus, fr_modulus, is_dec_digits};

verus! {

// ---------------------------------------------------------------------------
// Pairing-ready point representations
//
// A point of the base curve (group 1) is carried in Jacobian form as three
// 32-byte big-endian encodings of base-field elements; a point of the twist
// (group 2) as six, two per extension-field coordinate. The encodings are the
// canonical ones the pairing backend reads and writes. The identity (point at
// infinity) is the triple (0, 1, 0).
// ---------------------------------------------------------------------------

#[verifier::external_type_specification]
#[verifier::external_body]
pub struct ExG1(substrate_bn::G1);

#[verifier::external_type_specification]
#[verifier::external_body]
pub struct ExG2(substrate_bn::G2);

/// A group-1 point, prepared for pairing computation.
pub struct RawG1 {
    pub x: Vec<u8>,
    pub y: Vec<u8>,
    pub z: Vec<u8>,
}

/// A group-2 point, prepared for pairing computation.
pub struct RawG2 {
    pub x0: Vec<u8>,
    pub x1: Vec<u8>,
    pub y0: Vec<u8>,
    pub y1: Vec<u8>,
    pub z0: Vec<u8>,
    pub z1: Vec<u8>,
}

impl View for RawG1 {
    type V = (Seq<u8>, Seq<u8>, Seq<u8>);

    open spec fn view(&self) -> (Seq<u8>, Seq<u8>, Seq<u8>) {
        (self.x@, self.y@, self.z@)
    }
}

impl View for RawG2 {
    type V = (Seq<u8>, Seq<u8>, Seq<u8>, Seq<u8>, Seq<u8>, Seq<u8>);

    open spec fn view(&self) -> (Seq<u8>, Seq<u8>, Seq<u8>, Seq<u8>, Seq<u8>, Seq<u8>) {
        (self.x0@, self.x1@, self.y0@, self.y1@, self.z0@, self.z1@)
    }
}

// ---------------------------------------------------------------------------
// Spec-level vocabulary
// ---------------------------------------------------------------------------

/// Numeric value of a big-endian byte string.
pub open spec fn be_value(b: Seq<u8>) -> int
    decreases b.len(),
{
    if b.len() == 0 {
        0
    } else {
        be_value(b.drop_last()) * 256 + b.last()
    }
}

/// The `len`-byte big-endian encoding of a non-negative integer.
pub open spec fn be_bytes(n: int, len: nat) -> Seq<u8>
    decreases len,
{
    if len == 0 {
        Seq::empty()
    } else {
        be_bytes(n / 256, (len - 1) as nat).push((n % 256) as u8)
    }
}

/// Canonical 32-byte big-endian encoding of a base-field element.
pub open spec fn fq_bytes_ok(b: Seq<u8>) -> bool {
    b.len() == 32 && be_value(b) < fq_modulus()
}

pub open spec fn g1_raw_ok(v: (Seq<u8>, Seq<u8>, Seq<u8>)) -> bool {
    fq_bytes_ok(v.0) && fq_bytes_ok(v.1) && fq_bytes_ok(v.2)
}

pub open spec fn zero32() -> Seq<u8> {
    Seq::new(32, |i: int| 0u8)
}

pub open spec fn one32() -> Seq<u8> {
    zero32().update(31, 1u8)
}

/// The canonical encoding of the group-1 identity, (0, 1, 0).
pub open spec fn g1_inf_view() -> (Seq<u8>, Seq<u8>, Seq<u8>) {
    (zero32(), one32(), zero32())
}

/// The canonical encoding of the group-2 identity, (0, 1, 0) over the
/// extension field.
pub open spec fn g2_inf_view() -> (Seq<u8>, Seq<u8>, Seq<u8>, Seq<u8>, Seq<u8>, Seq<u8>) {
    (zero32(), zero32(), one32(), zero32(), zero32(), zero32())
}

/// A Jacobian point with zero z-coordinate is the group identity.
pub open spec fn is_g1_inf(v: (Seq<u8>, Seq<u8>, Seq<u8>)) -> bool {
    v.2 == zero32()
}

// ---------------------------------------------------------------------------
// Names for the results of the pairing backend
// ---------------------------------------------------------------------------

/// What preparing a group-1 point from decimal affine coordinates returns:
/// `None` when the coordinates do not satisfy the curve equation, otherwise
/// the Jacobian encoding of the point.
pub uninterp spec fn g1_prep_of(x: Seq<u8>, y: Seq<u8>) -> Option<(Seq<u8>, Seq<u8>, Seq<u8>)>;

/// What preparing a group-2 point from decimal affine coordinates returns:
/// `None` when the coordinates are not on the twist curve or the point is
/// outside the prime-order subgroup.
pub uninterp spec fn g2_prep_of(x0: Seq<u8>, x1: Seq<u8>, y0: Seq<u8>, y1: Seq<u8>) -> Option<
    (Seq<u8>, Seq<u8>, Seq<u8>, Seq<u8>, Seq<u8>, Seq<u8>),
>;

/// An encoding denotes a group-1 element as the backend itself serializes
/// them: the canonical encoding of a point satisfying the curve equation, or
/// of the identity. Only such encodings may reach the pairing, whose Miller
/// loop is partial on fabricated byte triples.
pub uninterp spec fn g1_valid_enc(v: (Seq<u8>, Seq<u8>, Seq<u8>)) -> bool;

/// The group-2 counterpart of `g1_valid_enc`: a backend-serialized element of
/// the prime-order twist subgroup, or the identity.
pub uninterp spec fn g2_valid_enc(v: (Seq<u8>, Seq<u8>, Seq<u8>, Seq<u8>, Seq<u8>, Seq<u8>)) -> bool;

/// The result of group-1 scalar multiplication on encoded points.
pub uninterp spec fn g1_mul_of(p: (Seq<u8>, Seq<u8>, Seq<u8>), s: Seq<u8>) -> (
    Seq<u8>,
    Seq<u8>,
    Seq<u8>,
);

/// The result of group-1 addition on encoded points.
pub uninterp spec fn g1_add_of(p: (Seq<u8>, Seq<u8>, Seq<u8>), q: (Seq<u8>, Seq<u8>, Seq<u8>)) -> (
    Seq<u8>,
    Seq<u8>,
    Seq<u8>,
);

/// The result of group-1 negation on encoded points.
pub uninterp spec fn g1_neg_of(p: (Seq<u8>, Seq<u8>, Seq<u8>)) -> (Seq<u8>, Seq<u8>, Seq<u8>);

/// Whether the product of the four pairings of the given points is the
/// identity of the target field.
pub uninterp spec fn pairing_accepts(
    a: (Seq<u8>, Seq<u8>, Seq<u8>),
    b: (Seq<u8>, Seq<u8>, Seq<u8>, Seq<u8>, Seq<u8>, Seq<u8>),
    p2: (Seq<u8>, Seq<u8>, Seq<u8>),
    q2: (Seq<u8>, Seq<u8>, Seq<u8>, Seq<u8>, Seq<u8>, Seq<u8>),
    p3: (Seq<u8>, Seq<u8>, Seq<u8>),
    q3: (Seq<u8>, Seq<u8>, Seq<u8>, Seq<u8>, Seq<u8>, Seq<u8>),
    p4: (Seq<u8>, Seq<u8>, Seq<u8>),
    q4: (Seq<u8>, Seq<u8>, Seq<u8>, Seq<u8>, Seq<u8>, Seq<u8>),
) -> bool;

// ---------------------------------------------------------------------------
// Trusted bridge to the pairing backend
// ---------------------------------------------------------------------------

impl RawG1 {
    /// Conversion helper for the wrappers below; claims nothing.
    /// Relies on substrate_bn::Fq::from_slice and substrate_bn::G1::new to
    /// rebuild the Jacobian point from its canonical encoding.
    #[verifier::external_body]
    fn to_bn(&self) -> substrate_bn::G1 {
        substrate_bn::G1::new(
            substrate_bn::Fq::from_slice(&self.x).unwrap_or(substrate_bn::Fq::zero()),
            substrate_bn::Fq::from_slice(&self.y).unwrap_or(substrate_bn::Fq::zero()),
            substrate_bn::Fq::from_slice(&self.z).unwrap_or(substrate_bn::Fq::zero()),
        )
    }

    /// Conversion helper for the wrappers below; claims nothing.
    /// Relies on substrate_bn::Fq::to_big_endian, which writes the canonical
    /// 32-byte encoding of each coordinate.
    #[verifier::external_body]
    fn from_bn(g: substrate_bn::G1) -> RawG1 {
        let mut x = [0u8; 32];
        let mut y = [0u8; 32];
        let mut z = [0u8; 32];
        let _ = g.x().to_big_endian(&mut x);
        let _ = g.y().to_big_endian(&mut y);
        let _ = g.z().to_big_endian(&mut z);
        RawG1 { x: x.to_vec(), y: y.to_vec(), z: z.to_vec() }
    }
}

impl RawG2 {
    /// Conversion helper for the wrappers below; claims nothing.
    /// Relies on substrate_bn::Fq2::new and substrate_bn::G2::new.
    #[verifier::external_body]
    fn to_bn(&self) -> substrate_bn::G2 {
        let fq = |b: &Vec<u8>| substrate_bn::Fq::from_slice(b).unwrap_or(
            substrate_bn::Fq::zero(),
        );
        substrate_bn::G2::new(
            substrate_bn::Fq2::new(fq(&self.x0), fq(&self.x1)),
            substrate_bn::Fq2::new(fq(&self.y0), fq(&self.y1)),
            substrate_bn::Fq2::new(fq(&self.z0), fq(&self.z1)),
        )
    }

    /// Conversion helper for the wrappers below; claims nothing.
    /// Relies on substrate_bn::Fq::to_big_endian.
    #[verifier::external_body]
    fn from_bn(g: substrate_bn::G2) -> RawG2 {
        let c = [g.x(), g.y(), g.z()];
        let mut b = [[0u8; 32]; 6];
        for i in 0..3 {
            let _ = c[i].real().to_big_endian(&mut b[2 * i]);
            let _ = c[i].imaginary().to_big_endian(&mut b[2 * i + 1]);
        }
        RawG2 {
            x0: b[0].to_vec(),
            x1: b[1].to_vec(),
            y0: b[2].to_vec(),
            y1: b[3].to_vec(),
            z0: b[4].to_vec(),
            z1: b[5].to_vec(),
        }
    }
}

/// Relies on substrate_bn::Fq::from_str (decimal parse) and
/// substrate_bn::AffineG1::new, whose source accepts exactly the coordinate
/// pairs satisfying the group-1 curve equation, and on Fq::to_big_endian for
/// the canonical encoding of the accepted point.
#[verifier::external_body]
pub(crate) fn g1_prepare_raw(x: &Vec<u8>, y: &Vec<u8>) -> (r: Option<RawG1>)
    ensures
        (r is Some) == (g1_prep_of(x@, y@) is Some),
        r matches Some(p) ==> g1_prep_of(x@, y@) == Some(p@) && g1_raw_ok(p@) && p@.2 == one32()
            && g1_valid_enc(p@),
{
    let xs = core::str::from_utf8(x.as_slice()).ok()?;
    let ys = core::str::from_utf8(y.as_slice()).ok()?;
    let xf = substrate_bn::Fq::from_str(xs)?;
    let yf = substrate_bn::Fq::from_str(ys)?;
    let a = substrate_bn::AffineG1::new(xf, yf).ok()?;
    Some(RawG1::from_bn(substrate_bn::G1::from(a)))
}

/// Relies on substrate_bn::Fq::from_str, substrate_bn::Fq2::new and
/// substrate_bn::AffineG2::new, whose source accepts exactly the coordinate
/// pairs on the twist curve that also lie in the prime-order subgroup.
#[verifier::external_body]
pub(crate) fn g2_prepare_raw(x0: &Vec<u8>, x1: &Vec<u8>, y0: &Vec<u8>, y1: &Vec<u8>) -> (r: Option<RawG2>)
    ensures
        (r is Some) == (g2_prep_of(x0@, x1@, y0@, y1@) is Some),
        r matches Some(p) ==> g2_prep_of(x0@, x1@, y0@, y1@) == Some(p@) && g2_valid_enc(p@),
{
    let fq = |b: &Vec<u8>| substrate_bn::Fq::from_str(core::str::from_utf8(b).ok()?);
    let xc = substrate_bn::Fq2::new(fq(x0)?, fq(x1)?);
    let yc = substrate_bn::Fq2::new(fq(y0)?, fq(y1)?);
    let a = substrate_bn::AffineG2::new(xc, yc).ok()?;
    Some(RawG2::from_bn(substrate_bn::G2::from(a)))
}

/// Relies on substrate_bn::Fr::from_str, which maps a digit string to the
/// scalar-field element it denotes, reducing modulo the scalar modulus, and
/// on Fr::into_u256 with U256::to_big_endian, which write the 32-byte
/// big-endian encoding of that value; Fr::from_slice reads the same encoding
/// back.
#[verifier::external_body]
pub(crate) fn fr_prepare_raw(digits: &Vec<u8>) -> (r: Vec<u8>)
    requires
        is_dec_digits(digits@),
        digits@.len() >= 1,
    ensures
        r@ == be_bytes(dec_value(digits@) % fr_modulus(), 32),
{
    let s = core::str::from_utf8(digits.as_slice()).unwrap();
    let f = substrate_bn::Fr::from_str(s).unwrap();
    let mut b = [0u8; 32];
    let _ = f.into_u256().to_big_endian(&mut b);
    b.to_vec()
}

/// Relies on the group-1 scalar multiplication of substrate_bn (Mul<Fr> for
/// G1). Its source keeps a zero z-coordinate zero: multiplying the identity
/// yields the identity.
#[verifier::external_body]
pub(crate) fn g1_mul_raw(p: &RawG1, s: &Vec<u8>) -> (r: RawG1)
    ensures
        r@ == g1_mul_of(p@, s@),
        g1_raw_ok(r@),
        is_g1_inf(p@) ==> is_g1_inf(r@),
        g1_valid_enc(p@) ==> g1_valid_enc(r@),
{
    let f = substrate_bn::Fr::from_slice(s.as_slice()).unwrap_or(substrate_bn::Fr::zero());
    RawG1::from_bn(p.to_bn() * f)
}

/// Relies on the group-1 addition of substrate_bn (Add for G1), whose source
/// returns the other operand unchanged when one operand has a zero
/// z-coordinate, i.e. is the identity.
#[verifier::external_body]
pub(crate) fn g1_add_raw(p: &RawG1, q: &RawG1) -> (r: RawG1)
    ensures
        r@ == g1_add_of(p@, q@),
        g1_raw_ok(r@),
        is_g1_inf(p@) && g1_raw_ok(q@) ==> r@ == q@,
        !is_g1_inf(p@) && is_g1_inf(q@) && g1_raw_ok(p@) ==> r@ == p@,
        g1_valid_enc(p@) && g1_valid_enc(q@) ==> g1_valid_enc(r@),
{
    RawG1::from_bn(p.to_bn() + q.to_bn())
}

/// Relies on the group-1 negation of substrate_bn (Neg for G1).
#[verifier::external_body]
pub(crate) fn g1_neg_raw(p: &RawG1) -> (r: RawG1)
    ensures
        r@ == g1_neg_of(p@),
        g1_raw_ok(r@),
        g1_valid_enc(p@) ==> g1_valid_enc(r@),
{
    RawG1::from_bn(-p.to_bn())
}

/// Relies on substrate_bn::pairing_batch and Gt::one: whether the product of
/// the four pairings equals the identity of the target field. Its source
/// treats a pair with an identity member as contributing the identity, and
/// its Miller loop aborts on byte triples that encode no group element, so
/// every point handed in must carry a backend-produced encoding.
#[verifier::external_body]
pub(crate) fn pairing_check_raw(
    a: &RawG1,
    b: &RawG2,
    p2: &RawG1,
    q2: &RawG2,
    p3: &RawG1,
    q3: &RawG2,
    p4: &RawG1,
    q4: &RawG2,
) -> (r: bool)
    requires
        g1_valid_enc(a@),
        g2_valid_enc(b@),
        g1_valid_enc(p2@),
        g2_valid_enc(q2@),
        g1_valid_enc(p3@),
        g2_valid_enc(q3@),
        g1_valid_enc(p4@),
        g2_valid_enc(q4@),
    ensures
        r == pairing_accepts(a@, b@, p2@, q2@, p3@, q3@, p4@, q4@),
{
    let pairs = [
        (a.to_bn(), b.to_bn()),
        (p2.to_bn(), q2.to_bn()),
        (p3.to_bn(), q3.to_bn()),
        (p4.to_bn(), q4.to_bn()),
    ];
    substrate_bn::pairing_batch(&pairs) == substrate_bn::Gt::one()
}

// ---------------------------------------------------------------------------
// The identity encodings
// ---------------------------------------------------------------------------

/// The group-1 identity in its pairing-ready encoding. Relies on the zero of
/// substrate_bn's Group impl for G1, the Jacobian triple (0, 1, 0), which
/// serializes to the canonical identity encoding.
#[verifier::external_body]
pub(crate) fn g1_infinity() -> (r: RawG1)
    ensures
        r@ == g1_inf_view(),
        g1_raw_ok(r@),
        is_g1_inf(r@),
        g1_valid_enc(r@),
{
    RawG1::from_bn(substrate_bn::Group::zero())
}

/// The group-2 identity in its pairing-ready encoding. Relies on the zero of
/// substrate_bn's Group impl for G2.
#[verifier::external_body]
pub(crate) fn g2_infinity() -> (r: RawG2)
    ensures
        r@ == g2_inf_view(),
        g2_valid_enc(r@),
{
    RawG2::from_bn(substrate_bn::Group::zero())
}

/// Copy of a group-1 encoding (the backend types are plain byte vectors).
pub fn g1_copy(p: &RawG1) -> (r: RawG1)
    ensures
        r@ == p@,
{
    RawG1 { x: copy_bytes(&p.x), y: copy_bytes(&p.y), z: copy_bytes(&p.z) }
}

fn copy_bytes(v: &Vec<u8>) -> (r: Vec<u8>)
    ensures
        r@ == v@,
{
    let mut r: Vec<u8> = Vec::new();
    let mut i: usize = 0;
    while i < v.len()
        invariant
            i <= v@.len(),
            r@ =~= v@.subrange(0, i as int),
        decreases v@.len() - i,
    {
        r.push(v[i]);
        i = i + 1;
    }
    proof {
        assert(r@ =~= v@);
    }
    r
}

} // verus!
