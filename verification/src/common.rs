use vstd::prelude::*;
use crate::curve::{
    g1_infinity, g1_inf_view, g1_prep_of, g1_prepare_raw, g1_raw_ok, g1_valid_enc, g2_inf_view,
    g2_prep_of, g2_prepare_raw, g2_valid_enc, RawG1, RawG2,
};
use crate::deserialization::{G1Affine, G2Affine, Proof, ProofData, VKey, VKeyData};
use crate::errors::{PointTag, VerificationError};

verus! {

// ---------------------------------------------------------------------------
// Preparation: the single choke point where the algebraic invariants are
// enforced. Every point of the key and of the proof is checked to lie on its
// curve and in the prime-order subgroup, and converted into the
// pairing-ready encoding.
// ---------------------------------------------------------------------------

/// Whether a decoded group-1 point passes preparation: the identity always
/// does; a coordinate pair exactly when the backend accepts it.
pub open spec fn g1_point_ok(v: Option<(Seq<u8>, Seq<u8>)>) -> bool {
    match v {
        None => true,
        Some(xy) => g1_prep_of(xy.0, xy.1) is Some,
    }
}

/// The pairing-ready encoding of a decoded group-1 point that passes
/// preparation.
pub open spec fn g1_point_prep(v: Option<(Seq<u8>, Seq<u8>)>) -> (Seq<u8>, Seq<u8>, Seq<u8>) {
    match v {
        None => g1_inf_view(),
        Some(xy) => match g1_prep_of(xy.0, xy.1) {
            Some(p) => p,
            None => g1_inf_view(),
        },
    }
}

pub open spec fn g2_point_ok(v: Option<(Seq<u8>, Seq<u8>, Seq<u8>, Seq<u8>)>) -> bool {
    match v {
        None => true,
        Some(c) => g2_prep_of(c.0, c.1, c.2, c.3) is Some,
    }
}

pub open spec fn g2_point_prep(v: Option<(Seq<u8>, Seq<u8>, Seq<u8>, Seq<u8>)>) -> (
    Seq<u8>,
    Seq<u8>,
    Seq<u8>,
    Seq<u8>,
    Seq<u8>,
    Seq<u8>,
) {
    match v {
        None => g2_inf_view(),
        Some(c) => match g2_prep_of(c.0, c.1, c.2, c.3) {
            Some(p) => p,
            None => g2_inf_view(),
        },
    }
}

/// Validate and convert one decoded group-1 point.
pub fn prepare_g1_point(p: &G1Affine) -> (r: Option<RawG1>)
    ensures
        (r is Some) == g1_point_ok(p.view()),
        r matches Some(rp) ==> rp@ == g1_point_prep(p.view()) && g1_raw_ok(rp@) && g1_valid_enc(
            rp@,
        ),
{
    match p {
        G1Affine::Infinity => Some(g1_infinity()),
        G1Affine::Point { x, y } => g1_prepare_raw(&x.digits, &y.digits),
    }
}

/// Validate and convert one decoded group-2 point.
pub fn prepare_g2_point(p: &G2Affine) -> (r: Option<RawG2>)
    ensures
        (r is Some) == g2_point_ok(p.view()),
        r matches Some(rp) ==> rp@ == g2_point_prep(p.view()) && g2_valid_enc(rp@),
{
    match p {
        G2Affine::Infinity => Some(crate::curve::g2_infinity()),
        G2Affine::Point { x0, x1, y0, y1 } => g2_prepare_raw(
            &x0.digits,
            &x1.digits,
            &y0.digits,
            &y1.digits,
        ),
    }
}

/// A verification key whose points have all been validated and converted.
pub struct PreparedVerificationKey {
    pub alpha: RawG1,
    pub beta: RawG2,
    pub gamma: RawG2,
    pub delta: RawG2,
    pub ic: Vec<RawG1>,
}

/// Ghost image of a prepared verification key.
pub ghost struct VkView {
    pub alpha: (Seq<u8>, Seq<u8>, Seq<u8>),
    pub beta: (Seq<u8>, Seq<u8>, Seq<u8>, Seq<u8>, Seq<u8>, Seq<u8>),
    pub gamma: (Seq<u8>, Seq<u8>, Seq<u8>, Seq<u8>, Seq<u8>, Seq<u8>),
    pub delta: (Seq<u8>, Seq<u8>, Seq<u8>, Seq<u8>, Seq<u8>, Seq<u8>),
    pub ic: Seq<(Seq<u8>, Seq<u8>, Seq<u8>)>,
}

impl View for PreparedVerificationKey {
    type V = VkView;

    open spec fn view(&self) -> VkView {
        VkView {
            alpha: self.alpha@,
            beta: self.beta@,
            gamma: self.gamma@,
            delta: self.delta@,
            ic: Seq::new(self.ic@.len(), |i: int| self.ic@[i]@),
        }
    }
}

impl PreparedVerificationKey {
    /// Every encoding of the key is canonical and denotes a group element the
    /// backend itself serialized; only such keys may reach the pairing.
    pub open spec fn wf(self) -> bool {
        &&& g1_raw_ok(self.alpha@)
        &&& g1_valid_enc(self.alpha@)
        &&& g2_valid_enc(self.beta@)
        &&& g2_valid_enc(self.gamma@)
        &&& g2_valid_enc(self.delta@)
        &&& forall|i: int| 0 <= i < self.ic@.len() ==> g1_raw_ok((#[trigger] self.ic@[i])@)
            && g1_valid_enc(self.ic@[i]@)
    }
}

/// The prepared image of a decoded key whose points all pass preparation.
pub open spec fn vk_prep_view(d: VKeyData) -> VkView {
    VkView {
        alpha: g1_point_prep(d.alpha),
        beta: g2_point_prep(d.beta),
        gamma: g2_point_prep(d.gamma),
        delta: g2_point_prep(d.delta),
        ic: Seq::new(d.ic.len(), |i: int| g1_point_prep(d.ic[i])),
    }
}

/// The first entry of `ic` from position `i` on that fails preparation.
pub open spec fn first_bad_ic(ic: Seq<Option<(Seq<u8>, Seq<u8>)>>, i: int) -> Option<int>
    decreases ic.len() - i,
{
    if i < 0 || i >= ic.len() {
        None
    } else if !g1_point_ok(ic[i]) {
        Some(i)
    } else {
        first_bad_ic(ic, i + 1)
    }
}

/// What preparing a decoded key returns: the prepared image, or
/// `InvalidPoint` naming the first field, in declaration order, that is not
/// on its curve or not in the correct subgroup.
pub open spec fn spec_prepare_vk(d: VKeyData) -> Result<VkView, VerificationError> {
    if !g1_point_ok(d.alpha) {
        Err(VerificationError::InvalidPoint(PointTag::Alpha))
    } else if !g2_point_ok(d.beta) {
        Err(VerificationError::InvalidPoint(PointTag::Beta))
    } else if !g2_point_ok(d.gamma) {
        Err(VerificationError::InvalidPoint(PointTag::Gamma))
    } else if !g2_point_ok(d.delta) {
        Err(VerificationError::InvalidPoint(PointTag::Delta))
    } else {
        match first_bad_ic(d.ic, 0) {
            Some(i) => Err(VerificationError::InvalidPoint(PointTag::Ic(i as usize))),
            None => Ok(vk_prep_view(d)),
        }
    }
}

proof fn lemma_first_bad_ic_from(ic: Seq<Option<(Seq<u8>, Seq<u8>)>>, i: int)
    requires
        0 <= i <= ic.len(),
        forall|j: int| 0 <= j < i ==> g1_point_ok(#[trigger] ic[j]),
    ensures
        first_bad_ic(ic, 0) == first_bad_ic(ic, i),
    decreases i,
{
    if i > 0 {
        lemma_first_bad_ic_from(ic, i - 1);
    }
}

/// Validate every point of the key and convert it to pairing-ready form.
/// Succeeds exactly when every point is on its curve and in the correct
/// subgroup; otherwise reports `InvalidPoint` naming the first failing field.
pub fn prepare_verification_key(vk: VKey) -> (r: Result<
    PreparedVerificationKey,
    VerificationError,
>)
    ensures
        r matches Ok(p) ==> spec_prepare_vk(vk.data()) == Ok::<VkView, VerificationError>(p@)
            && p.wf(),
        r matches Err(e) ==> spec_prepare_vk(vk.data()) == Err::<VkView, VerificationError>(e),
{
    let ghost d = vk.data();
    let alpha = match prepare_g1_point(&vk.alpha) {
        Some(p) => p,
        None => {
            return Err(VerificationError::InvalidPoint(PointTag::Alpha));
        },
    };
    let beta = match prepare_g2_point(&vk.beta) {
        Some(p) => p,
        None => {
            return Err(VerificationError::InvalidPoint(PointTag::Beta));
        },
    };
    let gamma = match prepare_g2_point(&vk.gamma) {
        Some(p) => p,
        None => {
            return Err(VerificationError::InvalidPoint(PointTag::Gamma));
        },
    };
    let delta = match prepare_g2_point(&vk.delta) {
        Some(p) => p,
        None => {
            return Err(VerificationError::InvalidPoint(PointTag::Delta));
        },
    };
    let mut ic: Vec<RawG1> = Vec::new();
    let mut i: usize = 0;
    while i < vk.ic.len()
        invariant
            i <= vk.ic@.len(),
            ic@.len() == i,
            d == vk.data(),
            g1_point_ok(d.alpha),
            g2_point_ok(d.beta),
            g2_point_ok(d.gamma),
            g2_point_ok(d.delta),
            forall|j: int| 0 <= j < i ==> g1_point_ok(#[trigger] d.ic[j]),
            forall|j: int| 0 <= j < i ==> (#[trigger] ic@[j])@ == g1_point_prep(d.ic[j])
                && g1_raw_ok(ic@[j]@) && g1_valid_enc(ic@[j]@),
        decreases vk.ic@.len() - i,
    {
        proof {
            assert(d.ic[i as int] == vk.ic@[i as int].view());
        }
        match prepare_g1_point(&vk.ic[i]) {
            Some(p) => {
                ic.push(p);
            },
            None => {
                proof {
                    lemma_first_bad_ic_from(d.ic, i as int);
                    assert(!g1_point_ok(d.ic[i as int]));
                    assert(first_bad_ic(d.ic, i as int) == Some(i as int));
                    assert(first_bad_ic(d.ic, 0) == Some(i as int));
                    assert((i as int) as usize == i);
                }
                return Err(VerificationError::InvalidPoint(PointTag::Ic(i)));
            },
        }
        i = i + 1;
    }
    proof {
        lemma_first_bad_ic_from(d.ic, d.ic.len() as int);
    }
    let prepared = PreparedVerificationKey { alpha, beta, gamma, delta, ic };
    proof {
        assert(prepared@.ic =~= vk_prep_view(d).ic);
    }
    Ok(prepared)
}

/// A proof whose points have all been validated and converted.
pub struct PreparedProof {
    pub a: RawG1,
    pub b: RawG2,
    pub c: RawG1,
}

/// Ghost image of a prepared proof.
pub ghost struct ProofView {
    pub a: (Seq<u8>, Seq<u8>, Seq<u8>),
    pub b: (Seq<u8>, Seq<u8>, Seq<u8>, Seq<u8>, Seq<u8>, Seq<u8>),
    pub c: (Seq<u8>, Seq<u8>, Seq<u8>),
}

impl View for PreparedProof {
    type V = ProofView;

    open spec fn view(&self) -> ProofView {
        ProofView { a: self.a@, b: self.b@, c: self.c@ }
    }
}

impl PreparedProof {
    /// Every encoding of the proof denotes a group element the backend itself
    /// serialized; only such proofs may reach the pairing.
    pub open spec fn wf(self) -> bool {
        &&& g1_valid_enc(self.a@)
        &&& g2_valid_enc(self.b@)
        &&& g1_valid_enc(self.c@)
    }
}

pub open spec fn proof_prep_view(d: ProofData) -> ProofView {
    ProofView {
        a: g1_point_prep(d.a),
        b: g2_point_prep(d.b),
        c: g1_point_prep(d.c),
    }
}

/// What preparing a decoded proof returns: the prepared image, or
/// `InvalidPoint` naming the first failing field in declaration order.
pub open spec fn spec_prepare_proof(d: ProofData) -> Result<ProofView, VerificationError> {
    if !g1_point_ok(d.a) {
        Err(VerificationError::InvalidPoint(PointTag::A))
    } else if !g2_point_ok(d.b) {
        Err(VerificationError::InvalidPoint(PointTag::B))
    } else if !g1_point_ok(d.c) {
        Err(VerificationError::InvalidPoint(PointTag::C))
    } else {
        Ok(proof_prep_view(d))
    }
}

/// Validate every point of the proof and convert it to pairing-ready form.
pub fn prepare_proof(proof: Proof) -> (r: Result<PreparedProof, VerificationError>)
    ensures
        r matches Ok(p) ==> spec_prepare_proof(proof.data()) == Ok::<
            ProofView,
            VerificationError,
        >(p@) && p.wf(),
        r matches Err(e) ==> spec_prepare_proof(proof.data()) == Err::<
            ProofView,
            VerificationError,
        >(e),
{
    let a = match prepare_g1_point(&proof.a) {
        Some(p) => p,
        None => {
            return Err(VerificationError::InvalidPoint(PointTag::A));
        },
    };
    let b = match prepare_g2_point(&proof.b) {
        Some(p) => p,
        None => {
            return Err(VerificationError::InvalidPoint(PointTag::B));
        },
    };
    let c = match prepare_g1_point(&proof.c) {
        Some(p) => p,
        None => {
            return Err(VerificationError::InvalidPoint(PointTag::C));
        },
    };
    Ok(PreparedProof { a, b, c })
}

} // verus!
