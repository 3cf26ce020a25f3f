use vstd::prelude::*;
use crate::common::{
    prepare_proof, prepare_verification_key, spec_prepare_proof, spec_prepare_vk, PreparedProof,
    PreparedVerificationKey, ProofView, VkView,
};
use crate::curve::{
    be_bytes, g1_add_of, g1_copy, g1_add_raw, g1_mul_of, g1_mul_raw, g1_neg_of, g1_neg_raw,
    g1_raw_ok, g1_valid_enc, g2_valid_enc, is_g1_inf, pairing_accepts, pairing_check_raw, zero32,
    RawG1,
};
use crate::decimal::{dec_value, fr_modulus, is_canonical, FieldElement};
use crate::deserialization::{
    deserialize_public_inputs, spec_inputs_doc, spec_proof_doc, spec_vk_doc, Proof, VKey,
};
use crate::errors::VerificationError;

verus! {

// ---------------------------------------------------------------------------
// Prepared public inputs
// ---------------------------------------------------------------------------

/// The public inputs, each reduced to the canonical 32-byte encoding of a
/// scalar-field element.
pub struct PreparedPublicInputs {
    pub scalars: Vec<Vec<u8>>,
}

impl View for PreparedPublicInputs {
    type V = Seq<Seq<u8>>;

    open spec fn view(&self) -> Seq<Seq<u8>> {
        Seq::new(self.scalars@.len(), |i: int| self.scalars@[i]@)
    }
}

/// Reduce each validated input to its scalar encoding. The count against the
/// key is deliberately not checked here: only the verification engine has
/// `ic` in scope for that comparison.
pub fn prepare_public_inputs(inputs: Vec<FieldElement>) -> (r: PreparedPublicInputs)
    requires
        forall|i: int| 0 <= i < inputs@.len() ==> is_canonical((#[trigger] inputs@[i]).digits@),
    ensures
        r@.len() == inputs@.len(),
        forall|i: int| 0 <= i < inputs@.len() ==> r@[i] == be_bytes(
            dec_value(inputs@[i].digits@) % fr_modulus(),
            32,
        ),
{
    let mut scalars: Vec<Vec<u8>> = Vec::new();
    let mut i: usize = 0;
    while i < inputs.len()
        invariant
            i <= inputs@.len(),
            scalars@.len() == i,
            forall|i2: int| 0 <= i2 < inputs@.len() ==> is_canonical(
                (#[trigger] inputs@[i2]).digits@,
            ),
            forall|j: int| 0 <= j < i ==> (#[trigger] scalars@[j])@ == be_bytes(
                dec_value(inputs@[j].digits@) % fr_modulus(),
                32,
            ),
        decreases inputs@.len() - i,
    {
        scalars.push(crate::curve::fr_prepare_raw(&inputs[i].digits));
        i = i + 1;
    }
    PreparedPublicInputs { scalars }
}

// ---------------------------------------------------------------------------
// The public-input linear combination
// ---------------------------------------------------------------------------

/// The commitment `ic[0] + sum(inputs[i-1] * ic[i])`, folded left to right.
/// A term that is the group identity is skipped: adding the identity changes
/// nothing, which keeps the encoding of the accumulator canonical.
pub open spec fn vkx_spec(
    ic: Seq<(Seq<u8>, Seq<u8>, Seq<u8>)>,
    ins: Seq<Seq<u8>>,
    n: int,
) -> (Seq<u8>, Seq<u8>, Seq<u8>)
    decreases n,
{
    if n <= 0 {
        ic[0]
    } else if is_g1_inf(g1_mul_of(ic[n], ins[n - 1])) {
        vkx_spec(ic, ins, n - 1)
    } else {
        g1_add_of(vkx_spec(ic, ins, n - 1), g1_mul_of(ic[n], ins[n - 1]))
    }
}

/// The linear combination only reads the first `n + 1` entries of `ic` and
/// the first `n` inputs: entries past them do not matter.
pub proof fn lemma_vkx_prefix_stable(
    ic: Seq<(Seq<u8>, Seq<u8>, Seq<u8>)>,
    ins: Seq<Seq<u8>>,
    p: (Seq<u8>, Seq<u8>, Seq<u8>),
    s: Seq<u8>,
    n: int,
)
    requires
        0 <= n < ic.len(),
        n <= ins.len(),
    ensures
        vkx_spec(ic.push(p), ins.push(s), n) == vkx_spec(ic, ins, n),
    decreases n,
{
    if n > 0 {
        lemma_vkx_prefix_stable(ic, ins, p, s, n - 1);
        assert(ic.push(p)[n] == ic[n]);
        assert(ins.push(s)[n - 1] == ins[n - 1]);
    }
}

/// The point at infinity participates correctly in the linear combination:
/// extending a key's `ic` with an entry whose term is the group identity,
/// and the inputs with the matching scalar, leaves the commitment unchanged.
pub proof fn lemma_identity_term_vanishes(
    ic: Seq<(Seq<u8>, Seq<u8>, Seq<u8>)>,
    ins: Seq<Seq<u8>>,
    p: (Seq<u8>, Seq<u8>, Seq<u8>),
    s: Seq<u8>,
)
    requires
        ic.len() >= 1,
        ins.len() == ic.len() - 1,
        is_g1_inf(g1_mul_of(p, s)),
    ensures
        vkx_spec(ic.push(p), ins.push(s), ic.len() as int) == vkx_spec(
            ic,
            ins,
            ic.len() - 1,
        ),
{
    let n = ic.len() as int;
    assert(ic.push(p)[n] == p);
    assert(ins.push(s)[n - 1] == s);
    lemma_vkx_prefix_stable(ic, ins, p, s, n - 1);
}

/// Whether an encoded group-1 point is the identity (zero z-coordinate).
pub fn raw_is_inf(p: &RawG1) -> (r: bool)
    ensures
        r == is_g1_inf(p@),
{
    if p.z.len() != 32 {
        proof {
            assert(p.z@.len() != zero32().len());
        }
        return false;
    }
    let mut i: usize = 0;
    while i < 32
        invariant
            i <= 32,
            p.z@.len() == 32,
            forall|j: int| 0 <= j < i ==> p.z@[j] == 0u8,
        decreases 32 - i,
    {
        if p.z[i] != 0 {
            proof {
                assert(zero32()[i as int] == 0u8);
            }
            return false;
        }
        i = i + 1;
    }
    proof {
        assert(p.z@ =~= zero32());
    }
    true
}

/// Compute the public-input commitment `vkx`.
pub fn compute_vkx(ic: &Vec<RawG1>, inputs: &PreparedPublicInputs) -> (r: RawG1)
    requires
        ic@.len() >= 1,
        inputs.scalars@.len() == ic@.len() - 1,
        forall|i: int| 0 <= i < ic@.len() ==> g1_raw_ok((#[trigger] ic@[i])@) && g1_valid_enc(
            ic@[i]@,
        ),
    ensures
        r@ == vkx_spec(
            Seq::new(ic@.len(), |i: int| ic@[i]@),
            inputs@,
            ic@.len() - 1,
        ),
        g1_raw_ok(r@),
        g1_valid_enc(r@),
{
    let ghost icv = Seq::new(ic@.len(), |i: int| ic@[i]@);
    let mut acc = g1_copy(&ic[0]);
    let mut i: usize = 0;
    while i < inputs.scalars.len()
        invariant
            ic@.len() >= 1,
            inputs.scalars@.len() == ic@.len() - 1,
            i <= inputs.scalars@.len(),
            forall|j: int| 0 <= j < ic@.len() ==> g1_raw_ok((#[trigger] ic@[j])@)
                && g1_valid_enc(ic@[j]@),
            icv == Seq::new(ic@.len(), |j: int| ic@[j]@),
            g1_raw_ok(acc@),
            g1_valid_enc(acc@),
            acc@ == vkx_spec(icv, inputs@, i as int),
        decreases inputs.scalars@.len() - i,
    {
        let term = g1_mul_raw(&ic[i + 1], &inputs.scalars[i]);
        proof {
            assert(icv[i + 1] == ic@[i + 1]@);
            assert(inputs@[i as int] == inputs.scalars@[i as int]@);
        }
        if !raw_is_inf(&term) {
            acc = g1_add_raw(&acc, &term);
        }
        i = i + 1;
    }
    acc
}

// ---------------------------------------------------------------------------
// The verification engine
// ---------------------------------------------------------------------------

/// The verdict of the pairing check for the given prepared images: whether
/// `e(-a, b) * e(alpha, beta) * e(vkx, gamma) * e(c, delta)` is the identity
/// of the target field.
pub open spec fn verdict_spec(vkv: VkView, pv: ProofView, ins: Seq<Seq<u8>>) -> bool {
    pairing_accepts(
        g1_neg_of(pv.a),
        pv.b,
        vkv.alpha,
        vkv.beta,
        vkx_spec(vkv.ic, ins, vkv.ic.len() - 1),
        vkv.gamma,
        pv.c,
        vkv.delta,
    )
}

/// Check a prepared proof against a prepared key and prepared inputs.
///
/// Structural failure is distinct from an unconvincing proof: when the input
/// count does not match the key the result is `InputCountMismatch` and no
/// pairing is computed; otherwise the verdict, `true` or `false`, is a
/// function of the three prepared images alone.
pub fn verify(
    vk: &PreparedVerificationKey,
    proof: &PreparedProof,
    inputs: &PreparedPublicInputs,
) -> (r: Result<bool, VerificationError>)
    requires
        vk.wf(),
        proof.wf(),
    ensures
        (r is Ok) == (vk.ic@.len() >= 1 && inputs.scalars@.len() == vk.ic@.len() - 1),
        r matches Err(e) ==> e == VerificationError::InputCountMismatch,
        r matches Ok(b) ==> b == verdict_spec(vk@, proof@, inputs@),
{
    if !(vk.ic.len() >= 1 && inputs.scalars.len() == vk.ic.len() - 1) {
        return Err(VerificationError::InputCountMismatch);
    }
    let vkx = compute_vkx(&vk.ic, inputs);
    let neg_a = g1_neg_raw(&proof.a);
    let accepted = pairing_check_raw(
        &neg_a,
        &proof.b,
        &vk.alpha,
        &vk.beta,
        &vkx,
        &vk.gamma,
        &proof.c,
        &vk.delta,
    );
    Ok(accepted)
}

/// Verification is deterministic: any two results that satisfy `verify`'s
/// contract for the same prepared images are equal, so re-running it on the
/// same prepared triple returns the identical verdict.
pub proof fn lemma_verify_deterministic(
    vkv: VkView,
    pv: ProofView,
    ins: Seq<Seq<u8>>,
    r1: Result<bool, VerificationError>,
    r2: Result<bool, VerificationError>,
)
    requires
        (r1 is Ok) == (vkv.ic.len() >= 1 && ins.len() == vkv.ic.len() - 1),
        r1 matches Err(e) ==> e == VerificationError::InputCountMismatch,
        r1 matches Ok(b) ==> b == verdict_spec(vkv, pv, ins),
        (r2 is Ok) == (vkv.ic.len() >= 1 && ins.len() == vkv.ic.len() - 1),
        r2 matches Err(e) ==> e == VerificationError::InputCountMismatch,
        r2 matches Ok(b) ==> b == verdict_spec(vkv, pv, ins),
    ensures
        r1 == r2,
{
}

// ---------------------------------------------------------------------------
// The whole pipeline
// ---------------------------------------------------------------------------

/// What the whole pipeline returns for the three documents: the first
/// failing stage's error — deserialization of the key, the proof and the
/// inputs, then preparation of the key and the proof, then the input-count
/// check — or else the pairing verdict for the prepared images.
pub open spec fn spec_pipeline(
    vk_bytes: Seq<u8>,
    proof_bytes: Seq<u8>,
    inputs_bytes: Seq<u8>,
) -> Result<bool, VerificationError> {
    match spec_vk_doc(vk_bytes) {
        Err(e) => Err(e),
        Ok(vkd) => match spec_proof_doc(proof_bytes) {
            Err(e) => Err(e),
            Ok(pd) => match spec_inputs_doc(inputs_bytes) {
                Err(e) => Err(e),
                Ok(ins) => match spec_prepare_vk(vkd) {
                    Err(e) => Err(e),
                    Ok(vkv) => match spec_prepare_proof(pd) {
                        Err(e) => Err(e),
                        Ok(pv) => {
                            let scalars = Seq::new(
                                ins.len(),
                                |i: int| be_bytes(dec_value(ins[i]) % fr_modulus(), 32),
                            );
                            if vkv.ic.len() >= 1 && scalars.len() == vkv.ic.len() - 1 {
                                Ok(verdict_spec(vkv, pv, scalars))
                            } else {
                                Err(VerificationError::InputCountMismatch)
                            }
                        },
                    },
                },
            },
        },
    }
}

/// Deserialize, prepare and verify: exactly `spec_pipeline` of the three
/// documents. Every deserialization or preparation failure is surfaced as
/// its typed error; a `false` verdict is not an error.
pub fn verify_from_json(vk_bytes: &[u8], proof_bytes: &[u8], inputs_bytes: &[u8]) -> (r: Result<
    bool,
    VerificationError,
>)
    ensures
        r == spec_pipeline(vk_bytes@, proof_bytes@, inputs_bytes@),
{
    let vk = match VKey::from_json_u8_slice(vk_bytes) {
        Ok(v) => v,
        Err(e) => {
            return Err(e);
        },
    };
    let proof = match Proof::from_json_u8_slice(proof_bytes) {
        Ok(p) => p,
        Err(e) => {
            return Err(e);
        },
    };
    let inputs = match deserialize_public_inputs(inputs_bytes) {
        Ok(v) => v,
        Err(e) => {
            return Err(e);
        },
    };
    let pvk = match prepare_verification_key(vk) {
        Ok(p) => p,
        Err(e) => {
            return Err(e);
        },
    };
    let pproof = match prepare_proof(proof) {
        Ok(p) => p,
        Err(e) => {
            return Err(e);
        },
    };
    let pinputs = prepare_public_inputs(inputs);
    proof {
        let ins = spec_inputs_doc(inputs_bytes@)->Ok_0;
        assert(pinputs@ =~= Seq::new(
            ins.len(),
            |i: int| be_bytes(dec_value(ins[i]) % fr_modulus(), 32),
        ));
        assert(pvk@.ic.len() == pvk.ic@.len());
    }
    verify(&pvk, &pproof, &pinputs)
}

} // verus!
