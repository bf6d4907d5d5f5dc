//! Orchestration of the bounded-number range proof.
//!
//! The constraint-system gadget that actually builds and checks the
//! zero-knowledge proof is an external collaborator: it is handed a request
//! assembled here and its reply is judged here. Proof generation therefore
//! splits into two verified halves around the gadget call. `gen_rangeproof`
//! checks the value's magnitude, derives the bit width, bridges the scalar
//! and the points to representation B, and assembles the gadget's request;
//! `complete_rangeproof` judges the gadget's outcome, enforcing that the
//! commitment the gadget computed equals the externally supplied one.
//! Verification mirrors this: `verify_rangeproof` re-derives the same public
//! parameters and assembles the request, `complete_verification` maps the
//! gadget's verdict onto the error taxonomy.

use vstd::prelude::*;

use crate::bridge::{
    amcl_g1_eq, bridges_point, fe_value, fr_limbs, fr_scalar_limbs, pp_fr_to_amcl_fieldelement,
    pp_g1_on_curve, pp_g1_to_amcl_g1,
};
use crate::codec::limbs_le_value;
use amcl_wrapper::field_elem::FieldElement;
use amcl_wrapper::group_elem_g1::G1;
use pairing_plus::bls12_381::{Fr, G1 as PpG1};
use vstd::arithmetic::power2::{lemma2_to64, lemma_pow2_adds, pow2};
use vstd::std_specs::bits::{axiom_u64_leading_zeros, u64_leading_zeros};

verus! {

/// Why proof generation failed.
#[derive(Clone, Debug, PartialEq, Eq, Structural)]
pub enum GenRangeProofError {
    /// The value's magnitude exceeds 64 bits: a caller error, not retryable
    /// without choosing a smaller value.
    ValOverflow,
    /// The gadget failed to construct a valid proof.
    InvalidProof,
    /// The gadget's internally computed commitment disagrees with the
    /// caller-supplied external commitment: the caller passed mismatched
    /// inputs relative to the commitment.
    InvalidCommitment,
}

impl GenRangeProofError {
    /// The human-readable description of the error.
    pub fn message(&self) -> (r: &'static str)
        ensures
            self is ValOverflow ==> r@ == "val should be integer between 0 and 2^32"@,
            self is InvalidProof ==> r@ == "invalid proof"@,
            self is InvalidCommitment ==> r@ == "invalid commitment"@,
    {
        match self {
            GenRangeProofError::ValOverflow => "val should be integer between 0 and 2^32",
            GenRangeProofError::InvalidProof => "invalid proof",
            GenRangeProofError::InvalidCommitment => "invalid commitment",
        }
    }
}

/// Why proof verification failed.
#[derive(Clone, Debug, PartialEq, Eq, Structural)]
pub enum VerifyRangeProofError {
    /// The gadget rejected the proof: the value is out of range, the proof
    /// is malformed, or it was built against different public parameters.
    VerificationError,
    /// Reserved for symmetry with generation; the verification path never
    /// produces it, since the verifier computes no independent commitment to
    /// compare against.
    InvalidCommitment,
}

impl VerifyRangeProofError {
    /// The human-readable description of the error.
    pub fn message(&self) -> (r: &'static str)
        ensures
            self is VerificationError ==> r@ == "verification error of bulletproofs"@,
            self is InvalidCommitment ==> r@ == "invalid commitment"@,
    {
        match self {
            VerifyRangeProofError::VerificationError => "verification error of bulletproofs",
            VerifyRangeProofError::InvalidCommitment => "invalid commitment",
        }
    }
}

/// The proof artifact: the gadget's opaque proof transcript and the two
/// auxiliary commitments it produced while proving the value lies within the
/// bit-decomposed bounds. Constructed only by `complete_rangeproof` on
/// success; immutable once constructed.
#[derive(Debug)]
pub struct Bulletproof {
    pub transcript: Vec<u8>,
    pub commitment_min: G1,
    pub commitment_max: G1,
}

/// Everything the bounded-number gadget needs to build a proof, with the
/// scalar and the points already in representation B. The gadget derives its
/// generator vectors from the fixed labels `"G"` and `"H"`, `gens_count`
/// points each.
#[derive(Debug)]
pub struct BoundedNumProofRequest {
    pub value: u64,
    pub lower: u64,
    pub upper: u64,
    pub max_bits_in_val: usize,
    pub transcript_label: Vec<u8>,
    pub blinding: FieldElement,
    pub g: G1,
    pub h: G1,
    pub commitment: G1,
    pub gens_count: usize,
}

/// What came back from the gadget: either a construction failure, or a proof
/// transcript together with the commitment the gadget computed from the
/// value and blinding and the two auxiliary bound commitments.
pub enum BoundedNumOutcome {
    Failed,
    Proved {
        transcript: Vec<u8>,
        commitment_value: G1,
        commitment_min: G1,
        commitment_max: G1,
    },
}

/// Everything the gadget needs to check a proof: the re-derived public
/// parameters, the bridged points, and the commitment triple made of the
/// externally supplied commitment and the proof's two auxiliary ones.
pub struct BoundedNumVerifyRequest {
    pub lower: u64,
    pub upper: u64,
    pub max_bits_in_val: usize,
    pub transcript_label: Vec<u8>,
    pub transcript: Vec<u8>,
    pub g: G1,
    pub h: G1,
    pub commitment: G1,
    pub commitment_min: G1,
    pub commitment_max: G1,
    pub gens_count: usize,
}

/// Copy a borrowed byte slice into an owned buffer.
fn copy_bytes(b: &[u8]) -> (r: Vec<u8>)
    ensures
        r@ == b@,
{
    let mut r: Vec<u8> = Vec::new();
    let mut i: usize = 0;
    while i < b.len()
        invariant
            i <= b@.len(),
            r@ == b@.take(i as int),
        decreases b@.len() - i,
    {
        r.push(b[i]);
        proof {
            assert(r@ =~= b@.take(i + 1));
        }
        i += 1;
    }
    proof {
        assert(b@.take(b@.len() as int) =~= b@);
    }
    r
}

/// The number of bits needed to write `v` in binary; 0 for `v == 0`.
pub open spec fn bit_len(v: u64) -> nat
    decreases v,
{
    if v == 0 {
        0
    } else {
        (1 + bit_len((v / 2) as u64)) as nat
    }
}

/// `bit_len` is what `64 - leading_zeros` computes: the two definitions
/// recurse in step.
proof fn lemma_bit_len_is_64_minus_leading_zeros(v: u64)
    ensures
        bit_len(v) == 64 - u64_leading_zeros(v),
        0 <= u64_leading_zeros(v) <= 64,
    decreases v,
{
    reveal(u64_leading_zeros);
    axiom_u64_leading_zeros(v);
    if v != 0 {
        lemma_bit_len_is_64_minus_leading_zeros((v / 2) as u64);
    }
}

/// What the bit length means: `bit_len(v)` is the least width whose range
/// covers `v` — `v` fits in `bit_len(v)` bits and, unless it is zero, in no
/// fewer.
pub proof fn lemma_bit_len_bounds(v: u64)
    ensures
        v < pow2(bit_len(v)),
        bit_len(v) > 0 ==> pow2((bit_len(v) - 1) as nat) <= v,
        bit_len(v) <= 64,
    decreases v,
{
    lemma_bit_len_is_64_minus_leading_zeros(v);
    lemma2_to64();
    if v != 0 {
        let half = (v / 2) as u64;
        lemma_bit_len_bounds(half);
        lemma_pow2_adds(1, bit_len(half));
        if bit_len(half) > 0 {
            lemma_pow2_adds(1, (bit_len(half) - 1) as nat);
        }
    }
}

/// The bit-decomposition width the gadget uses: the bit length of the range
/// width `upper - lower`. Prover and verifier must compute it identically
/// from the same pair; a zero-width range gives width 0.
pub fn max_bits_in_val(lower: u64, upper: u64) -> (r: usize)
    requires
        lower <= upper,
    ensures
        r == bit_len((upper - lower) as u64),
        r <= 64,
{
    let diff: u64 = upper - lower;
    proof {
        lemma_bit_len_is_64_minus_leading_zeros(diff);
    }
    let lz: u32 = diff.leading_zeros();
    (64 - lz) as usize
}

/// A 4-limb scalar's value written out limb by limb, and the magnitude cap:
/// the value fits in 64 bits exactly when the limbs above index 0 are zero,
/// and is then the lowest limb.
proof fn lemma_scalar_value_limbs(limbs: Seq<u64>)
    requires
        limbs.len() == 4,
    ensures
        limbs_le_value(limbs) == limbs[0] + 0x1_0000_0000_0000_0000 * (limbs[1]
            + 0x1_0000_0000_0000_0000 * (limbs[2] + 0x1_0000_0000_0000_0000 * limbs[3])),
        limbs_le_value(limbs) < 0x1_0000_0000_0000_0000 <==> limbs[1] == 0 && limbs[2] == 0
            && limbs[3] == 0,
        limbs[1] == 0 && limbs[2] == 0 && limbs[3] == 0 ==> limbs_le_value(limbs) == limbs[0],
{
    crate::codec::lemma_limbs_le_value_4(limbs);
}

/// The magnitude cap on the secret value. A canonical scalar's limbs above
/// index 0 must all be zero — the value must be below 2^64 — or generation
/// fails with `ValOverflow`, regardless of how large `upper` is: an explicit
/// simplification of the gadget's input domain. Within the cap, the value is
/// the lowest limb.
pub fn scalar_value_as_u64(limbs: &Vec<u64>) -> (r: Result<u64, GenRangeProofError>)
    requires
        limbs@.len() == 4,
    ensures
        limbs_le_value(limbs@) < 0x1_0000_0000_0000_0000 ==> r == Ok::<
            u64,
            GenRangeProofError,
        >(limbs@[0]),
        limbs_le_value(limbs@) >= 0x1_0000_0000_0000_0000 ==> r == Err::<
            u64,
            GenRangeProofError,
        >(GenRangeProofError::ValOverflow),
        r matches Ok(v) ==> v == limbs_le_value(limbs@),
{
    proof {
        lemma_scalar_value_limbs(limbs@);
    }
    if limbs[1] > 0 || limbs[2] > 0 || limbs[3] > 0 {
        Err(GenRangeProofError::ValOverflow)
    } else {
        Ok(limbs[0])
    }
}

/// Generate a range proof, up to the gadget call: check the value's
/// magnitude, derive the bit width, bridge the blinding factor, the
/// generators and the external commitment to representation B, and assemble
/// the gadget's request. The only error produced here is `ValOverflow`; the
/// caller runs the gadget on the request and judges its outcome with
/// `complete_rangeproof`.
pub fn gen_rangeproof(
    val: &Fr,
    blinding: &Fr,
    lower: u64,
    upper: u64,
    transcript_label: &[u8],
    g: &PpG1,
    h: &PpG1,
    c: &PpG1,
) -> (r: Result<BoundedNumProofRequest, GenRangeProofError>)
    requires
        lower <= upper,
    ensures
        r is Err <==> limbs_le_value(fr_limbs(*val)) >= 0x1_0000_0000_0000_0000,
        r matches Err(e) ==> e == GenRangeProofError::ValOverflow,
        r matches Ok(req) ==> {
            &&& req.value == limbs_le_value(fr_limbs(*val))
            &&& req.lower == lower
            &&& req.upper == upper
            &&& req.max_bits_in_val == bit_len((upper - lower) as u64)
            &&& req.transcript_label@ == transcript_label@
            &&& req.gens_count == 128
            &&& fe_value(req.blinding) == limbs_le_value(fr_limbs(*blinding))
            &&& pp_g1_on_curve(*g) ==> bridges_point(req.g, *g)
            &&& pp_g1_on_curve(*h) ==> bridges_point(req.h, *h)
            &&& pp_g1_on_curve(*c) ==> bridges_point(req.commitment, *c)
        },
{
    let limbs = fr_scalar_limbs(val);
    let value = match scalar_value_as_u64(&limbs) {
        Ok(v) => v,
        Err(e) => {
            return Err(e);
        },
    };
    let max_bits = max_bits_in_val(lower, upper);
    let blinding_b = pp_fr_to_amcl_fieldelement(blinding);
    let g_b = pp_g1_to_amcl_g1(g);
    let h_b = pp_g1_to_amcl_g1(h);
    let c_b = pp_g1_to_amcl_g1(c);
    Ok(
        BoundedNumProofRequest {
            value,
            lower,
            upper,
            max_bits_in_val: max_bits,
            transcript_label: copy_bytes(transcript_label),
            blinding: blinding_b,
            g: g_b,
            h: h_b,
            commitment: c_b,
            gens_count: 128,
        },
    )
}

/// The commitment consistency decision. When the gadget's commitment matches
/// the external one, the proof is released as a `Bulletproof` carrying the
/// transcript and the two auxiliary commitments; when it does not, the proof
/// is cryptographically valid but does not bind the commitment the caller
/// intended, so it is withheld and `InvalidCommitment` returned.
pub fn decide_commitment(
    commitment_matches: bool,
    transcript: Vec<u8>,
    commitment_min: G1,
    commitment_max: G1,
) -> (r: Result<Bulletproof, GenRangeProofError>)
    ensures
        commitment_matches ==> (r matches Ok(bp) && bp.transcript == transcript
            && bp.commitment_min == commitment_min && bp.commitment_max == commitment_max),
        !commitment_matches ==> r == Err::<
            Bulletproof,
            GenRangeProofError,
        >(GenRangeProofError::InvalidCommitment),
{
    if commitment_matches {
        Ok(Bulletproof { transcript, commitment_min, commitment_max })
    } else {
        Err(GenRangeProofError::InvalidCommitment)
    }
}

/// Judge the gadget's outcome. A construction failure is `InvalidProof`; a
/// proof whose internally computed commitment differs from the bridged
/// external commitment is `InvalidCommitment`; only a proof that passes both
/// checks is returned.
pub fn complete_rangeproof(expected_commitment: &G1, outcome: BoundedNumOutcome) -> (r: Result<
    Bulletproof,
    GenRangeProofError,
>)
    ensures
        outcome is Failed ==> r == Err::<
            Bulletproof,
            GenRangeProofError,
        >(GenRangeProofError::InvalidProof),
        outcome is Proved ==> (r is Ok || r == Err::<
            Bulletproof,
            GenRangeProofError,
        >(GenRangeProofError::InvalidCommitment)),
        (outcome matches BoundedNumOutcome::Proved { commitment_value, .. } && commitment_value
            == *expected_commitment) ==> r is Ok,
        r matches Ok(bp) ==> (outcome matches BoundedNumOutcome::Proved {
            transcript,
            commitment_min,
            commitment_max,
            ..
        } && bp.transcript == transcript && bp.commitment_min == commitment_min
            && bp.commitment_max == commitment_max),
{
    match outcome {
        BoundedNumOutcome::Failed => Err(GenRangeProofError::InvalidProof),
        BoundedNumOutcome::Proved { transcript, commitment_value, commitment_min, commitment_max } => {
            let same = amcl_g1_eq(&commitment_value, expected_commitment);
            decide_commitment(same, transcript, commitment_min, commitment_max)
        },
    }
}

/// Verify a range proof, up to the gadget call: re-derive the bit width
/// exactly as the generator does, bridge the generators and the external
/// commitment, and assemble the gadget's request around the commitment
/// triple. Nothing checks that the parameters match the generator's — a
/// mismatched pair silently changes the constraint system and the proof
/// simply fails to verify. The caller runs the gadget and maps its verdict
/// with `complete_verification`.
pub fn verify_rangeproof(
    bp: Bulletproof,
    lower: u64,
    upper: u64,
    transcript_label: &[u8],
    g: &PpG1,
    h: &PpG1,
    c: &PpG1,
) -> (r: BoundedNumVerifyRequest)
    requires
        lower <= upper,
    ensures
        r.lower == lower,
        r.upper == upper,
        r.max_bits_in_val == bit_len((upper - lower) as u64),
        r.transcript_label@ == transcript_label@,
        r.transcript == bp.transcript,
        r.commitment_min == bp.commitment_min,
        r.commitment_max == bp.commitment_max,
        r.gens_count == 128,
        pp_g1_on_curve(*g) ==> bridges_point(r.g, *g),
        pp_g1_on_curve(*h) ==> bridges_point(r.h, *h),
        pp_g1_on_curve(*c) ==> bridges_point(r.commitment, *c),
{
    let max_bits = max_bits_in_val(lower, upper);
    let g_b = pp_g1_to_amcl_g1(g);
    let h_b = pp_g1_to_amcl_g1(h);
    let c_b = pp_g1_to_amcl_g1(c);
    BoundedNumVerifyRequest {
        lower,
        upper,
        max_bits_in_val: max_bits,
        transcript_label: copy_bytes(transcript_label),
        transcript: bp.transcript,
        g: g_b,
        h: h_b,
        commitment: c_b,
        commitment_min: bp.commitment_min,
        commitment_max: bp.commitment_max,
        gens_count: 128,
    }
}

/// Map the gadget's verdict onto the verifier's error taxonomy: acceptance
/// is success, rejection is `VerificationError`. No path produces
/// `InvalidCommitment`: the bridged external commitment is fed directly into
/// the gadget as the value being attested to, so a commitment mismatch
/// manifests as ordinary verification failure.
pub fn complete_verification(accepted: bool) -> (r: Result<(), VerifyRangeProofError>)
    ensures
        accepted <==> r is Ok,
        !accepted ==> r == Err::<(), VerifyRangeProofError>(VerifyRangeProofError::VerificationError),
{
    if accepted {
        Ok(())
    } else {
        Err(VerifyRangeProofError::VerificationError)
    }
}

} // verus!
