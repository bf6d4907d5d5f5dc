use amcl_wrapper::field_elem::FieldElement;
use ff_zeroize::PrimeField;
use pairing_plus::bls12_381::{Fr, FrRepr, G1 as PpG1};
use pairing_plus::CurveProjective;

use rangeproof_bridge::bridge::pp_g1_to_amcl_g1;
use rangeproof_bridge::rangeproof::{
    complete_rangeproof, complete_verification, decide_commitment, gen_rangeproof,
    max_bits_in_val, scalar_value_as_u64, verify_rangeproof, BoundedNumOutcome,
    GenRangeProofError, VerifyRangeProofError,
};

fn fr_from_u64(v: u64) -> Fr {
    Fr::from_repr(FrRepr::from(v)).expect("a u64 is always a canonical scalar")
}

fn fr_with_high_limbs(limbs: [u64; 4]) -> Fr {
    Fr::from_repr(FrRepr(limbs)).expect("limbs must stay below the group order")
}

fn scaled_generator(k: u64) -> PpG1 {
    let mut p = PpG1::one();
    p.mul_assign(FrRepr::from(k));
    p
}

/// The true Pedersen commitment of (value, blinding) under (g, h), in
/// representation A.
fn pedersen(value: u64, blinding: u64, g: &PpG1, h: &PpG1) -> PpG1 {
    let mut vg = *g;
    vg.mul_assign(FrRepr::from(value));
    let mut bh = *h;
    bh.mul_assign(FrRepr::from(blinding));
    vg.add_assign(&bh);
    vg
}

#[test]
fn max_bits_for_0_255_is_8() {
    assert_eq!(max_bits_in_val(0, 255), 8);
}

#[test]
fn max_bits_for_zero_width_range_is_0() {
    assert_eq!(max_bits_in_val(100, 100), 0);
}

#[test]
fn max_bits_examples() {
    assert_eq!(max_bits_in_val(0, 1000), 10);
    assert_eq!(max_bits_in_val(0, 256), 9);
    assert_eq!(max_bits_in_val(10, 11), 1);
    assert_eq!(max_bits_in_val(0, u64::MAX), 64);
}

#[test]
fn scalar_value_within_cap_is_lowest_limb() {
    assert_eq!(scalar_value_as_u64(&vec![5, 0, 0, 0]), Ok(5));
    assert_eq!(scalar_value_as_u64(&vec![u64::MAX, 0, 0, 0]), Ok(u64::MAX));
}

#[test]
fn scalar_value_above_cap_overflows() {
    assert_eq!(
        scalar_value_as_u64(&vec![0, 1, 0, 0]),
        Err(GenRangeProofError::ValOverflow)
    );
    assert_eq!(
        scalar_value_as_u64(&vec![7, 0, 3, 0]),
        Err(GenRangeProofError::ValOverflow)
    );
    assert_eq!(
        scalar_value_as_u64(&vec![0, 0, 0, 2]),
        Err(GenRangeProofError::ValOverflow)
    );
}

#[test]
fn gen_rangeproof_assembles_request() {
    let g = PpG1::one();
    let h = scaled_generator(3);
    let c = pedersen(42, 7, &g, &h);
    let req = gen_rangeproof(
        &fr_from_u64(42),
        &fr_from_u64(7),
        0,
        1000,
        b"test",
        &g,
        &h,
        &c,
    )
    .expect("a 64-bit value must pass the magnitude check");
    assert_eq!(req.value, 42);
    assert_eq!(req.lower, 0);
    assert_eq!(req.upper, 1000);
    assert_eq!(req.max_bits_in_val, 10);
    assert_eq!(req.transcript_label, b"test".to_vec());
    assert_eq!(req.gens_count, 128);
    assert_eq!(req.commitment, pp_g1_to_amcl_g1(&c));
}

#[test]
fn gen_rangeproof_rejects_value_above_64_bits() {
    let g = PpG1::one();
    let h = scaled_generator(3);
    let big = fr_with_high_limbs([0, 1, 0, 0]);
    let r = gen_rangeproof(&big, &fr_from_u64(7), 0, 1000, b"test", &g, &h, &g);
    assert_eq!(r.unwrap_err(), GenRangeProofError::ValOverflow);
}

#[test]
fn gen_rangeproof_accepts_largest_64_bit_value() {
    let g = PpG1::one();
    let h = scaled_generator(3);
    let r = gen_rangeproof(
        &fr_from_u64(u64::MAX),
        &fr_from_u64(7),
        0,
        u64::MAX,
        b"test",
        &g,
        &h,
        &g,
    );
    assert_eq!(r.expect("value below 2^64 must not overflow").value, u64::MAX);
}

#[test]
fn matching_commitment_releases_proof() {
    // Commitment binding, the positive half: the gadget's commitment is the true Pedersen
    // commitment, computed here natively in representation B; the external
    // commitment is the same point bridged from representation A.
    let g = PpG1::one();
    let h = scaled_generator(3);
    let external = pp_g1_to_amcl_g1(&pedersen(42, 7, &g, &h));
    let g_b = pp_g1_to_amcl_g1(&g);
    let h_b = pp_g1_to_amcl_g1(&h);
    let gadget_commitment = &(&FieldElement::from(42u64) * &g_b) + &(&FieldElement::from(7u64) * &h_b);
    let outcome = BoundedNumOutcome::Proved {
        transcript: vec![1, 2, 3],
        commitment_value: gadget_commitment,
        commitment_min: g_b,
        commitment_max: h_b,
    };
    let bp = complete_rangeproof(&external, outcome).expect("matching commitments must succeed");
    assert_eq!(bp.transcript, vec![1, 2, 3]);
}

#[test]
fn mismatched_commitment_is_rejected() {
    // Commitment binding, the negative half: any other point as the external commitment.
    let g = PpG1::one();
    let h = scaled_generator(3);
    let external = pp_g1_to_amcl_g1(&pedersen(43, 7, &g, &h));
    let g_b = pp_g1_to_amcl_g1(&g);
    let h_b = pp_g1_to_amcl_g1(&h);
    let gadget_commitment = &(&FieldElement::from(42u64) * &g_b) + &(&FieldElement::from(7u64) * &h_b);
    let outcome = BoundedNumOutcome::Proved {
        transcript: vec![1, 2, 3],
        commitment_value: gadget_commitment,
        commitment_min: g_b,
        commitment_max: h_b,
    };
    let r = complete_rangeproof(&external, outcome);
    assert_eq!(r.unwrap_err(), GenRangeProofError::InvalidCommitment);
}

#[test]
fn gadget_failure_is_invalid_proof() {
    let g_b = pp_g1_to_amcl_g1(&PpG1::one());
    let r = complete_rangeproof(&g_b, BoundedNumOutcome::Failed);
    assert_eq!(r.unwrap_err(), GenRangeProofError::InvalidProof);
}

#[test]
fn decide_commitment_on_match_keeps_the_pieces() {
    let g_b = pp_g1_to_amcl_g1(&PpG1::one());
    let h_b = pp_g1_to_amcl_g1(&scaled_generator(3));
    let bp = decide_commitment(true, vec![9, 9], g_b.clone(), h_b.clone())
        .expect("a matching commitment must succeed");
    assert_eq!(bp.transcript, vec![9, 9]);
    assert_eq!(bp.commitment_min, g_b);
    assert_eq!(bp.commitment_max, h_b);
}

#[test]
fn decide_commitment_on_mismatch_fails() {
    let g_b = pp_g1_to_amcl_g1(&PpG1::one());
    let h_b = pp_g1_to_amcl_g1(&scaled_generator(3));
    let r = decide_commitment(false, vec![9, 9], g_b, h_b);
    assert_eq!(r.unwrap_err(), GenRangeProofError::InvalidCommitment);
}

#[test]
fn verify_request_rederives_the_generator_parameters() {
    // The verifier must derive the same bit width and generator count as the
    // generator did for the same (lower, upper); a different range changes
    // them silently.
    let g = PpG1::one();
    let h = scaled_generator(3);
    let c = pedersen(42, 7, &g, &h);
    let gen_req = gen_rangeproof(
        &fr_from_u64(42),
        &fr_from_u64(7),
        0,
        1000,
        b"label",
        &g,
        &h,
        &c,
    )
    .expect("generation request must assemble");
    let g_b = pp_g1_to_amcl_g1(&g);
    let h_b = pp_g1_to_amcl_g1(&h);
    let bp = decide_commitment(true, vec![5, 6, 7], g_b, h_b).expect("must succeed");
    let ver_req = verify_rangeproof(bp, 0, 1000, b"label", &g, &h, &c);
    assert_eq!(ver_req.max_bits_in_val, gen_req.max_bits_in_val);
    assert_eq!(ver_req.gens_count, gen_req.gens_count);
    assert_eq!(ver_req.transcript_label, gen_req.transcript_label);
    assert_eq!(ver_req.transcript, vec![5, 6, 7]);
    assert_eq!(ver_req.commitment, gen_req.commitment);

    // A narrowed range re-derives a different constraint-system width.
    let g_b = pp_g1_to_amcl_g1(&g);
    let h_b = pp_g1_to_amcl_g1(&h);
    let bp2 = decide_commitment(true, vec![5, 6, 7], g_b, h_b).expect("must succeed");
    let narrowed = verify_rangeproof(bp2, 0, 40, b"label", &g, &h, &c);
    assert_ne!(narrowed.max_bits_in_val, ver_req.max_bits_in_val);
    assert_eq!(narrowed.max_bits_in_val, 6);
}

#[test]
fn verification_verdict_maps_to_error_taxonomy() {
    assert_eq!(complete_verification(true), Ok(()));
    assert_eq!(
        complete_verification(false),
        Err(VerifyRangeProofError::VerificationError)
    );
}

#[test]
fn error_messages() {
    assert_eq!(
        GenRangeProofError::ValOverflow.message(),
        "val should be integer between 0 and 2^32"
    );
    assert_eq!(GenRangeProofError::InvalidProof.message(), "invalid proof");
    assert_eq!(GenRangeProofError::InvalidCommitment.message(), "invalid commitment");
    assert_eq!(
        VerifyRangeProofError::VerificationError.message(),
        "verification error of bulletproofs"
    );
    assert_eq!(VerifyRangeProofError::InvalidCommitment.message(), "invalid commitment");
}

#[test]
fn identical_commitment_value_releases_proof() {
    let c = pp_g1_to_amcl_g1(&pedersen(5, 9, &PpG1::one(), &scaled_generator(3)));
    let outcome = BoundedNumOutcome::Proved {
        transcript: vec![8],
        commitment_value: c.clone(),
        commitment_min: c.clone(),
        commitment_max: c.clone(),
    };
    let bp = complete_rangeproof(&c, outcome).expect("an identical commitment must succeed");
    assert_eq!(bp.transcript, vec![8]);
}
