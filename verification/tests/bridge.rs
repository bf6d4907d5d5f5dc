use amcl_wrapper::field_elem::FieldElement;
use amcl_wrapper::group_elem::GroupElement;
use amcl_wrapper::group_elem_g1::G1;
use ff_zeroize::{Field, PrimeField};
use pairing_plus::bls12_381::{Fr, FrRepr, G1 as PpG1};
use pairing_plus::CurveProjective;

use rangeproof_bridge::bridge::{pp_fr_to_amcl_fieldelement, pp_g1_to_amcl_ecp, pp_g1_to_amcl_g1};

fn fr_from_u64(v: u64) -> Fr {
    Fr::from_repr(FrRepr::from(v)).expect("a u64 is always a canonical scalar")
}

#[test]
fn scalar_bridge_matches_amcl_value() {
    // Stay below amcl's single-chunk width: its `From<u64>` stores the value
    // in one internal chunk and cannot hold a full 64-bit integer.
    for v in [0u64, 1, 42, 0xdead_beef, (1 << 55) + 17] {
        let fr = fr_from_u64(v);
        let bridged = pp_fr_to_amcl_fieldelement(&fr);
        assert_eq!(bridged, FieldElement::from(v), "scalar {} must bridge to itself", v);
    }
}

#[test]
fn scalar_bridge_matches_amcl_bytes() {
    // Full-width limbs, checked against amcl's own 48-byte big-endian
    // constructor with a buffer assembled here by hand.
    let limbs: [u64; 4] = [u64::MAX, 0x0123_4567_89ab_cdef, 7, 0x0fff_ffff_ffff_ffff];
    let fr = Fr::from_repr(FrRepr(limbs)).expect("below the group order");
    let bridged = pp_fr_to_amcl_fieldelement(&fr);
    let mut bytes = [0u8; 48];
    for (i, limb) in [limbs[3], limbs[2], limbs[1], limbs[0]].iter().enumerate() {
        bytes[16 + 8 * i..24 + 8 * i].copy_from_slice(&limb.to_be_bytes());
    }
    assert_eq!(bridged, FieldElement::from(&bytes));
}

#[test]
fn scalar_bridge_preserves_field_arithmetic() {
    // (a * b + c) computed in representation A bridges to the same element as
    // the product and sum computed natively in representation B.
    let a: u64 = 0x1234_5678_9abc_def0;
    let b: u64 = 0x0fed_cba9_8765_4321;
    let c: u64 = 97;
    let mut fr = fr_from_u64(a);
    fr.mul_assign(&fr_from_u64(b));
    fr.add_assign(&fr_from_u64(c));
    let bridged = pp_fr_to_amcl_fieldelement(&fr);
    let native = &(&FieldElement::from(a) * &FieldElement::from(b)) + &FieldElement::from(c);
    assert_eq!(bridged, native);
}

#[test]
fn generator_bridges_to_amcl_generator() {
    // Both libraries use the standard BLS12-381 generator.
    let bridged = pp_g1_to_amcl_g1(&PpG1::one());
    assert_eq!(bridged, G1::generator());
}

#[test]
fn scaled_point_bridges_to_scaled_generator() {
    let k: u64 = 123_456_789;
    let mut p = PpG1::one();
    p.mul_assign(FrRepr::from(k));
    let bridged = pp_g1_to_amcl_g1(&p);
    let native = &FieldElement::from(k) * &G1::generator();
    assert_eq!(bridged, native);
}

#[test]
fn raw_point_bridge_agrees_with_canonical_bridge() {
    let k: u64 = 31;
    let mut p = PpG1::one();
    p.mul_assign(FrRepr::from(k));
    let ecp = pp_g1_to_amcl_ecp(&p);
    let mut raw_bytes = [0u8; 97];
    ecp.tobytes(&mut raw_bytes, false);
    let canonical = pp_g1_to_amcl_g1(&p);
    assert_eq!(raw_bytes.to_vec(), canonical.to_bytes(false));
}
