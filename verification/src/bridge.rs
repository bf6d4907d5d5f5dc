//! Conversions between the two curve libraries' representations.
//!
//! Representation A is the pairing library's: a scalar is an `Fr` (four
//! 64-bit limbs modulo the group order), a point is a projective `G1` over
//! the 381-bit base field. Representation B is the amcl library's: a scalar
//! is a `FieldElement` parsed from a 48-byte big-endian buffer, a point is an
//! amcl `G1` parsed from the 97-byte uncompressed encoding.
//!
//! The byte layouts in between are the verified encodings of `codec`; only
//! the calls into the two libraries are trusted, each behind a small wrapper
//! whose contract states what the library's source shows. Each opaque
//! outside type is given a name for the mathematical value it holds
//! (`fr_limbs`, `fe_value`, `big_value`, the coordinate pairs): the wrappers
//! state what each call does to those values, and the bridge functions then
//! prove, through the codec layer, that the numeric value of a scalar and
//! the affine coordinates of a point survive the crossing unchanged.

use vstd::prelude::*;

use crate::codec::{
    base_limbs_to_be_bytes, bytes_be_value, limbs_le_value, scalar_limbs_to_be_bytes,
};
use amcl_wrapper::group_elem::GroupElement;
use amcl_wrapper::ECCurve::big::BIG;
use amcl_wrapper::ECCurve::ecp::ECP;
use amcl_wrapper::field_elem::FieldElement;
use amcl_wrapper::group_elem_g1::G1;
use ff_zeroize::PrimeField;
use pairing_plus::bls12_381::{Fr, FqRepr, G1 as PpG1};
use pairing_plus::CurveAffine;
use pairing_plus::CurveProjective;

verus! {

#[verifier::external_type_specification]
#[verifier::external_body]
pub struct ExFr(Fr);

#[verifier::external_type_specification]
#[verifier::external_body]
pub struct ExPpG1(PpG1);

#[verifier::external_type_specification]
#[verifier::external_body]
pub struct ExFieldElement(FieldElement);

#[verifier::external_type_specification]
#[verifier::external_body]
pub struct ExG1(G1);

#[verifier::external_type_specification]
#[verifier::external_body]
pub struct ExBig(BIG);

#[verifier::external_type_specification]
#[verifier::external_body]
pub struct ExEcp(ECP);

/// The canonical four-limb little-endian representation of a scalar: what
/// the scalar field's `into_repr` computes from the element.
pub uninterp spec fn fr_limbs(fr: Fr) -> Seq<u64>;

/// The numeric value of an amcl field element.
pub uninterp spec fn fe_value(f: FieldElement) -> nat;

/// The canonical affine coordinate limbs (x, y) of a projective point: what
/// normalization followed by the base field's `into_repr` yields. For the
/// identity they are the limbs of its stored affine form.
pub uninterp spec fn pp_g1_coords(p: PpG1) -> (Seq<u64>, Seq<u64>);

/// The numeric value of an amcl big integer.
pub uninterp spec fn big_value(b: BIG) -> nat;

/// The normalized affine coordinates (x, y) of an amcl raw curve point, as
/// the library serializes them.
pub uninterp spec fn ecp_coords(p: ECP) -> (nat, nat);

/// The normalized affine coordinates (x, y) of an amcl canonical curve
/// point.
pub uninterp spec fn amcl_g1_coords(p: G1) -> (nat, nat);

/// Whether the pair (x, y) satisfies the curve equation: the membership
/// test amcl's point constructors apply before accepting coordinates.
pub uninterp spec fn curve_contains(x: nat, y: nat) -> bool;

/// The order of the curve's scalar field: every canonical scalar value is
/// below it.
pub open spec fn scalar_field_order() -> nat {
    limbs_le_value(
        seq![0xffffffff00000001u64, 0x53bda402fffe5bfeu64, 0x3339d80809a1d805u64, 0x73eda753299d7d48u64],
    )
}

/// The order of the curve's 381-bit base field: every canonical coordinate
/// value is below it.
pub open spec fn base_field_order() -> nat {
    limbs_le_value(
        seq![
            0xb9feffffffffaaabu64,
            0x1eabfffeb153ffffu64,
            0x6730d2a0f6b0f624u64,
            0x64774b84f38512bfu64,
            0x4b1ba7b6434bacd7u64,
            0x1a0111ea397fe69au64,
        ],
    )
}

/// The numeric value of a point's x coordinate in representation A.
pub open spec fn pp_g1_x_value(p: PpG1) -> nat {
    limbs_le_value(pp_g1_coords(p).0)
}

/// The numeric value of a point's y coordinate in representation A.
pub open spec fn pp_g1_y_value(p: PpG1) -> nat {
    limbs_le_value(pp_g1_coords(p).1)
}

/// Whether a representation-A point's affine coordinates satisfy the curve
/// equation. Every group element but the identity does; the identity's
/// stored affine form does not, and the bridge's point contracts are
/// conditional on this, as the conversion does no identity special-casing.
pub open spec fn pp_g1_on_curve(p: PpG1) -> bool {
    curve_contains(pp_g1_x_value(p), pp_g1_y_value(p))
}

/// The bridged point `a` denotes the same affine point as `p`: its
/// coordinates in representation B equal, as base-field integers, the
/// canonical affine coordinates of `p`.
pub open spec fn bridges_point(a: G1, p: PpG1) -> bool {
    amcl_g1_coords(a) == (pp_g1_x_value(p), pp_g1_y_value(p))
}

/// Relies on the scalar field's `PrimeField::into_repr`: it returns the
/// canonical four-limb little-endian representation of the element, whose
/// value is below the group order.
#[verifier::external_body]
pub(crate) fn fr_scalar_limbs(fr: &Fr) -> (r: Vec<u64>)
    ensures
        r@ == fr_limbs(*fr),
        r@.len() == 4,
        limbs_le_value(r@) < scalar_field_order(),
{
    fr.into_repr().as_ref().to_vec()
}

/// Relies on `CurveProjective::into_affine` and the affine point's
/// `as_tuple`: together with the base field's `into_repr` they yield the
/// canonical six-limb little-endian x and y coordinates of the point.
#[verifier::external_body]
fn g1_affine_coord_limbs(p: &PpG1) -> (r: (Vec<u64>, Vec<u64>))
    ensures
        r.0@ == pp_g1_coords(*p).0,
        r.1@ == pp_g1_coords(*p).1,
        r.0@.len() == 6,
        r.1@.len() == 6,
        limbs_le_value(r.0@) < base_field_order(),
        limbs_le_value(r.1@) < base_field_order(),
{
    let affine = p.into_affine();
    let (x, y) = affine.as_tuple();
    let xr: FqRepr = (*x).into();
    let yr: FqRepr = (*y).into();
    (xr.as_ref().to_vec(), yr.as_ref().to_vec())
}

/// Relies on amcl's `FieldElement::from_bytes`: it fails only when the
/// buffer is not exactly 48 bytes, so the unwrap cannot panic; it parses the
/// bytes as a big-endian integer and reduces it modulo the group order,
/// which leaves a value already below the order unchanged.
#[verifier::external_body]
fn field_element_from_be_bytes(b: &Vec<u8>) -> (r: FieldElement)
    requires
        b@.len() == 48,
    ensures
        bytes_be_value(b@) < scalar_field_order() ==> fe_value(r) == bytes_be_value(b@),
        fe_value(r) < scalar_field_order(),
{
    FieldElement::from_bytes(b.as_slice()).unwrap()
}

/// Relies on amcl's `BIG::frombytes`: it reads exactly 48 big-endian bytes
/// into a big integer without reduction (and panics on a shorter buffer,
/// which the precondition rules out).
#[verifier::external_body]
fn big_from_be_bytes(b: &Vec<u8>) -> (r: BIG)
    requires
        b@.len() == 48,
    ensures
        big_value(r) == bytes_be_value(b@),
{
    BIG::frombytes(b.as_slice())
}

/// Relies on amcl's `ECP::new_bigs`: it copies the two coordinates, reduced
/// into the base field, and keeps them when they satisfy the curve
/// equation; otherwise it yields the point at infinity.
#[verifier::external_body]
fn ecp_from_affine_bigs(x: &BIG, y: &BIG) -> (r: ECP)
    ensures
        big_value(*x) < base_field_order() && big_value(*y) < base_field_order()
            && curve_contains(big_value(*x), big_value(*y)) ==> ecp_coords(r) == (
        big_value(*x),
        big_value(*y),
        ),
{
    ECP::new_bigs(x, y)
}

/// Relies on amcl's `ECP::tobytes` with `compress == false`: for this
/// Weierstrass curve it always writes the format byte `0x04` followed by
/// the normalized point's 48-byte big-endian x and y coordinates.
#[verifier::external_body]
fn ecp_to_uncompressed_bytes(p: &ECP) -> (r: Vec<u8>)
    ensures
        r@.len() == 97,
        r@[0] == 4u8,
        bytes_be_value(r@.subrange(1, 49)) == ecp_coords(*p).0,
        bytes_be_value(r@.subrange(49, 97)) == ecp_coords(*p).1,
{
    let mut buf: [u8; 97] = [0; 97];
    p.tobytes(&mut buf, false);
    buf.to_vec()
}

/// Relies on amcl's `G1::from_bytes`: it fails only when the buffer length
/// is neither the uncompressed (97) nor the compressed (49) size, so the
/// unwrap cannot panic. 97 bytes are parsed as the uncompressed encoding:
/// when the format byte is `0x04` and both coordinates are below the base
/// field order and on the curve, the result is the point with exactly those
/// coordinates.
#[verifier::external_body]
fn amcl_g1_from_uncompressed_bytes(b: &Vec<u8>) -> (r: G1)
    requires
        b@.len() == 97,
    ensures
        b@[0] == 4u8 && bytes_be_value(b@.subrange(1, 49)) < base_field_order() && bytes_be_value(
            b@.subrange(49, 97),
        ) < base_field_order() && curve_contains(
            bytes_be_value(b@.subrange(1, 49)),
            bytes_be_value(b@.subrange(49, 97)),
        ) ==> amcl_g1_coords(r) == (
        bytes_be_value(b@.subrange(1, 49)),
        bytes_be_value(b@.subrange(49, 97)),
        ),
{
    G1::from_bytes(b.as_slice()).unwrap()
}

/// Relies on amcl's `PartialEq` for `G1`, which compares the two points as
/// group elements; on equal values it returns true.
#[verifier::external_body]
pub(crate) fn amcl_g1_eq(a: &G1, b: &G1) -> (r: bool)
    ensures
        a == b ==> r,
{
    a == b
}

/// Carry a scalar from representation A to representation B: the canonical
/// limbs are packed into the 48-byte big-endian buffer (16 zero bytes of
/// padding, then the limbs most-significant first) and handed to the amcl
/// field-element parser. The packing is verified against
/// `codec::scalar_be_bytes`, and the scalar's numeric value is preserved
/// exactly: the amcl element's value is the canonical value of `fr`.
pub fn pp_fr_to_amcl_fieldelement(fr: &Fr) -> (r: FieldElement)
    ensures
        fe_value(r) == limbs_le_value(fr_limbs(*fr)),
{
    let limbs = fr_scalar_limbs(fr);
    let bytes = scalar_limbs_to_be_bytes(&limbs);
    proof {
        crate::codec::lemma_scalar_bytes_value(limbs@);
    }
    field_element_from_be_bytes(&bytes)
}

/// Pack a base-field coordinate's canonical limbs into the 48-byte
/// big-endian buffer (no padding: six limbs fill it exactly) and hand them
/// to amcl's big-integer parser; the coordinate's numeric value is
/// preserved exactly. The base field has six limbs where the scalar field
/// has four; reusing the scalar packing would corrupt the layout.
fn base_limbs_to_amcl_big(limbs: &Vec<u64>) -> (r: BIG)
    requires
        limbs@.len() == 6,
    ensures
        big_value(r) == limbs_le_value(limbs@),
{
    let bytes = base_limbs_to_be_bytes(limbs);
    proof {
        crate::codec::lemma_base_bytes_value(limbs@);
    }
    big_from_be_bytes(&bytes)
}

/// Carry a point from representation A to amcl's raw curve-point type,
/// going through its affine coordinates as big integers: for a point whose
/// affine coordinates satisfy the curve equation — every group element but
/// the identity — the raw point holds exactly those coordinates.
pub fn pp_g1_to_amcl_ecp(g1: &PpG1) -> (r: ECP)
    ensures
        pp_g1_on_curve(*g1) ==> ecp_coords(r) == (pp_g1_x_value(*g1), pp_g1_y_value(*g1)),
        pp_g1_x_value(*g1) < base_field_order(),
        pp_g1_y_value(*g1) < base_field_order(),
{
    let coords = g1_affine_coord_limbs(g1);
    let bx = base_limbs_to_amcl_big(&coords.0);
    let by = base_limbs_to_amcl_big(&coords.1);
    ecp_from_affine_bigs(&bx, &by)
}

/// Carry a point from representation A to representation B. The raw curve
/// point is serialized to the 97-byte uncompressed encoding and reparsed
/// into amcl's canonical external point type: the constructor from raw
/// coordinates and that type are not the same internal object, and the pass
/// through the wire encoding guarantees the result is well-formed by amcl's
/// own validation. For a point on the curve the result denotes the same
/// affine point: both coordinates survive bit-exactly.
pub fn pp_g1_to_amcl_g1(g1: &PpG1) -> (r: G1)
    ensures
        pp_g1_on_curve(*g1) ==> bridges_point(r, *g1),
{
    let ecp = pp_g1_to_amcl_ecp(g1);
    let bytes = ecp_to_uncompressed_bytes(&ecp);
    amcl_g1_from_uncompressed_bytes(&bytes)
}

} // verus!
