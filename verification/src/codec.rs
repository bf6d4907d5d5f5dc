//! Byte-level encodings shared by the two curve libraries.
//!
//! A scalar (an element of the curve's 255-bit group order field) travels as
//! four 64-bit limbs, least-significant limb first. Its wire form is a 48-byte
//! big-endian buffer: 16 zero bytes of padding, then the limbs written
//! most-significant limb first, each limb big-endian. A base-field coordinate
//! (381 bits) travels as six limbs and fills the 48 bytes exactly, with no
//! padding. An uncompressed curve point is one format byte `0x04` followed by
//! the 48-byte x coordinate and the 48-byte y coordinate.
//!
//! Everything here is pure limb and byte arithmetic; the round-trip lemmas at
//! the bottom show the encodings are lossless.

use vstd::arithmetic::mul::lemma_mul_is_associative;
use vstd::arithmetic::power2::{lemma2_to64, lemma_pow2_adds, pow2};
use vstd::prelude::*;

verus! {

/// The numeric value of a limb sequence, least-significant limb first.
pub open spec fn limbs_le_value(limbs: Seq<u64>) -> nat
    decreases limbs.len(),
{
    if limbs.len() == 0 {
        0
    } else {
        (limbs[0] + 0x1_0000_0000_0000_0000 * limbs_le_value(limbs.drop_first())) as nat
    }
}

/// Byte `j` of a limb written big-endian (byte 0 is the most significant).
pub open spec fn limb_be_byte(l: u64, j: int) -> u8 {
    ((l >> ((56 - 8 * j) as u64)) & 0xff) as u8
}

/// The eight bytes of one limb, most significant first.
pub open spec fn limb_be_bytes(l: u64) -> Seq<u8> {
    seq![
        limb_be_byte(l, 0),
        limb_be_byte(l, 1),
        limb_be_byte(l, 2),
        limb_be_byte(l, 3),
        limb_be_byte(l, 4),
        limb_be_byte(l, 5),
        limb_be_byte(l, 6),
        limb_be_byte(l, 7),
    ]
}

/// Sixteen bytes of zero padding.
pub open spec fn zero_padding() -> Seq<u8> {
    Seq::new(16, |k: int| 0u8)
}

/// The 48-byte big-endian buffer of a 4-limb scalar: 16 zero bytes, then the
/// limbs most-significant first.
pub open spec fn scalar_be_bytes(limbs: Seq<u64>) -> Seq<u8> {
    zero_padding() + limb_be_bytes(limbs[3]) + limb_be_bytes(limbs[2]) + limb_be_bytes(limbs[1])
        + limb_be_bytes(limbs[0])
}

/// The 48-byte big-endian buffer of a 6-limb base-field element: the limbs
/// most-significant first, no padding.
pub open spec fn base_be_bytes(limbs: Seq<u64>) -> Seq<u8> {
    limb_be_bytes(limbs[5]) + limb_be_bytes(limbs[4]) + limb_be_bytes(limbs[3]) + limb_be_bytes(
        limbs[2],
    ) + limb_be_bytes(limbs[1]) + limb_be_bytes(limbs[0])
}

/// The 97-byte uncompressed encoding of an affine point: format byte `0x04`,
/// then the x and y coordinates, each a 6-limb base-field element.
pub open spec fn point_be_bytes(x: Seq<u64>, y: Seq<u64>) -> Seq<u8> {
    seq![4u8] + base_be_bytes(x) + base_be_bytes(y)
}

/// One limb read back from eight big-endian bytes starting at `off`.
pub open spec fn limb_from_be(b: Seq<u8>, off: int) -> u64 {
    ((b[off] as u64) << 56u64) | ((b[off + 1] as u64) << 48u64) | ((b[off + 2] as u64) << 40u64)
        | ((b[off + 3] as u64) << 32u64) | ((b[off + 4] as u64) << 24u64) | ((b[off + 5] as u64)
        << 16u64) | ((b[off + 6] as u64) << 8u64) | (b[off + 7] as u64)
}

/// The 4 scalar limbs, least-significant first, read back from a 48-byte
/// scalar buffer.
pub open spec fn scalar_limbs_from_bytes(b: Seq<u8>) -> Seq<u64> {
    Seq::new(4, |i: int| limb_from_be(b, 16 + 8 * (3 - i)))
}

/// The 6 x-coordinate limbs, least-significant first, of a 97-byte
/// uncompressed point.
pub open spec fn point_x_limbs(b: Seq<u8>) -> Seq<u64> {
    Seq::new(6, |i: int| limb_from_be(b, 1 + 8 * (5 - i)))
}

/// The 6 y-coordinate limbs, least-significant first, of a 97-byte
/// uncompressed point.
pub open spec fn point_y_limbs(b: Seq<u8>) -> Seq<u64> {
    Seq::new(6, |i: int| limb_from_be(b, 49 + 8 * (5 - i)))
}

/// Append the eight big-endian bytes of one limb.
fn push_limb_be(r: &mut Vec<u8>, l: u64)
    ensures
        final(r)@ == old(r)@ + limb_be_bytes(l),
{
    r.push(((l >> 56u64) & 0xff) as u8);
    r.push(((l >> 48u64) & 0xff) as u8);
    r.push(((l >> 40u64) & 0xff) as u8);
    r.push(((l >> 32u64) & 0xff) as u8);
    r.push(((l >> 24u64) & 0xff) as u8);
    r.push(((l >> 16u64) & 0xff) as u8);
    r.push(((l >> 8u64) & 0xff) as u8);
    r.push((l & 0xff) as u8);
    proof {
        assert((l >> ((56 - 8 * 7) as u64)) == (l >> 0u64));
        assert((l >> 0u64) & 0xff == l & 0xff) by (bit_vector);
        assert(r@ =~= old(r)@ + limb_be_bytes(l));
    }
}

/// Pack a 4-limb scalar (least-significant limb first) into its 48-byte
/// big-endian wire form: 16 zero bytes, then the limbs most-significant
/// first.
pub fn scalar_limbs_to_be_bytes(limbs: &Vec<u64>) -> (r: Vec<u8>)
    requires
        limbs@.len() == 4,
    ensures
        r@ == scalar_be_bytes(limbs@),
        r@.len() == 48,
{
    let mut r: Vec<u8> = Vec::new();
    let mut k: usize = 0;
    while k < 16
        invariant
            k <= 16,
            r@.len() == k,
            forall|t: int| 0 <= t < k ==> r@[t] == 0u8,
        decreases 16 - k,
    {
        r.push(0u8);
        k += 1;
    }
    proof {
        assert(r@ =~= zero_padding());
    }
    push_limb_be(&mut r, limbs[3]);
    push_limb_be(&mut r, limbs[2]);
    push_limb_be(&mut r, limbs[1]);
    push_limb_be(&mut r, limbs[0]);
    proof {
        assert(r@ =~= scalar_be_bytes(limbs@));
    }
    r
}

/// Pack a 6-limb base-field coordinate (least-significant limb first) into
/// its 48-byte big-endian wire form.
pub fn base_limbs_to_be_bytes(limbs: &Vec<u64>) -> (r: Vec<u8>)
    requires
        limbs@.len() == 6,
    ensures
        r@ == base_be_bytes(limbs@),
        r@.len() == 48,
{
    let mut r: Vec<u8> = Vec::new();
    push_limb_be(&mut r, limbs[5]);
    push_limb_be(&mut r, limbs[4]);
    push_limb_be(&mut r, limbs[3]);
    push_limb_be(&mut r, limbs[2]);
    push_limb_be(&mut r, limbs[1]);
    push_limb_be(&mut r, limbs[0]);
    proof {
        assert(r@ =~= base_be_bytes(limbs@));
    }
    r
}

/// Assemble the 97-byte uncompressed encoding of an affine point from its
/// coordinate limbs.
pub fn frame_uncompressed_point(x: &Vec<u64>, y: &Vec<u64>) -> (r: Vec<u8>)
    requires
        x@.len() == 6,
        y@.len() == 6,
    ensures
        r@ == point_be_bytes(x@, y@),
        r@.len() == 97,
{
    let mut r: Vec<u8> = Vec::new();
    r.push(4u8);
    let xb = base_limbs_to_be_bytes(x);
    let yb = base_limbs_to_be_bytes(y);
    let mut i: usize = 0;
    while i < 48
        invariant
            i <= 48,
            xb@ == base_be_bytes(x@),
            xb@.len() == 48,
            r@ == seq![4u8] + xb@.take(i as int),
        decreases 48 - i,
    {
        r.push(xb[i]);
        proof {
            assert(r@ =~= seq![4u8] + xb@.take(i + 1));
        }
        i += 1;
    }
    let mut j: usize = 0;
    while j < 48
        invariant
            j <= 48,
            xb@ == base_be_bytes(x@),
            yb@ == base_be_bytes(y@),
            xb@.len() == 48,
            yb@.len() == 48,
            r@ == seq![4u8] + xb@ + yb@.take(j as int),
        decreases 48 - j,
    {
        r.push(yb[j]);
        proof {
            assert(r@ =~= seq![4u8] + xb@ + yb@.take(j + 1));
        }
        j += 1;
    }
    proof {
        assert(xb@.take(48) =~= xb@);
        assert(yb@.take(48) =~= yb@);
        assert(r@ =~= point_be_bytes(x@, y@));
    }
    r
}

/// Read one limb from eight big-endian bytes starting at `off`.
fn read_limb_be(b: &Vec<u8>, off: usize) -> (r: u64)
    requires
        off + 8 <= b@.len(),
    ensures
        r == limb_from_be(b@, off as int),
{
    let n = b.len();
    assert(off + 8 <= n);
    ((b[off] as u64) << 56u64) | ((b[off + 1] as u64) << 48u64) | ((b[off + 2] as u64) << 40u64)
        | ((b[off + 3] as u64) << 32u64) | ((b[off + 4] as u64) << 24u64) | ((b[off + 5] as u64)
        << 16u64) | ((b[off + 6] as u64) << 8u64) | (b[off + 7] as u64)
}

/// Unpack a 48-byte scalar buffer back into its 4 limbs, least-significant
/// limb first.
pub fn be_bytes_to_scalar_limbs(b: &Vec<u8>) -> (r: Vec<u64>)
    requires
        b@.len() == 48,
    ensures
        r@ == scalar_limbs_from_bytes(b@),
        r@.len() == 4,
{
    let mut r: Vec<u64> = Vec::new();
    r.push(read_limb_be(b, 40));
    r.push(read_limb_be(b, 32));
    r.push(read_limb_be(b, 24));
    r.push(read_limb_be(b, 16));
    proof {
        assert(r@ =~= scalar_limbs_from_bytes(b@));
    }
    r
}

/// Split a 97-byte uncompressed point encoding back into its coordinate
/// limbs. `None` exactly when the format byte is not `0x04`.
pub fn parse_uncompressed_point(b: &Vec<u8>) -> (r: Option<(Vec<u64>, Vec<u64>)>)
    requires
        b@.len() == 97,
    ensures
        r is Some <==> b@[0] == 4,
        r matches Some(xy) ==> xy.0@ == point_x_limbs(b@) && xy.1@ == point_y_limbs(b@),
{
    if b[0] != 4 {
        return None;
    }
    let mut x: Vec<u64> = Vec::new();
    x.push(read_limb_be(b, 41));
    x.push(read_limb_be(b, 33));
    x.push(read_limb_be(b, 25));
    x.push(read_limb_be(b, 17));
    x.push(read_limb_be(b, 9));
    x.push(read_limb_be(b, 1));
    let mut y: Vec<u64> = Vec::new();
    y.push(read_limb_be(b, 89));
    y.push(read_limb_be(b, 81));
    y.push(read_limb_be(b, 73));
    y.push(read_limb_be(b, 65));
    y.push(read_limb_be(b, 57));
    y.push(read_limb_be(b, 49));
    proof {
        assert(x@ =~= point_x_limbs(b@));
        assert(y@ =~= point_y_limbs(b@));
    }
    Some((x, y))
}

/// The eight big-endian bytes of a limb reassemble to the limb itself.
proof fn lemma_limb_be_round_trip(l: u64)
    ensures
        limb_from_be(limb_be_bytes(l), 0) == l,
{
    assert(((((l >> 56u64) & 0xff) as u8 as u64) << 56u64) | ((((l >> 48u64) & 0xff) as u8 as u64)
        << 48u64) | ((((l >> 40u64) & 0xff) as u8 as u64) << 40u64) | ((((l >> 32u64)
        & 0xff) as u8 as u64) << 32u64) | ((((l >> 24u64) & 0xff) as u8 as u64) << 24u64) | ((((l
        >> 16u64) & 0xff) as u8 as u64) << 16u64) | ((((l >> 8u64) & 0xff) as u8 as u64) << 8u64)
        | (((l >> 0u64) & 0xff) as u8 as u64) == l) by (bit_vector);
    assert((l >> ((56 - 8 * 7) as u64)) == (l >> 0u64));
}

/// Reading eight bytes that equal a limb's big-endian bytes gives the limb
/// back, wherever in a buffer they stand.
proof fn lemma_limb_from_be_at(b: Seq<u8>, off: int, l: u64)
    requires
        0 <= off,
        off + 8 <= b.len(),
        forall|j: int| 0 <= j < 8 ==> b[off + j] == limb_be_bytes(l)[j],
    ensures
        limb_from_be(b, off) == l,
{
    lemma_limb_be_round_trip(l);
    assert(b[off + 0] == limb_be_bytes(l)[0]);
    assert(b[off + 1] == limb_be_bytes(l)[1]);
    assert(b[off + 2] == limb_be_bytes(l)[2]);
    assert(b[off + 3] == limb_be_bytes(l)[3]);
    assert(b[off + 4] == limb_be_bytes(l)[4]);
    assert(b[off + 5] == limb_be_bytes(l)[5]);
    assert(b[off + 6] == limb_be_bytes(l)[6]);
    assert(b[off + 7] == limb_be_bytes(l)[7]);
}

/// The numeric value of a big-endian byte buffer.
pub open spec fn bytes_be_value(b: Seq<u8>) -> nat
    decreases b.len(),
{
    if b.len() == 0 {
        0
    } else {
        (bytes_be_value(b.drop_last()) * 256 + b.last()) as nat
    }
}

/// Concatenation shifts the left buffer's value past the right one.
#[verifier::rlimit(100)]
#[verifier::spinoff_prover]
proof fn lemma_bytes_be_value_concat(a: Seq<u8>, b: Seq<u8>)
    ensures
        bytes_be_value(a + b) == bytes_be_value(a) * pow2((8 * b.len()) as nat) + bytes_be_value(
            b,
        ),
    decreases b.len(),
{
    if b.len() == 0 {
        assert(a + b =~= a);
        lemma2_to64();
        assert(bytes_be_value(b) == 0);
        assert(pow2((8 * b.len()) as nat) == 1);
    } else {
        let b1 = b.drop_last();
        let p1 = pow2((8 * b1.len()) as nat);
        lemma_bytes_be_value_concat(a, b1);
        assert((a + b).drop_last() =~= a + b1);
        assert(bytes_be_value(a + b) == bytes_be_value(a + b1) * 256 + b.last());
        lemma_pow2_adds((8 * b1.len()) as nat, 8);
        lemma2_to64();
        assert(pow2((8 * b.len()) as nat) == p1 * 256);
        assert((bytes_be_value(a) * p1 + bytes_be_value(b1)) * 256 == bytes_be_value(a) * p1 * 256
            + bytes_be_value(b1) * 256) by (nonlinear_arith);
        lemma_mul_is_associative(bytes_be_value(a) as int, p1 as int, 256);
        assert(bytes_be_value(b) == bytes_be_value(b1) * 256 + b.last());
        assert(bytes_be_value(a + b1) * 256 == (bytes_be_value(a) * p1 + bytes_be_value(b1))
            * 256);
        assert(bytes_be_value(a + b) == bytes_be_value(a) * (p1 * 256) + bytes_be_value(b));
    }
}

/// A buffer of zero bytes has value zero.
proof fn lemma_zero_bytes_value(b: Seq<u8>)
    requires
        forall|t: int| 0 <= t < b.len() ==> b[t] == 0u8,
    ensures
        bytes_be_value(b) == 0,
    decreases b.len(),
{
    if b.len() > 0 {
        lemma_zero_bytes_value(b.drop_last());
    }
}

/// The eight big-endian bytes of a limb have the limb's value.
#[verifier::rlimit(100)]
#[verifier::spinoff_prover]
proof fn lemma_limb_be_bytes_value(l: u64)
    ensures
        bytes_be_value(limb_be_bytes(l)) == l,
{
    let s = limb_be_bytes(l);
    let b0 = limb_be_byte(l, 0);
    let b1 = limb_be_byte(l, 1);
    let b2 = limb_be_byte(l, 2);
    let b3 = limb_be_byte(l, 3);
    let b4 = limb_be_byte(l, 4);
    let b5 = limb_be_byte(l, 5);
    let b6 = limb_be_byte(l, 6);
    let b7 = limb_be_byte(l, 7);
    assert(seq![b0].drop_last() =~= Seq::<u8>::empty());
    assert(bytes_be_value(Seq::<u8>::empty()) == 0);
    assert(bytes_be_value(seq![b0]) == b0);
    assert(seq![b0, b1].drop_last() =~= seq![b0]);
    assert(bytes_be_value(seq![b0, b1]) == bytes_be_value(seq![b0]) * 256 + b1);
    assert(seq![b0, b1, b2].drop_last() =~= seq![b0, b1]);
    assert(bytes_be_value(seq![b0, b1, b2]) == bytes_be_value(seq![b0, b1]) * 256 + b2);
    assert(seq![b0, b1, b2, b3].drop_last() =~= seq![b0, b1, b2]);
    assert(bytes_be_value(seq![b0, b1, b2, b3]) == bytes_be_value(seq![b0, b1, b2]) * 256 + b3);
    assert(seq![b0, b1, b2, b3, b4].drop_last() =~= seq![b0, b1, b2, b3]);
    assert(bytes_be_value(seq![b0, b1, b2, b3, b4]) == bytes_be_value(seq![b0, b1, b2, b3]) * 256
        + b4);
    assert(seq![b0, b1, b2, b3, b4, b5].drop_last() =~= seq![b0, b1, b2, b3, b4]);
    assert(bytes_be_value(seq![b0, b1, b2, b3, b4, b5]) == bytes_be_value(seq![b0, b1, b2, b3, b4])
        * 256 + b5);
    assert(seq![b0, b1, b2, b3, b4, b5, b6].drop_last() =~= seq![b0, b1, b2, b3, b4, b5]);
    assert(bytes_be_value(seq![b0, b1, b2, b3, b4, b5, b6]) == bytes_be_value(
        seq![b0, b1, b2, b3, b4, b5],
    ) * 256 + b6);
    assert(s.drop_last() =~= seq![b0, b1, b2, b3, b4, b5, b6]);
    assert(bytes_be_value(s) == bytes_be_value(seq![b0, b1, b2, b3, b4, b5, b6]) * 256 + b7);
    assert((l >> ((56 - 8 * 7) as u64)) == (l >> 0u64));
    assert(((l >> 56u64) & 0xff) < 256 && ((l >> 48u64) & 0xff) < 256 && ((l >> 40u64) & 0xff)
        < 256 && ((l >> 32u64) & 0xff) < 256 && ((l >> 24u64) & 0xff) < 256 && ((l >> 16u64)
        & 0xff) < 256 && ((l >> 8u64) & 0xff) < 256 && ((l >> 0u64) & 0xff) < 256) by (bit_vector);
    assert(l == ((l >> 56u64) & 0xff) * 0x100000000000000 + ((l >> 48u64) & 0xff)
        * 0x1000000000000 + ((l >> 40u64) & 0xff) * 0x10000000000 + ((l >> 32u64) & 0xff)
        * 0x100000000 + ((l >> 24u64) & 0xff) * 0x1000000 + ((l >> 16u64) & 0xff) * 0x10000 + ((l
        >> 8u64) & 0xff) * 0x100 + ((l >> 0u64) & 0xff)) by (bit_vector);
}

/// `limbs_le_value` of a 4-limb sequence, written out limb by limb.
pub(crate) proof fn lemma_limbs_le_value_4(limbs: Seq<u64>)
    requires
        limbs.len() == 4,
    ensures
        limbs_le_value(limbs) == limbs[0] + 0x1_0000_0000_0000_0000 * (limbs[1]
            + 0x1_0000_0000_0000_0000 * (limbs[2] + 0x1_0000_0000_0000_0000 * limbs[3])),
{
    let s1 = limbs.drop_first();
    let s2 = s1.drop_first();
    let s3 = s2.drop_first();
    assert(limbs_le_value(s3.drop_first()) == 0);
    assert(limbs_le_value(s3) == s3[0] + 0x1_0000_0000_0000_0000 * limbs_le_value(s3.drop_first()));
    assert(limbs_le_value(s2) == s2[0] + 0x1_0000_0000_0000_0000 * limbs_le_value(s3));
    assert(limbs_le_value(s1) == s1[0] + 0x1_0000_0000_0000_0000 * limbs_le_value(s2));
}

/// `limbs_le_value` of a 6-limb sequence, written out limb by limb.
proof fn lemma_limbs_le_value_6(limbs: Seq<u64>)
    requires
        limbs.len() == 6,
    ensures
        limbs_le_value(limbs) == limbs[0] + 0x1_0000_0000_0000_0000 * (limbs[1]
            + 0x1_0000_0000_0000_0000 * (limbs[2] + 0x1_0000_0000_0000_0000 * (limbs[3]
            + 0x1_0000_0000_0000_0000 * (limbs[4] + 0x1_0000_0000_0000_0000 * limbs[5])))),
{
    lemma_limbs_le_value_4(limbs.drop_first().drop_first());
    let s1 = limbs.drop_first();
    assert(limbs_le_value(s1) == s1[0] + 0x1_0000_0000_0000_0000 * limbs_le_value(s1.drop_first()));
}

/// The nested little-endian limb value and the big-endian Horner form are
/// the same polynomial, for four limbs.
proof fn lemma_horner_4(l0: u64, l1: u64, l2: u64, l3: u64)
    by (nonlinear_arith)
    ensures
        l0 + 0x1_0000_0000_0000_0000 * (l1 + 0x1_0000_0000_0000_0000 * (l2
            + 0x1_0000_0000_0000_0000 * l3)) == ((l3 * 0x1_0000_0000_0000_0000 + l2)
            * 0x1_0000_0000_0000_0000 + l1) * 0x1_0000_0000_0000_0000 + l0,
{
}

/// The numeric value is preserved exactly by the scalar wire encoding: the
/// 48-byte buffer, read as one big-endian integer, is the 4-limb value.
#[verifier::rlimit(100)]
#[verifier::spinoff_prover]
pub proof fn lemma_scalar_bytes_value(limbs: Seq<u64>)
    requires
        limbs.len() == 4,
    ensures
        bytes_be_value(scalar_be_bytes(limbs)) == limbs_le_value(limbs),
{
    let z = zero_padding();
    let p3 = z + limb_be_bytes(limbs[3]);
    let p2 = p3 + limb_be_bytes(limbs[2]);
    let p1 = p2 + limb_be_bytes(limbs[1]);
    lemma_zero_bytes_value(z);
    lemma_bytes_be_value_concat(z, limb_be_bytes(limbs[3]));
    lemma_bytes_be_value_concat(p3, limb_be_bytes(limbs[2]));
    lemma_bytes_be_value_concat(p2, limb_be_bytes(limbs[1]));
    lemma_bytes_be_value_concat(p1, limb_be_bytes(limbs[0]));
    lemma_limb_be_bytes_value(limbs[0]);
    lemma_limb_be_bytes_value(limbs[1]);
    lemma_limb_be_bytes_value(limbs[2]);
    lemma_limb_be_bytes_value(limbs[3]);
    lemma2_to64();
    lemma_limbs_le_value_4(limbs);
    lemma_horner_4(limbs[0], limbs[1], limbs[2], limbs[3]);
    assert(bytes_be_value(p3) == limbs[3]);
    assert(bytes_be_value(p2) == limbs[3] * 0x1_0000_0000_0000_0000 + limbs[2]);
    assert(bytes_be_value(p1) == (limbs[3] * 0x1_0000_0000_0000_0000 + limbs[2])
        * 0x1_0000_0000_0000_0000 + limbs[1]);
    assert(bytes_be_value(scalar_be_bytes(limbs)) == ((limbs[3] * 0x1_0000_0000_0000_0000
        + limbs[2]) * 0x1_0000_0000_0000_0000 + limbs[1]) * 0x1_0000_0000_0000_0000 + limbs[0]);
}

/// The nested little-endian limb value and the big-endian Horner form are
/// the same polynomial.
proof fn lemma_horner_6(l0: u64, l1: u64, l2: u64, l3: u64, l4: u64, l5: u64)
    by (nonlinear_arith)
    ensures
        l0 + 0x1_0000_0000_0000_0000 * (l1 + 0x1_0000_0000_0000_0000 * (l2
            + 0x1_0000_0000_0000_0000 * (l3 + 0x1_0000_0000_0000_0000 * (l4
            + 0x1_0000_0000_0000_0000 * l5)))) == ((((l5 * 0x1_0000_0000_0000_0000 + l4)
            * 0x1_0000_0000_0000_0000 + l3) * 0x1_0000_0000_0000_0000 + l2)
            * 0x1_0000_0000_0000_0000 + l1) * 0x1_0000_0000_0000_0000 + l0,
{
}

/// The numeric value is preserved exactly by the base-field wire encoding:
/// the 48-byte buffer, read as one big-endian integer, is the 6-limb value.
#[verifier::rlimit(100)]
#[verifier::spinoff_prover]
pub proof fn lemma_base_bytes_value(limbs: Seq<u64>)
    requires
        limbs.len() == 6,
    ensures
        bytes_be_value(base_be_bytes(limbs)) == limbs_le_value(limbs),
{
    let p5 = limb_be_bytes(limbs[5]);
    let p4 = p5 + limb_be_bytes(limbs[4]);
    let p3 = p4 + limb_be_bytes(limbs[3]);
    let p2 = p3 + limb_be_bytes(limbs[2]);
    let p1 = p2 + limb_be_bytes(limbs[1]);
    lemma_bytes_be_value_concat(p5, limb_be_bytes(limbs[4]));
    lemma_bytes_be_value_concat(p4, limb_be_bytes(limbs[3]));
    lemma_bytes_be_value_concat(p3, limb_be_bytes(limbs[2]));
    lemma_bytes_be_value_concat(p2, limb_be_bytes(limbs[1]));
    lemma_bytes_be_value_concat(p1, limb_be_bytes(limbs[0]));
    lemma_limb_be_bytes_value(limbs[0]);
    lemma_limb_be_bytes_value(limbs[1]);
    lemma_limb_be_bytes_value(limbs[2]);
    lemma_limb_be_bytes_value(limbs[3]);
    lemma_limb_be_bytes_value(limbs[4]);
    lemma_limb_be_bytes_value(limbs[5]);
    lemma2_to64();
    lemma_limbs_le_value_6(limbs);
    lemma_horner_6(limbs[0], limbs[1], limbs[2], limbs[3], limbs[4], limbs[5]);
    assert(bytes_be_value(p5) == limbs[5]);
    assert(bytes_be_value(p4) == limbs[5] * 0x1_0000_0000_0000_0000 + limbs[4]);
    assert(bytes_be_value(p3) == (limbs[5] * 0x1_0000_0000_0000_0000 + limbs[4])
        * 0x1_0000_0000_0000_0000 + limbs[3]);
    assert(bytes_be_value(p2) == ((limbs[5] * 0x1_0000_0000_0000_0000 + limbs[4])
        * 0x1_0000_0000_0000_0000 + limbs[3]) * 0x1_0000_0000_0000_0000 + limbs[2]);
    assert(bytes_be_value(p1) == (((limbs[5] * 0x1_0000_0000_0000_0000 + limbs[4])
        * 0x1_0000_0000_0000_0000 + limbs[3]) * 0x1_0000_0000_0000_0000 + limbs[2])
        * 0x1_0000_0000_0000_0000 + limbs[1]);
    assert(bytes_be_value(base_be_bytes(limbs)) == ((((limbs[5] * 0x1_0000_0000_0000_0000
        + limbs[4]) * 0x1_0000_0000_0000_0000 + limbs[3]) * 0x1_0000_0000_0000_0000 + limbs[2])
        * 0x1_0000_0000_0000_0000 + limbs[1]) * 0x1_0000_0000_0000_0000 + limbs[0]);
}

/// Packing a scalar's four limbs into the 48-byte buffer and reading them
/// back is the identity: the scalar wire encoding is lossless.
#[verifier::rlimit(100)]
#[verifier::spinoff_prover]
pub proof fn lemma_scalar_encoding_round_trip(limbs: Seq<u64>)
    requires
        limbs.len() == 4,
    ensures
        scalar_limbs_from_bytes(scalar_be_bytes(limbs)) == limbs,
{
    let b = scalar_be_bytes(limbs);
    assert forall|j: int| 0 <= j < 8 implies b[40 + j] == limb_be_bytes(limbs[0])[j] by {}
    assert forall|j: int| 0 <= j < 8 implies b[32 + j] == limb_be_bytes(limbs[1])[j] by {}
    assert forall|j: int| 0 <= j < 8 implies b[24 + j] == limb_be_bytes(limbs[2])[j] by {}
    assert forall|j: int| 0 <= j < 8 implies b[16 + j] == limb_be_bytes(limbs[3])[j] by {}
    lemma_limb_from_be_at(b, 40, limbs[0]);
    lemma_limb_from_be_at(b, 32, limbs[1]);
    lemma_limb_from_be_at(b, 24, limbs[2]);
    lemma_limb_from_be_at(b, 16, limbs[3]);
    assert(scalar_limbs_from_bytes(b) =~= limbs);
}

/// Packing a base-field coordinate's six limbs and reading them back from
/// the x-coordinate slot of a point encoding is the identity.
proof fn lemma_base_encoding_round_trip_at(b: Seq<u8>, off: int, limbs: Seq<u64>)
    requires
        limbs.len() == 6,
        0 <= off,
        off + 48 <= b.len(),
        forall|t: int| 0 <= t < 48 ==> b[off + t] == base_be_bytes(limbs)[t],
    ensures
        forall|i: int|
            0 <= i < 6 ==> limb_from_be(b, off + 8 * (5 - i)) == limbs[i],
{
    assert forall|i: int| 0 <= i < 6 implies limb_from_be(b, off + 8 * (5 - i)) == limbs[i] by {
        let o = off + 8 * (5 - i);
        assert forall|j: int| 0 <= j < 8 implies b[o + j] == limb_be_bytes(limbs[i])[j] by {
            assert(b[o + j] == base_be_bytes(limbs)[8 * (5 - i) + j]);
        }
        lemma_limb_from_be_at(b, o, limbs[i]);
    }
}

/// Framing an affine point's coordinates into the 97-byte uncompressed
/// encoding and parsing them back is the identity: the point wire encoding
/// is lossless.
#[verifier::rlimit(100)]
#[verifier::spinoff_prover]
pub proof fn lemma_point_encoding_round_trip(x: Seq<u64>, y: Seq<u64>)
    requires
        x.len() == 6,
        y.len() == 6,
    ensures
        point_be_bytes(x, y)[0] == 4,
        point_x_limbs(point_be_bytes(x, y)) == x,
        point_y_limbs(point_be_bytes(x, y)) == y,
{
    let b = point_be_bytes(x, y);
    assert forall|t: int| 0 <= t < 48 implies b[1 + t] == base_be_bytes(x)[t] by {}
    assert forall|t: int| 0 <= t < 48 implies b[49 + t] == base_be_bytes(y)[t] by {}
    lemma_base_encoding_round_trip_at(b, 1, x);
    lemma_base_encoding_round_trip_at(b, 49, y);
    assert(point_x_limbs(b) =~= x);
    assert(point_y_limbs(b) =~= y);
}

} // verus!
