use rangeproof_bridge::codec::{
    base_limbs_to_be_bytes, be_bytes_to_scalar_limbs, frame_uncompressed_point,
    parse_uncompressed_point, scalar_limbs_to_be_bytes,
};

#[test]
fn scalar_packing_layout() {
    // Limbs least-significant first: value 1 + 2*2^64 + 3*2^128 + 4*2^192.
    let limbs: Vec<u64> = vec![1, 2, 3, 4];
    let bytes = scalar_limbs_to_be_bytes(&limbs);
    assert_eq!(bytes.len(), 48);
    // 16 bytes of zero padding.
    for i in 0..16 {
        assert_eq!(bytes[i], 0, "padding byte {}", i);
    }
    // Most significant limb (4) first, each limb big-endian.
    let mut expected = vec![0u8; 16];
    for limb in [4u64, 3, 2, 1] {
        expected.extend_from_slice(&limb.to_be_bytes());
    }
    assert_eq!(bytes, expected);
}

#[test]
fn scalar_packing_exact_vector() {
    let limbs: Vec<u64> = vec![0x0123_4567_89ab_cdef, 0, 0, 0xfedc_ba98_7654_3210];
    let bytes = scalar_limbs_to_be_bytes(&limbs);
    assert_eq!(&bytes[16..24], &[0xfe, 0xdc, 0xba, 0x98, 0x76, 0x54, 0x32, 0x10]);
    assert_eq!(&bytes[24..40], &[0u8; 16][..]);
    assert_eq!(&bytes[40..48], &[0x01, 0x23, 0x45, 0x67, 0x89, 0xab, 0xcd, 0xef]);
}

#[test]
fn scalar_encoding_round_trips() {
    let cases: Vec<Vec<u64>> = vec![
        vec![0, 0, 0, 0],
        vec![1, 2, 3, 4],
        vec![u64::MAX, u64::MAX, u64::MAX, u64::MAX],
        vec![0xdead_beef, 0x1234, 0, 0xffff_ffff_0000_0001],
    ];
    for limbs in cases {
        let bytes = scalar_limbs_to_be_bytes(&limbs);
        let back = be_bytes_to_scalar_limbs(&bytes);
        assert_eq!(back, limbs);
    }
}

#[test]
fn base_packing_layout() {
    let limbs: Vec<u64> = vec![1, 2, 3, 4, 5, 6];
    let bytes = base_limbs_to_be_bytes(&limbs);
    assert_eq!(bytes.len(), 48);
    let mut expected = Vec::new();
    for limb in [6u64, 5, 4, 3, 2, 1] {
        expected.extend_from_slice(&limb.to_be_bytes());
    }
    assert_eq!(bytes, expected);
}

#[test]
fn point_framing_layout() {
    let x: Vec<u64> = vec![1, 2, 3, 4, 5, 6];
    let y: Vec<u64> = vec![7, 8, 9, 10, 11, 12];
    let framed = frame_uncompressed_point(&x, &y);
    assert_eq!(framed.len(), 97);
    assert_eq!(framed[0], 4);
    assert_eq!(&framed[1..49], &base_limbs_to_be_bytes(&x)[..]);
    assert_eq!(&framed[49..97], &base_limbs_to_be_bytes(&y)[..]);
}

#[test]
fn point_encoding_round_trips() {
    let x: Vec<u64> = vec![0xaaaa, 0xbbbb, 0xcccc, 0xdddd, 0xeeee, 0xffff];
    let y: Vec<u64> = vec![u64::MAX, 0, 1, 0, u64::MAX, 42];
    let framed = frame_uncompressed_point(&x, &y);
    let parsed = parse_uncompressed_point(&framed);
    let (px, py) = parsed.expect("a framed point must parse");
    assert_eq!(px, x);
    assert_eq!(py, y);
}

#[test]
fn point_parsing_rejects_wrong_format_byte() {
    let x: Vec<u64> = vec![1, 2, 3, 4, 5, 6];
    let y: Vec<u64> = vec![7, 8, 9, 10, 11, 12];
    let mut framed = frame_uncompressed_point(&x, &y);
    framed[0] = 2;
    assert!(parse_uncompressed_point(&framed).is_none());
}
