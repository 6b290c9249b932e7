use dkls23_lockness::keygen::commitment_for;
use dkls23_lockness::{Point, Scalar};
use generic_ec::curves::Secp256k1;
use sha2::{Digest, Sha256};

const ORDER_BE: [u8; 32] = [
    0xFF, 0xFF, 0xFF, 0xFF, 0xFF, 0xFF, 0xFF, 0xFF, 0xFF, 0xFF, 0xFF, 0xFF, 0xFF, 0xFF, 0xFF, 0xFE,
    0xBA, 0xAE, 0xDC, 0xE6, 0xAF, 0x48, 0xA0, 0x3B, 0xBF, 0xD2, 0x5E, 0x8C, 0xD0, 0x36, 0x41, 0x41,
];

fn order_minus(k: u8) -> Scalar {
    let mut bytes = ORDER_BE;
    bytes[31] -= k;
    Scalar::from_be_bytes(&bytes).unwrap()
}

#[test]
fn scalar_encoding_and_zero() {
    assert!(Scalar::zero().is_zero());
    assert!(!Scalar::from_u64(1).is_zero());
    let mut expected = [0u8; 32];
    expected[24..].copy_from_slice(&0x0102030405060708u64.to_be_bytes());
    assert_eq!(Scalar::from_u64(0x0102030405060708).to_be_bytes(), expected);
    assert!(Scalar::from_be_bytes(&ORDER_BE).is_none());
    assert!(Scalar::from_be_bytes(&[0xFF; 32]).is_none());
    assert!(Scalar::from_be_bytes(&expected).unwrap() == Scalar::from_u64(0x0102030405060708));
}

#[test]
fn scalar_arithmetic_is_modular() {
    assert_eq!(Scalar::from_u64(2).plus(&Scalar::from_u64(3)), Scalar::from_u64(5));
    assert_eq!(Scalar::from_u64(6).times(&Scalar::from_u64(7)), Scalar::from_u64(42));
    // (q - 1) + 2 = 1, (q - 1) * (q - 1) = 1
    assert_eq!(order_minus(1).plus(&Scalar::from_u64(2)), Scalar::from_u64(1));
    assert_eq!(order_minus(1).times(&order_minus(1)), Scalar::from_u64(1));
}

#[test]
fn scalar_inverse() {
    assert!(Scalar::zero().invert().is_none());
    let three = Scalar::from_u64(3);
    let inv = three.invert().unwrap();
    assert_eq!(three.times(&inv), Scalar::from_u64(1));
    assert_eq!(order_minus(1).invert().unwrap(), order_minus(1));
}

#[test]
fn point_group_laws() {
    let zero = Point::zero();
    assert!(zero.is_zero());
    assert!(Point::generator_times(&Scalar::zero()) == zero);
    let g2 = Point::generator_times(&Scalar::from_u64(2));
    let g3 = Point::generator_times(&Scalar::from_u64(3));
    let g5 = Point::generator_times(&Scalar::from_u64(5));
    assert!(!g2.is_zero());
    assert!(g2.plus(&g3) == g5);
    assert!(zero.plus(&g3) == g3);
    assert!(g3.plus(&zero) == g3);
    assert!(g2.times(&Scalar::from_u64(3)) == Point::generator_times(&Scalar::from_u64(6)));
    assert!(g2 != g3);
    // G * (q - 1) + G = O
    assert!(Point::generator_times(&order_minus(1))
        .plus(&Point::generator_times(&Scalar::from_u64(1)))
        .is_zero());
}

#[test]
fn point_encoding_round_trip() {
    let g = Point::generator_times(&Scalar::from_u64(1));
    let bytes = g.to_uncompressed_bytes();
    assert_eq!(bytes[0], 0x04);
    let expected = generic_ec::Point::<Secp256k1>::generator().to_point().to_bytes(false);
    assert_eq!(&bytes[..], expected.as_bytes());
    assert!(Point::from_uncompressed_bytes(&bytes).unwrap() == g);
    let mut bad = bytes;
    bad[64] ^= 1;
    assert!(Point::from_uncompressed_bytes(&bad).is_none());
    assert!(Point::from_uncompressed_bytes(&[0u8; 65]).unwrap().is_zero());
}

#[test]
fn commitment_is_sha256_of_json_and_salt() {
    let share = Scalar::from_u64(77);
    let salt = [9u8; 32];
    let raw = generic_ec::Scalar::<Secp256k1>::from(77u64);
    let mut hasher = Sha256::new();
    hasher.update(serde_json::to_vec(&raw).unwrap());
    hasher.update(salt);
    let expected: [u8; 32] = hasher.finalize().into();
    assert_eq!(commitment_for(&share, &salt), expected);
    assert_ne!(commitment_for(&share, &salt), commitment_for(&Scalar::from_u64(78), &salt));
}
