use dkls23_lockness::transcript::Transcript;
use dkls23_lockness::{Point, Scalar};
use generic_ec::curves::Secp256k1;
use sha2::{Digest, Sha256};

#[test]
fn transcript_hashes_framed_data() {
    let mut t = Transcript::new(b"domain");
    t.absorb_bytes(b"label", b"abc");
    let digest = t.finalize();

    let mut h = Sha256::new();
    h.update(b"domain");
    h.update(b"label");
    h.update(3u64.to_be_bytes());
    h.update(b"abc");
    let expected: [u8; 32] = h.finalize().into();
    assert_eq!(digest, expected);
}

#[test]
fn transcript_absorbs_json_of_curve_elements() {
    let mut t = Transcript::new(b"d");
    t.absorb_scalar(b"s", &Scalar::from_u64(5));
    t.absorb_point(b"p", &Point::generator_times(&Scalar::from_u64(1)));
    let digest = t.finalize();

    let s = serde_json::to_vec(&generic_ec::Scalar::<Secp256k1>::from(5u64)).unwrap();
    let p = serde_json::to_vec(&generic_ec::Point::<Secp256k1>::generator().to_point()).unwrap();
    let mut h = Sha256::new();
    h.update(b"d");
    h.update(b"s");
    h.update((s.len() as u64).to_be_bytes());
    h.update(&s);
    h.update(b"p");
    h.update((p.len() as u64).to_be_bytes());
    h.update(&p);
    let expected: [u8; 32] = h.finalize().into();
    assert_eq!(digest, expected);
}

#[test]
fn transcript_depends_on_labels() {
    let mut a = Transcript::new(b"d");
    a.absorb_bytes(b"x", b"1");
    let mut b = Transcript::new(b"d");
    b.absorb_bytes(b"y", b"1");
    assert_ne!(a.finalize(), b.finalize());
}
