use dkls23_lockness::keygen;
use dkls23_lockness::presign::{
    self, nonce_commitment_for, DirectMta, MockMta, MultiplicationToAddition, Presignature,
};
use dkls23_lockness::signing::{sign, sign_with_presignature, verify, Signature};
use dkls23_lockness::{
    Error, KeyShare, KeygenCommitment, KeygenOpen, PartyIndex, Point, PresignMessage, PresignOpen,
    Scalar,
};
use generic_ec::curves::Secp256k1;
use generic_ec::SecretScalar;
use rand::{rngs::StdRng, SeedableRng};

fn to_scalar(s: &SecretScalar<Secp256k1>) -> Scalar {
    let bytes: [u8; 32] = s.as_ref().to_be_bytes().as_bytes().try_into().unwrap();
    Scalar::from_be_bytes(&bytes).unwrap()
}

fn sample_keygen_secret(seed: u64) -> Scalar {
    let mut rng = StdRng::seed_from_u64(seed);
    to_scalar(&SecretScalar::<Secp256k1>::random(&mut rng))
}

fn sample_nonzero_secret(rng: &mut StdRng) -> Scalar {
    loop {
        let candidate = SecretScalar::<Secp256k1>::random(rng);
        if !candidate.as_ref().is_zero() {
            return to_scalar(&candidate);
        }
    }
}

fn run_keygen_rounds(n: u16, threshold: u16) -> Vec<KeyShare> {
    let started: Vec<_> = (0..n)
        .map(|i| keygen::start(i, n, threshold, i as u64).unwrap())
        .collect();
    let commitments: Vec<(PartyIndex, KeygenCommitment)> =
        started.iter().map(|(s, c)| (s.party_index, *c)).collect();
    let openings: Vec<(PartyIndex, KeygenOpen)> =
        started.iter().map(|(s, _)| (s.party_index, s.opening())).collect();
    started
        .into_iter()
        .map(|(state, _)| {
            let i = state.party_index;
            let c: Vec<_> = commitments.iter().copied().filter(|(j, _)| *j != i).collect();
            let o: Vec<_> = openings.iter().copied().filter(|(j, _)| *j != i).collect();
            keygen::finish(state, &c, &o).unwrap()
        })
        .collect()
}

fn simulate_presign<T: MultiplicationToAddition + Clone>(
    key_shares: &[KeyShare],
    n: u16,
    threshold: u16,
    mta: T,
) -> Vec<Result<Presignature, Error>>
where
    T::Error: core::fmt::Debug,
{
    let started: Vec<_> = (0..n)
        .map(|i| presign::start(i, n, threshold, 100 + u64::from(i)).unwrap())
        .collect();
    let commitments: Vec<(PartyIndex, PresignMessage)> =
        started.iter().map(|(s, c)| (s.party_index, *c)).collect();
    let openings: Vec<(PartyIndex, PresignOpen)> =
        started.iter().map(|(s, _)| (s.party_index, s.opening())).collect();
    started
        .into_iter()
        .map(|(state, _)| {
            let i = state.party_index;
            let c: Vec<_> = commitments.iter().copied().filter(|(j, _)| *j != i).collect();
            let o: Vec<_> = openings.iter().copied().filter(|(j, _)| *j != i).collect();
            presign::finish(state, &key_shares[usize::from(i)], mta.clone(), &c, &o)
        })
        .collect()
}

#[test]
fn nonce_commitment_detects_tampering() {
    let mut rng = StdRng::seed_from_u64(7);
    let nonce = sample_nonzero_secret(&mut rng);
    let salt = [42u8; 32];

    let commitment = nonce_commitment_for(&nonce, &salt);
    let tampered_commitment = nonce_commitment_for(&nonce, &[7u8; 32]);

    assert_ne!(commitment, tampered_commitment);
}

#[test]
fn direct_mta_multiplies_inputs() {
    let mut mta = DirectMta;
    let lhs = Scalar::from_u64(3);
    let rhs = Scalar::from_u64(7);

    let share = mta
        .multiply_to_additive_share(lhs, rhs)
        .expect("direct MtA should not fail");

    assert_eq!(share, Scalar::from_u64(21));
}

#[test]
fn signing_round_trip_verifies() {
    let mut rng = StdRng::seed_from_u64(99);
    let secret_key = sample_nonzero_secret(&mut rng);
    let nonce = sample_nonzero_secret(&mut rng);
    let message_hash = [11u8; 32];

    let signature = sign(&secret_key, &nonce, &message_hash)
        .expect("signature generation should succeed");

    let public_key = Point::generator_times(&secret_key);
    let valid = verify(&public_key, &message_hash, &signature)
        .expect("verification should succeed");

    assert!(valid);
}

#[test]
fn presign_to_sign_round_trip_verifies() {
    let n = 3usize;
    let threshold = 2u16;

    let keygen_output = run_keygen_rounds(n as u16, threshold).remove(0);

    let key_shares: Vec<KeyShare> = (0..n)
        .map(|index| {
            KeyShare::new(
                keygen_output.public_key,
                keygen_output.public_shares.clone(),
                keygen_output.participants.clone(),
                threshold,
                index as u16,
                sample_keygen_secret(index as u64),
            )
        })
        .collect();

    let presignatures: Vec<Presignature> = simulate_presign(&key_shares, n as u16, threshold, DirectMta)
        .into_iter()
        .map(|p| p.expect("presign simulation should run"))
        .collect();
    assert!(presignatures.iter().all(|p| *p == presignatures[0]));
    let presignature = &presignatures[0];

    let aggregate_secret = key_shares.iter().fold(Scalar::zero(), |acc, key_share| {
        acc.plus(key_share.local_secret_share())
    });

    let local_key_share = &key_shares[usize::from(presignature.party_index)];
    let expected_product = local_key_share
        .local_secret_share()
        .times(presignature.local_nonce_share());
    assert_eq!(presignature.nonce_secret_product_share, expected_product);

    let message_hash = [55u8; 32];
    let signature = sign_with_presignature(&aggregate_secret, presignature, &message_hash)
        .expect("presignature-based signing should succeed");

    let valid = verify(&key_shares[0].public_key, &message_hash, &signature)
        .expect("verification should succeed");

    assert!(valid);
}

#[test]
fn signing_rejects_zero_key_and_nonce() {
    let one = Scalar::from_u64(1);
    assert!(matches!(sign(&Scalar::zero(), &one, &[1u8; 32]), Err(Error::ZeroNonce)));
    assert!(matches!(sign(&one, &Scalar::zero(), &[1u8; 32]), Err(Error::ZeroNonce)));
}

#[test]
fn verification_rejects_other_message_and_zero_components() {
    let x = Scalar::from_u64(1234567);
    let k = Scalar::from_u64(7654321);
    let h = [3u8; 32];
    let sig = sign(&x, &k, &h).unwrap();
    let pk = Point::generator_times(&x);
    assert_eq!(verify(&pk, &h, &sig).unwrap(), true);
    assert_eq!(verify(&pk, &[4u8; 32], &sig).unwrap(), false);
    assert_eq!(verify(&Point::generator_times(&k), &h, &sig).unwrap(), false);
    let zero_r = Signature::new(Scalar::zero(), sig.s);
    assert_eq!(verify(&pk, &h, &zero_r).unwrap(), false);
    let zero_s = Signature::new(sig.r, Scalar::zero());
    assert_eq!(verify(&pk, &h, &zero_s).unwrap(), false);
}

#[test]
fn signature_satisfies_ecdsa_equation() {
    // k * s == h + r * x (mod q)
    let x = Scalar::from_u64(5);
    let k = Scalar::from_u64(9);
    let mut h = [0u8; 32];
    h[31] = 2;
    let sig = sign(&x, &k, &h).unwrap();
    let lhs = k.times(&sig.s);
    let rhs = Scalar::from_u64(2).plus(&sig.r.times(&x));
    assert_eq!(lhs, rhs);
    let expected_r: [u8; 32] = Point::generator_times(&k).to_uncompressed_bytes()[1..33]
        .try_into()
        .unwrap();
    assert_eq!(sig.r.to_be_bytes(), expected_r);
}

#[test]
fn sign_with_presignature_rejects_inconsistent_nonce_point() {
    let key_shares = run_keygen_rounds(2, 2);
    let mut presignature = simulate_presign(&key_shares, 2, 2, DirectMta).remove(0).unwrap();
    presignature.nonce_point = Point::generator_times(&Scalar::from_u64(1));
    assert!(matches!(
        sign_with_presignature(&Scalar::from_u64(1), &presignature, &[1u8; 32]),
        Err(Error::InvalidNoncePoint)
    ));
}

#[test]
fn presignature_nonce_point_matches_aggregate_nonce() {
    let key_shares = run_keygen_rounds(3, 3);
    let presignatures: Vec<Presignature> = simulate_presign(&key_shares, 3, 3, MockMta)
        .into_iter()
        .map(|p| p.unwrap())
        .collect();
    for p in &presignatures {
        assert!(p.nonce_point == Point::generator_times(&p.aggregate_nonce));
        assert_eq!(p.nonce_secret_product_share, Scalar::zero());
        assert_eq!(p.participants, vec![0, 1, 2]);
    }
}

#[test]
fn presign_rejects_zero_nonce_opening() {
    let (a, _) = presign::start(0, 2, 2, 1).unwrap();
    let (b, cb) = presign::start(1, 2, 2, 2).unwrap();
    let mut opening = b.opening();
    opening.nonce_share = Scalar::zero();
    let key_share = run_keygen_rounds(2, 2).remove(0);
    let result = presign::finish(a, &key_share, DirectMta, &[(1, cb)], &[(1, opening)]);
    assert!(matches!(result, Err(Error::ZeroNonce)));
}

#[test]
fn presign_rejects_mismatched_opening_and_missing_commitment() {
    let key_share = run_keygen_rounds(2, 2).remove(0);
    let (a, _) = presign::start(0, 2, 2, 1).unwrap();
    let (b, cb) = presign::start(1, 2, 2, 2).unwrap();
    let mut opening = b.opening();
    opening.salt[5] ^= 0x80;
    let result = presign::finish(a, &key_share, DirectMta, &[(1, cb)], &[(1, opening)]);
    assert!(matches!(result, Err(Error::CommitmentMismatch { sender: 1 })));

    let (a, _) = presign::start(0, 2, 2, 1).unwrap();
    let result = presign::finish(a, &key_share, DirectMta, &[], &[(1, b.opening())]);
    assert!(matches!(result, Err(Error::Protocol(m)) if m == "missing presign commitment"));
}

#[test]
fn presign_rejects_too_few_parties() {
    let key_share = run_keygen_rounds(3, 3).remove(0);
    let (a, _) = presign::start(0, 3, 3, 1).unwrap();
    let result = presign::finish(a, &key_share, DirectMta, &[], &[]);
    assert!(
        matches!(result, Err(Error::Protocol(m)) if m == "not enough parties to form a presignature")
    );
}

#[test]
fn presign_rejects_invalid_configuration() {
    assert!(matches!(
        presign::start(2, 2, 1, 0),
        Err(Error::InvalidConfiguration { n: 2, threshold: 1, party_index: 2 })
    ));
}

#[derive(Clone)]
struct FailingMta;

impl MultiplicationToAddition for FailingMta {
    type Error = &'static str;

    fn multiply_to_additive_share(&mut self, _lhs: Scalar, _rhs: Scalar) -> Result<Scalar, &'static str> {
        Err("no OT session")
    }
}

#[test]
fn presign_reports_backend_failure() {
    let key_shares = run_keygen_rounds(2, 2);
    let results = simulate_presign(&key_shares, 2, 2, FailingMta);
    for r in results {
        assert!(
            matches!(r, Err(Error::Protocol(m)) if m == "MtA backend failed: \"no OT session\"")
        );
    }
}
