use dkls23_lockness::keygen;
use dkls23_lockness::{Error, KeyShare, KeygenCommitment, KeygenOpen, PartyIndex, Point, Scalar};

/// Runs key generation for `n` parties in memory, party `i` seeded with `i`.
fn simulate_keygen(n: u16, threshold: u16) -> Vec<Result<KeyShare, Error>> {
    let mut started = Vec::new();
    for i in 0..n {
        started.push(keygen::start(i, n, threshold, i as u64));
    }
    if started.iter().any(|s| s.is_err()) {
        return started
            .into_iter()
            .map(|s| s.map(|_| unreachable!("some party failed to start")))
            .collect();
    }
    let started: Vec<(keygen::KeygenState, KeygenCommitment)> =
        started.into_iter().map(|s| s.unwrap()).collect();
    let commitments: Vec<(PartyIndex, KeygenCommitment)> =
        started.iter().map(|(s, c)| (s.party_index, *c)).collect();
    let openings: Vec<(PartyIndex, KeygenOpen)> =
        started.iter().map(|(s, _)| (s.party_index, s.opening())).collect();
    started
        .into_iter()
        .map(|(state, _)| {
            let i = state.party_index;
            let others_c: Vec<_> = commitments.iter().copied().filter(|(j, _)| *j != i).collect();
            let others_o: Vec<_> = openings.iter().copied().filter(|(j, _)| *j != i).collect();
            keygen::finish(state, &others_c, &others_o)
        })
        .collect()
}

#[test]
fn keygen_simulation_produces_matching_public_key() {
    let n = 3;
    let threshold = 2;

    let results = simulate_keygen(n, threshold);
    let shares: Vec<KeyShare> = results.into_iter().map(|r| r.unwrap()).collect();
    assert!(shares.iter().all(|s| *s == shares[0]));
    let shared = &shares[0];

    assert_eq!(shared.threshold, threshold);
    assert_eq!(shared.participants.len(), usize::from(n));
    assert!(!shared.public_shares.is_empty());
}

#[test]
fn keygen_rejects_invalid_threshold() {
    let n = 3u16;

    let results = simulate_keygen(n, 0);

    assert!(results
        .iter()
        .all(|result| matches!(result, Err(Error::InvalidConfiguration { threshold: 0, .. }))));
}

#[test]
fn keygen_public_key_is_generator_times_sum_of_shares() {
    let shares: Vec<KeyShare> = simulate_keygen(3, 2).into_iter().map(|r| r.unwrap()).collect();
    let total = shares
        .iter()
        .fold(Scalar::zero(), |acc, s| acc.plus(s.local_secret_share()));
    assert!(shares[0].public_key == Point::generator_times(&total));
    assert_eq!(shares[1].participants, vec![0, 1, 2]);
    for (j, share) in shares.iter().enumerate() {
        assert!(shares[0].public_shares[j] == Point::generator_times(share.local_secret_share()));
        assert_eq!(share.party_index as usize, j);
    }
}

#[test]
fn keygen_rejects_missing_commitment() {
    let (a, _ca) = keygen::start(0, 2, 2, 10).unwrap();
    let (b, _cb) = keygen::start(1, 2, 2, 11).unwrap();
    let result = keygen::finish(a, &[], &[(1, b.opening())]);
    assert!(matches!(result, Err(Error::Protocol(m)) if m == "missing keygen commitment"));
}

#[test]
fn keygen_rejects_tampered_opening() {
    let (a, _ca) = keygen::start(0, 2, 2, 10).unwrap();
    let (b, cb) = keygen::start(1, 2, 2, 11).unwrap();
    let mut opening = b.opening();
    opening.salt[0] ^= 1;
    let result = keygen::finish(a, &[(1, cb)], &[(1, opening)]);
    assert!(matches!(result, Err(Error::CommitmentMismatch { sender: 1 })));
}
