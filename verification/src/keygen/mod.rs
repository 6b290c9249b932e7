//! Distributed key generation: every party commits to a random secret share,
//! then opens it; the joint public key is `G` times the sum of all shares.
use vstd::prelude::*;
use vstd::string::StringExecFns;

use crate::bytes::{append_bytes, bytes32_eq};
use crate::error::{Error, PartyIndex, Result};
use crate::hash::{sha256, sha256_digest};
use crate::key_share::{point_views, KeyShare};
use crate::msg::{KeygenCommitment, KeygenOpen};
use crate::point::{generator_mul, point_sum, Point};
use crate::protocol::{
    commitment_pairs, first_fault, index_commitments, latest_commitment, lemma_fault_persists,
    reports_fault, valid_party_configuration, validate_party_configuration, OpeningFault,
};
use crate::rng::{random_salt, seeded_rng};
use crate::scalar::{curve_order, lemma_scalar_below_order, random_scalar, scalar_json,
    scalar_to_json, Scalar};

verus! {

broadcast use vstd::std_specs::btree::group_btree_axioms, vstd::laws_cmp::group_laws_cmp,
    lemma_scalar_below_order;

/// The commitment to a share: SHA-256 of the share's JSON encoding followed by the salt.
pub open spec fn commitment_value(share: nat, salt: Seq<u8>) -> Seq<u8> {
    sha256(scalar_json(share) + salt)
}

/// Commits to `secret_share` with `salt`.
pub fn commitment_for(secret_share: &Scalar, salt: &[u8; 32]) -> (c: [u8; 32])
    ensures
        c@ == commitment_value(secret_share@, salt@),
{
    let mut data = scalar_to_json(secret_share);
    append_bytes(&mut data, salt.as_slice());
    sha256_digest(data.as_slice())
}

/// A party between the rounds of key generation.
pub struct KeygenState {
    pub party_index: PartyIndex,
    pub n: u16,
    pub threshold: u16,
    pub secret_share: Scalar,
    pub public_share: Point,
    pub salt: [u8; 32],
    pub commitment: [u8; 32],
}

impl KeygenState {
    /// The state is the one `start` makes: a non-zero share, its public share and
    /// the commitment to it.
    pub open spec fn wf(&self) -> bool {
        &&& valid_party_configuration(self.n, self.threshold, self.party_index)
        &&& self.secret_share@ != 0
        &&& self.public_share@ == generator_mul(self.secret_share@)
        &&& self.commitment@ == commitment_value(self.secret_share@, self.salt@)
    }

    /// The round-2 message that opens this party's commitment.
    pub fn opening(&self) -> (m: KeygenOpen)
        ensures
            m.secret_share == self.secret_share,
            m.salt == self.salt,
    {
        KeygenOpen { secret_share: self.secret_share, salt: self.salt }
    }
}

/// What is wrong with one opening, if anything.
pub open spec fn keygen_opening_fault(
    state: KeygenState,
    commitments: Seq<(PartyIndex, Seq<u8>)>,
    opening: (PartyIndex, KeygenOpen),
) -> Option<OpeningFault> {
    let expected = commitment_value(opening.1.secret_share@, opening.1.salt@);
    match latest_commitment(commitments, opening.0) {
        None => Some(OpeningFault::MissingCommitment),
        Some(c) => if (opening.0 == state.party_index && expected != state.commitment@) || expected
            != c {
            Some(OpeningFault::Mismatch(opening.0))
        } else {
            None
        },
    }
}

/// The first fault among the openings, in the order they are processed.
pub open spec fn keygen_fault(
    state: KeygenState,
    commitments: Seq<(PartyIndex, Seq<u8>)>,
    openings: Seq<(PartyIndex, KeygenOpen)>,
) -> Option<OpeningFault> {
    first_fault(openings, keygen_opening_check(state, commitments))
}

/// `keygen_opening_fault` for fixed state and commitments.
pub open spec fn keygen_opening_check(
    state: KeygenState,
    commitments: Seq<(PartyIndex, Seq<u8>)>,
) -> spec_fn((PartyIndex, KeygenOpen)) -> Option<OpeningFault> {
    |o: (PartyIndex, KeygenOpen)| keygen_opening_fault(state, commitments, o)
}

/// The sum, modulo `q`, of the opened shares.
pub open spec fn share_total(openings: Seq<(PartyIndex, KeygenOpen)>) -> nat
    decreases openings.len(),
{
    if openings.len() == 0 {
        0
    } else {
        (share_total(openings.drop_last()) + openings.last().1.secret_share@) % curve_order()
    }
}

/// No openings sum to zero; one opening sums to its own share.
pub proof fn lemma_share_total_base(o: (PartyIndex, KeygenOpen))
    ensures
        share_total(Seq::empty()) == 0,
        share_total(seq![o]) == o.1.secret_share@,
{
    assert(seq![o].drop_last() =~= Seq::<(PartyIndex, KeygenOpen)>::empty());
    vstd::arithmetic::div_mod::lemma_small_mod(o.1.secret_share@, curve_order());
}

/// One more opening adds its share to the total, modulo `q`.
pub proof fn lemma_share_total_push(openings: Seq<(PartyIndex, KeygenOpen)>, o: (PartyIndex, KeygenOpen))
    ensures
        share_total(openings.push(o)) == (share_total(openings) + o.1.secret_share@)
            % curve_order(),
{
    assert(openings.push(o).drop_last() =~= openings);
}

/// The senders of the openings, in order.
pub open spec fn keygen_senders(openings: Seq<(PartyIndex, KeygenOpen)>) -> Seq<PartyIndex> {
    openings.map_values(|o: (PartyIndex, KeygenOpen)| o.0)
}

/// The public shares `G * share` of the openings, in order.
pub open spec fn keygen_share_points(openings: Seq<(PartyIndex, KeygenOpen)>) -> Seq<Seq<u8>> {
    openings.map_values(|o: (PartyIndex, KeygenOpen)| generator_mul(o.1.secret_share@))
}

/// Starts key generation for party `party_index` of `n` with the given
/// threshold: samples a secret share and a salt from a generator seeded with
/// `seed`, and returns the state and the round-1 commitment.
pub fn start(party_index: PartyIndex, n: u16, threshold: u16, seed: u64) -> (res: Result<
    (KeygenState, KeygenCommitment),
>)
    ensures
        res is Ok <==> valid_party_configuration(n, threshold, party_index),
        res is Ok <==> (1 <= n && 1 <= threshold && threshold <= n && party_index < n),
        res is Err ==> res == Err::<(KeygenState, KeygenCommitment), Error>(
            Error::InvalidConfiguration { n, threshold, party_index },
        ),
        res matches Ok((state, msg)) ==> {
            &&& state.wf()
            &&& state.party_index == party_index
            &&& state.n == n
            &&& state.threshold == threshold
            &&& msg.commitment == state.commitment
        },
{
    match validate_party_configuration(n, threshold, party_index) {
        Ok(()) => {},
        Err(e) => return Err(e),
    }
    let mut rng = seeded_rng(seed);
    let secret_share = random_scalar(&mut rng);
    let public_share = Point::generator_times(&secret_share);
    let salt = random_salt(&mut rng);
    let commitment = commitment_for(&secret_share, &salt);
    let state = KeygenState {
        party_index,
        n,
        threshold,
        secret_share,
        public_share,
        salt,
        commitment,
    };
    Ok((state, KeygenCommitment { commitment }))
}

/// Finishes key generation: checks every opening against the commitment its
/// sender sent (and this party's own commitment), and sums the public shares.
///
/// `commitments` and `openings` are the round-1 and round-2 messages of the
/// other parties, with their senders.
pub fn finish(
    state: KeygenState,
    commitments: &[(PartyIndex, KeygenCommitment)],
    openings: &[(PartyIndex, KeygenOpen)],
) -> (res: Result<KeyShare>)
    requires
        state.party_index <= openings@.len(),
    ensures
        res is Err <==> keygen_fault(state, commitment_pairs(commitments@), openings@) is Some,
        res matches Err(e) ==> reports_fault(
            e,
            keygen_fault(state, commitment_pairs(commitments@), openings@)->0,
            "missing keygen commitment"@,
        ),
        res matches Ok(ks) ==> {
            &&& ks.participants@ == keygen_senders(openings@).insert(
                state.party_index as int,
                state.party_index,
            )
            &&& point_views(ks.public_shares@) == keygen_share_points(openings@).insert(
                state.party_index as int,
                state.public_share@,
            )
            // One public share and one participant per party: those of the
            // openings in order, with this party's own at its index.
            &&& ks.public_shares@.len() == openings@.len() + 1
            &&& ks.participants@.len() == openings@.len() + 1
            &&& forall|i: int|
                0 <= i < state.party_index ==> #[trigger] ks.public_shares@[i]@ == generator_mul(
                    openings@[i].1.secret_share@,
                ) && ks.participants@[i] == openings@[i].0
            &&& ks.public_shares@[state.party_index as int]@ == state.public_share@
            &&& ks.participants@[state.party_index as int] == state.party_index
            &&& forall|i: int|
                state.party_index < i <= openings@.len() ==> #[trigger] ks.public_shares@[i]@
                    == generator_mul(openings@[i - 1].1.secret_share@) && ks.participants@[i]
                    == openings@[i - 1].0
            &&& ks.public_key@ == point_sum(
                generator_mul(share_total(openings@)),
                state.public_share@,
            )
            // With no other party, the public key is this party's public share.
            &&& openings@.len() == 0 ==> ks.public_key@ == state.public_share@
            // The joint public key is G times the sum of every party's share.
            &&& state.wf() ==> ks.public_key@ == generator_mul(
                (share_total(openings@) + state.secret_share@) % curve_order(),
            )
            &&& ks.threshold == state.threshold
            &&& ks.party_index == state.party_index
            &&& ks.local_secret_share == state.secret_share
        },
{
    let ghost pairs = commitment_pairs(commitments@);
    let received = index_commitments(commitments);
    let mut public_shares: Vec<Point> = Vec::new();
    let mut public_key = Point::zero();
    let mut participants: Vec<PartyIndex> = Vec::new();
    let mut j: usize = 0;
    while j < openings.len()
        invariant
            j <= openings@.len(),
            pairs == commitment_pairs(commitments@),
            forall|s: PartyIndex|
                #[trigger] received@.contains_key(s) <==> latest_commitment(pairs, s) is Some,
            forall|s: PartyIndex|
                #[trigger] received@.contains_key(s) ==> latest_commitment(pairs, s) == Some(
                    received@[s]@,
                ),
            keygen_fault(state, pairs, openings@.take(j as int)) is None,
            participants@ == keygen_senders(openings@.take(j as int)),
            point_views(public_shares@) == keygen_share_points(openings@.take(j as int)),
            public_key@ == generator_mul(share_total(openings@.take(j as int))),
        decreases openings@.len() - j,
    {
        let sender = openings[j].0;
        let open = &openings[j].1;
        let ghost prefix = openings@.take(j as int);
        let ghost next = openings@.take(j + 1);
        proof {
            assert(next.drop_last() =~= prefix);
            assert(next.last() == openings@[j as int]);
        }
        let commitment = match received.get(&sender) {
            Some(c) => *c,
            None => {
                proof {
                    lemma_fault_persists(openings@, keygen_opening_check(state, pairs), j as int + 1);
                }
                return Err(Error::Protocol(String::from_str("missing keygen commitment")));
            },
        };
        let expected = commitment_for(&open.secret_share, &open.salt);
        if sender == state.party_index && !bytes32_eq(&expected, &state.commitment) {
            proof {
                lemma_fault_persists(openings@, keygen_opening_check(state, pairs), j as int + 1);
            }
            return Err(Error::CommitmentMismatch { sender });
        }
        if !bytes32_eq(&expected, &commitment) {
            proof {
                lemma_fault_persists(openings@, keygen_opening_check(state, pairs), j as int + 1);
            }
            return Err(Error::CommitmentMismatch { sender });
        }
        let share_point = Point::generator_times(&open.secret_share);
        public_key = public_key.plus(&share_point);
        let ghost before = public_shares@;
        public_shares.push(share_point);
        participants.push(sender);
        proof {
            assert(participants@ =~= keygen_senders(next));
            assert(point_views(before).len() == before.len());
            assert(keygen_share_points(prefix).len() == prefix.len());
            assert(before.len() == j);
            assert(public_shares@ == before.push(share_point));
            assert forall|i: int| 0 <= i < next.len() implies point_views(public_shares@)[i]
                == keygen_share_points(next)[i] by {
                if i < j {
                    assert(public_shares@[i] == before[i]);
                    assert(point_views(before)[i] == keygen_share_points(prefix)[i]);
                    assert(next[i] == prefix[i]);
                }
            }
            assert(point_views(public_shares@) =~= keygen_share_points(next));
        }
        j = j + 1;
    }
    proof {
        assert(openings@.take(openings@.len() as int) =~= openings@);
    }
    public_key = public_key.plus(&state.public_share);
    public_shares.insert(state.party_index as usize, state.public_share);
    participants.insert(state.party_index as usize, state.party_index);
    proof {
        let pi = state.party_index as int;
        assert(point_views(public_shares@) =~= keygen_share_points(openings@).insert(
            pi,
            state.public_share@,
        ));
        let views = point_views(public_shares@);
        let points = keygen_share_points(openings@);
        assert(views.len() == public_shares@.len());
        assert forall|i: int| 0 <= i < pi implies #[trigger] public_shares@[i]@ == generator_mul(
            openings@[i].1.secret_share@,
        ) && participants@[i] == openings@[i].0 by {
            assert(views[i] == public_shares@[i]@);
            assert(views[i] == points[i]);
        }
        assert(views[pi] == public_shares@[pi]@);
        assert forall|i: int| pi < i <= openings@.len() implies #[trigger] public_shares@[i]@
            == generator_mul(openings@[i - 1].1.secret_share@) && participants@[i]
            == openings@[i - 1].0 by {
            assert(views[i] == public_shares@[i]@);
            assert(views[i] == points[i - 1]);
        }
        if openings@.len() == 0 {
            lemma_share_total_base(
                (state.party_index, KeygenOpen { secret_share: state.secret_share, salt: state.salt }),
            );
        }
    }
    Ok(
        KeyShare::new(
            public_key,
            public_shares,
            participants,
            state.threshold,
            state.party_index,
            state.secret_share,
        ),
    )
}

/// The parties of a key generation agree on its outcome: when party `i` receives
/// the openings of every other party, in order, its sum of shares (its own added)
/// is the sum of all shares, and its lists of public shares and of participants,
/// with its own entry put back at its index, are those of all parties.
pub proof fn lemma_parties_agree(all: Seq<(PartyIndex, KeygenOpen)>, i: int)
    requires
        0 <= i < all.len(),
    ensures
        (share_total(all.remove(i)) + all[i].1.secret_share@) % curve_order() == share_total(all),
        keygen_share_points(all.remove(i)).insert(i, generator_mul(all[i].1.secret_share@))
            == keygen_share_points(all),
        keygen_senders(all.remove(i)).insert(i, all[i].0) == keygen_senders(all),
    decreases all.len(),
{
    let q = curve_order() as int;
    let rest = all.remove(i);
    let v = all[i].1.secret_share@;
    if i == all.len() - 1 {
        assert(rest =~= all.drop_last());
    } else {
        let init = all.drop_last();
        lemma_parties_agree(init, i);
        assert(rest.drop_last() =~= init.remove(i));
        assert(rest.last() == all.last());
        assert(init[i] == all[i]);
        let t = share_total(init.remove(i));
        let l = all.last().1.secret_share@;
        vstd::arithmetic::div_mod::lemma_add_mod_noop_right(v as int, (t + l) as int, q);
        vstd::arithmetic::div_mod::lemma_add_mod_noop_right(l as int, (t + v) as int, q);
        assert((t + l) + v == (t + v) + l);
    }
    assert(keygen_share_points(rest).insert(i, generator_mul(v)) =~= keygen_share_points(all));
    assert(keygen_senders(rest).insert(i, all[i].0) =~= keygen_senders(all));
}

} // verus!
