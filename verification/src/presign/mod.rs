//! Pre-signing: every party commits to a random non-zero nonce share, then opens
//! it; the aggregate nonce is the sum of all shares and the nonce point is `G`
//! times it. The product of this party's nonce and key shares goes through a
//! multiplication-to-addition backend.
use rand::rngs::StdRng;
use vstd::prelude::*;
use vstd::std_specs::cmp::PartialEqSpecImpl;
use vstd::string::StringExecFns;

use crate::bytes::bytes32_eq;
use crate::error::{Error, PartyIndex, Result};
use crate::key_share::{parties_eq, KeyShare};
use crate::keygen::{commitment_for, commitment_value};
use crate::msg::{PresignMessage, PresignOpen};
use crate::point::{generator_mul, identity_encoding, point_sum, Point};
use crate::protocol::{
    commitment_pairs, first_fault, index_commitments, latest_commitment, lemma_fault_persists,
    reports_fault, valid_party_configuration, validate_party_configuration, OpeningFault,
};
use crate::rng::{random_salt, seeded_rng};
use crate::scalar::{curve_order, lemma_scalar_below_order, random_scalar, Scalar};

pub mod mock_ot;
pub mod mta;

pub use mock_ot::MockMta;
pub use mta::{DirectMta, MultiplicationToAddition};

verus! {

broadcast use vstd::std_specs::btree::group_btree_axioms, vstd::laws_cmp::group_laws_cmp,
    lemma_scalar_below_order;

/// The outcome of pre-signing for one party.
#[derive(Clone)]
pub struct Presignature {
    /// `G` times the aggregate nonce.
    pub nonce_point: Point,
    /// The sum of every party's nonce share.
    pub aggregate_nonce: Scalar,
    /// This party's additive share of `nonce share * key share`.
    pub nonce_secret_product_share: Scalar,
    /// This party's nonce share.
    pub local_nonce_share: Scalar,
    pub participants: Vec<PartyIndex>,
    pub threshold: u16,
    pub party_index: PartyIndex,
}

impl Presignature {
    /// This party's nonce share.
    pub fn local_nonce_share(&self) -> (r: &Scalar)
        ensures
            *r == self.local_nonce_share,
    {
        &self.local_nonce_share
    }

    /// The nonce point is `G` times the aggregate nonce.
    pub open spec fn consistent(&self) -> bool {
        self.nonce_point@ == generator_mul(self.aggregate_nonce@)
    }
}

impl PartialEq for Presignature {
    fn eq(&self, other: &Self) -> (r: bool) {
        self.nonce_point == other.nonce_point && self.aggregate_nonce == other.aggregate_nonce
            && parties_eq(&self.participants, &other.participants) && self.threshold
            == other.threshold
    }
}

impl PartialEqSpecImpl for Presignature {
    open spec fn obeys_eq_spec() -> bool {
        true
    }

    /// Presignatures are equal when their public parts are.
    open spec fn eq_spec(&self, other: &Self) -> bool {
        &&& self.nonce_point@ == other.nonce_point@
        &&& self.aggregate_nonce@ == other.aggregate_nonce@
        &&& self.participants@ == other.participants@
        &&& self.threshold == other.threshold
    }
}

impl Eq for Presignature {}

/// Commits to `nonce_share` with `salt`: SHA-256 of the share's JSON encoding
/// followed by the salt.
pub fn nonce_commitment_for(nonce_share: &Scalar, salt: &[u8; 32]) -> (c: [u8; 32])
    ensures
        c@ == commitment_value(nonce_share@, salt@),
{
    commitment_for(nonce_share, salt)
}

/// Samples nonce shares until one is not zero.
fn sample_nonzero_nonce(rng: &mut StdRng) -> (nonce: Scalar)
    ensures
        nonce@ != 0,
{
    loop
        decreases 1nat,
    {
        let nonce = random_scalar(rng);
        if !nonce.is_zero() {
            return nonce;
        }
    }
}

/// A party between the rounds of pre-signing.
pub struct PresignState {
    pub party_index: PartyIndex,
    pub n: u16,
    pub threshold: u16,
    pub local_nonce_share: Scalar,
    pub local_nonce_point: Point,
    pub salt: [u8; 32],
    pub commitment: [u8; 32],
}

impl PresignState {
    /// The state is the one `start` makes.
    pub open spec fn wf(&self) -> bool {
        &&& valid_party_configuration(self.n, self.threshold, self.party_index)
        &&& self.local_nonce_share@ != 0
        &&& self.local_nonce_point@ == generator_mul(self.local_nonce_share@)
        &&& self.commitment@ == commitment_value(self.local_nonce_share@, self.salt@)
    }

    /// The round-2 message that opens this party's commitment.
    pub fn opening(&self) -> (m: PresignOpen)
        ensures
            m.nonce_share == self.local_nonce_share,
            m.salt == self.salt,
    {
        PresignOpen { nonce_share: self.local_nonce_share, salt: self.salt }
    }
}

/// What is wrong with one opening, if anything: no commitment from its sender, a
/// zero nonce share, or a share and salt that do not open the commitment.
pub open spec fn presign_opening_fault(
    commitments: Seq<(PartyIndex, Seq<u8>)>,
    opening: (PartyIndex, PresignOpen),
) -> Option<OpeningFault> {
    match latest_commitment(commitments, opening.0) {
        None => Some(OpeningFault::MissingCommitment),
        Some(c) => if opening.1.nonce_share@ == 0 {
            Some(OpeningFault::ZeroNonce)
        } else if c != commitment_value(opening.1.nonce_share@, opening.1.salt@) {
            Some(OpeningFault::Mismatch(opening.0))
        } else {
            None
        },
    }
}

/// The first fault among the openings, in the order they are processed.
pub open spec fn presign_fault(
    commitments: Seq<(PartyIndex, Seq<u8>)>,
    openings: Seq<(PartyIndex, PresignOpen)>,
) -> Option<OpeningFault> {
    first_fault(openings, presign_opening_check(commitments))
}

/// `presign_opening_fault` for fixed commitments.
pub open spec fn presign_opening_check(commitments: Seq<(PartyIndex, Seq<u8>)>) -> spec_fn(
    (PartyIndex, PresignOpen),
) -> Option<OpeningFault> {
    |o: (PartyIndex, PresignOpen)| presign_opening_fault(commitments, o)
}

/// The sum, modulo `q`, of the opened nonce shares.
pub open spec fn nonce_total(openings: Seq<(PartyIndex, PresignOpen)>) -> nat
    decreases openings.len(),
{
    if openings.len() == 0 {
        0
    } else {
        (nonce_total(openings.drop_last()) + openings.last().1.nonce_share@) % curve_order()
    }
}

/// The sum of the opened nonce points `G * share`, in order, starting from the
/// identity.
pub open spec fn nonce_point_total(openings: Seq<(PartyIndex, PresignOpen)>) -> Seq<u8>
    decreases openings.len(),
{
    if openings.len() == 0 {
        identity_encoding()
    } else {
        point_sum(
            nonce_point_total(openings.drop_last()),
            generator_mul(openings.last().1.nonce_share@),
        )
    }
}

/// No openings sum to the zero nonce and the identity point; one opening sums
/// to its own share and to the identity plus its point.
pub proof fn lemma_nonce_total_base(o: (PartyIndex, PresignOpen))
    ensures
        nonce_total(Seq::empty()) == 0,
        nonce_point_total(Seq::empty()) == identity_encoding(),
        nonce_total(seq![o]) == o.1.nonce_share@,
        nonce_point_total(seq![o]) == point_sum(
            identity_encoding(),
            generator_mul(o.1.nonce_share@),
        ),
{
    assert(seq![o].drop_last() =~= Seq::<(PartyIndex, PresignOpen)>::empty());
    vstd::arithmetic::div_mod::lemma_small_mod(o.1.nonce_share@, curve_order());
}

/// One more opening adds its share to the nonce total (modulo `q`) and its point
/// `G * share` to the point total.
pub proof fn lemma_nonce_total_push(
    openings: Seq<(PartyIndex, PresignOpen)>,
    o: (PartyIndex, PresignOpen),
)
    ensures
        nonce_total(openings.push(o)) == (nonce_total(openings) + o.1.nonce_share@)
            % curve_order(),
        nonce_point_total(openings.push(o)) == point_sum(
            nonce_point_total(openings),
            generator_mul(o.1.nonce_share@),
        ),
{
    assert(openings.push(o).drop_last() =~= openings);
}

/// The senders of the openings, in order.
pub open spec fn presign_senders(openings: Seq<(PartyIndex, PresignOpen)>) -> Seq<PartyIndex> {
    openings.map_values(|o: (PartyIndex, PresignOpen)| o.0)
}

/// Starts pre-signing for party `party_index` of `n` with the given threshold:
/// samples a non-zero nonce share and a salt from a generator seeded with `seed`,
/// and returns the state and the round-1 commitment.
pub fn start(party_index: PartyIndex, n: u16, threshold: u16, seed: u64) -> (res: Result<
    (PresignState, PresignMessage),
>)
    ensures
        res is Ok <==> valid_party_configuration(n, threshold, party_index),
        res is Ok <==> (1 <= n && 1 <= threshold && threshold <= n && party_index < n),
        res is Err ==> res == Err::<(PresignState, PresignMessage), Error>(
            Error::InvalidConfiguration { n, threshold, party_index },
        ),
        res matches Ok((state, msg)) ==> {
            &&& state.wf()
            &&& state.party_index == party_index
            &&& state.n == n
            &&& state.threshold == threshold
            &&& msg.nonce_commitment == state.commitment
        },
{
    match validate_party_configuration(n, threshold, party_index) {
        Ok(()) => {},
        Err(e) => return Err(e),
    }
    let mut rng = seeded_rng(seed);
    let local_nonce_share = sample_nonzero_nonce(&mut rng);
    let local_nonce_point = Point::generator_times(&local_nonce_share);
    let salt = random_salt(&mut rng);
    let commitment = nonce_commitment_for(&local_nonce_share, &salt);
    let state = PresignState {
        party_index,
        n,
        threshold,
        local_nonce_share,
        local_nonce_point,
        salt,
        commitment,
    };
    Ok((state, PresignMessage { nonce_commitment: commitment }))
}

/// The sum of the opened nonces and of their points, after checking each opening.
struct Aggregate {
    nonce_point: Point,
    nonce: Scalar,
    participants: Vec<PartyIndex>,
}

/// Checks every opening against its sender's commitment and sums the nonce
/// shares and their points.
fn aggregate_openings(
    commitments: &[(PartyIndex, PresignMessage)],
    openings: &[(PartyIndex, PresignOpen)],
) -> (res: Result<Aggregate>)
    ensures
        res is Err <==> presign_fault(commitment_pairs(commitments@), openings@) is Some,
        res matches Err(e) ==> reports_fault(
            e,
            presign_fault(commitment_pairs(commitments@), openings@)->0,
            "missing presign commitment"@,
        ),
        res matches Ok(agg) ==> {
            &&& agg.nonce@ == nonce_total(openings@)
            &&& agg.nonce_point@ == generator_mul(agg.nonce@)
            &&& agg.nonce_point@ == nonce_point_total(openings@)
            &&& agg.participants@ == presign_senders(openings@)
        },
{
    let ghost pairs = commitment_pairs(commitments@);
    let received = index_commitments(commitments);
    let mut participants: Vec<PartyIndex> = Vec::new();
    let mut nonce_point = Point::zero();
    let mut nonce = Scalar::zero();
    let mut j: usize = 0;
    while j < openings.len()
        invariant
            j <= openings@.len(),
            pairs == commitment_pairs(commitments@),
            forall|s: PartyIndex|
                #[trigger] received@.contains_key(s) <==> latest_commitment(pairs, s) is Some,
            forall|s: PartyIndex|
                #[trigger] received@.contains_key(s) ==> latest_commitment(pairs, s) == Some(
                    received@[s]@,
                ),
            presign_fault(pairs, openings@.take(j as int)) is None,
            participants@ == presign_senders(openings@.take(j as int)),
            nonce@ == nonce_total(openings@.take(j as int)),
            nonce_point@ == generator_mul(nonce@),
            nonce_point@ == nonce_point_total(openings@.take(j as int)),
        decreases openings@.len() - j,
    {
        let sender = openings[j].0;
        let open = &openings[j].1;
        let ghost prefix = openings@.take(j as int);
        let ghost next = openings@.take(j + 1);
        proof {
            assert(next.drop_last() =~= prefix);
            assert(next.last() == openings@[j as int]);
        }
        let commitment = match received.get(&sender) {
            Some(c) => *c,
            None => {
                proof {
                    lemma_fault_persists(openings@, presign_opening_check(pairs), j as int + 1);
                }
                return Err(Error::Protocol(String::from_str("missing presign commitment")));
            },
        };
        if open.nonce_share.is_zero() {
            proof {
                lemma_fault_persists(openings@, presign_opening_check(pairs), j as int + 1);
            }
            return Err(Error::ZeroNonce);
        }
        let expected = nonce_commitment_for(&open.nonce_share, &open.salt);
        if !bytes32_eq(&commitment, &expected) {
            proof {
                lemma_fault_persists(openings@, presign_opening_check(pairs), j as int + 1);
            }
            return Err(Error::CommitmentMismatch { sender });
        }
        let share_point = Point::generator_times(&open.nonce_share);
        nonce_point = nonce_point.plus(&share_point);
        nonce = nonce.plus(&open.nonce_share);
        participants.push(sender);
        proof {
            assert(participants@ =~= presign_senders(next));
        }
        j = j + 1;
    }
    proof {
        assert(openings@.take(openings@.len() as int) =~= openings@);
    }
    Ok(Aggregate { nonce_point, nonce, participants })
}

/// `format!("{err:?}")`: the `Debug` text of a backend's error. It depends on the
/// backend's `Debug` impl, so nothing is stated of it.
#[verifier::external_body]
fn debug_text<D: core::fmt::Debug>(err: &D) -> (m: String) {
    format!("{err:?}")
}

/// The start of the message of a failed multiplication-to-addition backend.
pub open spec fn mta_failure_prefix() -> Seq<char> {
    "MtA backend failed: "@
}

/// `m` reports a failed backend: the prefix followed by the backend's own text.
pub open spec fn is_mta_failure_message(m: Seq<char>) -> bool {
    exists|detail: Seq<char>| #[trigger] mta_failure_prefix().add(detail) == m
}

/// The protocol-error message for a failed backend whose error reads `detail`.
fn mta_failure_message(detail: String) -> (m: String)
    ensures
        m@ == mta_failure_prefix().add(detail@),
{
    let mut m = String::from_str("MtA backend failed: ");
    m.append(detail.as_str());
    m
}

/// Builds the presignature once the backend has answered: a backend failure is
/// reported as a protocol error, a zero aggregate nonce (or nonce point) as
/// `ZeroNonce`.
pub fn assemble_presignature(
    nonce_point: Point,
    aggregate_nonce: Scalar,
    product: core::result::Result<Scalar, String>,
    local_nonce_share: Scalar,
    participants: Vec<PartyIndex>,
    threshold: u16,
    party_index: PartyIndex,
) -> (res: Result<Presignature>)
    ensures
        product matches Err(m) ==> res == Err::<Presignature, Error>(Error::Protocol(m)),
        product is Ok ==> (res is Err <==> (aggregate_nonce@ == 0 || nonce_point@
            == identity_encoding())),
        product is Ok && res is Err ==> res == Err::<Presignature, Error>(Error::ZeroNonce),
        res matches Ok(p) ==> {
            &&& p.nonce_point == nonce_point
            &&& p.aggregate_nonce == aggregate_nonce
            &&& p.nonce_secret_product_share == product->Ok_0
            &&& p.local_nonce_share == local_nonce_share
            &&& p.participants@ == participants@
            &&& p.threshold == threshold
            &&& p.party_index == party_index
        },
{
    let nonce_secret_product_share = match product {
        Ok(v) => v,
        Err(m) => return Err(Error::Protocol(m)),
    };
    if aggregate_nonce.is_zero() || nonce_point.is_zero() {
        return Err(Error::ZeroNonce);
    }
    Ok(
        Presignature {
            nonce_point,
            aggregate_nonce,
            nonce_secret_product_share,
            local_nonce_share,
            participants,
            threshold,
            party_index,
        },
    )
}

/// Finishes pre-signing: checks every opening, sums the nonce shares (this
/// party's included) and their points, asks `mta` for this party's share of
/// `nonce share * key share`, and builds the presignature.
///
/// `commitments` and `openings` are the round-1 and round-2 messages of the
/// other parties, with their senders.
pub fn finish<T: MultiplicationToAddition>(
    state: PresignState,
    key_share: &KeyShare,
    mta: T,
    commitments: &[(PartyIndex, PresignMessage)],
    openings: &[(PartyIndex, PresignOpen)],
) -> (res: Result<Presignature>) where T::Error: core::fmt::Debug
    requires
        state.party_index <= openings@.len(),
    ensures
        ({
            let fault = presign_fault(commitment_pairs(commitments@), openings@);
            let enough = openings@.len() + 1 >= state.threshold;
            let total = (nonce_total(openings@) + state.local_nonce_share@) % curve_order();
            let point = point_sum(generator_mul(nonce_total(openings@)), state.local_nonce_point@);
            &&& fault is Some ==> (res matches Err(e) && reports_fault(
                e,
                fault->0,
                "missing presign commitment"@,
            ))
            &&& fault is None && state.local_nonce_share@ == 0 ==> res == Err::<Presignature, Error>(
                Error::ZeroNonce,
            )
            &&& fault is None && state.local_nonce_share@ != 0 && !enough ==> (res matches Err(
                Error::Protocol(m),
            ) && m@ == "not enough parties to form a presignature"@)
            // With every opening sound and enough parties, only the backend can
            // fail, unless the aggregate nonce (or its point) is zero.
            &&& fault is None && state.local_nonce_share@ != 0 && enough && res is Err ==> (res matches Err(
                Error::Protocol(m),
            ) && is_mta_failure_message(m@) && mta.may_fail(
                state.local_nonce_share@,
                key_share.local_secret_share@,
            ) || (res == Err::<Presignature, Error>(Error::ZeroNonce) && (total == 0 || point
                == identity_encoding())))
            &&& res matches Ok(p) ==> {
                &&& fault is None
                &&& p.aggregate_nonce@ == total
                &&& p.aggregate_nonce@ != 0
                &&& p.nonce_point@ == point
                // The nonce point is the sum of every party's point, from the
                // identity up.
                &&& p.nonce_point@ == point_sum(
                    nonce_point_total(openings@),
                    state.local_nonce_point@,
                )
                // With no other party, the aggregate is this party's own share.
                &&& openings@.len() == 0 ==> p.aggregate_nonce@ == state.local_nonce_share@
                    && p.nonce_point@ == state.local_nonce_point@
                &&& state.wf() ==> p.consistent()
                &&& p.participants@ == presign_senders(openings@).insert(
                    state.party_index as int,
                    state.party_index,
                )
                &&& p.threshold == state.threshold
                &&& p.party_index == state.party_index
                &&& p.local_nonce_share == state.local_nonce_share
                // The backend was asked for (local nonce) * (key share), and its
                // answer is the product share.
                &&& mta.share_of(
                    state.local_nonce_share@,
                    key_share.local_secret_share@,
                    p.nonce_secret_product_share@,
                )
            }
        }),
{
    let agg = match aggregate_openings(commitments, openings) {
        Ok(agg) => agg,
        Err(e) => return Err(e),
    };
    let Aggregate { nonce_point, nonce, mut participants } = agg;
    proof {
        if openings@.len() == 0 {
            lemma_nonce_total_base(
                (state.party_index, PresignOpen { nonce_share: state.local_nonce_share, salt: state.salt }),
            );
        }
    }
    if state.local_nonce_share.is_zero() {
        return Err(Error::ZeroNonce);
    }
    let nonce_point = nonce_point.plus(&state.local_nonce_point);
    let aggregate_nonce = nonce.plus(&state.local_nonce_share);
    participants.insert(state.party_index as usize, state.party_index);
    if participants.len() < state.threshold as usize {
        return Err(
            Error::Protocol(String::from_str("not enough parties to form a presignature")),
        );
    }
    let mut mta = mta;
    let product = match mta.multiply_to_additive_share(
        state.local_nonce_share,
        key_share.local_secret_share,
    ) {
        Ok(v) => Ok(v),
        Err(err) => {
            let detail = debug_text(&err);
            let m = mta_failure_message(detail);
            assert(is_mta_failure_message(m@)) by {
                assert(mta_failure_prefix().add(detail@) == m@);
            }
            Err(m)
        },
    };
    assemble_presignature(
        nonce_point,
        aggregate_nonce,
        product,
        state.local_nonce_share,
        participants,
        state.threshold,
        state.party_index,
    )
}

/// The parties of a pre-signing agree on its outcome: when party `i` receives the
/// openings of every other party, in order, its aggregate nonce (its own share
/// added) is the sum of all nonce shares, and its participant list, with itself
/// put back at its index, is the list of all senders.
pub proof fn lemma_parties_agree(all: Seq<(PartyIndex, PresignOpen)>, i: int)
    requires
        0 <= i < all.len(),
    ensures
        (nonce_total(all.remove(i)) + all[i].1.nonce_share@) % curve_order() == nonce_total(all),
        presign_senders(all.remove(i)).insert(i, all[i].0) == presign_senders(all),
    decreases all.len(),
{
    let q = curve_order() as int;
    let rest = all.remove(i);
    let v = all[i].1.nonce_share@;
    if i == all.len() - 1 {
        assert(rest =~= all.drop_last());
    } else {
        let init = all.drop_last();
        lemma_parties_agree(init, i);
        assert(rest.drop_last() =~= init.remove(i));
        assert(rest.last() == all.last());
        assert(init[i] == all[i]);
        let t = nonce_total(init.remove(i));
        let l = all.last().1.nonce_share@;
        vstd::arithmetic::div_mod::lemma_add_mod_noop_right(v as int, (t + l) as int, q);
        vstd::arithmetic::div_mod::lemma_add_mod_noop_right(l as int, (t + v) as int, q);
        assert((t + l) + v == (t + v) + l);
    }
    assert(presign_senders(rest).insert(i, all[i].0) =~= presign_senders(all));
}

} // verus!
