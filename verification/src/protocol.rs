use std::collections::{BTreeMap, BTreeSet};
use vstd::prelude::*;

use crate::error::PartyIndex;
use crate::error::{Error, Result};

verus! {

broadcast use vstd::std_specs::btree::group_btree_axioms, vstd::laws_cmp::group_laws_cmp;

/// Whether `n`, `threshold` and `party_index` describe a party of a valid
/// `threshold`-out-of-`n` configuration.
pub open spec fn valid_party_configuration(n: u16, threshold: u16, party_index: PartyIndex) -> bool {
    &&& n != 0
    &&& threshold != 0
    &&& threshold <= n
    &&& party_index < n
}

/// Checks that `n >= threshold >= 1` and `party_index < n`.
pub fn validate_party_configuration(n: u16, threshold: u16, party_index: PartyIndex) -> (r: Result<()>)
    ensures
        r is Ok <==> valid_party_configuration(n, threshold, party_index),
        // Any threshold from one to `n` is accepted, for every index below `n`.
        r is Ok <==> (1 <= n && 1 <= threshold && threshold <= n && party_index < n),
        r is Err ==> r == Err::<(), Error>(Error::InvalidConfiguration { n, threshold, party_index }),
{
    if n == 0 || threshold == 0 || threshold > n || party_index >= n {
        return Err(Error::InvalidConfiguration { n, threshold, party_index });
    }
    Ok(())
}

/// Checks that `participants` names exactly `expected` parties, none of them twice.
pub fn validate_participant_set(expected: u16, participants: &[PartyIndex]) -> (r: Result<()>)
    ensures
        r is Ok <==> (participants@.len() == expected && participants@.no_duplicates()),
        r is Err ==> r == Err::<(), Error>(
            Error::InvalidParticipantSet { expected, found: participants@.len() as usize },
        ),
{
    let mut unique: BTreeSet<PartyIndex> = BTreeSet::new();
    let len = participants.len();
    let mut i: usize = 0;
    while i < len
        invariant
            i <= len,
            len == participants@.len(),
            unique@.finite(),
            forall|x: PartyIndex| unique@.contains(x) <==> participants@.take(i as int).contains(x),
            unique@.len() <= i,
            unique@.len() == i <==> participants@.take(i as int).no_duplicates(),
        decreases len - i,
    {
        let x = participants[i];
        let ghost prefix = participants@.take(i as int);
        let ghost next = participants@.take(i as int + 1);
        assert(next == prefix.push(x));
        let fresh = unique.insert(x);
        proof {
            assert forall|y: PartyIndex| unique@.contains(y) <==> next.contains(y) by {
                if next.contains(y) {
                    let k = choose|k: int| 0 <= k < next.len() && next[k] == y;
                    if k < prefix.len() {
                        assert(prefix[k] == y);
                    }
                }
                if prefix.contains(y) {
                    let k = choose|k: int| 0 <= k < prefix.len() && prefix[k] == y;
                    assert(next[k] == y);
                }
                assert(next[prefix.len() as int] == x);
            }
            if fresh {
                assert(!prefix.contains(x));
                if prefix.no_duplicates() {
                    assert forall|a: int, b: int| 0 <= a < b < next.len() implies next[a] != next[b] by {
                        if b == prefix.len() {
                            assert(prefix[a] == next[a]);
                        } else {
                            assert(prefix[a] == next[a] && prefix[b] == next[b]);
                        }
                    }
                } else {
                    let (a, b) = choose|a: int, b: int| 0 <= a < b < prefix.len() && prefix[a] == prefix[b];
                    assert(next[a] == next[b]);
                }
            } else {
                assert(prefix.contains(x));
                let k = choose|k: int| 0 <= k < prefix.len() && prefix[k] == x;
                assert(next[k] == next[prefix.len() as int]);
                assert(!next.no_duplicates());
            }
        }
        i = i + 1;
    }
    assert(participants@.take(len as int) == participants@);
    let unique_count = unique.len();
    if len != expected as usize || unique_count != len {
        return Err(Error::InvalidParticipantSet { expected, found: len });
    }
    Ok(())
}

/// The commitment bytes that a list of `(sender, commitment)` pairs holds for
/// `sender`: the last one that `sender` sent, as a map collected from the list
/// keeps it.
pub open spec fn latest_commitment(
    commitments: Seq<(PartyIndex, Seq<u8>)>,
    sender: PartyIndex,
) -> Option<Seq<u8>>
    decreases commitments.len(),
{
    if commitments.len() == 0 {
        None
    } else if commitments.last().0 == sender {
        Some(commitments.last().1)
    } else {
        latest_commitment(commitments.drop_last(), sender)
    }
}

/// What went wrong with a party's opening of its commitment.
pub enum OpeningFault {
    /// The party sent no commitment.
    MissingCommitment,
    /// The opened nonce share is zero.
    ZeroNonce,
    /// The opening does not match the commitment.
    Mismatch(PartyIndex),
}

/// `e` is the error reported for `fault`; `missing` is the message of a
/// `Protocol` error for a missing commitment.
pub open spec fn reports_fault(e: Error, fault: OpeningFault, missing: Seq<char>) -> bool {
    match fault {
        OpeningFault::MissingCommitment => e matches Error::Protocol(m) && m@ == missing,
        OpeningFault::ZeroNonce => e == Error::ZeroNonce,
        OpeningFault::Mismatch(sender) => e == Error::CommitmentMismatch { sender },
    }
}

/// The first fault among `openings`, in the order they are processed, where
/// `fault` says what is wrong with one opening.
pub open spec fn first_fault<O>(
    openings: Seq<O>,
    fault: spec_fn(O) -> Option<OpeningFault>,
) -> Option<OpeningFault>
    decreases openings.len(),
{
    if openings.len() == 0 {
        None
    } else {
        match first_fault(openings.drop_last(), fault) {
            Some(f) => Some(f),
            None => fault(openings.last()),
        }
    }
}

/// Once a prefix of the openings has a fault, every longer prefix reports the
/// same first fault.
pub proof fn lemma_fault_persists<O>(
    openings: Seq<O>,
    fault: spec_fn(O) -> Option<OpeningFault>,
    k: int,
)
    requires
        0 <= k <= openings.len(),
        first_fault(openings.take(k), fault) is Some,
    ensures
        first_fault(openings, fault) == first_fault(openings.take(k), fault),
    decreases openings.len() - k,
{
    if k < openings.len() {
        let next = openings.take(k + 1);
        assert(next.drop_last() =~= openings.take(k));
        lemma_fault_persists(openings, fault, k + 1);
    } else {
        assert(openings.take(k) =~= openings);
    }
}

/// A round-1 message that carries a 32-byte commitment.
pub trait CommitmentMessage {
    /// The commitment bytes the message carries.
    spec fn committed_bytes(&self) -> Seq<u8>;

    /// The commitment the message carries.
    fn commitment_digest(&self) -> (c: [u8; 32])
        ensures
            c@ == self.committed_bytes(),
    ;
}

/// `(sender, commitment bytes)` of each round-1 message.
pub open spec fn commitment_pairs<M: CommitmentMessage>(commitments: Seq<(PartyIndex, M)>) -> Seq<
    (PartyIndex, Seq<u8>),
> {
    commitments.map_values(|c: (PartyIndex, M)| (c.0, c.1.committed_bytes()))
}

/// Collects the round-1 commitments by sender (a later one from the same sender
/// replaces an earlier one).
pub fn index_commitments<M: CommitmentMessage>(commitments: &[(PartyIndex, M)]) -> (m: BTreeMap<
    PartyIndex,
    [u8; 32],
>)
    ensures
        forall|s: PartyIndex|
            #[trigger] m@.contains_key(s) <==> latest_commitment(commitment_pairs(commitments@), s)
                is Some,
        forall|s: PartyIndex|
            #[trigger] m@.contains_key(s) ==> latest_commitment(commitment_pairs(commitments@), s)
                == Some(m@[s]@),
{
    let mut m: BTreeMap<PartyIndex, [u8; 32]> = BTreeMap::new();
    let mut j: usize = 0;
    while j < commitments.len()
        invariant
            j <= commitments@.len(),
            forall|s: PartyIndex|
                #[trigger] m@.contains_key(s) <==> latest_commitment(
                    commitment_pairs(commitments@.take(j as int)),
                    s,
                ) is Some,
            forall|s: PartyIndex|
                #[trigger] m@.contains_key(s) ==> latest_commitment(
                    commitment_pairs(commitments@.take(j as int)),
                    s,
                ) == Some(m@[s]@),
        decreases commitments@.len() - j,
    {
        let sender = commitments[j].0;
        let c = commitments[j].1.commitment_digest();
        m.insert(sender, c);
        proof {
            let prev = commitment_pairs(commitments@.take(j as int));
            let next = commitment_pairs(commitments@.take(j + 1));
            assert(next.drop_last() =~= prev);
            assert(next.last() == (sender, c@));
        }
        j = j + 1;
    }
    assert(commitments@.take(commitments@.len() as int) =~= commitments@);
    m
}

} // verus!
