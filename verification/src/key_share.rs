//! The key material a party holds after key generation.
use vstd::prelude::*;
use vstd::std_specs::cmp::PartialEqSpecImpl;

use crate::error::PartyIndex;
use crate::point::Point;
use crate::scalar::Scalar;

verus! {

/// The encodings of a sequence of points.
pub open spec fn point_views(points: Seq<Point>) -> Seq<Seq<u8>> {
    points.map_values(|p: Point| p@)
}

/// Whether two point vectors hold the same points, in the same order.
pub fn points_eq(a: &Vec<Point>, b: &Vec<Point>) -> (r: bool)
    ensures
        r == (point_views(a@) == point_views(b@)),
{
    if a.len() != b.len() {
        assert(point_views(a@).len() != point_views(b@).len());
        return false;
    }
    let mut j: usize = 0;
    while j < a.len()
        invariant
            j <= a@.len(),
            a@.len() == b@.len(),
            forall|i: int| 0 <= i < j ==> a@[i]@ == b@[i]@,
        decreases a@.len() - j,
    {
        if a[j] != b[j] {
            assert(point_views(a@)[j as int] != point_views(b@)[j as int]);
            return false;
        }
        j = j + 1;
    }
    assert(point_views(a@) =~= point_views(b@));
    true
}

/// Whether two party lists are equal.
pub fn parties_eq(a: &Vec<PartyIndex>, b: &Vec<PartyIndex>) -> (r: bool)
    ensures
        r == (a@ == b@),
{
    if a.len() != b.len() {
        return false;
    }
    let mut j: usize = 0;
    while j < a.len()
        invariant
            j <= a@.len(),
            a@.len() == b@.len(),
            forall|i: int| 0 <= i < j ==> a@[i] == b@[i],
        decreases a@.len() - j,
    {
        if a[j] != b[j] {
            assert(a@[j as int] != b@[j as int]);
            return false;
        }
        j = j + 1;
    }
    assert(a@ =~= b@);
    true
}

/// A party's share of a jointly generated key.
#[derive(Clone)]
pub struct KeyShare {
    /// The joint public key.
    pub public_key: Point,
    /// Every party's public share, indexed by party.
    pub public_shares: Vec<Point>,
    /// The parties of the key, in order.
    pub participants: Vec<PartyIndex>,
    pub threshold: u16,
    pub party_index: PartyIndex,
    /// This party's secret share.
    pub local_secret_share: Scalar,
}

impl KeyShare {
    /// Gathers the parts of a key share.
    pub fn new(
        public_key: Point,
        public_shares: Vec<Point>,
        participants: Vec<PartyIndex>,
        threshold: u16,
        party_index: PartyIndex,
        local_secret_share: Scalar,
    ) -> (r: KeyShare)
        ensures
            r.public_key == public_key,
            r.public_shares@ == public_shares@,
            r.participants@ == participants@,
            r.threshold == threshold,
            r.party_index == party_index,
            r.local_secret_share == local_secret_share,
    {
        KeyShare {
            public_key,
            public_shares,
            participants,
            threshold,
            party_index,
            local_secret_share,
        }
    }

    /// This party's secret share.
    pub fn local_secret_share(&self) -> (r: &Scalar)
        ensures
            *r == self.local_secret_share,
    {
        &self.local_secret_share
    }
}

impl PartialEq for KeyShare {
    fn eq(&self, other: &Self) -> (r: bool) {
        self.public_key == other.public_key && points_eq(&self.public_shares, &other.public_shares)
            && parties_eq(&self.participants, &other.participants) && self.threshold
            == other.threshold
    }
}

impl PartialEqSpecImpl for KeyShare {
    open spec fn obeys_eq_spec() -> bool {
        true
    }

    /// Key shares are equal when their public parts are: the party's own index
    /// and secret are left out.
    open spec fn eq_spec(&self, other: &Self) -> bool {
        &&& self.public_key@ == other.public_key@
        &&& point_views(self.public_shares@) == point_views(other.public_shares@)
        &&& self.participants@ == other.participants@
        &&& self.threshold == other.threshold
    }
}

impl Eq for KeyShare {}

} // verus!
