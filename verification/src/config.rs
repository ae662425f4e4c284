//! The committee: the fixed set of witnesses and the quorum threshold.

use crate::crypto::PublicKey;
use vstd::prelude::*;

verus! {

/// The identity of a witness within its committee.
pub type WitnessId = u64;

/// One witness of the committee.
#[derive(Clone, Debug, PartialEq, Eq)]
pub struct Member {
    pub id: WitnessId,
    pub public_key: PublicKey,
    pub address: String,
}

/// The witnesses in their configured order and the number of votes that
/// makes a certificate. It is built once and only read afterwards.
#[derive(Clone, Debug, PartialEq, Eq)]
pub struct Committee {
    pub members: Vec<Member>,
    pub quorum_threshold: u64,
}

/// The key of the first member at or after position `from` that carries `id`.
pub open spec fn key_from(members: Seq<Member>, id: WitnessId, from: int) -> Option<PublicKey>
    decreases members.len() - from,
{
    if from < 0 || from >= members.len() {
        None
    } else if members[from].id == id {
        Some(members[from].public_key)
    } else {
        key_from(members, id, from + 1)
    }
}

impl Committee {
    /// A committee of the given members and threshold.
    pub fn new(members: Vec<Member>, quorum_threshold: u64) -> (committee: Committee)
        ensures
            committee.members == members,
            committee.quorum_threshold == quorum_threshold,
    {
        Committee { members, quorum_threshold }
    }

    /// The public key under which the votes of witness `id` verify: that of
    /// the first member with this identity, if there is one.
    pub open spec fn key_of(&self, id: WitnessId) -> Option<PublicKey> {
        key_from(self.members@, id, 0)
    }

    /// The number of votes that makes a certificate.
    pub fn quorum_threshold(&self) -> (threshold: u64)
        ensures
            threshold == self.quorum_threshold,
    {
        self.quorum_threshold
    }

    /// The number of witnesses.
    pub fn size(&self) -> (size: usize)
        ensures
            size == self.members@.len(),
    {
        self.members.len()
    }

    /// Looks up the public key of a witness.
    pub fn public_key(&self, id: WitnessId) -> (key: Option<PublicKey>)
        ensures
            key == self.key_of(id),
    {
        let mut i: usize = 0;
        while i < self.members.len()
            invariant
                i <= self.members@.len(),
                self.key_of(id) == key_from(self.members@, id, i as int),
            decreases self.members@.len() - i,
        {
            if self.members[i].id == id {
                return Some(self.members[i].public_key);
            }
            i += 1;
        }
        None
    }

    /// The identity and network address of every witness, in committee order.
    pub fn witnesses_addresses(&self) -> (addresses: Vec<(WitnessId, String)>)
        ensures
            addresses@.len() == self.members@.len(),
            forall|i: int|
                0 <= i < addresses@.len() ==> addresses@[i].0 == self.members@[i].id
                    && addresses@[i].1 == self.members@[i].address,
    {
        let mut addresses: Vec<(WitnessId, String)> = Vec::new();
        let mut i: usize = 0;
        while i < self.members.len()
            invariant
                i <= self.members@.len(),
                addresses@.len() == i,
                forall|j: int|
                    0 <= j < i ==> addresses@[j].0 == self.members@[j].id && addresses@[j].1
                        == self.members@[j].address,
            decreases self.members@.len() - i,
        {
            addresses.push((self.members[i].id, self.members[i].address.clone()));
            i += 1;
        }
        addresses
    }
}

} // verus!
