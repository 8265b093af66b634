//! What a user has already been paid.

use vstd::prelude::*;
use crate::digest::{get_user_reward_key, user_reward_key};
use crate::identity::{same_bytes, Identity};
use crate::store::Record;

verus! {

/// The keys of a record after `key` has been marked: as before if the key
/// was there, else with the key added at the end.
pub open spec fn marked(claimed: Seq<[u8; 32]>, key: [u8; 32]) -> Seq<[u8; 32]> {
    if claimed.contains(key) {
        claimed
    } else {
        claimed.push(key)
    }
}

/// Marking adds the key to the set of claimed keys and nothing else, and
/// keeps a list without repetition free of it.
pub proof fn lemma_marked(claimed: Seq<[u8; 32]>, key: [u8; 32])
    ensures
        marked(claimed, key).contains(key),
        forall|other: [u8; 32]|
            marked(claimed, key).contains(other) <==> (other == key || claimed.contains(other)),
        marked(claimed, key).to_set() == claimed.to_set().insert(key),
        claimed.no_duplicates() ==> marked(claimed, key).no_duplicates(),
{
    let after = marked(claimed, key);
    if claimed.contains(key) {
        assert(after.to_set() =~= claimed.to_set().insert(key));
    } else {
        assert(after[claimed.len() as int] == key);
        assert forall|other: [u8; 32]| after.contains(other) <==> (other == key
            || claimed.contains(other)) by {
            if claimed.contains(other) {
                let i = choose|i: int| 0 <= i < claimed.len() && claimed[i] == other;
                assert(after[i] == other);
            }
        }
        assert(after.to_set() =~= claimed.to_set().insert(key));
    }
}

/// Marking a key twice is marking it once: the claimed keys are a set, not a
/// count.
pub proof fn lemma_mark_claimed_is_idempotent(claimed: Seq<[u8; 32]>, key: [u8; 32])
    ensures
        marked(marked(claimed, key), key) == marked(claimed, key),
        marked(marked(claimed, key), key).to_set() == marked(claimed, key).to_set(),
{
    lemma_marked(claimed, key);
}

/// Whether `key` is among `keys`.
pub fn contains_key(keys: &Vec<[u8; 32]>, key: &[u8; 32]) -> (found: bool)
    ensures
        found == keys@.contains(*key),
{
    let mut i: usize = 0;
    while i < keys.len()
        invariant
            i <= keys.len(),
            forall|j: int| 0 <= j < i ==> keys@[j] != *key,
        decreases keys.len() - i,
    {
        if same_bytes(&keys[i], key) {
            return true;
        }
        i = i + 1;
    }
    false
}

/// The rewards that a user has been paid, each under the key of the pair of
/// the user and the reward. Records are keyed by `user`: the store that
/// holds them keeps at most one per user. Keys are only ever added.
#[derive(Clone, Debug, PartialEq, Eq)]
pub struct ClaimRecord {
    /// The user.
    pub user: Identity,
    /// The keys of the rewards paid, in the order in which they were paid.
    pub claimed_rewards: Vec<[u8; 32]>,
}

/// Claim records are kept by user; what a record holds for the user is the
/// list of the keys of the rewards paid.
impl Record for ClaimRecord {
    type Key = Identity;

    type Value = Seq<[u8; 32]>;

    open spec fn key(&self) -> Identity {
        self.user
    }

    open spec fn value(&self) -> Seq<[u8; 32]> {
        self.claimed_rewards@
    }

    fn has_key(&self, key: &Identity) -> (same: bool) {
        same_bytes(&self.user, key)
    }

    fn same_key(&self, other: &ClaimRecord) -> (same: bool) {
        same_bytes(&self.user, &other.user)
    }
}

impl ClaimRecord {
    /// No key occurs twice.
    pub open spec fn wf(&self) -> bool {
        self.claimed_rewards@.no_duplicates()
    }

    /// The set of the keys of the rewards paid.
    pub open spec fn claimed(&self) -> Set<[u8; 32]> {
        self.claimed_rewards@.to_set()
    }

    /// The record of a user who has claimed nothing yet.
    pub fn new(user: Identity) -> (record: ClaimRecord)
        ensures
            record.user == user,
            record.claimed_rewards@ == Seq::<[u8; 32]>::empty(),
            record.wf(),
    {
        ClaimRecord { user, claimed_rewards: Vec::new() }
    }

    /// A record of its own with the same user and the same keys.
    pub fn duplicate(&self) -> (copy: ClaimRecord)
        ensures
            copy.user == self.user,
            copy.claimed_rewards@ == self.claimed_rewards@,
    {
        let mut claimed_rewards: Vec<[u8; 32]> = Vec::new();
        let mut i: usize = 0;
        while i < self.claimed_rewards.len()
            invariant
                i <= self.claimed_rewards.len(),
                claimed_rewards@ == self.claimed_rewards@.take(i as int),
            decreases self.claimed_rewards.len() - i,
        {
            claimed_rewards.push(self.claimed_rewards[i]);
            i = i + 1;
        }
        ClaimRecord { user: self.user, claimed_rewards }
    }

    /// Whether the reward with this key has been paid.
    pub fn is_claimed(&self, user_reward_key: [u8; 32]) -> (claimed: bool)
        ensures
            claimed == self.claimed_rewards@.contains(user_reward_key),
            claimed == self.claimed().contains(user_reward_key),
    {
        contains_key(&self.claimed_rewards, &user_reward_key)
    }

    /// Remembers that the reward with this key has been paid. Marking a key
    /// that is already there changes nothing.
    pub fn mark_claimed(&mut self, user_reward_key: [u8; 32])
        ensures
            final(self).user == old(self).user,
            final(self).claimed_rewards@ == marked(old(self).claimed_rewards@, user_reward_key),
            final(self).claimed() == old(self).claimed().insert(user_reward_key),
            old(self).wf() ==> final(self).wf(),
    {
        proof {
            lemma_marked(self.claimed_rewards@, user_reward_key);
        }
        if !self.is_claimed(user_reward_key) {
            self.claimed_rewards.push(user_reward_key);
        }
    }

    /// Whether the user of this record has been paid the reward named
    /// `reward_id`.
    pub fn has_claimed(&self, reward_id: &str) -> (claimed: bool)
        ensures
            claimed == self.claimed_rewards@.contains(user_reward_key(self.user, reward_id@)),
    {
        let key = get_user_reward_key(&self.user, reward_id);
        self.is_claimed(key)
    }

    /// Remembers that the user of this record has been paid the reward named
    /// `reward_id`.
    pub fn mark_reward_claimed(&mut self, reward_id: &str)
        ensures
            final(self).user == old(self).user,
            final(self).claimed_rewards@ == marked(
                old(self).claimed_rewards@,
                user_reward_key(old(self).user, reward_id@),
            ),
            old(self).wf() ==> final(self).wf(),
    {
        let key = get_user_reward_key(&self.user, reward_id);
        self.mark_claimed(key)
    }
}

} // verus!
