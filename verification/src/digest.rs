//! The key under which a reward paid to a user is remembered.

#[allow(deprecated)]
use anchor_lang::solana_program::keccak::Hasher;
use vstd::prelude::*;
use vstd::utf8::encode_utf8;
use crate::identity::Identity;

verus! {

/// The Keccak-256 digest of `data`: 32 bytes.
pub uninterp spec fn keccak256(data: Seq<u8>) -> [u8; 32];

/// The Keccak-256 digest of `first` followed by `second`.
///
/// Trusted: the body feeds the two slices, in this order, to a fresh
/// `anchor_lang::solana_program::keccak::Hasher` (`Hasher::default`, then
/// `Hasher::hash` twice, then `Hasher::result`) and returns the bytes of the
/// resulting `Hash` (`Hash::to_bytes`). The hasher absorbs what it is given
/// as one stream, so the digest is that of the two slices joined; that it is
/// the function `keccak256` of those bytes and of nothing else is what the
/// contract claims.
#[verifier::external_body]
fn keccak_of_pair(first: &[u8; 32], second: &[u8]) -> (digest: [u8; 32])
    ensures
        digest == keccak256(first@ + second@),
{
    let mut hasher = Hasher::default();
    hasher.hash(first);
    hasher.hash(second);
    hasher.result().to_bytes()
}

/// The key of the pair of `user` and the reward named `reward_id`: the digest
/// of the user's 32 bytes followed by the name's UTF-8 bytes.
pub open spec fn user_reward_key(user: Identity, reward_id: Seq<char>) -> [u8; 32] {
    keccak256(user@ + encode_utf8(reward_id))
}

/// Computes the key of the pair of `user` and the reward named `reward_id`.
pub fn get_user_reward_key(user: &Identity, reward_id: &str) -> (key: [u8; 32])
    ensures
        key == user_reward_key(*user, reward_id@),
{
    keccak_of_pair(user, reward_id.as_bytes())
}

} // verus!
