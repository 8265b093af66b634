//! Whether a claim bundle is authorised: issued within the validity window,
//! by a signer that the whitelist vouches for, and signed by that signer.

use ed25519_dalek::{Signature, VerifyingKey};
use vstd::bytes::{spec_u64_to_le_bytes, u64_to_le_bytes};
use vstd::prelude::*;
use vstd::utf8::encode_utf8;
use crate::errors::ErrorCode;
use crate::identity::Identity;
use crate::whitelist::Whitelist;

verus! {

/// For how many seconds after it was issued a bundle is accepted.
pub const VALIDITY_WINDOW: i64 = 3600;

/// The amounts of a bundle as bytes: each as 8 bytes, little end first, in
/// the order of the list.
pub open spec fn encode_amounts(amounts: Seq<u64>) -> Seq<u8>
    decreases amounts.len(),
{
    if amounts.len() == 0 {
        Seq::empty()
    } else {
        encode_amounts(amounts.drop_last()) + spec_u64_to_le_bytes(amounts.last())
    }
}

/// One reward name as bytes: the number of its UTF-8 bytes, as 8 bytes,
/// little end first, then those bytes.
pub open spec fn encode_reward_id(reward_id: Seq<char>) -> Seq<u8> {
    spec_u64_to_le_bytes(encode_utf8(reward_id).len() as u64) + encode_utf8(reward_id)
}

/// The reward names of a bundle as bytes: each as `encode_reward_id` gives
/// it, in the order of the list.
pub open spec fn encode_reward_ids(reward_ids: Seq<String>) -> Seq<u8>
    decreases reward_ids.len(),
{
    if reward_ids.len() == 0 {
        Seq::empty()
    } else {
        encode_reward_ids(reward_ids.drop_last()) + encode_reward_id(reward_ids.last()@)
    }
}

/// The bytes that the signer of a bundle signs: the number of amounts and
/// the amounts, the number of reward names and the names, and the time of
/// issue, every number as 8 bytes, little end first.
pub open spec fn claim_message(amounts: Seq<u64>, reward_ids: Seq<String>, timestamp: i64) -> Seq<
    u8,
> {
    spec_u64_to_le_bytes(amounts.len() as u64) + encode_amounts(amounts) + spec_u64_to_le_bytes(
        reward_ids.len() as u64,
    ) + encode_reward_ids(reward_ids) + spec_u64_to_le_bytes(timestamp as u64)
}

/// Whether `signature` is a valid Ed25519 signature of `message` under the
/// public key `signer`, by the strict rules: the key and the signature decode,
/// neither the key nor the signature's point is of small order, and the
/// verification equation holds.
pub uninterp spec fn ed25519_signature_valid(
    signer: Identity,
    message: Seq<u8>,
    signature: Seq<u8>,
) -> bool;

/// Checks an Ed25519 signature.
///
/// Trusted: the body decodes the key with `ed25519_dalek::VerifyingKey::from_bytes`
/// and the signature with `ed25519_dalek::Signature::from_slice`, and asks
/// `VerifyingKey::verify_strict` whether the signature belongs to the message.
/// None of the three panics; a key or a signature that does not decode, and a
/// signature that `verify_strict` rejects, give `false`. The answer depends on
/// the three byte strings alone, which is what the contract claims.
#[verifier::external_body]
fn ed25519_verify(signer: &Identity, message: &[u8], signature: &[u8]) -> (valid: bool)
    ensures
        valid == ed25519_signature_valid(*signer, message@, signature@),
{
    match (VerifyingKey::from_bytes(signer), Signature::from_slice(signature)) {
        (Ok(key), Ok(parsed)) => key.verify_strict(message, &parsed).is_ok(),
        _ => false,
    }
}

/// Appends `bytes` to `out`.
fn push_bytes(out: &mut Vec<u8>, bytes: &[u8])
    ensures
        final(out)@ == old(out)@ + bytes@,
{
    let mut i: usize = 0;
    while i < bytes.len()
        invariant
            i <= bytes.len(),
            out@ == old(out)@ + bytes@.take(i as int),
        decreases bytes.len() - i,
    {
        out.push(bytes[i]);
        i = i + 1;
        assert(out@ =~= old(out)@ + bytes@.take(i as int));
    }
    assert(bytes@.take(i as int) =~= bytes@);
}

/// Appends `value` to `out`, as 8 bytes, little end first.
fn push_u64(out: &mut Vec<u8>, value: u64)
    ensures
        final(out)@ == old(out)@ + spec_u64_to_le_bytes(value),
{
    let bytes = u64_to_le_bytes(value);
    push_bytes(out, bytes.as_slice());
}

/// The bytes that the signer of a bundle signs.
pub fn encode_claim(amounts: &Vec<u64>, reward_ids: &Vec<String>, timestamp: i64) -> (message:
    Vec<u8>)
    ensures
        message@ == claim_message(amounts@, reward_ids@, timestamp),
{
    let mut message: Vec<u8> = Vec::new();
    push_u64(&mut message, amounts.len() as u64);
    let ghost head = message@;
    let mut i: usize = 0;
    while i < amounts.len()
        invariant
            i <= amounts.len(),
            message@ == head + encode_amounts(amounts@.take(i as int)),
        decreases amounts.len() - i,
    {
        push_u64(&mut message, amounts[i]);
        proof {
            assert(amounts@.take(i + 1).drop_last() =~= amounts@.take(i as int));
            assert(message@ =~= head + encode_amounts(amounts@.take(i + 1)));
        }
        i = i + 1;
    }
    assert(amounts@.take(i as int) =~= amounts@);
    push_u64(&mut message, reward_ids.len() as u64);
    let ghost middle = message@;
    let mut j: usize = 0;
    while j < reward_ids.len()
        invariant
            j <= reward_ids.len(),
            message@ == middle + encode_reward_ids(reward_ids@.take(j as int)),
        decreases reward_ids.len() - j,
    {
        let bytes = reward_ids[j].as_str().as_bytes();
        push_u64(&mut message, bytes.len() as u64);
        push_bytes(&mut message, bytes);
        proof {
            assert(reward_ids@.take(j + 1).drop_last() =~= reward_ids@.take(j as int));
            assert(message@ =~= middle + encode_reward_ids(reward_ids@.take(j + 1)));
        }
        j = j + 1;
    }
    assert(reward_ids@.take(j as int) =~= reward_ids@);
    push_u64(&mut message, timestamp as u64);
    assert(message@ =~= claim_message(amounts@, reward_ids@, timestamp));
    message
}

/// A bundle issued at `timestamp` is still accepted at `now`: no more than
/// the validity window has passed. A bundle dated after `now` is accepted.
pub open spec fn within_validity_window(timestamp: i64, now: i64) -> bool {
    now <= timestamp + VALIDITY_WINDOW
}

/// Why a bundle of `amounts` and `reward_ids` cannot be a claim, if it
/// cannot: the two lists differ in length, or they are empty.
pub open spec fn shape_refusal(amounts: Seq<u64>, reward_ids: Seq<String>) -> Option<ErrorCode> {
    if amounts.len() != reward_ids.len() {
        Some(ErrorCode::ArrayLengthMismatch)
    } else if reward_ids.len() == 0 {
        Some(ErrorCode::EmptyParams)
    } else {
        None
    }
}

/// Why a bundle is not authorised, if it is not, given whether the whitelist
/// vouches for its signer and whether its signature is valid. The checks are
/// made in this order: the two lists pair up and are not empty; the bundle is
/// within its validity window; the whitelist vouches for the signer; the
/// signature is valid.
pub open spec fn authorization_refusal(
    signer_allowed: bool,
    amounts: Seq<u64>,
    reward_ids: Seq<String>,
    timestamp: i64,
    now: i64,
    signature_valid: bool,
) -> Option<ErrorCode> {
    if shape_refusal(amounts, reward_ids) is Some {
        shape_refusal(amounts, reward_ids)
    } else if !within_validity_window(timestamp, now) {
        Some(ErrorCode::SignatureExpired)
    } else if !signer_allowed {
        Some(ErrorCode::SignerNotInWhitelist)
    } else if !signature_valid {
        Some(ErrorCode::InvalidSignature)
    } else {
        None
    }
}

/// A bundle issued more than the validity window before `now` is refused as
/// expired, whoever signed it and whatever its signature.
pub proof fn lemma_expired_bundle_is_refused(
    signer_allowed: bool,
    amounts: Seq<u64>,
    reward_ids: Seq<String>,
    timestamp: i64,
    now: i64,
    signature_valid: bool,
)
    requires
        shape_refusal(amounts, reward_ids) is None,
        timestamp < now - VALIDITY_WINDOW,
    ensures
        authorization_refusal(signer_allowed, amounts, reward_ids, timestamp, now, signature_valid)
            == Some(ErrorCode::SignatureExpired),
{
}

/// A bundle within its validity window whose signer the whitelist entry does
/// not vouch for, because the entry is another signer's or is disabled, is
/// refused for that, whether or not its signature is valid.
pub proof fn lemma_unlisted_signer_is_refused(
    whitelist: Whitelist,
    signer: Identity,
    amounts: Seq<u64>,
    reward_ids: Seq<String>,
    timestamp: i64,
    now: i64,
    signature_valid: bool,
)
    requires
        shape_refusal(amounts, reward_ids) is None,
        within_validity_window(timestamp, now),
        whitelist.signer != signer || !whitelist.is_whitelisted,
    ensures
        authorization_refusal(
            whitelist.allows(signer),
            amounts,
            reward_ids,
            timestamp,
            now,
            signature_valid,
        ) == Some(ErrorCode::SignerNotInWhitelist),
{
}

/// Checks that the two lists of a bundle pair up and are not empty.
pub fn check_shape(amounts: &Vec<u64>, reward_ids: &Vec<String>) -> (result: Result<(), ErrorCode>)
    ensures
        match shape_refusal(amounts@, reward_ids@) {
            Some(e) => result == Err::<(), ErrorCode>(e),
            None => result == Ok::<(), ErrorCode>(()),
        },
{
    if amounts.len() != reward_ids.len() {
        return Err(ErrorCode::ArrayLengthMismatch);
    }
    if reward_ids.len() == 0 {
        return Err(ErrorCode::EmptyParams);
    }
    Ok(())
}

/// Decides whether a bundle is authorised, given whether its signature is
/// valid.
pub fn check_authorization(
    whitelist: &Whitelist,
    signer: &Identity,
    amounts: &Vec<u64>,
    reward_ids: &Vec<String>,
    timestamp: i64,
    now: i64,
    signature_valid: bool,
) -> (result: Result<(), ErrorCode>)
    ensures
        match authorization_refusal(
            whitelist.allows(*signer),
            amounts@,
            reward_ids@,
            timestamp,
            now,
            signature_valid,
        ) {
            Some(e) => result == Err::<(), ErrorCode>(e),
            None => result == Ok::<(), ErrorCode>(()),
        },
{
    match check_shape(amounts, reward_ids) {
        Ok(()) => {},
        Err(e) => {
            return Err(e);
        },
    }
    let expired = match timestamp.checked_add(VALIDITY_WINDOW) {
        Some(last_valid) => now > last_valid,
        None => false,
    };
    if expired {
        return Err(ErrorCode::SignatureExpired);
    }
    if !whitelist.permits(signer) {
        return Err(ErrorCode::SignerNotInWhitelist);
    }
    if !signature_valid {
        return Err(ErrorCode::InvalidSignature);
    }
    Ok(())
}

/// Decides whether the bundle of `amounts`, `reward_ids` and `timestamp`,
/// with `signature`, is authorised at the time `now`: well formed, issued no
/// more than the validity window ago, by a `signer` that `whitelist` vouches
/// for, and signed by that signer over `claim_message`. The signature is
/// looked at only when the other checks have passed.
pub fn verify_signature(
    whitelist: &Whitelist,
    signer: &Identity,
    amounts: &Vec<u64>,
    reward_ids: &Vec<String>,
    signature: &Vec<u8>,
    timestamp: i64,
    now: i64,
) -> (result: Result<(), ErrorCode>)
    ensures
        match authorization_refusal(
            whitelist.allows(*signer),
            amounts@,
            reward_ids@,
            timestamp,
            now,
            ed25519_signature_valid(
                *signer,
                claim_message(amounts@, reward_ids@, timestamp),
                signature@,
            ),
        ) {
            Some(e) => result == Err::<(), ErrorCode>(e),
            None => result == Ok::<(), ErrorCode>(()),
        },
{
    match check_authorization(whitelist, signer, amounts, reward_ids, timestamp, now, true) {
        Ok(()) => {},
        Err(e) => {
            return Err(e);
        },
    }
    let message = encode_claim(amounts, reward_ids, timestamp);
    let signature_valid = ed25519_verify(signer, message.as_slice(), signature.as_slice());
    check_authorization(whitelist, signer, amounts, reward_ids, timestamp, now, signature_valid)
}

} // verus!
