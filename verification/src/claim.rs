//! Claims: paying a user the rewards of a signed bundle that the user has
//! not been paid before.

use vstd::prelude::*;
use vstd::seq_lib::{
    lemma_no_dup_in_concat, lemma_seq_concat_contains_all_elements, lemma_seq_contains_after_push,
    lemma_seq_take_contains,
};
use crate::authorization::{
    authorization_refusal, claim_message, ed25519_signature_valid, verify_signature,
};
use crate::balance::ProjectBalance;
use crate::claim_record::{contains_key, marked, ClaimRecord};
use crate::digest::{get_user_reward_key, user_reward_key};
use crate::errors::ErrorCode;
use crate::identity::Identity;
use crate::whitelist::Whitelist;

verus! {

/// The records that a claim reads and changes.
#[derive(Clone, Debug, PartialEq, Eq)]
pub struct ClaimByReward {
    /// The whitelist entry put forward for the signer.
    pub whitelist: Whitelist,
    /// The balance that pays: the project's, of the asset claimed.
    pub project_balance: ProjectBalance,
    /// The claiming user's record. Its `user` is who is paid.
    pub claim_record: ClaimRecord,
    /// Who is said to have signed the bundle.
    pub signer: Identity,
}

/// What a claim has settled: `total_amount` of `token_mint` is owed to `user`
/// for the rewards named in `reward_ids`, those of the bundle that had not
/// been paid before. The caller transfers the amount and reports the event.
#[derive(Clone, Debug, PartialEq, Eq)]
pub struct ClaimByRewardEvent {
    /// Who is paid.
    pub user: Identity,
    /// The asset.
    pub token_mint: Identity,
    /// The sum of the amounts of the rewards paid.
    pub total_amount: u64,
    /// The names of the rewards paid, in the order of the bundle.
    pub reward_ids: Vec<String>,
}

/// The keys of the rewards of a bundle, for `user`.
pub open spec fn claim_keys(user: Identity, reward_ids: Seq<String>) -> Seq<[u8; 32]> {
    Seq::new(reward_ids.len(), |i: int| user_reward_key(user, reward_ids[i]@))
}

/// Whether entry `i` of a bundle is paid: its key is not among those already
/// claimed, and occurs at no earlier place in the bundle.
pub open spec fn payable(claimed: Seq<[u8; 32]>, keys: Seq<[u8; 32]>, i: int) -> bool {
    !claimed.contains(keys[i]) && !keys.take(i).contains(keys[i])
}

/// The sum of the amounts of the entries among the first `n` of a bundle
/// that are paid.
pub open spec fn settled_total(
    claimed: Seq<[u8; 32]>,
    keys: Seq<[u8; 32]>,
    amounts: Seq<u64>,
    n: int,
) -> int
    decreases n,
{
    if n <= 0 {
        0
    } else if payable(claimed, keys, n - 1) {
        settled_total(claimed, keys, amounts, n - 1) + amounts[n - 1]
    } else {
        settled_total(claimed, keys, amounts, n - 1)
    }
}

/// The names of the entries among the first `n` of a bundle that are paid,
/// in the order of the bundle.
pub open spec fn processed_rewards(
    claimed: Seq<[u8; 32]>,
    keys: Seq<[u8; 32]>,
    reward_ids: Seq<String>,
    n: int,
) -> Seq<String>
    decreases n,
{
    if n <= 0 {
        Seq::empty()
    } else if payable(claimed, keys, n - 1) {
        processed_rewards(claimed, keys, reward_ids, n - 1).push(reward_ids[n - 1])
    } else {
        processed_rewards(claimed, keys, reward_ids, n - 1)
    }
}

/// The keys of the entries among the first `n` of a bundle that are paid, in
/// the order of the bundle.
pub open spec fn fresh_keys(claimed: Seq<[u8; 32]>, keys: Seq<[u8; 32]>, n: int) -> Seq<[u8; 32]>
    decreases n,
{
    if n <= 0 {
        Seq::empty()
    } else if payable(claimed, keys, n - 1) {
        fresh_keys(claimed, keys, n - 1).push(keys[n - 1])
    } else {
        fresh_keys(claimed, keys, n - 1)
    }
}

/// The claimed keys of a record after a bundle with these keys has been
/// settled: those from before, then the keys of the entries paid.
pub open spec fn claimed_after(claimed: Seq<[u8; 32]>, keys: Seq<[u8; 32]>) -> Seq<[u8; 32]> {
    claimed + fresh_keys(claimed, keys, keys.len() as int)
}

/// Why a bundle that is authorised is not settled, if it is not: it does
/// not have one key and one amount for each reward, the sum to pay does not
/// fit in 64 bits, or the balance does not cover it.
pub open spec fn settlement_refusal(
    balance: u64,
    claimed: Seq<[u8; 32]>,
    keys: Seq<[u8; 32]>,
    amounts: Seq<u64>,
    reward_ids: Seq<String>,
) -> Option<ErrorCode> {
    let total = settled_total(claimed, keys, amounts, keys.len() as int);
    if keys.len() != reward_ids.len() || amounts.len() != reward_ids.len() {
        Some(ErrorCode::ArrayLengthMismatch)
    } else if total > u64::MAX {
        Some(ErrorCode::ArithmeticOverflow)
    } else if total > balance {
        Some(ErrorCode::InsufficientBalance)
    } else {
        None
    }
}

/// What a settlement that is not refused reports: if the sum of the entries
/// paid is positive, the event says who is owed it and for which rewards; if
/// it is 0, there is no event.
pub open spec fn reported(
    user: Identity,
    token_mint: Identity,
    claimed: Seq<[u8; 32]>,
    keys: Seq<[u8; 32]>,
    amounts: Seq<u64>,
    reward_ids: Seq<String>,
    event: Option<ClaimByRewardEvent>,
) -> bool {
    let total = settled_total(claimed, keys, amounts, keys.len() as int);
    &&& total == 0 ==> event is None
    &&& total > 0 ==> event is Some && event->0.user == user && event->0.token_mint == token_mint
        && event->0.total_amount == total && event->0.reward_ids@ == processed_rewards(
        claimed,
        keys,
        reward_ids,
        keys.len() as int,
    )
}

/// What a settlement that is not refused does: the keys of the entries paid
/// are added to the user's record, the balance is debited by their sum, and
/// nothing else changes; the event is as `reported` says.
pub open spec fn settled(
    before: ClaimByReward,
    after: ClaimByReward,
    keys: Seq<[u8; 32]>,
    amounts: Seq<u64>,
    reward_ids: Seq<String>,
    event: Option<ClaimByRewardEvent>,
) -> bool {
    let claimed = before.claim_record.claimed_rewards@;
    &&& after.whitelist == before.whitelist
    &&& after.signer == before.signer
    &&& after.claim_record.user == before.claim_record.user
    &&& after.claim_record.claimed_rewards@ == claimed_after(claimed, keys)
    &&& after.project_balance.project == before.project_balance.project
    &&& after.project_balance.token_mint == before.project_balance.token_mint
    &&& after.project_balance.balance == before.project_balance.balance - settled_total(
        claimed,
        keys,
        amounts,
        keys.len() as int,
    )
    &&& reported(
        before.claim_record.user,
        before.project_balance.token_mint,
        claimed,
        keys,
        amounts,
        reward_ids,
        event,
    )
}

/// The sum to pay grows with the number of entries looked at, and is never
/// negative.
pub proof fn lemma_settled_total_grows(
    claimed: Seq<[u8; 32]>,
    keys: Seq<[u8; 32]>,
    amounts: Seq<u64>,
    i: int,
    n: int,
)
    requires
        0 <= i <= n,
    ensures
        0 <= settled_total(claimed, keys, amounts, i) <= settled_total(claimed, keys, amounts, n),
    decreases n,
{
    if n > 0 {
        if i < n {
            lemma_settled_total_grows(claimed, keys, amounts, i, n - 1);
        } else {
            lemma_settled_total_grows(claimed, keys, amounts, i - 1, n - 1);
        }
    }
}

/// The keys paid among the first `n` of a bundle are those of its first `n`
/// keys that had not been claimed; none of them occurs twice.
pub proof fn lemma_fresh_keys(claimed: Seq<[u8; 32]>, keys: Seq<[u8; 32]>, n: int)
    requires
        0 <= n <= keys.len(),
    ensures
        forall|key: [u8; 32]| #[trigger]
            fresh_keys(claimed, keys, n).contains(key) <==> (keys.take(n).contains(key)
                && !claimed.contains(key)),
        fresh_keys(claimed, keys, n).no_duplicates(),
    decreases n,
{
    if n > 0 {
        lemma_fresh_keys(claimed, keys, n - 1);
        let earlier = fresh_keys(claimed, keys, n - 1);
        let now = fresh_keys(claimed, keys, n);
        let last = keys[n - 1];
        assert forall|key: [u8; 32]| #[trigger]
            now.contains(key) <==> (keys.take(n).contains(key) && !claimed.contains(key)) by {
            lemma_seq_take_contains(keys, n, key);
            lemma_seq_take_contains(keys, n - 1, key);
            lemma_seq_contains_after_push(earlier, last, key);
            assert(earlier.contains(key) <==> (keys.take(n - 1).contains(key) && !claimed.contains(
                key,
            )));
        }
        if payable(claimed, keys, n - 1) {
            assert(!earlier.contains(last));
        }
    }
}

/// A settlement adds the keys of its bundle to the claimed keys and nothing
/// else, and keeps a record without repetition free of it.
pub proof fn lemma_claimed_after(claimed: Seq<[u8; 32]>, keys: Seq<[u8; 32]>)
    ensures
        forall|key: [u8; 32]| #[trigger]
            claimed_after(claimed, keys).contains(key) <==> (claimed.contains(key) || keys.contains(
                key,
            )),
        claimed.no_duplicates() ==> claimed_after(claimed, keys).no_duplicates(),
{
    let n = keys.len() as int;
    let fresh = fresh_keys(claimed, keys, n);
    lemma_fresh_keys(claimed, keys, n);
    assert(keys.take(n) =~= keys);
    assert forall|key: [u8; 32]| #[trigger]
        claimed_after(claimed, keys).contains(key) <==> (claimed.contains(key) || keys.contains(
            key,
        )) by {
        lemma_seq_concat_contains_all_elements(claimed, fresh, key);
    }
    if claimed.no_duplicates() {
        assert forall|i: int, j: int|
            0 <= i < claimed.len() && 0 <= j < fresh.len() implies claimed[i] != fresh[j] by {
            assert(fresh.contains(fresh[j]));
            assert(claimed.contains(claimed[i]));
        }
        lemma_no_dup_in_concat(claimed, fresh);
    }
}

/// The claimed keys after each of the first `n` keys of a bundle has been
/// marked, one after the other.
pub open spec fn marked_in_turn(claimed: Seq<[u8; 32]>, keys: Seq<[u8; 32]>, n: int) -> Seq<
    [u8; 32],
>
    decreases n,
{
    if n <= 0 {
        claimed
    } else {
        marked(marked_in_turn(claimed, keys, n - 1), keys[n - 1])
    }
}

/// A settlement leaves the claimed keys as marking each key of the bundle in
/// turn does, and pays an entry exactly if its key was not marked when its
/// turn came.
pub proof fn lemma_settlement_marks_in_turn(claimed: Seq<[u8; 32]>, keys: Seq<[u8; 32]>, n: int)
    requires
        0 <= n <= keys.len(),
    ensures
        claimed + fresh_keys(claimed, keys, n) == marked_in_turn(claimed, keys, n),
        n < keys.len() ==> (payable(claimed, keys, n) <==> !marked_in_turn(
            claimed,
            keys,
            n,
        ).contains(keys[n])),
    decreases n,
{
    let fresh = fresh_keys(claimed, keys, n);
    if n > 0 {
        lemma_settlement_marks_in_turn(claimed, keys, n - 1);
        assert(claimed + fresh =~= marked_in_turn(claimed, keys, n));
    } else {
        assert(claimed + fresh =~= claimed);
    }
    if n < keys.len() {
        lemma_fresh_keys(claimed, keys, n);
        lemma_seq_concat_contains_all_elements(claimed, fresh, keys[n]);
    }
}

/// A bundle all of whose keys have been claimed pays nothing: its sum is 0,
/// and it names no reward and adds no key.
pub proof fn lemma_claimed_rewards_pay_nothing(
    claimed: Seq<[u8; 32]>,
    keys: Seq<[u8; 32]>,
    amounts: Seq<u64>,
    reward_ids: Seq<String>,
    n: int,
)
    requires
        0 <= n <= keys.len(),
        forall|i: int| 0 <= i < n ==> claimed.contains(#[trigger] keys[i]),
    ensures
        settled_total(claimed, keys, amounts, n) == 0,
        processed_rewards(claimed, keys, reward_ids, n) == Seq::<String>::empty(),
        fresh_keys(claimed, keys, n) == Seq::<[u8; 32]>::empty(),
    decreases n,
{
    if n > 0 {
        lemma_claimed_rewards_pay_nothing(claimed, keys, amounts, reward_ids, n - 1);
        assert(claimed.contains(keys[n - 1]));
    }
}

/// No reward is paid twice: once a bundle has been settled, a second claim
/// of the same rewards, whatever its amounts, settles a sum of 0, names no
/// reward, reports no event, so that nothing is transferred, and leaves the
/// record as it is.
pub proof fn lemma_second_claim_pays_nothing(
    user: Identity,
    token_mint: Identity,
    claimed: Seq<[u8; 32]>,
    keys: Seq<[u8; 32]>,
    amounts: Seq<u64>,
    reward_ids: Seq<String>,
    event: Option<ClaimByRewardEvent>,
)
    ensures
        settled_total(claimed_after(claimed, keys), keys, amounts, keys.len() as int) == 0,
        processed_rewards(claimed_after(claimed, keys), keys, reward_ids, keys.len() as int)
            == Seq::<String>::empty(),
        claimed_after(claimed_after(claimed, keys), keys) == claimed_after(claimed, keys),
        reported(
            user,
            token_mint,
            claimed_after(claimed, keys),
            keys,
            amounts,
            reward_ids,
            event,
        ) ==> event is None,
{
    let once = claimed_after(claimed, keys);
    lemma_claimed_after(claimed, keys);
    assert forall|i: int| 0 <= i < keys.len() implies once.contains(#[trigger] keys[i]) by {
        assert(keys.contains(keys[i]));
    }
    lemma_claimed_rewards_pay_nothing(once, keys, amounts, reward_ids, keys.len() as int);
    assert(claimed_after(once, keys) =~= once);
}

/// Why the claim of `user` on a balance is refused, if it is, given whether
/// the whitelist vouches for `signer`, what the balance holds and which keys
/// the user's record holds. The checks are made in this order: the bundle is
/// authorised; its settlement is not refused.
pub open spec fn claim_refusal(
    signer_allowed: bool,
    signer: Identity,
    user: Identity,
    balance: u64,
    claimed: Seq<[u8; 32]>,
    amounts: Seq<u64>,
    reward_ids: Seq<String>,
    signature: Seq<u8>,
    timestamp: i64,
    now: i64,
) -> Option<ErrorCode> {
    let authorization = authorization_refusal(
        signer_allowed,
        amounts,
        reward_ids,
        timestamp,
        now,
        ed25519_signature_valid(signer, claim_message(amounts, reward_ids, timestamp), signature),
    );
    if authorization is Some {
        authorization
    } else {
        settlement_refusal(balance, claimed, claim_keys(user, reward_ids), amounts, reward_ids)
    }
}

/// Settles a bundle whose rewards have the keys `keys`: entry `i` has the
/// key `keys[i]`, the amount `amounts[i]` and the name `reward_ids[i]`. Every
/// entry whose key the record does not hold yet, and which is the first of
/// its key in the bundle, is paid. A refused settlement changes nothing.
pub fn settle_claims(
    ctx: &mut ClaimByReward,
    keys: &Vec<[u8; 32]>,
    amounts: &Vec<u64>,
    reward_ids: &Vec<String>,
) -> (result: Result<Option<ClaimByRewardEvent>, ErrorCode>)
    ensures
        old(ctx).claim_record.wf() ==> final(ctx).claim_record.wf(),
        match settlement_refusal(
            old(ctx).project_balance.balance,
            old(ctx).claim_record.claimed_rewards@,
            keys@,
            amounts@,
            reward_ids@,
        ) {
            Some(e) => result == Err::<Option<ClaimByRewardEvent>, ErrorCode>(e) && *final(ctx)
                == *old(ctx),
            None => result is Ok && settled(
                *old(ctx),
                *final(ctx),
                keys@,
                amounts@,
                reward_ids@,
                result->Ok_0,
            ),
        },
{
    if keys.len() != reward_ids.len() || amounts.len() != reward_ids.len() {
        return Err(ErrorCode::ArrayLengthMismatch);
    }
    let ghost claimed = ctx.claim_record.claimed_rewards@;
    let n = keys.len();
    let mut total: u64 = 0;
    let mut fresh: Vec<[u8; 32]> = Vec::new();
    let mut processed: Vec<String> = Vec::new();
    let mut i: usize = 0;
    while i < n
        invariant
            i <= n,
            n == keys.len(),
            n == amounts.len(),
            n == reward_ids.len(),
            *ctx == *old(ctx),
            claimed == ctx.claim_record.claimed_rewards@,
            total == settled_total(claimed, keys@, amounts@, i as int),
            fresh@ == fresh_keys(claimed, keys@, i as int),
            processed@ == processed_rewards(claimed, keys@, reward_ids@, i as int),
        decreases n - i,
    {
        let key = keys[i];
        proof {
            lemma_fresh_keys(claimed, keys@, i as int);
            assert(fresh@.contains(key) <==> (keys@.take(i as int).contains(key)
                && !claimed.contains(key)));
        }
        if !ctx.claim_record.is_claimed(key) && !contains_key(&fresh, &key) {
            assert(payable(claimed, keys@, i as int));
            match total.checked_add(amounts[i]) {
                Some(sum) => {
                    total = sum;
                },
                None => {
                    proof {
                        lemma_settled_total_grows(claimed, keys@, amounts@, i + 1, n as int);
                    }
                    return Err(ErrorCode::ArithmeticOverflow);
                },
            }
            fresh.push(key);
            processed.push(reward_ids[i].clone());
        } else {
            assert(!payable(claimed, keys@, i as int));
        }
        i = i + 1;
    }
    if total > ctx.project_balance.balance {
        return Err(ErrorCode::InsufficientBalance);
    }
    proof {
        lemma_claimed_after(claimed, keys@);
    }
    ctx.claim_record.claimed_rewards.append(&mut fresh);
    if total > 0 {
        ctx.project_balance.balance = ctx.project_balance.balance - total;
        Ok(
            Some(
                ClaimByRewardEvent {
                    user: ctx.claim_record.user,
                    token_mint: ctx.project_balance.token_mint,
                    total_amount: total,
                    reward_ids: processed,
                },
            ),
        )
    } else {
        Ok(None)
    }
}

/// The keys of the rewards named in `reward_ids`, for `user`.
pub fn compute_claim_keys(user: &Identity, reward_ids: &Vec<String>) -> (keys: Vec<[u8; 32]>)
    ensures
        keys@ == claim_keys(*user, reward_ids@),
{
    let mut keys: Vec<[u8; 32]> = Vec::new();
    let mut i: usize = 0;
    while i < reward_ids.len()
        invariant
            i <= reward_ids.len(),
            keys@ == claim_keys(*user, reward_ids@).take(i as int),
        decreases reward_ids.len() - i,
    {
        keys.push(get_user_reward_key(user, reward_ids[i].as_str()));
        i = i + 1;
    }
    keys
}

/// Pays the user of `ctx.claim_record` the rewards of a bundle that the user
/// has not been paid before. The bundle is `amounts` and `reward_ids`, entry
/// by entry, issued at `timestamp` and signed with `signature`; `now` is the
/// current time, in seconds like `timestamp`.
///
/// A bundle all of whose rewards have been paid is accepted and pays
/// nothing. A refused claim changes nothing.
pub fn claim_by_reward(
    ctx: &mut ClaimByReward,
    amounts: Vec<u64>,
    reward_ids: Vec<String>,
    signature: Vec<u8>,
    timestamp: i64,
    now: i64,
) -> (result: Result<Option<ClaimByRewardEvent>, ErrorCode>)
    ensures
        old(ctx).claim_record.wf() ==> final(ctx).claim_record.wf(),
        match claim_refusal(
            old(ctx).whitelist.allows(old(ctx).signer),
            old(ctx).signer,
            old(ctx).claim_record.user,
            old(ctx).project_balance.balance,
            old(ctx).claim_record.claimed_rewards@,
            amounts@,
            reward_ids@,
            signature@,
            timestamp,
            now,
        ) {
            Some(e) => result == Err::<Option<ClaimByRewardEvent>, ErrorCode>(e) && *final(ctx)
                == *old(ctx),
            None => result is Ok && settled(
                *old(ctx),
                *final(ctx),
                claim_keys(old(ctx).claim_record.user, reward_ids@),
                amounts@,
                reward_ids@,
                result->Ok_0,
            ),
        },
{
    match verify_signature(
        &ctx.whitelist,
        &ctx.signer,
        &amounts,
        &reward_ids,
        &signature,
        timestamp,
        now,
    ) {
        Ok(()) => {},
        Err(e) => {
            return Err(e);
        },
    }
    let keys = compute_claim_keys(&ctx.claim_record.user, &reward_ids);
    settle_claims(ctx, &keys, &amounts, &reward_ids)
}

} // verus!
