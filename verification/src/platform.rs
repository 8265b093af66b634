//! The platform as a whole: its configuration, its whitelist, the balances of
//! its projects and the claim records of its users, each kept under its key,
//! and the operations on them.

use vstd::prelude::*;
use crate::balance::{
    batch_orders, batch_refusal, fee_of, net_of, sum_of, LedgerOp, ProjectBalance, TransferRequest,
};
use crate::claim::{
    claim_by_reward, claim_keys, claim_refusal, claimed_after, reported, settled_total,
    ClaimByReward, ClaimByRewardEvent,
};
use crate::claim_record::{marked, ClaimRecord};
use crate::config::{PlatformConfig, MAX_FEE_RATIO};
use crate::digest::user_reward_key;
use crate::errors::ErrorCode;
use crate::identity::Identity;
use crate::store::Store;
use crate::whitelist::{add_to_whitelist, remove_from_whitelist, Whitelist};

verus! {

/// A platform: one configuration, and at most one whitelist entry for each
/// signer, one balance for each pair of project and asset, and one claim
/// record for each user.
pub struct Platform {
    config: PlatformConfig,
    whitelist: Store<Whitelist>,
    balances: Store<ProjectBalance>,
    claim_records: Store<ClaimRecord>,
}

/// The balances after `amount` has been taken from the one under `key`: a
/// pair without a balance holds nothing, and gets no record by it.
pub open spec fn debited_balances(
    balances: Map<(Identity, Identity), u64>,
    key: (Identity, Identity),
    amount: int,
) -> Map<(Identity, Identity), u64> {
    if balances.dom().contains(key) {
        balances.insert(key, (balances[key] - amount) as u64)
    } else {
        balances
    }
}

impl Platform {
    /// The fee ratio is at most the whole, the stores keep their records
    /// apart by key, and no claim record holds a key twice. Every platform
    /// that `initialize` makes is such, and the operations keep it so.
    pub closed spec fn wf(&self) -> bool {
        &&& self.config.wf()
        &&& self.whitelist.wf()
        &&& self.balances.wf()
        &&& self.claim_records.wf()
        &&& forall|user: Identity| #[trigger]
            self.claim_records@.dom().contains(user) ==> self.claim_records@[user].no_duplicates()
    }

    /// The configuration.
    pub closed spec fn config(&self) -> PlatformConfig {
        self.config
    }

    /// Whether each signer that has a whitelist entry is enabled.
    pub closed spec fn signers(&self) -> Map<Identity, bool> {
        self.whitelist@
    }

    /// What each pair of project and asset that has a balance holds.
    pub closed spec fn balances(&self) -> Map<(Identity, Identity), u64> {
        self.balances@
    }

    /// The keys of the rewards paid to each user that has a claim record.
    pub closed spec fn claims(&self) -> Map<Identity, Seq<[u8; 32]>> {
        self.claim_records@
    }

    /// Whether the whitelist vouches for `signer`: it has an entry, and the
    /// entry is enabled.
    pub open spec fn enabled(&self, signer: Identity) -> bool {
        self.signers().dom().contains(signer) && self.signers()[signer]
    }

    /// What `project` holds of `asset`: nothing, if it has never deposited
    /// it.
    pub open spec fn balance_of(&self, project: Identity, asset: Identity) -> u64 {
        if self.balances().dom().contains((project, asset)) {
            self.balances()[(project, asset)]
        } else {
            0
        }
    }

    /// The keys of the rewards paid to `user`: none, if the user has never
    /// claimed.
    pub open spec fn claimed_by(&self, user: Identity) -> Seq<[u8; 32]> {
        if self.claims().dom().contains(user) {
            self.claims()[user]
        } else {
            Seq::empty()
        }
    }

    /// A well-formed platform charges at most the whole deposit, and holds
    /// no reward key twice for a user.
    pub proof fn lemma_wf(&self)
        requires
            self.wf(),
        ensures
            self.config().wf(),
            forall|user: Identity| #[trigger] self.claimed_by(user).no_duplicates(),
    {
        assert forall|user: Identity| #[trigger] self.claimed_by(user).no_duplicates() by {
            if self.claims().dom().contains(user) {
                assert(self.claim_records@.dom().contains(user));
            }
        }
    }

    /// Creates the platform: it belongs to `authority`, takes no fee, and
    /// has no whitelist entry, no balance and no claim record yet.
    pub fn initialize(authority: Identity) -> (platform: Platform)
        ensures
            platform.wf(),
            platform.config() == (PlatformConfig { authority, platform_fee_ratio: 0 }),
            platform.signers() == Map::<Identity, bool>::empty(),
            platform.balances() == Map::<(Identity, Identity), u64>::empty(),
            platform.claims() == Map::<Identity, Seq<[u8; 32]>>::empty(),
    {
        Platform {
            config: PlatformConfig::initialize(authority),
            whitelist: Store::new(),
            balances: Store::new(),
            claim_records: Store::new(),
        }
    }

    /// The identity that may change the fee and the whitelist.
    pub fn authority(&self) -> (authority: Identity)
        ensures
            authority == self.config().authority,
    {
        self.config.authority
    }

    /// The fee on deposits, in basis points.
    pub fn fee_ratio(&self) -> (fee_ratio: u16)
        requires
            self.wf(),
        ensures
            fee_ratio == self.config().platform_fee_ratio,
            fee_ratio <= MAX_FEE_RATIO,
    {
        self.config.platform_fee_ratio
    }

    /// Sets the fee ratio. `caller` is the identity on whose behalf the change
    /// is made, and must be the authority. A ratio above `MAX_FEE_RATIO` is
    /// refused and changes nothing.
    pub fn update_platform_fee(&mut self, caller: &Identity, fee_ratio: u16) -> (result: Result<
        (),
        ErrorCode,
    >)
        requires
            old(self).wf(),
            *caller == old(self).config().authority,
        ensures
            final(self).wf(),
            final(self).signers() == old(self).signers(),
            final(self).balances() == old(self).balances(),
            final(self).claims() == old(self).claims(),
            fee_ratio > MAX_FEE_RATIO ==> {
                &&& result == Err::<(), ErrorCode>(ErrorCode::InvalidFeeRatio)
                &&& final(self).config() == old(self).config()
            },
            fee_ratio <= MAX_FEE_RATIO ==> {
                &&& result == Ok::<(), ErrorCode>(())
                &&& final(self).config() == (PlatformConfig {
                    authority: old(self).config().authority,
                    platform_fee_ratio: fee_ratio,
                })
            },
    {
        self.config.update_platform_fee(caller, fee_ratio)
    }

    /// Enables `signer`: bundles that it signs are accepted from now on.
    /// `caller` is the identity on whose behalf the change is made, and must
    /// be the authority.
    pub fn add_to_whitelist(&mut self, caller: &Identity, signer: Identity)
        requires
            old(self).wf(),
            *caller == old(self).config().authority,
        ensures
            final(self).wf(),
            final(self).config() == old(self).config(),
            final(self).signers() == old(self).signers().insert(signer, true),
            final(self).balances() == old(self).balances(),
            final(self).claims() == old(self).claims(),
    {
        let entry = add_to_whitelist(&self.config, caller, signer);
        self.whitelist.put(entry);
    }

    /// Disables `signer`: bundles that it signs are refused from now on.
    /// `caller` is the identity on whose behalf the change is made, and must
    /// be the authority.
    pub fn remove_from_whitelist(&mut self, caller: &Identity, signer: Identity)
        requires
            old(self).wf(),
            *caller == old(self).config().authority,
        ensures
            final(self).wf(),
            final(self).config() == old(self).config(),
            final(self).signers() == old(self).signers().insert(signer, false),
            final(self).balances() == old(self).balances(),
            final(self).claims() == old(self).claims(),
    {
        let entry = remove_from_whitelist(&self.config, caller, signer);
        self.whitelist.put(entry);
    }

    /// Whether the whitelist vouches for `signer`.
    pub fn is_whitelisted(&self, signer: &Identity) -> (enabled: bool)
        requires
            self.wf(),
        ensures
            enabled == self.enabled(*signer),
    {
        match self.whitelist.get(signer) {
            Some(entry) => entry.is_whitelisted,
            None => false,
        }
    }

    /// The balance of `project` in `asset` as a record: the one kept, or an
    /// empty one; and whether one is kept.
    fn balance_record(&self, project: &Identity, asset: &Identity) -> (found: (
        ProjectBalance,
        bool,
    ))
        requires
            self.wf(),
        ensures
            found.0.project == *project,
            found.0.token_mint == *asset,
            found.0.balance == self.balance_of(*project, *asset),
            found.1 == self.balances().dom().contains((*project, *asset)),
    {
        let key = (*project, *asset);
        match self.balances.get(&key) {
            Some(record) => (*record, true),
            None => (ProjectBalance::new(*project, *asset), false),
        }
    }

    /// What `project` holds of `asset`.
    pub fn balance(&self, project: &Identity, asset: &Identity) -> (balance: u64)
        requires
            self.wf(),
        ensures
            balance == self.balance_of(*project, *asset),
    {
        self.balance_record(project, asset).0.balance
    }

    /// Takes a deposit of `gross_amount` of `asset` from `project`: withholds
    /// the platform's fee and adds the rest to the project's balance, which
    /// is created by the first deposit. Returns the net amount added and the
    /// fee.
    pub fn deposit(&mut self, project: Identity, asset: Identity, gross_amount: u64) -> (result:
        Result<(u64, u64), ErrorCode>)
        requires
            old(self).wf(),
        ensures
            final(self).wf(),
            final(self).config() == old(self).config(),
            final(self).signers() == old(self).signers(),
            final(self).claims() == old(self).claims(),
            match (LedgerOp::Deposit {
                gross_amount,
                fee_ratio: old(self).config().platform_fee_ratio,
            }).refusal(old(self).balance_of(project, asset)) {
                Some(e) => {
                    &&& e == ErrorCode::ArithmeticOverflow
                    &&& result == Err::<(u64, u64), ErrorCode>(e)
                    &&& final(self).balances() == old(self).balances()
                },
                None => {
                    let fee_ratio = old(self).config().platform_fee_ratio;
                    let net = net_of(gross_amount, fee_ratio);
                    let fee = fee_of(gross_amount, fee_ratio);
                    &&& result == Ok::<(u64, u64), ErrorCode>((net as u64, fee as u64))
                    &&& final(self).balances() == old(self).balances().insert(
                        (project, asset),
                        (old(self).balance_of(project, asset) + net) as u64,
                    )
                },
            },
    {
        let (mut record, _) = self.balance_record(&project, &asset);
        let result = record.deposit(gross_amount, self.config.platform_fee_ratio);
        if result.is_ok() {
            self.balances.put(record);
        }
        result
    }

    /// Adds `amount` to what `project` holds of `asset`.
    pub fn credit(&mut self, project: Identity, asset: Identity, amount: u64) -> (result: Result<
        (),
        ErrorCode,
    >)
        requires
            old(self).wf(),
        ensures
            final(self).wf(),
            final(self).config() == old(self).config(),
            final(self).signers() == old(self).signers(),
            final(self).claims() == old(self).claims(),
            match (LedgerOp::Credit { amount }).refusal(old(self).balance_of(project, asset)) {
                Some(e) => {
                    &&& result == Err::<(), ErrorCode>(e)
                    &&& final(self).balances() == old(self).balances()
                },
                None => {
                    &&& result == Ok::<(), ErrorCode>(())
                    &&& final(self).balances() == old(self).balances().insert(
                        (project, asset),
                        (old(self).balance_of(project, asset) + amount) as u64,
                    )
                },
            },
    {
        let (mut record, _) = self.balance_record(&project, &asset);
        let result = record.credit(amount);
        if result.is_ok() {
            self.balances.put(record);
        }
        result
    }

    /// Takes `amount` from what `project` holds of `asset`, if that much is
    /// there.
    pub fn debit(&mut self, project: Identity, asset: Identity, amount: u64) -> (result: Result<
        (),
        ErrorCode,
    >)
        requires
            old(self).wf(),
        ensures
            final(self).wf(),
            final(self).config() == old(self).config(),
            final(self).signers() == old(self).signers(),
            final(self).claims() == old(self).claims(),
            amount > old(self).balance_of(project, asset) ==> result == Err::<(), ErrorCode>(
                ErrorCode::InsufficientBalance,
            ) && final(self).balances() == old(self).balances(),
            amount <= old(self).balance_of(project, asset) ==> result == Ok::<(), ErrorCode>(())
                && final(self).balances() == debited_balances(
                old(self).balances(),
                (project, asset),
                amount as int,
            ),
    {
        let (mut record, kept) = self.balance_record(&project, &asset);
        let result = record.debit(amount);
        if result.is_ok() && kept {
            self.balances.put(record);
        }
        result
    }

    /// Withdraws `amount` of `asset` from the balance of `project` to
    /// `destination`: debits the balance and orders the one transfer.
    /// `project` is the identity on whose behalf the withdrawal is made.
    pub fn withdraw(
        &mut self,
        project: Identity,
        asset: Identity,
        amount: u64,
        destination: Identity,
    ) -> (result: Result<TransferRequest, ErrorCode>)
        requires
            old(self).wf(),
        ensures
            final(self).wf(),
            final(self).config() == old(self).config(),
            final(self).signers() == old(self).signers(),
            final(self).claims() == old(self).claims(),
            amount > old(self).balance_of(project, asset) ==> result == Err::<
                TransferRequest,
                ErrorCode,
            >(ErrorCode::InsufficientBalance) && final(self).balances() == old(self).balances(),
            amount <= old(self).balance_of(project, asset) ==> result == Ok::<
                TransferRequest,
                ErrorCode,
            >(TransferRequest { destination, amount }) && final(self).balances()
                == debited_balances(old(self).balances(), (project, asset), amount as int),
    {
        let (mut record, kept) = self.balance_record(&project, &asset);
        let result = record.withdraw(&project, amount, destination);
        if result.is_ok() && kept {
            self.balances.put(record);
        }
        result
    }

    /// Pays `amounts[i]` of `asset` to `recipients[i]` for every `i`, from
    /// the balance of `project`: debits the balance once, by the sum, and
    /// orders one transfer per recipient, in the order of the lists. A
    /// refused batch changes nothing and orders nothing. `project` is the
    /// identity on whose behalf the batch is made.
    pub fn batch_transfer(
        &mut self,
        project: Identity,
        asset: Identity,
        recipients: &Vec<Identity>,
        amounts: &Vec<u64>,
    ) -> (result: Result<Vec<TransferRequest>, ErrorCode>)
        requires
            old(self).wf(),
        ensures
            final(self).wf(),
            final(self).config() == old(self).config(),
            final(self).signers() == old(self).signers(),
            final(self).claims() == old(self).claims(),
            match batch_refusal(old(self).balance_of(project, asset), recipients@, amounts@) {
                Some(e) => {
                    &&& result == Err::<Vec<TransferRequest>, ErrorCode>(e)
                    &&& final(self).balances() == old(self).balances()
                },
                None => {
                    &&& result is Ok
                    &&& result->Ok_0@ == batch_orders(recipients@, amounts@)
                    &&& final(self).balances() == debited_balances(
                        old(self).balances(),
                        (project, asset),
                        sum_of(amounts@),
                    )
                },
            },
    {
        let (mut record, kept) = self.balance_record(&project, &asset);
        let result = record.batch_transfer(&project, recipients, amounts);
        if result.is_ok() && kept {
            self.balances.put(record);
        }
        result
    }

    /// The claim record of `user`: a copy of the one kept, or an empty one.
    fn claim_record_of(&self, user: &Identity) -> (record: ClaimRecord)
        requires
            self.wf(),
        ensures
            record.user == *user,
            record.claimed_rewards@ == self.claimed_by(*user),
            record.wf(),
    {
        proof {
            self.lemma_wf();
            assert(self.claimed_by(*user).no_duplicates());
        }
        match self.claim_records.get(user) {
            Some(kept) => kept.duplicate(),
            None => ClaimRecord::new(*user),
        }
    }

    /// Puts `record` in place of the claim record of its user.
    fn keep_claim_record(&mut self, record: ClaimRecord)
        requires
            old(self).wf(),
            record.wf(),
        ensures
            final(self).wf(),
            final(self).config() == old(self).config(),
            final(self).signers() == old(self).signers(),
            final(self).balances() == old(self).balances(),
            final(self).claims() == old(self).claims().insert(record.user, record.claimed_rewards@),
    {
        self.claim_records.put(record);
        assert forall|user: Identity| #[trigger]
            self.claim_records@.dom().contains(
                user,
            ) implies self.claim_records@[user].no_duplicates() by {
            if user != record.user {
                assert(old(self).claim_records@.dom().contains(user));
            }
        }
    }

    /// Whether `user` has been paid the reward named `reward_id`.
    pub fn is_claimed(&self, user: &Identity, reward_id: &str) -> (claimed: bool)
        requires
            self.wf(),
        ensures
            claimed == self.claimed_by(*user).contains(user_reward_key(*user, reward_id@)),
    {
        match self.claim_records.get(user) {
            Some(record) => record.has_claimed(reward_id),
            None => false,
        }
    }

    /// Remembers that `user` has been paid the reward named `reward_id`.
    /// Marking a reward that is already marked changes nothing but that the
    /// user has a record.
    pub fn mark_claimed(&mut self, user: Identity, reward_id: &str)
        requires
            old(self).wf(),
        ensures
            final(self).wf(),
            final(self).config() == old(self).config(),
            final(self).signers() == old(self).signers(),
            final(self).balances() == old(self).balances(),
            final(self).claims() == old(self).claims().insert(
                user,
                marked(old(self).claimed_by(user), user_reward_key(user, reward_id@)),
            ),
    {
        let mut record = self.claim_record_of(&user);
        record.mark_reward_claimed(reward_id);
        self.keep_claim_record(record);
    }

    /// Pays `user` the rewards of a bundle that the user has not been paid
    /// before, from what `project` holds of `asset`. The bundle is `amounts`
    /// and `reward_ids`, entry by entry, issued at `timestamp` and signed by
    /// `signer` with `signature`; `now` is the current time, in seconds like
    /// `timestamp`.
    ///
    /// A bundle all of whose rewards have been paid is accepted and pays
    /// nothing. A refused claim changes nothing. The first claim that is not
    /// refused creates the user's claim record.
    pub fn claim_by_reward(
        &mut self,
        user: Identity,
        project: Identity,
        asset: Identity,
        signer: Identity,
        amounts: Vec<u64>,
        reward_ids: Vec<String>,
        signature: Vec<u8>,
        timestamp: i64,
        now: i64,
    ) -> (result: Result<Option<ClaimByRewardEvent>, ErrorCode>)
        requires
            old(self).wf(),
        ensures
            final(self).wf(),
            final(self).config() == old(self).config(),
            final(self).signers() == old(self).signers(),
            match claim_refusal(
                old(self).enabled(signer),
                signer,
                user,
                old(self).balance_of(project, asset),
                old(self).claimed_by(user),
                amounts@,
                reward_ids@,
                signature@,
                timestamp,
                now,
            ) {
                Some(e) => {
                    &&& result == Err::<Option<ClaimByRewardEvent>, ErrorCode>(e)
                    &&& final(self).balances() == old(self).balances()
                    &&& final(self).claims() == old(self).claims()
                },
                None => {
                    let claimed = old(self).claimed_by(user);
                    let keys = claim_keys(user, reward_ids@);
                    &&& result is Ok
                    &&& final(self).claims() == old(self).claims().insert(
                        user,
                        claimed_after(claimed, keys),
                    )
                    &&& final(self).balances() == debited_balances(
                        old(self).balances(),
                        (project, asset),
                        settled_total(claimed, keys, amounts@, keys.len() as int),
                    )
                    &&& reported(user, asset, claimed, keys, amounts@, reward_ids@, result->Ok_0)
                },
            },
    {
        let whitelist = Whitelist {
            authority: self.config.authority,
            signer,
            is_whitelisted: self.is_whitelisted(&signer),
        };
        let (project_balance, kept) = self.balance_record(&project, &asset);
        let claim_record = self.claim_record_of(&user);
        let mut ctx = ClaimByReward { whitelist, project_balance, claim_record, signer };
        let result = claim_by_reward(&mut ctx, amounts, reward_ids, signature, timestamp, now);
        if result.is_ok() {
            if kept {
                self.balances.put(ctx.project_balance);
            }
            self.keep_claim_record(ctx.claim_record);
        }
        result
    }
}

} // verus!
