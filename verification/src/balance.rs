//! Project balances: what a project holds of one asset, and the operations
//! that credit and debit it.

use vstd::prelude::*;
use crate::config::MAX_FEE_RATIO;
use crate::errors::ErrorCode;
use crate::identity::{same_bytes, Identity};
use crate::store::Record;

verus! {

/// What a project holds of one asset. Balances are keyed by `project` and
/// `token_mint`: the store that holds them keeps at most one per pair.
#[derive(Clone, Copy, Debug, PartialEq, Eq)]
pub struct ProjectBalance {
    /// The project that deposited, and on whose behalf the balance is spent.
    pub project: Identity,
    /// The asset.
    pub token_mint: Identity,
    /// The amount held.
    pub balance: u64,
}

/// An order to move `amount` of a balance's asset to `destination`. The
/// library decides the orders; the caller carries them out, in the order
/// given, within the same atomic step as the change of the balance.
#[derive(Clone, Copy, Debug, PartialEq, Eq)]
pub struct TransferRequest {
    /// Who receives.
    pub destination: Identity,
    /// How much.
    pub amount: u64,
}

/// One operation on a balance.
#[derive(Clone, Copy, Debug, PartialEq, Eq)]
pub enum LedgerOp {
    /// A deposit of `gross_amount`, of which the fee at `fee_ratio` basis
    /// points is withheld.
    Deposit { gross_amount: u64, fee_ratio: u16 },
    /// `amount` is added.
    Credit { amount: u64 },
    /// `amount` is taken: by a withdrawal, a batch of transfers or the
    /// settlement of a claim.
    Debit { amount: u64 },
}

/// The fee on a deposit of `gross_amount` at `fee_ratio` basis points,
/// rounded down.
pub open spec fn fee_of(gross_amount: u64, fee_ratio: u16) -> int {
    (gross_amount as int * fee_ratio as int) / 10000
}

/// What a deposit of `gross_amount` adds to the balance: the amount less the
/// fee.
pub open spec fn net_of(gross_amount: u64, fee_ratio: u16) -> int {
    gross_amount as int - fee_of(gross_amount, fee_ratio)
}

impl LedgerOp {
    /// What the operation adds to a balance on which it succeeds.
    pub open spec fn credit(self) -> int {
        match self {
            LedgerOp::Deposit { gross_amount, fee_ratio } => net_of(gross_amount, fee_ratio),
            LedgerOp::Credit { amount } => amount as int,
            LedgerOp::Debit { .. } => 0,
        }
    }

    /// What the operation takes from a balance on which it succeeds.
    pub open spec fn debit(self) -> int {
        match self {
            LedgerOp::Debit { amount } => amount as int,
            _ => 0,
        }
    }

    /// Why the operation is refused on `balance`, if it is: a deposit at a
    /// ratio above `MAX_FEE_RATIO`, a deposit or a credit that does not fit
    /// in 64 bits, a debit of more than there is.
    pub open spec fn refusal(self, balance: u64) -> Option<ErrorCode> {
        match self {
            LedgerOp::Deposit { gross_amount, fee_ratio } => if fee_ratio > MAX_FEE_RATIO {
                Some(ErrorCode::InvalidFeeRatio)
            } else if balance + net_of(gross_amount, fee_ratio) > u64::MAX {
                Some(ErrorCode::ArithmeticOverflow)
            } else {
                None
            },
            LedgerOp::Credit { amount } => if balance + amount > u64::MAX {
                Some(ErrorCode::ArithmeticOverflow)
            } else {
                None
            },
            LedgerOp::Debit { amount } => if balance < amount {
                Some(ErrorCode::InsufficientBalance)
            } else {
                None
            },
        }
    }

    /// The balance after the operation: a refused operation leaves it as it
    /// was.
    pub open spec fn apply(self, balance: u64) -> u64 {
        if self.refusal(balance) is Some {
            balance
        } else {
            (balance + self.credit() - self.debit()) as u64
        }
    }
}

/// The sum of a list of amounts.
pub open spec fn sum_of(amounts: Seq<u64>) -> int
    decreases amounts.len(),
{
    if amounts.len() == 0 {
        0
    } else {
        sum_of(amounts.drop_last()) + amounts.last()
    }
}

/// Why a batch of transfers is refused on `balance`, if it is. The checks
/// are made in this order: the two lists pair up; their sum fits in 64 bits;
/// the balance covers the sum.
pub open spec fn batch_refusal(
    balance: u64,
    recipients: Seq<Identity>,
    amounts: Seq<u64>,
) -> Option<ErrorCode> {
    if recipients.len() != amounts.len() {
        Some(ErrorCode::ArrayLengthMismatch)
    } else if sum_of(amounts) > u64::MAX {
        Some(ErrorCode::ArithmeticOverflow)
    } else if sum_of(amounts) > balance {
        Some(ErrorCode::InsufficientBalance)
    } else {
        None
    }
}

/// The orders of a batch: to each recipient its amount, in the order of the
/// lists.
pub open spec fn batch_orders(recipients: Seq<Identity>, amounts: Seq<u64>) -> Seq<
    TransferRequest,
> {
    Seq::new(
        recipients.len(),
        |i: int| (TransferRequest { destination: recipients[i], amount: amounts[i] }),
    )
}

/// A fee never exceeds the deposit it is taken from. No fee is taken at
/// ratio 0, and the whole deposit at the largest ratio.
pub proof fn lemma_fee_bounds(gross_amount: u64, fee_ratio: u16)
    requires
        fee_ratio <= MAX_FEE_RATIO,
    ensures
        0 <= fee_of(gross_amount, fee_ratio) <= gross_amount,
        0 <= net_of(gross_amount, fee_ratio) <= gross_amount,
        fee_ratio == 0 ==> fee_of(gross_amount, fee_ratio) == 0,
        fee_ratio == MAX_FEE_RATIO ==> fee_of(gross_amount, fee_ratio) == gross_amount,
{
    let g = gross_amount as int;
    let r = fee_ratio as int;
    assert(0 <= g * r <= g * 10000) by (nonlinear_arith)
        requires
            0 <= g,
            0 <= r <= 10000,
    ;
    assert(r == 0 ==> g * r == 0) by (nonlinear_arith);
    assert(r == 10000 ==> g * r == g * 10000) by (nonlinear_arith);
}

/// A sum of amounts is not negative.
pub proof fn lemma_sum_of_nonnegative(amounts: Seq<u64>)
    ensures
        0 <= sum_of(amounts),
    decreases amounts.len(),
{
    if amounts.len() > 0 {
        lemma_sum_of_nonnegative(amounts.drop_last());
    }
}

/// The sum of the first `n` amounts of a list is at most the sum of them
/// all.
pub proof fn lemma_sum_of_prefix(amounts: Seq<u64>, n: int)
    requires
        0 <= n <= amounts.len(),
    ensures
        0 <= sum_of(amounts.take(n)) <= sum_of(amounts),
    decreases amounts.len() - n,
{
    if n == amounts.len() {
        assert(amounts.take(n) =~= amounts);
        lemma_sum_of_nonnegative(amounts);
    } else {
        lemma_sum_of_prefix(amounts, n + 1);
        assert(amounts.take(n + 1).drop_last() =~= amounts.take(n));
        lemma_sum_of_nonnegative(amounts.take(n));
    }
}

/// The fee on a deposit: `gross_amount * fee_ratio / 10000`, rounded down. A
/// ratio above `MAX_FEE_RATIO` is refused.
pub fn compute_fee(gross_amount: u64, fee_ratio: u16) -> (result: Result<u64, ErrorCode>)
    ensures
        fee_ratio > MAX_FEE_RATIO ==> result == Err::<u64, ErrorCode>(ErrorCode::InvalidFeeRatio),
        fee_ratio <= MAX_FEE_RATIO ==> result == Ok::<u64, ErrorCode>(
            fee_of(gross_amount, fee_ratio) as u64,
        ) && fee_of(gross_amount, fee_ratio) <= gross_amount,
{
    if fee_ratio > MAX_FEE_RATIO {
        return Err(ErrorCode::InvalidFeeRatio);
    }
    proof {
        lemma_fee_bounds(gross_amount, fee_ratio);
    }
    if fee_ratio == 0 {
        return Ok(0);
    }
    assert(gross_amount as int * fee_ratio as int <= u64::MAX as int * 10000) by (nonlinear_arith)
        requires
            0 <= gross_amount <= u64::MAX,
            0 <= fee_ratio <= 10000,
    ;
    let product: u128 = (gross_amount as u128) * (fee_ratio as u128);
    let fee: u128 = product / 10000;
    Ok(fee as u64)
}

/// The sum of `amounts`, if it fits in 64 bits.
pub fn checked_sum(amounts: &Vec<u64>) -> (result: Result<u64, ErrorCode>)
    ensures
        sum_of(amounts@) > u64::MAX ==> result == Err::<u64, ErrorCode>(
            ErrorCode::ArithmeticOverflow,
        ),
        sum_of(amounts@) <= u64::MAX ==> result == Ok::<u64, ErrorCode>(sum_of(amounts@) as u64),
{
    let mut total: u64 = 0;
    let mut i: usize = 0;
    while i < amounts.len()
        invariant
            i <= amounts.len(),
            total == sum_of(amounts@.take(i as int)),
        decreases amounts.len() - i,
    {
        proof {
            assert(amounts@.take(i + 1).drop_last() =~= amounts@.take(i as int));
            lemma_sum_of_prefix(amounts@, i + 1);
        }
        match total.checked_add(amounts[i]) {
            Some(next) => {
                total = next;
            },
            None => {
                return Err(ErrorCode::ArithmeticOverflow);
            },
        }
        i = i + 1;
    }
    assert(amounts@.take(i as int) =~= amounts@);
    Ok(total)
}

impl ProjectBalance {
    /// The balance of a project that has not yet deposited the asset.
    pub fn new(project: Identity, token_mint: Identity) -> (record: ProjectBalance)
        ensures
            record.project == project,
            record.token_mint == token_mint,
            record.balance == 0,
    {
        ProjectBalance { project, token_mint, balance: 0 }
    }

    /// Takes a deposit of `gross_amount`: withholds the fee and adds the rest
    /// to the balance. Returns the net amount added and the fee. A refused
    /// deposit changes nothing.
    pub fn deposit(&mut self, gross_amount: u64, fee_ratio: u16) -> (result: Result<
        (u64, u64),
        ErrorCode,
    >)
        ensures
            final(self).project == old(self).project,
            final(self).token_mint == old(self).token_mint,
            final(self).balance == (LedgerOp::Deposit { gross_amount, fee_ratio }).apply(
                old(self).balance,
            ),
            match (LedgerOp::Deposit { gross_amount, fee_ratio }).refusal(old(self).balance) {
                Some(e) => result == Err::<(u64, u64), ErrorCode>(e),
                None => result == Ok::<(u64, u64), ErrorCode>(
                    (
                        net_of(gross_amount, fee_ratio) as u64,
                        fee_of(gross_amount, fee_ratio) as u64,
                    ),
                ) && final(self).balance == old(self).balance + net_of(gross_amount, fee_ratio),
            },
    {
        let fee = match compute_fee(gross_amount, fee_ratio) {
            Ok(fee) => fee,
            Err(e) => {
                return Err(e);
            },
        };
        let net_amount = gross_amount - fee;
        match self.balance.checked_add(net_amount) {
            Some(balance) => {
                self.balance = balance;
                Ok((net_amount, fee))
            },
            None => Err(ErrorCode::ArithmeticOverflow),
        }
    }

    /// Adds `amount` to the balance. A refused credit changes nothing.
    pub fn credit(&mut self, amount: u64) -> (result: Result<(), ErrorCode>)
        ensures
            final(self).project == old(self).project,
            final(self).token_mint == old(self).token_mint,
            final(self).balance == (LedgerOp::Credit { amount }).apply(old(self).balance),
            match (LedgerOp::Credit { amount }).refusal(old(self).balance) {
                Some(e) => result == Err::<(), ErrorCode>(e),
                None => {
                    &&& result == Ok::<(), ErrorCode>(())
                    &&& final(self).balance == old(self).balance + amount
                },
            },
    {
        match self.balance.checked_add(amount) {
            Some(balance) => {
                self.balance = balance;
                Ok(())
            },
            None => Err(ErrorCode::ArithmeticOverflow),
        }
    }

    /// Takes `amount` from the balance, if that much is there. A refused
    /// debit changes nothing.
    pub fn debit(&mut self, amount: u64) -> (result: Result<(), ErrorCode>)
        ensures
            final(self).project == old(self).project,
            final(self).token_mint == old(self).token_mint,
            final(self).balance == (LedgerOp::Debit { amount }).apply(old(self).balance),
            match (LedgerOp::Debit { amount }).refusal(old(self).balance) {
                Some(e) => result == Err::<(), ErrorCode>(e),
                None => {
                    &&& result == Ok::<(), ErrorCode>(())
                    &&& final(self).balance == old(self).balance - amount
                },
            },
    {
        match self.balance.checked_sub(amount) {
            Some(balance) => {
                self.balance = balance;
                Ok(())
            },
            None => Err(ErrorCode::InsufficientBalance),
        }
    }

    /// Carries out `op` on the balance. A refused operation changes nothing.
    pub fn apply(&mut self, op: LedgerOp) -> (result: Result<(), ErrorCode>)
        ensures
            final(self).project == old(self).project,
            final(self).token_mint == old(self).token_mint,
            final(self).balance == op.apply(old(self).balance),
            match op.refusal(old(self).balance) {
                Some(e) => result == Err::<(), ErrorCode>(e),
                None => result == Ok::<(), ErrorCode>(()),
            },
    {
        match op {
            LedgerOp::Deposit { gross_amount, fee_ratio } => match self.deposit(
                gross_amount,
                fee_ratio,
            ) {
                Ok(_) => Ok(()),
                Err(e) => Err(e),
            },
            LedgerOp::Credit { amount } => self.credit(amount),
            LedgerOp::Debit { amount } => self.debit(amount),
        }
    }

    /// Withdraws `amount` to `destination`: debits the balance and orders the
    /// one transfer. A withdrawal of more than the balance is refused and
    /// changes nothing. `caller` is the identity on whose behalf the
    /// withdrawal is made, and must be the project.
    pub fn withdraw(&mut self, caller: &Identity, amount: u64, destination: Identity) -> (result:
        Result<TransferRequest, ErrorCode>)
        requires
            *caller == old(self).project,
        ensures
            final(self).project == old(self).project,
            final(self).token_mint == old(self).token_mint,
            final(self).balance == (LedgerOp::Debit { amount }).apply(old(self).balance),
            amount > old(self).balance ==> result == Err::<TransferRequest, ErrorCode>(
                ErrorCode::InsufficientBalance,
            ) && final(self).balance == old(self).balance,
            amount <= old(self).balance ==> result == Ok::<TransferRequest, ErrorCode>(
                TransferRequest { destination, amount },
            ) && final(self).balance == old(self).balance - amount,
    {
        match self.debit(amount) {
            Ok(()) => Ok(TransferRequest { destination, amount }),
            Err(e) => Err(e),
        }
    }

    /// Pays `amounts[i]` to `recipients[i]` for every `i`: debits the balance
    /// once, by the sum, and orders one transfer per recipient, in the order
    /// of the lists. A refused batch changes nothing and orders nothing.
    /// `caller` is the identity on whose behalf the batch is made, and must
    /// be the project.
    pub fn batch_transfer(
        &mut self,
        caller: &Identity,
        recipients: &Vec<Identity>,
        amounts: &Vec<u64>,
    ) -> (result: Result<Vec<TransferRequest>, ErrorCode>)
        requires
            *caller == old(self).project,
        ensures
            final(self).project == old(self).project,
            final(self).token_mint == old(self).token_mint,
            match batch_refusal(old(self).balance, recipients@, amounts@) {
                Some(e) => {
                    &&& result == Err::<Vec<TransferRequest>, ErrorCode>(e)
                    &&& final(self).balance == old(self).balance
                },
                None => {
                    &&& result is Ok
                    &&& result->Ok_0@ == batch_orders(recipients@, amounts@)
                    &&& final(self).balance == old(self).balance - sum_of(amounts@)
                    &&& final(self).balance == (LedgerOp::Debit {
                        amount: sum_of(amounts@) as u64,
                    }).apply(old(self).balance)
                },
            },
    {
        if recipients.len() != amounts.len() {
            return Err(ErrorCode::ArrayLengthMismatch);
        }
        proof {
            lemma_sum_of_nonnegative(amounts@);
        }
        let total = match checked_sum(amounts) {
            Ok(total) => total,
            Err(e) => {
                return Err(e);
            },
        };
        match self.debit(total) {
            Ok(()) => {},
            Err(e) => {
                return Err(e);
            },
        }
        let ghost debited = *self;
        let mut orders: Vec<TransferRequest> = Vec::new();
        let mut i: usize = 0;
        while i < recipients.len()
            invariant
                i <= recipients.len(),
                recipients.len() == amounts.len(),
                orders@ == batch_orders(recipients@, amounts@).take(i as int),
                *self == debited,
            decreases recipients.len() - i,
        {
            orders.push(TransferRequest { destination: recipients[i], amount: amounts[i] });
            i = i + 1;
        }
        Ok(orders)
    }
}

/// Balances are kept by project and asset; what a record holds for the pair
/// is the amount.
impl Record for ProjectBalance {
    type Key = (Identity, Identity);

    type Value = u64;

    open spec fn key(&self) -> (Identity, Identity) {
        (self.project, self.token_mint)
    }

    open spec fn value(&self) -> u64 {
        self.balance
    }

    fn has_key(&self, key: &(Identity, Identity)) -> (same: bool) {
        same_bytes(&self.project, &key.0) && same_bytes(&self.token_mint, &key.1)
    }

    fn same_key(&self, other: &ProjectBalance) -> (same: bool) {
        same_bytes(&self.project, &other.project) && same_bytes(
            &self.token_mint,
            &other.token_mint,
        )
    }
}

/// The balance that a history of operations leaves of `initial`: each
/// operation is carried out on what the ones before it have left.
pub open spec fn replay(initial: u64, ops: Seq<LedgerOp>) -> u64
    decreases ops.len(),
{
    if ops.len() == 0 {
        initial
    } else {
        ops.last().apply(replay(initial, ops.drop_last()))
    }
}

/// The sum of what the operations of a history that were not refused have
/// added.
pub open spec fn credited(initial: u64, ops: Seq<LedgerOp>) -> int
    decreases ops.len(),
{
    if ops.len() == 0 {
        0
    } else if ops.last().refusal(replay(initial, ops.drop_last())) is Some {
        credited(initial, ops.drop_last())
    } else {
        credited(initial, ops.drop_last()) + ops.last().credit()
    }
}

/// The sum of what the operations of a history that were not refused have
/// taken.
pub open spec fn debited(initial: u64, ops: Seq<LedgerOp>) -> int
    decreases ops.len(),
{
    if ops.len() == 0 {
        0
    } else if ops.last().refusal(replay(initial, ops.drop_last())) is Some {
        debited(initial, ops.drop_last())
    } else {
        debited(initial, ops.drop_last()) + ops.last().debit()
    }
}

/// After any history of deposits, credits and debits, a balance is what it
/// began with, plus the net amounts credited, less the amounts debited; and
/// it is never negative, so no more has been taken than was there. For a
/// balance that began at 0, it is the sum of the net deposits less the sum of
/// the debits.
pub proof fn lemma_balance_is_credits_less_debits(initial: u64, ops: Seq<LedgerOp>)
    ensures
        replay(initial, ops) == initial + credited(initial, ops) - debited(initial, ops),
        0 <= credited(initial, ops),
        0 <= debited(initial, ops) <= initial + credited(initial, ops),
        initial == 0 ==> replay(initial, ops) == credited(initial, ops) - debited(initial, ops),
    decreases ops.len(),
{
    if ops.len() > 0 {
        lemma_balance_is_credits_less_debits(initial, ops.drop_last());
        match ops.last() {
            LedgerOp::Deposit { gross_amount, fee_ratio } => {
                if fee_ratio <= MAX_FEE_RATIO {
                    lemma_fee_bounds(gross_amount, fee_ratio);
                }
            },
            _ => {},
        }
    }
}

/// Carries out a history of operations on a balance, in order, passing over
/// the operations that are refused.
pub fn replay_history(record: &mut ProjectBalance, ops: &Vec<LedgerOp>)
    ensures
        final(record).project == old(record).project,
        final(record).token_mint == old(record).token_mint,
        final(record).balance == replay(old(record).balance, ops@),
        final(record).balance == old(record).balance + credited(old(record).balance, ops@)
            - debited(old(record).balance, ops@),
{
    let ghost initial = record.balance;
    let mut i: usize = 0;
    while i < ops.len()
        invariant
            i <= ops.len(),
            record.project == old(record).project,
            record.token_mint == old(record).token_mint,
            initial == old(record).balance,
            record.balance == replay(initial, ops@.take(i as int)),
        decreases ops.len() - i,
    {
        assert(ops@.take(i + 1).drop_last() =~= ops@.take(i as int));
        let _ = record.apply(ops[i]);
        i = i + 1;
    }
    proof {
        assert(ops@.take(i as int) =~= ops@);
        lemma_balance_is_credits_less_debits(initial, ops@);
    }
}

} // verus!
