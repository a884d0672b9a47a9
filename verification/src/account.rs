//! An account: signed balance, immutable overdraft limit, bounded history.

use crate::api::ApiError;
use crate::history::RingBuffer;
use crate::transaction::{Transaction, TransactionKind, TransactionModel};
use vstd::prelude::*;

verus! {

/// How many recent transactions an account retains.
pub const HISTORY_CAPACITY: usize = 10;

/// The mathematical image of an account.
pub struct AccountModel {
    pub balance: int,
    pub limit: int,
    pub history: Seq<TransactionModel>,
}

/// The invariant every account keeps between operations: a non-negative
/// limit, a balance within `[-limit, i64::MAX]`, and a bounded history of
/// well-formed transactions.
pub open spec fn model_wf(m: AccountModel) -> bool {
    &&& 0 <= m.limit <= i64::MAX
    &&& m.balance + m.limit >= 0
    &&& m.balance <= i64::MAX
    &&& m.history.len() <= HISTORY_CAPACITY
    &&& forall|i: int| 0 <= i < m.history.len() ==> (#[trigger] m.history[i]).wf()
}

/// The signed effect of a transaction on a balance.
pub open spec fn spec_delta(t: TransactionModel) -> int {
    match t.kind {
        TransactionKind::Credit => t.value,
        TransactionKind::Debit => -t.value,
    }
}

/// Whether an account in state `m` accepts `t`: a credit is accepted unless
/// it would overflow the balance; a debit is accepted exactly when the new
/// balance stays at or above `-limit`.
pub open spec fn spec_accepts(m: AccountModel, t: TransactionModel) -> bool {
    match t.kind {
        TransactionKind::Credit => m.balance + t.value <= i64::MAX,
        TransactionKind::Debit => m.balance - t.value >= -m.limit,
    }
}

/// The state after `t` is offered to an account in state `m`: an accepted
/// transaction moves the balance by its signed value and enters the history
/// at the front; a rejected one changes nothing.
pub open spec fn spec_apply(m: AccountModel, t: TransactionModel) -> AccountModel {
    if spec_accepts(m, t) {
        AccountModel {
            balance: m.balance + spec_delta(t),
            limit: m.limit,
            history: RingBuffer::<TransactionModel>::spec_push(
                m.history,
                HISTORY_CAPACITY as nat,
                t,
            ),
        }
    } else {
        m
    }
}

/// An account. The balance starts at zero and never drops below `-limit`;
/// the history holds the `HISTORY_CAPACITY` most recent accepted
/// transactions, newest first.
pub struct Account {
    balance: i64,
    limit: i64,
    history: RingBuffer<Transaction>,
}

impl View for Account {
    type V = AccountModel;

    closed spec fn view(&self) -> AccountModel {
        AccountModel {
            balance: self.balance as int,
            limit: self.limit as int,
            history: self.history@.map_values(|t: Transaction| t@),
        }
    }
}

impl Account {
    pub closed spec fn history_wf(&self) -> bool {
        &&& self.history.wf()
        &&& self.history.spec_capacity() == HISTORY_CAPACITY
    }

    pub open spec fn wf(&self) -> bool {
        &&& model_wf(self@)
        &&& self.history_wf()
    }

    pub fn with_limit(limit: i64) -> (r: Account)
        requires
            limit >= 0,
        ensures
            r.wf(),
            r@ == (AccountModel {
                balance: 0,
                limit: limit as int,
                history: Seq::<TransactionModel>::empty(),
            }),
    {
        let r = Account { balance: 0, limit, history: RingBuffer::new(HISTORY_CAPACITY) };
        proof {
            assert(r@.history =~= Seq::<TransactionModel>::empty());
        }
        r
    }

    /// Offers `transaction` to the account. An accepted transaction moves
    /// the balance by exactly its signed value and is prepended to the
    /// history; a rejected one leaves balance and history untouched and
    /// reports `InsufficientLimit`.
    pub fn transact(&mut self, transaction: Transaction) -> (r: Result<(), ApiError>)
        requires
            old(self).wf(),
            transaction.wf(),
        ensures
            final(self).wf(),
            final(self)@ == spec_apply(old(self)@, transaction@),
            r is Ok <==> spec_accepts(old(self)@, transaction@),
            r is Ok ==> final(self)@.balance == old(self)@.balance + spec_delta(transaction@),
            r is Err ==> r == Err::<(), ApiError>(ApiError::InsufficientLimit) && *final(self)
                == *old(self),
    {
        let value = transaction.value();
        let accepted: bool = match transaction.kind() {
            TransactionKind::Credit => self.balance <= i64::MAX - value,
            TransactionKind::Debit => self.balance >= value - self.limit,
        };
        if accepted {
            self.balance = if matches!(transaction.kind(), TransactionKind::Credit) {
                self.balance + value
            } else {
                self.balance - value
            };
            let ghost old_history = self@.history;
            self.history.push(transaction);
            proof {
                assert(self@.history =~= RingBuffer::<TransactionModel>::spec_push(
                    old_history,
                    HISTORY_CAPACITY as nat,
                    transaction@,
                ));
            }
            Ok(())
        } else {
            Err(ApiError::InsufficientLimit)
        }
    }

    pub fn balance(&self) -> (r: i64)
        ensures
            r as int == self@.balance,
    {
        self.balance
    }

    pub fn limit(&self) -> (r: i64)
        ensures
            r as int == self@.limit,
    {
        self.limit
    }

    /// A consistent point-in-time copy of balance, limit and history.
    pub fn snapshot(&self) -> (r: (i64, i64, Vec<Transaction>))
        requires
            self.wf(),
        ensures
            r.0 as int == self@.balance,
            r.1 as int == self@.limit,
            r.2@.map_values(|t: Transaction| t@) == self@.history,
    {
        let mut transactions: Vec<Transaction> = Vec::new();
        let n = self.history.len();
        let mut i: usize = 0;
        while i < n
            invariant
                n == self.history@.len(),
                i <= n,
                transactions@.len() == i,
                forall|j: int| 0 <= j < i ==> (#[trigger] transactions@[j])@ == self.history@[j]@,
            decreases n - i,
        {
            transactions.push(self.history.get(i).clone());
            i += 1;
        }
        proof {
            assert(transactions@.map_values(|t: Transaction| t@) =~= self@.history);
        }
        (self.balance, self.limit, transactions)
    }
}

impl Default for RingBuffer<Transaction> {
    /// An empty history buffer of the capacity every account uses.
    fn default() -> (r: Self)
        ensures
            r.wf(),
            r@ == Seq::<Transaction>::empty(),
            r.spec_capacity() == HISTORY_CAPACITY,
    {
        RingBuffer::new(HISTORY_CAPACITY)
    }
}

impl Default for Account {
    /// A fresh account with a zero limit.
    fn default() -> (r: Account)
        ensures
            r.wf(),
            r@ == (AccountModel {
                balance: 0,
                limit: 0,
                history: Seq::<TransactionModel>::empty(),
            }),
    {
        Account::with_limit(0)
    }
}

/// The state after a whole sequence of offered transactions, oldest first.
pub open spec fn spec_apply_all(m: AccountModel, txs: Seq<TransactionModel>) -> AccountModel
    decreases txs.len(),
{
    if txs.len() == 0 {
        m
    } else {
        spec_apply(spec_apply_all(m, txs.drop_last()), txs.last())
    }
}

/// Those of `txs` that are accepted when offered in order to an account
/// starting in state `m`, in the order they were offered.
pub open spec fn spec_accepted(m: AccountModel, txs: Seq<TransactionModel>) -> Seq<
    TransactionModel,
>
    decreases txs.len(),
{
    if txs.len() == 0 {
        Seq::<TransactionModel>::empty()
    } else {
        let rest = spec_accepted(m, txs.drop_last());
        if spec_accepts(spec_apply_all(m, txs.drop_last()), txs.last()) {
            rest.push(txs.last())
        } else {
            rest
        }
    }
}

/// The sum of the signed effects of a sequence of transactions.
pub open spec fn spec_delta_sum(txs: Seq<TransactionModel>) -> int
    decreases txs.len(),
{
    if txs.len() == 0 {
        0
    } else {
        spec_delta_sum(txs.drop_last()) + spec_delta(txs.last())
    }
}

/// One offered transaction keeps a well-formed account well-formed.
pub proof fn lemma_apply_preserves_wf(m: AccountModel, t: TransactionModel)
    requires
        model_wf(m),
        t.wf(),
    ensures
        model_wf(spec_apply(m, t)),
{
}

/// After any sequence of offered transactions, a well-formed account is
/// still well-formed at every intermediate state; in particular
/// `balance + limit >= 0` holds after each one.
pub proof fn lemma_invariant_preserved(m: AccountModel, txs: Seq<TransactionModel>)
    requires
        model_wf(m),
        forall|i: int| 0 <= i < txs.len() ==> (#[trigger] txs[i]).wf(),
    ensures
        forall|k: int| 0 <= k <= txs.len() ==> model_wf(#[trigger] spec_apply_all(m, txs.take(k))),
    decreases txs.len(),
{
    assert(txs.take(0) =~= Seq::<TransactionModel>::empty());
    if txs.len() > 0 {
        let prefix = txs.drop_last();
        lemma_invariant_preserved(m, prefix);
        assert forall|k: int| 0 <= k <= txs.len() implies model_wf(
            #[trigger] spec_apply_all(m, txs.take(k)),
        ) by {
            if k < txs.len() {
                assert(txs.take(k) =~= prefix.take(k));
            } else {
                assert(txs.take(k) =~= txs);
                assert(prefix.take(prefix.len() as int) =~= prefix);
                lemma_apply_preserves_wf(spec_apply_all(m, prefix), txs.last());
            }
        }
    }
}

/// Appending one transaction adds its signed effect to the sum.
proof fn lemma_delta_sum_push(txs: Seq<TransactionModel>, t: TransactionModel)
    ensures
        spec_delta_sum(txs.push(t)) == spec_delta_sum(txs) + spec_delta(t),
{
    assert(txs.push(t).drop_last() =~= txs);
    assert(txs.push(t).last() == t);
}

/// The balance after a sequence of offered transactions is the starting
/// balance plus the signed sum of exactly those that were accepted: every
/// accepted transaction counts once, every rejected one not at all.
pub proof fn lemma_balance_sums_accepted(m: AccountModel, txs: Seq<TransactionModel>)
    ensures
        spec_apply_all(m, txs).balance == m.balance + spec_delta_sum(spec_accepted(m, txs)),
    decreases txs.len(),
{
    if txs.len() > 0 {
        let prefix = txs.drop_last();
        lemma_balance_sums_accepted(m, prefix);
        if spec_accepts(spec_apply_all(m, prefix), txs.last()) {
            lemma_delta_sum_push(spec_accepted(m, prefix), txs.last());
        }
    }
}

/// How a run of offered transactions shapes the history: every accepted
/// transaction enters it exactly once, newest first, stacked on what was
/// there before, and only the `HISTORY_CAPACITY` most recent entries
/// survive. Rejected transactions leave no trace.
pub proof fn lemma_history_of_accepted(m: AccountModel, txs: Seq<TransactionModel>)
    requires
        m.history.len() <= HISTORY_CAPACITY,
    ensures
        ({
            let stacked = spec_accepted(m, txs).reverse() + m.history;
            spec_apply_all(m, txs).history == if stacked.len() <= HISTORY_CAPACITY {
                stacked
            } else {
                stacked.take(HISTORY_CAPACITY as int)
            }
        }),
    decreases txs.len(),
{
    let cap = HISTORY_CAPACITY as int;
    if txs.len() == 0 {
        assert(spec_accepted(m, txs).reverse() + m.history =~= m.history);
    } else {
        let prefix = txs.drop_last();
        let t = txs.last();
        lemma_history_of_accepted(m, prefix);
        let acc = spec_accepted(m, prefix);
        let s = acc.reverse() + m.history;
        if spec_accepts(spec_apply_all(m, prefix), t) {
            assert(spec_accepted(m, txs) == acc.push(t));
            assert(acc.push(t).reverse() =~= seq![t] + acc.reverse());
            let stacked = spec_accepted(m, txs).reverse() + m.history;
            assert(stacked =~= seq![t] + s);
            if s.len() < cap {
                assert(spec_apply_all(m, txs).history =~= stacked);
            } else if s.len() == cap {
                assert(spec_apply_all(m, txs).history == seq![t] + s.drop_last());
                assert(stacked.take(cap) =~= seq![t] + s.drop_last());
            } else {
                assert(spec_apply_all(m, txs).history == seq![t] + s.take(cap).drop_last());
                assert(stacked.take(cap) =~= seq![t] + s.take(cap).drop_last());
            }
        } else {
            assert(spec_accepted(m, txs) == acc);
        }
    }
}

} // verus!

