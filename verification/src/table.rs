//! The fixed roster: account ids mapped to accounts, with lookup-and-mutate
//! and lookup-and-read operations.

use crate::account::{spec_accepts, spec_apply, Account, AccountModel};
use crate::api::ApiError;
use crate::transaction::{Transaction, TransactionModel};
use vstd::prelude::*;

verus! {

/// A point-in-time view of one account, together with the server time at
/// which it was read.
pub struct Statement {
    pub balance: i64,
    pub limit: i64,
    pub timestamp: String,
    pub transactions: Vec<Transaction>,
}

/// A fixed mapping from small integer ids to accounts. Populated once from a
/// seed list; no entry is added or removed afterwards.
pub struct AccountTable {
    entries: Vec<(u8, Account)>,
}

impl AccountTable {
    pub closed spec fn spec_entries(&self) -> Seq<(u8, Account)> {
        self.entries@
    }

    pub open spec fn spec_ids(&self) -> Seq<u8> {
        self.spec_entries().map_values(|e: (u8, Account)| e.0)
    }

    pub open spec fn spec_contains(&self, id: u8) -> bool {
        exists|i: int|
            0 <= i < self.spec_entries().len() && (#[trigger] self.spec_entries()[i]).0 == id
    }

    pub open spec fn spec_index_of(&self, id: u8) -> int {
        choose|i: int|
            0 <= i < self.spec_entries().len() && (#[trigger] self.spec_entries()[i]).0 == id
    }

    pub open spec fn spec_account(&self, id: u8) -> AccountModel {
        self.spec_entries()[self.spec_index_of(id)].1@
    }

    /// Ids are unique and every account keeps its invariant.
    pub open spec fn wf(&self) -> bool {
        &&& forall|i: int, j: int|
            0 <= i < j < self.spec_entries().len() ==> (#[trigger] self.spec_entries()[i]).0 != (
            #[trigger] self.spec_entries()[j]).0
        &&& forall|i: int|
            0 <= i < self.spec_entries().len() ==> (#[trigger] self.spec_entries()[i]).1.wf()
    }

    /// In a table with unique ids, an entry holding `id` at position `i` is
    /// the one every `spec_account(id)` speaks of.
    pub proof fn lemma_index_of(&self, id: u8, i: int)
        requires
            self.wf(),
            0 <= i < self.spec_entries().len(),
            self.spec_entries()[i].0 == id,
        ensures
            self.spec_contains(id),
            self.spec_index_of(id) == i,
            self.spec_account(id) == self.spec_entries()[i].1@,
    {
        assert(self.spec_contains(id));
        let j = self.spec_index_of(id);
        assert(0 <= j < self.spec_entries().len() && self.spec_entries()[j].0 == id);
        if i < j {
            assert(self.spec_entries()[i].0 != self.spec_entries()[j].0);
        } else if j < i {
            assert(self.spec_entries()[j].0 != self.spec_entries()[i].0);
        }
    }

    fn find(&self, id: u8) -> (r: Option<usize>)
        requires
            self.wf(),
        ensures
            match r {
                Some(i) => {
                    &&& i < self.spec_entries().len()
                    &&& self.spec_entries()[i as int].0 == id
                    &&& self.spec_contains(id)
                    &&& self.spec_index_of(id) == i
                },
                None => !self.spec_contains(id),
            },
    {
        let n = self.entries.len();
        let mut i: usize = 0;
        while i < n
            invariant
                self.wf(),
                n == self.spec_entries().len(),
                i <= n,
                forall|k: int| 0 <= k < i ==> (#[trigger] self.spec_entries()[k]).0 != id,
            decreases n - i,
        {
            if self.entries[i].0 == id {
                proof {
                    self.lemma_index_of(id, i as int);
                }
                return Some(i);
            }
            i += 1;
        }
        None
    }

    /// Builds a table from a seed list of `(id, limit)` pairs, one fresh
    /// account per pair, in the order given.
    pub fn from_seed(seed: &Vec<(u8, i64)>) -> (r: AccountTable)
        requires
            forall|i: int, j: int|
                0 <= i < j < seed@.len() ==> (#[trigger] seed@[i]).0 != (#[trigger] seed@[j]).0,
            forall|i: int| 0 <= i < seed@.len() ==> (#[trigger] seed@[i]).1 >= 0,
        ensures
            r.wf(),
            r.spec_ids() == seed@.map_values(|e: (u8, i64)| e.0),
            forall|i: int|
                0 <= i < seed@.len() ==> r.spec_contains((#[trigger] seed@[i]).0)
                    && r.spec_account(seed@[i].0) == (AccountModel {
                    balance: 0,
                    limit: seed@[i].1 as int,
                    history: Seq::<TransactionModel>::empty(),
                }),
    {
        let mut entries: Vec<(u8, Account)> = Vec::new();
        let n = seed.len();
        let mut k: usize = 0;
        while k < n
            invariant
                n == seed@.len(),
                k <= n,
                entries@.len() == k,
                forall|i: int, j: int|
                    0 <= i < j < seed@.len() ==> (#[trigger] seed@[i]).0 != (#[trigger] seed@[j]).0,
                forall|i: int| 0 <= i < seed@.len() ==> (#[trigger] seed@[i]).1 >= 0,
                forall|i: int| 0 <= i < k ==> (#[trigger] entries@[i]).0 == seed@[i].0,
                forall|i: int| 0 <= i < k ==> (#[trigger] entries@[i]).1.wf(),
                forall|i: int|
                    0 <= i < k ==> (#[trigger] entries@[i]).1@ == (AccountModel {
                        balance: 0,
                        limit: seed@[i].1 as int,
                        history: Seq::<TransactionModel>::empty(),
                    }),
            decreases n - k,
        {
            let id = seed[k].0;
            let limit = seed[k].1;
            entries.push((id, Account::with_limit(limit)));
            k += 1;
        }
        let r = AccountTable { entries };
        proof {
            assert(r.spec_ids() =~= seed@.map_values(|e: (u8, i64)| e.0));
            assert forall|i: int|
                0 <= i < seed@.len() implies r.spec_contains((#[trigger] seed@[i]).0)
                && r.spec_account(seed@[i].0) == (AccountModel {
                balance: 0,
                limit: seed@[i].1 as int,
                history: Seq::<TransactionModel>::empty(),
            }) by {
                r.lemma_index_of(seed@[i].0, i);
            }
        }
        r
    }

    /// The deployment roster: five accounts with their fixed limits.
    pub fn seeded() -> (r: AccountTable)
        ensures
            r.wf(),
            r.spec_ids() == seq![1u8, 2u8, 3u8, 4u8, 5u8],
            forall|id: u8| r.spec_contains(id) <==> 1 <= id <= 5,
            r.spec_account(1).limit == 100000,
            r.spec_account(2).limit == 80000,
            r.spec_account(3).limit == 1000000,
            r.spec_account(4).limit == 10000000,
            r.spec_account(5).limit == 500000,
            forall|id: u8|
                1 <= id <= 5 ==> (#[trigger] r.spec_account(id)).balance == 0 && r.spec_account(
                    id,
                ).history == Seq::<TransactionModel>::empty(),
    {
        let seed: Vec<(u8, i64)> = vec![
            (1u8, 100000i64),
            (2u8, 80000i64),
            (3u8, 1000000i64),
            (4u8, 10000000i64),
            (5u8, 500000i64),
        ];
        let r = Self::from_seed(&seed);
        proof {
            assert(r.spec_ids() =~= seq![1u8, 2u8, 3u8, 4u8, 5u8]);
            assert forall|id: u8| r.spec_contains(id) implies 1 <= id <= 5 by {
                let i = choose|i: int|
                    0 <= i < r.spec_entries().len() && (#[trigger] r.spec_entries()[i]).0 == id;
                assert(r.spec_ids()[i] == id);
            }
            assert forall|id: u8| 1 <= id <= 5 implies r.spec_contains(id) by {
                assert(r.spec_ids()[id - 1] == id);
            }
            assert forall|id: u8| 1 <= id <= 5 implies (#[trigger] r.spec_account(id)).balance == 0
                && r.spec_account(id).history == Seq::<TransactionModel>::empty() by {
                assert(r.spec_ids()[id - 1] == id);
                r.lemma_index_of(id, id - 1);
            }
            assert(r.spec_account(1).limit == 100000) by {
                r.lemma_index_of(1, 0);
            }
            assert(r.spec_account(2).limit == 80000) by {
                r.lemma_index_of(2, 1);
            }
            assert(r.spec_account(3).limit == 1000000) by {
                r.lemma_index_of(3, 2);
            }
            assert(r.spec_account(4).limit == 10000000) by {
                r.lemma_index_of(4, 3);
            }
            assert(r.spec_account(5).limit == 500000) by {
                r.lemma_index_of(5, 4);
            }
        }
        r
    }

    /// Resolves the account and offers the transaction to it. On success the
    /// post-transaction `(balance, limit)` pair is returned; an unknown id
    /// reports `NotFound` and a refused debit `InsufficientLimit`, both
    /// leaving every account untouched.
    pub fn post_transaction(&mut self, id: u8, transaction: Transaction) -> (r: Result<
        (i64, i64),
        ApiError,
    >)
        requires
            old(self).wf(),
            transaction.wf(),
        ensures
            final(self).wf(),
            final(self).spec_ids() == old(self).spec_ids(),
            forall|a: u8|
                old(self).spec_contains(a) && a != id ==> final(self).spec_contains(a)
                    && final(self).spec_account(a) == old(self).spec_account(a),
            r is Ok <==> old(self).spec_contains(id) && spec_accepts(
                old(self).spec_account(id),
                transaction@,
            ),
            match r {
                Ok(p) => {
                    &&& final(self).spec_account(id) == spec_apply(
                        old(self).spec_account(id),
                        transaction@,
                    )
                    &&& p.0 as int == final(self).spec_account(id).balance
                    &&& p.1 as int == final(self).spec_account(id).limit
                },
                Err(e) => {
                    &&& final(self).spec_entries() == old(self).spec_entries()
                    &&& (if old(self).spec_contains(id) {
                        e == ApiError::InsufficientLimit
                    } else {
                        e == ApiError::NotFound
                    })
                },
            },
    {
        match self.find(id) {
            None => Err(ApiError::NotFound),
            Some(i) => {
                let ghost old_entries = self.entries@;
                let mut entry = self.entries.remove(i);
                let res = entry.1.transact(transaction);
                let balance = entry.1.balance();
                let limit = entry.1.limit();
                self.entries.insert(i, entry);
                proof {
                    assert(self.entries@ =~= old_entries.update(
                        i as int,
                        self.entries@[i as int],
                    ));
                    assert(self.spec_ids() =~= old(self).spec_ids());
                    self.lemma_wf_after_update(*old(self), id, i as int);
                    self.lemma_index_of(id, i as int);
                    if res is Err {
                        assert(self.entries@ =~= old_entries);
                    }
                }
                match res {
                    Ok(_) => Ok((balance, limit)),
                    Err(e) => Err(e),
                }
            },
        }
    }

    /// After one entry is replaced by another with the same id and a
    /// well-formed account, the table is still well-formed and every other
    /// account is untouched.
    proof fn lemma_wf_after_update(&self, pre: AccountTable, id: u8, i: int)
        requires
            pre.wf(),
            0 <= i < pre.spec_entries().len(),
            pre.spec_entries()[i].0 == id,
            self.spec_entries().len() == pre.spec_entries().len(),
            self.spec_entries()[i].0 == id,
            self.spec_entries()[i].1.wf(),
            forall|k: int|
                0 <= k < pre.spec_entries().len() && k != i ==> self.spec_entries()[k]
                    == pre.spec_entries()[k],
        ensures
            self.wf(),
            forall|a: u8|
                pre.spec_contains(a) && a != id ==> self.spec_contains(a) && self.spec_account(a)
                    == pre.spec_account(a),
    {
        assert forall|p: int, q: int|
            0 <= p < q < self.spec_entries().len() implies (#[trigger] self.spec_entries()[p]).0
            != (#[trigger] self.spec_entries()[q]).0 by {
            assert(pre.spec_entries()[p].0 != pre.spec_entries()[q].0);
        }
        assert forall|a: u8| pre.spec_contains(a) && a != id implies self.spec_contains(a)
            && self.spec_account(a) == pre.spec_account(a) by {
            let j = choose|j: int|
                0 <= j < pre.spec_entries().len() && (#[trigger] pre.spec_entries()[j]).0 == a;
            pre.lemma_index_of(a, j);
            self.lemma_index_of(a, j);
        }
    }

    /// Resolves the account and reads a consistent snapshot of it, stamped
    /// with the current wall-clock instant. An unknown id reports
    /// `NotFound`. Nothing is claimed of the timestamp text: it depends on
    /// the clock.
    pub fn get_statement(&self, id: u8) -> (r: Result<Statement, ApiError>)
        requires
            self.wf(),
        ensures
            match r {
                Ok(st) => {
                    &&& self.spec_contains(id)
                    &&& st.balance as int == self.spec_account(id).balance
                    &&& st.limit as int == self.spec_account(id).limit
                    &&& st.transactions@.map_values(|t: Transaction| t@) == self.spec_account(
                        id,
                    ).history
                },
                Err(e) => e == ApiError::NotFound && !self.spec_contains(id),
            },
    {
        match self.find(id) {
            None => Err(ApiError::NotFound),
            Some(i) => {
                let account = &self.entries[i].1;
                let (balance, limit, transactions) = account.snapshot();
                Ok(
                    Statement {
                        balance,
                        limit,
                        timestamp: crate::clock::now_utc_rfc3339(),
                        transactions,
                    },
                )
            },
        }
    }
}

/// Read–write round trip: a statement taken after a successful post, with no
/// other writer in between, reports exactly the balance and limit that the
/// post returned. `t1` is the table before the post, `t2` after; `b` and `l`
/// are the pair the post returned, which its contract ties to `t2`.
pub proof fn lemma_statement_matches_post(
    t1: AccountTable,
    t2: AccountTable,
    id: u8,
    t: TransactionModel,
    b: i64,
    l: i64,
)
    requires
        t1.wf(),
        t2.wf(),
        t1.spec_contains(id),
        t2.spec_ids() == t1.spec_ids(),
        t2.spec_account(id) == spec_apply(t1.spec_account(id), t),
        b as int == t2.spec_account(id).balance,
        l as int == t2.spec_account(id).limit,
    ensures
        t2.spec_contains(id),
        t2.spec_account(id).balance == b as int,
        t2.spec_account(id).limit == l as int,
{
    let j = choose|j: int|
        0 <= j < t1.spec_entries().len() && (#[trigger] t1.spec_entries()[j]).0 == id;
    assert(t1.spec_ids()[j] == t1.spec_entries()[j].0);
    assert(t2.spec_ids().len() == t2.spec_entries().len());
    assert(t2.spec_ids()[j] == t2.spec_entries()[j].0);
    assert(t2.spec_entries()[j].0 == id);
}

} // verus!
