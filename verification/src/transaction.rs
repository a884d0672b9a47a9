//! Transactions and their validated parts.

use crate::api::ApiError;
use vstd::prelude::*;
use vstd::utf8::encode_utf8;

verus! {

broadcast use vstd::slice::group_slice_axioms;

/// Whether a transaction adds to or draws from the balance.
#[derive(Clone, Copy, PartialEq, Eq, Structural, Debug)]
pub enum TransactionKind {
    Credit,
    Debit,
}

/// Free text attached to a transaction; between 1 and 10 UTF-8 code units.
#[derive(Debug)]
pub struct Description {
    text: String,
}

impl View for Description {
    type V = Seq<char>;

    closed spec fn view(&self) -> Seq<char> {
        self.text@
    }
}

impl Description {
    /// The length bound, measured in UTF-8 code units.
    pub open spec fn spec_valid(s: Seq<char>) -> bool {
        1 <= encode_utf8(s).len() <= 10
    }

    pub open spec fn wf(&self) -> bool {
        Self::spec_valid(self@)
    }

    /// Accepts exactly the texts whose encoded length lies in `[1, 10]`.
    pub fn try_from(text: String) -> (r: Result<Description, ApiError>)
        ensures
            match r {
                Ok(d) => Self::spec_valid(text@) && d@ == text@,
                Err(e) => !Self::spec_valid(text@) && e == ApiError::InvalidInput,
            },
    {
        let n = text.as_str().as_bytes().len();
        if n < 1 || n > 10 {
            Err(ApiError::InvalidInput)
        } else {
            Ok(Description { text })
        }
    }

    pub fn as_str(&self) -> (r: &str)
        ensures
            r@ == self@,
    {
        self.text.as_str()
    }
}

impl Clone for Description {
    fn clone(&self) -> (r: Self)
        ensures
            r@ == self@,
    {
        Description { text: self.text.clone() }
    }
}

/// The mathematical image of a transaction: its parts as plain ghost values.
pub struct TransactionModel {
    pub value: int,
    pub kind: TransactionKind,
    pub description: Seq<char>,
    pub created_at: Seq<char>,
}

impl TransactionModel {
    /// A non-negative amount and a valid description.
    pub open spec fn wf(self) -> bool {
        &&& self.value >= 0
        &&& self.value <= i64::MAX
        &&& Description::spec_valid(self.description)
    }
}

/// One credit or debit offered to an account.
#[derive(Debug)]
pub struct Transaction {
    value: i64,
    kind: TransactionKind,
    description: Description,
    created_at: String,
}

impl View for Transaction {
    type V = TransactionModel;

    closed spec fn view(&self) -> TransactionModel {
        TransactionModel {
            value: self.value as int,
            kind: self.kind,
            description: self.description@,
            created_at: self.created_at@,
        }
    }
}

impl Transaction {
    pub open spec fn wf(&self) -> bool {
        self@.wf()
    }

    /// Accepts exactly the non-negative amounts; the description was already
    /// validated by `Description::try_from`.
    pub fn new(value: i64, kind: TransactionKind, description: Description, created_at: String) -> (r:
        Result<Transaction, ApiError>)
        requires
            description.wf(),
        ensures
            match r {
                Ok(t) => value >= 0 && t@ == (TransactionModel {
                    value: value as int,
                    kind: kind,
                    description: description@,
                    created_at: created_at@,
                }),
                Err(e) => value < 0 && e == ApiError::InvalidInput,
            },
    {
        if value < 0 {
            Err(ApiError::InvalidInput)
        } else {
            Ok(Transaction { value, kind, description, created_at })
        }
    }

    pub fn value(&self) -> (r: i64)
        ensures
            r as int == self@.value,
    {
        self.value
    }

    pub fn kind(&self) -> (r: TransactionKind)
        ensures
            r == self@.kind,
    {
        self.kind
    }

    pub fn description(&self) -> (r: &Description)
        ensures
            r@ == self@.description,
    {
        &self.description
    }

    pub fn created_at(&self) -> (r: &str)
        ensures
            r@ == self@.created_at,
    {
        self.created_at.as_str()
    }
}

impl Clone for Transaction {
    fn clone(&self) -> (r: Self)
        ensures
            r@ == self@,
    {
        Transaction {
            value: self.value,
            kind: self.kind,
            description: self.description.clone(),
            created_at: self.created_at.clone(),
        }
    }
}

} // verus!
