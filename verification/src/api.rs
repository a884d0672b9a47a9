//! The request-facing surface: error taxonomy, field parsing, and the
//! decisions behind the two routes.

use crate::account::{spec_accepts, spec_apply};
use crate::table::AccountTable;
use crate::transaction::{Description, Transaction, TransactionKind, TransactionModel};
use vstd::prelude::*;

verus! {

/// Why the service refuses a request.
#[derive(Clone, Copy, PartialEq, Eq, Structural, Debug)]
pub enum ApiError {
    /// The account id is not in the preloaded table.
    NotFound,
    /// A request field is malformed: negative amount, unknown kind, or a
    /// description outside the length bound.
    InvalidInput,
    /// The debit would drive the balance below the negative limit.
    InsufficientLimit,
}

impl ApiError {
    pub open spec fn spec_status_code(self) -> u16 {
        match self {
            ApiError::NotFound => 404,
            ApiError::InvalidInput => 422,
            ApiError::InsufficientLimit => 422,
        }
    }

    /// The HTTP status this error surfaces as.
    pub fn status_code(&self) -> (code: u16)
        ensures
            code == self.spec_status_code(),
    {
        match self {
            ApiError::NotFound => 404,
            ApiError::InvalidInput => 422,
            ApiError::InsufficientLimit => 422,
        }
    }
}

/// The kind named by a request's `tipo` field: `"C"` or `"D"`.
pub open spec fn spec_kind_of(s: Seq<char>) -> Option<TransactionKind> {
    if s.len() == 1 && s[0] == 'C' {
        Some(TransactionKind::Credit)
    } else if s.len() == 1 && s[0] == 'D' {
        Some(TransactionKind::Debit)
    } else {
        None
    }
}

pub fn parse_kind(tipo: &str) -> (r: Option<TransactionKind>)
    ensures
        r == spec_kind_of(tipo@),
{
    if tipo.unicode_len() == 1 {
        let c = tipo.get_char(0);
        if c == 'C' {
            Some(TransactionKind::Credit)
        } else if c == 'D' {
            Some(TransactionKind::Debit)
        } else {
            None
        }
    } else {
        None
    }
}

/// A request body is valid when the amount is non-negative, the kind is
/// `"C"` or `"D"`, and the description length lies in `[1, 10]`.
pub open spec fn spec_valid_request(valor: i64, tipo: Seq<char>, descricao: Seq<char>) -> bool {
    &&& valor >= 0
    &&& spec_kind_of(tipo) is Some
    &&& Description::spec_valid(descricao)
}

/// Everything the transaction route decides, as a relation between the table
/// before (`pre`) and after (`post`) the request and its result `r`: an
/// invalid body is refused as `InvalidInput`, an unknown id as `NotFound`, a
/// refused debit as `InsufficientLimit`, each leaving the table unchanged;
/// an accepted transaction updates exactly the target account and returns
/// its new `(balance, limit)` pair.
pub open spec fn spec_transaction_outcome(
    pre: AccountTable,
    post: AccountTable,
    r: Result<(i64, i64), ApiError>,
    id: u8,
    valor: i64,
    tipo: Seq<char>,
    descricao: Seq<char>,
    created_at: Seq<char>,
) -> bool {
    &&& post.wf()
    &&& post.spec_ids() == pre.spec_ids()
    &&& forall|a: u8|
        pre.spec_contains(a) && a != id ==> post.spec_contains(a) && post.spec_account(a)
            == pre.spec_account(a)
    &&& if !spec_valid_request(valor, tipo, descricao) {
        r == Err::<(i64, i64), ApiError>(ApiError::InvalidInput) && post.spec_entries()
            == pre.spec_entries()
    } else if !pre.spec_contains(id) {
        r == Err::<(i64, i64), ApiError>(ApiError::NotFound) && post.spec_entries()
            == pre.spec_entries()
    } else {
        match spec_kind_of(tipo) {
            Some(kind) => {
                let t = TransactionModel { value: valor as int, kind, description: descricao, created_at };
                let m = pre.spec_account(id);
                if spec_accepts(m, t) {
                    &&& r matches Ok(p) && p.0 as int == spec_apply(m, t).balance && p.1 as int
                        == spec_apply(m, t).limit
                    &&& post.spec_account(id) == spec_apply(m, t)
                } else {
                    r == Err::<(i64, i64), ApiError>(ApiError::InsufficientLimit)
                        && post.spec_entries() == pre.spec_entries()
                }
            },
            None => false,
        }
    }
}

/// Validates a decoded request body into a transaction; a missing
/// `realizada_em` is defaulted to the current wall-clock instant, about
/// whose text nothing is claimed.
pub fn build_transaction(
    valor: i64,
    tipo: &str,
    descricao: String,
    realizada_em: Option<String>,
) -> (r: Result<Transaction, ApiError>)
    ensures
        r is Ok <==> spec_valid_request(valor, tipo@, descricao@),
        r matches Ok(t) ==> t.wf() && t@.value == valor as int && Some(t@.kind) == spec_kind_of(
            tipo@,
        ) && t@.description == descricao@ && (realizada_em matches Some(ts) ==> t@.created_at
            == ts@),
        r matches Err(e) ==> e == ApiError::InvalidInput,
{
    let kind = match parse_kind(tipo) {
        None => {
            return Err(ApiError::InvalidInput);
        },
        Some(k) => k,
    };
    let description = match Description::try_from(descricao) {
        Err(e) => {
            return Err(e);
        },
        Ok(d) => d,
    };
    let created_at = match realizada_em {
        Some(ts) => ts,
        None => crate::clock::now_utc_rfc3339(),
    };
    Transaction::new(valor, kind, description, created_at)
}

/// The transaction route, after the HTTP layer has decoded the body into
/// plain fields and resolved the timestamp. Validates the fields, resolves
/// the account and offers the transaction to it.
pub fn handle_transaction(
    table: &mut AccountTable,
    id: u8,
    valor: i64,
    tipo: &str,
    descricao: String,
    created_at: String,
) -> (r: Result<(i64, i64), ApiError>)
    requires
        old(table).wf(),
    ensures
        spec_transaction_outcome(
            *old(table),
            *final(table),
            r,
            id,
            valor,
            tipo@,
            descricao@,
            created_at@,
        ),
{
    let kind = match parse_kind(tipo) {
        None => {
            return Err(ApiError::InvalidInput);
        },
        Some(k) => k,
    };
    let description = match Description::try_from(descricao) {
        Err(e) => {
            return Err(e);
        },
        Ok(d) => d,
    };
    let transaction = match Transaction::new(valor, kind, description, created_at) {
        Err(e) => {
            return Err(e);
        },
        Ok(t) => t,
    };
    table.post_transaction(id, transaction)
}

/// The same route with the timestamp still optional, as it arrives in the
/// body: a missing `realizada_em` is defaulted to the current wall-clock
/// instant, about whose text nothing is claimed.
pub fn handle_transaction_at(
    table: &mut AccountTable,
    id: u8,
    valor: i64,
    tipo: &str,
    descricao: String,
    realizada_em: Option<String>,
) -> (r: Result<(i64, i64), ApiError>)
    requires
        old(table).wf(),
    ensures
        match realizada_em {
            Some(ts) => spec_transaction_outcome(
                *old(table),
                *final(table),
                r,
                id,
                valor,
                tipo@,
                descricao@,
                ts@,
            ),
            None => exists|ts: Seq<char>|
                spec_transaction_outcome(
                    *old(table),
                    *final(table),
                    r,
                    id,
                    valor,
                    tipo@,
                    descricao@,
                    ts,
                ),
        },
{
    let created_at = match realizada_em {
        Some(ts) => ts,
        None => crate::clock::now_utc_rfc3339(),
    };
    let ghost ts_view = created_at@;
    let r = handle_transaction(table, id, valor, tipo, descricao, created_at);
    proof {
        assert(spec_transaction_outcome(
            *old(table),
            *table,
            r,
            id,
            valor,
            tipo@,
            descricao@,
            ts_view,
        ));
    }
    r
}

} // verus!
