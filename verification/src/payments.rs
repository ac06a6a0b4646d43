//! Payment records: transfers between principals, deposits from external
//! payment networks, and linked external accounts.

use vstd::prelude::*;
use crate::principal::Principal;
use crate::wallet::{opt_str_view, dup_opt_string};

verus! {

/// Lifecycle of a transfer or deposit.  Transitions are monotonic:
/// `Completed`, `Failed` and `Cancelled` are terminal.
#[derive(Clone, Copy, Debug, PartialEq, Eq, Structural)]
pub enum TxStatus {
    Pending,
    Processing,
    Completed,
    Failed,
    Cancelled,
}

/// A money transfer between principals.
pub struct PaymentTransaction {
    pub id: u64,
    pub from_principal: Principal,
    pub to_principal: Option<Principal>,
    pub to_external_account: Option<String>,
    pub amount: u64,
    pub payment_method: String,
    pub transaction_type: String,
    pub status: TxStatus,
    pub emotional_context: Option<String>,
    pub safety_approved: bool,
    pub created_at: u64,
    pub completed_at: Option<u64>,
    pub notes: Option<String>,
    pub icp_block_index: Option<u64>,
}

/// View of an optional principal.
pub open spec fn opt_principal_view(o: Option<Principal>) -> Option<Seq<u8>> {
    match o {
        Option::None => Option::None,
        Option::Some(p) => Option::Some(p@),
    }
}

/// Copies an optional principal.
pub fn dup_opt_principal(o: &Option<Principal>) -> (r: Option<Principal>)
    ensures
        opt_principal_view(r) == opt_principal_view(*o),
{
    match o {
        Option::None => Option::None,
        Option::Some(p) => Option::Some(p.dup()),
    }
}

/// Observational equality of two transactions: every field agrees.
pub open spec fn tx_eq(a: PaymentTransaction, b: PaymentTransaction) -> bool {
    &&& a.id == b.id
    &&& a.from_principal@ == b.from_principal@
    &&& opt_principal_view(a.to_principal) == opt_principal_view(b.to_principal)
    &&& opt_str_view(a.to_external_account) == opt_str_view(b.to_external_account)
    &&& a.amount == b.amount
    &&& a.payment_method@ == b.payment_method@
    &&& a.transaction_type@ == b.transaction_type@
    &&& a.status == b.status
    &&& opt_str_view(a.emotional_context) == opt_str_view(b.emotional_context)
    &&& a.safety_approved == b.safety_approved
    &&& a.created_at == b.created_at
    &&& a.completed_at == b.completed_at
    &&& opt_str_view(a.notes) == opt_str_view(b.notes)
    &&& a.icp_block_index == b.icp_block_index
}

impl PaymentTransaction {
    /// An independent copy of this transaction.
    pub fn dup(&self) -> (r: PaymentTransaction)
        ensures
            tx_eq(r, *self),
    {
        PaymentTransaction {
            id: self.id,
            from_principal: self.from_principal.dup(),
            to_principal: dup_opt_principal(&self.to_principal),
            to_external_account: dup_opt_string(&self.to_external_account),
            amount: self.amount,
            payment_method: self.payment_method.clone(),
            transaction_type: self.transaction_type.clone(),
            status: self.status,
            emotional_context: dup_opt_string(&self.emotional_context),
            safety_approved: self.safety_approved,
            created_at: self.created_at,
            completed_at: self.completed_at,
            notes: dup_opt_string(&self.notes),
            icp_block_index: self.icp_block_index,
        }
    }
}

/// A deposit from an external payment network, keyed for idempotency by
/// the external payment id.
pub struct DepositRequest {
    pub id: u64,
    pub user_principal: Principal,
    pub amount: u64,
    pub payment_method: String,
    pub external_payment_id: String,
    pub status: TxStatus,
    pub created_at: u64,
    pub completed_at: Option<u64>,
    pub verification_code: Option<String>,
}

/// Observational equality of two deposit requests.
pub open spec fn deposit_eq(a: DepositRequest, b: DepositRequest) -> bool {
    &&& a.id == b.id
    &&& a.user_principal@ == b.user_principal@
    &&& a.amount == b.amount
    &&& a.payment_method@ == b.payment_method@
    &&& a.external_payment_id@ == b.external_payment_id@
    &&& a.status == b.status
    &&& a.created_at == b.created_at
    &&& a.completed_at == b.completed_at
    &&& opt_str_view(a.verification_code) == opt_str_view(b.verification_code)
}

impl DepositRequest {
    /// An independent copy of this deposit request.
    pub fn dup(&self) -> (r: DepositRequest)
        ensures
            deposit_eq(r, *self),
    {
        DepositRequest {
            id: self.id,
            user_principal: self.user_principal.dup(),
            amount: self.amount,
            payment_method: self.payment_method.clone(),
            external_payment_id: self.external_payment_id.clone(),
            status: self.status,
            created_at: self.created_at,
            completed_at: self.completed_at,
            verification_code: dup_opt_string(&self.verification_code),
        }
    }
}

/// An external account linked to a wallet; the identifier is stored
/// masked.
pub struct LinkedAccount {
    pub id: u64,
    pub account_type: String,
    pub account_identifier: String,
    pub account_nickname: String,
    pub is_verified: bool,
    pub added_at: u64,
    pub last_used: Option<u64>,
}

/// Observational equality of two linked accounts.
pub open spec fn linked_eq(a: LinkedAccount, b: LinkedAccount) -> bool {
    &&& a.id == b.id
    &&& a.account_type@ == b.account_type@
    &&& a.account_identifier@ == b.account_identifier@
    &&& a.account_nickname@ == b.account_nickname@
    &&& a.is_verified == b.is_verified
    &&& a.added_at == b.added_at
    &&& a.last_used == b.last_used
}

impl LinkedAccount {
    /// An independent copy of this linked account.
    pub fn dup(&self) -> (r: LinkedAccount)
        ensures
            linked_eq(r, *self),
    {
        LinkedAccount {
            id: self.id,
            account_type: self.account_type.clone(),
            account_identifier: self.account_identifier.clone(),
            account_nickname: self.account_nickname.clone(),
            is_verified: self.is_verified,
            added_at: self.added_at,
            last_used: self.last_used,
        }
    }
}

/// Arguments of a transfer on the host ledger, in its wire format.
pub struct TransferArgs {
    pub memo: u64,
    pub amount: u64,
    pub fee: u64,
    pub from_subaccount: Option<Vec<u8>>,
    pub to: String,
    pub created_at_time: Option<u64>,
}

/// Result of a transfer on the host ledger: the block index on success.
pub enum TransferResult {
    Confirmed(u64),
    Refused(TransferError),
}

/// Failure of a transfer on the host ledger.
pub enum TransferError {
    BadFee { expected_fee: u64 },
    InsufficientFunds { balance: u64 },
    TxTooOld { allowed_window_nanos: u64 },
    TxCreatedInFuture,
    TxDuplicate { duplicate_of: u64 },
}

} // verus!
