//! Wallet management and the money-moving operations.
//!
//! Deposits and transfers cross a suspension point (the external payment
//! call), so each is split into a pre-suspension step that validates and
//! reserves, and a post-suspension step that commits or rolls back.  The
//! caller performs the external call between the two steps; any other
//! operation may run while it is suspended, and the contracts of the two
//! steps say exactly what those interleaved operations can observe.

use vstd::prelude::*;
use vstd::pervasive::VecAdditionalExecFns;
use crate::errors::CafeError;
use crate::lookup::{lemma_first_where_is, lemma_first_where_props, lemma_first_where_push,
    lemma_first_where_update};
use crate::payments::{
    linked_eq, opt_principal_view, tx_eq, DepositRequest, LinkedAccount, PaymentTransaction,
    TxStatus,
};
use crate::state::{linked_pred, LinkedLog};
use vstd::string::StrSliceExecFns;
use crate::principal::{is_anonymous, Principal};
use crate::state::{
    lemma_cafe_wallet_push, lemma_cafe_wallet_update, lemma_ptotal_at_least, lemma_ptotal_push,
    lemma_ptotal_update, tx_contrib, wallet_pred, Cafe,
};
use crate::wallet::{
    default_patterns, default_privacy, opt_str_view, wallet_eq, wallet_eq_except_funds, CafeWallet,
    SafetyRating, WalletStats,
};

verus! {

/// When a transfer may begin: an authenticated sender, a recipient that
/// resolves to a known identity, a positive amount, and enough spendable
/// (unreserved) balance at the moment of the check.
pub open spec fn can_send(s: Cafe, from: Seq<u8>, to: Seq<u8>, amount: u64) -> bool {
    &&& !is_anonymous(from)
    &&& !is_anonymous(to)
    &&& amount > 0
    &&& s.avail_of(from) >= amount
}

/// The deposit keyed by the external payment id `r`.
pub open spec fn deposit_ref_pred(r: Seq<char>) -> spec_fn(DepositRequest) -> bool {
    |d: DepositRequest| d.external_payment_id@ == r
}

impl Cafe {
    /// Index of the deposit with external payment id `r`, or -1.
    pub open spec fn deposit_ref_ix(self, r: Seq<char>) -> int {
        crate::lookup::first_where(self.deposits@, deposit_ref_pred(r))
    }
}

/// The sender's funds between `pre` and `post` after a reservation is
/// taken: the balance is untouched, the hold grows by the amount, and no
/// other principal's funds move.
pub open spec fn reserves(pre: Cafe, post: Cafe, from: Seq<u8>, amount: u64) -> bool {
    &&& post.balance_of(from) == pre.balance_of(from)
    &&& post.reserved_of(from) == pre.reserved_of(from) + amount
    &&& pre.has_wallet(from) ==> wallet_eq_except_funds(post.wallet_of(from), pre.wallet_of(from))
    &&& forall|q: Seq<u8>|
        q != from ==> post.balance_of(q) == pre.balance_of(q) && post.reserved_of(q)
            == pre.reserved_of(q) && post.has_wallet(q) == pre.has_wallet(q) && (pre.has_wallet(q)
            ==> post.wallet_of(q) == pre.wallet_of(q))
}

/// A reservation is rolled back: the balance is untouched, the hold
/// shrinks by the amount, and no other principal's funds move.
pub open spec fn releases(pre: Cafe, post: Cafe, from: Seq<u8>, amount: u64) -> bool {
    &&& post.balance_of(from) == pre.balance_of(from)
    &&& post.reserved_of(from) == pre.reserved_of(from) - amount
    &&& post.has_wallet(from) == pre.has_wallet(from)
    &&& pre.has_wallet(from) ==> wallet_eq_except_funds(post.wallet_of(from), pre.wallet_of(from))
    &&& forall|q: Seq<u8>|
        q != from ==> post.balance_of(q) == pre.balance_of(q) && post.reserved_of(q)
            == pre.reserved_of(q) && post.has_wallet(q) == pre.has_wallet(q) && (pre.has_wallet(q)
            ==> post.wallet_of(q) == pre.wallet_of(q))
}

/// A reserved transfer is committed: the sender's balance and hold both
/// shrink by the amount, the recipient's balance grows by it (a self
/// transfer nets to a plain release), and no other principal's funds
/// move.
pub open spec fn commits(pre: Cafe, post: Cafe, from: Seq<u8>, to: Seq<u8>, amount: u64) -> bool {
    if from == to {
        releases(pre, post, from, amount)
    } else {
        &&& post.balance_of(from) == pre.balance_of(from) - amount
        &&& post.reserved_of(from) == pre.reserved_of(from) - amount
        &&& post.balance_of(to) == pre.balance_of(to) + amount
        &&& post.reserved_of(to) == pre.reserved_of(to)
        &&& post.has_wallet(to)
        &&& post.has_wallet(from) == pre.has_wallet(from)
        &&& pre.has_wallet(from) ==> wallet_eq_except_funds(
            post.wallet_of(from),
            pre.wallet_of(from),
        )
        &&& pre.has_wallet(to) ==> wallet_eq_except_funds(post.wallet_of(to), pre.wallet_of(to))
        &&& forall|q: Seq<u8>|
            q != from && q != to ==> post.balance_of(q) == pre.balance_of(q) && post.reserved_of(q)
                == pre.reserved_of(q) && post.has_wallet(q) == pre.has_wallet(q) && (
            pre.has_wallet(q) ==> post.wallet_of(q) == pre.wallet_of(q))
    }
}

impl Cafe {
    /// Returns the platform counters.
    pub fn get_wallet_stats(&self) -> (r: WalletStats)
        ensures
            r == self.stats,
    {
        self.stats
    }

    /// Returns the caller's wallet.  Fails with `AuthError` for the
    /// anonymous sentinel and with `NotFoundError` when no wallet exists.
    pub fn get_my_wallet(&self, caller: &Principal) -> (r: Result<CafeWallet, CafeError>)
        ensures
            is_anonymous(caller@) <==> r == Result::<CafeWallet, CafeError>::Err(
                CafeError::AuthError,
            ),
            !is_anonymous(caller@) && !self.has_wallet(caller@) <==> r == Result::<
                CafeWallet,
                CafeError,
            >::Err(CafeError::NotFoundError),
            !is_anonymous(caller@) && self.has_wallet(caller@) ==> r is Ok && wallet_eq(
                r->Ok_0,
                self.wallet_of(caller@),
            ),
    {
        if caller.is_anon() {
            return Result::Err(CafeError::AuthError);
        }
        match self.find_wallet(caller) {
            Option::Some(i) => Result::Ok(self.wallets[i].dup()),
            Option::None => Result::Err(CafeError::NotFoundError),
        }
    }

    /// Returns the caller's balance, in minor units.  Fails with
    /// `AuthError` for the anonymous sentinel and with `NotFoundError`
    /// when no wallet exists.
    pub fn get_wallet_balance(&self, caller: &Principal) -> (r: Result<u64, CafeError>)
        ensures
            is_anonymous(caller@) <==> r == Result::<u64, CafeError>::Err(CafeError::AuthError),
            !is_anonymous(caller@) && !self.has_wallet(caller@) <==> r == Result::<
                u64,
                CafeError,
            >::Err(CafeError::NotFoundError),
            !is_anonymous(caller@) && self.has_wallet(caller@) <==> r is Ok && r->Ok_0
                == self.balance_of(caller@),
    {
        if caller.is_anon() {
            return Result::Err(CafeError::AuthError);
        }
        match self.find_wallet(caller) {
            Option::Some(i) => Result::Ok(self.wallets[i].icp_balance),
            Option::None => Result::Err(CafeError::NotFoundError),
        }
    }

    /// Creates the caller's wallet with an empty balance and the default
    /// policy.  Fails with `AuthError` for the anonymous sentinel and
    /// with `ConflictError` when a wallet already exists.
    pub fn create_wallet(&mut self, caller: Principal, nickname: Option<String>, now: u64) -> (r:
        Result<CafeWallet, CafeError>)
        requires
            old(self).wf(),
            now >= old(self).clock_watermark,
        ensures
            final(self).wf(),
            is_anonymous(caller@) <==> r == Result::<CafeWallet, CafeError>::Err(
                CafeError::AuthError,
            ),
            !is_anonymous(caller@) && old(self).has_wallet(caller@) <==> r == Result::<
                CafeWallet,
                CafeError,
            >::Err(CafeError::ConflictError),
            r is Ok <==> !is_anonymous(caller@) && !old(self).has_wallet(caller@),
            r is Err ==> *final(self) == *old(self),
            r is Ok ==> {
                &&& final(self).has_wallet(caller@)
                &&& wallet_eq(r->Ok_0, final(self).wallet_of(caller@))
                &&& final(self).wallet_of(caller@).principal@ == caller@
                &&& opt_str_view(final(self).wallet_of(caller@).nickname) == opt_str_view(
                    nickname,
                )
                &&& final(self).balance_of(caller@) == 0
                &&& final(self).reserved_of(caller@) == 0
                &&& final(self).wallet_of(caller@).trust_score == 50
                &&& final(self).wallet_of(caller@).safety_rating == SafetyRating::Safe
                &&& final(self).wallet_of(caller@).created_at == now
                &&& final(self).wallet_of(caller@).last_activity == now
                &&& final(self).wallet_of(caller@).total_spent == 0
                &&& crate::wallet::principals_view(
                    final(self).wallet_of(caller@).emergency_contacts@,
                ) == Seq::<Seq<u8>>::empty()
                &&& final(self).wallet_of(caller@).spending_patterns == default_patterns()
                &&& final(self).wallet_of(caller@).privacy_settings == default_privacy()
                &&& forall|q: Seq<u8>|
                    q != caller@ ==> final(self).balance_of(q) == old(self).balance_of(q)
                        && final(self).reserved_of(q) == old(self).reserved_of(q)
                        && final(self).has_wallet(q) == old(self).has_wallet(q) && (old(
                        self,
                    ).has_wallet(q) ==> final(self).wallet_of(q) == old(self).wallet_of(q))
                &&& final(self).transactions == old(self).transactions
                &&& final(self).deposits == old(self).deposits
                &&& final(self).spend_logs == old(self).spend_logs
                &&& final(self).trust_logs == old(self).trust_logs
                &&& final(self).circle_logs == old(self).circle_logs
                &&& final(self).alert_logs == old(self).alert_logs
                &&& final(self).radar_logs == old(self).radar_logs
                &&& final(self).linked_logs == old(self).linked_logs
                &&& final(self).threats == old(self).threats
                &&& final(self).stats.total_wallets == crate::wallet::sat_inc(
                    old(self).stats.total_wallets,
                )
                &&& final(self).stats.total_transactions == old(self).stats.total_transactions
                &&& final(self).stats.scams_prevented == old(self).stats.scams_prevented
                &&& final(self).stats.total_trust_connections == old(
                    self,
                ).stats.total_trust_connections
                &&& final(self).stats.last_updated == now
                &&& final(self).clock_watermark == now
            },
    {
        if caller.is_anon() {
            return Result::Err(CafeError::AuthError);
        }
        match self.find_wallet(&caller) {
            Option::Some(_) => Result::Err(CafeError::ConflictError),
            Option::None => {
                let ghost pre = *self;
                let w = CafeWallet::new_default(caller, nickname, now);
                let ghost wg = w;
                let ret = w.dup();
                self.wallets.push(w);
                self.stats = WalletStats {
                    total_wallets: crate::wallet::bump(self.stats.total_wallets),
                    total_transactions: self.stats.total_transactions,
                    scams_prevented: self.stats.scams_prevented,
                    total_trust_connections: self.stats.total_trust_connections,
                    last_updated: now,
                };
                self.clock_watermark = now;
                proof {
                    lemma_cafe_wallet_push(pre, *self, wg);
                }
                Result::Ok(ret)
            },
        }
    }

    /// Pre-suspension step of `send_money`: validates the transfer and
    /// atomically reserves the amount on the sender's wallet, so that no
    /// operation that runs while the external call is pending can spend
    /// the same funds.  Returns the transaction id to settle later.
    ///
    /// Fails with `AuthError` for the anonymous sentinel, with
    /// `ValidationError` for a zero amount or a recipient that does not
    /// resolve to a known identity, and with `InsufficientFundsError`
    /// when the spendable balance at this moment is short.
    pub fn send_money_begin(
        &mut self,
        caller: &Principal,
        to: &Principal,
        amount: u64,
        notes: Option<String>,
        now: u64,
    ) -> (r: Result<u64, CafeError>)
        requires
            old(self).wf(),
            now >= old(self).clock_watermark,
        ensures
            final(self).wf(),
            r is Ok <==> can_send(*old(self), caller@, to@, amount),
            is_anonymous(caller@) <==> r == Result::<u64, CafeError>::Err(CafeError::AuthError),
            !is_anonymous(caller@) && (amount == 0 || is_anonymous(to@)) <==> r == Result::<
                u64,
                CafeError,
            >::Err(CafeError::ValidationError),
            !is_anonymous(caller@) && amount > 0 && !is_anonymous(to@) && old(self).avail_of(
                caller@,
            ) < amount <==> r == Result::<u64, CafeError>::Err(CafeError::InsufficientFundsError),
            r is Err ==> *final(self) == *old(self),
            r is Ok ==> {
                &&& r->Ok_0 == old(self).transactions@.len()
                &&& reserves(*old(self), *final(self), caller@, amount)
                &&& final(self).transactions@.len() == old(self).transactions@.len() + 1
                &&& forall|t: int|
                    0 <= t < old(self).transactions@.len() ==> final(self).transactions@[t] == old(
                        self,
                    ).transactions@[t]
                &&& final(self).transactions@.last().id == r->Ok_0
                &&& final(self).transactions@.last().from_principal@ == caller@
                &&& opt_principal_view(final(self).transactions@.last().to_principal)
                    == Option::Some(to@)
                &&& final(self).transactions@.last().amount == amount
                &&& final(self).transactions@.last().status == TxStatus::Processing
                &&& final(self).transactions@.last().created_at == now
                &&& final(self).transactions@.last().completed_at is None
                &&& final(self).transactions@.last().payment_method@ == "icp_transfer"@
                &&& final(self).transactions@.last().transaction_type@ == "send_money"@
                &&& final(self).transactions@.last().to_external_account is None
                &&& final(self).transactions@.last().emotional_context is None
                &&& final(self).transactions@.last().safety_approved == true
                &&& final(self).transactions@.last().icp_block_index is None
                &&& opt_str_view(final(self).transactions@.last().notes) == opt_str_view(notes)
                &&& final(self).deposits == old(self).deposits
                &&& final(self).spend_logs == old(self).spend_logs
                &&& final(self).trust_logs == old(self).trust_logs
                &&& final(self).circle_logs == old(self).circle_logs
                &&& final(self).alert_logs == old(self).alert_logs
                &&& final(self).radar_logs == old(self).radar_logs
                &&& final(self).linked_logs == old(self).linked_logs
                &&& final(self).threats == old(self).threats
                &&& final(self).stats == old(self).stats
                &&& final(self).clock_watermark == now
            },
    {
        if caller.is_anon() {
            return Result::Err(CafeError::AuthError);
        }
        if amount == 0 || to.is_anon() {
            return Result::Err(CafeError::ValidationError);
        }
        let oi = self.find_wallet(caller);
        match oi {
            Option::None => {
                proof {
                    assert(old(self).avail_of(caller@) == 0);
                }
                Result::Err(CafeError::InsufficientFundsError)
            },
            Option::Some(i) => {
                proof {
                    assert(self.wallets@[i as int].wf());
                }
                let bal = self.wallets[i].icp_balance;
                let res = self.wallets[i].reserved;
                let avail = bal - res;
                if avail < amount {
                    return Result::Err(CafeError::InsufficientFundsError);
                }
                let ghost pre = *self;
                let mut w = self.wallets[i].dup();
                w.reserved = res + amount;
                let ghost wg = w;
                self.wallets.set(i, w);
                let tx_id = self.transactions.len() as u64;
                let tx = PaymentTransaction {
                    id: tx_id,
                    from_principal: caller.dup(),
                    to_principal: Option::Some(to.dup()),
                    to_external_account: Option::None,
                    amount,
                    payment_method: "icp_transfer".to_owned(),
                    transaction_type: "send_money".to_owned(),
                    status: TxStatus::Processing,
                    emotional_context: Option::None,
                    safety_approved: true,
                    created_at: now,
                    completed_at: Option::None,
                    notes,
                    icp_block_index: Option::None,
                };
                let ghost txg = tx;
                self.transactions.push(tx);
                self.clock_watermark = now;
                proof {
                    let p = caller@;
                    assert forall|j: int| 0 <= j < i implies !(wallet_pred(p)(
                        pre.wallets@[j],
                    )) by {
                        assert(pre.wallets@[j].principal@ != pre.wallets@[i as int].principal@);
                    }
                    lemma_first_where_is(pre.wallets@, wallet_pred(p), i as int);
                    assert forall|q: Seq<u8>| self.wallet_ix(q) == pre.wallet_ix(q) by {
                        lemma_first_where_update(pre.wallets@, wallet_pred(q), i as int, wg);
                    }
                    assert forall|q: Seq<u8>| #[trigger] crate::state::processing_total(
                        self.transactions@,
                        q,
                    ) == crate::state::processing_total(pre.transactions@, q) + tx_contrib(
                        txg,
                        q,
                    ) by {
                        lemma_ptotal_push(pre.transactions@, txg, q);
                    }
                    assert forall|k: int|
                        0 <= k < self.wallets@.len() implies (#[trigger] self.wallets@[k]).reserved
                        == crate::state::processing_total(
                        self.transactions@,
                        self.wallets@[k].principal@,
                    ) by {
                        if k != i as int {
                            assert(self.wallets@[k] == pre.wallets@[k]);
                            assert(pre.wallets@[k].principal@ != p);
                            assert(tx_contrib(txg, pre.wallets@[k].principal@) == 0);
                        } else {
                            assert(tx_contrib(txg, p) == amount);
                        }
                    }
                    assert(self.wallets_wf());
                    assert(self.txs_wf());
                    assert(self.deposits_wf());
                    assert forall|q: Seq<u8>| q != p implies self.balance_of(q)
                        == pre.balance_of(q) && self.reserved_of(q) == pre.reserved_of(q)
                        && self.has_wallet(q) == pre.has_wallet(q) && (pre.has_wallet(q)
                        ==> self.wallet_of(q) == pre.wallet_of(q)) by {
                        lemma_first_where_props(pre.wallets@, wallet_pred(q));
                        if pre.wallet_ix(q) >= 0 {
                            assert(pre.wallets@[pre.wallet_ix(q)].principal@ == q);
                            assert(pre.wallet_ix(q) != i as int);
                        }
                    }
                    assert(self.wallet_of(p) == wg);
                    assert(reserves(pre, *self, p, amount));
                }
                Result::Ok(tx_id)
            },
        }
    }

    /// Finds the wallet of `p`, creating an empty default wallet first
    /// when none exists (as `send_money` does for an unknown recipient).
    fn ensure_wallet(&mut self, p: &Principal, now: u64) -> (i: usize)
        requires
            old(self).wf(),
            !is_anonymous(p@),
            now >= old(self).clock_watermark,
        ensures
            final(self).wf(),
            final(self).has_wallet(p@),
            i as int == final(self).wallet_ix(p@),
            i < final(self).wallets@.len(),
            final(self).wallets@[i as int].principal@ == p@,
            old(self).has_wallet(p@) ==> *final(self) == *old(self),
            !old(self).has_wallet(p@) ==> {
                &&& final(self).balance_of(p@) == 0
                &&& final(self).reserved_of(p@) == 0
                &&& final(self).wallet_of(p@).trust_score == 50
                &&& final(self).wallet_of(p@).safety_rating == SafetyRating::Safe
                &&& final(self).wallet_of(p@).spending_patterns == default_patterns()
                &&& final(self).wallet_of(p@).privacy_settings == default_privacy()
                &&& opt_str_view(final(self).wallet_of(p@).nickname) is None
                &&& crate::wallet::principals_view(final(self).wallet_of(p@).emergency_contacts@)
                    == Seq::<Seq<u8>>::empty()
                &&& final(self).wallet_of(p@).created_at == now
                &&& final(self).wallet_of(p@).last_activity == now
                &&& final(self).wallet_of(p@).total_spent == 0
                &&& forall|q: Seq<u8>|
                    q != p@ ==> final(self).balance_of(q) == old(self).balance_of(q)
                        && final(self).reserved_of(q) == old(self).reserved_of(q)
                        && final(self).has_wallet(q) == old(self).has_wallet(q)
                &&& final(self).transactions == old(self).transactions
                &&& final(self).deposits == old(self).deposits
                &&& final(self).spend_logs == old(self).spend_logs
                &&& final(self).trust_logs == old(self).trust_logs
                &&& final(self).circle_logs == old(self).circle_logs
                &&& final(self).alert_logs == old(self).alert_logs
                &&& final(self).radar_logs == old(self).radar_logs
                &&& final(self).linked_logs == old(self).linked_logs
                &&& final(self).threats == old(self).threats
                &&& final(self).stats == old(self).stats
                &&& final(self).next_radar_id == old(self).next_radar_id
                &&& final(self).clock_watermark == now
            },
            final(self).balance_of(p@) == old(self).balance_of(p@),
            final(self).reserved_of(p@) == old(self).reserved_of(p@),
            forall|q: Seq<u8>|
                q != p@ && old(self).has_wallet(q) ==> final(self).wallet_of(q) == old(
                    self,
                ).wallet_of(q),
            now >= final(self).clock_watermark,
    {
        match self.find_wallet(p) {
            Option::Some(i) => i,
            Option::None => {
                let ghost pre = *self;
                let w = CafeWallet::new_default(p.dup(), Option::None, now);
                let ghost wg = w;
                let i = self.wallets.len();
                self.wallets.push(w);
                self.clock_watermark = now;
                proof {
                    lemma_cafe_wallet_push(pre, *self, wg);
                }
                i
            },
        }
    }

    /// Post-suspension step of `send_money`: settles the reserved
    /// transfer once the external call has reported.  On success the
    /// sender is debited and the recipient credited (a wallet is created
    /// for an unknown recipient) as one atomic step; on failure, or when
    /// the credit would overflow the recipient's balance, the reservation
    /// is released and the transaction marked `Failed`.
    ///
    /// Fails with `NotFoundError` for an unknown transaction id and with
    /// `ConflictError` for a transaction already settled.
    pub fn send_money_finish(
        &mut self,
        tx_id: u64,
        success: bool,
        block_index: Option<u64>,
        now: u64,
    ) -> (r: Result<(), CafeError>)
        requires
            old(self).wf(),
            now >= old(self).clock_watermark,
        ensures
            final(self).wf(),
            !(tx_id < old(self).transactions@.len()) <==> r == Result::<(), CafeError>::Err(
                CafeError::NotFoundError,
            ),
            tx_id < old(self).transactions@.len() && old(self).transactions@[tx_id as int].status
                != TxStatus::Processing <==> r == Result::<(), CafeError>::Err(
                CafeError::ConflictError,
            ),
            r == Result::<(), CafeError>::Err(CafeError::NotFoundError) || r == Result::<
                (),
                CafeError,
            >::Err(CafeError::ConflictError) ==> *final(self) == *old(self),
            (tx_id < old(self).transactions@.len() && old(self).transactions@[tx_id as int].status
                == TxStatus::Processing) ==> {
                let otx = old(self).transactions@[tx_id as int];
                let from = otx.from_principal@;
                let tov = otx.to_principal->Some_0@;
                &&& final(self).transactions@.len() == old(self).transactions@.len()
                &&& forall|u: int|
                    0 <= u < old(self).transactions@.len() && u != tx_id
                        ==> final(self).transactions@[u] == old(self).transactions@[u]
                &&& final(self).transactions@[tx_id as int].id == otx.id
                &&& final(self).transactions@[tx_id as int].from_principal@ == from
                &&& opt_principal_view(final(self).transactions@[tx_id as int].to_principal)
                    == opt_principal_view(otx.to_principal)
                &&& final(self).transactions@[tx_id as int].amount == otx.amount
                &&& final(self).transactions@[tx_id as int].completed_at == Option::Some(now)
                &&& (!success ==> {
                    &&& r is Ok
                    &&& final(self).transactions@[tx_id as int].status == TxStatus::Failed
                    &&& releases(*old(self), *final(self), from, otx.amount)
                })
                &&& (success && (tov == from || old(self).balance_of(tov) + otx.amount
                    <= u64::MAX) ==> {
                    &&& r is Ok
                    &&& final(self).transactions@[tx_id as int].status == TxStatus::Completed
                    &&& final(self).transactions@[tx_id as int].icp_block_index == block_index
                    &&& commits(*old(self), *final(self), from, tov, otx.amount)
                })
                &&& (success && tov != from && old(self).balance_of(tov) + otx.amount > u64::MAX
                    ==> {
                    &&& r == Result::<(), CafeError>::Err(CafeError::ValidationError)
                    &&& final(self).transactions@[tx_id as int].status == TxStatus::Failed
                    &&& releases(*old(self), *final(self), from, otx.amount)
                })
                &&& (success && tov != from && !old(self).has_wallet(tov) ==> {
                    let w = final(self).wallet_of(tov);
                    &&& w.principal@ == tov
                    &&& w.trust_score == 50
                    &&& w.safety_rating == SafetyRating::Safe
                    &&& w.spending_patterns == default_patterns()
                    &&& w.privacy_settings == default_privacy()
                    &&& opt_str_view(w.nickname) is None
                    &&& crate::wallet::principals_view(w.emergency_contacts@) == Seq::<
                        Seq<u8>,
                    >::empty()
                    &&& w.created_at == now
                    &&& w.total_spent == 0
                })
                &&& final(self).deposits == old(self).deposits
                &&& final(self).spend_logs == old(self).spend_logs
                &&& final(self).trust_logs == old(self).trust_logs
                &&& final(self).circle_logs == old(self).circle_logs
                &&& final(self).alert_logs == old(self).alert_logs
                &&& final(self).radar_logs == old(self).radar_logs
                &&& final(self).linked_logs == old(self).linked_logs
                &&& final(self).threats == old(self).threats
                &&& final(self).stats == old(self).stats
                &&& final(self).clock_watermark == now
            },
    {
        let n = self.transactions.len();
        if tx_id >= n as u64 {
            return Result::Err(CafeError::NotFoundError);
        }
        let t = tx_id as usize;
        let is_processing = match self.transactions[t].status {
            TxStatus::Processing => true,
            _ => false,
        };
        if !is_processing {
            return Result::Err(CafeError::ConflictError);
        }
        let from = self.transactions[t].from_principal.dup();
        let tov = match &self.transactions[t].to_principal {
            Option::Some(q) => q.dup(),
            Option::None => {
                proof {
                    assert(false);
                }
                return Result::Err(CafeError::NotFoundError);
            },
        };
        let amt = self.transactions[t].amount;
        let ghost pre = *self;
        if !success {
            self.release_and_settle(t, &from, amt, TxStatus::Failed, Option::None, now);
            return Result::Ok(());
        }
        if from.eq_p(&tov) {
            self.release_and_settle(t, &from, amt, TxStatus::Completed, block_index, now);
            return Result::Ok(());
        }
        let j = self.ensure_wallet(&tov, now);
        let ghost mid = *self;
        let rbal = self.wallets[j].icp_balance;
        if rbal > u64::MAX - amt {
            proof {
                if !pre.has_wallet(tov@) {
                    assert(mid.balance_of(tov@) == 0);
                    assert(false);
                }
                assert(mid == pre);
            }
            self.release_and_settle(t, &from, amt, TxStatus::Failed, Option::None, now);
            return Result::Err(CafeError::ValidationError);
        }
        let i = match self.find_wallet(&from) {
            Option::Some(i) => i,
            Option::None => {
                proof {
                    assert(false);
                }
                return Result::Err(CafeError::NotFoundError);
            },
        };
        proof {
            assert(mid.wallets@[i as int].wf());
            lemma_ptotal_at_least(mid.transactions@, t as int, from@);
        }
        let mut ws = self.wallets[i].dup();
        let ghost iix = i as int;
        let bal = ws.icp_balance;
        let res = ws.reserved;
        ws.icp_balance = bal - amt;
        ws.reserved = res - amt;
        let ghost wsg = ws;
        self.wallets.set(i, ws);
        let mut wr = self.wallets[j].dup();
        wr.icp_balance = rbal + amt;
        let ghost wrg = wr;
        self.wallets.set(j, wr);
        let mut tx2 = self.transactions[t].dup();
        tx2.status = TxStatus::Completed;
        tx2.completed_at = Option::Some(now);
        tx2.icp_block_index = block_index;
        let ghost txg = tx2;
        self.transactions.set(t, tx2);
        self.clock_watermark = now;
        proof {
            let p = from@;
            let q2 = tov@;
            assert(i != j);
            assert forall|k: int| 0 <= k < iix implies !(wallet_pred(p)(mid.wallets@[k])) by {
                assert(mid.wallets@[k].principal@ != mid.wallets@[iix].principal@);
            }
            lemma_first_where_is(mid.wallets@, wallet_pred(p), iix);
            let w1 = mid.wallets@.update(iix, wsg);
            assert forall|q: Seq<u8>| self.wallet_ix(q) == mid.wallet_ix(q) by {
                lemma_first_where_update(mid.wallets@, wallet_pred(q), iix, wsg);
                lemma_first_where_update(w1, wallet_pred(q), j as int, wrg);
                assert(w1.update(j as int, wrg) == self.wallets@);
            }
            assert forall|q: Seq<u8>| #[trigger] crate::state::processing_total(
                self.transactions@,
                q,
            ) == crate::state::processing_total(mid.transactions@, q) - tx_contrib(
                mid.transactions@[t as int],
                q,
            ) + tx_contrib(txg, q) by {
                lemma_ptotal_update(mid.transactions@, t as int, txg, q);
            }
            assert forall|k: int|
                0 <= k < self.wallets@.len() implies (#[trigger] self.wallets@[k]).reserved
                == crate::state::processing_total(
                self.transactions@,
                self.wallets@[k].principal@,
            ) && self.wallets@[k].wf() by {
                if k == iix {
                    assert(self.wallets@[k] == wsg);
                    assert(tx_contrib(mid.transactions@[t as int], p) == amt);
                    assert(tx_contrib(txg, p) == 0);
                } else if k == j as int {
                    assert(self.wallets@[k] == wrg);
                    assert(tx_contrib(mid.transactions@[t as int], q2) == 0);
                    assert(tx_contrib(txg, q2) == 0);
                } else {
                    assert(self.wallets@[k] == mid.wallets@[k]);
                    assert(mid.wallets@[k].principal@ != p);
                    assert(mid.wallets@[k].principal@ != q2);
                    assert(tx_contrib(mid.transactions@[t as int], mid.wallets@[k].principal@)
                        == 0);
                    assert(tx_contrib(txg, mid.wallets@[k].principal@) == 0);
                }
            }
            assert(self.wallets_wf());
            assert(self.txs_wf());
            assert(self.deposits_wf());
            assert forall|q: Seq<u8>| q != p && q != q2 implies self.balance_of(q)
                == mid.balance_of(q) && self.reserved_of(q) == mid.reserved_of(q)
                && self.has_wallet(q) == mid.has_wallet(q) && (mid.has_wallet(q)
                ==> self.wallet_of(q) == mid.wallet_of(q)) by {
                lemma_first_where_props(mid.wallets@, wallet_pred(q));
                if mid.wallet_ix(q) >= 0 {
                    assert(mid.wallets@[mid.wallet_ix(q)].principal@ == q);
                    assert(mid.wallet_ix(q) != iix);
                    assert(mid.wallet_ix(q) != j as int);
                }
            }
            assert(self.balance_of(p) == mid.balance_of(p) - amt);
            assert(self.balance_of(q2) == mid.balance_of(q2) + amt);
            assert(self.wallet_of(p) == wsg);
            assert(self.wallet_of(q2) == wrg);
            assert(mid.wallets@[iix] == mid.wallet_of(p));
            assert(mid.wallets@[j as int] == mid.wallet_of(q2));
            assert(pre.has_wallet(p) ==> mid.wallet_of(p) == pre.wallet_of(p));
            assert(pre.has_wallet(p) ==> wallet_eq_except_funds(self.wallet_of(p), pre.wallet_of(p)));
            if pre.has_wallet(q2) {
                assert(mid == pre);
                assert(wallet_eq_except_funds(self.wallet_of(q2), pre.wallet_of(q2)));
            }
            assert(commits(pre, *self, p, q2, amt));
        }
        Result::Ok(())
    }

    /// Releases the reservation of transaction `t` on the sender's wallet
    /// and writes the transaction's terminal state, as one atomic step.
    fn release_and_settle(
        &mut self,
        t: usize,
        from: &Principal,
        amt: u64,
        status: TxStatus,
        block_index: Option<u64>,
        now: u64,
    )
        requires
            old(self).wf(),
            now >= old(self).clock_watermark,
            t < old(self).transactions@.len(),
            old(self).transactions@[t as int].status == TxStatus::Processing,
            old(self).transactions@[t as int].from_principal@ == from@,
            old(self).transactions@[t as int].amount == amt,
            status == TxStatus::Failed || status == TxStatus::Completed,
        ensures
            final(self).wf(),
            releases(*old(self), *final(self), from@, amt),
            final(self).transactions@.len() == old(self).transactions@.len(),
            forall|u: int|
                0 <= u < old(self).transactions@.len() && u != t ==> final(self).transactions@[u]
                    == old(self).transactions@[u],
            final(self).transactions@[t as int].id == old(self).transactions@[t as int].id,
            final(self).transactions@[t as int].from_principal@ == from@,
            opt_principal_view(final(self).transactions@[t as int].to_principal)
                == opt_principal_view(old(self).transactions@[t as int].to_principal),
            final(self).transactions@[t as int].amount == amt,
            final(self).transactions@[t as int].status == status,
            final(self).transactions@[t as int].completed_at == Option::Some(now),
            final(self).transactions@[t as int].icp_block_index == block_index,
            final(self).deposits == old(self).deposits,
            final(self).spend_logs == old(self).spend_logs,
            final(self).trust_logs == old(self).trust_logs,
            final(self).circle_logs == old(self).circle_logs,
            final(self).alert_logs == old(self).alert_logs,
            final(self).radar_logs == old(self).radar_logs,
            final(self).linked_logs == old(self).linked_logs,
            final(self).threats == old(self).threats,
            final(self).stats == old(self).stats,
            final(self).clock_watermark == now,
    {
        let ghost pre = *self;
        let i = match self.find_wallet(from) {
            Option::Some(i) => i,
            Option::None => {
                proof {
                    assert(false);
                }
                0
            },
        };
        proof {
            assert(pre.wallets@[i as int].wf());
            lemma_ptotal_at_least(pre.transactions@, t as int, from@);
        }
        let mut w = self.wallets[i].dup();
        let res = w.reserved;
        w.reserved = res - amt;
        let ghost wg = w;
        self.wallets.set(i, w);
        let mut tx2 = self.transactions[t].dup();
        tx2.status = status;
        tx2.completed_at = Option::Some(now);
        tx2.icp_block_index = block_index;
        let ghost txg = tx2;
        self.transactions.set(t, tx2);
        self.clock_watermark = now;
        proof {
            let p = from@;
            assert forall|k: int| 0 <= k < i implies !(wallet_pred(p)(pre.wallets@[k])) by {
                assert(pre.wallets@[k].principal@ != pre.wallets@[i as int].principal@);
            }
            lemma_first_where_is(pre.wallets@, wallet_pred(p), i as int);
            assert forall|q: Seq<u8>| self.wallet_ix(q) == pre.wallet_ix(q) by {
                lemma_first_where_update(pre.wallets@, wallet_pred(q), i as int, wg);
            }
            assert forall|q: Seq<u8>| #[trigger] crate::state::processing_total(
                self.transactions@,
                q,
            ) == crate::state::processing_total(pre.transactions@, q) - tx_contrib(
                pre.transactions@[t as int],
                q,
            ) + tx_contrib(txg, q) by {
                lemma_ptotal_update(pre.transactions@, t as int, txg, q);
            }
            assert forall|k: int|
                0 <= k < self.wallets@.len() implies (#[trigger] self.wallets@[k]).reserved
                == crate::state::processing_total(
                self.transactions@,
                self.wallets@[k].principal@,
            ) && self.wallets@[k].wf() by {
                if k == i as int {
                    assert(self.wallets@[k] == wg);
                    assert(tx_contrib(pre.transactions@[t as int], p) == amt);
                    assert(tx_contrib(txg, p) == 0);
                } else {
                    assert(self.wallets@[k] == pre.wallets@[k]);
                    assert(pre.wallets@[k].principal@ != p);
                    assert(tx_contrib(pre.transactions@[t as int], pre.wallets@[k].principal@)
                        == 0);
                    assert(tx_contrib(txg, pre.wallets@[k].principal@) == 0);
                }
            }
            assert(self.wallets_wf());
            assert(self.txs_wf());
            assert(self.deposits_wf());
            assert forall|q: Seq<u8>| q != p implies self.balance_of(q) == pre.balance_of(q)
                && self.reserved_of(q) == pre.reserved_of(q) && self.has_wallet(q)
                == pre.has_wallet(q) && (pre.has_wallet(q) ==> self.wallet_of(q)
                == pre.wallet_of(q)) by {
                lemma_first_where_props(pre.wallets@, wallet_pred(q));
                if pre.wallet_ix(q) >= 0 {
                    assert(pre.wallets@[pre.wallet_ix(q)].principal@ == q);
                    assert(pre.wallet_ix(q) != i as int);
                }
            }
            assert(self.wallet_of(p) == wg);
        }
    }

    /// Pre-suspension step of `deposit_money`: validates the request and
    /// records it in `Processing` before the external payment adapter is
    /// invoked.  Deposits are idempotent per external payment id: a
    /// repeated request returns the id of the deposit already recorded
    /// and changes nothing, so the adapter being invoked more than once
    /// for the same external reference can never credit twice.
    ///
    /// Fails with `AuthError` for the anonymous sentinel, with
    /// `ValidationError` for a zero amount or one whose credited value
    /// cannot be represented, and with `NotFoundError` when the caller
    /// has no wallet to credit.
    pub fn deposit_money_begin(
        &mut self,
        caller: &Principal,
        amount: u64,
        payment_method: String,
        external_payment_id: String,
        now: u64,
    ) -> (r: Result<u64, CafeError>)
        requires
            old(self).wf(),
            now >= old(self).clock_watermark,
        ensures
            final(self).wf(),
            is_anonymous(caller@) <==> r == Result::<u64, CafeError>::Err(CafeError::AuthError),
            !is_anonymous(caller@) && (amount == 0 || amount > u64::MAX / crate::UNITS_PER_EXTERNAL)
                <==> r == Result::<u64, CafeError>::Err(CafeError::ValidationError),
            !is_anonymous(caller@) && amount > 0 && amount <= u64::MAX / crate::UNITS_PER_EXTERNAL
                && !old(self).has_wallet(caller@) <==> r == Result::<u64, CafeError>::Err(
                CafeError::NotFoundError,
            ),
            r is Ok <==> !is_anonymous(caller@) && amount > 0 && amount <= u64::MAX
                / crate::UNITS_PER_EXTERNAL && old(self).has_wallet(caller@),
            r is Err ==> *final(self) == *old(self),
            r is Ok && old(self).deposit_ref_ix(external_payment_id@) >= 0
                ==> *final(self) == *old(self) && r->Ok_0 == old(self).deposits@[old(
                self,
            ).deposit_ref_ix(external_payment_id@)].id,
            r is Ok && old(self).deposit_ref_ix(external_payment_id@) == -1 ==> {
                &&& r->Ok_0 == old(self).deposits@.len()
                &&& final(self).deposits@.len() == old(self).deposits@.len() + 1
                &&& forall|d: int|
                    0 <= d < old(self).deposits@.len()
                        ==> final(self).deposits@[d] == old(self).deposits@[d]
                &&& final(self).deposits@.last().id == r->Ok_0
                &&& final(self).deposits@.last().user_principal@ == caller@
                &&& final(self).deposits@.last().amount == amount
                &&& final(self).deposits@.last().payment_method@ == payment_method@
                &&& final(self).deposits@.last().external_payment_id@ == external_payment_id@
                &&& final(self).deposits@.last().status == TxStatus::Processing
                &&& final(self).deposits@.last().created_at == now
                &&& final(self).deposits@.last().completed_at is None
                &&& opt_str_view(final(self).deposits@.last().verification_code) == Option::Some(
                    "CAFE"@ + crate::text::dec_str((now % 10000) as int),
                )
                &&& final(self).wallets == old(self).wallets
                &&& final(self).transactions == old(self).transactions
                &&& final(self).spend_logs == old(self).spend_logs
                &&& final(self).trust_logs == old(self).trust_logs
                &&& final(self).circle_logs == old(self).circle_logs
                &&& final(self).alert_logs == old(self).alert_logs
                &&& final(self).radar_logs == old(self).radar_logs
                &&& final(self).linked_logs == old(self).linked_logs
                &&& final(self).threats == old(self).threats
                &&& final(self).stats == old(self).stats
                &&& final(self).clock_watermark == now
            },
    {
        if caller.is_anon() {
            return Result::Err(CafeError::AuthError);
        }
        if amount == 0 || amount > u64::MAX / crate::UNITS_PER_EXTERNAL {
            return Result::Err(CafeError::ValidationError);
        }
        if self.find_wallet(caller).is_none() {
            return Result::Err(CafeError::NotFoundError);
        }
        match self.find_deposit_by_ref(&external_payment_id) {
            Option::Some(d) => {
                return Result::Ok(self.deposits[d].id);
            },
            Option::None => {},
        }
        let ghost pre = *self;
        let n = self.deposits.len();
        let deposit_id = n as u64;
        let mut code = "CAFE".to_owned();
        let num = crate::text::u64_to_string(now % 10000);
        code.append(num.as_str());
        let dep = DepositRequest {
            id: deposit_id,
            user_principal: caller.dup(),
            amount,
            payment_method,
            external_payment_id,
            status: TxStatus::Processing,
            created_at: now,
            completed_at: Option::None,
            verification_code: Option::Some(code),
        };
        let ghost depg = dep;
        self.deposits.push(dep);
        self.clock_watermark = now;
        proof {
            crate::lookup::lemma_first_where_props(
                pre.deposits@,
                deposit_ref_pred(depg.external_payment_id@),
            );
            assert forall|a: int, b: int|
                0 <= a < b < self.deposits@.len() implies (#[trigger] self.deposits@[a]).external_payment_id@
                != (#[trigger] self.deposits@[b]).external_payment_id@ by {
                if b == pre.deposits@.len() {
                    assert(!(deposit_ref_pred(depg.external_payment_id@)(pre.deposits@[a])));
                }
            }
            assert(self.deposits_wf());
            assert(self.wallets_wf());
            assert(self.txs_wf());
        }
        Result::Ok(deposit_id)
    }

    /// Finds the deposit recorded under an external payment id.
    fn find_deposit_by_ref(&self, ext: &String) -> (r: Option<usize>)
        ensures
            match r {
                Option::Some(d) => self.deposit_ref_ix(ext@) == d as int && d
                    < self.deposits@.len() && self.deposits@[d as int].external_payment_id@
                    == ext@,
                Option::None => self.deposit_ref_ix(ext@) == -1,
            },
    {
        let ghost pred = deposit_ref_pred(ext@);
        let n = self.deposits.len();
        let mut d: usize = 0;
        while d < n
            invariant
                n == self.deposits@.len(),
                0 <= d <= n,
                pred == deposit_ref_pred(ext@),
                forall|e: int| 0 <= e < d ==> !pred(self.deposits@[e]),
            decreases n - d,
        {
            if crate::text::str_eq(self.deposits[d].external_payment_id.as_str(), ext.as_str()) {
                proof {
                    lemma_first_where_is(self.deposits@, pred, d as int);
                }
                return Option::Some(d);
            }
            d = d + 1;
        }
        proof {
            crate::lookup::lemma_first_where_none(self.deposits@, pred);
        }
        Option::None
    }

    /// Post-suspension step of `deposit_money`: settles a recorded
    /// deposit once the payment adapter has reported.  On success the
    /// wallet credit and the terminal status are written as one atomic
    /// step; on failure the deposit is marked `Failed` and no balance
    /// moves.  When the credit would overflow the balance, the deposit is
    /// marked `Failed` and `ValidationError` returned.
    ///
    /// Fails with `NotFoundError` for an unknown deposit id and with
    /// `ConflictError` for a deposit already settled.
    pub fn deposit_money_finish(&mut self, deposit_id: u64, success: bool, now: u64) -> (r: Result<
        (),
        CafeError,
    >)
        requires
            old(self).wf(),
            now >= old(self).clock_watermark,
        ensures
            final(self).wf(),
            !(deposit_id < old(self).deposits@.len()) <==> r == Result::<(), CafeError>::Err(
                CafeError::NotFoundError,
            ),
            deposit_id < old(self).deposits@.len() && old(self).deposits@[deposit_id as int].status
                != TxStatus::Processing <==> r == Result::<(), CafeError>::Err(
                CafeError::ConflictError,
            ),
            r == Result::<(), CafeError>::Err(CafeError::NotFoundError) || r == Result::<
                (),
                CafeError,
            >::Err(CafeError::ConflictError) ==> *final(self) == *old(self),
            (deposit_id < old(self).deposits@.len() && old(self).deposits@[deposit_id as int].status
                == TxStatus::Processing) ==> {
                let od = old(self).deposits@[deposit_id as int];
                let u = od.user_principal@;
                let credit = od.amount * crate::UNITS_PER_EXTERNAL;
                &&& final(self).deposits@.len() == old(self).deposits@.len()
                &&& forall|e: int|
                    0 <= e < old(self).deposits@.len() && e != deposit_id
                        ==> final(self).deposits@[e] == old(self).deposits@[e]
                &&& final(self).deposits@[deposit_id as int].id == od.id
                &&& final(self).deposits@[deposit_id as int].user_principal@ == u
                &&& final(self).deposits@[deposit_id as int].amount == od.amount
                &&& final(self).deposits@[deposit_id as int].external_payment_id@
                    == od.external_payment_id@
                &&& final(self).deposits@[deposit_id as int].payment_method@ == od.payment_method@
                &&& final(self).deposits@[deposit_id as int].completed_at == Option::Some(now)
                &&& (!success ==> {
                    &&& r is Ok
                    &&& final(self).deposits@[deposit_id as int].status == TxStatus::Failed
                    &&& final(self).wallets == old(self).wallets
                })
                &&& (success && old(self).balance_of(u) + credit <= u64::MAX ==> {
                    &&& r is Ok
                    &&& final(self).deposits@[deposit_id as int].status == TxStatus::Completed
                    &&& final(self).balance_of(u) == old(self).balance_of(u) + credit
                    &&& final(self).reserved_of(u) == old(self).reserved_of(u)
                    &&& (old(self).has_wallet(u) ==> wallet_eq_except_funds(
                        final(self).wallet_of(u),
                        old(self).wallet_of(u),
                    ))
                    &&& forall|q: Seq<u8>|
                        q != u ==> final(self).balance_of(q) == old(self).balance_of(q)
                            && final(self).reserved_of(q) == old(self).reserved_of(q)
                            && final(self).has_wallet(q) == old(self).has_wallet(q) && (old(
                            self,
                        ).has_wallet(q) ==> final(self).wallet_of(q) == old(self).wallet_of(q))
                })
                &&& (success && old(self).balance_of(u) + credit > u64::MAX ==> {
                    &&& r == Result::<(), CafeError>::Err(CafeError::ValidationError)
                    &&& final(self).deposits@[deposit_id as int].status == TxStatus::Failed
                    &&& final(self).wallets == old(self).wallets
                })
                &&& final(self).transactions == old(self).transactions
                &&& final(self).spend_logs == old(self).spend_logs
                &&& final(self).trust_logs == old(self).trust_logs
                &&& final(self).circle_logs == old(self).circle_logs
                &&& final(self).alert_logs == old(self).alert_logs
                &&& final(self).radar_logs == old(self).radar_logs
                &&& final(self).linked_logs == old(self).linked_logs
                &&& final(self).threats == old(self).threats
                &&& final(self).stats == old(self).stats
                &&& final(self).clock_watermark == now
            },
    {
        let n = self.deposits.len();
        if deposit_id >= n as u64 {
            return Result::Err(CafeError::NotFoundError);
        }
        let d = deposit_id as usize;
        let is_processing = match self.deposits[d].status {
            TxStatus::Processing => true,
            _ => false,
        };
        if !is_processing {
            return Result::Err(CafeError::ConflictError);
        }
        let user = self.deposits[d].user_principal.dup();
        let amount = self.deposits[d].amount;
        let credit = amount * crate::UNITS_PER_EXTERNAL;
        let ghost pre = *self;
        let i = match self.find_wallet(&user) {
            Option::Some(i) => i,
            Option::None => {
                proof {
                    assert(false);
                }
                return Result::Err(CafeError::NotFoundError);
            },
        };
        proof {
            assert(pre.wallets@[i as int].wf());
        }
        let mut result: Result<(), CafeError> = Result::Ok(());
        let mut new_status = TxStatus::Failed;
        if success {
            let bal = self.wallets[i].icp_balance;
            if bal <= u64::MAX - credit {
                let mut w = self.wallets[i].dup();
                w.icp_balance = bal + credit;
                let ghost wg = w;
                self.wallets.set(i, w);
                new_status = TxStatus::Completed;
                proof {
                    lemma_cafe_wallet_update(pre, *self, i as int, wg);
                    assert(pre.wallets@[i as int] == pre.wallet_of(user@));
                    assert(wallet_eq_except_funds(self.wallet_of(user@), pre.wallet_of(user@)));
                }
            } else {
                result = Result::Err(CafeError::ValidationError);
            }
        }
        let ghost mid = *self;
        let mut dep2 = self.deposits[d].dup();
        dep2.status = new_status;
        dep2.completed_at = Option::Some(now);
        self.deposits.set(d, dep2);
        self.clock_watermark = now;
        proof {
            assert forall|q: Seq<u8>| self.wallet_ix(q) == mid.wallet_ix(q) by {}
            assert(self.wallets_wf());
            assert(self.txs_wf());
            assert(self.deposits_wf());
        }
        result
    }

    /// Updates the caller's spending policy and nickname as one atomic
    /// step: either every given field passes validation and all of them
    /// are applied, or nothing changes.
    ///
    /// Fails with `AuthError` for the anonymous sentinel, with
    /// `NotFoundError` without a wallet, and with `ValidationError` when
    /// the daily limit or cooling-off period exceeds its platform
    /// ceiling, when the resulting warning threshold would exceed the
    /// resulting daily limit, or when the nickname is over 32 units.
    pub fn update_wallet_settings(
        &mut self,
        caller: &Principal,
        daily_limit: Option<u64>,
        warning_threshold: Option<u64>,
        cooling_off_period: Option<u64>,
        nickname: Option<String>,
        now: u64,
    ) -> (r: Result<(), CafeError>)
        requires
            old(self).wf(),
            now >= old(self).clock_watermark,
        ensures
            final(self).wf(),
            is_anonymous(caller@) <==> r == Result::<(), CafeError>::Err(CafeError::AuthError),
            !is_anonymous(caller@) && !old(self).has_wallet(caller@) <==> r == Result::<
                (),
                CafeError,
            >::Err(CafeError::NotFoundError),
            r is Err ==> *final(self) == *old(self),
            !is_anonymous(caller@) && old(self).has_wallet(caller@) ==> {
                let w = old(self).wallet_of(caller@);
                let nl = if daily_limit is Some {
                    daily_limit->0
                } else {
                    w.spending_patterns.daily_limit
                };
                let nt = if warning_threshold is Some {
                    warning_threshold->0
                } else {
                    w.spending_patterns.warning_threshold
                };
                let nc = if cooling_off_period is Some {
                    cooling_off_period->0
                } else {
                    w.spending_patterns.cooling_off_period
                };
                let bad = nl > crate::MAX_DAILY_LIMIT || nt > nl || nc > crate::MAX_COOLING_OFF || (
                nickname is Some && nickname->0@.len() > 32);
                &&& bad <==> r == Result::<(), CafeError>::Err(CafeError::ValidationError)
                &&& !bad <==> r is Ok
                &&& r is Ok ==> {
                    let v = final(self).wallet_of(caller@);
                    &&& final(self).has_wallet(caller@)
                    &&& v.spending_patterns.daily_limit == nl
                    &&& v.spending_patterns.warning_threshold == nt
                    &&& v.spending_patterns.cooling_off_period == nc
                    &&& v.spending_patterns.last_large_purchase
                        == w.spending_patterns.last_large_purchase
                    &&& opt_str_view(v.nickname) == (if nickname is Some {
                        opt_str_view(nickname)
                    } else {
                        opt_str_view(w.nickname)
                    })
                    &&& v.last_activity == now
                    &&& v.icp_balance == w.icp_balance
                    &&& v.reserved == w.reserved
                    &&& v.trust_score == w.trust_score
                    &&& v.safety_rating == w.safety_rating
                    &&& v.total_spent == w.total_spent
                    &&& v.created_at == w.created_at
                    &&& crate::wallet::principals_view(v.emergency_contacts@)
                        == crate::wallet::principals_view(w.emergency_contacts@)
                    &&& v.privacy_settings == w.privacy_settings
                    &&& forall|q: Seq<u8>|
                        q != caller@ ==> final(self).balance_of(q) == old(self).balance_of(q)
                            && final(self).reserved_of(q) == old(self).reserved_of(q)
                            && final(self).has_wallet(q) == old(self).has_wallet(q) && (old(
                            self,
                        ).has_wallet(q) ==> final(self).wallet_of(q) == old(self).wallet_of(q))
                    &&& final(self).transactions == old(self).transactions
                    &&& final(self).deposits == old(self).deposits
                    &&& final(self).spend_logs == old(self).spend_logs
                    &&& final(self).trust_logs == old(self).trust_logs
                    &&& final(self).circle_logs == old(self).circle_logs
                    &&& final(self).alert_logs == old(self).alert_logs
                    &&& final(self).radar_logs == old(self).radar_logs
                    &&& final(self).linked_logs == old(self).linked_logs
                    &&& final(self).threats == old(self).threats
                    &&& final(self).stats == old(self).stats
                    &&& final(self).clock_watermark == now
                }
            },
    {
        if caller.is_anon() {
            return Result::Err(CafeError::AuthError);
        }
        let i = match self.find_wallet(caller) {
            Option::Some(i) => i,
            Option::None => {
                return Result::Err(CafeError::NotFoundError);
            },
        };
        proof {
            assert(self.wallets@[i as int].wf());
        }
        let nl = match daily_limit {
            Option::Some(l) => l,
            Option::None => self.wallets[i].spending_patterns.daily_limit,
        };
        let nt = match warning_threshold {
            Option::Some(t) => t,
            Option::None => self.wallets[i].spending_patterns.warning_threshold,
        };
        let nc = match cooling_off_period {
            Option::Some(c) => c,
            Option::None => self.wallets[i].spending_patterns.cooling_off_period,
        };
        if nl > crate::MAX_DAILY_LIMIT || nt > nl || nc > crate::MAX_COOLING_OFF {
            return Result::Err(CafeError::ValidationError);
        }
        let name_too_long = match &nickname {
            Option::Some(n) => n.as_str().unicode_len() > 32,
            Option::None => false,
        };
        if name_too_long {
            return Result::Err(CafeError::ValidationError);
        }
        let ghost pre = *self;
        let mut w = self.wallets[i].dup();
        w.spending_patterns = crate::wallet::SpendingPatterns {
            daily_limit: nl,
            warning_threshold: nt,
            cooling_off_period: nc,
            last_large_purchase: w.spending_patterns.last_large_purchase,
        };
        match nickname {
            Option::Some(n) => {
                w.nickname = Option::Some(n);
            },
            Option::None => {},
        }
        w.last_activity = now;
        let ghost wg = w;
        self.wallets.set(i, w);
        self.clock_watermark = now;
        proof {
            lemma_cafe_wallet_update(pre, *self, i as int, wg);
        }
        Result::Ok(())
    }

    /// Links an external payment account to the caller's profile, storing
    /// the identifier masked to its last four units.  Returns the masked
    /// identifier.
    ///
    /// Fails with `AuthError` for the anonymous sentinel and with
    /// `ValidationError` for an account type outside the fixed
    /// vocabulary.
    pub fn link_payment_account(
        &mut self,
        caller: &Principal,
        account_type: String,
        account_identifier: &str,
        nickname: String,
        now: u64,
    ) -> (r: Result<String, CafeError>)
        requires
            old(self).wf(),
            now >= old(self).clock_watermark,
        ensures
            final(self).wf(),
            is_anonymous(caller@) <==> r == Result::<String, CafeError>::Err(CafeError::AuthError),
            !is_anonymous(caller@) && !(account_type@ == "venmo"@ || account_type@ == "apple_pay"@
                || account_type@ == "cashapp"@ || account_type@ == "zelle"@) <==> r == Result::<
                String,
                CafeError,
            >::Err(CafeError::ValidationError),
            r is Ok <==> !is_anonymous(caller@) && (account_type@ == "venmo"@ || account_type@
                == "apple_pay"@ || account_type@ == "cashapp"@ || account_type@ == "zelle"@),
            r is Err ==> *final(self) == *old(self),
            r is Ok ==> {
                let accounts = final(self).linked_of(caller@);
                &&& r->Ok_0@ == masked(account_identifier@)
                &&& accounts.len() == old(self).linked_of(caller@).len() + 1
                &&& forall|k: int|
                    0 <= k < old(self).linked_of(caller@).len() ==> accounts[k] == old(
                        self,
                    ).linked_of(caller@)[k]
                &&& accounts.last().id == old(self).linked_of(caller@).len()
                &&& accounts.last().account_type@ == account_type@
                &&& accounts.last().account_identifier@ == masked(account_identifier@)
                &&& accounts.last().account_nickname@ == nickname@
                &&& accounts.last().is_verified == true
                &&& accounts.last().added_at == now
                &&& accounts.last().last_used is None
                &&& forall|q: Seq<u8>|
                    q != caller@ ==> final(self).linked_of(q) == old(self).linked_of(q)
                &&& final(self).wallets == old(self).wallets
                &&& final(self).transactions == old(self).transactions
                &&& final(self).deposits == old(self).deposits
                &&& final(self).spend_logs == old(self).spend_logs
                &&& final(self).trust_logs == old(self).trust_logs
                &&& final(self).circle_logs == old(self).circle_logs
                &&& final(self).alert_logs == old(self).alert_logs
                &&& final(self).radar_logs == old(self).radar_logs
                &&& final(self).threats == old(self).threats
                &&& final(self).stats == old(self).stats
                &&& final(self).clock_watermark == now
            },
    {
        if caller.is_anon() {
            return Result::Err(CafeError::AuthError);
        }
        let ok_type = crate::text::str_eq(account_type.as_str(), "venmo") || crate::text::str_eq(
            account_type.as_str(),
            "apple_pay",
        ) || crate::text::str_eq(account_type.as_str(), "cashapp") || crate::text::str_eq(
            account_type.as_str(),
            "zelle",
        );
        if !ok_type {
            return Result::Err(CafeError::ValidationError);
        }
        let ghost pre = *self;
        let masked_id = mask_account_identifier(account_identifier);
        let ret = masked_id.clone();
        let found = self.find_linked_log(caller);
        if let Option::Some(ix) = found {
            let next_id = self.linked_logs[ix].accounts.len() as u64;
            let acc = LinkedAccount {
                id: next_id,
                account_type,
                account_identifier: masked_id,
                account_nickname: nickname,
                is_verified: true,
                added_at: now,
                last_used: Option::None,
            };
            let mut tmp = LinkedLog { owner: Principal::anonymous(), accounts: Vec::new() };
            self.linked_logs.set_and_swap(ix, &mut tmp);
            tmp.accounts.push(acc);
            let ghost logg = tmp;
            self.linked_logs.set_and_swap(ix, &mut tmp);
            self.clock_watermark = now;
            proof {
                assert(self.linked_logs@ =~= pre.linked_logs@.update(ix as int, logg));
                assert forall|q: Seq<u8>| self.linked_ix(q) == pre.linked_ix(q) by {
                    lemma_first_where_update(pre.linked_logs@, linked_pred(q), ix as int, logg);
                }
                assert forall|q: Seq<u8>| q != caller@ implies self.linked_of(q)
                    == pre.linked_of(q) by {
                    lemma_first_where_props(pre.linked_logs@, linked_pred(q));
                    if pre.linked_ix(q) >= 0 {
                        assert(pre.linked_logs@[pre.linked_ix(q)].owner@ == q);
                        assert(pre.linked_ix(q) != ix as int);
                    }
                }
                assert(self.wallets_wf());
                assert(self.txs_wf());
                assert(self.deposits_wf());
            }
        } else {
            let acc = LinkedAccount {
                id: 0,
                account_type,
                account_identifier: masked_id,
                account_nickname: nickname,
                is_verified: true,
                added_at: now,
                last_used: Option::None,
            };
            let mut accounts: Vec<LinkedAccount> = Vec::new();
            accounts.push(acc);
            let log = LinkedLog { owner: caller.dup(), accounts };
            let ghost logg = log;
            self.linked_logs.push(log);
            self.clock_watermark = now;
            proof {
                lemma_first_where_push(pre.linked_logs@, linked_pred(caller@), logg);
                assert forall|q: Seq<u8>| q != caller@ implies self.linked_of(q)
                    == pre.linked_of(q) by {
                    lemma_first_where_push(pre.linked_logs@, linked_pred(q), logg);
                    lemma_first_where_props(pre.linked_logs@, linked_pred(q));
                }
                assert(self.linked_of(caller@) =~= pre.linked_of(caller@).push(logg.accounts@[0]));
                assert(self.wallets_wf());
                assert(self.txs_wf());
                assert(self.deposits_wf());
            }
        }
        Result::Ok(ret)
    }

    /// Returns the transactions in which the caller is sender or
    /// recipient, in the order they were created.  Fails with
    /// `AuthError` for the anonymous sentinel.
    pub fn get_transaction_history(&self, caller: &Principal) -> (r: Result<
        Vec<PaymentTransaction>,
        CafeError,
    >)
        ensures
            is_anonymous(caller@) <==> r == Result::<Vec<PaymentTransaction>, CafeError>::Err(
                CafeError::AuthError,
            ),
            r is Ok <==> !is_anonymous(caller@),
            r is Ok ==> {
                let f = self.transactions@.filter(tx_involves(caller@));
                &&& r->Ok_0@.len() == f.len()
                &&& forall|k: int| 0 <= k < f.len() ==> tx_eq(#[trigger] r->Ok_0@[k], f[k])
            },
    {
        if caller.is_anon() {
            return Result::Err(CafeError::AuthError);
        }
        proof {
            reveal(Seq::filter);
            assert(self.transactions@.take(0).filter(tx_involves(caller@)) =~= Seq::<
                PaymentTransaction,
            >::empty());
        }
        let n = self.transactions.len();
        let mut out: Vec<PaymentTransaction> = Vec::new();
        let mut t: usize = 0;
        while t < n
            invariant
                n == self.transactions@.len(),
                0 <= t <= n,
                out@.len() == self.transactions@.take(t as int).filter(
                    tx_involves(caller@),
                ).len(),
                forall|k: int|
                    0 <= k < out@.len() ==> tx_eq(
                        #[trigger] out@[k],
                        self.transactions@.take(t as int).filter(tx_involves(caller@))[k],
                    ),
            decreases n - t,
        {
            let involved = self.transactions[t].from_principal.eq_p(caller) || (
            match &self.transactions[t].to_principal {
                Option::Some(q) => q.eq_p(caller),
                Option::None => false,
            });
            proof {
                reveal(Seq::filter);
                assert(self.transactions@.take(t + 1).drop_last() =~= self.transactions@.take(
                    t as int,
                ));
                assert(self.transactions@.take(t + 1).last() == self.transactions@[t as int]);
            }
            if involved {
                out.push(self.transactions[t].dup());
            }
            proof {
                let f1 = self.transactions@.take(t + 1).filter(tx_involves(caller@));
                let f0 = self.transactions@.take(t as int).filter(tx_involves(caller@));
                assert forall|k: int| 0 <= k < out@.len() implies tx_eq(
                    #[trigger] out@[k],
                    f1[k],
                ) by {
                    if k < f0.len() {
                        assert(f1[k] == f0[k]);
                    }
                }
            }
            t = t + 1;
        }
        proof {
            assert(self.transactions@.take(n as int) =~= self.transactions@);
        }
        Result::Ok(out)
    }

    /// Returns the caller's linked external accounts.  Fails with
    /// `AuthError` for the anonymous sentinel.
    pub fn get_linked_accounts(&self, caller: &Principal) -> (r: Result<
        Vec<LinkedAccount>,
        CafeError,
    >)
        ensures
            is_anonymous(caller@) <==> r == Result::<Vec<LinkedAccount>, CafeError>::Err(
                CafeError::AuthError,
            ),
            r is Ok <==> !is_anonymous(caller@),
            r is Ok ==> r->Ok_0@.len() == self.linked_of(caller@).len() && forall|k: int|
                0 <= k < self.linked_of(caller@).len() ==> linked_eq(
                    #[trigger] r->Ok_0@[k],
                    self.linked_of(caller@)[k],
                ),
    {
        if caller.is_anon() {
            return Result::Err(CafeError::AuthError);
        }
        match self.find_linked_log(caller) {
            Option::None => Result::Ok(Vec::new()),
            Option::Some(i) => {
                let m = self.linked_logs[i].accounts.len();
                let mut out: Vec<LinkedAccount> = Vec::new();
                let mut k: usize = 0;
                while k < m
                    invariant
                        i < self.linked_logs@.len(),
                        m == self.linked_logs@[i as int].accounts@.len(),
                        self.linked_of(caller@) == self.linked_logs@[i as int].accounts@,
                        0 <= k <= m,
                        out@.len() == k,
                        forall|j: int|
                            0 <= j < k ==> linked_eq(
                                #[trigger] out@[j],
                                self.linked_logs@[i as int].accounts@[j],
                            ),
                    decreases m - k,
                {
                    out.push(self.linked_logs[i].accounts[k].dup());
                    k = k + 1;
                }
                Result::Ok(out)
            },
        }
    }
}

/// A transaction in which `p` is sender or recipient.
pub open spec fn tx_involves(p: Seq<u8>) -> spec_fn(PaymentTransaction) -> bool {
    |tx: PaymentTransaction| tx.from_principal@ == p || opt_principal_view(tx.to_principal)
        == Option::Some(p)
}

/// An account identifier masked to its last four units: shorter
/// identifiers are hidden entirely.
pub open spec fn masked(s: Seq<char>) -> Seq<char> {
    if s.len() <= 4 {
        "****"@
    } else {
        "****"@ + s.skip(s.len() - 4)
    }
}

/// Masks an account identifier, keeping only its last four units.
pub fn mask_account_identifier(identifier: &str) -> (r: String)
    ensures
        r@ == masked(identifier@),
{
    let n = identifier.unicode_len();
    if n <= 4 {
        "****".to_owned()
    } else {
        let tail = identifier.substring_char(n - 4, n);
        let mut r = "****".to_owned();
        r.append(tail);
        proof {
            assert(identifier@.subrange(n - 4, n as int) =~= identifier@.skip(
                identifier@.len() - 4,
            ));
        }
        r
    }
}

} // verus!
