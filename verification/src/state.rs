//! The platform state: every store, its well-formedness invariant, and the
//! spec-level observers that the operation contracts are stated over.
//!
//! Reservations are the heart of the invariant.  A transfer that is
//! waiting on an external call holds a reservation on the sender's wallet;
//! `wf` ties each wallet's `reserved` field to the total amount of its
//! transactions still in `Processing`, and bounds it by the balance, so
//! that no interleaving of operations can spend the same funds twice.

use vstd::prelude::*;
use crate::alerts::{SafetyAlert, ScamRadarAlert};
use crate::lookup::{first_where, lemma_first_where_is, lemma_first_where_none,
    lemma_first_where_props};
use crate::payments::{DepositRequest, LinkedAccount, PaymentTransaction, TxStatus};
use crate::principal::{is_anonymous, Principal};
use crate::spending::SpendingRecord;
use crate::trust::{InnerCircleMember, ThreatRecord, TrustConnection};
use crate::wallet::{CafeWallet, WalletStats};

verus! {

/// The spending records of one principal.
pub struct SpendLog {
    pub owner: Principal,
    pub records: Vec<SpendingRecord>,
}

/// The outgoing trust edges of one principal.
pub struct TrustLog {
    pub owner: Principal,
    pub connections: Vec<TrustConnection>,
}

/// The inner circle of one principal.
pub struct CircleLog {
    pub owner: Principal,
    pub members: Vec<InnerCircleMember>,
}

/// The safety alerts of one principal.
pub struct AlertLog {
    pub owner: Principal,
    pub alerts: Vec<SafetyAlert>,
}

/// The scam radar log of one principal.
pub struct RadarLog {
    pub owner: Principal,
    pub alerts: Vec<ScamRadarAlert>,
}

/// The linked external accounts of one principal.
pub struct LinkedLog {
    pub owner: Principal,
    pub accounts: Vec<LinkedAccount>,
}

/// The whole platform state, mutated only through its operations.
pub struct Cafe {
    pub wallets: Vec<CafeWallet>,
    pub transactions: Vec<PaymentTransaction>,
    pub deposits: Vec<DepositRequest>,
    pub spend_logs: Vec<SpendLog>,
    pub trust_logs: Vec<TrustLog>,
    pub circle_logs: Vec<CircleLog>,
    pub alert_logs: Vec<AlertLog>,
    pub radar_logs: Vec<RadarLog>,
    pub linked_logs: Vec<LinkedLog>,
    pub threats: Vec<ThreatRecord>,
    pub stats: WalletStats,
    pub next_radar_id: u64,
    pub clock_watermark: u64,
}

/// What one transaction contributes to the reservation of principal `p`.
pub open spec fn tx_contrib(tx: PaymentTransaction, p: Seq<u8>) -> int {
    if tx.status == TxStatus::Processing && tx.from_principal@ == p {
        tx.amount as int
    } else {
        0
    }
}

/// Total amount of in-flight (`Processing`) transactions sent by `p`.
pub open spec fn processing_total(txs: Seq<PaymentTransaction>, p: Seq<u8>) -> int
    decreases txs.len(),
{
    if txs.len() == 0 {
        0
    } else {
        processing_total(txs.drop_last(), p) + tx_contrib(txs.last(), p)
    }
}

/// Appending a transaction adds exactly its contribution.
pub proof fn lemma_ptotal_push(txs: Seq<PaymentTransaction>, tx: PaymentTransaction, p: Seq<u8>)
    ensures
        processing_total(txs.push(tx), p) == processing_total(txs, p) + tx_contrib(tx, p),
{
    assert(txs.push(tx).drop_last() =~= txs);
}

/// Updating one transaction exchanges its contribution.
pub proof fn lemma_ptotal_update(
    txs: Seq<PaymentTransaction>,
    i: int,
    tx: PaymentTransaction,
    p: Seq<u8>,
)
    requires
        0 <= i < txs.len(),
    ensures
        processing_total(txs.update(i, tx), p) == processing_total(txs, p) - tx_contrib(txs[i], p)
            + tx_contrib(tx, p),
    decreases txs.len(),
{
    let t = txs.update(i, tx);
    if i == txs.len() - 1 {
        assert(t.drop_last() =~= txs.drop_last());
        assert(t.last() == tx);
    } else {
        assert(t.drop_last() =~= txs.drop_last().update(i, tx));
        assert(t.last() == txs.last());
        lemma_ptotal_update(txs.drop_last(), i, tx, p);
    }
}

/// A principal with no in-flight transaction has no reservation total.
pub proof fn lemma_ptotal_zero(txs: Seq<PaymentTransaction>, p: Seq<u8>)
    requires
        forall|t: int|
            0 <= t < txs.len() ==> tx_contrib(#[trigger] txs[t], p) == 0,
    ensures
        processing_total(txs, p) == 0,
    decreases txs.len(),
{
    if txs.len() > 0 {
        assert(txs.last() == txs[txs.len() - 1]);
        assert(forall|t: int|
            0 <= t < txs.drop_last().len() ==> txs.drop_last()[t] == txs[t]);
        lemma_ptotal_zero(txs.drop_last(), p);
    }
}

/// The reservation total is never negative.
pub proof fn lemma_ptotal_nonneg(txs: Seq<PaymentTransaction>, p: Seq<u8>)
    ensures
        processing_total(txs, p) >= 0,
    decreases txs.len(),
{
    if txs.len() > 0 {
        lemma_ptotal_nonneg(txs.drop_last(), p);
    }
}

/// Any single in-flight transaction is covered by its sender's
/// reservation total.
pub proof fn lemma_ptotal_at_least(txs: Seq<PaymentTransaction>, t: int, p: Seq<u8>)
    requires
        0 <= t < txs.len(),
        txs[t].status == TxStatus::Processing,
        txs[t].from_principal@ == p,
    ensures
        processing_total(txs, p) >= txs[t].amount,
    decreases txs.len(),
{
    lemma_ptotal_nonneg(txs.drop_last(), p);
    if t < txs.len() - 1 {
        assert(txs.drop_last()[t] == txs[t]);
        lemma_ptotal_at_least(txs.drop_last(), t, p);
        assert(tx_contrib(txs.last(), p) >= 0);
    }
}


/// The wallet entry owned by `p`.
pub open spec fn wallet_pred(p: Seq<u8>) -> spec_fn(CafeWallet) -> bool {
    |w: CafeWallet| w.principal@ == p
}

/// The spending log owned by `p`.
pub open spec fn spend_pred(p: Seq<u8>) -> spec_fn(SpendLog) -> bool {
    |l: SpendLog| l.owner@ == p
}

/// The trust log owned by `p`.
pub open spec fn trust_pred(p: Seq<u8>) -> spec_fn(TrustLog) -> bool {
    |l: TrustLog| l.owner@ == p
}

/// The inner-circle log owned by `p`.
pub open spec fn circle_pred(p: Seq<u8>) -> spec_fn(CircleLog) -> bool {
    |l: CircleLog| l.owner@ == p
}

/// The alert log owned by `p`.
pub open spec fn alert_pred(p: Seq<u8>) -> spec_fn(AlertLog) -> bool {
    |l: AlertLog| l.owner@ == p
}

/// The radar log owned by `p`.
pub open spec fn radar_pred(p: Seq<u8>) -> spec_fn(RadarLog) -> bool {
    |l: RadarLog| l.owner@ == p
}

/// The linked-account log owned by `p`.
pub open spec fn linked_pred(p: Seq<u8>) -> spec_fn(LinkedLog) -> bool {
    |l: LinkedLog| l.owner@ == p
}

impl Cafe {
    /// Index of the wallet of `p`, or -1.
    pub open spec fn wallet_ix(self, p: Seq<u8>) -> int {
        first_where(self.wallets@, wallet_pred(p))
    }

    /// Whether `p` has a wallet.
    pub open spec fn has_wallet(self, p: Seq<u8>) -> bool {
        self.wallet_ix(p) >= 0
    }

    /// The wallet of `p`; meaningful only when `has_wallet(p)`.
    pub open spec fn wallet_of(self, p: Seq<u8>) -> CafeWallet {
        self.wallets@[self.wallet_ix(p)]
    }

    /// Balance of `p`, in minor units; 0 without a wallet.
    pub open spec fn balance_of(self, p: Seq<u8>) -> int {
        if self.has_wallet(p) {
            self.wallet_of(p).icp_balance as int
        } else {
            0
        }
    }

    /// Amount of `p`'s balance held by pending transfers; 0 without a
    /// wallet.
    pub open spec fn reserved_of(self, p: Seq<u8>) -> int {
        if self.has_wallet(p) {
            self.wallet_of(p).reserved as int
        } else {
            0
        }
    }

    /// The spendable part of `p`'s balance.
    pub open spec fn avail_of(self, p: Seq<u8>) -> int {
        self.balance_of(p) - self.reserved_of(p)
    }

    /// Index of `p`'s spending log, or -1.
    pub open spec fn spend_ix(self, p: Seq<u8>) -> int {
        first_where(self.spend_logs@, spend_pred(p))
    }

    /// The spending records of `p`, oldest first.
    pub open spec fn records_of(self, p: Seq<u8>) -> Seq<SpendingRecord> {
        if self.spend_ix(p) >= 0 {
            self.spend_logs@[self.spend_ix(p)].records@
        } else {
            Seq::empty()
        }
    }

    /// Index of `p`'s trust log, or -1.
    pub open spec fn trust_ix(self, p: Seq<u8>) -> int {
        first_where(self.trust_logs@, trust_pred(p))
    }

    /// The outgoing trust edges of `p`, oldest first.
    pub open spec fn connections_of(self, p: Seq<u8>) -> Seq<TrustConnection> {
        if self.trust_ix(p) >= 0 {
            self.trust_logs@[self.trust_ix(p)].connections@
        } else {
            Seq::empty()
        }
    }

    /// Index of `p`'s inner-circle log, or -1.
    pub open spec fn circle_ix(self, p: Seq<u8>) -> int {
        first_where(self.circle_logs@, circle_pred(p))
    }

    /// The inner circle of `p`, oldest first.
    pub open spec fn members_of(self, p: Seq<u8>) -> Seq<InnerCircleMember> {
        if self.circle_ix(p) >= 0 {
            self.circle_logs@[self.circle_ix(p)].members@
        } else {
            Seq::empty()
        }
    }

    /// Index of `p`'s alert log, or -1.
    pub open spec fn alert_ix(self, p: Seq<u8>) -> int {
        first_where(self.alert_logs@, alert_pred(p))
    }

    /// The safety alerts of `p`, oldest first.
    pub open spec fn alerts_of(self, p: Seq<u8>) -> Seq<SafetyAlert> {
        if self.alert_ix(p) >= 0 {
            self.alert_logs@[self.alert_ix(p)].alerts@
        } else {
            Seq::empty()
        }
    }

    /// Index of `p`'s radar log, or -1.
    pub open spec fn radar_ix(self, p: Seq<u8>) -> int {
        first_where(self.radar_logs@, radar_pred(p))
    }

    /// The scam radar log of `p`, oldest first.
    pub open spec fn radar_of(self, p: Seq<u8>) -> Seq<ScamRadarAlert> {
        if self.radar_ix(p) >= 0 {
            self.radar_logs@[self.radar_ix(p)].alerts@
        } else {
            Seq::empty()
        }
    }

    /// Index of `p`'s linked-account log, or -1.
    pub open spec fn linked_ix(self, p: Seq<u8>) -> int {
        first_where(self.linked_logs@, linked_pred(p))
    }

    /// The linked external accounts of `p`, oldest first.
    pub open spec fn linked_of(self, p: Seq<u8>) -> Seq<LinkedAccount> {
        if self.linked_ix(p) >= 0 {
            self.linked_logs@[self.linked_ix(p)].accounts@
        } else {
            Seq::empty()
        }
    }

    /// Wallets are internally consistent, owned by distinct,
    /// non-anonymous principals, and each reservation equals the total of
    /// that wallet's in-flight transfers.
    pub open spec fn wallets_wf(self) -> bool {
        &&& forall|i: int|
            0 <= i < self.wallets@.len() ==> (#[trigger] self.wallets@[i]).wf()
        &&& forall|i: int|
            0 <= i < self.wallets@.len() ==> !is_anonymous(
                (#[trigger] self.wallets@[i]).principal@,
            )
        &&& forall|i: int, j: int|
            0 <= i < j < self.wallets@.len() ==> (#[trigger] self.wallets@[i]).principal@ != (
            #[trigger] self.wallets@[j]).principal@
        &&& forall|i: int|
            0 <= i < self.wallets@.len() ==> (#[trigger] self.wallets@[i]).reserved
                == processing_total(self.transactions@, self.wallets@[i].principal@)
    }

    /// Transactions are keyed by their position, and an in-flight
    /// transaction always has a sender wallet to resolve against.
    pub open spec fn txs_wf(self) -> bool {
        &&& forall|t: int|
            0 <= t < self.transactions@.len() ==> (#[trigger] self.transactions@[t]).id == t
        &&& forall|t: int|
            0 <= t < self.transactions@.len() && (#[trigger] self.transactions@[t]).status
                == TxStatus::Processing ==> self.has_wallet(self.transactions@[t].from_principal@)
                && self.transactions@[t].to_principal is Some && !is_anonymous(
                self.transactions@[t].to_principal->Some_0@,
            ) && self.transactions@[t].amount > 0
    }

    /// Deposits are keyed by their position, idempotent per external
    /// payment id, and an in-flight deposit can always be credited.
    pub open spec fn deposits_wf(self) -> bool {
        &&& forall|d: int|
            0 <= d < self.deposits@.len() ==> (#[trigger] self.deposits@[d]).id == d
        &&& forall|d: int, e: int|
            0 <= d < e < self.deposits@.len() ==> (#[trigger] self.deposits@[d]).external_payment_id@
                != (#[trigger] self.deposits@[e]).external_payment_id@
        &&& forall|d: int|
            0 <= d < self.deposits@.len() && (#[trigger] self.deposits@[d]).status
                == TxStatus::Processing ==> self.has_wallet(self.deposits@[d].user_principal@)
                && self.deposits@[d].amount <= u64::MAX as int / crate::UNITS_PER_EXTERNAL as int
    }

    /// Alert logs are append-only: alerts are keyed by their position in
    /// their owner's log, and creation times never decrease.
    pub open spec fn alerts_wf(self) -> bool {
        &&& forall|l: int, j: int, k: int|
            0 <= l < self.alert_logs@.len() && 0 <= j < k < self.alert_logs@[l].alerts@.len()
                ==> (#[trigger] self.alert_logs@[l].alerts@[j]).created_at
                <= (#[trigger] self.alert_logs@[l].alerts@[k]).created_at
        &&& forall|l: int, j: int|
            0 <= l < self.alert_logs@.len() && 0 <= j < (
            #[trigger] self.alert_logs@[l]).alerts@.len() ==> (#[trigger] self.alert_logs@[l].alerts@[j]).id
                == j && self.alert_logs@[l].alerts@[j].created_at <= self.clock_watermark
    }

    /// The scam radar log of each principal is bounded: the oldest entry
    /// is evicted once the bound is passed.
    pub open spec fn radar_wf(self) -> bool {
        forall|l: int|
            0 <= l < self.radar_logs@.len() ==> (#[trigger] self.radar_logs@[l]).alerts@.len()
                <= crate::RADAR_LOG_BOUND
    }

    /// Each principal owns at most one inner-circle log.
    pub open spec fn circles_wf(self) -> bool {
        forall|l: int, m: int|
            0 <= l < m < self.circle_logs@.len() ==> (#[trigger] self.circle_logs@[l]).owner@ != (
            #[trigger] self.circle_logs@[m]).owner@
    }

    /// Spending logs are append-only and ordered by time; records are
    /// keyed by their position in their owner's log.
    pub open spec fn spending_wf(self) -> bool {
        &&& forall|l: int, j: int, k: int|
            0 <= l < self.spend_logs@.len() && 0 <= j < k < self.spend_logs@[l].records@.len()
                ==> (#[trigger] self.spend_logs@[l].records@[j]).timestamp
                <= (#[trigger] self.spend_logs@[l].records@[k]).timestamp
        &&& forall|l: int, j: int|
            0 <= l < self.spend_logs@.len() && 0 <= j < (
            #[trigger] self.spend_logs@[l]).records@.len() ==> (#[trigger] self.spend_logs@[l].records@[j]).id
                == j && self.spend_logs@[l].records@[j].timestamp <= self.clock_watermark
    }

    /// Threat records are keyed by their position.
    pub open spec fn threats_wf(self) -> bool {
        forall|t: int| 0 <= t < self.threats@.len() ==> (#[trigger] self.threats@[t]).id == t
    }

    /// The global well-formedness invariant: established by `new`,
    /// required and preserved by every operation.
    pub open spec fn wf(self) -> bool {
        &&& self.wallets_wf()
        &&& self.txs_wf()
        &&& self.deposits_wf()
        &&& self.alerts_wf()
        &&& self.radar_wf()
        &&& self.circles_wf()
        &&& self.spending_wf()
        &&& self.threats_wf()
    }

    /// A fresh, empty platform state.
    pub fn new(now: u64) -> (r: Cafe)
        ensures
            r.wf(),
            r.wallets@.len() == 0,
            r.transactions@.len() == 0,
            r.deposits@.len() == 0,
            r.spend_logs@.len() == 0,
            r.trust_logs@.len() == 0,
            r.circle_logs@.len() == 0,
            r.alert_logs@.len() == 0,
            r.radar_logs@.len() == 0,
            r.linked_logs@.len() == 0,
            r.threats@.len() == 0,
            r.stats == WalletStats::spec_new(now),
            r.clock_watermark == now,
    {
        Cafe {
            wallets: Vec::new(),
            transactions: Vec::new(),
            deposits: Vec::new(),
            spend_logs: Vec::new(),
            trust_logs: Vec::new(),
            circle_logs: Vec::new(),
            alert_logs: Vec::new(),
            radar_logs: Vec::new(),
            linked_logs: Vec::new(),
            threats: Vec::new(),
            stats: WalletStats::new(now),
            next_radar_id: 0,
            clock_watermark: now,
        }
    }

    /// Finds the wallet of `p`.
    pub fn find_wallet(&self, p: &Principal) -> (r: Option<usize>)
        ensures
            match r {
                Option::Some(i) => self.wallet_ix(p@) == i as int && i < self.wallets@.len()
                    && self.wallets@[i as int].principal@ == p@,
                Option::None => self.wallet_ix(p@) == -1,
            },
    {
        let ghost pred = wallet_pred(p@);
        let n = self.wallets.len();
        let mut i: usize = 0;
        while i < n
            invariant
                n == self.wallets@.len(),
                0 <= i <= n,
                pred == wallet_pred(p@),
                forall|j: int| 0 <= j < i ==> !pred(self.wallets@[j]),
            decreases n - i,
        {
            if self.wallets[i].principal.eq_p(p) {
                proof {
                    lemma_first_where_is(self.wallets@, pred, i as int);
                }
                return Option::Some(i);
            }
            i = i + 1;
        }
        proof {
            lemma_first_where_none(self.wallets@, pred);
        }
        Option::None
    }

    /// Finds the spending log of `p`.
    pub fn find_spend_log(&self, p: &Principal) -> (r: Option<usize>)
        ensures
            match r {
                Option::Some(i) => self.spend_ix(p@) == i as int && i < self.spend_logs@.len()
                    && self.spend_logs@[i as int].owner@ == p@,
                Option::None => self.spend_ix(p@) == -1,
            },
    {
        let ghost pred = spend_pred(p@);
        let n = self.spend_logs.len();
        let mut i: usize = 0;
        while i < n
            invariant
                n == self.spend_logs@.len(),
                0 <= i <= n,
                pred == spend_pred(p@),
                forall|j: int| 0 <= j < i ==> !pred(self.spend_logs@[j]),
            decreases n - i,
        {
            if self.spend_logs[i].owner.eq_p(p) {
                proof {
                    lemma_first_where_is(self.spend_logs@, pred, i as int);
                }
                return Option::Some(i);
            }
            i = i + 1;
        }
        proof {
            lemma_first_where_none(self.spend_logs@, pred);
        }
        Option::None
    }

    /// Finds the trust log of `p`.
    pub fn find_trust_log(&self, p: &Principal) -> (r: Option<usize>)
        ensures
            match r {
                Option::Some(i) => self.trust_ix(p@) == i as int && i < self.trust_logs@.len()
                    && self.trust_logs@[i as int].owner@ == p@,
                Option::None => self.trust_ix(p@) == -1,
            },
    {
        let ghost pred = trust_pred(p@);
        let n = self.trust_logs.len();
        let mut i: usize = 0;
        while i < n
            invariant
                n == self.trust_logs@.len(),
                0 <= i <= n,
                pred == trust_pred(p@),
                forall|j: int| 0 <= j < i ==> !pred(self.trust_logs@[j]),
            decreases n - i,
        {
            if self.trust_logs[i].owner.eq_p(p) {
                proof {
                    lemma_first_where_is(self.trust_logs@, pred, i as int);
                }
                return Option::Some(i);
            }
            i = i + 1;
        }
        proof {
            lemma_first_where_none(self.trust_logs@, pred);
        }
        Option::None
    }

    /// Finds the inner-circle log of `p`.
    pub fn find_circle_log(&self, p: &Principal) -> (r: Option<usize>)
        ensures
            match r {
                Option::Some(i) => self.circle_ix(p@) == i as int && i < self.circle_logs@.len()
                    && self.circle_logs@[i as int].owner@ == p@,
                Option::None => self.circle_ix(p@) == -1,
            },
    {
        let ghost pred = circle_pred(p@);
        let n = self.circle_logs.len();
        let mut i: usize = 0;
        while i < n
            invariant
                n == self.circle_logs@.len(),
                0 <= i <= n,
                pred == circle_pred(p@),
                forall|j: int| 0 <= j < i ==> !pred(self.circle_logs@[j]),
            decreases n - i,
        {
            if self.circle_logs[i].owner.eq_p(p) {
                proof {
                    lemma_first_where_is(self.circle_logs@, pred, i as int);
                }
                return Option::Some(i);
            }
            i = i + 1;
        }
        proof {
            lemma_first_where_none(self.circle_logs@, pred);
        }
        Option::None
    }

    /// Finds the alert log of `p`.
    pub fn find_alert_log(&self, p: &Principal) -> (r: Option<usize>)
        ensures
            match r {
                Option::Some(i) => self.alert_ix(p@) == i as int && i < self.alert_logs@.len()
                    && self.alert_logs@[i as int].owner@ == p@,
                Option::None => self.alert_ix(p@) == -1,
            },
    {
        let ghost pred = alert_pred(p@);
        let n = self.alert_logs.len();
        let mut i: usize = 0;
        while i < n
            invariant
                n == self.alert_logs@.len(),
                0 <= i <= n,
                pred == alert_pred(p@),
                forall|j: int| 0 <= j < i ==> !pred(self.alert_logs@[j]),
            decreases n - i,
        {
            if self.alert_logs[i].owner.eq_p(p) {
                proof {
                    lemma_first_where_is(self.alert_logs@, pred, i as int);
                }
                return Option::Some(i);
            }
            i = i + 1;
        }
        proof {
            lemma_first_where_none(self.alert_logs@, pred);
        }
        Option::None
    }

    /// Finds the radar log of `p`.
    pub fn find_radar_log(&self, p: &Principal) -> (r: Option<usize>)
        ensures
            match r {
                Option::Some(i) => self.radar_ix(p@) == i as int && i < self.radar_logs@.len()
                    && self.radar_logs@[i as int].owner@ == p@,
                Option::None => self.radar_ix(p@) == -1,
            },
    {
        let ghost pred = radar_pred(p@);
        let n = self.radar_logs.len();
        let mut i: usize = 0;
        while i < n
            invariant
                n == self.radar_logs@.len(),
                0 <= i <= n,
                pred == radar_pred(p@),
                forall|j: int| 0 <= j < i ==> !pred(self.radar_logs@[j]),
            decreases n - i,
        {
            if self.radar_logs[i].owner.eq_p(p) {
                proof {
                    lemma_first_where_is(self.radar_logs@, pred, i as int);
                }
                return Option::Some(i);
            }
            i = i + 1;
        }
        proof {
            lemma_first_where_none(self.radar_logs@, pred);
        }
        Option::None
    }

    /// Finds the linked-account log of `p`.
    pub fn find_linked_log(&self, p: &Principal) -> (r: Option<usize>)
        ensures
            match r {
                Option::Some(i) => self.linked_ix(p@) == i as int && i < self.linked_logs@.len()
                    && self.linked_logs@[i as int].owner@ == p@,
                Option::None => self.linked_ix(p@) == -1,
            },
    {
        let ghost pred = linked_pred(p@);
        let n = self.linked_logs.len();
        let mut i: usize = 0;
        while i < n
            invariant
                n == self.linked_logs@.len(),
                0 <= i <= n,
                pred == linked_pred(p@),
                forall|j: int| 0 <= j < i ==> !pred(self.linked_logs@[j]),
            decreases n - i,
        {
            if self.linked_logs[i].owner.eq_p(p) {
                proof {
                    lemma_first_where_is(self.linked_logs@, pred, i as int);
                }
                return Option::Some(i);
            }
            i = i + 1;
        }
        proof {
            lemma_first_where_none(self.linked_logs@, pred);
        }
        Option::None
    }
}

/// Appending a fresh wallet preserves the invariant and leaves every
/// other principal's funds untouched.
pub proof fn lemma_cafe_wallet_push(pre: Cafe, post: Cafe, w: CafeWallet)
    requires
        pre.wf(),
        post.wallets@ == pre.wallets@.push(w),
        post.transactions@ == pre.transactions@,
        post.deposits@ == pre.deposits@,
        post.alert_logs@ == pre.alert_logs@,
        post.spend_logs@ == pre.spend_logs@,
        post.radar_logs@ == pre.radar_logs@,
        post.circle_logs@ == pre.circle_logs@,
        post.threats@ == pre.threats@,
        post.clock_watermark >= pre.clock_watermark,
        !pre.has_wallet(w.principal@),
        w.wf(),
        !is_anonymous(w.principal@),
        w.reserved == 0,
    ensures
        post.wf(),
        post.wallet_ix(w.principal@) == pre.wallets@.len(),
        post.has_wallet(w.principal@),
        post.wallet_of(w.principal@) == w,
        forall|q: Seq<u8>| q != w.principal@ ==> post.wallet_ix(q) == pre.wallet_ix(q),
        forall|q: Seq<u8>|
            q != w.principal@ ==> post.balance_of(q) == pre.balance_of(q) && post.reserved_of(q)
                == pre.reserved_of(q) && post.has_wallet(q) == pre.has_wallet(q) && (
            pre.has_wallet(q) ==> post.wallet_of(q) == pre.wallet_of(q)),
{
    let p = w.principal@;
    lemma_first_where_props(pre.wallets@, wallet_pred(p));
    crate::lookup::lemma_first_where_push(pre.wallets@, wallet_pred(p), w);
    assert forall|q: Seq<u8>| q != p implies post.wallet_ix(q) == pre.wallet_ix(q) by {
        crate::lookup::lemma_first_where_push(pre.wallets@, wallet_pred(q), w);
    }
    assert forall|q: Seq<u8>| q != p implies post.balance_of(q) == pre.balance_of(q)
        && post.reserved_of(q) == pre.reserved_of(q) && post.has_wallet(q) == pre.has_wallet(q)
        && (pre.has_wallet(q) ==> post.wallet_of(q) == pre.wallet_of(q)) by {
        lemma_first_where_props(pre.wallets@, wallet_pred(q));
    }
    assert forall|t: int|
        0 <= t < post.transactions@.len() implies tx_contrib(#[trigger] post.transactions@[t], p)
        == 0 by {
        if post.transactions@[t].status == TxStatus::Processing {
            assert(pre.has_wallet(pre.transactions@[t].from_principal@));
        }
    }
    lemma_ptotal_zero(post.transactions@, p);
    assert(post.wallets_wf());
    assert(post.txs_wf());
    assert(post.deposits_wf());
}

/// Replacing one wallet by a well-formed wallet of the same principal and
/// the same reservation preserves the invariant; only that principal's
/// balance is touched.
pub proof fn lemma_cafe_wallet_update(pre: Cafe, post: Cafe, i: int, w: CafeWallet)
    requires
        pre.wf(),
        0 <= i < pre.wallets@.len(),
        post.wallets@ == pre.wallets@.update(i, w),
        post.transactions@ == pre.transactions@,
        post.deposits@ == pre.deposits@,
        post.alert_logs@ == pre.alert_logs@,
        post.spend_logs@ == pre.spend_logs@,
        post.radar_logs@ == pre.radar_logs@,
        post.circle_logs@ == pre.circle_logs@,
        post.threats@ == pre.threats@,
        post.clock_watermark >= pre.clock_watermark,
        w.principal@ == pre.wallets@[i].principal@,
        w.wf(),
        w.reserved == pre.wallets@[i].reserved,
    ensures
        post.wf(),
        pre.wallet_ix(w.principal@) == i,
        forall|q: Seq<u8>| post.wallet_ix(q) == pre.wallet_ix(q),
        post.has_wallet(w.principal@),
        post.wallet_of(w.principal@) == w,
        post.balance_of(w.principal@) == w.icp_balance,
        post.reserved_of(w.principal@) == w.reserved,
        forall|q: Seq<u8>|
            q != w.principal@ ==> post.balance_of(q) == pre.balance_of(q) && post.reserved_of(q)
                == pre.reserved_of(q) && post.has_wallet(q) == pre.has_wallet(q) && (
            pre.has_wallet(q) ==> post.wallet_of(q) == pre.wallet_of(q)),
{
    let p = w.principal@;
    assert forall|j: int| 0 <= j < i implies !(wallet_pred(p)(pre.wallets@[j])) by {
        assert(pre.wallets@[j].principal@ != pre.wallets@[i].principal@);
    }
    lemma_first_where_is(pre.wallets@, wallet_pred(p), i);
    assert forall|q: Seq<u8>| post.wallet_ix(q) == pre.wallet_ix(q) by {
        crate::lookup::lemma_first_where_update(pre.wallets@, wallet_pred(q), i, w);
    }
    assert forall|q: Seq<u8>| q != p implies post.balance_of(q) == pre.balance_of(q)
        && post.reserved_of(q) == pre.reserved_of(q) && post.has_wallet(q) == pre.has_wallet(q)
        && (pre.has_wallet(q) ==> post.wallet_of(q) == pre.wallet_of(q)) by {
        lemma_first_where_props(pre.wallets@, wallet_pred(q));
        if pre.wallet_ix(q) >= 0 {
            assert(pre.wallets@[pre.wallet_ix(q)].principal@ == q);
            assert(pre.wallet_ix(q) != i);
        }
    }
    assert(post.wallets_wf());
    assert(post.txs_wf());
    assert(post.deposits_wf());
}

impl WalletStats {
    /// The value `WalletStats::new` returns.
    pub open spec fn spec_new(now: u64) -> WalletStats {
        WalletStats {
            total_wallets: 0,
            total_transactions: 0,
            scams_prevented: 0,
            total_trust_connections: 0,
            last_updated: now,
        }
    }
}

} // verus!
