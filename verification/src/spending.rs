//! Spending records: immutable once created, appended per principal, and
//! summarised by the spending analysis.

use vstd::prelude::*;
use crate::errors::CafeError;
use crate::lookup::{lemma_first_where_props, lemma_first_where_push, lemma_first_where_update};
use crate::principal::{is_anonymous, Principal};
use crate::risk::{spec_transaction_risk, RiskLevel};
use crate::state::{spend_pred, Cafe, SpendLog};
use crate::text::{str_eq, strs_view, dup_strings};
use crate::wallet::{opt_str_view, dup_opt_string, sat_inc, CafeWallet, SafetyRating, WalletStats};

verus! {

/// The fixed vocabulary of emotional tags.
pub open spec fn valid_emotion(tag: Seq<char>) -> bool {
    tag == "happy"@ || tag == "sad"@ || tag == "excited"@ || tag == "angry"@ || tag == "neutral"@
        || tag == "stressed"@ || tag == "confident"@
}

/// Number of records assessed as high risk.
pub open spec fn high_risk_count(s: Seq<SpendingRecord>) -> int
    decreases s.len(),
{
    if s.len() == 0 {
        0
    } else {
        high_risk_count(s.drop_last()) + if s.last().risk_assessment == RiskLevel::High {
            1int
        } else {
            0int
        }
    }
}

/// Bounds of the high-risk count.
pub proof fn lemma_high_risk_count_bounds(s: Seq<SpendingRecord>)
    ensures
        0 <= high_risk_count(s) <= s.len(),
    decreases s.len(),
{
    if s.len() > 0 {
        lemma_high_risk_count_bounds(s.drop_last());
    }
}

/// One recorded spend, immutable once created.
pub struct SpendingRecord {
    pub id: u64,
    pub amount: u64,
    pub emotional_tag: String,
    pub transaction_type: String,
    pub risk_assessment: RiskLevel,
    pub timestamp: u64,
    pub notes: Option<String>,
    pub flagged_suspicious: bool,
}

/// Observational equality of two spending records.
pub open spec fn record_eq(a: SpendingRecord, b: SpendingRecord) -> bool {
    &&& a.id == b.id
    &&& a.amount == b.amount
    &&& a.emotional_tag@ == b.emotional_tag@
    &&& a.transaction_type@ == b.transaction_type@
    &&& a.risk_assessment == b.risk_assessment
    &&& a.timestamp == b.timestamp
    &&& opt_str_view(a.notes) == opt_str_view(b.notes)
    &&& a.flagged_suspicious == b.flagged_suspicious
}

impl SpendingRecord {
    /// An independent copy of this record.
    pub fn dup(&self) -> (r: SpendingRecord)
        ensures
            record_eq(r, *self),
    {
        SpendingRecord {
            id: self.id,
            amount: self.amount,
            emotional_tag: self.emotional_tag.clone(),
            transaction_type: self.transaction_type.clone(),
            risk_assessment: self.risk_assessment,
            timestamp: self.timestamp,
            notes: dup_opt_string(&self.notes),
            flagged_suspicious: self.flagged_suspicious,
        }
    }
}

/// Summary of a principal's recorded spending.
pub struct SpendingAnalysis {
    pub total_spent: u64,
    pub total_transactions: u64,
    pub high_risk_transactions: u64,
    pub risk_percentage: u32,
    pub most_emotional_tag: String,
    pub safety_rating: SafetyRating,
    pub trust_score: u32,
    pub recommendations: Vec<String>,
}

/// Observational equality of two analyses.
pub open spec fn analysis_eq(a: SpendingAnalysis, b: SpendingAnalysis) -> bool {
    &&& a.total_spent == b.total_spent
    &&& a.total_transactions == b.total_transactions
    &&& a.high_risk_transactions == b.high_risk_transactions
    &&& a.risk_percentage == b.risk_percentage
    &&& a.most_emotional_tag@ == b.most_emotional_tag@
    &&& a.safety_rating == b.safety_rating
    &&& a.trust_score == b.trust_score
    &&& strs_view(a.recommendations@) == strs_view(b.recommendations@)
}

impl SpendingAnalysis {
    /// An independent copy of this analysis.
    pub fn dup(&self) -> (r: SpendingAnalysis)
        ensures
            analysis_eq(r, *self),
    {
        SpendingAnalysis {
            total_spent: self.total_spent,
            total_transactions: self.total_transactions,
            high_risk_transactions: self.high_risk_transactions,
            risk_percentage: self.risk_percentage,
            most_emotional_tag: self.most_emotional_tag.clone(),
            safety_rating: self.safety_rating,
            trust_score: self.trust_score,
            recommendations: dup_strings(&self.recommendations),
        }
    }
}

/// The guidance produced for a wallet's spending analysis: fixed lines
/// selected by the safety rating, the trust score, an active cooling-off
/// period and missing emergency contacts.
pub open spec fn spec_recommendations(w: CafeWallet, now: u64) -> Seq<Seq<char>> {
    (match w.safety_rating {
        SafetyRating::HighRisk => seq![
            "High emotional spending detected - consider cooling off period"@,
            "Try mindfulness before making purchases"@,
        ],
        SafetyRating::Caution => seq!["Moderate emotional spending - monitor patterns"@],
        SafetyRating::Safe => seq!["Healthy spending patterns maintained"@],
    }) + (if w.trust_score < 60 {
        seq!["Build trust through verified transactions"@]
    } else {
        Seq::empty()
    }) + (if cooling_off_active(w, now) {
        seq!["Cooling off period active - wait before large purchases"@]
    } else {
        Seq::empty()
    }) + (if w.emergency_contacts@.len() == 0 {
        seq!["Add emergency contacts for enhanced safety"@]
    } else {
        Seq::empty()
    })
}

/// Whether the wallet's cooling-off period still covers the last large
/// purchase.
pub open spec fn cooling_off_active(w: CafeWallet, now: u64) -> bool {
    match w.spending_patterns.last_large_purchase {
        Option::Some(l) => now >= l && (now - l) / 1_000_000_000
            < w.spending_patterns.cooling_off_period,
        Option::None => false,
    }
}

/// Builds the guidance lines for a wallet's spending analysis.
pub fn generate_recommendations(w: &CafeWallet, now: u64) -> (r: Vec<String>)
    ensures
        strs_view(r@) == spec_recommendations(*w, now),
{
    let mut r: Vec<String> = Vec::new();
    match w.safety_rating {
        SafetyRating::HighRisk => {
            r.push("High emotional spending detected - consider cooling off period".to_owned());
            r.push("Try mindfulness before making purchases".to_owned());
        },
        SafetyRating::Caution => {
            r.push("Moderate emotional spending - monitor patterns".to_owned());
        },
        SafetyRating::Safe => {
            r.push("Healthy spending patterns maintained".to_owned());
        },
    }
    if w.trust_score < 60 {
        r.push("Build trust through verified transactions".to_owned());
    }
    let cooling = match w.spending_patterns.last_large_purchase {
        Option::Some(l) => now >= l && (now - l) / 1_000_000_000
            < w.spending_patterns.cooling_off_period,
        Option::None => false,
    };
    if cooling {
        r.push("Cooling off period active - wait before large purchases".to_owned());
    }
    if w.emergency_contacts.len() == 0 {
        r.push("Add emergency contacts for enhanced safety".to_owned());
    }
    proof {
        assert(strs_view(r@) =~= spec_recommendations(*w, now));
    }
    r
}

impl Cafe {
    /// Validates and appends a spending record: the risk engine scores
    /// it, records over the flagging threshold or at high risk are marked
    /// suspicious, and the platform counters are updated.  Returns the
    /// record id.
    ///
    /// Fails with `AuthError` for the anonymous sentinel and with
    /// `ValidationError` for an emotional tag outside the fixed
    /// vocabulary.
    pub fn record_spending(
        &mut self,
        caller: &Principal,
        amount: u64,
        emotional_tag: String,
        transaction_type: String,
        notes: Option<String>,
        now: u64,
    ) -> (r: Result<u64, CafeError>)
        requires
            old(self).wf(),
            now >= old(self).clock_watermark,
        ensures
            final(self).wf(),
            is_anonymous(caller@) <==> r == Result::<u64, CafeError>::Err(CafeError::AuthError),
            !is_anonymous(caller@) && !valid_emotion(emotional_tag@) <==> r == Result::<
                u64,
                CafeError,
            >::Err(CafeError::ValidationError),
            r is Ok <==> !is_anonymous(caller@) && valid_emotion(emotional_tag@),
            r is Err ==> *final(self) == *old(self),
            r is Ok ==> {
                let recs = final(self).records_of(caller@);
                let risk = spec_transaction_risk(amount, emotional_tag@, transaction_type@);
                let flagged = risk == RiskLevel::High || amount > crate::LARGE_TRANSACTION;
                &&& r->Ok_0 == old(self).records_of(caller@).len()
                &&& recs.len() == old(self).records_of(caller@).len() + 1
                &&& forall|k: int|
                    0 <= k < old(self).records_of(caller@).len() ==> recs[k] == old(
                        self,
                    ).records_of(caller@)[k]
                &&& recs.last().id == r->Ok_0
                &&& recs.last().amount == amount
                &&& recs.last().emotional_tag@ == emotional_tag@
                &&& recs.last().transaction_type@ == transaction_type@
                &&& recs.last().risk_assessment == risk
                &&& recs.last().timestamp == now
                &&& opt_str_view(recs.last().notes) == opt_str_view(notes)
                &&& recs.last().flagged_suspicious == flagged
                &&& forall|q: Seq<u8>|
                    q != caller@ ==> final(self).records_of(q) == old(self).records_of(q)
                &&& final(self).stats.total_transactions == sat_inc(
                    old(self).stats.total_transactions,
                )
                &&& final(self).stats.scams_prevented == (if risk == RiskLevel::High {
                    sat_inc(old(self).stats.scams_prevented)
                } else {
                    old(self).stats.scams_prevented
                })
                &&& final(self).stats.total_wallets == old(self).stats.total_wallets
                &&& final(self).stats.total_trust_connections == old(
                    self,
                ).stats.total_trust_connections
                &&& final(self).stats.last_updated == now
                &&& final(self).wallets == old(self).wallets
                &&& final(self).transactions == old(self).transactions
                &&& final(self).deposits == old(self).deposits
                &&& final(self).trust_logs == old(self).trust_logs
                &&& final(self).circle_logs == old(self).circle_logs
                &&& final(self).alert_logs == old(self).alert_logs
                &&& final(self).radar_logs == old(self).radar_logs
                &&& final(self).linked_logs == old(self).linked_logs
                &&& final(self).threats == old(self).threats
                &&& final(self).clock_watermark == now
            },
    {
        if caller.is_anon() {
            return Result::Err(CafeError::AuthError);
        }
        let tag_ok = str_eq(emotional_tag.as_str(), "happy") || str_eq(
            emotional_tag.as_str(),
            "sad",
        ) || str_eq(emotional_tag.as_str(), "excited") || str_eq(emotional_tag.as_str(), "angry")
            || str_eq(emotional_tag.as_str(), "neutral") || str_eq(
            emotional_tag.as_str(),
            "stressed",
        ) || str_eq(emotional_tag.as_str(), "confident");
        if !tag_ok {
            return Result::Err(CafeError::ValidationError);
        }
        let risk = crate::risk::assess_transaction_risk(
            amount,
            emotional_tag.as_str(),
            transaction_type.as_str(),
        );
        let is_high = match risk {
            RiskLevel::High => true,
            _ => false,
        };
        let flagged = is_high || amount > crate::LARGE_TRANSACTION;
        let ghost pre = *self;
        let found = self.find_spend_log(caller);
        let record_id: u64;
        match found {
            Option::Some(ix) => {
                record_id = self.spend_logs[ix].records.len() as u64;
                let rec = SpendingRecord {
                    id: record_id,
                    amount,
                    emotional_tag,
                    transaction_type,
                    risk_assessment: risk,
                    timestamp: now,
                    notes,
                    flagged_suspicious: flagged,
                };
                let mut tmp = SpendLog { owner: Principal::anonymous(), records: Vec::new() };
                self.spend_logs.set_and_swap(ix, &mut tmp);
                tmp.records.push(rec);
                let ghost logg = tmp;
                self.spend_logs.set_and_swap(ix, &mut tmp);
                proof {
                    assert(self.spend_logs@ =~= pre.spend_logs@.update(ix as int, logg));
                    assert forall|q: Seq<u8>| self.spend_ix(q) == pre.spend_ix(q) by {
                        lemma_first_where_update(pre.spend_logs@, spend_pred(q), ix as int, logg);
                    }
                    assert forall|q: Seq<u8>| q != caller@ implies self.records_of(q)
                        == pre.records_of(q) by {
                        lemma_first_where_props(pre.spend_logs@, spend_pred(q));
                        if pre.spend_ix(q) >= 0 {
                            assert(pre.spend_logs@[pre.spend_ix(q)].owner@ == q);
                            assert(pre.spend_ix(q) != ix as int);
                        }
                    }
                }
            },
            Option::None => {
                record_id = 0;
                let rec = SpendingRecord {
                    id: record_id,
                    amount,
                    emotional_tag,
                    transaction_type,
                    risk_assessment: risk,
                    timestamp: now,
                    notes,
                    flagged_suspicious: flagged,
                };
                let mut records: Vec<SpendingRecord> = Vec::new();
                records.push(rec);
                let log = SpendLog { owner: caller.dup(), records };
                let ghost logg = log;
                self.spend_logs.push(log);
                proof {
                    lemma_first_where_push(pre.spend_logs@, spend_pred(caller@), logg);
                    assert forall|q: Seq<u8>| q != caller@ implies self.records_of(q)
                        == pre.records_of(q) by {
                        lemma_first_where_push(pre.spend_logs@, spend_pred(q), logg);
                        lemma_first_where_props(pre.spend_logs@, spend_pred(q));
                    }
                    assert(self.records_of(caller@) =~= pre.records_of(caller@).push(
                        logg.records@[0],
                    ));
                }
            },
        }
        self.stats = WalletStats {
            total_wallets: self.stats.total_wallets,
            total_transactions: crate::wallet::bump(self.stats.total_transactions),
            scams_prevented: if is_high {
                crate::wallet::bump(self.stats.scams_prevented)
            } else {
                self.stats.scams_prevented
            },
            total_trust_connections: self.stats.total_trust_connections,
            last_updated: now,
        };
        self.clock_watermark = now;
        proof {
            assert(self.wallets_wf());
            assert(self.txs_wf());
            assert(self.deposits_wf());
            assert(self.spending_wf());
        }
        Result::Ok(record_id)
    }

    /// Returns the caller's spending records, most recent first, up to
    /// the given limit (50 when none is given).  Fails with `AuthError`
    /// for the anonymous sentinel.
    pub fn get_spending_history(&self, caller: &Principal, limit: Option<u64>) -> (r: Result<
        Vec<SpendingRecord>,
        CafeError,
    >)
        ensures
            is_anonymous(caller@) <==> r == Result::<Vec<SpendingRecord>, CafeError>::Err(
                CafeError::AuthError,
            ),
            r is Ok <==> !is_anonymous(caller@),
            r is Ok ==> {
                let recs = self.records_of(caller@);
                let lim = if limit is Some {
                    limit->0 as int
                } else {
                    50
                };
                let take_n = if lim < recs.len() {
                    lim
                } else {
                    recs.len() as int
                };
                &&& r->Ok_0@.len() == take_n
                &&& forall|k: int|
                    0 <= k < take_n ==> record_eq(#[trigger] r->Ok_0@[k], recs[recs.len() - 1 - k])
            },
    {
        if caller.is_anon() {
            return Result::Err(CafeError::AuthError);
        }
        let lim: u64 = match limit {
            Option::Some(l) => l,
            Option::None => 50,
        };
        match self.find_spend_log(caller) {
            Option::None => Result::Ok(Vec::new()),
            Option::Some(ix) => {
                let m = self.spend_logs[ix].records.len();
                let take_n: usize = if lim < m as u64 {
                    lim as usize
                } else {
                    m
                };
                let mut out: Vec<SpendingRecord> = Vec::new();
                let mut k: usize = 0;
                while k < take_n
                    invariant
                        ix < self.spend_logs@.len(),
                        m == self.spend_logs@[ix as int].records@.len(),
                        self.records_of(caller@) == self.spend_logs@[ix as int].records@,
                        take_n <= m,
                        0 <= k <= take_n,
                        out@.len() == k,
                        forall|j: int|
                            0 <= j < k ==> record_eq(
                                #[trigger] out@[j],
                                self.spend_logs@[ix as int].records@[m - 1 - j],
                            ),
                    decreases take_n - k,
                {
                    out.push(self.spend_logs[ix].records[m - 1 - k].dup());
                    k = k + 1;
                }
                Result::Ok(out)
            },
        }
    }

    /// Summarises the caller's recorded spending: totals, the share of
    /// high-risk records, and guidance lines.  Fails with `AuthError` for
    /// the anonymous sentinel and with `NotFoundError` without a wallet.
    pub fn get_spending_analysis(&self, caller: &Principal, now: u64) -> (r: Result<
        SpendingAnalysis,
        CafeError,
    >)
        ensures
            is_anonymous(caller@) <==> r == Result::<SpendingAnalysis, CafeError>::Err(
                CafeError::AuthError,
            ),
            !is_anonymous(caller@) && !self.has_wallet(caller@) <==> r == Result::<
                SpendingAnalysis,
                CafeError,
            >::Err(CafeError::NotFoundError),
            r is Ok <==> !is_anonymous(caller@) && self.has_wallet(caller@),
            r is Ok ==> {
                let w = self.wallet_of(caller@);
                let recs = self.records_of(caller@);
                let a = r->Ok_0;
                &&& a.total_spent == w.total_spent
                &&& a.total_transactions == recs.len()
                &&& a.high_risk_transactions == high_risk_count(recs)
                &&& a.risk_percentage == (if recs.len() > 0 {
                    high_risk_count(recs) * 100 / recs.len() as int
                } else {
                    0
                })
                &&& a.most_emotional_tag@ == "neutral"@
                &&& a.safety_rating == w.safety_rating
                &&& a.trust_score == w.trust_score
                &&& strs_view(a.recommendations@) == spec_recommendations(w, now)
            },
    {
        if caller.is_anon() {
            return Result::Err(CafeError::AuthError);
        }
        let wi = match self.find_wallet(caller) {
            Option::Some(i) => i,
            Option::None => {
                return Result::Err(CafeError::NotFoundError);
            },
        };
        let total: u64;
        let high: u64;
        match self.find_spend_log(caller) {
            Option::None => {
                total = 0;
                high = 0;
                proof {
                    assert(self.records_of(caller@) =~= Seq::<SpendingRecord>::empty());
                }
            },
            Option::Some(ix) => {
                let m = self.spend_logs[ix].records.len();
                let mut h: usize = 0;
                let mut k: usize = 0;
                while k < m
                    invariant
                        ix < self.spend_logs@.len(),
                        m == self.spend_logs@[ix as int].records@.len(),
                        0 <= k <= m,
                        h <= k,
                        h == high_risk_count(self.spend_logs@[ix as int].records@.take(k as int)),
                    decreases m - k,
                {
                    proof {
                        let recs = self.spend_logs@[ix as int].records@;
                        assert(recs.take(k + 1).drop_last() =~= recs.take(k as int));
                        assert(recs.take(k + 1).last() == recs[k as int]);
                    }
                    let is_high = match self.spend_logs[ix].records[k].risk_assessment {
                        RiskLevel::High => true,
                        _ => false,
                    };
                    if is_high {
                        h = h + 1;
                    }
                    k = k + 1;
                }
                proof {
                    assert(self.spend_logs@[ix as int].records@.take(m as int)
                        =~= self.spend_logs@[ix as int].records@);
                }
                total = m as u64;
                high = h as u64;
            },
        }
        proof {
            lemma_high_risk_count_bounds(self.records_of(caller@));
        }
        let risk_percentage: u32 = if total > 0 {
            proof {
                assert((high as int * 100) / (total as int) <= 100) by (nonlinear_arith)
                    requires
                        0 <= high <= total,
                        total > 0,
                ;
            }
            ((high as u128 * 100) / (total as u128)) as u32
        } else {
            0
        };
        let recommendations = generate_recommendations(&self.wallets[wi], now);
        let analysis = SpendingAnalysis {
            total_spent: self.wallets[wi].total_spent,
            total_transactions: total,
            high_risk_transactions: high,
            risk_percentage,
            most_emotional_tag: "neutral".to_owned(),
            safety_rating: self.wallets[wi].safety_rating,
            trust_score: self.wallets[wi].trust_score,
            recommendations,
        };
        Result::Ok(analysis)
    }
}

} // verus!
