//! Safety alerts (append-only, acknowledgeable) and the ephemeral scam
//! radar log of message-level evaluations.

use vstd::prelude::*;
use vstd::string::StringSliceAdditionalSpecFns;
use crate::errors::CafeError;
use crate::lookup::{lemma_first_where_props, lemma_first_where_push, lemma_first_where_update};
use crate::principal::{is_anonymous, Principal};
use crate::risk::{
    calculate_scam_confidence, detect_scam_patterns, generate_safe_response, spec_confidence,
    spec_indicators, spec_safe_response, ScamIndicator,
};
use crate::payments::{opt_principal_view, dup_opt_principal};
use crate::state::{alert_pred, radar_pred, AlertLog, Cafe, RadarLog};
use crate::text::dec_str;
use crate::wallet::{opt_str_view, dup_opt_string, sat_inc};

verus! {

/// Severity of a safety alert.
#[derive(Clone, Copy, Debug, PartialEq, Eq, Structural)]
pub enum Severity {
    Low,
    Medium,
    High,
    Critical,
}

/// An append-only safety alert.  Alerts are never deleted; the only
/// mutation ever applied is the one-way flip of `acknowledged`.
pub struct SafetyAlert {
    pub id: u64,
    pub alert_type: String,
    pub message: String,
    pub severity: Severity,
    pub created_at: u64,
    pub acknowledged: bool,
    pub reporter_principal: Option<Principal>,
    pub chat_context: Option<String>,
    pub flagged_user: Option<Principal>,
    pub threat_type: Option<String>,
    pub evidence: Option<String>,
    pub threat_severity: Option<u32>,
    pub scam_confidence: Option<u32>,
    pub scam_indicators: Vec<ScamIndicator>,
}

/// Observational equality of two safety alerts.
pub open spec fn alert_eq(a: SafetyAlert, b: SafetyAlert) -> bool {
    &&& a.id == b.id
    &&& a.alert_type@ == b.alert_type@
    &&& a.message@ == b.message@
    &&& a.severity == b.severity
    &&& a.created_at == b.created_at
    &&& a.acknowledged == b.acknowledged
    &&& opt_principal_view(a.reporter_principal) == opt_principal_view(b.reporter_principal)
    &&& opt_str_view(a.chat_context) == opt_str_view(b.chat_context)
    &&& opt_principal_view(a.flagged_user) == opt_principal_view(b.flagged_user)
    &&& opt_str_view(a.threat_type) == opt_str_view(b.threat_type)
    &&& opt_str_view(a.evidence) == opt_str_view(b.evidence)
    &&& a.threat_severity == b.threat_severity
    &&& a.scam_confidence == b.scam_confidence
    &&& a.scam_indicators@ == b.scam_indicators@
}

impl SafetyAlert {
    /// An independent copy of this alert.
    pub fn dup(&self) -> (r: SafetyAlert)
        ensures
            alert_eq(r, *self),
    {
        SafetyAlert {
            id: self.id,
            alert_type: self.alert_type.clone(),
            message: self.message.clone(),
            severity: self.severity,
            created_at: self.created_at,
            acknowledged: self.acknowledged,
            reporter_principal: dup_opt_principal(&self.reporter_principal),
            chat_context: dup_opt_string(&self.chat_context),
            flagged_user: dup_opt_principal(&self.flagged_user),
            threat_type: dup_opt_string(&self.threat_type),
            evidence: dup_opt_string(&self.evidence),
            threat_severity: self.threat_severity,
            scam_confidence: self.scam_confidence,
            scam_indicators: vstd::slice::slice_to_vec(self.scam_indicators.as_slice()),
        }
    }
}

/// One message-level scam evaluation, kept in a bounded per-principal log.
pub struct ScamRadarAlert {
    pub id: u64,
    pub target_message: String,
    pub scam_indicators: Vec<ScamIndicator>,
    pub confidence_score: u32,
    pub suggested_response: String,
    pub created_at: u64,
}

/// Observational equality of two radar alerts.
pub open spec fn radar_eq(a: ScamRadarAlert, b: ScamRadarAlert) -> bool {
    &&& a.id == b.id
    &&& a.target_message@ == b.target_message@
    &&& a.scam_indicators@ == b.scam_indicators@
    &&& a.confidence_score == b.confidence_score
    &&& a.suggested_response@ == b.suggested_response@
    &&& a.created_at == b.created_at
}

impl ScamRadarAlert {
    /// An independent copy of this radar alert.
    pub fn dup(&self) -> (r: ScamRadarAlert)
        ensures
            radar_eq(r, *self),
    {
        ScamRadarAlert {
            id: self.id,
            target_message: self.target_message.clone(),
            scam_indicators: vstd::slice::slice_to_vec(self.scam_indicators.as_slice()),
            confidence_score: self.confidence_score,
            suggested_response: self.suggested_response.clone(),
            created_at: self.created_at,
        }
    }
}

/// Equality of two safety alerts on every field but the id.
pub open spec fn alert_eq_mod_id(a: SafetyAlert, b: SafetyAlert) -> bool {
    &&& a.alert_type@ == b.alert_type@
    &&& a.message@ == b.message@
    &&& a.severity == b.severity
    &&& a.created_at == b.created_at
    &&& a.acknowledged == b.acknowledged
    &&& opt_principal_view(a.reporter_principal) == opt_principal_view(b.reporter_principal)
    &&& opt_str_view(a.chat_context) == opt_str_view(b.chat_context)
    &&& opt_principal_view(a.flagged_user) == opt_principal_view(b.flagged_user)
    &&& opt_str_view(a.threat_type) == opt_str_view(b.threat_type)
    &&& opt_str_view(a.evidence) == opt_str_view(b.evidence)
    &&& a.threat_severity == b.threat_severity
    &&& a.scam_confidence == b.scam_confidence
    &&& a.scam_indicators@ == b.scam_indicators@
}

/// The message text of a chat-scam safety alert.
pub open spec fn scam_alert_text(confidence: int) -> Seq<char> {
    "ScamRadar detected potential scam ("@ + dec_str(confidence) + "% confidence)"@
}

/// `b` is `a` with exactly one element appended.
pub open spec fn extends_by_one(a: Seq<SafetyAlert>, b: Seq<SafetyAlert>) -> bool {
    &&& b.len() == a.len() + 1
    &&& forall|k: int| 0 <= k < a.len() ==> b[k] == a[k]
}

impl Cafe {
    /// Appends a safety alert to `owner`'s log; the log is append-only
    /// and the alert is keyed by its position.
    pub fn raise_alert(&mut self, owner: &Principal, alert: SafetyAlert, now: u64)
        requires
            old(self).wf(),
            now >= old(self).clock_watermark,
            alert.created_at == now,
        ensures
            final(self).wf(),
            extends_by_one(old(self).alerts_of(owner@), final(self).alerts_of(owner@)),
            final(self).alerts_of(owner@).last().id == old(self).alerts_of(owner@).len(),
            alert_eq_mod_id(final(self).alerts_of(owner@).last(), alert),
            forall|q: Seq<u8>| q != owner@ ==> final(self).alerts_of(q) == old(self).alerts_of(q),
            final(self).wallets == old(self).wallets,
            final(self).transactions == old(self).transactions,
            final(self).deposits == old(self).deposits,
            final(self).spend_logs == old(self).spend_logs,
            final(self).trust_logs == old(self).trust_logs,
            final(self).circle_logs == old(self).circle_logs,
            final(self).radar_logs == old(self).radar_logs,
            final(self).linked_logs == old(self).linked_logs,
            final(self).threats == old(self).threats,
            final(self).stats == old(self).stats,
            final(self).next_radar_id == old(self).next_radar_id,
            final(self).clock_watermark == now,
    {
        let ghost pre = *self;
        let mut alert = alert;
        match self.find_alert_log(owner) {
            Option::Some(ix) => {
                alert.id = self.alert_logs[ix].alerts.len() as u64;
                let mut tmp = AlertLog { owner: Principal::anonymous(), alerts: Vec::new() };
                self.alert_logs.set_and_swap(ix, &mut tmp);
                tmp.alerts.push(alert);
                let ghost logg = tmp;
                self.alert_logs.set_and_swap(ix, &mut tmp);
                self.clock_watermark = now;
                proof {
                    assert(self.alert_logs@ =~= pre.alert_logs@.update(ix as int, logg));
                    assert forall|q: Seq<u8>| self.alert_ix(q) == pre.alert_ix(q) by {
                        lemma_first_where_update(pre.alert_logs@, alert_pred(q), ix as int, logg);
                    }
                    assert forall|q: Seq<u8>| q != owner@ implies self.alerts_of(q)
                        == pre.alerts_of(q) by {
                        lemma_first_where_props(pre.alert_logs@, alert_pred(q));
                        if pre.alert_ix(q) >= 0 {
                            assert(pre.alert_logs@[pre.alert_ix(q)].owner@ == q);
                            assert(pre.alert_ix(q) != ix as int);
                        }
                    }
                    assert(self.wallets_wf());
                    assert(self.txs_wf());
                    assert(self.deposits_wf());
                    assert(self.alerts_wf());
                }
            },
            Option::None => {
                alert.id = 0;
                let mut alerts: Vec<SafetyAlert> = Vec::new();
                alerts.push(alert);
                let log = AlertLog { owner: owner.dup(), alerts };
                let ghost logg = log;
                self.alert_logs.push(log);
                self.clock_watermark = now;
                proof {
                    lemma_first_where_push(pre.alert_logs@, alert_pred(owner@), logg);
                    assert forall|q: Seq<u8>| q != owner@ implies self.alerts_of(q)
                        == pre.alerts_of(q) by {
                        lemma_first_where_push(pre.alert_logs@, alert_pred(q), logg);
                        lemma_first_where_props(pre.alert_logs@, alert_pred(q));
                    }
                    assert(self.alerts_of(owner@) =~= pre.alerts_of(owner@).push(
                        logg.alerts@[0],
                    ));
                    assert(self.wallets_wf());
                    assert(self.txs_wf());
                    assert(self.deposits_wf());
                    assert(self.alerts_wf());
                }
            },
        }
    }

    /// Returns the caller's safety alerts, most recent first, without
    /// mutating the underlying storage order.  Fails with `AuthError` for
    /// the anonymous sentinel.
    pub fn get_safety_alerts(&self, caller: &Principal) -> (r: Result<Vec<SafetyAlert>, CafeError>)
        ensures
            is_anonymous(caller@) <==> r == Result::<Vec<SafetyAlert>, CafeError>::Err(
                CafeError::AuthError,
            ),
            r is Ok <==> !is_anonymous(caller@),
            r is Ok ==> {
                let alerts = self.alerts_of(caller@);
                &&& r->Ok_0@.len() == alerts.len()
                &&& forall|k: int|
                    0 <= k < alerts.len() ==> alert_eq(
                        #[trigger] r->Ok_0@[k],
                        alerts[alerts.len() - 1 - k],
                    )
            },
    {
        if caller.is_anon() {
            return Result::Err(CafeError::AuthError);
        }
        match self.find_alert_log(caller) {
            Option::None => Result::Ok(Vec::new()),
            Option::Some(ix) => {
                let m = self.alert_logs[ix].alerts.len();
                let mut out: Vec<SafetyAlert> = Vec::new();
                let mut k: usize = 0;
                while k < m
                    invariant
                        ix < self.alert_logs@.len(),
                        m == self.alert_logs@[ix as int].alerts@.len(),
                        self.alerts_of(caller@) == self.alert_logs@[ix as int].alerts@,
                        0 <= k <= m,
                        out@.len() == k,
                        forall|j: int|
                            0 <= j < k ==> alert_eq(
                                #[trigger] out@[j],
                                self.alert_logs@[ix as int].alerts@[m - 1 - j],
                            ),
                    decreases m - k,
                {
                    out.push(self.alert_logs[ix].alerts[m - 1 - k].dup());
                    k = k + 1;
                }
                Result::Ok(out)
            },
        }
    }

    /// Acknowledges one of the caller's safety alerts: a one-way flip
    /// that is idempotent, so acknowledging twice is not an error.  Fails
    /// with `AuthError` for the anonymous sentinel and with
    /// `NotFoundError` when the caller has no alert under that id.
    pub fn acknowledge_safety_alert(&mut self, caller: &Principal, alert_id: u64) -> (r: Result<
        (),
        CafeError,
    >)
        requires
            old(self).wf(),
        ensures
            final(self).wf(),
            is_anonymous(caller@) <==> r == Result::<(), CafeError>::Err(CafeError::AuthError),
            !is_anonymous(caller@) && !(alert_id < old(self).alerts_of(caller@).len()) <==> r
                == Result::<(), CafeError>::Err(CafeError::NotFoundError),
            r is Ok <==> !is_anonymous(caller@) && alert_id < old(self).alerts_of(caller@).len(),
            r is Err ==> *final(self) == *old(self),
            r is Ok ==> {
                let alerts = final(self).alerts_of(caller@);
                let before = old(self).alerts_of(caller@);
                &&& alerts.len() == before.len()
                &&& forall|k: int| 0 <= k < before.len() && k != alert_id ==> alerts[k] == before[k]
                &&& alerts[alert_id as int].acknowledged == true
                &&& alerts[alert_id as int].id == before[alert_id as int].id
                &&& alert_eq_mod_id(
                    alerts[alert_id as int],
                    SafetyAlert {
                        acknowledged: true,
                        ..before[alert_id as int]
                    },
                )
                &&& forall|q: Seq<u8>|
                    q != caller@ ==> final(self).alerts_of(q) == old(self).alerts_of(q)
                &&& final(self).wallets == old(self).wallets
                &&& final(self).transactions == old(self).transactions
                &&& final(self).deposits == old(self).deposits
                &&& final(self).spend_logs == old(self).spend_logs
                &&& final(self).trust_logs == old(self).trust_logs
                &&& final(self).circle_logs == old(self).circle_logs
                &&& final(self).radar_logs == old(self).radar_logs
                &&& final(self).linked_logs == old(self).linked_logs
                &&& final(self).threats == old(self).threats
                &&& final(self).stats == old(self).stats
                &&& final(self).clock_watermark == old(self).clock_watermark
            },
    {
        if caller.is_anon() {
            return Result::Err(CafeError::AuthError);
        }
        let ix = match self.find_alert_log(caller) {
            Option::Some(ix) => ix,
            Option::None => {
                return Result::Err(CafeError::NotFoundError);
            },
        };
        let m = self.alert_logs[ix].alerts.len();
        if alert_id >= m as u64 {
            return Result::Err(CafeError::NotFoundError);
        }
        let a = alert_id as usize;
        let ghost pre = *self;
        let mut tmp = AlertLog { owner: Principal::anonymous(), alerts: Vec::new() };
        self.alert_logs.set_and_swap(ix, &mut tmp);
        let mut upd = tmp.alerts[a].dup();
        upd.acknowledged = true;
        let ghost aid = upd.id;
        tmp.alerts.set(a, upd);
        let ghost logg = tmp;
        self.alert_logs.set_and_swap(ix, &mut tmp);
        proof {
            assert(self.alert_logs@ =~= pre.alert_logs@.update(ix as int, logg));
            assert forall|q: Seq<u8>| self.alert_ix(q) == pre.alert_ix(q) by {
                lemma_first_where_update(pre.alert_logs@, alert_pred(q), ix as int, logg);
            }
            assert forall|q: Seq<u8>| q != caller@ implies self.alerts_of(q) == pre.alerts_of(
                q,
            ) by {
                lemma_first_where_props(pre.alert_logs@, alert_pred(q));
                if pre.alert_ix(q) >= 0 {
                    assert(pre.alert_logs@[pre.alert_ix(q)].owner@ == q);
                    assert(pre.alert_ix(q) != ix as int);
                }
            }
            assert(self.wallets_wf());
            assert(self.txs_wf());
            assert(self.deposits_wf());
            assert(self.alerts_wf());
        }
        Result::Ok(())
    }

    /// Evaluates a chat message with the scam radar: records the
    /// evaluation in the caller's bounded radar log (evicting the oldest
    /// entry past the bound) and, for a high-confidence match, raises a
    /// chat-scam safety alert.  Returns the evaluation.
    ///
    /// Fails with `AuthError` for the anonymous sentinel.
    pub fn analyze_chat_message(&mut self, caller: &Principal, message: &str, now: u64) -> (r:
        Result<ScamRadarAlert, CafeError>)
        requires
            old(self).wf(),
            now >= old(self).clock_watermark,
        ensures
            final(self).wf(),
            is_anonymous(caller@) <==> r == Result::<ScamRadarAlert, CafeError>::Err(
                CafeError::AuthError,
            ),
            r is Ok <==> !is_anonymous(caller@),
            r is Err ==> *final(self) == *old(self),
            r is Ok ==> {
                let inds = spec_indicators(message.spec_bytes());
                let conf = spec_confidence(inds, message.spec_bytes());
                let a = r->Ok_0;
                let old_r = old(self).radar_of(caller@);
                let new_r = final(self).radar_of(caller@);
                &&& a.id == old(self).next_radar_id
                &&& a.target_message@ == message@
                &&& a.scam_indicators@ == inds
                &&& a.confidence_score == conf
                &&& a.suggested_response@ == spec_safe_response(conf)
                &&& a.created_at == now
                &&& new_r.len() > 0 && radar_eq(new_r.last(), a)
                &&& (old_r.len() < crate::RADAR_LOG_BOUND ==> new_r.len() == old_r.len() + 1
                    && forall|k: int| 0 <= k < old_r.len() ==> new_r[k] == old_r[k])
                &&& (old_r.len() == crate::RADAR_LOG_BOUND ==> new_r.len()
                    == crate::RADAR_LOG_BOUND && forall|k: int|
                    0 <= k < crate::RADAR_LOG_BOUND - 1 ==> new_r[k] == old_r[k + 1])
                &&& forall|q: Seq<u8>| q != caller@ ==> final(self).radar_of(q) == old(
                    self,
                ).radar_of(q)
                &&& (conf >= 75 ==> {
                    let alerts = final(self).alerts_of(caller@);
                    &&& extends_by_one(old(self).alerts_of(caller@), alerts)
                    &&& alerts.last().alert_type@ == "CHAT_SCAM"@
                    &&& alerts.last().message@ == scam_alert_text(conf)
                    &&& alerts.last().severity == (if conf >= 90 {
                        Severity::Critical
                    } else {
                        Severity::High
                    })
                    &&& alerts.last().created_at == now
                    &&& alerts.last().acknowledged == false
                    &&& opt_str_view(alerts.last().chat_context) == Option::Some(message@)
                    &&& alerts.last().scam_confidence == Option::Some(conf as u32)
                    &&& alerts.last().scam_indicators@ == inds
                })
                &&& (conf < 75 ==> final(self).alert_logs == old(self).alert_logs)
                &&& forall|q: Seq<u8>|
                    q != caller@ ==> final(self).alerts_of(q) == old(self).alerts_of(q)
                &&& final(self).next_radar_id == sat_inc(old(self).next_radar_id)
                &&& final(self).wallets == old(self).wallets
                &&& final(self).transactions == old(self).transactions
                &&& final(self).deposits == old(self).deposits
                &&& final(self).spend_logs == old(self).spend_logs
                &&& final(self).trust_logs == old(self).trust_logs
                &&& final(self).circle_logs == old(self).circle_logs
                &&& final(self).linked_logs == old(self).linked_logs
                &&& final(self).threats == old(self).threats
                &&& final(self).stats == old(self).stats
                &&& final(self).clock_watermark == now
            },
    {
        if caller.is_anon() {
            return Result::Err(CafeError::AuthError);
        }
        let indicators = detect_scam_patterns(message);
        let confidence = calculate_scam_confidence(&indicators, message);
        let response = generate_safe_response(confidence);
        let radar_id = self.next_radar_id;
        let alert = ScamRadarAlert {
            id: radar_id,
            target_message: message.to_owned(),
            scam_indicators: indicators,
            confidence_score: confidence,
            suggested_response: response,
            created_at: now,
        };
        let ret = alert.dup();
        let ghost pre = *self;
        match self.find_radar_log(caller) {
            Option::Some(ix) => {
                let mut tmp = RadarLog { owner: Principal::anonymous(), alerts: Vec::new() };
                self.radar_logs.set_and_swap(ix, &mut tmp);
                tmp.alerts.push(alert);
                if tmp.alerts.len() > crate::RADAR_LOG_BOUND {
                    tmp.alerts.remove(0);
                }
                let ghost logg = tmp;
                self.radar_logs.set_and_swap(ix, &mut tmp);
                proof {
                    assert(self.radar_logs@ =~= pre.radar_logs@.update(ix as int, logg));
                    assert forall|q: Seq<u8>| self.radar_ix(q) == pre.radar_ix(q) by {
                        lemma_first_where_update(pre.radar_logs@, radar_pred(q), ix as int, logg);
                    }
                    assert forall|q: Seq<u8>| q != caller@ implies self.radar_of(q)
                        == pre.radar_of(q) by {
                        lemma_first_where_props(pre.radar_logs@, radar_pred(q));
                        if pre.radar_ix(q) >= 0 {
                            assert(pre.radar_logs@[pre.radar_ix(q)].owner@ == q);
                            assert(pre.radar_ix(q) != ix as int);
                        }
                    }
                }
            },
            Option::None => {
                let mut alerts: Vec<ScamRadarAlert> = Vec::new();
                alerts.push(alert);
                let log = RadarLog { owner: caller.dup(), alerts };
                let ghost logg = log;
                self.radar_logs.push(log);
                proof {
                    lemma_first_where_push(pre.radar_logs@, radar_pred(caller@), logg);
                    assert forall|q: Seq<u8>| q != caller@ implies self.radar_of(q)
                        == pre.radar_of(q) by {
                        lemma_first_where_push(pre.radar_logs@, radar_pred(q), logg);
                        lemma_first_where_props(pre.radar_logs@, radar_pred(q));
                    }
                }
            },
        }
        self.next_radar_id = crate::wallet::bump(self.next_radar_id);
        self.clock_watermark = now;
        proof {
            assert(self.wallets_wf());
            assert(self.txs_wf());
            assert(self.deposits_wf());
            assert(self.alerts_wf());
            assert(self.radar_wf());
        }
        if confidence >= 75 {
            self.create_scam_safety_alert(caller, message, ret.scam_indicators.as_slice(), confidence, now);
        }
        Result::Ok(ret)
    }

    /// Raises the chat-scam safety alert that a high-confidence radar
    /// match produces.
    fn create_scam_safety_alert(
        &mut self,
        user: &Principal,
        message: &str,
        indicators: &[ScamIndicator],
        confidence: u32,
        now: u64,
    )
        requires
            old(self).wf(),
            now >= old(self).clock_watermark,
        ensures
            final(self).wf(),
            extends_by_one(old(self).alerts_of(user@), final(self).alerts_of(user@)),
            final(self).alerts_of(user@).last().alert_type@ == "CHAT_SCAM"@,
            final(self).alerts_of(user@).last().message@ == scam_alert_text(confidence as int),
            final(self).alerts_of(user@).last().severity == (if confidence >= 90 {
                Severity::Critical
            } else {
                Severity::High
            }),
            final(self).alerts_of(user@).last().created_at == now,
            final(self).alerts_of(user@).last().acknowledged == false,
            opt_str_view(final(self).alerts_of(user@).last().chat_context) == Option::Some(
                message@,
            ),
            final(self).alerts_of(user@).last().scam_confidence == Option::Some(confidence),
            final(self).alerts_of(user@).last().scam_indicators@ == indicators@,
            forall|q: Seq<u8>| q != user@ ==> final(self).alerts_of(q) == old(self).alerts_of(q),
            final(self).wallets == old(self).wallets,
            final(self).transactions == old(self).transactions,
            final(self).deposits == old(self).deposits,
            final(self).spend_logs == old(self).spend_logs,
            final(self).trust_logs == old(self).trust_logs,
            final(self).circle_logs == old(self).circle_logs,
            final(self).radar_logs == old(self).radar_logs,
            final(self).linked_logs == old(self).linked_logs,
            final(self).threats == old(self).threats,
            final(self).stats == old(self).stats,
            final(self).next_radar_id == old(self).next_radar_id,
            final(self).clock_watermark == now,
    {
        let mut text = "ScamRadar detected potential scam (".to_owned();
        let num = crate::text::u64_to_string(confidence as u64);
        text.append(num.as_str());
        text.append("% confidence)");
        let severity = if confidence >= 90 {
            Severity::Critical
        } else {
            Severity::High
        };
        let alert = SafetyAlert {
            id: 0,
            alert_type: "CHAT_SCAM".to_owned(),
            message: text,
            severity,
            created_at: now,
            acknowledged: false,
            reporter_principal: Option::None,
            chat_context: Option::Some(message.to_owned()),
            flagged_user: Option::None,
            threat_type: Option::None,
            evidence: Option::None,
            threat_severity: Option::None,
            scam_confidence: Option::Some(confidence),
            scam_indicators: vstd::slice::slice_to_vec(indicators),
        };
        self.raise_alert(user, alert, now);
    }
}

} // verus!
