//! Trust graph: directed trust edges, inner-circle membership with scoped
//! permissions, and the community threat records raised through them.

use vstd::prelude::*;
use crate::alerts::{alert_eq_mod_id, extends_by_one, SafetyAlert, Severity};
use crate::errors::CafeError;
use crate::lookup::{
    lemma_first_where_is, lemma_first_where_props, lemma_first_where_push,
    lemma_first_where_update,
};
use crate::principal::{is_anonymous, Principal};
use crate::state::{circle_pred, trust_pred, Cafe, CircleLog, TrustLog};
use crate::text::{str_eq, strs_view, dup_strings};
use crate::wallet::{principals_view, sat_inc, WalletStats};

verus! {

/// The fixed vocabulary of trust connection types.
pub open spec fn valid_connection_type(t: Seq<char>) -> bool {
    t == "friend"@ || t == "family"@ || t == "romantic_interest"@ || t == "verified_business"@
}

/// The fixed vocabulary of inner-circle relationships.
pub open spec fn valid_relationship(t: Seq<char>) -> bool {
    t == "family"@ || t == "friend"@ || t == "dating_buddy"@ || t == "emergency_contact"@
}

/// The fixed vocabulary of inner-circle permissions.
pub open spec fn valid_permission(t: Seq<char>) -> bool {
    t == "view_matches"@ || t == "flag_users"@ || t == "emergency_contact"@ || t
        == "spending_alerts"@
}

/// Whether every permission in the list is drawn from the vocabulary.
pub open spec fn all_valid_permissions(perms: Seq<String>) -> bool {
    forall|j: int| 0 <= j < perms.len() ==> valid_permission(#[trigger] perms[j]@)
}

/// Whether `p` is already a member of the given inner circle.
pub open spec fn is_member(ms: Seq<InnerCircleMember>, p: Seq<u8>) -> bool {
    exists|j: int| 0 <= j < ms.len() && (#[trigger] ms[j]).principal@ == p
}

/// Whether the circle contains `rep` holding the `flag_users`
/// permission.
pub open spec fn has_flagger(ms: Seq<InnerCircleMember>, rep: Seq<u8>) -> bool {
    exists|j: int|
        0 <= j < ms.len() && (#[trigger] ms[j]).principal@ == rep && has_permission(
            ms[j].permissions@,
            "flag_users"@,
        )
}

/// A directed trust edge from one principal to another.
pub struct TrustConnection {
    pub connected_principal: Principal,
    pub connection_type: String,
    pub trust_level: u32,
    pub established_at: u64,
    pub last_interaction: u64,
    pub mutual_verification: bool,
    pub emergency_contact: bool,
}

/// Observational equality of two trust edges.
pub open spec fn connection_eq(a: TrustConnection, b: TrustConnection) -> bool {
    &&& a.connected_principal@ == b.connected_principal@
    &&& a.connection_type@ == b.connection_type@
    &&& a.trust_level == b.trust_level
    &&& a.established_at == b.established_at
    &&& a.last_interaction == b.last_interaction
    &&& a.mutual_verification == b.mutual_verification
    &&& a.emergency_contact == b.emergency_contact
}

impl TrustConnection {
    /// An independent copy of this edge.
    pub fn dup(&self) -> (r: TrustConnection)
        ensures
            connection_eq(r, *self),
    {
        TrustConnection {
            connected_principal: self.connected_principal.dup(),
            connection_type: self.connection_type.clone(),
            trust_level: self.trust_level,
            established_at: self.established_at,
            last_interaction: self.last_interaction,
            mutual_verification: self.mutual_verification,
            emergency_contact: self.emergency_contact,
        }
    }
}

/// A trusted delegate in a principal's inner circle, with the permissions
/// granted to them.
pub struct InnerCircleMember {
    pub principal: Principal,
    pub relationship: String,
    pub permissions: Vec<String>,
    pub added_at: u64,
    pub trust_level: u32,
}

/// Observational equality of two inner-circle members.
pub open spec fn member_eq(a: InnerCircleMember, b: InnerCircleMember) -> bool {
    &&& a.principal@ == b.principal@
    &&& a.relationship@ == b.relationship@
    &&& strs_view(a.permissions@) == strs_view(b.permissions@)
    &&& a.added_at == b.added_at
    &&& a.trust_level == b.trust_level
}

impl InnerCircleMember {
    /// An independent copy of this membership.
    pub fn dup(&self) -> (r: InnerCircleMember)
        ensures
            member_eq(r, *self),
    {
        InnerCircleMember {
            principal: self.principal.dup(),
            relationship: self.relationship.clone(),
            permissions: dup_strings(&self.permissions),
            added_at: self.added_at,
            trust_level: self.trust_level,
        }
    }
}

/// Whether a permission list contains the given permission.
pub open spec fn has_permission(perms: Seq<String>, perm: Seq<char>) -> bool {
    exists|j: int| 0 <= j < perms.len() && perms[j]@ == perm
}

/// One community threat record: who was flagged, when, and by whom.
pub struct ThreatRecord {
    pub id: u64,
    pub flagged: Principal,
    pub created_at: u64,
    pub reporters: Vec<Principal>,
}

/// Observational equality of two threat records.
pub open spec fn threat_eq(a: ThreatRecord, b: ThreatRecord) -> bool {
    &&& a.id == b.id
    &&& a.flagged@ == b.flagged@
    &&& a.created_at == b.created_at
    &&& principals_view(a.reporters@) == principals_view(b.reporters@)
}

/// Whether any inner circle grants `rep` the `flag_users` permission.
pub open spec fn may_flag(c: Cafe, rep: Seq<u8>) -> bool {
    exists|l: int|
        0 <= l < c.circle_logs@.len() && has_flagger(
            (#[trigger] c.circle_logs@[l]).members@,
            rep,
        )
}

/// The message text of an inner-circle flag alert.
pub open spec fn flag_alert_text(ttype: Seq<char>) -> Seq<char> {
    "Your trusted contact flagged a user for: "@ + ttype
}

/// The safety alert that a community threat flag fans out.
pub open spec fn is_flag_alert(
    a: SafetyAlert,
    reporter: Seq<u8>,
    flagged: Seq<u8>,
    ttype: Seq<char>,
    evidence: Seq<char>,
    severity: u32,
    now: u64,
) -> bool {
    &&& a.alert_type@ == "INNER_CIRCLE_FLAG"@
    &&& a.message@ == flag_alert_text(ttype)
    &&& a.severity == (if severity >= 80 {
        Severity::High
    } else {
        Severity::Medium
    })
    &&& a.created_at == now
    &&& a.acknowledged == false
    &&& crate::payments::opt_principal_view(a.reporter_principal) == Option::Some(reporter)
    &&& crate::payments::opt_principal_view(a.flagged_user) == Option::Some(flagged)
    &&& crate::wallet::opt_str_view(a.threat_type) == Option::Some(ttype)
    &&& crate::wallet::opt_str_view(a.evidence) == Option::Some(evidence)
    &&& a.threat_severity == Option::Some(severity)
}

/// One principal's gain from a community threat flag: exactly the flag
/// alert appended at the end of an otherwise unchanged log.
pub open spec fn gains_flag_alert(
    pre_log: Seq<SafetyAlert>,
    post_log: Seq<SafetyAlert>,
    reporter: Seq<u8>,
    flagged: Seq<u8>,
    ttype: Seq<char>,
    evidence: Seq<char>,
    severity: u32,
    now: u64,
) -> bool {
    &&& extends_by_one(pre_log, post_log)
    &&& is_flag_alert(post_log.last(), reporter, flagged, ttype, evidence, severity, now)
}

/// The fan-out a community threat flag performs between `pre` and
/// `post`: every principal whose inner circle holds the reporter with the
/// `flag_users` permission gains exactly the flag alert at the end of an
/// otherwise unchanged log, and every other principal's log is untouched.
pub open spec fn fanout_effects(
    pre: Cafe,
    post: Cafe,
    reporter: Seq<u8>,
    flagged: Seq<u8>,
    ttype: Seq<char>,
    evidence: Seq<char>,
    severity: u32,
    now: u64,
) -> bool {
    &&& forall|o: Seq<u8>|
        #![trigger pre.alerts_of(o)]
        (pre.circle_ix(o) >= 0 && has_flagger(pre.members_of(o), reporter))
            ==> gains_flag_alert(pre.alerts_of(o), post.alerts_of(o), reporter, flagged, ttype,
            evidence, severity, now)
    &&& forall|o: Seq<u8>|
        #![trigger pre.alerts_of(o)]
        !(pre.circle_ix(o) >= 0 && has_flagger(pre.members_of(o), reporter)) ==> post.alerts_of(o)
            == pre.alerts_of(o)
}

/// The fan-out restricted to the first `l` inner-circle logs: owners
/// whose log sits below `l` and holds the reporter with the permission
/// have gained the flag alert; everyone else's log is still untouched.
pub open spec fn fanout_upto(
    pre: Cafe,
    cur: Cafe,
    reporter: Seq<u8>,
    flagged: Seq<u8>,
    ttype: Seq<char>,
    evidence: Seq<char>,
    severity: u32,
    now: u64,
    l: int,
) -> bool {
    &&& forall|o: Seq<u8>|
        #![trigger pre.alerts_of(o)]
        (0 <= pre.circle_ix(o) < l && has_flagger(pre.members_of(o), reporter))
            ==> gains_flag_alert(pre.alerts_of(o), cur.alerts_of(o), reporter, flagged, ttype,
            evidence, severity, now)
    &&& forall|o: Seq<u8>|
        #![trigger pre.alerts_of(o)]
        !(0 <= pre.circle_ix(o) < l && has_flagger(pre.members_of(o), reporter)) ==> cur.alerts_of(
            o,
        ) == pre.alerts_of(o)
}

/// One fan-out step over a log that holds the reporter with the
/// permission: raising the alert on that log's owner extends the bounded
/// fan-out by one log.
pub proof fn lemma_fanout_step_flagged(
    pre: Cafe,
    before: Cafe,
    after: Cafe,
    l: int,
    owner: Seq<u8>,
    reporter: Seq<u8>,
    flagged: Seq<u8>,
    ttype: Seq<char>,
    evidence: Seq<char>,
    severity: u32,
    now: u64,
)
    requires
        pre.wf(),
        0 <= l < pre.circle_logs@.len(),
        owner == pre.circle_logs@[l].owner@,
        has_flagger(pre.circle_logs@[l].members@, reporter),
        fanout_upto(pre, before, reporter, flagged, ttype, evidence, severity, now, l),
        extends_by_one(before.alerts_of(owner), after.alerts_of(owner)),
        is_flag_alert(after.alerts_of(owner).last(), reporter, flagged, ttype, evidence, severity,
            now),
        forall|q: Seq<u8>| q != owner ==> after.alerts_of(q) == before.alerts_of(q),
    ensures
        fanout_upto(pre, after, reporter, flagged, ttype, evidence, severity, now, l + 1),
{
    assert forall|j: int| 0 <= j < l implies !(circle_pred(owner)(pre.circle_logs@[j])) by {
        assert(pre.circle_logs@[j].owner@ != pre.circle_logs@[l].owner@);
    }
    lemma_first_where_is(pre.circle_logs@, circle_pred(owner), l);
    assert(pre.circle_ix(owner) == l);
    assert(pre.members_of(owner) == pre.circle_logs@[l].members@);
    assert(before.alerts_of(owner) == pre.alerts_of(owner));
    assert forall|o: Seq<u8>|
        #![trigger pre.alerts_of(o)]
        (0 <= pre.circle_ix(o) < l + 1 && has_flagger(pre.members_of(o), reporter)) implies
        gains_flag_alert(pre.alerts_of(o), after.alerts_of(o), reporter, flagged, ttype, evidence,
        severity, now) by {
        lemma_first_where_props(pre.circle_logs@, circle_pred(o));
        assert(pre.circle_logs@[pre.circle_ix(o)].owner@ == o);
        if pre.circle_ix(o) == l {
            assert(o == owner);
        } else {
            assert(o != owner);
            assert(after.alerts_of(o) == before.alerts_of(o));
        }
    }
    assert forall|o: Seq<u8>|
        #![trigger pre.alerts_of(o)]
        !(0 <= pre.circle_ix(o) < l + 1 && has_flagger(pre.members_of(o), reporter)) implies
        after.alerts_of(o) == pre.alerts_of(o) by {
        if o == owner {
            assert(has_flagger(pre.members_of(o), reporter));
        } else {
            assert(after.alerts_of(o) == before.alerts_of(o));
        }
    }
}

/// One fan-out step over a log that does not hold the reporter with the
/// permission: nothing changes and the bound still advances.
pub proof fn lemma_fanout_step_clean(
    pre: Cafe,
    cur: Cafe,
    l: int,
    reporter: Seq<u8>,
    flagged: Seq<u8>,
    ttype: Seq<char>,
    evidence: Seq<char>,
    severity: u32,
    now: u64,
)
    requires
        pre.wf(),
        0 <= l < pre.circle_logs@.len(),
        !has_flagger(pre.circle_logs@[l].members@, reporter),
        fanout_upto(pre, cur, reporter, flagged, ttype, evidence, severity, now, l),
    ensures
        fanout_upto(pre, cur, reporter, flagged, ttype, evidence, severity, now, l + 1),
{
    assert forall|o: Seq<u8>|
        #![trigger pre.alerts_of(o)]
        (0 <= pre.circle_ix(o) < l + 1 && has_flagger(pre.members_of(o), reporter)) implies
        gains_flag_alert(pre.alerts_of(o), cur.alerts_of(o), reporter, flagged, ttype, evidence,
        severity, now) by {
        if pre.circle_ix(o) == l {
            lemma_first_where_props(pre.circle_logs@, circle_pred(o));
            assert(pre.members_of(o) == pre.circle_logs@[l].members@);
            assert(false);
        }
    }
    assert forall|o: Seq<u8>|
        #![trigger pre.alerts_of(o)]
        !(0 <= pre.circle_ix(o) < l + 1 && has_flagger(pre.members_of(o), reporter)) implies
        cur.alerts_of(o) == pre.alerts_of(o) by {
        assert(!(0 <= pre.circle_ix(o) < l && has_flagger(pre.members_of(o), reporter)));
    }
}

/// The fan-out bounded by the whole store is the full fan-out.
pub proof fn lemma_fanout_complete(
    pre: Cafe,
    cur: Cafe,
    reporter: Seq<u8>,
    flagged: Seq<u8>,
    ttype: Seq<char>,
    evidence: Seq<char>,
    severity: u32,
    now: u64,
)
    requires
        fanout_upto(
            pre,
            cur,
            reporter,
            flagged,
            ttype,
            evidence,
            severity,
            now,
            pre.circle_logs@.len() as int,
        ),
    ensures
        fanout_effects(pre, cur, reporter, flagged, ttype, evidence, severity, now),
{
    assert forall|o: Seq<u8>| #[trigger] pre.alerts_of(o) == pre.alerts_of(o) && (pre.circle_ix(o)
        >= 0 ==> 0 <= pre.circle_ix(o) < pre.circle_logs@.len()) by {
        lemma_first_where_props(pre.circle_logs@, circle_pred(o));
    }
}

/// Whether a permission list holds the given permission.
pub fn has_perm_str(perms: &Vec<String>, perm: &str) -> (r: bool)
    ensures
        r == has_permission(perms@, perm@),
{
    let n = perms.len();
    let mut j: usize = 0;
    while j < n
        invariant
            n == perms@.len(),
            0 <= j <= n,
            forall|k: int| 0 <= k < j ==> perms@[k]@ != perm@,
        decreases n - j,
    {
        if str_eq(perms[j].as_str(), perm) {
            return true;
        }
        j = j + 1;
    }
    false
}

/// Whether every permission in the list is drawn from the vocabulary.
pub fn all_perms_valid(perms: &Vec<String>) -> (r: bool)
    ensures
        r == all_valid_permissions(perms@),
{
    let n = perms.len();
    let mut j: usize = 0;
    while j < n
        invariant
            n == perms@.len(),
            0 <= j <= n,
            forall|k: int| 0 <= k < j ==> valid_permission(#[trigger] perms@[k]@),
        decreases n - j,
    {
        let ok = str_eq(perms[j].as_str(), "view_matches") || str_eq(
            perms[j].as_str(),
            "flag_users",
        ) || str_eq(perms[j].as_str(), "emergency_contact") || str_eq(
            perms[j].as_str(),
            "spending_alerts",
        );
        if !ok {
            return false;
        }
        j = j + 1;
    }
    true
}

/// Whether the circle already holds `p` as a member.
pub fn circle_contains(members: &Vec<InnerCircleMember>, p: &Principal) -> (r: bool)
    ensures
        r == is_member(members@, p@),
{
    let n = members.len();
    let mut j: usize = 0;
    while j < n
        invariant
            n == members@.len(),
            0 <= j <= n,
            forall|k: int| 0 <= k < j ==> (#[trigger] members@[k]).principal@ != p@,
        decreases n - j,
    {
        if members[j].principal.eq_p(p) {
            return true;
        }
        j = j + 1;
    }
    false
}

/// Whether the circle holds `rep` with the `flag_users` permission.
pub fn has_flagger_in(members: &Vec<InnerCircleMember>, rep: &Principal) -> (r: bool)
    ensures
        r == has_flagger(members@, rep@),
{
    let n = members.len();
    let mut j: usize = 0;
    while j < n
        invariant
            n == members@.len(),
            0 <= j <= n,
            forall|k: int|
                0 <= k < j ==> !((#[trigger] members@[k]).principal@ == rep@ && has_permission(
                    members@[k].permissions@,
                    "flag_users"@,
                )),
        decreases n - j,
    {
        if members[j].principal.eq_p(rep) && has_perm_str(&members[j].permissions, "flag_users") {
            return true;
        }
        j = j + 1;
    }
    false
}


/// Carries the fan-out promise across a state that differs only in
/// stores the fan-out never reads or writes.
pub proof fn lemma_flag_fanout_bridge(
    pre: Cafe,
    mid: Cafe,
    post: Cafe,
    reporter: Seq<u8>,
    flagged: Seq<u8>,
    ttype: Seq<char>,
    evidence: Seq<char>,
    severity: u32,
    now: u64,
)
    requires
        mid.circle_logs == pre.circle_logs,
        mid.alert_logs == pre.alert_logs,
        fanout_effects(mid, post, reporter, flagged, ttype, evidence, severity, now),
    ensures
        fanout_effects(pre, post, reporter, flagged, ttype, evidence, severity, now),
{
    assert forall|o: Seq<u8>| #[trigger] pre.alerts_of(o) == mid.alerts_of(o) && pre.circle_ix(o)
        == mid.circle_ix(o) && pre.members_of(o) == mid.members_of(o) by {}
}

impl Cafe {
    /// Appends a directed trust edge from the caller to the target and
    /// bumps the platform counter.  Edges to the same target accumulate;
    /// repeated calls append rather than replace.
    ///
    /// Fails with `AuthError` for the anonymous sentinel and with
    /// `ValidationError` for a trust level over 100 or a connection type
    /// outside the fixed vocabulary.
    pub fn add_trust_connection(
        &mut self,
        caller: &Principal,
        target: &Principal,
        connection_type: String,
        trust_level: u32,
        now: u64,
    ) -> (r: Result<(), CafeError>)
        requires
            old(self).wf(),
            now >= old(self).clock_watermark,
        ensures
            final(self).wf(),
            is_anonymous(caller@) <==> r == Result::<(), CafeError>::Err(CafeError::AuthError),
            !is_anonymous(caller@) && (trust_level > 100 || !valid_connection_type(
                connection_type@,
            )) <==> r == Result::<(), CafeError>::Err(CafeError::ValidationError),
            r is Ok <==> !is_anonymous(caller@) && trust_level <= 100 && valid_connection_type(
                connection_type@,
            ),
            r is Err ==> *final(self) == *old(self),
            r is Ok ==> {
                let conns = final(self).connections_of(caller@);
                &&& conns.len() == old(self).connections_of(caller@).len() + 1
                &&& forall|k: int|
                    0 <= k < old(self).connections_of(caller@).len() ==> conns[k] == old(
                        self,
                    ).connections_of(caller@)[k]
                &&& conns.last().connected_principal@ == target@
                &&& conns.last().connection_type@ == connection_type@
                &&& conns.last().trust_level == trust_level
                &&& conns.last().established_at == now
                &&& conns.last().last_interaction == now
                &&& conns.last().mutual_verification == false
                &&& conns.last().emergency_contact == false
                &&& forall|q: Seq<u8>|
                    q != caller@ ==> final(self).connections_of(q) == old(self).connections_of(q)
                &&& final(self).stats.total_trust_connections == sat_inc(
                    old(self).stats.total_trust_connections,
                )
                &&& final(self).stats.total_wallets == old(self).stats.total_wallets
                &&& final(self).stats.total_transactions == old(self).stats.total_transactions
                &&& final(self).stats.scams_prevented == old(self).stats.scams_prevented
                &&& final(self).stats.last_updated == now
                &&& final(self).wallets == old(self).wallets
                &&& final(self).transactions == old(self).transactions
                &&& final(self).deposits == old(self).deposits
                &&& final(self).spend_logs == old(self).spend_logs
                &&& final(self).circle_logs == old(self).circle_logs
                &&& final(self).alert_logs == old(self).alert_logs
                &&& final(self).radar_logs == old(self).radar_logs
                &&& final(self).linked_logs == old(self).linked_logs
                &&& final(self).threats == old(self).threats
                &&& final(self).clock_watermark == now
            },
    {
        if caller.is_anon() {
            return Result::Err(CafeError::AuthError);
        }
        let type_ok = str_eq(connection_type.as_str(), "friend") || str_eq(
            connection_type.as_str(),
            "family",
        ) || str_eq(connection_type.as_str(), "romantic_interest") || str_eq(
            connection_type.as_str(),
            "verified_business",
        );
        if trust_level > 100 || !type_ok {
            return Result::Err(CafeError::ValidationError);
        }
        let conn = TrustConnection {
            connected_principal: target.dup(),
            connection_type,
            trust_level,
            established_at: now,
            last_interaction: now,
            mutual_verification: false,
            emergency_contact: false,
        };
        let ghost pre = *self;
        match self.find_trust_log(caller) {
            Option::Some(ix) => {
                let mut tmp = TrustLog { owner: Principal::anonymous(), connections: Vec::new() };
                self.trust_logs.set_and_swap(ix, &mut tmp);
                tmp.connections.push(conn);
                let ghost logg = tmp;
                self.trust_logs.set_and_swap(ix, &mut tmp);
                proof {
                    assert(self.trust_logs@ =~= pre.trust_logs@.update(ix as int, logg));
                    assert forall|q: Seq<u8>| self.trust_ix(q) == pre.trust_ix(q) by {
                        lemma_first_where_update(pre.trust_logs@, trust_pred(q), ix as int, logg);
                    }
                    assert forall|q: Seq<u8>| q != caller@ implies self.connections_of(q)
                        == pre.connections_of(q) by {
                        lemma_first_where_props(pre.trust_logs@, trust_pred(q));
                        if pre.trust_ix(q) >= 0 {
                            assert(pre.trust_logs@[pre.trust_ix(q)].owner@ == q);
                            assert(pre.trust_ix(q) != ix as int);
                        }
                    }
                }
            },
            Option::None => {
                let mut connections: Vec<TrustConnection> = Vec::new();
                connections.push(conn);
                let log = TrustLog { owner: caller.dup(), connections };
                let ghost logg = log;
                self.trust_logs.push(log);
                proof {
                    lemma_first_where_push(pre.trust_logs@, trust_pred(caller@), logg);
                    assert forall|q: Seq<u8>| q != caller@ implies self.connections_of(q)
                        == pre.connections_of(q) by {
                        lemma_first_where_push(pre.trust_logs@, trust_pred(q), logg);
                        lemma_first_where_props(pre.trust_logs@, trust_pred(q));
                    }
                    assert(self.connections_of(caller@) =~= pre.connections_of(caller@).push(
                        logg.connections@[0],
                    ));
                }
            },
        }
        self.stats = WalletStats {
            total_wallets: self.stats.total_wallets,
            total_transactions: self.stats.total_transactions,
            scams_prevented: self.stats.scams_prevented,
            total_trust_connections: crate::wallet::bump(self.stats.total_trust_connections),
            last_updated: now,
        };
        self.clock_watermark = now;
        proof {
            assert(self.wallets_wf());
            assert(self.txs_wf());
            assert(self.deposits_wf());
        }
        Result::Ok(())
    }

    /// Returns the caller's outgoing trust edges, in the order they were
    /// added.  Fails with `AuthError` for the anonymous sentinel.
    pub fn get_trust_connections(&self, caller: &Principal) -> (r: Result<
        Vec<TrustConnection>,
        CafeError,
    >)
        ensures
            is_anonymous(caller@) <==> r == Result::<Vec<TrustConnection>, CafeError>::Err(
                CafeError::AuthError,
            ),
            r is Ok <==> !is_anonymous(caller@),
            r is Ok ==> r->Ok_0@.len() == self.connections_of(caller@).len() && forall|k: int|
                0 <= k < self.connections_of(caller@).len() ==> connection_eq(
                    #[trigger] r->Ok_0@[k],
                    self.connections_of(caller@)[k],
                ),
    {
        if caller.is_anon() {
            return Result::Err(CafeError::AuthError);
        }
        match self.find_trust_log(caller) {
            Option::None => Result::Ok(Vec::new()),
            Option::Some(ix) => {
                let m = self.trust_logs[ix].connections.len();
                let mut out: Vec<TrustConnection> = Vec::new();
                let mut k: usize = 0;
                while k < m
                    invariant
                        ix < self.trust_logs@.len(),
                        m == self.trust_logs@[ix as int].connections@.len(),
                        self.connections_of(caller@) == self.trust_logs@[ix as int].connections@,
                        0 <= k <= m,
                        out@.len() == k,
                        forall|j: int|
                            0 <= j < k ==> connection_eq(
                                #[trigger] out@[j],
                                self.trust_logs@[ix as int].connections@[j],
                            ),
                    decreases m - k,
                {
                    out.push(self.trust_logs[ix].connections[k].dup());
                    k = k + 1;
                }
                Result::Ok(out)
            },
        }
    }

    /// Adds a trusted delegate to the caller's inner circle with the
    /// given scoped permissions; the default trust level for inner-circle
    /// members is fixed at 85.
    ///
    /// Fails with `AuthError` for the anonymous sentinel, with
    /// `ValidationError` for a relationship or permission outside the
    /// fixed vocabularies, and with `ConflictError` when the member is
    /// already present.
    pub fn add_inner_circle_member(
        &mut self,
        caller: &Principal,
        member: &Principal,
        relationship: String,
        permissions: Vec<String>,
        now: u64,
    ) -> (r: Result<(), CafeError>)
        requires
            old(self).wf(),
            now >= old(self).clock_watermark,
        ensures
            final(self).wf(),
            is_anonymous(caller@) <==> r == Result::<(), CafeError>::Err(CafeError::AuthError),
            !is_anonymous(caller@) && (!valid_relationship(relationship@)
                || !all_valid_permissions(permissions@)) <==> r == Result::<(), CafeError>::Err(
                CafeError::ValidationError,
            ),
            !is_anonymous(caller@) && valid_relationship(relationship@) && all_valid_permissions(
                permissions@,
            ) && is_member(old(self).members_of(caller@), member@) <==> r == Result::<
                (),
                CafeError,
            >::Err(CafeError::ConflictError),
            r is Ok <==> !is_anonymous(caller@) && valid_relationship(relationship@)
                && all_valid_permissions(permissions@) && !is_member(
                old(self).members_of(caller@),
                member@,
            ),
            r is Err ==> *final(self) == *old(self),
            r is Ok ==> {
                let ms = final(self).members_of(caller@);
                &&& ms.len() == old(self).members_of(caller@).len() + 1
                &&& forall|k: int|
                    0 <= k < old(self).members_of(caller@).len() ==> ms[k] == old(
                        self,
                    ).members_of(caller@)[k]
                &&& ms.last().principal@ == member@
                &&& ms.last().relationship@ == relationship@
                &&& strs_view(ms.last().permissions@) == strs_view(permissions@)
                &&& ms.last().added_at == now
                &&& ms.last().trust_level == 85
                &&& forall|q: Seq<u8>|
                    q != caller@ ==> final(self).members_of(q) == old(self).members_of(q)
                &&& final(self).wallets == old(self).wallets
                &&& final(self).transactions == old(self).transactions
                &&& final(self).deposits == old(self).deposits
                &&& final(self).spend_logs == old(self).spend_logs
                &&& final(self).trust_logs == old(self).trust_logs
                &&& final(self).alert_logs == old(self).alert_logs
                &&& final(self).radar_logs == old(self).radar_logs
                &&& final(self).linked_logs == old(self).linked_logs
                &&& final(self).threats == old(self).threats
                &&& final(self).stats == old(self).stats
                &&& final(self).clock_watermark == now
            },
    {
        if caller.is_anon() {
            return Result::Err(CafeError::AuthError);
        }
        let rel_ok = str_eq(relationship.as_str(), "family") || str_eq(
            relationship.as_str(),
            "friend",
        ) || str_eq(relationship.as_str(), "dating_buddy") || str_eq(
            relationship.as_str(),
            "emergency_contact",
        );
        if !rel_ok || !all_perms_valid(&permissions) {
            return Result::Err(CafeError::ValidationError);
        }
        let new_member = InnerCircleMember {
            principal: member.dup(),
            relationship,
            permissions,
            added_at: now,
            trust_level: 85,
        };
        let ghost pre = *self;
        match self.find_circle_log(caller) {
            Option::Some(ix) => {
                if circle_contains(&self.circle_logs[ix].members, member) {
                    return Result::Err(CafeError::ConflictError);
                }
                let mut tmp = CircleLog { owner: Principal::anonymous(), members: Vec::new() };
                self.circle_logs.set_and_swap(ix, &mut tmp);
                tmp.members.push(new_member);
                let ghost logg = tmp;
                self.circle_logs.set_and_swap(ix, &mut tmp);
                self.clock_watermark = now;
                proof {
                    assert(self.circle_logs@ =~= pre.circle_logs@.update(ix as int, logg));
                    assert forall|q: Seq<u8>| self.circle_ix(q) == pre.circle_ix(q) by {
                        lemma_first_where_update(pre.circle_logs@, circle_pred(q), ix as int, logg);
                    }
                    assert forall|q: Seq<u8>| q != caller@ implies self.members_of(q)
                        == pre.members_of(q) by {
                        lemma_first_where_props(pre.circle_logs@, circle_pred(q));
                        if pre.circle_ix(q) >= 0 {
                            assert(pre.circle_logs@[pre.circle_ix(q)].owner@ == q);
                            assert(pre.circle_ix(q) != ix as int);
                        }
                    }
                    assert(self.wallets_wf());
                    assert(self.txs_wf());
                    assert(self.deposits_wf());
                    assert(self.circles_wf());
                }
                Result::Ok(())
            },
            Option::None => {
                proof {
                    assert(pre.members_of(caller@) =~= Seq::<InnerCircleMember>::empty());
                }
                let mut members: Vec<InnerCircleMember> = Vec::new();
                members.push(new_member);
                let log = CircleLog { owner: caller.dup(), members };
                let ghost logg = log;
                self.circle_logs.push(log);
                self.clock_watermark = now;
                proof {
                    lemma_first_where_push(pre.circle_logs@, circle_pred(caller@), logg);
                    assert forall|q: Seq<u8>| q != caller@ implies self.members_of(q)
                        == pre.members_of(q) by {
                        lemma_first_where_push(pre.circle_logs@, circle_pred(q), logg);
                        lemma_first_where_props(pre.circle_logs@, circle_pred(q));
                    }
                    lemma_first_where_props(pre.circle_logs@, circle_pred(caller@));
                    assert forall|l: int, m: int|
                        0 <= l < m < self.circle_logs@.len() implies (
                    #[trigger] self.circle_logs@[l]).owner@ != (
                    #[trigger] self.circle_logs@[m]).owner@ by {
                        if m == pre.circle_logs@.len() {
                            assert(!(circle_pred(caller@)(pre.circle_logs@[l])));
                        }
                    }
                    assert(self.members_of(caller@) =~= pre.members_of(caller@).push(
                        logg.members@[0],
                    ));
                    assert(self.wallets_wf());
                    assert(self.txs_wf());
                    assert(self.deposits_wf());
                    assert(self.circles_wf());
                }
                Result::Ok(())
            },
        }
    }

    /// Returns the caller's inner circle, in the order members were
    /// added.  Fails with `AuthError` for the anonymous sentinel.
    pub fn get_inner_circle(&self, caller: &Principal) -> (r: Result<
        Vec<InnerCircleMember>,
        CafeError,
    >)
        ensures
            is_anonymous(caller@) <==> r == Result::<Vec<InnerCircleMember>, CafeError>::Err(
                CafeError::AuthError,
            ),
            r is Ok <==> !is_anonymous(caller@),
            r is Ok ==> r->Ok_0@.len() == self.members_of(caller@).len() && forall|k: int|
                0 <= k < self.members_of(caller@).len() ==> member_eq(
                    #[trigger] r->Ok_0@[k],
                    self.members_of(caller@)[k],
                ),
    {
        if caller.is_anon() {
            return Result::Err(CafeError::AuthError);
        }
        match self.find_circle_log(caller) {
            Option::None => Result::Ok(Vec::new()),
            Option::Some(ix) => {
                let m = self.circle_logs[ix].members.len();
                let mut out: Vec<InnerCircleMember> = Vec::new();
                let mut k: usize = 0;
                while k < m
                    invariant
                        ix < self.circle_logs@.len(),
                        m == self.circle_logs@[ix as int].members@.len(),
                        self.members_of(caller@) == self.circle_logs@[ix as int].members@,
                        0 <= k <= m,
                        out@.len() == k,
                        forall|j: int|
                            0 <= j < k ==> member_eq(
                                #[trigger] out@[j],
                                self.circle_logs@[ix as int].members@[j],
                            ),
                    decreases m - k,
                {
                    out.push(self.circle_logs[ix].members[k].dup());
                    k = k + 1;
                }
                Result::Ok(out)
            },
        }
    }

    /// Whether any inner circle grants the reporter the `flag_users`
    /// permission.
    fn reporter_may_flag(&self, rep: &Principal) -> (r: bool)
        ensures
            r == may_flag(*self, rep@),
    {
        let n = self.circle_logs.len();
        let mut l: usize = 0;
        while l < n
            invariant
                n == self.circle_logs@.len(),
                0 <= l <= n,
                forall|k: int|
                    0 <= k < l ==> !has_flagger((#[trigger] self.circle_logs@[k]).members@, rep@),
            decreases n - l,
        {
            if has_flagger_in(&self.circle_logs[l].members, rep) {
                return true;
            }
            l = l + 1;
        }
        false
    }

    /// Flags a community threat.  The reporter must hold the `flag_users`
    /// permission in at least one inner circle; the flag appends a threat
    /// record and fans out a safety alert to every principal whose inner
    /// circle contains the reporter with that permission.  Returns the
    /// threat record id.
    ///
    /// Fails with `AuthError`, changing nothing, when the caller is the
    /// anonymous sentinel or holds no `flag_users` permission anywhere.
    pub fn flag_user_threat(
        &mut self,
        reporter: &Principal,
        flagged: &Principal,
        threat_type: String,
        evidence: String,
        severity: u32,
        now: u64,
    ) -> (r: Result<u64, CafeError>)
        requires
            old(self).wf(),
            now >= old(self).clock_watermark,
        ensures
            final(self).wf(),
            is_anonymous(reporter@) || !may_flag(*old(self), reporter@) <==> r == Result::<
                u64,
                CafeError,
            >::Err(CafeError::AuthError),
            r is Ok <==> !is_anonymous(reporter@) && may_flag(*old(self), reporter@),
            r is Err ==> *final(self) == *old(self),
            r is Ok ==> {
                &&& r->Ok_0 == old(self).threats@.len()
                &&& final(self).threats@.len() == old(self).threats@.len() + 1
                &&& forall|k: int|
                    0 <= k < old(self).threats@.len() ==> final(self).threats@[k] == old(
                        self,
                    ).threats@[k]
                &&& final(self).threats@.last().id == r->Ok_0
                &&& final(self).threats@.last().flagged@ == flagged@
                &&& final(self).threats@.last().created_at == now
                &&& principals_view(final(self).threats@.last().reporters@) == seq![reporter@]
                &&& fanout_effects(
                    *old(self),
                    *final(self),
                    reporter@,
                    flagged@,
                    threat_type@,
                    evidence@,
                    severity,
                    now,
                )
                &&& final(self).wallets == old(self).wallets
                &&& final(self).transactions == old(self).transactions
                &&& final(self).deposits == old(self).deposits
                &&& final(self).spend_logs == old(self).spend_logs
                &&& final(self).trust_logs == old(self).trust_logs
                &&& final(self).circle_logs == old(self).circle_logs
                &&& final(self).radar_logs == old(self).radar_logs
                &&& final(self).linked_logs == old(self).linked_logs
                &&& final(self).stats == old(self).stats
                &&& final(self).clock_watermark == now
            },
    {
        if reporter.is_anon() {
            return Result::Err(CafeError::AuthError);
        }
        if !self.reporter_may_flag(reporter) {
            return Result::Err(CafeError::AuthError);
        }
        let threat_id = self.threats.len() as u64;
        let mut reporters: Vec<Principal> = Vec::new();
        reporters.push(reporter.dup());
        let record = ThreatRecord { id: threat_id, flagged: flagged.dup(), created_at: now, reporters };
        let ghost recg = record;
        self.threats.push(record);
        self.clock_watermark = now;
        proof {
            assert(principals_view(recg.reporters@) =~= seq![reporter@]);
            assert(self.wallets_wf());
            assert(self.txs_wf());
            assert(self.deposits_wf());
            assert(self.threats_wf());
        }
        let ghost mid = *self;
        self.notify_inner_circle_of_threat(
            reporter,
            flagged,
            threat_type.as_str(),
            evidence.as_str(),
            severity,
            now,
        );
        proof {
            lemma_flag_fanout_bridge(
                *old(self),
                mid,
                *self,
                reporter@,
                flagged@,
                threat_type@,
                evidence@,
                severity,
                now,
            );
            assert(self.threats@.len() == old(self).threats@.len() + 1);
            assert(self.threats@.last().id == threat_id);
            assert(threat_id == old(self).threats@.len());
            assert(principals_view(self.threats@.last().reporters@) == seq![reporter@]);
        }
        Result::Ok(threat_id)
    }

    /// Fans out a safety alert to every principal whose inner circle
    /// contains the reporter with the `flag_users` permission.
    fn notify_inner_circle_of_threat(
        &mut self,
        reporter: &Principal,
        flagged: &Principal,
        threat_type: &str,
        evidence: &str,
        severity: u32,
        now: u64,
    )
        requires
            old(self).wf(),
            now >= old(self).clock_watermark,
        ensures
            final(self).wf(),
            fanout_effects(
                *old(self),
                *final(self),
                reporter@,
                flagged@,
                threat_type@,
                evidence@,
                severity,
                now,
            ),
            final(self).wallets == old(self).wallets,
            final(self).transactions == old(self).transactions,
            final(self).deposits == old(self).deposits,
            final(self).spend_logs == old(self).spend_logs,
            final(self).trust_logs == old(self).trust_logs,
            final(self).circle_logs == old(self).circle_logs,
            final(self).radar_logs == old(self).radar_logs,
            final(self).linked_logs == old(self).linked_logs,
            final(self).threats == old(self).threats,
            final(self).stats == old(self).stats,
            final(self).clock_watermark == now,
    {
        let ghost pre = *self;
        let n = self.circle_logs.len();
        let mut l: usize = 0;
        while l < n
            invariant
                pre.wf(),
                now >= pre.clock_watermark,
                n == pre.circle_logs@.len(),
                0 <= l <= n,
                self.circle_logs == pre.circle_logs,
                self.wallets == pre.wallets,
                self.transactions == pre.transactions,
                self.deposits == pre.deposits,
                self.spend_logs == pre.spend_logs,
                self.trust_logs == pre.trust_logs,
                self.radar_logs == pre.radar_logs,
                self.linked_logs == pre.linked_logs,
                self.threats == pre.threats,
                self.stats == pre.stats,
                self.next_radar_id == pre.next_radar_id,
                self.wf(),
                now >= self.clock_watermark,
                fanout_upto(
                    pre,
                    *self,
                    reporter@,
                    flagged@,
                    threat_type@,
                    evidence@,
                    severity,
                    now,
                    l as int,
                ),
            decreases n - l,
        {
            let flags_here = has_flagger_in(&self.circle_logs[l].members, reporter);
            if flags_here {
                let owner = self.circle_logs[l].owner.dup();
                let mut text = "Your trusted contact flagged a user for: ".to_owned();
                text.append(threat_type);
                let alert = SafetyAlert {
                    id: 0,
                    alert_type: "INNER_CIRCLE_FLAG".to_owned(),
                    message: text,
                    severity: if severity >= 80 {
                        Severity::High
                    } else {
                        Severity::Medium
                    },
                    created_at: now,
                    acknowledged: false,
                    reporter_principal: Option::Some(reporter.dup()),
                    chat_context: Option::None,
                    flagged_user: Option::Some(flagged.dup()),
                    threat_type: Option::Some(threat_type.to_owned()),
                    evidence: Option::Some(evidence.to_owned()),
                    threat_severity: Option::Some(severity),
                    scam_confidence: Option::None,
                    scam_indicators: Vec::new(),
                };
                let ghost alertg = alert;
                let ghost before = *self;
                self.raise_alert(&owner, alert, now);
                proof {
                    assert(is_flag_alert(
                        self.alerts_of(owner@).last(),
                        reporter@,
                        flagged@,
                        threat_type@,
                        evidence@,
                        severity,
                        now,
                    )) by {
                        assert(alert_eq_mod_id(self.alerts_of(owner@).last(), alertg));
                    }
                    lemma_fanout_step_flagged(
                        pre,
                        before,
                        *self,
                        l as int,
                        owner@,
                        reporter@,
                        flagged@,
                        threat_type@,
                        evidence@,
                        severity,
                        now,
                    );
                }
            } else {
                proof {
                    lemma_fanout_step_clean(
                        pre,
                        *self,
                        l as int,
                        reporter@,
                        flagged@,
                        threat_type@,
                        evidence@,
                        severity,
                        now,
                    );
                }
            }
            l = l + 1;
        }
        self.clock_watermark = now;
        proof {
            lemma_fanout_complete(
                pre,
                *self,
                reporter@,
                flagged@,
                threat_type@,
                evidence@,
                severity,
                now,
            );
        }
    }
}

} // verus!
