//! Identity store: per-principal profiles with a trust score, created
//! lazily on first authenticated call, and the identity verification
//! report built from them.

use vstd::prelude::*;
use vstd::string::StrSliceExecFns;
use crate::errors::CafeError;
use crate::lookup::{
    first_where, lemma_first_where_is, lemma_first_where_none, lemma_first_where_props,
    lemma_first_where_push, lemma_first_where_update,
};
use crate::principal::{is_anonymous, Principal};
use crate::risk::RiskLevel;
use crate::text::{dec_str, strs_view, u64_to_string};
use crate::wallet::{dup_opt_string, opt_str_view};

verus! {

/// A per-principal profile, created lazily on first authenticated call.
pub struct UserProfile {
    pub principal: Principal,
    pub nickname: Option<String>,
    pub trust_score: u32,
    pub verification_level: String,
    pub created_at: u64,
    pub last_seen: u64,
}

/// Observational equality of two profiles.
pub open spec fn profile_eq(a: UserProfile, b: UserProfile) -> bool {
    &&& a.principal@ == b.principal@
    &&& opt_str_view(a.nickname) == opt_str_view(b.nickname)
    &&& a.trust_score == b.trust_score
    &&& a.verification_level@ == b.verification_level@
    &&& a.created_at == b.created_at
    &&& a.last_seen == b.last_seen
}

impl UserProfile {
    /// An independent copy of this profile.
    pub fn dup(&self) -> (r: UserProfile)
        ensures
            profile_eq(r, *self),
    {
        UserProfile {
            principal: self.principal.dup(),
            nickname: dup_opt_string(&self.nickname),
            trust_score: self.trust_score,
            verification_level: self.verification_level.clone(),
            created_at: self.created_at,
            last_seen: self.last_seen,
        }
    }

    /// The profile a first authenticated call creates.
    pub fn fresh(principal: Principal, now: u64) -> (r: UserProfile)
        ensures
            r.principal@ == principal@,
            opt_str_view(r.nickname) is None,
            r.trust_score == 50,
            r.verification_level@ == "Basic"@,
            r.created_at == now,
            r.last_seen == now,
    {
        UserProfile {
            principal,
            nickname: Option::None,
            trust_score: 50,
            verification_level: "Basic".to_owned(),
            created_at: now,
            last_seen: now,
        }
    }
}

/// The verification report of one identity.
pub struct IdentityReport {
    pub principal: Principal,
    pub identity_age: String,
    pub trust_score: u32,
    pub risk_level: RiskLevel,
    pub recommendations: Vec<String>,
    pub verified_by: String,
}

/// Platform statistics over the identity store.
#[derive(Clone, Copy, Debug, PartialEq, Eq, Structural)]
pub struct PlatformStats {
    pub total_users: u64,
    pub high_trust_users: u64,
}

/// The profile owned by `p`.
pub open spec fn profile_pred(p: Seq<u8>) -> spec_fn(UserProfile) -> bool {
    |u: UserProfile| u.principal@ == p
}

/// Age of an identity in whole seconds.
pub open spec fn age_seconds(created_at: u64, now: u64) -> int {
    (now - created_at) / 1_000_000_000
}

/// The rendered age of an identity: minutes under an hour, hours under a
/// day, whole days beyond.
pub open spec fn age_text(secs: int) -> Seq<char> {
    if secs < 3600 {
        dec_str(secs / 60) + " minutes"@
    } else if secs < 86400 {
        dec_str(secs / 3600) + " hours"@
    } else {
        dec_str(secs / 86400) + " days"@
    }
}

/// Risk level of an identity from its trust score and age.
pub open spec fn identity_risk(trust: u32, secs: int) -> RiskLevel {
    if trust >= 80 && secs > 86400 {
        RiskLevel::Low
    } else if trust >= 60 || secs > 3600 {
        RiskLevel::Medium
    } else {
        RiskLevel::High
    }
}

/// The guidance lines of a verification report.
pub open spec fn spec_identity_recommendations(trust: u32, secs: int) -> Seq<Seq<char>> {
    (seq![
        "Identity verified through the Internet Computer Protocol"@,
        "Trust score: "@ + dec_str(trust as int) + "/100"@,
        "Identity age: "@ + age_text(secs),
        "Analysis enhanced with blockchain verification"@,
    ]) + (if trust < 70 {
        seq!["Low trust score - continue building reputation"@]
    } else {
        Seq::empty()
    }) + (if secs < 3600 {
        seq!["New identity - proceed with caution"@]
    } else {
        Seq::empty()
    })
}

/// Number of profiles with a high trust score.
pub open spec fn high_trust_count(s: Seq<UserProfile>) -> int
    decreases s.len(),
{
    if s.len() == 0 {
        0
    } else {
        high_trust_count(s.drop_last()) + if s.last().trust_score >= 80 {
            1int
        } else {
            0int
        }
    }
}

/// Bounds of the high-trust count.
pub proof fn lemma_high_trust_count_bounds(s: Seq<UserProfile>)
    ensures
        0 <= high_trust_count(s) <= s.len(),
    decreases s.len(),
{
    if s.len() > 0 {
        lemma_high_trust_count_bounds(s.drop_last());
    }
}

/// The identity store: one profile per principal.
pub struct IdentityStore {
    pub profiles: Vec<UserProfile>,
    pub clock_watermark: u64,
}

impl IdentityStore {
    /// Index of the profile of `p`, or -1.
    pub open spec fn profile_ix(self, p: Seq<u8>) -> int {
        first_where(self.profiles@, profile_pred(p))
    }

    /// Whether `p` has a profile.
    pub open spec fn has_profile(self, p: Seq<u8>) -> bool {
        self.profile_ix(p) >= 0
    }

    /// The profile of `p`; meaningful only when `has_profile(p)`.
    pub open spec fn profile_of(self, p: Seq<u8>) -> UserProfile {
        self.profiles@[self.profile_ix(p)]
    }

    /// Profiles belong to distinct, non-anonymous principals, scores stay
    /// in range, and recorded times never pass the clock watermark.
    pub open spec fn wf(self) -> bool {
        &&& forall|i: int, j: int|
            0 <= i < j < self.profiles@.len() ==> (#[trigger] self.profiles@[i]).principal@ != (
            #[trigger] self.profiles@[j]).principal@
        &&& forall|i: int|
            0 <= i < self.profiles@.len() ==> !is_anonymous(
                (#[trigger] self.profiles@[i]).principal@,
            ) && self.profiles@[i].trust_score <= 100 && self.profiles@[i].created_at
                <= self.clock_watermark && self.profiles@[i].last_seen <= self.clock_watermark
    }

    /// A fresh, empty identity store.
    pub fn new(now: u64) -> (r: IdentityStore)
        ensures
            r.wf(),
            r.profiles@.len() == 0,
            r.clock_watermark == now,
    {
        IdentityStore { profiles: Vec::new(), clock_watermark: now }
    }

    /// Finds the profile of `p`.
    fn find_profile(&self, p: &Principal) -> (r: Option<usize>)
        ensures
            match r {
                Option::Some(i) => self.profile_ix(p@) == i as int && i < self.profiles@.len()
                    && self.profiles@[i as int].principal@ == p@,
                Option::None => self.profile_ix(p@) == -1,
            },
    {
        let ghost pred = profile_pred(p@);
        let n = self.profiles.len();
        let mut i: usize = 0;
        while i < n
            invariant
                n == self.profiles@.len(),
                0 <= i <= n,
                pred == profile_pred(p@),
                forall|j: int| 0 <= j < i ==> !pred(self.profiles@[j]),
            decreases n - i,
        {
            if self.profiles[i].principal.eq_p(p) {
                proof {
                    lemma_first_where_is(self.profiles@, pred, i as int);
                }
                return Option::Some(i);
            }
            i = i + 1;
        }
        proof {
            lemma_first_where_none(self.profiles@, pred);
        }
        Option::None
    }

    /// Returns the caller's profile, creating and storing the default
    /// profile on a first authenticated access.  Fails with `AuthError`
    /// for the anonymous sentinel.
    pub fn who_am_i(&mut self, caller: &Principal, now: u64) -> (r: Result<
        UserProfile,
        CafeError,
    >)
        requires
            old(self).wf(),
            now >= old(self).clock_watermark,
        ensures
            final(self).wf(),
            is_anonymous(caller@) <==> r == Result::<UserProfile, CafeError>::Err(
                CafeError::AuthError,
            ),
            r is Ok <==> !is_anonymous(caller@),
            r is Err ==> *final(self) == *old(self),
            r is Ok ==> {
                &&& final(self).has_profile(caller@)
                &&& profile_eq(r->Ok_0, final(self).profile_of(caller@))
                &&& (old(self).has_profile(caller@) ==> *final(self) == *old(self) && profile_eq(
                    r->Ok_0,
                    old(self).profile_of(caller@),
                ))
                &&& (!old(self).has_profile(caller@) ==> {
                    let u = final(self).profile_of(caller@);
                    &&& u.principal@ == caller@
                    &&& opt_str_view(u.nickname) is None
                    &&& u.trust_score == 50
                    &&& u.verification_level@ == "Basic"@
                    &&& u.created_at == now
                    &&& u.last_seen == now
                    &&& final(self).profiles@.len() == old(self).profiles@.len() + 1
                    &&& final(self).clock_watermark == now
                })
                &&& forall|q: Seq<u8>|
                    q != caller@ ==> final(self).profile_ix(q) == old(self).profile_ix(q) && (old(
                        self,
                    ).has_profile(q) ==> final(self).profile_of(q) == old(self).profile_of(q))
            },
    {
        if caller.is_anon() {
            return Result::Err(CafeError::AuthError);
        }
        let i = self.get_or_create(caller, now);
        Result::Ok(self.profiles[i].dup())
    }

    /// Ensures the caller has a stored profile, creating the default one
    /// on first access, and returns its index.
    fn get_or_create(&mut self, caller: &Principal, now: u64) -> (i: usize)
        requires
            old(self).wf(),
            !is_anonymous(caller@),
            now >= old(self).clock_watermark,
        ensures
            final(self).wf(),
            final(self).has_profile(caller@),
            i as int == final(self).profile_ix(caller@),
            i < final(self).profiles@.len(),
            old(self).has_profile(caller@) ==> *final(self) == *old(self) && profile_eq(
                final(self).profile_of(caller@),
                old(self).profile_of(caller@),
            ),
            !old(self).has_profile(caller@) ==> {
                let u = final(self).profile_of(caller@);
                &&& u.principal@ == caller@
                &&& opt_str_view(u.nickname) is None
                &&& u.trust_score == 50
                &&& u.verification_level@ == "Basic"@
                &&& u.created_at == now
                &&& u.last_seen == now
                &&& final(self).profiles@.len() == old(self).profiles@.len() + 1
                &&& final(self).clock_watermark == now
            },
            forall|q: Seq<u8>|
                q != caller@ ==> final(self).profile_ix(q) == old(self).profile_ix(q),
            forall|q: Seq<u8>|
                q != caller@ && old(self).has_profile(q) ==> final(self).profile_of(q) == old(
                    self,
                ).profile_of(q),
            forall|j: int|
                0 <= j < old(self).profiles@.len() ==> final(self).profiles@[j] == old(
                    self,
                ).profiles@[j],
            final(self).profiles@.len() >= old(self).profiles@.len(),
            now >= final(self).clock_watermark,
    {
        match self.find_profile(caller) {
            Option::Some(i) => i,
            Option::None => {
                let ghost pre = *self;
                let u = UserProfile::fresh(caller.dup(), now);
                let ghost ug = u;
                let i = self.profiles.len();
                self.profiles.push(u);
                self.clock_watermark = now;
                proof {
                    lemma_first_where_props(pre.profiles@, profile_pred(caller@));
                    lemma_first_where_push(pre.profiles@, profile_pred(caller@), ug);
                    assert forall|q: Seq<u8>| q != caller@ implies self.profile_ix(q)
                        == pre.profile_ix(q) by {
                        lemma_first_where_push(pre.profiles@, profile_pred(q), ug);
                    }
                    assert forall|a: int, b: int|
                        0 <= a < b < self.profiles@.len() implies (
                    #[trigger] self.profiles@[a]).principal@ != (
                    #[trigger] self.profiles@[b]).principal@ by {
                        if b == pre.profiles@.len() {
                            assert(!(profile_pred(caller@)(pre.profiles@[a])));
                        }
                    }
                    assert forall|q: Seq<u8>| q != caller@ && pre.has_profile(q) implies
                        self.profile_of(q) == pre.profile_of(q) by {
                        lemma_first_where_props(pre.profiles@, profile_pred(q));
                    }
                }
                i
            },
        }
    }

    /// Replaces the profile at `i`, keeping the same principal.
    fn put_profile(&mut self, i: usize, u: UserProfile)
        requires
            old(self).wf(),
            i < old(self).profiles@.len(),
            u.principal@ == old(self).profiles@[i as int].principal@,
            u.trust_score <= 100,
            u.created_at <= old(self).clock_watermark,
            u.last_seen <= old(self).clock_watermark,
        ensures
            final(self).wf(),
            final(self).profiles@ == old(self).profiles@.update(i as int, u),
            forall|q: Seq<u8>| final(self).profile_ix(q) == old(self).profile_ix(q),
            old(self).profile_ix(u.principal@) == i,
            final(self).profile_of(u.principal@) == u,
            forall|q: Seq<u8>|
                q != u.principal@ && old(self).has_profile(q) ==> final(self).profile_of(q) == old(
                    self,
                ).profile_of(q),
            final(self).clock_watermark == old(self).clock_watermark,
    {
        let ghost pre = *self;
        let ghost ug = u;
        let p = u.principal.dup();
        self.profiles.set(i, u);
        proof {
            assert forall|j: int| 0 <= j < i implies !(profile_pred(p@)(pre.profiles@[j])) by {
                assert(pre.profiles@[j].principal@ != pre.profiles@[i as int].principal@);
            }
            lemma_first_where_is(pre.profiles@, profile_pred(p@), i as int);
            assert forall|q: Seq<u8>| self.profile_ix(q) == pre.profile_ix(q) by {
                lemma_first_where_update(pre.profiles@, profile_pred(q), i as int, ug);
            }
            assert(ug.principal@ == p@);
            lemma_first_where_update(pre.profiles@, profile_pred(p@), i as int, ug);
            assert(self.profiles@ == pre.profiles@.update(i as int, ug));
            assert(self.profile_ix(p@) == i as int);
            assert(self.profiles@[i as int] == ug);
            assert(self.profile_of(p@) == ug);
            assert forall|q: Seq<u8>| q != p@ && pre.has_profile(q) implies self.profile_of(q)
                == pre.profile_of(q) by {
                lemma_first_where_props(pre.profiles@, profile_pred(q));
                assert(pre.profiles@[pre.profile_ix(q)].principal@ == q);
                assert(pre.profile_ix(q) != i as int);
            }
        }
    }

    /// Builds the caller's verification report, creating the profile on
    /// first access and refreshing its last-seen time.  Fails with
    /// `AuthError` for the anonymous sentinel.
    pub fn verify_identity(&mut self, caller: &Principal, now: u64) -> (r: Result<
        IdentityReport,
        CafeError,
    >)
        requires
            old(self).wf(),
            now >= old(self).clock_watermark,
        ensures
            final(self).wf(),
            is_anonymous(caller@) <==> r == Result::<IdentityReport, CafeError>::Err(
                CafeError::AuthError,
            ),
            r is Ok <==> !is_anonymous(caller@),
            r is Err ==> *final(self) == *old(self),
            r is Ok ==> {
                let created = if old(self).has_profile(caller@) {
                    old(self).profile_of(caller@).created_at
                } else {
                    now
                };
                let trust = if old(self).has_profile(caller@) {
                    old(self).profile_of(caller@).trust_score
                } else {
                    50
                };
                let secs = age_seconds(created, now);
                let rep = r->Ok_0;
                &&& final(self).has_profile(caller@)
                &&& final(self).profile_of(caller@).created_at == created
                &&& final(self).profile_of(caller@).trust_score == trust
                &&& final(self).profile_of(caller@).last_seen == now
                &&& opt_str_view(final(self).profile_of(caller@).nickname) == (if old(
                    self,
                ).has_profile(caller@) {
                    opt_str_view(old(self).profile_of(caller@).nickname)
                } else {
                    Option::None
                })
                &&& final(self).profile_of(caller@).verification_level@ == (if old(
                    self,
                ).has_profile(caller@) {
                    old(self).profile_of(caller@).verification_level@
                } else {
                    "Basic"@
                })
                &&& rep.principal@ == caller@
                &&& rep.identity_age@ == age_text(secs)
                &&& rep.trust_score == trust
                &&& rep.risk_level == identity_risk(trust, secs)
                &&& strs_view(rep.recommendations@) == spec_identity_recommendations(trust, secs)
                &&& rep.verified_by@ == "ICP Ninja Canister v1.0"@
                &&& forall|q: Seq<u8>|
                    q != caller@ ==> final(self).profile_ix(q) == old(self).profile_ix(q) && (old(
                        self,
                    ).has_profile(q) ==> final(self).profile_of(q) == old(self).profile_of(q))
                &&& final(self).clock_watermark == now
            },
    {
        if caller.is_anon() {
            return Result::Err(CafeError::AuthError);
        }
        let i = self.get_or_create(caller, now);
        let ghost mid = *self;
        proof {
            assert(mid.profiles@[i as int].created_at <= now);
        }
        self.clock_watermark = now;
        let mut u = self.profiles[i].dup();
        let created = u.created_at;
        let trust = u.trust_score;
        u.last_seen = now;
        self.put_profile(i, u);
        let secs = (now - created) / 1_000_000_000;
        let identity_age = render_age(secs);
        let risk_level = if trust >= 80 && secs > 86400 {
            RiskLevel::Low
        } else if trust >= 60 || secs > 3600 {
            RiskLevel::Medium
        } else {
            RiskLevel::High
        };
        let mut recommendations: Vec<String> = Vec::new();
        recommendations.push("Identity verified through the Internet Computer Protocol".to_owned());
        let mut trust_line = "Trust score: ".to_owned();
        let tnum = u64_to_string(trust as u64);
        trust_line.append(tnum.as_str());
        trust_line.append("/100");
        recommendations.push(trust_line);
        let mut age_line = "Identity age: ".to_owned();
        age_line.append(identity_age.as_str());
        recommendations.push(age_line);
        recommendations.push("Analysis enhanced with blockchain verification".to_owned());
        if trust < 70 {
            recommendations.push("Low trust score - continue building reputation".to_owned());
        }
        if secs < 3600 {
            recommendations.push("New identity - proceed with caution".to_owned());
        }
        proof {
            assert(strs_view(recommendations@) =~= spec_identity_recommendations(
                trust,
                secs as int,
            ));
        }
        let report = IdentityReport {
            principal: caller.dup(),
            identity_age,
            trust_score: trust,
            risk_level,
            recommendations,
            verified_by: "ICP Ninja Canister v1.0".to_owned(),
        };
        Result::Ok(report)
    }

    /// Sets the caller's trust score, creating the profile on first
    /// access.  Fails with `AuthError` for the anonymous sentinel and
    /// with `ValidationError` for a score over 100.
    pub fn update_trust_score(&mut self, caller: &Principal, new_score: u32, now: u64) -> (r:
        Result<(), CafeError>)
        requires
            old(self).wf(),
            now >= old(self).clock_watermark,
        ensures
            final(self).wf(),
            is_anonymous(caller@) <==> r == Result::<(), CafeError>::Err(CafeError::AuthError),
            !is_anonymous(caller@) && new_score > 100 <==> r == Result::<(), CafeError>::Err(
                CafeError::ValidationError,
            ),
            r is Ok <==> !is_anonymous(caller@) && new_score <= 100,
            r is Err ==> *final(self) == *old(self),
            r is Ok ==> {
                &&& final(self).has_profile(caller@)
                &&& final(self).profile_of(caller@).trust_score == new_score
                &&& final(self).profile_of(caller@).last_seen == now
                &&& final(self).profile_of(caller@).created_at == (if old(self).has_profile(
                    caller@,
                ) {
                    old(self).profile_of(caller@).created_at
                } else {
                    now
                })
                &&& opt_str_view(final(self).profile_of(caller@).nickname) == (if old(
                    self,
                ).has_profile(caller@) {
                    opt_str_view(old(self).profile_of(caller@).nickname)
                } else {
                    Option::None
                })
                &&& final(self).profile_of(caller@).verification_level@ == (if old(
                    self,
                ).has_profile(caller@) {
                    old(self).profile_of(caller@).verification_level@
                } else {
                    "Basic"@
                })
                &&& forall|q: Seq<u8>|
                    q != caller@ ==> final(self).profile_ix(q) == old(self).profile_ix(q) && (old(
                        self,
                    ).has_profile(q) ==> final(self).profile_of(q) == old(self).profile_of(q))
                &&& final(self).clock_watermark == now
            },
    {
        if caller.is_anon() {
            return Result::Err(CafeError::AuthError);
        }
        if new_score > 100 {
            return Result::Err(CafeError::ValidationError);
        }
        let i = self.get_or_create(caller, now);
        self.clock_watermark = now;
        let mut u = self.profiles[i].dup();
        u.trust_score = new_score;
        u.last_seen = now;
        self.put_profile(i, u);
        Result::Ok(())
    }

    /// Sets the caller's nickname, creating the profile on first access.
    /// Fails with `AuthError` for the anonymous sentinel and with
    /// `ValidationError` for a nickname over 32 units.
    pub fn set_nickname(&mut self, caller: &Principal, nickname: String, now: u64) -> (r: Result<
        (),
        CafeError,
    >)
        requires
            old(self).wf(),
            now >= old(self).clock_watermark,
        ensures
            final(self).wf(),
            is_anonymous(caller@) <==> r == Result::<(), CafeError>::Err(CafeError::AuthError),
            !is_anonymous(caller@) && nickname@.len() > 32 <==> r == Result::<(), CafeError>::Err(
                CafeError::ValidationError,
            ),
            r is Ok <==> !is_anonymous(caller@) && nickname@.len() <= 32,
            r is Err ==> *final(self) == *old(self),
            r is Ok ==> {
                &&& final(self).has_profile(caller@)
                &&& opt_str_view(final(self).profile_of(caller@).nickname) == Option::Some(
                    nickname@,
                )
                &&& final(self).profile_of(caller@).last_seen == now
                &&& final(self).profile_of(caller@).trust_score == (if old(self).has_profile(
                    caller@,
                ) {
                    old(self).profile_of(caller@).trust_score
                } else {
                    50
                })
                &&& final(self).profile_of(caller@).created_at == (if old(self).has_profile(
                    caller@,
                ) {
                    old(self).profile_of(caller@).created_at
                } else {
                    now
                })
                &&& final(self).profile_of(caller@).verification_level@ == (if old(
                    self,
                ).has_profile(caller@) {
                    old(self).profile_of(caller@).verification_level@
                } else {
                    "Basic"@
                })
                &&& forall|q: Seq<u8>|
                    q != caller@ ==> final(self).profile_ix(q) == old(self).profile_ix(q) && (old(
                        self,
                    ).has_profile(q) ==> final(self).profile_of(q) == old(self).profile_of(q))
                &&& final(self).clock_watermark == now
            },
    {
        if caller.is_anon() {
            return Result::Err(CafeError::AuthError);
        }
        if nickname.as_str().unicode_len() > 32 {
            return Result::Err(CafeError::ValidationError);
        }
        let i = self.get_or_create(caller, now);
        self.clock_watermark = now;
        let mut u = self.profiles[i].dup();
        u.nickname = Option::Some(nickname);
        u.last_seen = now;
        self.put_profile(i, u);
        Result::Ok(())
    }

    /// Returns the platform statistics: total profiles and profiles with
    /// a high trust score.
    pub fn get_stats(&self) -> (r: PlatformStats)
        ensures
            r.total_users == self.profiles@.len(),
            r.high_trust_users == high_trust_count(self.profiles@),
    {
        let n = self.profiles.len();
        let mut high: usize = 0;
        let mut i: usize = 0;
        while i < n
            invariant
                n == self.profiles@.len(),
                0 <= i <= n,
                high <= i,
                high == high_trust_count(self.profiles@.take(i as int)),
            decreases n - i,
        {
            proof {
                assert(self.profiles@.take(i + 1).drop_last() =~= self.profiles@.take(i as int));
                assert(self.profiles@.take(i + 1).last() == self.profiles@[i as int]);
            }
            if self.profiles[i].trust_score >= 80 {
                high = high + 1;
            }
            i = i + 1;
        }
        proof {
            assert(self.profiles@.take(n as int) =~= self.profiles@);
        }
        PlatformStats { total_users: n as u64, high_trust_users: high as u64 }
    }
}

/// Renders an identity age in seconds as minutes, hours or days.
pub fn render_age(secs: u64) -> (r: String)
    ensures
        r@ == age_text(secs as int),
{
    if secs < 3600 {
        let mut s = u64_to_string(secs / 60);
        s.append(" minutes");
        s
    } else if secs < 86400 {
        let mut s = u64_to_string(secs / 3600);
        s.append(" hours");
        s
    } else {
        let mut s = u64_to_string(secs / 86400);
        s.append(" days");
        s
    }
}

} // verus!
