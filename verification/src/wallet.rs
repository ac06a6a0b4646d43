//! Wallet data model: balances in minor units, spending policy, privacy
//! settings and the platform-wide counters.

use vstd::prelude::*;
use crate::principal::Principal;

verus! {

/// Safety rating of a wallet.
#[derive(Clone, Copy, Debug, PartialEq, Eq, Structural)]
pub enum SafetyRating {
    Safe,
    Caution,
    HighRisk,
}

/// Spending policy of a wallet.  The warning threshold never exceeds the
/// daily limit, and both respect the platform ceilings.
#[derive(Clone, Copy, Debug, PartialEq, Eq, Structural)]
pub struct SpendingPatterns {
    pub daily_limit: u64,
    pub warning_threshold: u64,
    pub cooling_off_period: u64,
    pub last_large_purchase: Option<u64>,
}

/// Privacy settings of a wallet.
#[derive(Clone, Copy, Debug, PartialEq, Eq, Structural)]
pub struct PrivacySettings {
    pub share_trust_score: bool,
    pub allow_trust_connections: bool,
    pub public_nickname: bool,
    pub emergency_mode: bool,
}

/// A wallet: one per principal, created explicitly.
///
/// `reserved` is the provisional hold taken by transfers that are waiting
/// on an external call; the spendable amount is `icp_balance - reserved`.
pub struct CafeWallet {
    pub principal: Principal,
    pub nickname: Option<String>,
    pub icp_balance: u64,
    pub reserved: u64,
    pub trust_score: u32,
    pub safety_rating: SafetyRating,
    pub created_at: u64,
    pub last_activity: u64,
    pub total_spent: u64,
    pub spending_patterns: SpendingPatterns,
    pub emergency_contacts: Vec<Principal>,
    pub privacy_settings: PrivacySettings,
}

/// View of an optional text field.
pub open spec fn opt_str_view(o: Option<String>) -> Option<Seq<char>> {
    match o {
        Option::None => Option::None,
        Option::Some(s) => Option::Some(s@),
    }
}

/// View of a list of principals.
pub open spec fn principals_view(v: Seq<Principal>) -> Seq<Seq<u8>> {
    v.map_values(|p: Principal| p@)
}

/// Observational equality of two wallets: every field agrees.
pub open spec fn wallet_eq(a: CafeWallet, b: CafeWallet) -> bool {
    &&& a.principal@ == b.principal@
    &&& opt_str_view(a.nickname) == opt_str_view(b.nickname)
    &&& a.icp_balance == b.icp_balance
    &&& a.reserved == b.reserved
    &&& a.trust_score == b.trust_score
    &&& a.safety_rating == b.safety_rating
    &&& a.created_at == b.created_at
    &&& a.last_activity == b.last_activity
    &&& a.total_spent == b.total_spent
    &&& a.spending_patterns == b.spending_patterns
    &&& principals_view(a.emergency_contacts@) == principals_view(b.emergency_contacts@)
    &&& a.privacy_settings == b.privacy_settings
}

/// Observational equality of two wallets on every field but the balance
/// and the reservation.
pub open spec fn wallet_eq_except_funds(a: CafeWallet, b: CafeWallet) -> bool {
    &&& a.principal@ == b.principal@
    &&& opt_str_view(a.nickname) == opt_str_view(b.nickname)
    &&& a.trust_score == b.trust_score
    &&& a.safety_rating == b.safety_rating
    &&& a.created_at == b.created_at
    &&& a.last_activity == b.last_activity
    &&& a.total_spent == b.total_spent
    &&& a.spending_patterns == b.spending_patterns
    &&& principals_view(a.emergency_contacts@) == principals_view(b.emergency_contacts@)
    &&& a.privacy_settings == b.privacy_settings
}

/// Copies an optional text field.
pub fn dup_opt_string(o: &Option<String>) -> (r: Option<String>)
    ensures
        opt_str_view(r) == opt_str_view(*o),
{
    match o {
        Option::None => Option::None,
        Option::Some(s) => Option::Some(s.clone()),
    }
}

/// Copies a list of principals.
pub fn dup_principals(v: &Vec<Principal>) -> (r: Vec<Principal>)
    ensures
        principals_view(r@) == principals_view(v@),
{
    let n = v.len();
    let mut r: Vec<Principal> = Vec::new();
    let mut i: usize = 0;
    while i < n
        invariant
            n == v@.len(),
            0 <= i <= n,
            r@.len() == i,
            forall|j: int| 0 <= j < i ==> r@[j]@ == v@[j]@,
        decreases n - i,
    {
        r.push(v[i].dup());
        i = i + 1;
    }
    proof {
        assert(principals_view(r@) =~= principals_view(v@));
    }
    r
}

impl CafeWallet {
    /// Internal consistency: the reservation never exceeds the balance,
    /// the trust score stays in range and the policy respects its
    /// ceilings.
    pub open spec fn wf(&self) -> bool {
        &&& self.reserved <= self.icp_balance
        &&& self.trust_score <= 100
        &&& self.spending_patterns.warning_threshold <= self.spending_patterns.daily_limit
        &&& self.spending_patterns.daily_limit <= crate::MAX_DAILY_LIMIT
        &&& self.spending_patterns.cooling_off_period <= crate::MAX_COOLING_OFF
    }

    /// A fresh wallet with the default policy and an empty balance.
    pub fn new_default(principal: Principal, nickname: Option<String>, now: u64) -> (r: CafeWallet)
        ensures
            r.wf(),
            r.principal@ == principal@,
            opt_str_view(r.nickname) == opt_str_view(nickname),
            r.icp_balance == 0,
            r.reserved == 0,
            r.trust_score == 50,
            r.safety_rating == SafetyRating::Safe,
            r.created_at == now,
            r.last_activity == now,
            r.total_spent == 0,
            r.spending_patterns == default_patterns(),
            principals_view(r.emergency_contacts@) == Seq::<Seq<u8>>::empty(),
            r.privacy_settings == default_privacy(),
    {
        let r = CafeWallet {
            principal,
            nickname,
            icp_balance: 0,
            reserved: 0,
            trust_score: 50,
            safety_rating: SafetyRating::Safe,
            created_at: now,
            last_activity: now,
            total_spent: 0,
            spending_patterns: SpendingPatterns {
                daily_limit: 1_000_000_000,
                warning_threshold: 500_000_000,
                cooling_off_period: 3600,
                last_large_purchase: Option::None,
            },
            emergency_contacts: Vec::new(),
            privacy_settings: PrivacySettings {
                share_trust_score: false,
                allow_trust_connections: true,
                public_nickname: false,
                emergency_mode: false,
            },
        };
        proof {
            assert(principals_view(r.emergency_contacts@) =~= Seq::<Seq<u8>>::empty());
        }
        r
    }

    /// An independent copy of this wallet.
    pub fn dup(&self) -> (r: CafeWallet)
        ensures
            wallet_eq(r, *self),
    {
        CafeWallet {
            principal: self.principal.dup(),
            nickname: dup_opt_string(&self.nickname),
            icp_balance: self.icp_balance,
            reserved: self.reserved,
            trust_score: self.trust_score,
            safety_rating: self.safety_rating,
            created_at: self.created_at,
            last_activity: self.last_activity,
            total_spent: self.total_spent,
            spending_patterns: self.spending_patterns,
            emergency_contacts: dup_principals(&self.emergency_contacts),
            privacy_settings: self.privacy_settings,
        }
    }
}

/// The default spending policy of a new wallet.
pub open spec fn default_patterns() -> SpendingPatterns {
    SpendingPatterns {
        daily_limit: 1_000_000_000,
        warning_threshold: 500_000_000,
        cooling_off_period: 3600,
        last_large_purchase: Option::None,
    }
}

/// The default privacy settings of a new wallet.
pub open spec fn default_privacy() -> PrivacySettings {
    PrivacySettings {
        share_trust_score: false,
        allow_trust_connections: true,
        public_nickname: false,
        emergency_mode: false,
    }
}

/// A counter bumped by one, saturating at the type's ceiling.
pub open spec fn sat_inc(x: u64) -> u64 {
    if x == u64::MAX {
        x
    } else {
        (x + 1) as u64
    }
}

/// Bumps a counter, saturating at the type's ceiling.
pub fn bump(x: u64) -> (r: u64)
    ensures
        r == sat_inc(x),
{
    if x < u64::MAX {
        x + 1
    } else {
        x
    }
}

/// Platform-wide counters; every field except `last_updated` only grows.
#[derive(Clone, Copy, Debug, PartialEq, Eq, Structural)]
pub struct WalletStats {
    pub total_wallets: u64,
    pub total_transactions: u64,
    pub scams_prevented: u64,
    pub total_trust_connections: u64,
    pub last_updated: u64,
}

impl WalletStats {
    /// Zeroed counters, stamped with the current time.
    pub fn new(now: u64) -> (r: WalletStats)
        ensures
            r == (WalletStats {
                total_wallets: 0,
                total_transactions: 0,
                scams_prevented: 0,
                total_trust_connections: 0,
                last_updated: now,
            }),
    {
        WalletStats {
            total_wallets: 0,
            total_transactions: 0,
            scams_prevented: 0,
            total_trust_connections: 0,
            last_updated: now,
        }
    }
}

} // verus!
