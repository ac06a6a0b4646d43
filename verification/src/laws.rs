//! Platform-level laws, proved from the operation contracts.
//!
//! The transfer operations promise relations between the state before and
//! after each step (`reserves`, `commits`, `releases`); the lemmas here
//! state what those relations guarantee across whole scenarios: funds
//! never go negative, a transfer and its exact reversal cancel out, and
//! two transfers can never spend the same funds.

use vstd::prelude::*;
use crate::alerts::{alert_eq, alert_eq_mod_id, SafetyAlert};
use crate::ledger::{can_send, commits, releases, reserves};
use crate::lookup::lemma_first_where_props;
use crate::state::{wallet_pred, Cafe};

verus! {

/// Law: wallet funds are never negative.  In every well-formed state —
/// and every operation requires and re-establishes well-formedness — a
/// wallet's balance covers its reservation, so the spendable amount is
/// never negative, whatever sequence of deposits and transfers, however
/// interleaved across suspension points, produced the state.
pub proof fn lemma_balance_never_negative(c: Cafe, p: Seq<u8>)
    requires
        c.wf(),
    ensures
        c.balance_of(p) >= 0,
        0 <= c.reserved_of(p) <= c.balance_of(p),
        c.avail_of(p) >= 0,
{
    lemma_first_where_props(c.wallets@, wallet_pred(p));
    if c.wallet_ix(p) >= 0 {
        assert(c.wallets@[c.wallet_ix(p)].wf());
    }
}

/// Law: a transfer followed by its exact reversal restores every
/// balance.  If A sends X to B (reserve, then commit) and B then sends X
/// back to A, every principal's balance and reservation are exactly what
/// they were before the first transfer.
pub proof fn lemma_transfer_round_trip(
    s0: Cafe,
    s1: Cafe,
    s2: Cafe,
    s3: Cafe,
    s4: Cafe,
    a: Seq<u8>,
    b: Seq<u8>,
    x: u64,
)
    requires
        reserves(s0, s1, a, x),
        commits(s1, s2, a, b, x),
        reserves(s2, s3, b, x),
        commits(s3, s4, b, a, x),
    ensures
        forall|q: Seq<u8>| s4.balance_of(q) == s0.balance_of(q),
        forall|q: Seq<u8>| s4.reserved_of(q) == s0.reserved_of(q),
{
    assert forall|q: Seq<u8>| s4.balance_of(q) == s0.balance_of(q) && s4.reserved_of(q)
        == s0.reserved_of(q) by {
        if a == b {
            if q != a {
                assert(s1.balance_of(q) == s0.balance_of(q));
            }
        } else {
            if q != a && q != b {
                assert(s1.balance_of(q) == s0.balance_of(q));
            }
        }
    }
}

/// Law: two transfers cannot spend the same funds.  After one transfer of
/// `x1` has reserved its amount, a second transfer of `x2` from the same
/// wallet cannot begin when the two amounts together exceed the balance
/// that both checks saw: the second check fails against the unreserved
/// remainder, not against the original balance.  If the first transfer
/// then commits, the final balance reflects exactly one debit.
pub proof fn lemma_double_spend_excluded(
    s0: Cafe,
    s1: Cafe,
    s2: Cafe,
    from: Seq<u8>,
    to1: Seq<u8>,
    to2: Seq<u8>,
    x1: u64,
    x2: u64,
)
    requires
        can_send(s0, from, to1, x1),
        reserves(s0, s1, from, x1),
        x1 + x2 > s0.balance_of(from),
        commits(s1, s2, from, to1, x1),
        to1 != from,
    ensures
        !can_send(s1, from, to2, x2),
        s2.balance_of(from) == s0.balance_of(from) - x1,
{
    assert(s1.avail_of(from) < x2);
}

/// Law: acknowledging a safety alert twice is idempotent.  Acknowledging
/// an alert whose flag is already set leaves every alert of the owner
/// observably unchanged: the flag is one-way and never unset.
pub proof fn lemma_acknowledge_idempotent(pre: Cafe, post: Cafe, p: Seq<u8>, id: int)
    requires
        0 <= id < pre.alerts_of(p).len(),
        pre.alerts_of(p)[id].acknowledged == true,
        post.alerts_of(p).len() == pre.alerts_of(p).len(),
        forall|k: int|
            0 <= k < pre.alerts_of(p).len() && k != id ==> post.alerts_of(p)[k]
                == pre.alerts_of(p)[k],
        post.alerts_of(p)[id].acknowledged == true,
        post.alerts_of(p)[id].id == pre.alerts_of(p)[id].id,
        alert_eq_mod_id(
            post.alerts_of(p)[id],
            SafetyAlert { acknowledged: true, ..pre.alerts_of(p)[id] },
        ),
    ensures
        forall|k: int|
            0 <= k < post.alerts_of(p).len() ==> alert_eq(
                #[trigger] post.alerts_of(p)[k],
                pre.alerts_of(p)[k],
            ),
{
    assert forall|k: int| 0 <= k < post.alerts_of(p).len() implies alert_eq(
        #[trigger] post.alerts_of(p)[k],
        pre.alerts_of(p)[k],
    ) by {
        if k != id {
            assert(post.alerts_of(p)[k] == pre.alerts_of(p)[k]);
        }
    }
}

} // verus!
