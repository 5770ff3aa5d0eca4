//! Laws of the accounting: the global cover invariant (the tracked sum never
//! exceeds the custody balance), the safety of rescue, and the draining
//! behaviour of repeated partial releases, stated over the same spec
//! functions that the engine's contracts use.

use vstd::prelude::*;

use crate::model::after_partial_release;
use crate::model::contribution;
use crate::model::escrow_wf;
use crate::model::is_active_status;
use crate::model::is_terminal_status;
use crate::model::lemma_tracked_sum_push;
use crate::model::lemma_tracked_sum_update;
use crate::model::tracked_sum;
use crate::model::Escrow;
use crate::model::EscrowStatus;

verus! {

/// The global accounting cover invariant: the tracked sum is covered by the
/// custody balance.
pub open spec fn covered(escrows: Seq<Escrow>, contract_balance: int) -> bool {
    tracked_sum(escrows) <= contract_balance
}

/// A status is terminal exactly when it is not active: the five states split
/// cleanly in two.
pub proof fn lemma_terminal_not_active(s: EscrowStatus)
    ensures
        is_terminal_status(s) <==> !is_active_status(s),
{
}

/// Locking keeps the cover: inserting a record while the custody balance
/// grows by that record's contribution (the deposit the host transfers in)
/// preserves the cover.
pub proof fn lemma_lock_keeps_cover(s: Seq<Escrow>, e: Escrow, contract_balance: int)
    requires
        covered(s, contract_balance),
    ensures
        covered(s.push(e), contract_balance + contribution(e)),
{
    lemma_tracked_sum_push(s, e);
}

/// Paying out keeps the cover: replacing one record by one whose contribution
/// is lower by exactly the paid amount, while the custody balance shrinks by
/// that same payout, preserves the cover. Release, partial release and refund all
/// change the ledger this way.
pub proof fn lemma_payout_keeps_cover(
    s: Seq<Escrow>,
    i: int,
    e2: Escrow,
    contract_balance: int,
    paid: int,
)
    requires
        covered(s, contract_balance),
        0 <= i < s.len(),
        contribution(e2) == contribution(s[i]) - paid,
    ensures
        covered(s.update(i, e2), contract_balance - paid),
{
    lemma_tracked_sum_update(s, i, e2);
}

/// A transfer straight into custody, outside the protocol, keeps the cover:
/// it only raises the balance.
pub proof fn lemma_direct_deposit_keeps_cover(
    s: Seq<Escrow>,
    contract_balance: int,
    deposit: int,
)
    requires
        covered(s, contract_balance),
        deposit >= 0,
    ensures
        covered(s, contract_balance + deposit),
{
}

/// Rescue keeps the cover: moving out no more than the untracked balance,
/// while the ledger stands still, preserves the cover — rescue can never dip into
/// tracked funds.
pub proof fn lemma_rescue_keeps_cover(s: Seq<Escrow>, contract_balance: int, amount: int)
    requires
        covered(s, contract_balance),
        amount <= contract_balance - tracked_sum(s),
    ensures
        covered(s, contract_balance - amount),
{
}

/// One observable transition of the custody system: the ledger and the
/// custody balance moving together in one of the ways the engine's
/// operations and the environment allow. In order: a lock (a record is
/// inserted and its contribution deposited), a payout or approval (one
/// record's contribution drops by exactly what leaves custody — zero for an
/// approval), a deposit straight into custody, and a rescue that leaves the
/// ledger alone and keeps the balance at or above the tracked sum. The
/// engine's contracts put every successful operation, with the transfer it
/// reports, into one of these shapes.
pub open spec fn step_ok(s0: Seq<Escrow>, b0: int, s1: Seq<Escrow>, b1: int) -> bool {
    ||| (exists|e: Escrow| s1 == #[trigger] s0.push(e) && b1 == b0 + contribution(e))
    ||| (exists|i: int, e2: Escrow|
        0 <= i < s0.len() && s1 == #[trigger] s0.update(i, e2) && contribution(e2)
            <= contribution(s0[i]) && b1 == b0 - (contribution(s0[i]) - contribution(e2)))
    ||| (s1 == s0 && b1 >= b0)
    ||| (s1 == s0 && tracked_sum(s0) <= b1 <= b0)
}

/// Any single allowed transition preserves the cover invariant.
pub proof fn lemma_step_preserves_cover(s0: Seq<Escrow>, b0: int, s1: Seq<Escrow>, b1: int)
    requires
        covered(s0, b0),
        step_ok(s0, b0, s1, b1),
    ensures
        covered(s1, b1),
{
    if exists|e: Escrow| s1 == #[trigger] s0.push(e) && b1 == b0 + contribution(e) {
        let e = choose|e: Escrow| s1 == #[trigger] s0.push(e) && b1 == b0 + contribution(e);
        lemma_lock_keeps_cover(s0, e, b0);
    } else if exists|i: int, e2: Escrow|
        0 <= i < s0.len() && s1 == #[trigger] s0.update(i, e2) && contribution(e2)
            <= contribution(s0[i]) && b1 == b0 - (contribution(s0[i]) - contribution(e2)) {
        let (i, e2) = choose|i: int, e2: Escrow|
            0 <= i < s0.len() && s1 == #[trigger] s0.update(i, e2) && contribution(e2)
                <= contribution(s0[i]) && b1 == b0 - (contribution(s0[i]) - contribution(e2));
        lemma_payout_keeps_cover(s0, i, e2, b0, contribution(s0[i]) - contribution(e2));
    }
}

/// A successful lock is an allowed transition: the record is inserted and
/// its contribution is what the host deposits into custody.
pub proof fn lemma_lock_is_step(s0: Seq<Escrow>, e: Escrow, b0: int)
    ensures
        step_ok(s0, b0, s0.push(e), b0 + contribution(e)),
{
}

/// A successful release, partial release, refund or approval is an allowed
/// transition: one record's contribution drops by exactly the payout the
/// host transfers out (zero for an approval).
pub proof fn lemma_payout_is_step(s0: Seq<Escrow>, i: int, e2: Escrow, b0: int)
    requires
        0 <= i < s0.len(),
        contribution(e2) <= contribution(s0[i]),
    ensures
        step_ok(s0, b0, s0.update(i, e2), b0 - (contribution(s0[i]) - contribution(e2))),
{
}

/// A successful rescue is an allowed transition: the ledger stands still and
/// no more than the untracked balance leaves custody.
pub proof fn lemma_rescue_is_step(s0: Seq<Escrow>, b0: int, amount: int)
    requires
        0 <= amount <= b0 - tracked_sum(s0),
    ensures
        step_ok(s0, b0, s0, b0 - amount),
{
}

/// A run of the system: the ledger and the custody balance observed after
/// each step, each consecutive pair an allowed transition.
pub open spec fn trace_ok(tr: Seq<(Seq<Escrow>, int)>) -> bool {
    forall|i: int|
        0 <= i < tr.len() - 1 ==> step_ok(
            #[trigger] tr[i].0,
            tr[i].1,
            tr[i + 1].0,
            tr[i + 1].1,
        )
}

proof fn lemma_cover_at(tr: Seq<(Seq<Escrow>, int)>, i: int)
    requires
        tr.len() > 0,
        covered(tr[0].0, tr[0].1),
        trace_ok(tr),
        0 <= i < tr.len(),
    ensures
        covered(tr[i].0, tr[i].1),
    decreases i,
{
    if i > 0 {
        lemma_cover_at(tr, i - 1);
        lemma_step_preserves_cover(tr[i - 1].0, tr[i - 1].1, tr[i].0, tr[i].1);
    }
}

/// The cover invariant over whole runs: for any sequence of operations —
/// locks, releases, refunds, approvals, direct deposits, rescues — the
/// tracked sum never exceeds the custody balance at any step, provided it
/// held at the start.
pub proof fn lemma_cover_holds_along_trace(tr: Seq<(Seq<Escrow>, int)>)
    requires
        tr.len() > 0,
        covered(tr[0].0, tr[0].1),
        trace_ok(tr),
    ensures
        forall|i: int| 0 <= i < tr.len() ==> covered(#[trigger] tr[i].0, tr[i].1),
{
    assert forall|i: int| 0 <= i < tr.len() implies covered(#[trigger] tr[i].0, tr[i].1) by {
        lemma_cover_at(tr, i);
    }
}

/// The sum of a batch of partial-release amounts.
pub open spec fn sum_amounts(s: Seq<i128>) -> int
    decreases s.len(),
{
    if s.len() == 0 {
        0
    } else {
        s[0] + sum_amounts(s.drop_first())
    }
}

pub open spec fn positive_amounts(s: Seq<i128>) -> bool {
    forall|i: int| 0 <= i < s.len() ==> #[trigger] s[i] > 0
}

/// Replaying a batch of partial releases against one record, first amount
/// first.
pub open spec fn drain_all(e: Escrow, amounts: Seq<i128>) -> Escrow
    decreases amounts.len(),
{
    if amounts.len() == 0 {
        e
    } else {
        drain_all(after_partial_release(e, amounts[0]), amounts.drop_first())
    }
}

/// Whether each step of the batch meets `partial_release`'s success
/// condition against the record it finds: active, and the amount positive
/// and within what remains.
pub open spec fn drain_steps_valid(e: Escrow, amounts: Seq<i128>) -> bool
    decreases amounts.len(),
{
    if amounts.len() == 0 {
        true
    } else {
        &&& is_active_status(e.status)
        &&& 0 < amounts[0] <= e.remaining_amount
        &&& drain_steps_valid(after_partial_release(e, amounts[0]), amounts.drop_first())
    }
}

pub proof fn lemma_sum_amounts_pos(s: Seq<i128>)
    requires
        positive_amounts(s),
        s.len() > 0,
    ensures
        sum_amounts(s) > 0,
    decreases s.len(),
{
    assert(s[0] > 0);
    assert(sum_amounts(s) == s[0] + sum_amounts(s.drop_first()));
    if s.len() <= 1 {
        assert(sum_amounts(s.drop_first()) == 0);
    }
    if s.len() > 1 {
        assert(positive_amounts(s.drop_first())) by {
            assert forall|i: int| 0 <= i < s.drop_first().len() implies #[trigger] s.drop_first()[i]
                > 0 by {
                assert(s.drop_first()[i] == s[i + 1]);
            }
        }
        lemma_sum_amounts_pos(s.drop_first());
    }
}

/// Repeated partial releases whose amounts are positive and sum to the
/// remaining amount are all legal, leave nothing remaining, and drive the
/// record to `Released`.
pub proof fn lemma_partial_releases_drain(e: Escrow, amounts: Seq<i128>)
    requires
        escrow_wf(e),
        is_active_status(e.status),
        positive_amounts(amounts),
        amounts.len() > 0,
        sum_amounts(amounts) == e.remaining_amount,
    ensures
        drain_steps_valid(e, amounts),
        drain_all(e, amounts).remaining_amount == 0,
        drain_all(e, amounts).status == EscrowStatus::Released,
    decreases amounts.len(),
{
    let a0 = amounts[0];
    let rest = amounts.drop_first();
    assert(a0 > 0);
    if rest.len() == 0 {
        assert(sum_amounts(rest) == 0);
        assert(a0 == e.remaining_amount);
        let e1 = after_partial_release(e, a0);
        assert(drain_all(e, amounts) == drain_all(e1, rest));
        assert(drain_all(e1, rest) == e1);
        assert(drain_steps_valid(e1, rest));
    } else {
        assert(positive_amounts(rest)) by {
            assert forall|i: int| 0 <= i < rest.len() implies #[trigger] rest[i] > 0 by {
                assert(rest[i] == amounts[i + 1]);
            }
        }
        lemma_sum_amounts_pos(rest);
        let e1 = after_partial_release(e, a0);
        assert(e1.remaining_amount == e.remaining_amount - a0);
        assert(sum_amounts(rest) == e1.remaining_amount);
        assert(e1.status == EscrowStatus::PartiallyReleased);
        lemma_partial_releases_drain(e1, rest);
        assert(drain_all(e, amounts) == drain_all(e1, rest));
    }
}

} // verus!
