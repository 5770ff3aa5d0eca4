//! Data model of the escrow engine: records, statuses, errors, and the
//! spec-level accounting (per-record well-formedness and the tracked sum).

use vstd::prelude::*;

verus! {

/// Identity of an account as the engine sees it: an opaque numeric handle.
/// The hosting environment maps its own address representation onto these.
#[derive(Clone, Copy, PartialEq, Eq, Structural, Debug)]
pub struct Address {
    pub id: u64,
}

/// Lifecycle of an escrow record. `Released` and `Refunded` are terminal;
/// the other three are active ("tracked") states.
#[derive(Clone, Copy, PartialEq, Eq, Structural, Debug)]
pub enum EscrowStatus {
    Locked,
    PartiallyReleased,
    PartiallyRefunded,
    Released,
    Refunded,
}

/// How an approved refund is to be executed.
#[derive(Clone, Copy, PartialEq, Eq, Structural, Debug)]
pub enum RefundMode {
    Full,
    Partial,
}

/// A refund instruction recorded by `approve_refund`, consumed by `refund`.
#[derive(Clone, Copy, PartialEq, Eq, Structural, Debug)]
pub struct PendingRefund {
    pub amount: i128,
    pub mode: RefundMode,
}

/// One escrow record, keyed by `bounty_id`.
#[derive(Clone, Copy, PartialEq, Eq, Structural, Debug)]
pub struct Escrow {
    pub bounty_id: u64,
    pub depositor: Address,
    pub remaining_amount: i128,
    pub deadline: u64,
    pub status: EscrowStatus,
    pub pending_refund: Option<PendingRefund>,
}

/// Why an operation was rejected. Every failure leaves the engine unchanged.
#[derive(Clone, Copy, PartialEq, Eq, Structural, Debug)]
pub enum Error {
    AlreadyInitialized,
    DuplicateBounty,
    EscrowNotFound,
    EscrowNotActive,
    InvalidAmount,
    InvalidDeadline,
    RefundNotEligible,
    FeeRecipientNotSet,
    NoUntrackedBalance,
}

/// Admin and token identities, stored once at initialization.
#[derive(Clone, Copy, PartialEq, Eq, Structural, Debug)]
pub struct Config {
    pub admin: Address,
    pub token: Address,
}

pub open spec fn is_active_status(s: EscrowStatus) -> bool {
    s == EscrowStatus::Locked || s == EscrowStatus::PartiallyReleased
        || s == EscrowStatus::PartiallyRefunded
}

pub open spec fn is_terminal_status(s: EscrowStatus) -> bool {
    s == EscrowStatus::Released || s == EscrowStatus::Refunded
}

/// Per-record invariant: the remaining amount is non-negative and hits zero
/// exactly in the terminal states.
pub open spec fn escrow_wf(e: Escrow) -> bool {
    &&& e.remaining_amount >= 0
    &&& (e.remaining_amount == 0 <==> is_terminal_status(e.status))
}

/// What one record contributes to the tracked balance: its remaining amount
/// while it is active, nothing once it is terminal.
pub open spec fn contribution(e: Escrow) -> int {
    if is_active_status(e.status) {
        e.remaining_amount as int
    } else {
        0
    }
}

/// The tracked balance of a ledger: the sum of `remaining_amount` over all
/// records in an active state.
pub open spec fn tracked_sum(s: Seq<Escrow>) -> int
    decreases s.len(),
{
    if s.len() == 0 {
        0
    } else {
        tracked_sum(s.drop_last()) + contribution(s.last())
    }
}

pub open spec fn has_bounty(s: Seq<Escrow>, bounty_id: u64) -> bool {
    exists|i: int| 0 <= i < s.len() && s[i].bounty_id == bounty_id
}

pub open spec fn bounty_index(s: Seq<Escrow>, bounty_id: u64) -> int {
    choose|i: int| 0 <= i < s.len() && s[i].bounty_id == bounty_id
}

/// The record filed under a bounty identifier (meaningful when `has_bounty`).
pub open spec fn escrow_of(s: Seq<Escrow>, bounty_id: u64) -> Escrow {
    s[bounty_index(s, bounty_id)]
}

pub open spec fn unique_bounty_ids(s: Seq<Escrow>) -> bool {
    forall|i: int, j: int|
        0 <= i < s.len() && 0 <= j < s.len() && i != j ==> s[i].bounty_id != s[j].bounty_id
}

/// Ledger invariant: every record is well formed and bounty identifiers are
/// unique keys.
pub open spec fn ledger_wf(s: Seq<Escrow>) -> bool {
    &&& forall|i: int| 0 <= i < s.len() ==> escrow_wf(#[trigger] s[i])
    &&& unique_bounty_ids(s)
}

/// The record inserted by a successful `lock_funds`.
pub open spec fn locked_escrow(
    depositor: Address,
    bounty_id: u64,
    amount: i128,
    deadline: u64,
) -> Escrow {
    Escrow {
        bounty_id,
        depositor,
        remaining_amount: amount,
        deadline,
        status: EscrowStatus::Locked,
        pending_refund: None,
    }
}

/// The record after a full release: drained, terminal, payout went to the
/// contributor.
pub open spec fn after_release(e: Escrow) -> Escrow {
    Escrow {
        bounty_id: e.bounty_id,
        depositor: e.depositor,
        remaining_amount: 0,
        deadline: e.deadline,
        status: EscrowStatus::Released,
        pending_refund: e.pending_refund,
    }
}

/// The record after a partial release of `amount`: drained by `amount`,
/// terminal exactly when nothing is left.
pub open spec fn after_partial_release(e: Escrow, amount: i128) -> Escrow {
    Escrow {
        bounty_id: e.bounty_id,
        depositor: e.depositor,
        remaining_amount: (e.remaining_amount - amount) as i128,
        deadline: e.deadline,
        status: if e.remaining_amount == amount {
            EscrowStatus::Released
        } else {
            EscrowStatus::PartiallyReleased
        },
        pending_refund: e.pending_refund,
    }
}

/// The record after `approve_refund`: only the pending instruction changes.
pub open spec fn after_approve(e: Escrow, amount: i128, mode: RefundMode) -> Escrow {
    Escrow {
        bounty_id: e.bounty_id,
        depositor: e.depositor,
        remaining_amount: e.remaining_amount,
        deadline: e.deadline,
        status: e.status,
        pending_refund: Some(PendingRefund { amount, mode }),
    }
}

/// What `approve_refund` accepts: a full refund must name the whole remaining
/// amount, a partial one any positive amount within it.
pub open spec fn approve_valid(e: Escrow, amount: i128, mode: RefundMode) -> bool {
    match mode {
        RefundMode::Full => amount == e.remaining_amount,
        RefundMode::Partial => 0 < amount <= e.remaining_amount,
    }
}

/// The amount a refund pays out: the approved amount if an instruction is
/// pending, the whole remaining amount otherwise (deadline-triggered refund).
pub open spec fn refund_amount(e: Escrow) -> int {
    match e.pending_refund {
        Some(p) => p.amount as int,
        None => e.remaining_amount as int,
    }
}

/// Whether the pending instruction (if any) still fits the record, and, when
/// none is pending, whether the deadline has passed.
pub open spec fn refund_payable(e: Escrow, now: u64) -> bool {
    match e.pending_refund {
        Some(p) => 0 < p.amount <= e.remaining_amount,
        None => now >= e.deadline,
    }
}

/// The record after a refund: drained by the paid amount, the instruction
/// consumed, terminal exactly when nothing is left.
pub open spec fn after_refund(e: Escrow) -> Escrow {
    Escrow {
        bounty_id: e.bounty_id,
        depositor: e.depositor,
        remaining_amount: (e.remaining_amount - refund_amount(e)) as i128,
        deadline: e.deadline,
        status: if e.remaining_amount == refund_amount(e) {
            EscrowStatus::Refunded
        } else {
            EscrowStatus::PartiallyRefunded
        },
        pending_refund: None,
    }
}

/// The custody balance not attributable to any live escrow.
pub open spec fn untracked_of(escrows: Seq<Escrow>, contract_balance: int) -> int {
    contract_balance - tracked_sum(escrows)
}

pub proof fn lemma_tracked_sum_nonneg(s: Seq<Escrow>)
    requires
        forall|i: int| 0 <= i < s.len() ==> escrow_wf(#[trigger] s[i]),
    ensures
        tracked_sum(s) >= 0,
    decreases s.len(),
{
    if s.len() > 0 {
        lemma_tracked_sum_nonneg(s.drop_last());
    }
}

pub proof fn lemma_tracked_sum_push(s: Seq<Escrow>, e: Escrow)
    ensures
        tracked_sum(s.push(e)) == tracked_sum(s) + contribution(e),
{
    assert(s.push(e).drop_last() =~= s);
}

pub proof fn lemma_tracked_sum_update(s: Seq<Escrow>, i: int, e: Escrow)
    requires
        0 <= i < s.len(),
    ensures
        tracked_sum(s.update(i, e)) == tracked_sum(s) - contribution(s[i]) + contribution(e),
    decreases s.len(),
{
    let t = s.update(i, e);
    if i == s.len() - 1 {
        assert(t.drop_last() =~= s.drop_last());
        assert(t.last() == e);
    } else {
        assert(t.drop_last() =~= s.drop_last().update(i, e));
        assert(t.last() == s.last());
        lemma_tracked_sum_update(s.drop_last(), i, e);
    }
}

/// Extending a prefix by one record adds exactly that record's contribution.
pub proof fn lemma_tracked_sum_take_step(s: Seq<Escrow>, i: int)
    requires
        0 <= i < s.len(),
    ensures
        tracked_sum(s.take(i + 1)) == tracked_sum(s.take(i)) + contribution(s[i]),
{
    assert(s.take(i + 1).drop_last() =~= s.take(i));
    assert(s.take(i + 1).last() == s[i]);
}

/// On a well-formed ledger, every prefix sum is bounded by the full sum.
pub proof fn lemma_tracked_sum_take_le(s: Seq<Escrow>, i: int)
    requires
        forall|j: int| 0 <= j < s.len() ==> escrow_wf(#[trigger] s[j]),
        0 <= i <= s.len(),
    ensures
        tracked_sum(s.take(i)) <= tracked_sum(s),
    decreases s.len() - i,
{
    if i == s.len() {
        assert(s.take(i) =~= s);
    } else {
        lemma_tracked_sum_take_step(s, i);
        lemma_tracked_sum_take_le(s, i + 1);
    }
}

/// Inserting a fresh bounty identifier keeps the keys unique.
pub proof fn lemma_unique_push(s: Seq<Escrow>, e: Escrow)
    requires
        unique_bounty_ids(s),
        !has_bounty(s, e.bounty_id),
    ensures
        unique_bounty_ids(s.push(e)),
{
    let t = s.push(e);
    assert forall|i: int, j: int|
        0 <= i < t.len() && 0 <= j < t.len() && i != j implies t[i].bounty_id
        != t[j].bounty_id by {
        if i < s.len() && j < s.len() {
        } else if i == s.len() {
            assert(t[j] == s[j]);
            assert(!(0 <= j < s.len() && s[j].bounty_id == e.bounty_id));
        } else {
            assert(t[i] == s[i]);
            assert(!(0 <= i < s.len() && s[i].bounty_id == e.bounty_id));
        }
    }
}

/// Appending a fresh, well-formed record keeps the ledger well formed.
pub proof fn lemma_ledger_wf_push(s: Seq<Escrow>, e: Escrow)
    requires
        ledger_wf(s),
        escrow_wf(e),
        !has_bounty(s, e.bounty_id),
    ensures
        ledger_wf(s.push(e)),
{
    lemma_unique_push(s, e);
    let t = s.push(e);
    assert forall|i: int| 0 <= i < t.len() implies escrow_wf(#[trigger] t[i]) by {
        if i < s.len() {
            assert(t[i] == s[i]);
        } else {
            assert(t[i] == e);
        }
    }
}

/// Replacing a record by a well-formed one under the same key keeps the
/// ledger well formed.
pub proof fn lemma_ledger_wf_update(s: Seq<Escrow>, i: int, e: Escrow)
    requires
        ledger_wf(s),
        0 <= i < s.len(),
        escrow_wf(e),
        e.bounty_id == s[i].bounty_id,
    ensures
        ledger_wf(s.update(i, e)),
{
    lemma_unique_update(s, i, e);
    let t = s.update(i, e);
    assert forall|j: int| 0 <= j < t.len() implies escrow_wf(#[trigger] t[j]) by {
        if j != i {
            assert(t[j] == s[j]);
        }
    }
}

/// With unique keys, any index holding the identifier is the index that
/// `bounty_index` denotes.
pub proof fn lemma_bounty_index_is(s: Seq<Escrow>, i: int)
    requires
        unique_bounty_ids(s),
        0 <= i < s.len(),
    ensures
        has_bounty(s, s[i].bounty_id),
        bounty_index(s, s[i].bounty_id) == i,
        escrow_of(s, s[i].bounty_id) == s[i],
{
    let id = s[i].bounty_id;
    assert(has_bounty(s, id));
    let j = bounty_index(s, id);
    assert(0 <= j < s.len() && s[j].bounty_id == id);
}

/// Updating a record in place, without changing its key, keeps the keys
/// unique and keeps every other record in place.
pub proof fn lemma_unique_update(s: Seq<Escrow>, i: int, e: Escrow)
    requires
        unique_bounty_ids(s),
        0 <= i < s.len(),
        e.bounty_id == s[i].bounty_id,
    ensures
        unique_bounty_ids(s.update(i, e)),
{
    let t = s.update(i, e);
    assert forall|p: int, q: int|
        0 <= p < t.len() && 0 <= q < t.len() && p != q implies t[p].bounty_id
        != t[q].bounty_id by {
        assert(s[p].bounty_id != s[q].bounty_id);
    }
}

} // verus!
