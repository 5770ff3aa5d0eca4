//! The escrow engine: the ledger, the treasury address, and the operations
//! that drive escrow records through their lifecycle.
//!
//! Every mutating operation validates fully before it mutates, so a failure
//! leaves the engine exactly as it was. Operations that move value return the
//! amount the host must transfer; the engine itself never touches tokens.

use vstd::prelude::*;

use crate::model::after_approve;
use crate::model::after_partial_release;
use crate::model::after_refund;
use crate::model::after_release;
use crate::model::approve_valid;
use crate::model::bounty_index;
use crate::model::escrow_of;
use crate::model::escrow_wf;
use crate::model::has_bounty;
use crate::model::is_active_status;
use crate::model::ledger_wf;
use crate::model::lemma_bounty_index_is;
use crate::model::lemma_ledger_wf_push;
use crate::model::lemma_ledger_wf_update;
use crate::model::lemma_tracked_sum_nonneg;
use crate::model::lemma_tracked_sum_push;
use crate::model::lemma_tracked_sum_take_le;
use crate::model::lemma_tracked_sum_take_step;
use crate::model::lemma_tracked_sum_update;
use crate::model::locked_escrow;
use crate::model::refund_amount;
use crate::model::refund_payable;
use crate::model::tracked_sum;
use crate::model::unique_bounty_ids;
use crate::model::untracked_of;
use crate::model::Address;
use crate::model::Config;
use crate::model::Error;
use crate::model::Escrow;
use crate::model::EscrowStatus;
use crate::model::PendingRefund;
use crate::model::RefundMode;

verus! {

/// The abstract state of the engine, as the contracts speak of it.
pub struct StateView {
    pub config: Option<Config>,
    pub escrows: Seq<Escrow>,
    pub treasury: Option<Address>,
}

/// The escrow engine.
pub struct BountyEscrow {
    config: Option<Config>,
    escrows: Vec<Escrow>,
    treasury: Option<Address>,
}

impl View for BountyEscrow {
    type V = StateView;

    closed spec fn view(&self) -> StateView {
        StateView { config: self.config, escrows: self.escrows@, treasury: self.treasury }
    }
}

impl BountyEscrow {
    /// The engine's invariant: a well-formed ledger.
    pub open spec fn wf(self) -> bool {
        ledger_wf(self@.escrows)
    }

    /// Whether `init` has stored the admin and token identities.
    pub open spec fn is_init(self) -> bool {
        self@.config is Some
    }

    /// A fresh engine: uninitialized, empty ledger, no treasury.
    pub fn new() -> (r: BountyEscrow)
        ensures
            r.wf(),
            r@.config is None,
            r@.escrows == Seq::<Escrow>::empty(),
            r@.treasury is None,
    {
        let r = BountyEscrow { config: None, escrows: Vec::new(), treasury: None };
        proof {
            assert(r@.escrows =~= Seq::<Escrow>::empty());
        }
        r
    }

    /// Rebuilds an engine from stored parts, as a persistent host hands them
    /// back, validating the ledger invariant: `None` exactly when some record
    /// is malformed or a bounty identifier repeats.
    pub fn from_parts(
        config: Option<Config>,
        escrows: Vec<Escrow>,
        treasury: Option<Address>,
    ) -> (r: Option<BountyEscrow>)
        ensures
            r is Some <==> ledger_wf(escrows@),
            match r {
                Some(b) => b@ == (StateView { config, escrows: escrows@, treasury }) && b.wf(),
                None => true,
            },
    {
        let ghost s = escrows@;
        let n = escrows.len();
        let mut k: usize = 0;
        while k < n
            invariant
                n == s.len(),
                s == escrows@,
                k <= n,
                forall|p: int| 0 <= p < k ==> escrow_wf(#[trigger] s[p]),
                forall|p: int, q: int| 0 <= p < q < k ==> s[p].bounty_id != s[q].bounty_id,
            decreases n - k,
        {
            let e = escrows[k];
            let wf_here = e.remaining_amount >= 0 && ((e.remaining_amount == 0)
                == !status_active(e.status));
            if !wf_here {
                assert(!escrow_wf(s[k as int]));
                return None;
            }
            let mut j: usize = 0;
            while j < k
                invariant
                    n == s.len(),
                    s == escrows@,
                    j <= k < n,
                    e == s[k as int],
                    forall|p: int| 0 <= p < j ==> s[p].bounty_id != s[k as int].bounty_id,
                decreases k - j,
            {
                if escrows[j].bounty_id == e.bounty_id {
                    assert(s[j as int].bounty_id == s[k as int].bounty_id);
                    assert(!unique_bounty_ids(s));
                    return None;
                }
                j += 1;
            }
            k += 1;
        }
        proof {
            assert forall|i: int, j: int|
                0 <= i < s.len() && 0 <= j < s.len() && i != j implies s[i].bounty_id
                != s[j].bounty_id by {
                if i < j {
                    assert(s[i].bounty_id != s[j].bounty_id);
                } else {
                    assert(s[j].bounty_id != s[i].bounty_id);
                }
            }
        }
        Some(BountyEscrow { config, escrows, treasury })
    }

    /// All records, in insertion order: what a persistent host stores away.
    pub fn records(&self) -> (r: &Vec<Escrow>)
        ensures
            r@ == self@.escrows,
    {
        &self.escrows
    }

    /// Stores the admin and token identities. Succeeds exactly once: a second
    /// call fails `AlreadyInitialized` and changes nothing.
    pub fn init(&mut self, admin: Address, token: Address) -> (result: Result<(), Error>)
        requires
            old(self).wf(),
        ensures
            final(self).wf(),
            result is Ok <==> old(self)@.config is None,
            match result {
                Ok(()) => final(self)@ == (StateView {
                    config: Some(Config { admin, token }),
                    ..old(self)@
                }),
                Err(e) => final(self)@ == old(self)@ && e == Error::AlreadyInitialized,
            },
    {
        if self.config.is_some() {
            return Err(Error::AlreadyInitialized);
        }
        self.config = Some(Config { admin, token });
        Ok(())
    }

    /// The stored admin identity, if initialized.
    pub fn get_admin(&self) -> (r: Option<Address>)
        ensures
            r == match self@.config {
                Some(c) => Some(c.admin),
                None => None::<Address>,
            },
    {
        match self.config {
            Some(c) => Some(c.admin),
            None => None,
        }
    }

    /// The stored token identity, if initialized.
    pub fn get_token(&self) -> (r: Option<Address>)
        ensures
            r == match self@.config {
                Some(c) => Some(c.token),
                None => None::<Address>,
            },
    {
        match self.config {
            Some(c) => Some(c.token),
            None => None,
        }
    }

    /// The stored treasury address, if one was set.
    pub fn get_treasury_address(&self) -> (r: Option<Address>)
        ensures
            r == self@.treasury,
    {
        self.treasury
    }

    /// Overwrites the treasury address unconditionally. Admin authorization
    /// is the host's duty, before the call. No balance is touched.
    pub fn set_treasury_address(&mut self, address: Address)
        requires
            old(self).wf(),
            old(self).is_init(),
        ensures
            final(self).wf(),
            final(self)@ == (StateView { treasury: Some(address), ..old(self)@ }),
    {
        self.treasury = Some(address);
    }

    /// The index of the record filed under `bounty_id`, if any.
    fn find_bounty(&self, bounty_id: u64) -> (r: Option<usize>)
        ensures
            match r {
                Some(i) => 0 <= i < self@.escrows.len() && self@.escrows[i as int].bounty_id
                    == bounty_id,
                None => !has_bounty(self@.escrows, bounty_id),
            },
    {
        let n = self.escrows.len();
        let mut k: usize = 0;
        while k < n
            invariant
                n == self@.escrows.len(),
                k <= n,
                forall|j: int| 0 <= j < k ==> self@.escrows[j].bounty_id != bounty_id,
            decreases n - k,
        {
            if self.escrows[k].bounty_id == bounty_id {
                return Some(k);
            }
            k += 1;
        }
        None
    }

    /// The record filed under `bounty_id`, or `EscrowNotFound`.
    pub fn get_escrow_info(&self, bounty_id: u64) -> (result: Result<Escrow, Error>)
        requires
            self.wf(),
            self.is_init(),
        ensures
            result is Ok <==> has_bounty(self@.escrows, bounty_id),
            match result {
                Ok(e) => e == escrow_of(self@.escrows, bounty_id),
                Err(e) => e == Error::EscrowNotFound,
            },
    {
        match self.find_bounty(bounty_id) {
            Some(k) => {
                proof {
                    lemma_bounty_index_is(self@.escrows, k as int);
                }
                Ok(self.escrows[k])
            },
            None => Err(Error::EscrowNotFound),
        }
    }

    /// Locks `amount` against a fresh `bounty_id`: inserts a `Locked` record
    /// after full validation. On success the host transfers `amount` from the
    /// depositor into custody, so the tracked sum and the custody balance
    /// move together.
    pub fn lock_funds(
        &mut self,
        depositor: Address,
        bounty_id: u64,
        amount: i128,
        deadline: u64,
        now: u64,
    ) -> (result: Result<(), Error>)
        requires
            old(self).wf(),
            old(self).is_init(),
        ensures
            final(self).wf(),
            result is Ok <==> (amount > 0 && deadline > now && !has_bounty(
                old(self)@.escrows,
                bounty_id,
            )),
            match result {
                Ok(()) => {
                    &&& final(self)@ == (StateView {
                        escrows: old(self)@.escrows.push(
                            locked_escrow(depositor, bounty_id, amount, deadline),
                        ),
                        ..old(self)@
                    })
                    &&& tracked_sum(final(self)@.escrows) == tracked_sum(old(self)@.escrows)
                        + amount
                },
                Err(e) => {
                    &&& final(self)@ == old(self)@
                    &&& (e == Error::InvalidAmount <==> amount <= 0)
                    &&& (e == Error::InvalidDeadline <==> (amount > 0 && deadline <= now))
                    &&& (e == Error::DuplicateBounty <==> (amount > 0 && deadline > now
                        && has_bounty(old(self)@.escrows, bounty_id)))
                },
            },
    {
        if amount <= 0 {
            return Err(Error::InvalidAmount);
        }
        if deadline <= now {
            return Err(Error::InvalidDeadline);
        }
        if self.find_bounty(bounty_id).is_some() {
            return Err(Error::DuplicateBounty);
        }
        let e = Escrow {
            bounty_id,
            depositor,
            remaining_amount: amount,
            deadline,
            status: EscrowStatus::Locked,
            pending_refund: None,
        };
        proof {
            lemma_ledger_wf_push(self@.escrows, e);
            lemma_tracked_sum_push(self@.escrows, e);
        }
        self.escrows.push(e);
        Ok(())
    }
    /// Full release: pays the whole remaining amount to the contributor and
    /// closes the record. On success the host transfers the returned amount
    /// from custody to the contributor.
    #[allow(unused_variables)]
    pub fn release_funds(&mut self, bounty_id: u64, contributor: Address) -> (result: Result<
        i128,
        Error,
    >)
        requires
            old(self).wf(),
            old(self).is_init(),
        ensures
            final(self).wf(),
            result is Ok <==> (has_bounty(old(self)@.escrows, bounty_id) && is_active_status(
                escrow_of(old(self)@.escrows, bounty_id).status,
            )),
            match result {
                Ok(paid) => {
                    &&& paid == escrow_of(old(self)@.escrows, bounty_id).remaining_amount
                    &&& paid > 0
                    &&& final(self)@ == (StateView {
                        escrows: old(self)@.escrows.update(
                            bounty_index(old(self)@.escrows, bounty_id),
                            after_release(escrow_of(old(self)@.escrows, bounty_id)),
                        ),
                        ..old(self)@
                    })
                    &&& tracked_sum(final(self)@.escrows) == tracked_sum(old(self)@.escrows)
                        - paid
                },
                Err(e) => {
                    &&& final(self)@ == old(self)@
                    &&& (e == Error::EscrowNotFound <==> !has_bounty(
                        old(self)@.escrows,
                        bounty_id,
                    ))
                    &&& (e == Error::EscrowNotActive <==> (has_bounty(
                        old(self)@.escrows,
                        bounty_id,
                    ) && !is_active_status(escrow_of(old(self)@.escrows, bounty_id).status)))
                },
            },
    {
        let k = match self.find_bounty(bounty_id) {
            Some(k) => k,
            None => {
                return Err(Error::EscrowNotFound);
            },
        };
        proof {
            lemma_bounty_index_is(self@.escrows, k as int);
            assert(escrow_wf(self@.escrows[k as int]));
        }
        let e = self.escrows[k];
        if !status_active(e.status) {
            return Err(Error::EscrowNotActive);
        }
        let paid = e.remaining_amount;
        let new_e = Escrow {
            bounty_id: e.bounty_id,
            depositor: e.depositor,
            remaining_amount: 0,
            deadline: e.deadline,
            status: EscrowStatus::Released,
            pending_refund: e.pending_refund,
        };
        proof {
            assert(new_e == after_release(e));
            lemma_ledger_wf_update(self@.escrows, k as int, new_e);
            lemma_tracked_sum_update(self@.escrows, k as int, new_e);
        }
        self.escrows[k] = new_e;
        Ok(paid)
    }

    /// Partial release: pays `amount` of the remaining amount to the
    /// contributor. The record closes exactly when nothing is left. On
    /// success the host transfers `amount` from custody to the contributor.
    #[allow(unused_variables)]
    pub fn partial_release(
        &mut self,
        bounty_id: u64,
        contributor: Address,
        amount: i128,
    ) -> (result: Result<(), Error>)
        requires
            old(self).wf(),
            old(self).is_init(),
        ensures
            final(self).wf(),
            result is Ok <==> (has_bounty(old(self)@.escrows, bounty_id) && is_active_status(
                escrow_of(old(self)@.escrows, bounty_id).status,
            ) && 0 < amount <= escrow_of(old(self)@.escrows, bounty_id).remaining_amount),
            match result {
                Ok(()) => {
                    &&& final(self)@ == (StateView {
                        escrows: old(self)@.escrows.update(
                            bounty_index(old(self)@.escrows, bounty_id),
                            after_partial_release(
                                escrow_of(old(self)@.escrows, bounty_id),
                                amount,
                            ),
                        ),
                        ..old(self)@
                    })
                    &&& tracked_sum(final(self)@.escrows) == tracked_sum(old(self)@.escrows)
                        - amount
                },
                Err(e) => {
                    &&& final(self)@ == old(self)@
                    &&& (e == Error::EscrowNotFound <==> !has_bounty(
                        old(self)@.escrows,
                        bounty_id,
                    ))
                    &&& (e == Error::EscrowNotActive <==> (has_bounty(
                        old(self)@.escrows,
                        bounty_id,
                    ) && !is_active_status(escrow_of(old(self)@.escrows, bounty_id).status)))
                    &&& (e == Error::InvalidAmount <==> (has_bounty(old(self)@.escrows, bounty_id)
                        && is_active_status(escrow_of(old(self)@.escrows, bounty_id).status) && !(0
                        < amount <= escrow_of(old(self)@.escrows, bounty_id).remaining_amount)))
                },
            },
    {
        let k = match self.find_bounty(bounty_id) {
            Some(k) => k,
            None => {
                return Err(Error::EscrowNotFound);
            },
        };
        proof {
            lemma_bounty_index_is(self@.escrows, k as int);
            assert(escrow_wf(self@.escrows[k as int]));
        }
        let e = self.escrows[k];
        if !status_active(e.status) {
            return Err(Error::EscrowNotActive);
        }
        if amount <= 0 || amount > e.remaining_amount {
            return Err(Error::InvalidAmount);
        }
        let new_rem = e.remaining_amount - amount;
        let new_e = Escrow {
            bounty_id: e.bounty_id,
            depositor: e.depositor,
            remaining_amount: new_rem,
            deadline: e.deadline,
            status: if new_rem == 0 {
                EscrowStatus::Released
            } else {
                EscrowStatus::PartiallyReleased
            },
            pending_refund: e.pending_refund,
        };
        proof {
            assert(new_e == after_partial_release(e, amount));
            lemma_ledger_wf_update(self@.escrows, k as int, new_e);
            lemma_tracked_sum_update(self@.escrows, k as int, new_e);
        }
        self.escrows[k] = new_e;
        Ok(())
    }

    /// Records a refund instruction against the current remaining amount; no
    /// value moves. Admin authorization is the host's duty, before the call.
    #[allow(unused_variables)]
    pub fn approve_refund(
        &mut self,
        bounty_id: u64,
        amount: i128,
        depositor: Address,
        mode: RefundMode,
    ) -> (result: Result<(), Error>)
        requires
            old(self).wf(),
            old(self).is_init(),
        ensures
            final(self).wf(),
            result is Ok <==> (has_bounty(old(self)@.escrows, bounty_id) && approve_valid(
                escrow_of(old(self)@.escrows, bounty_id),
                amount,
                mode,
            )),
            match result {
                Ok(()) => {
                    &&& final(self)@ == (StateView {
                        escrows: old(self)@.escrows.update(
                            bounty_index(old(self)@.escrows, bounty_id),
                            after_approve(escrow_of(old(self)@.escrows, bounty_id), amount, mode),
                        ),
                        ..old(self)@
                    })
                    &&& tracked_sum(final(self)@.escrows) == tracked_sum(old(self)@.escrows)
                },
                Err(e) => {
                    &&& final(self)@ == old(self)@
                    &&& (e == Error::EscrowNotFound <==> !has_bounty(
                        old(self)@.escrows,
                        bounty_id,
                    ))
                    &&& (e == Error::InvalidAmount <==> (has_bounty(old(self)@.escrows, bounty_id)
                        && !approve_valid(escrow_of(old(self)@.escrows, bounty_id), amount, mode)))
                },
            },
    {
        let k = match self.find_bounty(bounty_id) {
            Some(k) => k,
            None => {
                return Err(Error::EscrowNotFound);
            },
        };
        proof {
            lemma_bounty_index_is(self@.escrows, k as int);
        }
        let e = self.escrows[k];
        let valid = match mode {
            RefundMode::Full => amount == e.remaining_amount,
            RefundMode::Partial => 0 < amount && amount <= e.remaining_amount,
        };
        if !valid {
            return Err(Error::InvalidAmount);
        }
        let new_e = Escrow {
            bounty_id: e.bounty_id,
            depositor: e.depositor,
            remaining_amount: e.remaining_amount,
            deadline: e.deadline,
            status: e.status,
            pending_refund: Some(PendingRefund { amount, mode }),
        };
        proof {
            assert(new_e == after_approve(e, amount, mode));
            lemma_ledger_wf_update(self@.escrows, k as int, new_e);
            lemma_tracked_sum_update(self@.escrows, k as int, new_e);
        }
        self.escrows[k] = new_e;
        Ok(())
    }

    /// Executes a refund to the depositor: the approved pending amount if one
    /// is recorded, otherwise — once the deadline has passed — the whole
    /// remaining amount. Consumes the pending instruction. On success the
    /// host transfers the returned amount from custody to the depositor.
    pub fn refund(&mut self, bounty_id: u64, now: u64) -> (result: Result<i128, Error>)
        requires
            old(self).wf(),
            old(self).is_init(),
        ensures
            final(self).wf(),
            result is Ok <==> (has_bounty(old(self)@.escrows, bounty_id) && is_active_status(
                escrow_of(old(self)@.escrows, bounty_id).status,
            ) && refund_payable(escrow_of(old(self)@.escrows, bounty_id), now)),
            match result {
                Ok(paid) => {
                    &&& paid == refund_amount(escrow_of(old(self)@.escrows, bounty_id))
                    &&& paid > 0
                    &&& final(self)@ == (StateView {
                        escrows: old(self)@.escrows.update(
                            bounty_index(old(self)@.escrows, bounty_id),
                            after_refund(escrow_of(old(self)@.escrows, bounty_id)),
                        ),
                        ..old(self)@
                    })
                    &&& tracked_sum(final(self)@.escrows) == tracked_sum(old(self)@.escrows)
                        - paid
                },
                Err(e) => {
                    &&& final(self)@ == old(self)@
                    &&& (e == Error::EscrowNotFound <==> !has_bounty(
                        old(self)@.escrows,
                        bounty_id,
                    ))
                    &&& (e == Error::EscrowNotActive <==> (has_bounty(
                        old(self)@.escrows,
                        bounty_id,
                    ) && !is_active_status(escrow_of(old(self)@.escrows, bounty_id).status)))
                    &&& (e == Error::RefundNotEligible <==> (has_bounty(
                        old(self)@.escrows,
                        bounty_id,
                    ) && is_active_status(escrow_of(old(self)@.escrows, bounty_id).status)
                        && escrow_of(old(self)@.escrows, bounty_id).pending_refund is None && now
                        < escrow_of(old(self)@.escrows, bounty_id).deadline))
                    &&& (e == Error::InvalidAmount <==> (has_bounty(old(self)@.escrows, bounty_id)
                        && is_active_status(escrow_of(old(self)@.escrows, bounty_id).status)
                        && escrow_of(old(self)@.escrows, bounty_id).pending_refund is Some
                        && !refund_payable(escrow_of(old(self)@.escrows, bounty_id), now)))
                },
            },
    {
        let k = match self.find_bounty(bounty_id) {
            Some(k) => k,
            None => {
                return Err(Error::EscrowNotFound);
            },
        };
        proof {
            lemma_bounty_index_is(self@.escrows, k as int);
            assert(escrow_wf(self@.escrows[k as int]));
        }
        let e = self.escrows[k];
        if !status_active(e.status) {
            return Err(Error::EscrowNotActive);
        }
        let paid = match e.pending_refund {
            Some(p) => {
                if p.amount <= 0 || p.amount > e.remaining_amount {
                    return Err(Error::InvalidAmount);
                }
                p.amount
            },
            None => {
                if now < e.deadline {
                    return Err(Error::RefundNotEligible);
                }
                e.remaining_amount
            },
        };
        let new_rem = e.remaining_amount - paid;
        let new_e = Escrow {
            bounty_id: e.bounty_id,
            depositor: e.depositor,
            remaining_amount: new_rem,
            deadline: e.deadline,
            status: if new_rem == 0 {
                EscrowStatus::Refunded
            } else {
                EscrowStatus::PartiallyRefunded
            },
            pending_refund: None,
        };
        proof {
            assert(new_e == after_refund(e));
            lemma_ledger_wf_update(self@.escrows, k as int, new_e);
            lemma_tracked_sum_update(self@.escrows, k as int, new_e);
        }
        self.escrows[k] = new_e;
        Ok(paid)
    }

    /// The tracked balance, if it does not exceed `cap`: the scan over active
    /// records that the rescue path and the balance view rely on. `None`
    /// means the tracked sum exceeds `cap`.
    pub fn tracked_balance_up_to(&self, cap: i128) -> (r: Option<i128>)
        requires
            self.wf(),
        ensures
            match r {
                Some(t) => t == tracked_sum(self@.escrows) && tracked_sum(self@.escrows) <= cap,
                None => tracked_sum(self@.escrows) > cap,
            },
    {
        let ghost s = self@.escrows;
        if cap < 0 {
            proof {
                lemma_tracked_sum_nonneg(s);
            }
            return None;
        }
        let n = self.escrows.len();
        let mut acc: i128 = 0;
        let mut k: usize = 0;
        proof {
            assert(s.take(0) =~= Seq::<Escrow>::empty());
        }
        while k < n
            invariant
                self.wf(),
                s == self@.escrows,
                n == s.len(),
                k <= n,
                acc == tracked_sum(s.take(k as int)),
                0 <= acc <= cap,
            decreases n - k,
        {
            let e = self.escrows[k];
            proof {
                assert(escrow_wf(s[k as int]));
                lemma_tracked_sum_take_step(s, k as int);
            }
            let c: i128 = if status_active(e.status) {
                e.remaining_amount
            } else {
                0
            };
            if c > cap - acc {
                proof {
                    lemma_tracked_sum_take_le(s, k as int + 1);
                }
                return None;
            }
            acc = acc + c;
            k += 1;
        }
        proof {
            assert(s.take(n as int) =~= s);
        }
        Some(acc)
    }

    /// The custody reconciliation view: `(contract_balance, tracked_balance,
    /// untracked_balance)`. The host passes the Token Gateway's current
    /// custody balance; the tracked balance never exceeds it (the cover invariant of
    /// the accounting), so the untracked balance is non-negative. A pure
    /// read: the engine is not touched.
    pub fn get_untracked_balance(&self, contract_balance: i128) -> (r: (i128, i128, i128))
        requires
            self.wf(),
            self.is_init(),
            tracked_sum(self@.escrows) <= contract_balance,
        ensures
            r.0 == contract_balance,
            r.1 == tracked_sum(self@.escrows),
            r.2 == untracked_of(self@.escrows, contract_balance as int),
            r.2 >= 0,
    {
        proof {
            lemma_tracked_sum_nonneg(self@.escrows);
        }
        let tracked_bal = match self.tracked_balance_up_to(contract_balance) {
            Some(t) => t,
            None => vstd::pervasive::unreached(),
        };
        (contract_balance, tracked_bal, contract_balance - tracked_bal)
    }

    /// Validates an administrative rescue of untracked custody funds. On
    /// success the host transfers `amount` from custody to the treasury; the
    /// engine itself is never changed, so no escrow's remaining amount or
    /// status can be touched, and only value outside the tracked sum moves.
    pub fn rescue_untracked_tokens(&mut self, amount: i128, contract_balance: i128) -> (result:
        Result<(), Error>)
        requires
            old(self).wf(),
            old(self).is_init(),
            tracked_sum(old(self)@.escrows) <= contract_balance,
        ensures
            final(self)@ == old(self)@,
            result is Ok <==> (old(self)@.treasury is Some && amount > 0 && amount <= untracked_of(
                old(self)@.escrows,
                contract_balance as int,
            )),
            result is Ok ==> tracked_sum(old(self)@.escrows) <= contract_balance - amount,
            match result {
                Ok(()) => true,
                Err(e) => {
                    &&& (e == Error::FeeRecipientNotSet <==> old(self)@.treasury is None)
                    &&& (e == Error::InvalidAmount <==> (old(self)@.treasury is Some && (amount
                        <= 0 || (untracked_of(old(self)@.escrows, contract_balance as int) > 0
                        && amount > untracked_of(old(self)@.escrows, contract_balance as int)))))
                    &&& (e == Error::NoUntrackedBalance <==> (old(self)@.treasury is Some && amount
                        > 0 && untracked_of(old(self)@.escrows, contract_balance as int) == 0))
                },
            },
    {
        if self.treasury.is_none() {
            return Err(Error::FeeRecipientNotSet);
        }
        if amount <= 0 {
            return Err(Error::InvalidAmount);
        }
        proof {
            lemma_tracked_sum_nonneg(self@.escrows);
        }
        let tracked_bal = match self.tracked_balance_up_to(contract_balance) {
            Some(t) => t,
            None => vstd::pervasive::unreached(),
        };
        let untracked = contract_balance - tracked_bal;
        if amount > untracked {
            if untracked == 0 {
                return Err(Error::NoUntrackedBalance);
            }
            return Err(Error::InvalidAmount);
        }
        Ok(())
    }
}

/// Whether a status is one of the three active states.
fn status_active(s: EscrowStatus) -> (r: bool)
    ensures
        r == is_active_status(s),
{
    matches!(
        s,
        EscrowStatus::Locked | EscrowStatus::PartiallyReleased | EscrowStatus::PartiallyRefunded
    )
}

} // verus!
