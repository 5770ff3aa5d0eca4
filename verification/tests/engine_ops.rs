//! Tests of the escrow state machine itself: initialization, locking,
//! release, refund approval and execution, terminality, and the exact error
//! for each rejected input.

use bounty_escrow::Address;
use bounty_escrow::BountyEscrow;
use bounty_escrow::Config;
use bounty_escrow::Error;
use bounty_escrow::Escrow;
use bounty_escrow::EscrowStatus;
use bounty_escrow::PendingRefund;
use bounty_escrow::RefundMode;

fn addr(id: u64) -> Address {
    Address { id }
}

fn engine() -> BountyEscrow {
    let mut e = BountyEscrow::new();
    e.init(addr(1), addr(9)).unwrap();
    e
}

#[test]
fn init_twice_fails_already_initialized() {
    let mut e = BountyEscrow::new();
    assert_eq!(e.init(addr(1), addr(9)), Ok(()));
    assert_eq!(e.init(addr(1), addr(9)), Err(Error::AlreadyInitialized));
    assert_eq!(e.get_admin(), Some(addr(1)));
    assert_eq!(e.get_token(), Some(addr(9)));
}

#[test]
fn lock_rejects_bad_inputs() {
    let mut e = engine();
    assert_eq!(
        e.lock_funds(addr(2), 1, 0, 1000, 0),
        Err(Error::InvalidAmount)
    );
    assert_eq!(
        e.lock_funds(addr(2), 1, -5, 1000, 0),
        Err(Error::InvalidAmount)
    );
    assert_eq!(
        e.lock_funds(addr(2), 1, 100, 50, 50),
        Err(Error::InvalidDeadline)
    );
    assert_eq!(e.lock_funds(addr(2), 1, 100, 1000, 0), Ok(()));
    assert_eq!(
        e.lock_funds(addr(2), 1, 200, 2000, 0),
        Err(Error::DuplicateBounty)
    );
    let info = e.get_escrow_info(1).unwrap();
    assert_eq!(info.remaining_amount, 100);
    assert_eq!(info.status, EscrowStatus::Locked);
    assert_eq!(info.depositor, addr(2));
    assert_eq!(info.deadline, 1000);
    assert_eq!(info.pending_refund, None);
}

#[test]
fn get_escrow_info_unknown_fails_not_found() {
    let e = engine();
    assert_eq!(e.get_escrow_info(7), Err(Error::EscrowNotFound));
}

#[test]
fn release_unknown_fails_not_found() {
    let mut e = engine();
    assert_eq!(e.release_funds(7, addr(3)), Err(Error::EscrowNotFound));
    assert_eq!(e.partial_release(7, addr(3), 10), Err(Error::EscrowNotFound));
    assert_eq!(e.refund(7, 0), Err(Error::EscrowNotFound));
    assert_eq!(
        e.approve_refund(7, 10, addr(2), RefundMode::Partial),
        Err(Error::EscrowNotFound)
    );
}

#[test]
fn release_is_terminal() {
    let mut e = engine();
    e.lock_funds(addr(2), 1, 500, 1000, 0).unwrap();
    assert_eq!(e.release_funds(1, addr(3)), Ok(500));
    let info = e.get_escrow_info(1).unwrap();
    assert_eq!(info.remaining_amount, 0);
    assert_eq!(info.status, EscrowStatus::Released);

    // Terminal: every further release or refund fails and changes nothing.
    assert_eq!(e.release_funds(1, addr(3)), Err(Error::EscrowNotActive));
    assert_eq!(e.partial_release(1, addr(3), 1), Err(Error::EscrowNotActive));
    assert_eq!(e.refund(1, 2000), Err(Error::EscrowNotActive));
    assert_eq!(e.get_escrow_info(1).unwrap(), info);
}

#[test]
fn refund_is_terminal() {
    let mut e = engine();
    e.lock_funds(addr(2), 1, 500, 1000, 0).unwrap();
    assert_eq!(e.refund(1, 1000), Ok(500));
    let info = e.get_escrow_info(1).unwrap();
    assert_eq!(info.remaining_amount, 0);
    assert_eq!(info.status, EscrowStatus::Refunded);

    assert_eq!(e.refund(1, 2000), Err(Error::EscrowNotActive));
    assert_eq!(e.release_funds(1, addr(3)), Err(Error::EscrowNotActive));
    assert_eq!(e.get_escrow_info(1).unwrap(), info);
}

#[test]
fn partial_release_rejects_out_of_range_amounts() {
    let mut e = engine();
    e.lock_funds(addr(2), 1, 500, 1000, 0).unwrap();
    assert_eq!(e.partial_release(1, addr(3), 0), Err(Error::InvalidAmount));
    assert_eq!(e.partial_release(1, addr(3), -1), Err(Error::InvalidAmount));
    assert_eq!(e.partial_release(1, addr(3), 501), Err(Error::InvalidAmount));
    let info = e.get_escrow_info(1).unwrap();
    assert_eq!(info.remaining_amount, 500);
    assert_eq!(info.status, EscrowStatus::Locked);
}

#[test]
fn partial_releases_drain_to_released() {
    let mut e = engine();
    e.lock_funds(addr(2), 1, 10000, 1000, 0).unwrap();
    for _ in 0..4 {
        e.partial_release(1, addr(3), 2500).unwrap();
    }
    let info = e.get_escrow_info(1).unwrap();
    assert_eq!(info.remaining_amount, 0);
    assert_eq!(info.status, EscrowStatus::Released);
    assert_eq!(e.partial_release(1, addr(3), 1), Err(Error::EscrowNotActive));
}

#[test]
fn partial_release_leaves_partially_released() {
    let mut e = engine();
    e.lock_funds(addr(2), 1, 10000, 1000, 0).unwrap();
    e.partial_release(1, addr(3), 6000).unwrap();
    let info = e.get_escrow_info(1).unwrap();
    assert_eq!(info.remaining_amount, 4000);
    assert_eq!(info.status, EscrowStatus::PartiallyReleased);
    // The rest can still be released in full.
    assert_eq!(e.release_funds(1, addr(3)), Ok(4000));
    assert_eq!(
        e.get_escrow_info(1).unwrap().status,
        EscrowStatus::Released
    );
}

#[test]
fn approve_refund_validates_amount_against_mode() {
    let mut e = engine();
    e.lock_funds(addr(2), 1, 500, 1000, 0).unwrap();
    // Full must name the whole remaining amount.
    assert_eq!(
        e.approve_refund(1, 499, addr(2), RefundMode::Full),
        Err(Error::InvalidAmount)
    );
    // Partial must be positive and within the remaining amount.
    assert_eq!(
        e.approve_refund(1, 0, addr(2), RefundMode::Partial),
        Err(Error::InvalidAmount)
    );
    assert_eq!(
        e.approve_refund(1, 501, addr(2), RefundMode::Partial),
        Err(Error::InvalidAmount)
    );
    assert_eq!(
        e.approve_refund(1, 200, addr(2), RefundMode::Partial),
        Ok(())
    );
    let info = e.get_escrow_info(1).unwrap();
    assert_eq!(
        info.pending_refund,
        Some(PendingRefund { amount: 200, mode: RefundMode::Partial })
    );
    // Approving does not move funds or change the tracked state.
    assert_eq!(info.remaining_amount, 500);
    assert_eq!(info.status, EscrowStatus::Locked);
}

#[test]
fn refund_without_approval_before_deadline_not_eligible() {
    let mut e = engine();
    e.lock_funds(addr(2), 1, 500, 1000, 0).unwrap();
    assert_eq!(e.refund(1, 999), Err(Error::RefundNotEligible));
    assert_eq!(e.get_escrow_info(1).unwrap().status, EscrowStatus::Locked);
    // At the deadline the full remaining amount becomes refundable.
    assert_eq!(e.refund(1, 1000), Ok(500));
    assert_eq!(e.get_escrow_info(1).unwrap().status, EscrowStatus::Refunded);
}

#[test]
fn approved_full_refund_consumes_pending() {
    let mut e = engine();
    e.lock_funds(addr(2), 1, 500, 1000, 0).unwrap();
    e.approve_refund(1, 500, addr(2), RefundMode::Full).unwrap();
    assert_eq!(e.refund(1, 0), Ok(500));
    let info = e.get_escrow_info(1).unwrap();
    assert_eq!(info.remaining_amount, 0);
    assert_eq!(info.status, EscrowStatus::Refunded);
    assert_eq!(info.pending_refund, None);
}

#[test]
fn approved_partial_refund_consumes_pending() {
    let mut e = engine();
    e.lock_funds(addr(2), 1, 500, 1000, 0).unwrap();
    e.approve_refund(1, 200, addr(2), RefundMode::Partial).unwrap();
    assert_eq!(e.refund(1, 0), Ok(200));
    let info = e.get_escrow_info(1).unwrap();
    assert_eq!(info.remaining_amount, 300);
    assert_eq!(info.status, EscrowStatus::PartiallyRefunded);
    assert_eq!(info.pending_refund, None);
    // The instruction was consumed: a second refund needs a new approval
    // or the deadline.
    assert_eq!(e.refund(1, 0), Err(Error::RefundNotEligible));
}

#[test]
fn stale_pending_refund_exceeding_remaining_fails() {
    let mut e = engine();
    e.lock_funds(addr(2), 1, 500, 1000, 0).unwrap();
    e.approve_refund(1, 400, addr(2), RefundMode::Partial).unwrap();
    // A later partial release leaves less than the approved amount.
    e.partial_release(1, addr(3), 300).unwrap();
    assert_eq!(e.refund(1, 0), Err(Error::InvalidAmount));
    let info = e.get_escrow_info(1).unwrap();
    assert_eq!(info.remaining_amount, 200);
}

#[test]
fn tracked_balance_covers_every_step() {
    // The cover invariant observed across a whole sequence of operations:
    // the untracked balance reported by the view never goes negative.
    let mut e = engine();
    e.set_treasury_address(addr(4));
    let mut contract_balance = 0i128;

    e.lock_funds(addr(2), 1, 4000, 1000, 0).unwrap();
    contract_balance += 4000;
    assert!(e.get_untracked_balance(contract_balance).2 >= 0);

    e.lock_funds(addr(2), 2, 6000, 1000, 0).unwrap();
    contract_balance += 6000;
    assert!(e.get_untracked_balance(contract_balance).2 >= 0);

    contract_balance += 1500; // direct transfer outside the protocol
    assert!(e.get_untracked_balance(contract_balance).2 >= 0);

    contract_balance -= e.release_funds(1, addr(3)).unwrap();
    assert!(e.get_untracked_balance(contract_balance).2 >= 0);

    e.approve_refund(2, 2500, addr(2), RefundMode::Partial).unwrap();
    contract_balance -= e.refund(2, 0).unwrap();
    assert!(e.get_untracked_balance(contract_balance).2 >= 0);

    e.rescue_untracked_tokens(1500, contract_balance).unwrap();
    contract_balance -= 1500;
    let (cb, tracked_balance, untracked_balance) = e.get_untracked_balance(contract_balance);
    assert_eq!(cb, contract_balance);
    assert_eq!(tracked_balance, 3500);
    assert_eq!(untracked_balance, 0);
}

#[test]
fn rescue_scenario_from_partial_release() {
    // Lock 10000, release 6000: remaining 4000, PartiallyReleased. A direct
    // 3000 deposit is untracked; rescuing it leaves the escrow untouched.
    let mut e = engine();
    e.set_treasury_address(addr(4));
    let mut contract_balance = 0i128;
    let mut treasury_balance = 0i128;

    e.lock_funds(addr(2), 1, 10000, 1000, 0).unwrap();
    contract_balance += 10000;
    e.partial_release(1, addr(3), 6000).unwrap();
    contract_balance -= 6000;
    let info = e.get_escrow_info(1).unwrap();
    assert_eq!(info.remaining_amount, 4000);
    assert_eq!(info.status, EscrowStatus::PartiallyReleased);

    contract_balance += 3000;
    assert_eq!(
        e.get_untracked_balance(contract_balance),
        (7000, 4000, 3000)
    );

    e.rescue_untracked_tokens(3000, contract_balance).unwrap();
    contract_balance -= 3000;
    treasury_balance += 3000;
    assert_eq!(e.get_escrow_info(1).unwrap(), info);
    assert_eq!(treasury_balance, 3000);
    assert_eq!(contract_balance, 4000);
}

#[test]
fn rescue_of_one_more_than_untracked_fails() {
    let mut e = engine();
    e.set_treasury_address(addr(4));
    let contract_balance = 5000i128;
    let untracked = e.get_untracked_balance(contract_balance).2;
    assert_eq!(
        e.rescue_untracked_tokens(untracked + 1, contract_balance),
        Err(Error::InvalidAmount)
    );
}

#[test]
fn rescue_with_no_untracked_balance_fails() {
    let mut e = engine();
    e.set_treasury_address(addr(4));
    let mut contract_balance = 0i128;
    e.lock_funds(addr(2), 1, 700, 1000, 0).unwrap();
    contract_balance += 700;
    assert_eq!(
        e.rescue_untracked_tokens(100, contract_balance),
        Err(Error::NoUntrackedBalance)
    );
}

#[test]
fn from_parts_round_trips_stored_state() {
    let mut e = engine();
    e.set_treasury_address(addr(4));
    e.lock_funds(addr(2), 1, 500, 1000, 0).unwrap();
    e.lock_funds(addr(2), 2, 800, 1000, 0).unwrap();
    e.partial_release(1, addr(3), 200).unwrap();

    let records = e.records().clone();
    let rebuilt = BountyEscrow::from_parts(
        Some(Config { admin: addr(1), token: addr(9) }),
        records,
        Some(addr(4)),
    )
    .unwrap();
    assert_eq!(rebuilt.get_escrow_info(1), e.get_escrow_info(1));
    assert_eq!(rebuilt.get_escrow_info(2), e.get_escrow_info(2));
    assert_eq!(rebuilt.get_treasury_address(), Some(addr(4)));
    assert_eq!(rebuilt.get_untracked_balance(1100), (1100, 1100, 0));
}

#[test]
fn from_parts_rejects_malformed_ledgers() {
    let good = Escrow {
        bounty_id: 1,
        depositor: addr(2),
        remaining_amount: 500,
        deadline: 1000,
        status: EscrowStatus::Locked,
        pending_refund: None,
    };
    // A terminal record must have nothing remaining.
    let drained_but_released = Escrow {
        remaining_amount: 300,
        status: EscrowStatus::Released,
        ..good
    };
    assert!(BountyEscrow::from_parts(None, vec![drained_but_released], None).is_none());
    // An active record must have something remaining.
    let empty_but_locked = Escrow { remaining_amount: 0, ..good };
    assert!(BountyEscrow::from_parts(None, vec![empty_but_locked], None).is_none());
    // The remaining amount is never negative.
    let negative = Escrow { remaining_amount: -1, ..good };
    assert!(BountyEscrow::from_parts(None, vec![negative], None).is_none());
    // Bounty identifiers are unique keys.
    let twin = Escrow { remaining_amount: 700, ..good };
    assert!(BountyEscrow::from_parts(None, vec![good, twin], None).is_none());
    // The well-formed record alone is accepted.
    assert!(BountyEscrow::from_parts(None, vec![good], None).is_some());
}

#[test]
fn rescue_without_treasury_fails_first() {
    let mut e = engine();
    assert_eq!(
        e.rescue_untracked_tokens(1, 100),
        Err(Error::FeeRecipientNotSet)
    );
}
