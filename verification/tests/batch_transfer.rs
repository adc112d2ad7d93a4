//! End-to-end tests of the batch-transfer engine: commit and rollback
//! behaviour, allowance resolution, hook vetoes and notifications.

use psp37_batch::engine::BatchTransferEngine;
use psp37_batch::hooks::HookPolicy;
use psp37_batch::{Psp37Error, UNLIMITED_ALLOWANCE, ZERO_ACCOUNT};

const A: u128 = 1;
const B: u128 = 2;
const OPERATOR: u128 = 3;

#[test]
fn two_leg_self_transfer_succeeds() {
    let mut engine = BatchTransferEngine::new();
    engine.balances.increase_balance(A, 1, 100, true);
    engine.balances.increase_balance(A, 2, 10, true);

    let legs = vec![(1u128, 50u128), (2u128, 10u128)];
    let r = engine.batch_transfer(A, B, &legs, &vec![]);

    assert_eq!(r, Ok(()));
    assert_eq!(engine.balances.get_balance(A, 1), 50);
    assert_eq!(engine.balances.get_balance(A, 2), 0);
    assert_eq!(engine.balances.get_balance(B, 1), 50);
    assert_eq!(engine.balances.get_balance(B, 2), 10);

    assert_eq!(engine.events.event_count(), 1);
    let event = &engine.events.log[0];
    assert_eq!(event.operator, A);
    assert_eq!(event.from, A);
    assert_eq!(event.to, B);
    assert_eq!(event.legs, vec![(1u128, 50u128), (2u128, 10u128)]);
}

#[test]
fn insufficient_balance_restores_every_record() {
    let mut engine = BatchTransferEngine::new();
    engine.balances.increase_balance(A, 1, 40, true);
    engine.balances.increase_balance(A, 2, 10, true);

    // Leg one would succeed on its own; leg two's debit never gets a chance
    // to matter because leg one's 50 already exceeds the 40 held.
    let legs = vec![(1u128, 50u128), (2u128, 10u128)];
    let r = engine.batch_transfer(A, B, &legs, &vec![]);

    assert_eq!(r, Err(Psp37Error::InsufficientBalance));
    assert_eq!(engine.balances.get_balance(A, 1), 40);
    assert_eq!(engine.balances.get_balance(A, 2), 10);
    assert_eq!(engine.balances.get_balance(B, 1), 0);
    assert_eq!(engine.balances.get_balance(B, 2), 0);
    assert_eq!(engine.events.event_count(), 0);
}

#[test]
fn failing_second_leg_undoes_the_first() {
    let mut engine = BatchTransferEngine::new();
    engine.balances.increase_balance(A, 1, 50, true);
    engine.balances.increase_balance(A, 2, 5, true);

    // Leg one debits successfully before leg two underflows.
    let legs = vec![(1u128, 50u128), (2u128, 10u128)];
    let r = engine.batch_transfer(A, B, &legs, &vec![]);

    assert_eq!(r, Err(Psp37Error::InsufficientBalance));
    assert_eq!(engine.balances.get_balance(A, 1), 50);
    assert_eq!(engine.balances.get_balance(A, 2), 5);
    assert_eq!(engine.balances.get_balance(B, 1), 0);
    assert_eq!(engine.events.event_count(), 0);
}

#[test]
fn zero_address_batch_fails_without_mutation() {
    let mut engine = BatchTransferEngine::new();
    engine.balances.increase_balance(A, 1, 100, true);

    let legs = vec![(1u128, 10u128)];
    let r = engine.batch_transfer(A, ZERO_ACCOUNT, &legs, &vec![]);

    assert_eq!(r, Err(Psp37Error::TransferToZeroAddress));
    assert_eq!(engine.balances.get_balance(A, 1), 100);
    assert_eq!(engine.events.event_count(), 0);
}

#[test]
fn zero_address_guard_is_per_leg_so_an_empty_batch_passes_it() {
    // The validation pass checks the destination once per leg; a batch with
    // no legs therefore has nothing to reject and commits (vacuously).
    let mut engine = BatchTransferEngine::new();

    let r = engine.batch_transfer(A, ZERO_ACCOUNT, &vec![], &vec![]);

    assert_eq!(r, Ok(()));
    assert_eq!(engine.events.event_count(), 1);
}

#[test]
fn empty_batch_succeeds_and_notifies() {
    let mut engine = BatchTransferEngine::new();

    let r = engine.batch_transfer(A, B, &vec![], &vec![]);

    assert_eq!(r, Ok(()));
    assert_eq!(engine.events.event_count(), 1);
    assert_eq!(engine.events.log[0].legs, vec![]);
}

#[test]
fn operator_with_exact_allowance_succeeds_and_drains_it() {
    let mut engine = BatchTransferEngine::new();
    engine.balances.increase_balance(A, 7, 50, true);
    engine.allowances.set_allowance(A, OPERATOR, Some(7), 50);

    let legs = vec![(7u128, 50u128)];
    let r = engine.batch_transfer_from(OPERATOR, A, B, &legs, &vec![]);

    assert_eq!(r, Ok(()));
    assert_eq!(engine.balances.get_balance(B, 7), 50);
    assert_eq!(engine.allowances.get_allowance(A, OPERATOR, Some(7)), 0);
}

#[test]
fn operator_one_unit_short_is_not_allowed() {
    let mut engine = BatchTransferEngine::new();
    engine.balances.increase_balance(A, 7, 50, true);
    engine.allowances.set_allowance(A, OPERATOR, Some(7), 49);

    let legs = vec![(7u128, 50u128)];
    let r = engine.batch_transfer_from(OPERATOR, A, B, &legs, &vec![]);

    assert_eq!(r, Err(Psp37Error::NotAllowed));
    assert_eq!(engine.balances.get_balance(A, 7), 50);
    assert_eq!(engine.balances.get_balance(B, 7), 0);
    assert_eq!(engine.allowances.get_allowance(A, OPERATOR, Some(7)), 49);
}

#[test]
fn duplicate_legs_drain_the_allowance_cumulatively() {
    let mut engine = BatchTransferEngine::new();
    engine.balances.increase_balance(A, 7, 100, true);
    // One unit less than the two legs need together: each leg alone passes
    // the read-only validation, the running debit fails on the second.
    engine.allowances.set_allowance(A, OPERATOR, Some(7), 99);

    let legs = vec![(7u128, 50u128), (7u128, 50u128)];
    let r = engine.batch_transfer_from(OPERATOR, A, B, &legs, &vec![]);

    assert_eq!(r, Err(Psp37Error::InsufficientAllowance));
    assert_eq!(engine.balances.get_balance(A, 7), 100);
    assert_eq!(engine.balances.get_balance(B, 7), 0);
    assert_eq!(engine.allowances.get_allowance(A, OPERATOR, Some(7)), 99);
    assert_eq!(engine.events.event_count(), 0);
}

#[test]
fn self_transfer_bypasses_allowances_entirely() {
    let mut engine = BatchTransferEngine::new();
    engine.balances.increase_balance(A, 1, 100, true);
    // Even an explicit tiny self-approval is neither consulted nor touched.
    engine.allowances.set_allowance(A, A, Some(1), 5);

    let legs = vec![(1u128, 30u128)];
    let r = engine.batch_transfer(A, B, &legs, &vec![]);

    assert_eq!(r, Ok(()));
    assert_eq!(engine.balances.get_balance(B, 1), 30);
    assert_eq!(engine.allowances.get_allowance(A, A, Some(1)), 5);
}

#[test]
fn blanket_allowance_covers_every_token_id() {
    let mut engine = BatchTransferEngine::new();
    engine.balances.increase_balance(A, 1, 40, true);
    engine.balances.increase_balance(A, 2, 60, true);
    engine.allowances.set_allowance(A, OPERATOR, None, 100);

    let legs = vec![(1u128, 40u128), (2u128, 60u128)];
    let r = engine.batch_transfer_from(OPERATOR, A, B, &legs, &vec![]);

    assert_eq!(r, Ok(()));
    assert_eq!(engine.allowances.get_allowance(A, OPERATOR, None), 0);
    // The id-specific records stayed independent (and absent).
    assert_eq!(engine.allowances.get_allowance(A, OPERATOR, Some(1)), 0);
    assert_eq!(engine.balances.get_balance(B, 1), 40);
    assert_eq!(engine.balances.get_balance(B, 2), 60);
}

#[test]
fn existing_blanket_record_is_the_consulted_one() {
    let mut engine = BatchTransferEngine::new();
    engine.balances.increase_balance(A, 1, 1000, true);
    engine.allowances.set_allowance(A, OPERATOR, None, 10);
    engine.allowances.set_allowance(A, OPERATOR, Some(1), 1000);

    // The blanket record exists, so it is consulted — and 10 < 500.
    let legs = vec![(1u128, 500u128)];
    let r = engine.batch_transfer_from(OPERATOR, A, B, &legs, &vec![]);

    assert_eq!(r, Err(Psp37Error::NotAllowed));
    assert_eq!(engine.allowances.get_allowance(A, OPERATOR, Some(1)), 1000);
    assert_eq!(engine.allowances.get_allowance(A, OPERATOR, None), 10);
}

#[test]
fn unlimited_allowance_is_never_decremented() {
    let mut engine = BatchTransferEngine::new();
    engine.balances.increase_balance(A, 1, 100, true);
    engine.allowances.set_allowance(A, OPERATOR, Some(1), UNLIMITED_ALLOWANCE);

    let legs = vec![(1u128, 40u128)];
    let r = engine.batch_transfer_from(OPERATOR, A, B, &legs, &vec![]);

    assert_eq!(r, Ok(()));
    assert_eq!(engine.balances.get_balance(B, 1), 40);
    assert_eq!(
        engine.allowances.get_allowance(A, OPERATOR, Some(1)),
        UNLIMITED_ALLOWANCE
    );
}

#[test]
fn before_hook_veto_aborts_without_mutation() {
    let mut engine = BatchTransferEngine::new();
    engine.balances.increase_balance(A, 1, 100, true);
    engine.hooks.set_before_policy(HookPolicy::Reject);

    let legs = vec![(1u128, 10u128)];
    let r = engine.batch_transfer(A, B, &legs, &vec![]);

    assert_eq!(r, Err(Psp37Error::HookRejected));
    assert_eq!(engine.balances.get_balance(A, 1), 100);
    assert_eq!(engine.balances.get_balance(B, 1), 0);
    assert_eq!(engine.events.event_count(), 0);
}

#[test]
fn after_hook_veto_rolls_the_credits_back() {
    let mut engine = BatchTransferEngine::new();
    engine.balances.increase_balance(A, 1, 100, true);
    engine.hooks.set_after_policy(HookPolicy::Reject);

    // Debits and credits have all been applied by the time the after hook
    // runs; its veto must still leave no trace.
    let legs = vec![(1u128, 10u128)];
    let r = engine.batch_transfer(A, B, &legs, &vec![]);

    assert_eq!(r, Err(Psp37Error::HookRejected));
    assert_eq!(engine.balances.get_balance(A, 1), 100);
    assert_eq!(engine.balances.get_balance(B, 1), 0);
    assert_eq!(engine.events.event_count(), 0);
}

#[test]
fn rejecting_receiver_blocks_the_batch() {
    let mut engine = BatchTransferEngine::new();
    engine.balances.increase_balance(A, 1, 100, true);
    engine.hooks.register_receiver(B, false);

    let legs = vec![(1u128, 10u128)];
    let r = engine.batch_transfer(A, B, &legs, &vec![]);

    assert_eq!(r, Err(Psp37Error::RecipientRejected));
    assert_eq!(engine.balances.get_balance(A, 1), 100);
    assert_eq!(engine.balances.get_balance(B, 1), 0);
}

#[test]
fn accepting_receiver_lets_the_batch_through() {
    let mut engine = BatchTransferEngine::new();
    engine.balances.increase_balance(A, 1, 100, true);
    engine.hooks.register_receiver(B, true);

    let legs = vec![(1u128, 10u128)];
    let r = engine.batch_transfer(A, B, &legs, &vec![]);

    assert_eq!(r, Ok(()));
    assert_eq!(engine.balances.get_balance(B, 1), 10);
}

#[test]
fn reregistering_a_receiver_overrides_its_verdict() {
    let mut engine = BatchTransferEngine::new();
    engine.balances.increase_balance(A, 1, 100, true);
    engine.hooks.register_receiver(B, false);
    engine.hooks.register_receiver(B, true);

    let legs = vec![(1u128, 10u128)];
    let r = engine.batch_transfer(A, B, &legs, &vec![]);

    assert_eq!(r, Ok(()));
    assert_eq!(engine.balances.get_balance(B, 1), 10);
}

#[test]
fn pure_transfer_conserves_each_token_supply() {
    let mut engine = BatchTransferEngine::new();
    engine.balances.increase_balance(A, 1, 100, true);
    assert_eq!(engine.balances.get_total_supply(1), 100);

    let legs = vec![(1u128, 30u128)];
    let r = engine.batch_transfer(A, B, &legs, &vec![]);

    assert_eq!(r, Ok(()));
    assert_eq!(engine.balances.get_total_supply(1), 100);
    assert_eq!(
        engine.balances.get_balance(A, 1) + engine.balances.get_balance(B, 1),
        100
    );
}

#[test]
fn operator_transfer_forwards_caller_identity_into_the_event() {
    let mut engine = BatchTransferEngine::new();
    engine.balances.increase_balance(A, 1, 100, true);
    engine.allowances.set_allowance(A, OPERATOR, Some(1), 100);

    let legs = vec![(1u128, 25u128)];
    let r = engine.batch_transfer_from(OPERATOR, A, B, &legs, &vec![7, 8, 9]);

    assert_eq!(r, Ok(()));
    assert_eq!(engine.events.event_count(), 1);
    let event = &engine.events.log[0];
    assert_eq!(event.operator, OPERATOR);
    assert_eq!(event.from, A);
    assert_eq!(event.to, B);
    assert_eq!(event.legs, vec![(1u128, 25u128)]);
}
