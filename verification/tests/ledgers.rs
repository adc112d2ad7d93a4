//! Component-level tests of the two ledgers: mint/burn bookkeeping,
//! independent allowance records and their default-to-zero reads.

use psp37_batch::allowances::AllowanceLedger;
use psp37_batch::balances::BalanceLedger;
use psp37_batch::Psp37Error;

#[test]
fn unset_records_read_as_zero() {
    let balances = BalanceLedger::new();
    assert_eq!(balances.get_balance(1, 1), 0);
    assert_eq!(balances.get_total_supply(1), 0);

    let allowances = AllowanceLedger::new();
    assert_eq!(allowances.get_allowance(1, 2, None), 0);
    assert_eq!(allowances.get_allowance(1, 2, Some(9)), 0);
}

#[test]
fn mint_raises_balance_and_supply_together() {
    let mut balances = BalanceLedger::new();
    balances.increase_balance(1, 5, 70, true);
    balances.increase_balance(2, 5, 30, true);

    assert_eq!(balances.get_balance(1, 5), 70);
    assert_eq!(balances.get_balance(2, 5), 30);
    assert_eq!(balances.get_total_supply(5), 100);
}

#[test]
fn plain_increase_leaves_supply_alone() {
    let mut balances = BalanceLedger::new();
    balances.increase_balance(1, 5, 70, false);

    assert_eq!(balances.get_balance(1, 5), 70);
    assert_eq!(balances.get_total_supply(5), 0);
}

#[test]
fn burn_lowers_balance_and_supply_together() {
    let mut balances = BalanceLedger::new();
    balances.increase_balance(1, 5, 70, true);

    assert_eq!(balances.decrease_balance(1, 5, 30, true), Ok(()));
    assert_eq!(balances.get_balance(1, 5), 40);
    assert_eq!(balances.get_total_supply(5), 40);
}

#[test]
fn decrease_below_balance_fails_without_partial_decrement() {
    let mut balances = BalanceLedger::new();
    balances.increase_balance(1, 5, 20, true);

    assert_eq!(
        balances.decrease_balance(1, 5, 21, false),
        Err(Psp37Error::InsufficientBalance)
    );
    assert_eq!(balances.get_balance(1, 5), 20);
    assert_eq!(balances.get_total_supply(5), 20);
}

#[test]
fn zero_is_a_valid_resting_state() {
    let mut balances = BalanceLedger::new();
    balances.increase_balance(1, 5, 20, true);
    assert_eq!(balances.decrease_balance(1, 5, 20, false), Ok(()));
    assert_eq!(balances.get_balance(1, 5), 0);

    let mut allowances = AllowanceLedger::new();
    allowances.set_allowance(1, 2, Some(5), 20);
    assert_eq!(allowances.decrease_allowance(1, 2, 5, 20), Ok(()));
    assert_eq!(allowances.get_allowance(1, 2, Some(5)), 0);
}

#[test]
fn blanket_and_id_specific_records_are_independent() {
    let mut allowances = AllowanceLedger::new();
    allowances.set_allowance(1, 2, None, 11);
    allowances.set_allowance(1, 2, Some(5), 22);

    assert_eq!(allowances.get_allowance(1, 2, None), 11);
    assert_eq!(allowances.get_allowance(1, 2, Some(5)), 22);
    assert_eq!(allowances.get_allowance(1, 2, Some(6)), 0);
    // The consulted record for any leg of this pair is the blanket one.
    assert_eq!(allowances.effective_allowance(1, 2, 5), 11);
    assert_eq!(allowances.effective_allowance(1, 2, 6), 11);
}

#[test]
fn without_blanket_the_id_specific_record_is_consulted() {
    let mut allowances = AllowanceLedger::new();
    allowances.set_allowance(1, 2, Some(5), 22);

    assert_eq!(allowances.effective_allowance(1, 2, 5), 22);
    assert_eq!(allowances.effective_allowance(1, 2, 6), 0);
}

#[test]
fn decrease_allowance_debits_the_consulted_record() {
    let mut allowances = AllowanceLedger::new();
    allowances.set_allowance(1, 2, None, 100);
    allowances.set_allowance(1, 2, Some(5), 7);

    assert_eq!(allowances.decrease_allowance(1, 2, 5, 60), Ok(()));
    assert_eq!(allowances.get_allowance(1, 2, None), 40);
    assert_eq!(allowances.get_allowance(1, 2, Some(5)), 7);
}

#[test]
fn decrease_allowance_underflow_changes_nothing() {
    let mut allowances = AllowanceLedger::new();
    allowances.set_allowance(1, 2, Some(5), 10);

    assert_eq!(
        allowances.decrease_allowance(1, 2, 5, 11),
        Err(Psp37Error::InsufficientAllowance)
    );
    assert_eq!(allowances.get_allowance(1, 2, Some(5)), 10);
}
