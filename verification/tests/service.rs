//! Tests of the savings record service. Monetary amounts are integers in
//! minor currency units (one hundredth of the display unit), so the
//! display amount 100.00 is written 10_000 here.

use savings_service::service::RetirementSavingsResponse;
use savings_service::service::SavingsError;
use savings_service::service::SavingsResponse;
use savings_service::service::SavingsStore;
use savings_service::service::UpdateRetirementSavings;
use savings_service::service::UpdateSavings;
use savings_service::service::UpdateSavingsGoal;
use savings_service::service::WealthField;
use savings_service::service::retirement_savings_or_default;

fn seeded_store() -> SavingsStore {
    let mut st = SavingsStore::new();
    assert!(st.add_user(1, 10_000, 50_000, Some(70_000)));
    assert!(st.add_user(2, 1_234, 5_678, None));
    st
}

#[test]
fn get_savings_reads_both_fields() {
    let st = seeded_store();
    assert_eq!(
        st.get_savings(1),
        Ok(SavingsResponse { savings: 10_000, savings_goal: 50_000 })
    );
}

#[test]
fn get_savings_missing_identity_is_storage_error() {
    let st = seeded_store();
    assert_eq!(st.get_savings(9), Err(SavingsError::Storage));
}

#[test]
fn get_savings_on_empty_store_is_storage_error() {
    let st = SavingsStore::new();
    assert_eq!(st.get_savings(1), Err(SavingsError::Storage));
}

#[test]
fn update_savings_then_get_returns_new_value_and_keeps_goal() {
    let mut st = seeded_store();
    assert_eq!(
        st.update_savings(1, UpdateSavings { savings: 7_500 }),
        Ok(SavingsResponse { savings: 7_500, savings_goal: 50_000 })
    );
    assert_eq!(
        st.get_savings(1),
        Ok(SavingsResponse { savings: 7_500, savings_goal: 50_000 })
    );
}

#[test]
fn update_savings_to_zero_is_accepted() {
    let mut st = seeded_store();
    assert_eq!(
        st.update_savings(1, UpdateSavings { savings: 0 }),
        Ok(SavingsResponse { savings: 0, savings_goal: 50_000 })
    );
}

#[test]
fn update_savings_negative_is_rejected_and_state_kept() {
    let mut st = seeded_store();
    assert_eq!(
        st.update_savings(1, UpdateSavings { savings: -1 }),
        Err(SavingsError::Validation(WealthField::Savings))
    );
    assert_eq!(
        st.get_savings(1),
        Ok(SavingsResponse { savings: 10_000, savings_goal: 50_000 })
    );
}

#[test]
fn update_savings_missing_identity_is_storage_error() {
    let mut st = seeded_store();
    assert_eq!(
        st.update_savings(9, UpdateSavings { savings: 100 }),
        Err(SavingsError::Storage)
    );
}

#[test]
fn update_goal_then_get_returns_new_goal_and_keeps_savings() {
    let mut st = seeded_store();
    assert_eq!(
        st.update_savings_goal(1, UpdateSavingsGoal { savings_goal: 99_000 }),
        Ok(SavingsResponse { savings: 10_000, savings_goal: 99_000 })
    );
    assert_eq!(
        st.get_savings(1),
        Ok(SavingsResponse { savings: 10_000, savings_goal: 99_000 })
    );
}

#[test]
fn update_goal_negative_is_rejected_and_state_kept() {
    let mut st = seeded_store();
    assert_eq!(
        st.update_savings_goal(1, UpdateSavingsGoal { savings_goal: -500 }),
        Err(SavingsError::Validation(WealthField::SavingsGoal))
    );
    assert_eq!(
        st.get_savings(1),
        Ok(SavingsResponse { savings: 10_000, savings_goal: 50_000 })
    );
}

#[test]
fn updates_leave_other_identities_untouched() {
    let mut st = seeded_store();
    st.update_savings(1, UpdateSavings { savings: 1 }).unwrap();
    st.update_savings_goal(1, UpdateSavingsGoal { savings_goal: 2 }).unwrap();
    st.update_retirement_savings(1, UpdateRetirementSavings { retirement_savings: 3 }).unwrap();
    assert_eq!(
        st.get_savings(2),
        Ok(SavingsResponse { savings: 1_234, savings_goal: 5_678 })
    );
    assert_eq!(
        st.get_retirement_savings(2),
        RetirementSavingsResponse { retirement_savings: 0 }
    );
}

#[test]
fn savings_scenario_two_updates_then_get() {
    let mut st = SavingsStore::new();
    assert!(st.add_user(7, 10_000, 50_000, None));
    assert_eq!(
        st.update_savings(7, UpdateSavings { savings: 25_000 }),
        Ok(SavingsResponse { savings: 25_000, savings_goal: 50_000 })
    );
    assert_eq!(
        st.update_savings_goal(7, UpdateSavingsGoal { savings_goal: 100_000 }),
        Ok(SavingsResponse { savings: 25_000, savings_goal: 100_000 })
    );
    assert_eq!(
        st.get_savings(7),
        Ok(SavingsResponse { savings: 25_000, savings_goal: 100_000 })
    );
}

#[test]
fn get_retirement_reads_stored_value() {
    let st = seeded_store();
    assert_eq!(
        st.get_retirement_savings(1),
        RetirementSavingsResponse { retirement_savings: 70_000 }
    );
}

#[test]
fn get_retirement_defaults_to_zero_without_stored_value() {
    let st = seeded_store();
    assert_eq!(
        st.get_retirement_savings(2),
        RetirementSavingsResponse { retirement_savings: 0 }
    );
}

#[test]
fn get_retirement_defaults_to_zero_for_missing_identity() {
    let st = seeded_store();
    assert_eq!(
        st.get_retirement_savings(9),
        RetirementSavingsResponse { retirement_savings: 0 }
    );
}

#[test]
fn strict_retirement_read_fails_without_stored_value() {
    let st = seeded_store();
    assert_eq!(st.read_retirement_savings(1), Ok(70_000));
    assert_eq!(st.read_retirement_savings(2), Err(SavingsError::Storage));
    assert_eq!(st.read_retirement_savings(9), Err(SavingsError::Storage));
}

#[test]
fn fallback_converts_any_failed_read_to_zero() {
    assert_eq!(retirement_savings_or_default(Ok(4_200)), 4_200);
    assert_eq!(retirement_savings_or_default(Err(SavingsError::Storage)), 0);
    assert_eq!(
        retirement_savings_or_default(Err(SavingsError::Validation(WealthField::Savings))),
        0
    );
}

#[test]
fn update_retirement_then_get_returns_exact_value() {
    let mut st = seeded_store();
    assert_eq!(
        st.update_retirement_savings(2, UpdateRetirementSavings { retirement_savings: 31_415 }),
        Ok(RetirementSavingsResponse { retirement_savings: 31_415 })
    );
    assert_eq!(
        st.get_retirement_savings(2),
        RetirementSavingsResponse { retirement_savings: 31_415 }
    );
}

#[test]
fn retirement_scenario_negative_rejected_then_value_kept() {
    let mut st = seeded_store();
    assert_eq!(
        st.update_retirement_savings(1, UpdateRetirementSavings { retirement_savings: -500 }),
        Err(SavingsError::Validation(WealthField::RetirementSavings))
    );
    assert_eq!(
        st.get_retirement_savings(1),
        RetirementSavingsResponse { retirement_savings: 70_000 }
    );
    let mut empty = SavingsStore::new();
    assert_eq!(
        empty.update_retirement_savings(1, UpdateRetirementSavings { retirement_savings: -500 }),
        Err(SavingsError::Validation(WealthField::RetirementSavings))
    );
    assert_eq!(
        empty.get_retirement_savings(1),
        RetirementSavingsResponse { retirement_savings: 0 }
    );
}

#[test]
fn update_retirement_missing_identity_echoes_but_stores_nothing() {
    let mut st = seeded_store();
    assert_eq!(
        st.update_retirement_savings(9, UpdateRetirementSavings { retirement_savings: 5 }),
        Ok(RetirementSavingsResponse { retirement_savings: 5 })
    );
    assert_eq!(
        st.get_retirement_savings(9),
        RetirementSavingsResponse { retirement_savings: 0 }
    );
}

#[test]
fn add_user_rejects_duplicate_id_and_negative_amounts() {
    let mut st = seeded_store();
    assert!(!st.add_user(1, 0, 0, None));
    assert!(!st.add_user(3, -1, 0, None));
    assert!(!st.add_user(3, 0, -1, None));
    assert!(!st.add_user(3, 0, 0, Some(-1)));
    assert!(st.add_user(3, 0, 0, Some(0)));
    assert_eq!(
        st.get_savings(3),
        Ok(SavingsResponse { savings: 0, savings_goal: 0 })
    );
}
