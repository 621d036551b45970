use rift_l1::ledger::operations::{MAX_PARTICIPANTS, NEG_E};
use rift_l1::{Account, CoreState};

fn state(field: i128, base: i128, supply: u128, minted: u128, burned: u128, p: u64, dust: u128) -> CoreState {
    CoreState {
        global_field: field,
        total_base_sum: base,
        total_supply: supply,
        total_minted: minted,
        total_burned: burned,
        participants_count: p,
        dust_accumulator: dust,
        paused: false,
    }
}

fn same(a: &CoreState, b: &CoreState) -> bool {
    a.global_field == b.global_field
        && a.total_base_sum == b.total_base_sum
        && a.total_supply == b.total_supply
        && a.total_minted == b.total_minted
        && a.total_burned == b.total_burned
        && a.participants_count == b.participants_count
        && a.dust_accumulator == b.dust_accumulator
        && a.paused == b.paused
}

fn err_text(r: Result<(), rift_l1::InvariantError>) -> String {
    match r {
        Ok(()) => panic!("expected an error"),
        Err(e) => e.0,
    }
}

#[test]
fn new_state_is_empty_and_valid() {
    let s = CoreState::new();
    assert!(same(&s, &state(0, 0, 0, 0, 0, 0, 0)));
    assert!(s.check_invariant().is_ok());
}

#[test]
fn fingerprint_values() {
    assert_eq!(CoreState::new().fingerprint(), 0);
    let s = state(1, 2, 3, 0, 0, 4, 5);
    assert_eq!(s.fingerprint(), 31810);
    assert_eq!(s.fingerprint_with_dust(), 986115);
    let t = state(-1, 0, 0, 0, 0, 0, 0);
    assert_eq!(t.fingerprint(), 18446744073709521825);
}

#[test]
fn check_reports_field_overflow() {
    let s = state(i128::MAX, 0, 0, 0, 0, 2, 0);
    assert_eq!(err_text(s.check_invariant()), "overflow: field_contrib");
}

#[test]
fn check_reports_expected_overflow() {
    let s = state(1, i128::MAX, 0, 0, 0, 1, 0);
    assert_eq!(err_text(s.check_invariant()), "overflow: expected");
}

#[test]
fn check_reports_supply_mismatch() {
    let s = state(0, 0, 5, 5, 0, 0, 0);
    assert_eq!(
        err_text(s.check_invariant()),
        "SIRM invariant violated: supply(5) != base_sum(0) + field(0) * p(0) = 0"
    );
    let t = state(0, -7, 0, 0, 0, 0, 0);
    assert_eq!(
        err_text(t.check_invariant()),
        "SIRM invariant violated: supply(0) != base_sum(-7) + field(0) * p(0) = -7"
    );
}

#[test]
fn check_reports_minted_below_burned() {
    let s = state(0, 0, 0, 1, 2, 0, 0);
    assert_eq!(err_text(s.check_invariant()), "minted(1) < burned(2)");
}

#[test]
fn check_reports_net_supply() {
    let s = state(0, 0, 0, 5, 2, 0, 0);
    assert_eq!(err_text(s.check_invariant()), "supply(0) != minted-burned(3)");
}

#[test]
fn check_reports_dust() {
    let s = state(0, 0, 0, 0, 0, 2, 2);
    assert_eq!(err_text(s.check_invariant()), "dust(2) >= participants(2)");
}

#[test]
fn check_reports_supply_above_i128() {
    let big = 1u128 << 127;
    let s = state(0, i128::MIN, big, big, 0, 0, 0);
    assert_eq!(err_text(s.check_invariant()), "total_supply exceeds i128::MAX");
}

#[test]
fn debt_limit_values() {
    assert_eq!(CoreState::new().debt_limit().unwrap(), -1);
    let s = state(0, 100, 100, 100, 0, 3, 0);
    assert_eq!(s.debt_limit().unwrap(), -3);
}

#[test]
fn register_adds_participant_with_zero_effective_balance() {
    let mut s = state(5, -5, 0, 0, 0, 1, 0);
    s.register().unwrap();
    assert!(same(&s, &state(5, -10, 0, 0, 0, 2, 0)));
    // the newcomer's base balance is -5, its effective balance 0
    assert_eq!(s.total_supply, 0);
}

#[test]
fn register_ignored_at_capacity() {
    let mut s = state(0, 0, 0, 0, 0, MAX_PARTICIPANTS, 0);
    s.register().unwrap();
    assert_eq!(s.participants_count, MAX_PARTICIPANTS);
}

#[test]
fn register_overflow_leaves_state() {
    let mut s = state(1, i128::MIN, 0, 0, 0, 0, 0);
    let before = s.clone();
    assert_eq!(err_text(s.register()), "overflow: total_base_sum (register)");
    assert!(same(&s, &before));
}

#[test]
fn register_refused_by_check_is_atomic() {
    let mut s = state(0, 0, 0, 0, 0, 0, 3);
    let before = s.clone();
    assert_eq!(err_text(s.register()), "dust(3) >= participants(1)");
    assert!(same(&s, &before));
}

fn two_participants_after_reward() -> CoreState {
    let mut s = CoreState::new();
    s.register().unwrap();
    s.register().unwrap();
    s.redistribute(100).unwrap();
    s
}

#[test]
fn redistribute_shares_equally() {
    let s = two_participants_after_reward();
    assert!(same(&s, &state(50, 0, 100, 100, 0, 2, 0)));
}

#[test]
fn redistribute_keeps_remainder_as_dust() {
    let mut s = CoreState::new();
    for _ in 0..3 {
        s.register().unwrap();
    }
    s.redistribute(10).unwrap();
    assert!(same(&s, &state(3, 0, 9, 9, 0, 3, 1)));
    s.redistribute(2).unwrap();
    assert!(same(&s, &state(4, 0, 12, 12, 0, 3, 0)));
    // nothing is lost: 10 + 2 = 12 distributed, no dust left
}

#[test]
fn redistribute_skipped_when_paused_or_empty() {
    let mut s = CoreState::new();
    s.redistribute(10).unwrap();
    assert!(same(&s, &CoreState::new()));
    s.register().unwrap();
    s.paused = true;
    s.redistribute(10).unwrap();
    assert_eq!(s.global_field, 0);
}

#[test]
fn redistribute_overflow_leaves_state() {
    let mut s = state(i128::MAX - 1, 0, 0, 0, 0, 1, 0);
    let before = s.clone();
    assert_eq!(err_text(s.redistribute(5)), "overflow: global_field (redistribute)");
    assert!(same(&s, &before));
}

#[test]
fn unregister_without_participants() {
    let mut s = CoreState::new();
    assert_eq!(s.unregister(0).unwrap(), false);
}

#[test]
fn unregister_blocked_on_negative_effective_balance() {
    let mut s = state(-10, 10, 0, 0, 0, 1, 0);
    let before = s.clone();
    assert_eq!(s.unregister(5).unwrap(), false);
    assert!(same(&s, &before));
}

#[test]
fn unregister_burns_positive_base_balance() {
    let mut s = two_participants_after_reward();
    assert_eq!(s.unregister(30).unwrap(), true);
    assert!(same(&s, &state(50, 20, 70, 100, 30, 1, 0)));
}

#[test]
fn unregister_zero_base_balance_keeps_supply() {
    let mut s = two_participants_after_reward();
    assert_eq!(s.unregister(0).unwrap(), true);
    assert!(same(&s, &state(50, 50, 100, 100, 0, 1, 0)));
}

#[test]
fn unregister_mints_negative_base_balance() {
    let mut s = two_participants_after_reward();
    assert_eq!(s.unregister(-10).unwrap(), true);
    assert!(same(&s, &state(50, 60, 110, 110, 0, 1, 0)));
}

#[test]
fn unregister_refused_when_supply_too_small() {
    let mut s = two_participants_after_reward();
    let before = s.clone();
    assert_eq!(s.unregister(200).unwrap(), false);
    assert!(same(&s, &before));
}

#[test]
fn unregister_normalises_dust() {
    let mut s = CoreState::new();
    for _ in 0..3 {
        s.register().unwrap();
    }
    s.redistribute(5).unwrap();
    assert_eq!(s.dust_accumulator, 2);
    assert_eq!(s.unregister(0).unwrap(), true);
    assert!(same(&s, &state(1, 1, 3, 3, 0, 2, 0)));
    assert!(s.check_invariant().is_ok());
}

#[test]
fn unregister_last_participant_clears_dust() {
    let mut s = CoreState::new();
    s.register().unwrap();
    s.redistribute(0).unwrap();
    assert_eq!(s.unregister(0).unwrap(), true);
    assert_eq!(s.participants_count, 0);
    assert_eq!(s.dust_accumulator, 0);
}

#[test]
fn unregister_overflow_error() {
    let mut s = state(1, 0, 0, 0, 0, 1, 0);
    let before = s.clone();
    assert_eq!(s.unregister(i128::MAX).unwrap_err().0, "overflow: effective_balance");
    assert!(same(&s, &before));
}

fn one_participant_with_supply(amount: u64) -> CoreState {
    let mut s = CoreState::new();
    s.register().unwrap();
    s.redistribute(amount).unwrap();
    s
}

#[test]
fn transfer_moves_amount() {
    let mut s = one_participant_with_supply(1000);
    let mut a = Account { base_balance: 50 };
    let mut b = Account { base_balance: 0 };
    s.transfer(&mut a, &mut b, 100, 0).unwrap();
    assert_eq!(a.base_balance, -50);
    assert_eq!(b.base_balance, 100);
    assert!(same(&s, &one_participant_with_supply(1000)));
}

#[test]
fn transfer_edge_cost_burns() {
    let mut s = one_participant_with_supply(1000);
    let mut a = Account { base_balance: 50 };
    let mut b = Account { base_balance: 0 };
    s.transfer(&mut a, &mut b, 100, 20).unwrap();
    assert_eq!(a.base_balance, -70);
    assert_eq!(b.base_balance, 100);
    assert!(same(&s, &state(1000, -20, 980, 1000, 20, 1, 0)));
}

#[test]
fn transfer_negative_edge_cost_mints() {
    let mut s = one_participant_with_supply(1000);
    let mut a = Account { base_balance: 50 };
    let mut b = Account { base_balance: 0 };
    s.transfer(&mut a, &mut b, 10, -30).unwrap();
    assert_eq!(a.base_balance, 70);
    assert_eq!(b.base_balance, 10);
    assert!(same(&s, &state(1000, 30, 1030, 1030, 0, 1, 0)));
}

#[test]
fn transfer_below_debt_limit_skipped() {
    // field -10, supply 100, two participants: the debt limit is -5; a sender
    // at 0 sending 5 would reach effective balance -15
    let mut s = state(-10, 120, 100, 100, 0, 2, 0);
    assert!(s.check_invariant().is_ok());
    let mut a = Account { base_balance: 0 };
    let mut b = Account { base_balance: 0 };
    s.transfer(&mut a, &mut b, 5, 0).unwrap();
    assert_eq!(a.base_balance, 0);
    assert_eq!(b.base_balance, 0);
}

#[test]
fn transfer_limit_is_on_effective_balance() {
    // base balance goes to -150 but the effective balance is 850
    let mut s = one_participant_with_supply(1000);
    let mut a = Account { base_balance: 50 };
    let mut b = Account { base_balance: 0 };
    s.transfer(&mut a, &mut b, 200, 0).unwrap();
    assert_eq!(a.base_balance, -150);
    assert_eq!(b.base_balance, 200);
}

#[test]
fn transfer_skipped_when_paused_or_zero() {
    let mut s = one_participant_with_supply(1000);
    let mut a = Account { base_balance: 50 };
    let mut b = Account { base_balance: 0 };
    s.transfer(&mut a, &mut b, 0, 5).unwrap();
    assert_eq!(a.base_balance, 50);
    s.paused = true;
    s.transfer(&mut a, &mut b, 10, 0).unwrap();
    assert_eq!(a.base_balance, 50);
    assert_eq!(b.base_balance, 0);
}

#[test]
fn transfer_edge_burn_above_supply_is_refused() {
    let mut s = one_participant_with_supply(10);
    let before = s.clone();
    let mut a = Account { base_balance: 1000 };
    let mut b = Account { base_balance: 0 };
    let e = s.transfer(&mut a, &mut b, 1, 500).unwrap_err();
    assert_eq!(e.0, "SupplyUnderflow on edge burn: supply(10) < burn(500)");
    assert_eq!(a.base_balance, 1000);
    assert_eq!(b.base_balance, 0);
    assert!(same(&s, &before));
}

#[test]
fn neg_entropy_moves_field_not_supply() {
    let mut s = CoreState::new();
    s.apply_neg_entropy().unwrap();
    assert!(same(&s, &state(NEG_E, 0, 0, 0, 0, 0, 0)));
    let mut t = CoreState::new();
    t.register().unwrap();
    t.register().unwrap();
    t.apply_neg_entropy().unwrap();
    assert!(same(&t, &state(NEG_E, 5436563656918090470, 0, 0, 0, 2, 0)));
    assert!(t.check_invariant().is_ok());
}

#[test]
fn neg_entropy_skipped_when_paused() {
    let mut s = CoreState::new();
    s.paused = true;
    s.apply_neg_entropy().unwrap();
    assert_eq!(s.global_field, 0);
}

#[test]
fn neg_entropy_overflow_error() {
    let mut s = state(i128::MIN + 5, 0, 0, 0, 0, 0, 0);
    let before = s.clone();
    assert_eq!(err_text(s.apply_neg_entropy()), "overflow: global_field (neg_entropy)");
    assert!(same(&s, &before));
}

#[test]
fn operations_keep_invariants_on_a_sequence() {
    let mut s = CoreState::new();
    let mut a = Account { base_balance: 0 };
    let mut b = Account { base_balance: 0 };
    for i in 0..20u64 {
        s.register().unwrap();
        s.redistribute(1000 * i + 7).unwrap();
        s.transfer(&mut a, &mut b, 3, 1).unwrap();
        if i % 5 == 0 {
            s.apply_neg_entropy().unwrap();
        }
        assert!(s.check_invariant().is_ok());
    }
}
