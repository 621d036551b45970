use rift_l1::ledger::operations::NEG_E;
use rift_l1::{CoreState, RiftTokenState};

fn core_with_field(field: i128) -> CoreState {
    let mut c = CoreState::new();
    c.global_field = field;
    c
}

#[test]
fn token_new_caps_fee() {
    let t = RiftTokenState::new(5);
    assert_eq!(t.total_shares, 0);
    assert_eq!(t.rift_multiplier, 1_000_000_000_000_000);
    assert_eq!(t.fee_bps, 5);
    assert_eq!(RiftTokenState::new(50).fee_bps, 10);
}

#[test]
fn token_fingerprint_value() {
    let t = RiftTokenState { total_shares: 1, rift_multiplier: 3u128 << 32, fee_bps: 2 };
    assert_eq!(t.fingerprint(), 1056);
    assert_eq!(RiftTokenState::new(0).fingerprint(), 31 * (1_000_000_000_000_000u64 >> 32));
}

#[test]
fn rebase_follows_field_pressure() {
    let mut t = RiftTokenState::new(0);
    t.rebase(&core_with_field(0));
    assert_eq!(t.rift_multiplier, 1_000_000_000);
    t.rebase(&core_with_field(-2_000_000_000));
    assert_eq!(t.rift_multiplier, 500_000);
    t.rebase(&core_with_field(-2_000_000_000_000));
    assert_eq!(t.rift_multiplier, 500);
}

#[test]
fn issue_on_fresh_ledger() {
    let mut t = RiftTokenState::new(10);
    t.issue_rift(&CoreState::new(), 1_000_000).unwrap();
    assert_eq!(t.total_shares, 999);
    assert_eq!(t.fee_bps, 10);
    assert_eq!(t.rift_multiplier, 1_000_000_000_000_000);
}

#[test]
fn issue_mints_after_fee() {
    let mut t = RiftTokenState::new(5);
    t.issue_rift(&core_with_field(0), 1_000_000).unwrap();
    assert_eq!(t.total_shares, 999);
    let mut u = RiftTokenState::new(0);
    u.issue_rift(&core_with_field(-2_000_000_000), 10_000_000).unwrap();
    assert_eq!(u.total_shares, 5);
    let mut w = RiftTokenState::new(0);
    w.issue_rift(&core_with_field(10_000_000_000), 1_000_000).unwrap();
    assert_eq!(w.total_shares, 0);
}

#[test]
fn issue_nothing_when_no_whole_share() {
    let mut t = RiftTokenState::new(0);
    t.issue_rift(&core_with_field(NEG_E), 1_000_000).unwrap();
    assert_eq!(t.total_shares, 0);
}

#[test]
fn issue_nothing_when_fee_rounds_to_zero() {
    let mut t = RiftTokenState::new(5);
    t.issue_rift(&core_with_field(10_000_000_000), 1000).unwrap();
    assert_eq!(t.total_shares, 0);
}

#[test]
fn issue_nothing_when_paused_or_zero() {
    let mut t = RiftTokenState::new(0);
    let mut c = core_with_field(10_000_000_000);
    t.issue_rift(&c, 0).unwrap();
    c.paused = true;
    t.issue_rift(&c, 1_000_000).unwrap();
    assert_eq!(t.total_shares, 0);
}

#[test]
fn issue_fee_downcast_overflow() {
    let mut t = RiftTokenState { total_shares: 0, rift_multiplier: 0, fee_bps: 65535 };
    let e = t.issue_rift(&core_with_field(10_000_000_000), u64::MAX).unwrap_err();
    assert_eq!(e.0, "overflow: fee_amount downcast");
}

#[test]
fn issue_fee_above_amount() {
    let mut t = RiftTokenState { total_shares: 0, rift_multiplier: 0, fee_bps: 20000 };
    let e = t.issue_rift(&core_with_field(10_000_000_000), 100).unwrap_err();
    assert_eq!(e.0, "underflow: amount_after_fee");
}

#[test]
fn issue_total_shares_overflow() {
    let mut t = RiftTokenState { total_shares: u64::MAX, rift_multiplier: 0, fee_bps: 0 };
    let e = t.issue_rift(&core_with_field(0), 1_000_000).unwrap_err();
    assert_eq!(e.0, "overflow: total_shares");
    assert_eq!(t.total_shares, u64::MAX);
}

#[test]
fn issue_rate_at_most_one_share_per_thousand() {
    let mut t = RiftTokenState::new(0);
    t.issue_rift(&core_with_field(0), 1_000_000).unwrap();
    assert_eq!(t.total_shares, 1000);
}
