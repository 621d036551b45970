use rand::{Rng, SeedableRng};
use rand_chacha::ChaCha8Rng;
use rift_l1::harness::{apply_op, gen_op, op_for_kind, run_case, run_ops, Op, SeededRng, HISTORY_CAPACITY, NUM_ACCOUNTS, OPS_PER_CASE};
use rift_l1::{Account, CoreState, RiftTokenState};

#[test]
fn gen_op_draws_every_kind_within_range() {
    let mut rng = SeededRng::new(7);
    let mut seen = [false; 8];
    let mut edge_costs = 0;
    for _ in 0..2000 {
        match gen_op(&mut rng) {
            Op::Register => seen[0] = true,
            Op::Unregister { idx } => {
                assert!(idx < NUM_ACCOUNTS);
                seen[1] = true;
            }
            Op::Transfer { from, to, amount, edge_cost } => {
                assert!(from < NUM_ACCOUNTS && to < NUM_ACCOUNTS);
                assert!(amount < 1_000_000_000);
                assert!((0..=1_000_000_000).contains(&edge_cost));
                if edge_cost > 0 {
                    edge_costs += 1;
                }
                seen[2] = true;
            }
            Op::Redistribute { amount } => {
                assert!(amount < 10_000_000_000);
                seen[3] = true;
            }
            Op::ApplyNegEntropy => seen[4] = true,
            Op::SetPaused { .. } => seen[5] = true,
            Op::IssueRift { amount } => {
                assert!(amount < 1_000_000_000);
                seen[6] = true;
            }
            Op::Rebase => seen[7] = true,
        }
    }
    assert!(seen.iter().all(|s| *s));
    assert!(edge_costs > 0);
}

#[test]
fn run_case_is_deterministic() {
    for seed in [1u64, 42, 12345] {
        let a = run_case(seed);
        let b = run_case(seed);
        match (a, b) {
            (Ok(n), Ok(m)) => {
                assert_eq!(n, OPS_PER_CASE as u64);
                assert_eq!(m, n);
            }
            (Err((i, _, msg, h)), Err((j, _, msg2, h2))) => {
                assert_eq!(i, j);
                assert_eq!(msg, msg2);
                assert!(i < OPS_PER_CASE);
                assert_eq!(h.len(), i.min(HISTORY_CAPACITY));
                assert_eq!(h2.len(), h.len());
            }
            _ => panic!("the same seed gave different outcomes"),
        }
    }
}

#[test]
fn apply_op_transfer_sends_from_lower_index() {
    let mut core = CoreState::new();
    core.register().unwrap();
    core.redistribute(1000).unwrap();
    let mut token = RiftTokenState::new(0);
    let mut accounts = vec![Account { base_balance: 0 }; NUM_ACCOUNTS];
    accounts[2].base_balance = 50;
    let op = Op::Transfer { from: 5, to: 2, amount: 30, edge_cost: 0 };
    apply_op(&mut core, &mut token, &mut accounts, &op).unwrap();
    assert_eq!(accounts[2].base_balance, 20);
    assert_eq!(accounts[5].base_balance, 30);
    let same = Op::Transfer { from: 3, to: 15, amount: 30, edge_cost: 0 };
    apply_op(&mut core, &mut token, &mut accounts, &same).unwrap();
    assert_eq!(accounts[3].base_balance, 0);
}

#[test]
fn apply_op_set_paused_and_rebase() {
    let mut core = CoreState::new();
    let mut token = RiftTokenState::new(0);
    let mut accounts = vec![Account { base_balance: 0 }; NUM_ACCOUNTS];
    apply_op(&mut core, &mut token, &mut accounts, &Op::SetPaused { paused: true }).unwrap();
    assert!(core.paused);
    apply_op(&mut core, &mut token, &mut accounts, &Op::Rebase).unwrap();
    assert_eq!(token.rift_multiplier, 1_000_000_000);
}

#[test]
fn op_for_kind_gives_each_kind() {
    let mut rng = SeededRng::new(3);
    assert!(matches!(op_for_kind(&mut rng, 0), Op::Register));
    assert!(matches!(op_for_kind(&mut rng, 1), Op::Unregister { idx } if idx < NUM_ACCOUNTS));
    assert!(matches!(op_for_kind(&mut rng, 2), Op::Transfer { edge_cost: 0, .. }));
    assert!(matches!(op_for_kind(&mut rng, 3), Op::Transfer { edge_cost, .. } if (0..=1_000_000_000).contains(&edge_cost)));
    assert!(matches!(op_for_kind(&mut rng, 4), Op::Redistribute { .. }));
    assert!(matches!(op_for_kind(&mut rng, 5), Op::ApplyNegEntropy));
    assert!(matches!(op_for_kind(&mut rng, 6), Op::SetPaused { .. }));
    assert!(matches!(op_for_kind(&mut rng, 7), Op::IssueRift { .. }));
    assert!(matches!(op_for_kind(&mut rng, 8), Op::Rebase));
}

fn ran(r: Result<u64, (usize, Op, String, Vec<rift_l1::harness::OperationRecord>)>) -> u64 {
    match r {
        Ok(n) => n,
        Err((i, _, reason, _)) => panic!("refused at {}: {}", i, reason),
    }
}

#[test]
fn run_ops_accepts_all() {
    let ops = vec![Op::Register, Op::Redistribute { amount: 10 }, Op::ApplyNegEntropy, Op::Rebase];
    assert_eq!(ran(run_ops(3, 1000, &ops)), 4);
    let none: Vec<Op> = Vec::new();
    assert_eq!(ran(run_ops(0, 0, &none)), 0);
    let mut many = vec![Op::Register; 600];
    many.push(Op::Unregister { idx: 0 });
    many.push(Op::Redistribute { amount: 1 });
    assert_eq!(ran(run_ops(0, 0, &many)), 602);
}

#[test]
fn run_ops_reports_first_refusal_with_history() {
    let mut ops = vec![Op::Rebase; 510];
    ops.push(Op::Register);
    ops.push(Op::Redistribute { amount: 1000 });
    for from in 0..5 {
        ops.push(Op::Transfer { from, to: 5, amount: 1000, edge_cost: 0 });
    }
    // account 5 now holds 5000 and burns an edge cost of 2000, above the supply
    ops.push(Op::Transfer { from: 5, to: 6, amount: 1, edge_cost: 2000 });
    ops.push(Op::Register);
    match run_ops(0, 0, &ops) {
        Ok(n) => panic!("expected a refusal, ran {}", n),
        Err((i, op, reason, history)) => {
            assert_eq!(i, 517);
            assert!(matches!(op, Op::Transfer { from: 5, to: 6, .. }));
            assert_eq!(reason, "SupplyUnderflow on edge burn: supply(1000) < burn(2000)");
            assert_eq!(history.len(), HISTORY_CAPACITY);
            assert!(matches!(history[HISTORY_CAPACITY - 1].op, Op::Transfer { from: 4, to: 5, .. }));
            assert!(matches!(history[0].op, Op::Rebase));
            // the last record carries the fingerprints of the state after op 516
            let mut core = CoreState::new();
            let mut token = RiftTokenState::new(0);
            let mut accounts = vec![Account { base_balance: 0 }; NUM_ACCOUNTS];
            for op in &ops[..517] {
                assert!(apply_op(&mut core, &mut token, &mut accounts, op).is_ok());
            }
            let last = &history[HISTORY_CAPACITY - 1];
            assert_eq!(last.core_fingerprint, core.fingerprint_with_dust());
            assert_eq!(last.token_fingerprint, token.fingerprint());
        }
    }
}

/// The operation generator written directly against `rand`, with the
/// original's sampling types and `gen_bool(0.05)`.
fn reference_op(rng: &mut ChaCha8Rng) -> Op {
    match rng.gen_range(0..9) {
        0 => Op::Register,
        1 => Op::Unregister { idx: rng.gen_range(0..NUM_ACCOUNTS) },
        2 => Op::Transfer {
            from: rng.gen_range(0..NUM_ACCOUNTS),
            to: rng.gen_range(0..NUM_ACCOUNTS),
            amount: rng.gen_range(0..1_000_000_000u64),
            edge_cost: 0,
        },
        3 => Op::Transfer {
            from: rng.gen_range(0..NUM_ACCOUNTS),
            to: rng.gen_range(0..NUM_ACCOUNTS),
            amount: rng.gen_range(0..1_000_000_000u64),
            edge_cost: rng.gen_range(0..=1_000_000_000i128),
        },
        4 => Op::Redistribute { amount: rng.gen_range(0..10_000_000_000u64) },
        5 => Op::ApplyNegEntropy,
        6 => Op::SetPaused { paused: rng.gen_bool(0.05) },
        7 => Op::IssueRift { amount: rng.gen_range(0..1_000_000_000u64) },
        _ => Op::Rebase,
    }
}

#[test]
fn gen_op_follows_the_seeded_stream() {
    for seed in [0u64, 9, 77] {
        let mut ours = SeededRng::new(seed);
        let mut theirs = ChaCha8Rng::seed_from_u64(seed);
        for _ in 0..3000 {
            let a = format!("{:?}", gen_op(&mut ours));
            let b = format!("{:?}", reference_op(&mut theirs));
            assert_eq!(a, b);
        }
    }
}
