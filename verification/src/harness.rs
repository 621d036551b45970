//! The stress harness: a seeded random sequence of operations on a ledger
//! and a token, run one case at a time. A case fails when an operation is
//! refused; the record of the last operations is handed back with the failure.

use vstd::prelude::*;
use rand::{Rng, SeedableRng};
use rand_chacha::ChaCha8Rng;
use crate::decimal::format_u128;
use crate::error::InvariantError;
use crate::ledger::state::{Account, CoreState};
use crate::token::rift_token::{mint_multiplier, RiftTokenState, INITIAL_MULTIPLIER, MAX_FEE_BPS};

verus! {

/// The number of accounts a case moves funds between.
pub const NUM_ACCOUNTS: usize = 12;

/// The number of operations in one case.
pub const OPS_PER_CASE: usize = 2000;

/// The number of operations the record of a case keeps, the latest ones.
pub const HISTORY_CAPACITY: usize = 500;

/// The highest edge cost a random transfer pays.
pub const MAX_EDGE_COST: i128 = 1000000000i128;

/// The founders' share of the initial supply, in basis points.
pub const FOUNDER_SHARE_BPS: u16 = 314;

#[verifier::external_type_specification]
#[verifier::external_body]
pub struct ExChaCha8Rng(ChaCha8Rng);

/// An operation of a case.
#[derive(Debug, Clone, Copy)]
pub enum Op {
    Register,
    Unregister { idx: usize },
    Transfer { from: usize, to: usize, amount: u64, edge_cost: i128 },
    Redistribute { amount: u64 },
    ApplyNegEntropy,
    SetPaused { paused: bool },
    IssueRift { amount: u64 },
    Rebase,
}

/// One operation of a case, with the fingerprints of the ledger and the token after it.
#[derive(Clone)]
pub struct OperationRecord {
    pub op: Op,
    pub core_fingerprint: u64,
    pub token_fingerprint: u64,
}

/// A request to the generator, as (sampling, low bound, high bound).
pub type DrawRequest = (int, int, int);

/// `gen_range(lo..hi)` on `i32`.
pub open spec fn i32_range_request(lo: int, hi: int) -> DrawRequest {
    (0, lo, hi)
}

/// `gen_range(lo..hi)` on `u64`.
pub open spec fn u64_range_request(lo: int, hi: int) -> DrawRequest {
    (1, lo, hi)
}

/// `gen_range(lo..=hi)` on `i128`.
pub open spec fn i128_through_request(lo: int, hi: int) -> DrawRequest {
    (2, lo, hi)
}

/// `gen_range(lo..=hi)` on `u16`.
pub open spec fn u16_through_request(lo: int, hi: int) -> DrawRequest {
    (3, lo, hi)
}

/// `gen::<u64>()`.
pub open spec fn u64_request() -> DrawRequest {
    (4, 0, 0)
}

/// `gen_ratio(numerator, denominator)`, whose `true` is 1 and `false` 0.
pub open spec fn ratio_request(numerator: int, denominator: int) -> DrawRequest {
    (5, numerator, denominator)
}

/// What the `rand_chacha::ChaCha8Rng` made by `seed_from_u64(seed)` returns
/// for the last of `requests`, after it has served the earlier ones in
/// order. `rand_core` requires a seeded generator to give the same values on
/// all runs and platforms, so this is a function of the seed and the requests.
pub uninterp spec fn seeded_draw(seed: u64, requests: Seq<DrawRequest>) -> int;

/// A seeded generator, seen as its seed and the requests it has served.
pub struct SeededRng {
    rng: ChaCha8Rng,
    seed: Ghost<u64>,
    requests: Ghost<Seq<DrawRequest>>,
}

impl View for SeededRng {
    type V = (u64, Seq<DrawRequest>);

    closed spec fn view(&self) -> (u64, Seq<DrawRequest>) {
        (self.seed@, self.requests@)
    }
}

impl SeededRng {
    /// The generator seeded from `seed`, before any draw.
    pub fn new(seed: u64) -> (r: Self)
        ensures
            r@ == (seed, Seq::<DrawRequest>::empty()),
    {
        seeded_rng(seed)
    }
}

/// The value of a draw and the requests served after it.
pub open spec fn next_draw(seed: u64, requests: Seq<DrawRequest>, request: DrawRequest) -> (
    int,
    Seq<DrawRequest>,
) {
    (seeded_draw(seed, requests.push(request)), requests.push(request))
}

/// `rand_core::SeedableRng::seed_from_u64` for `rand_chacha::ChaCha8Rng`:
/// the generator seeded from `seed`, which has served no request yet. The
/// generator is opaque here; `SeededRng` records its seed beside it.
#[verifier::external_body]
fn seeded_rng(seed: u64) -> (r: SeededRng)
    ensures
        r@ == (seed, Seq::<DrawRequest>::empty()),
{
    SeededRng { rng: ChaCha8Rng::seed_from_u64(seed), seed: Ghost(seed), requests: Ghost(Seq::empty()) }
}

/// `rand::Rng::gen_range(lo..hi)` on `i32`: the stream's next value for this
/// request, in `[lo, hi)`. It panics on an empty range, which `requires`
/// leaves out.
#[verifier::external_body]
fn draw_i32(rng: &mut SeededRng, lo: i32, hi: i32) -> (r: i32)
    requires
        lo < hi,
    ensures
        final(rng)@ == (old(rng)@.0, old(rng)@.1.push(i32_range_request(lo as int, hi as int))),
        r as int == seeded_draw(old(rng)@.0, final(rng)@.1),
        lo <= r < hi,
{
    rng.rng.gen_range(lo..hi)
}

/// `rand::Rng::gen_range(lo..hi)` on `u64`: the stream's next value for this
/// request, in `[lo, hi)`.
#[verifier::external_body]
fn draw_u64_below(rng: &mut SeededRng, lo: u64, hi: u64) -> (r: u64)
    requires
        lo < hi,
    ensures
        final(rng)@ == (old(rng)@.0, old(rng)@.1.push(u64_range_request(lo as int, hi as int))),
        r as int == seeded_draw(old(rng)@.0, final(rng)@.1),
        lo <= r < hi,
{
    rng.rng.gen_range(lo..hi)
}

/// `rand::Rng::gen_range(lo..=hi)` on `i128`: the stream's next value for
/// this request, in `[lo, hi]`.
#[verifier::external_body]
fn draw_i128_through(rng: &mut SeededRng, lo: i128, hi: i128) -> (r: i128)
    requires
        lo <= hi,
    ensures
        final(rng)@ == (old(rng)@.0, old(rng)@.1.push(i128_through_request(lo as int, hi as int))),
        r as int == seeded_draw(old(rng)@.0, final(rng)@.1),
        lo <= r <= hi,
{
    rng.rng.gen_range(lo..=hi)
}

/// `rand::Rng::gen_range(lo..=hi)` on `u16`: the stream's next value for
/// this request, in `[lo, hi]`.
#[verifier::external_body]
fn draw_u16_through(rng: &mut SeededRng, lo: u16, hi: u16) -> (r: u16)
    requires
        lo <= hi,
    ensures
        final(rng)@ == (old(rng)@.0, old(rng)@.1.push(u16_through_request(lo as int, hi as int))),
        r as int == seeded_draw(old(rng)@.0, final(rng)@.1),
        lo <= r <= hi,
{
    rng.rng.gen_range(lo..=hi)
}

/// `rand::Rng::gen::<u64>()`: the stream's next value for this request.
#[verifier::external_body]
fn draw_u64(rng: &mut SeededRng) -> (r: u64)
    ensures
        final(rng)@ == (old(rng)@.0, old(rng)@.1.push(u64_request())),
        r as int == seeded_draw(old(rng)@.0, final(rng)@.1),
{
    rng.rng.gen::<u64>()
}

/// `rand::Rng::gen_ratio(numerator, denominator)`: the stream's next value
/// for this request, `true` with probability `numerator / denominator`;
/// always `false` for a zero numerator and always `true` when numerator and
/// denominator are equal. It panics on a zero denominator or a numerator
/// above it, which `requires` leaves out.
#[verifier::external_body]
fn draw_ratio(rng: &mut SeededRng, numerator: u32, denominator: u32) -> (r: bool)
    requires
        0 < denominator,
        numerator <= denominator,
    ensures
        final(rng)@ == (old(rng)@.0, old(rng)@.1.push(
            ratio_request(numerator as int, denominator as int),
        )),
        r == (seeded_draw(old(rng)@.0, final(rng)@.1) != 0),
        numerator == 0 ==> !r,
        numerator == denominator ==> r,
{
    rng.rng.gen_ratio(numerator, denominator)
}

/// The ranges that a random operation's parameters are drawn from.
pub open spec fn op_in_range(op: Op) -> bool {
    match op {
        Op::Unregister { idx } => idx < NUM_ACCOUNTS,
        Op::Transfer { from, to, amount, edge_cost } => {
            &&& from < NUM_ACCOUNTS
            &&& to < NUM_ACCOUNTS
            &&& amount < 1000000000
            &&& 0 <= edge_cost <= MAX_EDGE_COST
        },
        Op::Redistribute { amount } => amount < 10000000000,
        Op::IssueRift { amount } => amount < 1000000000,
        _ => true,
    }
}

/// The operation of each kind, with its parameters in their ranges: kind 0
/// registers, 1 unregisters an account, 2 is a transfer without an edge cost,
/// 3 a transfer with one, 4 a redistribution, 5 the deflationary tick, 6
/// switches pausing, 7 issues shares, and every other kind rebases.
pub open spec fn op_of_kind(kind: i32, op: Op) -> bool {
    if kind == 0 {
        op is Register
    } else if kind == 1 {
        op matches Op::Unregister { idx } && idx < NUM_ACCOUNTS
    } else if kind == 2 {
        op matches Op::Transfer { from, to, amount, edge_cost } && from < NUM_ACCOUNTS && to
            < NUM_ACCOUNTS && amount < 1000000000 && edge_cost == 0
    } else if kind == 3 {
        op matches Op::Transfer { from, to, amount, edge_cost } && from < NUM_ACCOUNTS && to
            < NUM_ACCOUNTS && amount < 1000000000 && 0 <= edge_cost <= MAX_EDGE_COST
    } else if kind == 4 {
        op matches Op::Redistribute { amount } && amount < 10000000000
    } else if kind == 5 {
        op is ApplyNegEntropy
    } else if kind == 6 {
        op is SetPaused
    } else if kind == 7 {
        op matches Op::IssueRift { amount } && amount < 1000000000
    } else {
        op is Rebase
    }
}

/// The operation of the given kind that the generator draws, and the
/// requests it has served after, for a generator seeded from `seed` that has
/// served `requests`.
pub open spec fn op_of_kind_drawn(seed: u64, requests: Seq<DrawRequest>, kind: i32) -> (
    Op,
    Seq<DrawRequest>,
) {
    let accounts = u64_range_request(0, NUM_ACCOUNTS as int);
    if kind == 0 {
        (Op::Register, requests)
    } else if kind == 1 {
        let (i, r1) = next_draw(seed, requests, accounts);
        (Op::Unregister { idx: i as usize }, r1)
    } else if kind == 2 || kind == 3 {
        let (f, r1) = next_draw(seed, requests, accounts);
        let (t, r2) = next_draw(seed, r1, accounts);
        let (a, r3) = next_draw(seed, r2, u64_range_request(0, 1000000000));
        if kind == 2 {
            (Op::Transfer { from: f as usize, to: t as usize, amount: a as u64, edge_cost: 0 }, r3)
        } else {
            let (e, r4) = next_draw(seed, r3, i128_through_request(0, MAX_EDGE_COST as int));
            (
                Op::Transfer {
                    from: f as usize,
                    to: t as usize,
                    amount: a as u64,
                    edge_cost: e as i128,
                },
                r4,
            )
        }
    } else if kind == 4 {
        let (a, r1) = next_draw(seed, requests, u64_range_request(0, 10000000000));
        (Op::Redistribute { amount: a as u64 }, r1)
    } else if kind == 5 {
        (Op::ApplyNegEntropy, requests)
    } else if kind == 6 {
        let (b, r1) = next_draw(seed, requests, ratio_request(1, 20));
        (Op::SetPaused { paused: b != 0 }, r1)
    } else if kind == 7 {
        let (a, r1) = next_draw(seed, requests, u64_range_request(0, 1000000000));
        (Op::IssueRift { amount: a as u64 }, r1)
    } else {
        (Op::Rebase, requests)
    }
}

/// The random operation that the generator draws: its kind from `0..9`, then
/// the parameters of that kind.
pub open spec fn op_drawn(seed: u64, requests: Seq<DrawRequest>) -> (Op, Seq<DrawRequest>) {
    let (kind, r1) = next_draw(seed, requests, i32_range_request(0, 9));
    op_of_kind_drawn(seed, r1, kind as i32)
}

/// The operation of the given kind, its parameters drawn from `rng`: account
/// indices below `NUM_ACCOUNTS`, amounts below 10^9 (10^10 for a
/// redistribution), an edge cost in `[0, MAX_EDGE_COST]` for kind 3, and
/// pausing switched on one time in twenty.
pub fn op_for_kind(rng: &mut SeededRng, kind: i32) -> (op: Op)
    ensures
        final(rng)@.0 == old(rng)@.0,
        (op, final(rng)@.1) == op_of_kind_drawn(old(rng)@.0, old(rng)@.1, kind),
        op_of_kind(kind, op),
        op_in_range(op),
{
    if kind == 0 {
        Op::Register
    } else if kind == 1 {
        Op::Unregister { idx: draw_u64_below(rng, 0, NUM_ACCOUNTS as u64) as usize }
    } else if kind == 2 {
        let from = draw_u64_below(rng, 0, NUM_ACCOUNTS as u64) as usize;
        let to = draw_u64_below(rng, 0, NUM_ACCOUNTS as u64) as usize;
        let amount = draw_u64_below(rng, 0, 1000000000);
        Op::Transfer { from, to, amount, edge_cost: 0 }
    } else if kind == 3 {
        let from = draw_u64_below(rng, 0, NUM_ACCOUNTS as u64) as usize;
        let to = draw_u64_below(rng, 0, NUM_ACCOUNTS as u64) as usize;
        let amount = draw_u64_below(rng, 0, 1000000000);
        let edge_cost = draw_i128_through(rng, 0, MAX_EDGE_COST);
        Op::Transfer { from, to, amount, edge_cost }
    } else if kind == 4 {
        Op::Redistribute { amount: draw_u64_below(rng, 0, 10000000000) }
    } else if kind == 5 {
        Op::ApplyNegEntropy
    } else if kind == 6 {
        Op::SetPaused { paused: draw_ratio(rng, 1, 20) }
    } else if kind == 7 {
        Op::IssueRift { amount: draw_u64_below(rng, 0, 1000000000) }
    } else {
        Op::Rebase
    }
}

/// A random operation: its kind is drawn uniformly from the nine kinds
/// `0..9` (two kinds of transfer, one without and one with an edge cost),
/// then its parameters as `op_for_kind` draws them.
pub fn gen_op(rng: &mut SeededRng) -> (op: Op)
    ensures
        final(rng)@.0 == old(rng)@.0,
        (op, final(rng)@.1) == op_drawn(old(rng)@.0, old(rng)@.1),
        exists|kind: i32| 0 <= kind < 9 && #[trigger] op_of_kind(kind, op),
        op_in_range(op),
{
    let kind = draw_i32(rng, 0, 9);
    op_for_kind(rng, kind)
}

/// What `apply_op` does to the ledger, the token and the accounts: the
/// operation named by `op`, with account indices taken modulo `NUM_ACCOUNTS`.
/// A transfer between two different accounts always sends from the one of
/// lower index to the one of higher index; between an account and itself it
/// does nothing.
pub open spec fn apply_outcome(core: CoreState, token: RiftTokenState, accounts: Seq<Account>, op: Op) -> Result<
    (CoreState, RiftTokenState, Seq<Account>),
    Seq<char>,
> {
    match op {
        Op::Register => match core.register_outcome() {
            Ok(n) => Ok((n, token, accounts)),
            Err(m) => Err(m),
        },
        Op::Unregister { idx } => match core.unregister_outcome(
            accounts[(idx % NUM_ACCOUNTS) as int].base_balance,
        ) {
            Ok((_, n)) => Ok((n, token, accounts)),
            Err(m) => Err(m),
        },
        Op::Transfer { from, to, amount, edge_cost } => {
            let f = (from % NUM_ACCOUNTS) as int;
            let t = (to % NUM_ACCOUNTS) as int;
            let lo = if f < t { f } else { t };
            let hi = if f < t { t } else { f };
            if f == t {
                Ok((core, token, accounts))
            } else {
                match core.transfer_outcome(
                    accounts[lo].base_balance,
                    accounts[hi].base_balance,
                    amount,
                    edge_cost,
                ) {
                    Ok((n, a, b)) => Ok(
                        (
                            n,
                            token,
                            accounts.update(lo, Account { base_balance: a }).update(
                                hi,
                                Account { base_balance: b },
                            ),
                        ),
                    ),
                    Err(m) => Err(m),
                }
            }
        },
        Op::Redistribute { amount } => match core.redistribute_outcome(amount) {
            Ok(n) => Ok((n, token, accounts)),
            Err(m) => Err(m),
        },
        Op::ApplyNegEntropy => match core.neg_entropy_outcome() {
            Ok(n) => Ok((n, token, accounts)),
            Err(m) => Err(m),
        },
        Op::SetPaused { paused } => Ok((CoreState { paused, ..core }, token, accounts)),
        Op::IssueRift { amount } => match token.issue_outcome(core, amount) {
            Ok(n) => Ok((core, n, accounts)),
            Err(m) => Err(m),
        },
        Op::Rebase => Ok(
            (
                core,
                RiftTokenState { rift_multiplier: mint_multiplier(core) as u128, ..token },
                accounts,
            ),
        ),
    }
}

/// Performs one operation of a case. A refused operation changes nothing.
pub fn apply_op(
    core: &mut CoreState,
    token: &mut RiftTokenState,
    accounts: &mut Vec<Account>,
    op: &Op,
) -> (res: Result<(), InvariantError>)
    requires
        old(accounts).len() == NUM_ACCOUNTS,
    ensures
        match apply_outcome(*old(core), *old(token), old(accounts)@, *op) {
            Ok((c, t, a)) => {
                &&& res is Ok
                &&& *final(core) == c
                &&& *final(token) == t
                &&& final(accounts)@ == a
            },
            Err(m) => {
                &&& res matches Err(e) && e.0@ == m
                &&& *final(core) == *old(core)
                &&& *final(token) == *old(token)
                &&& final(accounts)@ == old(accounts)@
            },
        },
{
    match op {
        Op::Register => core.register(),
        Op::Unregister { idx } => {
            let bal = accounts[*idx % NUM_ACCOUNTS].base_balance;
            match core.unregister(bal) {
                Ok(_) => Ok(()),
                Err(e) => Err(e),
            }
        },
        Op::Transfer { from, to, amount, edge_cost } => {
            let f = *from % NUM_ACCOUNTS;
            let t = *to % NUM_ACCOUNTS;
            if f == t {
                return Ok(());
            }
            let lo = if f < t { f } else { t };
            let hi = if f < t { t } else { f };
            let mut sender = accounts[lo];
            let mut receiver = accounts[hi];
            let res = core.transfer(&mut sender, &mut receiver, *amount, *edge_cost);
            accounts.set(lo, sender);
            accounts.set(hi, receiver);
            proof {
                if res is Err {
                    assert(accounts@ =~= old(accounts)@);
                }
            }
            res
        },
        Op::Redistribute { amount } => core.redistribute(*amount),
        Op::ApplyNegEntropy => core.apply_neg_entropy(),
        Op::SetPaused { paused } => {
            core.paused = *paused;
            Ok(())
        },
        Op::IssueRift { amount } => token.issue_rift(core, *amount),
        Op::Rebase => {
            token.rebase(core);
            Ok(())
        },
    }
}

/// Unregistering an account in a case removes a participant holding that
/// account's base balance: it has exactly the outcome of `unregister` on the
/// balance of account `idx % NUM_ACCOUNTS`, burns that balance from the
/// supply when the participant leaves, and changes neither the token nor the
/// accounts.
pub proof fn law_apply_unregister(core: CoreState, token: RiftTokenState, accounts: Seq<Account>, idx: usize)
    requires
        accounts.len() == NUM_ACCOUNTS,
    ensures
        ({
            let b = accounts[(idx % NUM_ACCOUNTS) as int].base_balance;
            let r = apply_outcome(core, token, accounts, Op::Unregister { idx });
            &&& r is Err <==> core.unregister_outcome(b) is Err
            &&& core.unregister_outcome(b) matches Err(m) ==> r == Err::<
                (CoreState, RiftTokenState, Seq<Account>),
                Seq<char>,
            >(m)
            &&& core.unregister_outcome(b) matches Ok((_, n)) ==> r == Ok::<
                (CoreState, RiftTokenState, Seq<Account>),
                Seq<char>,
            >((n, token, accounts))
            &&& r matches Ok((c, t, a)) ==> {
                &&& t == token
                &&& a == accounts
                &&& c.participants_count == core.participants_count - 1 ==> c.total_supply
                    == core.total_supply - b
                &&& c.participants_count != core.participants_count - 1 ==> c == core
            }
        }),
{
    let b = accounts[(idx % NUM_ACCOUNTS) as int].base_balance;
    crate::ledger::laws::law_unregister_effects(core, b);
}

/// Setting the pause flag in a case sets it to the operation's value and
/// changes nothing else.
pub proof fn law_apply_set_paused(core: CoreState, token: RiftTokenState, accounts: Seq<Account>, paused: bool)
    ensures
        apply_outcome(core, token, accounts, Op::SetPaused { paused }) matches Ok((c, t, a)) && {
            &&& c.paused == paused
            &&& c.global_field == core.global_field
            &&& c.total_base_sum == core.total_base_sum
            &&& c.total_supply == core.total_supply
            &&& c.total_minted == core.total_minted
            &&& c.total_burned == core.total_burned
            &&& c.participants_count == core.participants_count
            &&& c.dust_accumulator == core.dust_accumulator
            &&& t == token
            &&& a == accounts
        },
{
}

/// Registering, redistributing and the deflationary tick in a case have
/// exactly the outcome of the ledger's operation, and leave the token and the
/// accounts alone.
pub proof fn law_apply_ledger_ops(core: CoreState, token: RiftTokenState, accounts: Seq<Account>, amount: u64)
    ensures
        core.register_outcome() matches Ok(n) ==> apply_outcome(core, token, accounts, Op::Register)
            == Ok::<(CoreState, RiftTokenState, Seq<Account>), Seq<char>>((n, token, accounts)),
        core.register_outcome() matches Err(m) ==> apply_outcome(core, token, accounts, Op::Register)
            == Err::<(CoreState, RiftTokenState, Seq<Account>), Seq<char>>(m),
        core.redistribute_outcome(amount) matches Ok(n) ==> apply_outcome(
            core,
            token,
            accounts,
            Op::Redistribute { amount },
        ) == Ok::<(CoreState, RiftTokenState, Seq<Account>), Seq<char>>((n, token, accounts)),
        core.redistribute_outcome(amount) matches Err(m) ==> apply_outcome(
            core,
            token,
            accounts,
            Op::Redistribute { amount },
        ) == Err::<(CoreState, RiftTokenState, Seq<Account>), Seq<char>>(m),
        core.neg_entropy_outcome() matches Ok(n) ==> apply_outcome(core, token, accounts, Op::ApplyNegEntropy)
            == Ok::<(CoreState, RiftTokenState, Seq<Account>), Seq<char>>((n, token, accounts)),
        core.neg_entropy_outcome() matches Err(m) ==> apply_outcome(core, token, accounts, Op::ApplyNegEntropy)
            == Err::<(CoreState, RiftTokenState, Seq<Account>), Seq<char>>(m),
{
}

/// Issuing in a case has exactly the outcome of `issue_rift` against the
/// ledger and leaves the ledger and the accounts alone; a rebase sets the
/// multiplier to the ledger's mint multiplier and changes nothing else.
pub proof fn law_apply_token_ops(core: CoreState, token: RiftTokenState, accounts: Seq<Account>, amount: u64)
    ensures
        token.issue_outcome(core, amount) matches Ok(n) ==> apply_outcome(
            core,
            token,
            accounts,
            Op::IssueRift { amount },
        ) == Ok::<(CoreState, RiftTokenState, Seq<Account>), Seq<char>>((core, n, accounts)),
        token.issue_outcome(core, amount) matches Err(m) ==> apply_outcome(
            core,
            token,
            accounts,
            Op::IssueRift { amount },
        ) == Err::<(CoreState, RiftTokenState, Seq<Account>), Seq<char>>(m),
        apply_outcome(core, token, accounts, Op::Rebase) matches Ok((c, t, a)) && {
            &&& c == core
            &&& a == accounts
            &&& t.rift_multiplier == mint_multiplier(core)
            &&& t.total_shares == token.total_shares
            &&& t.fee_bps == token.fee_bps
        },
{
}

/// A transfer in a case between accounts `from` and `to` (modulo
/// `NUM_ACCOUNTS`) does nothing when they are the same account; otherwise it
/// has exactly the outcome of `transfer` from the account of lower index to
/// the one of higher index, writes the two new balances to those accounts,
/// and leaves every other account and the token alone.
pub proof fn law_apply_transfer(
    core: CoreState,
    token: RiftTokenState,
    accounts: Seq<Account>,
    from: usize,
    to: usize,
    amount: u64,
    edge_cost: i128,
)
    requires
        accounts.len() == NUM_ACCOUNTS,
    ensures
        ({
            let f = (from % NUM_ACCOUNTS) as int;
            let t = (to % NUM_ACCOUNTS) as int;
            let lo = if f < t { f } else { t };
            let hi = if f < t { t } else { f };
            let op = Op::Transfer { from, to, amount, edge_cost };
            let r = apply_outcome(core, token, accounts, op);
            let o = core.transfer_outcome(
                accounts[lo].base_balance,
                accounts[hi].base_balance,
                amount,
                edge_cost,
            );
            &&& f == t ==> r == Ok::<(CoreState, RiftTokenState, Seq<Account>), Seq<char>>(
                (core, token, accounts),
            )
            &&& f != t ==> (o matches Err(m) ==> r == Err::<
                (CoreState, RiftTokenState, Seq<Account>),
                Seq<char>,
            >(m))
            &&& f != t ==> (o matches Ok((n, nf, nt)) ==> r matches Ok((c, tk, a)) && {
                &&& c == n
                &&& tk == token
                &&& a.len() == NUM_ACCOUNTS
                &&& a[lo].base_balance == nf
                &&& a[hi].base_balance == nt
                &&& forall|k: int| 0 <= k < NUM_ACCOUNTS && k != lo && k != hi ==> #[trigger] a[k]
                    == accounts[k]
            })
        }),
{
}

/// A step of a case keeps the ledger well formed, the token's multiplier
/// within its ceiling, and the number of accounts.
pub proof fn law_case_step_keeps_invariants(
    core: CoreState,
    token: RiftTokenState,
    accounts: Seq<Account>,
    op: Op,
)
    requires
        core.well_formed(),
        token.rift_multiplier <= INITIAL_MULTIPLIER,
        accounts.len() == NUM_ACCOUNTS,
    ensures
        apply_outcome(core, token, accounts, op) matches Ok((c, t, a)) ==> {
            &&& c.well_formed()
            &&& t.rift_multiplier <= INITIAL_MULTIPLIER
            &&& a.len() == NUM_ACCOUNTS
        },
{
    let (b, from, to, amount, edge_cost, reward) = match op {
        Op::Unregister { idx } => (accounts[(idx % NUM_ACCOUNTS) as int].base_balance, 0i128, 0i128, 0u64, 0i128, 0u64),
        Op::Transfer { from, to, amount, edge_cost } => {
            let f = (from % NUM_ACCOUNTS) as int;
            let t = (to % NUM_ACCOUNTS) as int;
            let lo = if f < t { f } else { t };
            let hi = if f < t { t } else { f };
            (0i128, accounts[lo].base_balance, accounts[hi].base_balance, amount, edge_cost, 0u64)
        },
        Op::Redistribute { amount } => (0i128, 0i128, 0i128, 0u64, 0i128, amount),
        Op::IssueRift { amount } => (0i128, 0i128, 0i128, amount, 0i128, 0u64),
        _ => (0i128, 0i128, 0i128, 0u64, 0i128, 0u64),
    };
    crate::ledger::laws::law_operations_keep_invariants(core, b, from, to, amount, edge_cost, reward);
    crate::token::laws::law_multiplier_within_ceiling(token, core, amount);
}

/// The ledger a case starts from: empty and not paused.
pub open spec fn empty_ledger() -> CoreState {
    CoreState {
        global_field: 0,
        total_base_sum: 0,
        total_supply: 0,
        total_minted: 0,
        total_burned: 0,
        participants_count: 0,
        dust_accumulator: 0,
        paused: false,
    }
}

/// The token a case starts with: the founders' share of the initial supply,
/// the initial multiplier, and the fee capped at `MAX_FEE_BPS`.
pub open spec fn initial_token(fee_bps: u16, initial_supply: u64) -> RiftTokenState {
    RiftTokenState {
        total_shares: (initial_supply * FOUNDER_SHARE_BPS / 10000) as u64,
        rift_multiplier: INITIAL_MULTIPLIER,
        fee_bps: if fee_bps < MAX_FEE_BPS {
            fee_bps
        } else {
            MAX_FEE_BPS
        },
    }
}

/// The accounts a case starts with: `NUM_ACCOUNTS` empty ones.
pub open spec fn empty_accounts() -> Seq<Account> {
    Seq::new(NUM_ACCOUNTS as nat, |i: int| Account { base_balance: 0 })
}

/// The state of a case after its first `k` operations, or the index and the
/// reason of the first of them that was refused.
pub open spec fn case_state(fee_bps: u16, initial_supply: u64, ops: Seq<Op>, k: nat) -> Result<
    (CoreState, RiftTokenState, Seq<Account>),
    (int, Seq<char>),
>
    decreases k,
{
    if k == 0 {
        Ok((empty_ledger(), initial_token(fee_bps, initial_supply), empty_accounts()))
    } else {
        match case_state(fee_bps, initial_supply, ops, (k - 1) as nat) {
            Err(e) => Err(e),
            Ok((c, t, a)) => match apply_outcome(c, t, a, ops[k - 1]) {
                Ok(n) => Ok(n),
                Err(m) => Err(((k - 1) as int, m)),
            },
        }
    }
}

/// The record of operation `k` of a case: the operation and the fingerprints
/// of the ledger and the token after it.
#[verifier::opaque]
pub open spec fn record_of(fee_bps: u16, initial_supply: u64, ops: Seq<Op>, k: int) -> OperationRecord {
    match case_state(fee_bps, initial_supply, ops, (k + 1) as nat) {
        Ok((c, t, _)) => OperationRecord {
            op: ops[k],
            core_fingerprint: c.fingerprint_with_dust_spec() as u64,
            token_fingerprint: t.fingerprint_spec() as u64,
        },
        Err(_) => OperationRecord { op: ops[k], core_fingerprint: 0, token_fingerprint: 0 },
    }
}

/// The smaller of two lengths.
pub open spec fn min_len(a: int, b: int) -> int {
    if a < b {
        a
    } else {
        b
    }
}

/// What a case with these inputs gives: the number of operations when every
/// one is accepted in turn; otherwise the index of the first refused one, that
/// operation, its refusal's text, and the records of the operations before it,
/// at most `HISTORY_CAPACITY` of them, the latest, oldest first.
pub open spec fn case_result(
    fee_bps: u16,
    initial_supply: u64,
    ops: Seq<Op>,
    res: Result<u64, (usize, Op, String, Vec<OperationRecord>)>,
) -> bool {
    match case_state(fee_bps, initial_supply, ops, ops.len()) {
        Ok(_) => res == Ok::<u64, (usize, Op, String, Vec<OperationRecord>)>(ops.len() as u64),
        Err((i, m)) => match res {
            Ok(_) => false,
            Err((j, op, reason, history)) => {
                &&& j == i
                &&& op == ops[i]
                &&& reason@ == m
                &&& history@.len() == min_len(i, HISTORY_CAPACITY as int)
                &&& forall|k: int|
                    0 <= k < history@.len() ==> #[trigger] history@[k] == record_of(
                        fee_bps,
                        initial_supply,
                        ops,
                        i - history@.len() + k,
                    )
            },
        },
    }
}

/// Appending the record of operation `i` to the records of the operations
/// before it, and dropping the oldest beyond `HISTORY_CAPACITY`, gives the
/// records of the operations up to `i`.
proof fn lemma_history_step(
    fee_bps: u16,
    initial_supply: u64,
    ops: Seq<Op>,
    i: int,
    before: Seq<OperationRecord>,
    after: Seq<OperationRecord>,
)
    requires
        0 <= i,
        before.len() == min_len(i, HISTORY_CAPACITY as int),
        forall|k: int|
            0 <= k < before.len() ==> #[trigger] before[k] == record_of(
                fee_bps,
                initial_supply,
                ops,
                i - before.len() + k,
            ),
        after == (if before.len() + 1 > HISTORY_CAPACITY {
            before.push(record_of(fee_bps, initial_supply, ops, i)).remove(0)
        } else {
            before.push(record_of(fee_bps, initial_supply, ops, i))
        }),
    ensures
        after.len() == min_len(i + 1, HISTORY_CAPACITY as int),
        forall|k: int|
            0 <= k < after.len() ==> #[trigger] after[k] == record_of(
                fee_bps,
                initial_supply,
                ops,
                i + 1 - after.len() + k,
            ),
{
    let pushed = before.push(record_of(fee_bps, initial_supply, ops, i));
    assert forall|k: int| 0 <= k < pushed.len() implies #[trigger] pushed[k] == record_of(
        fee_bps,
        initial_supply,
        ops,
        i + 1 - pushed.len() + k,
    ) by {
        if k < before.len() {
            assert(pushed[k] == before[k]);
        }
    }
    if before.len() + 1 > HISTORY_CAPACITY {
        assert forall|k: int| 0 <= k < after.len() implies #[trigger] after[k] == record_of(
            fee_bps,
            initial_supply,
            ops,
            i + 1 - after.len() + k,
        ) by {
            assert(after[k] == pushed[k + 1]);
        }
    }
}

/// A refusal in the first `k` operations stays the first refusal of any
/// longer prefix; an accepted prefix has accepted shorter prefixes.
proof fn lemma_case_state_prefix(fee_bps: u16, initial_supply: u64, ops: Seq<Op>, k: nat, l: nat)
    requires
        k <= l,
    ensures
        case_state(fee_bps, initial_supply, ops, k) is Err ==> case_state(
            fee_bps,
            initial_supply,
            ops,
            l,
        ) == case_state(fee_bps, initial_supply, ops, k),
    decreases l - k,
{
    if k < l {
        lemma_case_state_prefix(fee_bps, initial_supply, ops, k, (l - 1) as nat);
    }
}

/// Runs a case on given inputs: a fresh ledger, a token with fee `fee_bps`
/// holding the founders' share of `initial_supply`, `NUM_ACCOUNTS` empty
/// accounts, and the operations `ops` in turn. It stops at the first refused
/// operation. The ledger stays well formed throughout, so a case never fails
/// at the final check or on the multiplier's ceiling.
pub fn run_ops(fee_bps: u16, initial_supply: u64, ops: &Vec<Op>) -> (res: Result<
    u64,
    (usize, Op, String, Vec<OperationRecord>),
>)
    ensures
        case_result(fee_bps, initial_supply, ops@, res),
{
    let mut core = CoreState::new();
    let mut token = RiftTokenState::new(fee_bps);
    let mut accounts: Vec<Account> = Vec::new();
    while accounts.len() < NUM_ACCOUNTS
        invariant
            accounts.len() <= NUM_ACCOUNTS,
            forall|j: int| 0 <= j < accounts.len() ==> #[trigger] accounts@[j].base_balance == 0,
        decreases NUM_ACCOUNTS - accounts.len(),
    {
        accounts.push(Account { base_balance: 0 });
    }
    proof {
        assert forall|j: int| 0 <= j < accounts@.len() implies accounts@[j] == empty_accounts()[j] by {
            assert(accounts@[j].base_balance == 0);
        }
        assert(accounts@ =~= empty_accounts());
        assert(initial_supply * FOUNDER_SHARE_BPS / 10000 <= u64::MAX) by (nonlinear_arith);
    }
    let founder_share = ((initial_supply as u128 * FOUNDER_SHARE_BPS as u128) / 10000) as u64;
    if founder_share > 0 {
        token.total_shares = founder_share;
    }
    proof {
        assert(core == empty_ledger());
        assert(token == initial_token(fee_bps, initial_supply));
    }
    let mut history: Vec<OperationRecord> = Vec::new();
    let mut ops_executed: u64 = 0;
    let mut i: usize = 0;
    while i < ops.len()
        invariant
            i <= ops.len(),
            case_state(fee_bps, initial_supply, ops@, i as nat) == Ok::<
                (CoreState, RiftTokenState, Seq<Account>),
                (int, Seq<char>),
            >((core, token, accounts@)),
            core.well_formed(),
            token.rift_multiplier <= INITIAL_MULTIPLIER,
            accounts.len() == NUM_ACCOUNTS,
            history@.len() == min_len(i as int, HISTORY_CAPACITY as int),
            forall|k: int|
                0 <= k < history@.len() ==> #[trigger] history@[k] == record_of(
                    fee_bps,
                    initial_supply,
                    ops@,
                    i - history@.len() + k,
                ),
            ops_executed == i,
        decreases ops.len() - i,
    {
        let op = ops[i];
        proof {
            law_case_step_keeps_invariants(core, token, accounts@, op);
        }
        let result = apply_op(&mut core, &mut token, &mut accounts, &op);
        match result {
            Ok(()) => {},
            Err(e) => {
                proof {
                    lemma_case_state_prefix(
                        fee_bps,
                        initial_supply,
                        ops@,
                        (i + 1) as nat,
                        ops@.len(),
                    );
                }
                return Err((i, op, e.0, history));
            },
        }
        if token.rift_multiplier > INITIAL_MULTIPLIER {
            let mut m = String::from_str("rift_multiplier ");
            m.append(format_u128(token.rift_multiplier).as_str());
            m.append(" exceeds ceiling 1e15");
            return Err((i, op, m, history));
        }
        let record = OperationRecord {
            op,
            core_fingerprint: core.fingerprint_with_dust(),
            token_fingerprint: token.fingerprint(),
        };
        proof {
            reveal(record_of);
            assert(record == record_of(fee_bps, initial_supply, ops@, i as int));
        }
        let ghost before = history@;
        history.push(record);
        if history.len() > HISTORY_CAPACITY {
            history.remove(0);
        }
        proof {
            lemma_history_step(fee_bps, initial_supply, ops@, i as int, before, history@);
        }
        ops_executed = ops_executed + 1;
        i = i + 1;
    }
    match core.check_invariant() {
        Ok(()) => {},
        Err(e) => {
            let mut m = String::from_str("final check: ");
            m.append(e.0.as_str());
            return Err((ops.len(), Op::Rebase, m, history));
        },
    }
    Ok(ops_executed)
}

/// The first `n` random operations that the generator draws, and the
/// requests it has served after them.
pub open spec fn ops_drawn(seed: u64, requests: Seq<DrawRequest>, n: nat) -> (
    Seq<Op>,
    Seq<DrawRequest>,
)
    decreases n,
{
    if n == 0 {
        (Seq::empty(), requests)
    } else {
        let (ops, r1) = ops_drawn(seed, requests, (n - 1) as nat);
        let (op, r2) = op_drawn(seed, r1);
        (ops.push(op), r2)
    }
}

/// The requests a case makes before its operations: the fee, then the
/// initial supply.
pub open spec fn case_setup_requests() -> Seq<DrawRequest> {
    seq![u16_through_request(0, MAX_FEE_BPS as int), u64_request()]
}

/// The fee of the case run from `seed`.
pub open spec fn case_fee(seed: u64) -> u16 {
    seeded_draw(seed, case_setup_requests().take(1)) as u16
}

/// The initial supply of the case run from `seed`.
pub open spec fn case_supply(seed: u64) -> u64 {
    seeded_draw(seed, case_setup_requests()) as u64
}

/// The operations of the case run from `seed`.
pub open spec fn case_ops(seed: u64) -> Seq<Op> {
    ops_drawn(seed, case_setup_requests(), OPS_PER_CASE as nat).0
}

/// Runs one case from `seed`: draws the fee, the initial supply and
/// `OPS_PER_CASE` random operations from the generator seeded with `seed`,
/// in that order, and runs them with `run_ops`. The result is a function of
/// the seed.
pub fn run_case(seed: u64) -> (res: Result<u64, (usize, Op, String, Vec<OperationRecord>)>)
    ensures
        case_result(case_fee(seed), case_supply(seed), case_ops(seed), res),
        case_fee(seed) <= MAX_FEE_BPS,
        case_ops(seed).len() == OPS_PER_CASE,
        forall|k: int| 0 <= k < OPS_PER_CASE ==> op_in_range(#[trigger] case_ops(seed)[k]),
{
    let mut rng = SeededRng::new(seed);
    let fee_bps = draw_u16_through(&mut rng, 0, MAX_FEE_BPS);
    let initial_supply: u64 = draw_u64(&mut rng);
    proof {
        assert(rng@.1 =~= case_setup_requests());
        assert(case_setup_requests().take(1) =~= seq![u16_through_request(0, MAX_FEE_BPS as int)]);
    }
    let mut ops: Vec<Op> = Vec::new();
    while ops.len() < OPS_PER_CASE
        invariant
            ops.len() <= OPS_PER_CASE,
            rng@.0 == seed,
            (ops@, rng@.1) == ops_drawn(seed, case_setup_requests(), ops.len() as nat),
            forall|k: int| 0 <= k < ops.len() ==> op_in_range(#[trigger] ops@[k]),
        decreases OPS_PER_CASE - ops.len(),
    {
        let op = gen_op(&mut rng);
        ops.push(op);
        proof {
            assert(ops@ =~= ops_drawn(seed, case_setup_requests(), ops.len() as nat).0);
        }
    }
    run_ops(fee_bps, initial_supply, &ops)
}

} // verus!
