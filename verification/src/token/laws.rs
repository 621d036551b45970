//! What holds of the share token across its operations.

use vstd::prelude::*;
use super::rift_token::{mint_multiplier, RiftTokenState, INITIAL_MULTIPLIER};
use crate::ledger::state::CoreState;

verus! {

/// Minting is capped: an issue adds at most one share per thousand units of
/// the amount, and leaves the multiplier and the fee as they were.
pub proof fn law_issue_rate_capped(t: RiftTokenState, core: CoreState, amount: u64)
    ensures
        t.issue_outcome(core, amount) matches Ok(n) ==> {
            &&& n.total_shares >= t.total_shares
            &&& (n.total_shares - t.total_shares) * 1000 <= amount
            &&& n.rift_multiplier == t.rift_multiplier
            &&& n.fee_bps == t.fee_bps
        },
{
    let fee = amount * t.fee_bps / 10000;
    let after_fee = amount - fee;
    let mm = mint_multiplier(core);
    if t.issue_outcome(core, amount) is Ok && 0 <= fee <= amount && 0 <= mm <= 1000000000 {
        assert((after_fee * mm / 1000000000000) * 1000 <= after_fee) by (nonlinear_arith)
            requires
                0 <= mm <= 1000000000,
                after_fee >= 0,
        ;
    }
}

/// The multiplier never passes its ceiling of 10^15: a new token starts at
/// it, a rebase sets at most 10^9, and an issue leaves it unchanged.
pub proof fn law_multiplier_within_ceiling(t: RiftTokenState, core: CoreState, amount: u64)
    ensures
        mint_multiplier(core) <= 1000000000 < INITIAL_MULTIPLIER,
        t.rift_multiplier <= INITIAL_MULTIPLIER ==> (t.issue_outcome(core, amount) matches Ok(n)
            ==> n.rift_multiplier <= INITIAL_MULTIPLIER),
{
    let fp = super::rift_token::field_pressure(core);
    assert(1000000000000000int / fp <= 1000000000) by (nonlinear_arith)
        requires
            fp >= 1000000,
    ;
}

/// Issuing does nothing while the ledger is paused or for a zero amount, and
/// is refused only when the ledger runs and the amount is positive. With a fee
/// of at most 100% that does not round a positive fee to zero, it fails only
/// when the share total would overflow, and otherwise adds exactly the amount
/// after the fee times the mint multiplier, over 10^12, rounded down.
pub proof fn law_issue_effects(t: RiftTokenState, core: CoreState, amount: u64)
    ensures
        core.paused ==> t.issue_outcome(core, amount) == Ok::<RiftTokenState, Seq<char>>(t),
        amount == 0 ==> t.issue_outcome(core, amount) == Ok::<RiftTokenState, Seq<char>>(t),
        t.issue_outcome(core, amount) is Err ==> !core.paused && amount > 0,
        ({
            let fee = amount * t.fee_bps / 10000;
            let shares = (amount - fee) * mint_multiplier(core) / 1000000000000;
            !core.paused && amount > 0 && t.fee_bps <= 10000 && (t.fee_bps == 0 || fee > 0)
                ==> if t.total_shares + shares <= u64::MAX {
                t.issue_outcome(core, amount) == Ok::<RiftTokenState, Seq<char>>(
                    RiftTokenState { total_shares: (t.total_shares + shares) as u64, ..t },
                )
            } else {
                t.issue_outcome(core, amount) is Err
            }
        }),
{
    let fee = amount * t.fee_bps / 10000;
    let fp = super::rift_token::field_pressure(core);
    assert(1000000000000000int / fp <= 1000000000) by (nonlinear_arith)
        requires
            fp >= 1000000,
    ;
    if t.fee_bps <= 10000 {
        assert(fee <= amount) by (nonlinear_arith)
            requires
                fee == amount * t.fee_bps / 10000,
                t.fee_bps <= 10000,
                amount >= 0,
        ;
    }
}

} // verus!
