//! The share token. It reads the ledger state and never writes to it.

use vstd::prelude::*;
use crate::decimal::{decimal, format_u128, magnitude};
use crate::error::InvariantError;
use crate::ledger::state::{word, CoreState};

verus! {

/// The highest protocol fee, in basis points.
pub const MAX_FEE_BPS: u16 = 10;

/// The least field pressure that minting assumes.
pub const MIN_FIELD_PRESSURE: u128 = 1000000;

/// The multiplier a new token starts with, and the ceiling it must stay under.
pub const INITIAL_MULTIPLIER: u128 = 1000000000000000;

/// The state of the share token.
#[derive(Clone, Debug)]
pub struct RiftTokenState {
    pub total_shares: u64,
    pub rift_multiplier: u128,
    pub fee_bps: u16,
}

/// The pressure of the ledger's field: its magnitude, but at least `MIN_FIELD_PRESSURE`.
pub open spec fn field_pressure(core: CoreState) -> int {
    let m = if core.global_field < 0 {
        -core.global_field
    } else {
        core.global_field as int
    };
    if m > MIN_FIELD_PRESSURE {
        m
    } else {
        MIN_FIELD_PRESSURE as int
    }
}

/// The multiplier that minting applies: 10^15 over the field pressure, so at most 10^9.
pub open spec fn mint_multiplier(core: CoreState) -> int {
    1000000000000000int / field_pressure(core)
}

/// The text reported when the mint multiplier is over its ceiling.
pub open spec fn multiplier_ceiling_text(multiplier: int, pressure: int) -> Seq<char> {
    "mint_multiplier "@ + decimal(multiplier as nat) + " exceeds ceiling 1e9 (field_pressure="@
        + decimal(pressure as nat) + ")"@
}

impl RiftTokenState {
    /// What `issue_rift(core, amount)` does: the fee (`fee_bps` basis points of
    /// `amount`, rounded down) is kept back, and the rest is minted into shares
    /// at the mint multiplier, over 10^12, rounded down. Nothing happens when the
    /// ledger is paused, the amount is zero, a positive fee rounds to zero, or
    /// no whole share results.
    pub open spec fn issue_outcome(self, core: CoreState, amount: u64) -> Result<
        RiftTokenState,
        Seq<char>,
    > {
        let fee = amount * self.fee_bps / 10000;
        let after_fee = amount - fee;
        let mm = mint_multiplier(core);
        let shares = after_fee * mm / 1000000000000;
        if core.paused || amount == 0 {
            Ok(self)
        } else if fee > u64::MAX {
            Err("overflow: fee_amount downcast"@)
        } else if self.fee_bps > 0 && fee == 0 {
            Ok(self)
        } else if fee > amount {
            Err("underflow: amount_after_fee"@)
        } else if mm > 1000000000 {
            Err(multiplier_ceiling_text(mm, field_pressure(core)))
        } else if shares == 0 {
            Ok(self)
        } else if self.total_shares + shares > u64::MAX {
            Err("overflow: total_shares"@)
        } else {
            Ok(RiftTokenState { total_shares: (self.total_shares + shares) as u64, ..self })
        }
    }

    /// The hash of `fingerprint`: the shares, the multiplier's bits above the
    /// lowest 32, and the fee, read as digits of base 31, modulo 2^64.
    pub open spec fn fingerprint_spec(self) -> int {
        (31 * (31 * self.total_shares as int + ((self.rift_multiplier >> 32u32) as u64) as int)
            + self.fee_bps as int) % word()
    }

    /// A token with no shares, the initial multiplier, and the fee capped at `MAX_FEE_BPS`.
    pub fn new(fee_bps: u16) -> (t: Self)
        ensures
            t.total_shares == 0,
            t.rift_multiplier == INITIAL_MULTIPLIER,
            t.fee_bps == if fee_bps < MAX_FEE_BPS {
                fee_bps
            } else {
                MAX_FEE_BPS
            },
    {
        let fee = if fee_bps < MAX_FEE_BPS {
            fee_bps
        } else {
            MAX_FEE_BPS
        };
        RiftTokenState { total_shares: 0, rift_multiplier: INITIAL_MULTIPLIER, fee_bps: fee }
    }

    /// The field pressure of `core`, computed.
    fn pressure_of(core: &CoreState) -> (p: u128)
        ensures
            p as int == field_pressure(*core),
    {
        let m = magnitude(core.global_field);
        if m > MIN_FIELD_PRESSURE {
            m
        } else {
            MIN_FIELD_PRESSURE
        }
    }

    /// Mints shares for `base_amount`, less the fee, at the pressure of the
    /// ledger's field. The ledger is only read.
    pub fn issue_rift(&mut self, core: &CoreState, base_amount: u64) -> (res: Result<(), InvariantError>)
        ensures
            match old(self).issue_outcome(*core, base_amount) {
                Ok(n) => res is Ok && *final(self) == n,
                Err(m) => res matches Err(e) && e.0@ == m && *final(self) == *old(self),
            },
    {
        if core.paused || base_amount == 0 {
            return Ok(());
        }
        proof {
            assert(base_amount * self.fee_bps <= u64::MAX * u16::MAX) by (nonlinear_arith);
        }
        let fee_amount_u128 = (base_amount as u128 * self.fee_bps as u128) / 10000;
        if fee_amount_u128 > u64::MAX as u128 {
            return Err(InvariantError::new("overflow: fee_amount downcast"));
        }
        let fee_amount = fee_amount_u128 as u64;
        if self.fee_bps > 0 && fee_amount == 0 {
            return Ok(());
        }
        let amount_after_fee = match base_amount.checked_sub(fee_amount) {
            Some(v) => v,
            None => {
                return Err(InvariantError::new("underflow: amount_after_fee"));
            },
        };
        let field_pressure = Self::pressure_of(core);
        let mint_multiplier = match 1000000000000000u128.checked_div(field_pressure) {
            Some(v) => v,
            None => 1000000000000u128,
        };
        if mint_multiplier > 1000000000u128 {
            let mut m = String::from_str("mint_multiplier ");
            m.append(format_u128(mint_multiplier).as_str());
            m.append(" exceeds ceiling 1e9 (field_pressure=");
            m.append(format_u128(field_pressure).as_str());
            m.append(")");
            return Err(InvariantError(m));
        }
        proof {
            assert(amount_after_fee * mint_multiplier <= u64::MAX * 1000000000) by (nonlinear_arith)
                requires
                    mint_multiplier <= 1000000000,
            ;
        }
        let product = match (amount_after_fee as u128).checked_mul(mint_multiplier) {
            Some(v) => v,
            None => {
                return Err(InvariantError::new("overflow: shares_to_mint mult"));
            },
        };
        let shares_to_mint_u128 = product / 1000000000000u128;
        if shares_to_mint_u128 == 0 {
            return Ok(());
        }
        proof {
            assert(shares_to_mint_u128 <= amount_after_fee) by (nonlinear_arith)
                requires
                    shares_to_mint_u128 == product / 1000000000000,
                    product == amount_after_fee * mint_multiplier,
                    mint_multiplier <= 1000000000,
            ;
        }
        if shares_to_mint_u128 > u64::MAX as u128 {
            return Err(InvariantError::new("overflow: shares_to_mint downcast"));
        }
        let shares_to_mint = shares_to_mint_u128 as u64;
        self.total_shares = match self.total_shares.checked_add(shares_to_mint) {
            Some(v) => v,
            None => {
                return Err(InvariantError::new("overflow: total_shares"));
            },
        };
        Ok(())
    }

    /// Sets the multiplier to the current mint multiplier of `core`, which
    /// never exceeds 10^9.
    pub fn rebase(&mut self, core: &CoreState)
        ensures
            final(self).rift_multiplier == mint_multiplier(*core),
            final(self).rift_multiplier <= 1000000000,
            final(self).total_shares == old(self).total_shares,
            final(self).fee_bps == old(self).fee_bps,
    {
        let field_pressure = Self::pressure_of(core);
        proof {
            assert(1000000000000000int / (field_pressure as int) <= 1000000000) by (nonlinear_arith)
                requires
                    field_pressure >= 1000000,
            ;
        }
        self.rift_multiplier = match 1000000000000000u128.checked_div(field_pressure) {
            Some(v) => v,
            None => 1000000000000u128,
        };
    }

    /// A 64-bit hash of the shares, the multiplier and the fee.
    pub fn fingerprint(&self) -> (h: u64)
        ensures
            h as int == self.fingerprint_spec(),
    {
        let mut h: u64 = 0;
        h = h.wrapping_mul(31).wrapping_add(self.total_shares as u64);
        proof {
            crate::ledger::state::lemma_hash_step(0, self.total_shares as int);
        }
        h = h.wrapping_mul(31).wrapping_add((self.rift_multiplier >> 32) as u64);
        proof {
            crate::ledger::state::lemma_hash_step(
                self.total_shares as int,
                ((self.rift_multiplier >> 32u32) as u64) as int,
            );
        }
        let ghost a = 31 * self.total_shares as int + ((self.rift_multiplier >> 32u32) as u64) as int;
        h = h.wrapping_mul(31).wrapping_add(self.fee_bps as u64);
        proof {
            crate::ledger::state::lemma_hash_step(a, self.fee_bps as int);
        }
        h
    }
}

} // verus!
