//! The operations of the ledger. Each one computes the state it would leave,
//! checks the SIRM invariants on it, and adopts it only when they hold:
//! a refused operation leaves the state as it was.

use vstd::prelude::*;
use crate::decimal::{decimal, format_u128, magnitude};
use crate::error::InvariantError;
use super::state::{fits_i128, Account, CoreState};

verus! {

/// The most participants the ledger registers; further registrations are ignored.
pub const MAX_PARTICIPANTS: u64 = 100000;

/// The step of the deflationary tick: minus Euler's number times 10^18.
pub const NEG_E: i128 = -2718281828459045235i128;

/// The most participants for which the deflationary tick still runs.
pub const NEG_E_MAX_P: i128 = 6827960122002486635i128;

/// What the invariant check makes of a candidate state: the state itself when
/// the check accepts it, else the text of the failing check.
pub open spec fn accepted(c: CoreState) -> Result<CoreState, Seq<char>> {
    if c.well_formed() {
        Ok(c)
    } else {
        Err(c.invariant_failure().unwrap())
    }
}

/// The text reported when an edge cost would burn more than the supply.
pub open spec fn edge_burn_text(supply: int, burn: int) -> Seq<char> {
    "SupplyUnderflow on edge burn: supply("@ + decimal(supply as nat) + ") < burn("@ + decimal(
        burn as nat,
    ) + ")"@
}

/// The ledger state with the supply, minted and burned totals replaced.
pub open spec fn with_totals(s: CoreState, supply: int, minted: int, burned: int) -> CoreState {
    CoreState {
        total_supply: supply as u128,
        total_minted: minted as u128,
        total_burned: burned as u128,
        ..s
    }
}

impl CoreState {
    /// A ledger the operations can always keep well formed: the invariants hold,
    /// and with no participants there is no dust either.
    pub open spec fn settled(self) -> bool {
        &&& self.well_formed()
        &&& self.participants_count == 0 ==> self.dust_accumulator == 0
    }

    /// What `register` does: a new participant, whose base balance is minus the
    /// field (so its effective balance is zero), joins the ledger.
    pub open spec fn register_outcome(self) -> Result<CoreState, Seq<char>> {
        if self.participants_count >= MAX_PARTICIPANTS {
            Ok(self)
        } else if !fits_i128(self.total_base_sum - self.global_field) {
            Err("overflow: total_base_sum (register)"@)
        } else {
            accepted(
                CoreState {
                    participants_count: (self.participants_count + 1) as u64,
                    total_base_sum: (self.total_base_sum - self.global_field) as i128,
                    ..self
                },
            )
        }
    }

    /// What `unregister(b)` does: `Ok((false, s))` when the exit is refused,
    /// `Ok((true, n))` when the participant with base balance `b` has left, its
    /// base balance burned (or, when negative, minted back) and the dust
    /// reduced modulo the remaining participants.
    pub open spec fn unregister_outcome(self, b: i128) -> Result<(bool, CoreState), Seq<char>> {
        let p = self.participants_count as int;
        let supply = self.total_supply as int;
        let minted = self.total_minted as int;
        let burned = self.total_burned as int;
        let mag = if b < 0 { -b } else { b as int };
        if p == 0 {
            Ok((false, self))
        } else if !fits_i128(b + self.global_field) {
            Err("overflow: effective_balance"@)
        } else if b + self.global_field < 0 {
            Ok((false, self))
        } else if b > 0 && supply < b {
            Ok((false, self))
        } else if b > 0 && burned + b > u128::MAX {
            Err("overflow: total_burned"@)
        } else if b < 0 && supply + mag > u128::MAX {
            Err("overflow: total_supply (unreg mint)"@)
        } else if b < 0 && minted + mag > u128::MAX {
            Err("overflow: total_minted"@)
        } else if !fits_i128(self.total_base_sum - b) {
            Err("overflow: total_base_sum sub"@)
        } else if !fits_i128(self.total_base_sum - b + self.global_field) {
            Err("overflow: total_base_sum add"@)
        } else {
            let totals = if b > 0 {
                with_totals(self, supply - b, minted, burned + b)
            } else if b < 0 {
                with_totals(self, supply + mag, minted + mag, burned)
            } else {
                self
            };
            let left = (p - 1) as u64;
            let dust = if left > 0 && self.dust_accumulator >= left as u128 {
                (self.dust_accumulator % (left as u128)) as u128
            } else if left == 0 {
                0u128
            } else {
                self.dust_accumulator
            };
            match accepted(
                CoreState {
                    total_base_sum: (self.total_base_sum - b + self.global_field) as i128,
                    participants_count: left,
                    dust_accumulator: dust,
                    ..totals
                },
            ) {
                Ok(n) => Ok((true, n)),
                Err(m) => Err(m),
            }
        }
    }

    /// The ledger after an edge cost: the base sum pays `edge_cost`, which is
    /// burned from the supply when positive and minted into it when negative.
    pub open spec fn edge_applied(self, edge_cost: i128) -> CoreState {
        let supply = self.total_supply as int;
        let minted = self.total_minted as int;
        let burned = self.total_burned as int;
        let mag = if edge_cost < 0 { -edge_cost } else { edge_cost as int };
        if edge_cost == 0 {
            self
        } else {
            let totals = if edge_cost > 0 {
                with_totals(self, supply - edge_cost, minted, burned + edge_cost)
            } else {
                with_totals(self, supply + mag, minted + mag, burned)
            };
            CoreState { total_base_sum: (self.total_base_sum - edge_cost) as i128, ..totals }
        }
    }

    /// The supply the ledger would have after an edge cost: `edge_cost` less
    /// when positive, floored at zero; `|edge_cost|` more when negative,
    /// capped at `u128::MAX`.
    pub open spec fn supply_after_edge(self, edge_cost: i128) -> int {
        let supply = self.total_supply as int;
        if edge_cost > 0 {
            if supply >= edge_cost {
                supply - edge_cost
            } else {
                0
            }
        } else if supply - edge_cost > u128::MAX {
            u128::MAX as int
        } else {
            supply - edge_cost
        }
    }

    /// The debt limit that a transfer with this edge cost is held to: that of
    /// the ledger with the supply it would have after the transfer.
    pub open spec fn transfer_debt_limit(self, edge_cost: i128) -> int {
        CoreState { total_supply: self.supply_after_edge(edge_cost) as u128, ..self }.debt_limit_spec()
    }

    /// What `transfer(from, to, amount, edge_cost)` does, given the two base
    /// balances: the new state and the two new base balances. `amount` moves
    /// from one to the other; the sender also pays `edge_cost`, which is burned
    /// from the supply (or, when negative, minted into it). A transfer that
    /// overflows a balance, or that would leave the sender's effective balance
    /// (base balance plus field) below the debt limit of the ledger after the
    /// transfer, is skipped.
    pub open spec fn transfer_outcome(self, from: i128, to: i128, amount: u64, edge_cost: i128) -> Result<
        (CoreState, i128, i128),
        Seq<char>,
    > {
        let supply = self.total_supply as int;
        let minted = self.total_minted as int;
        let burned = self.total_burned as int;
        let new_from = from - amount - edge_cost;
        let new_to = to + amount;
        let mag = if edge_cost < 0 { -edge_cost } else { edge_cost as int };
        if self.paused || amount == 0 {
            Ok((self, from, to))
        } else if !fits_i128(from - amount) || !fits_i128(new_from) {
            Ok((self, from, to))
        } else if new_from + self.global_field < self.transfer_debt_limit(edge_cost) {
            Ok((self, from, to))
        } else if !fits_i128(new_to) {
            Ok((self, from, to))
        } else if edge_cost != 0 && !fits_i128(self.total_base_sum - edge_cost) {
            Err("overflow: total_base_sum (edge)"@)
        } else if edge_cost > 0 && supply < edge_cost {
            Err(edge_burn_text(supply, edge_cost as int))
        } else if edge_cost > 0 && burned + edge_cost > u128::MAX {
            Err("overflow: total_burned (edge)"@)
        } else if edge_cost < 0 && supply + mag > u128::MAX {
            Err("overflow: total_supply (edge mint)"@)
        } else if edge_cost < 0 && minted + mag > u128::MAX {
            Err("overflow: total_minted (edge)"@)
        } else {
            match accepted(self.edge_applied(edge_cost)) {
                Ok(n) => Ok((n, new_from as i128, new_to as i128)),
                Err(m) => Err(m),
            }
        }
    }

    /// What `redistribute(amount)` does: `amount` plus the dust is shared out
    /// equally by raising the field by the quotient `q` over the participants;
    /// `q` per participant is minted and the remainder becomes the new dust.
    pub open spec fn redistribute_outcome(self, amount: u64) -> Result<CoreState, Seq<char>> {
        let p = self.participants_count as int;
        let total = amount + self.dust_accumulator;
        let q = total / p;
        let r = total % p;
        if self.paused || p == 0 {
            Ok(self)
        } else if total > u128::MAX {
            Ok(self)
        } else if q > i128::MAX {
            Ok(self)
        } else if !fits_i128(self.global_field + q) {
            Err("overflow: global_field (redistribute)"@)
        } else if self.total_supply + q * p > u128::MAX {
            Err("overflow: total_supply (redistribute)"@)
        } else if self.total_minted + q * p > u128::MAX {
            Err("overflow: total_minted (redistribute)"@)
        } else {
            accepted(
                CoreState {
                    global_field: (self.global_field + q) as i128,
                    total_supply: (self.total_supply + q * p) as u128,
                    total_minted: (self.total_minted + q * p) as u128,
                    dust_accumulator: r as u128,
                    ..self
                },
            )
        }
    }

    /// What `apply_neg_entropy` does: the field drops by `e * 10^18` and the
    /// base sum rises by that much per participant, so the supply is unchanged.
    pub open spec fn neg_entropy_outcome(self) -> Result<CoreState, Seq<char>> {
        let p = self.participants_count as int;
        let delta = p * NEG_E;
        if self.paused {
            Ok(self)
        } else if p > NEG_E_MAX_P {
            Ok(self)
        } else if !fits_i128(self.global_field + NEG_E) {
            Err("overflow: global_field (neg_entropy)"@)
        } else if !fits_i128(self.total_base_sum - delta) {
            Err("overflow: total_base_sum (neg_entropy)"@)
        } else {
            accepted(
                CoreState {
                    global_field: (self.global_field + NEG_E) as i128,
                    total_base_sum: (self.total_base_sum - delta) as i128,
                    ..self
                },
            )
        }
    }

    /// Adopts `candidate` when it passes the invariant check.
    fn adopt(&mut self, candidate: CoreState) -> (res: Result<(), InvariantError>)
        ensures
            match accepted(candidate) {
                Ok(n) => res is Ok && *final(self) == n,
                Err(m) => res matches Err(e) && e.0@ == m && *final(self) == *old(self),
            },
    {
        proof {
            candidate.lemma_failure_iff_ill_formed();
        }
        match candidate.check_invariant() {
            Ok(()) => {
                *self = candidate;
                Ok(())
            },
            Err(e) => Err(e),
        }
    }

    /// Adds a participant whose effective balance is zero, keeping I1.
    pub fn register(&mut self) -> (res: Result<(), InvariantError>)
        ensures
            match old(self).register_outcome() {
                Ok(n) => res is Ok && *final(self) == n,
                Err(m) => res matches Err(e) && e.0@ == m && *final(self) == *old(self),
            },
    {
        if self.participants_count >= MAX_PARTICIPANTS {
            return Ok(());
        }
        let participants_count = match self.participants_count.checked_add(1) {
            Some(v) => v,
            None => {
                return Err(InvariantError::new("overflow: participants_count++"));
            },
        };
        let total_base_sum = match self.total_base_sum.checked_sub(self.global_field) {
            Some(v) => v,
            None => {
                return Err(InvariantError::new("overflow: total_base_sum (register)"));
            },
        };
        let candidate = CoreState { participants_count, total_base_sum, ..*self };
        self.adopt(candidate)
    }
    /// Removes a participant whose base balance is `base_balance`. Refused,
    /// with `Ok(false)`, when there is no participant, when the effective
    /// balance is negative, or when the balance exceeds the supply; otherwise
    /// the balance is burned (or minted back when negative) and `Ok(true)` returned.
    pub fn unregister(&mut self, base_balance: i128) -> (res: Result<bool, InvariantError>)
        ensures
            match old(self).unregister_outcome(base_balance) {
                Ok((left, n)) => res == Ok::<bool, InvariantError>(left) && *final(self) == n,
                Err(m) => res matches Err(e) && e.0@ == m && *final(self) == *old(self),
            },
    {
        if self.participants_count == 0 {
            return Ok(false);
        }
        let effective = match base_balance.checked_add(self.global_field) {
            Some(v) => v,
            None => {
                return Err(InvariantError::new("overflow: effective_balance"));
            },
        };
        if effective < 0 {
            return Ok(false);
        }
        let mut total_supply = self.total_supply;
        let mut total_minted = self.total_minted;
        let mut total_burned = self.total_burned;
        if base_balance > 0 {
            let burn = base_balance as u128;
            if total_supply < burn {
                return Ok(false);
            }
            total_supply = match total_supply.checked_sub(burn) {
                Some(v) => v,
                None => {
                    return Err(InvariantError::new("overflow: total_supply (unreg burn)"));
                },
            };
            total_burned = match total_burned.checked_add(burn) {
                Some(v) => v,
                None => {
                    return Err(InvariantError::new("overflow: total_burned"));
                },
            };
        } else if base_balance < 0 {
            let mint = magnitude(base_balance);
            total_supply = match total_supply.checked_add(mint) {
                Some(v) => v,
                None => {
                    return Err(InvariantError::new("overflow: total_supply (unreg mint)"));
                },
            };
            total_minted = match total_minted.checked_add(mint) {
                Some(v) => v,
                None => {
                    return Err(InvariantError::new("overflow: total_minted"));
                },
            };
        }
        let reduced = match self.total_base_sum.checked_sub(base_balance) {
            Some(v) => v,
            None => {
                return Err(InvariantError::new("overflow: total_base_sum sub"));
            },
        };
        let total_base_sum = match reduced.checked_add(self.global_field) {
            Some(v) => v,
            None => {
                return Err(InvariantError::new("overflow: total_base_sum add"));
            },
        };
        let participants_count = match self.participants_count.checked_sub(1) {
            Some(v) => v,
            None => {
                return Err(InvariantError::new("underflow: participants_count--"));
            },
        };
        let mut dust_accumulator = self.dust_accumulator;
        if participants_count > 0 && dust_accumulator >= participants_count as u128 {
            dust_accumulator = match dust_accumulator.checked_rem(participants_count as u128) {
                Some(v) => v,
                None => {
                    return Err(InvariantError::new("div-by-zero: dust normalize"));
                },
            };
        } else if participants_count == 0 {
            dust_accumulator = 0;
        }
        let candidate = CoreState {
            total_supply,
            total_minted,
            total_burned,
            total_base_sum,
            participants_count,
            dust_accumulator,
            ..*self
        };
        match self.adopt(candidate) {
            Ok(()) => Ok(true),
            Err(e) => Err(e),
        }
    }
    /// Moves `amount` from `from` to `to`; the sender also pays `edge_cost`,
    /// burned from the supply (or minted into it when negative). Skipped when
    /// paused, when `amount` is zero, when a balance would overflow, or when
    /// the sender's effective balance would fall below the debt limit of the
    /// ledger after the transfer.
    pub fn transfer(&mut self, from: &mut Account, to: &mut Account, amount: u64, edge_cost: i128) -> (res:
        Result<(), InvariantError>)
        ensures
            match old(self).transfer_outcome(
                old(from).base_balance,
                old(to).base_balance,
                amount,
                edge_cost,
            ) {
                Ok((n, f, t)) => {
                    &&& res is Ok
                    &&& *final(self) == n
                    &&& final(from).base_balance == f
                    &&& final(to).base_balance == t
                },
                Err(m) => {
                    &&& res matches Err(e) && e.0@ == m
                    &&& *final(self) == *old(self)
                    &&& *final(from) == *old(from)
                    &&& *final(to) == *old(to)
                },
            },
    {
        if self.paused || amount == 0 {
            return Ok(());
        }
        let amt = amount as i128;
        let new_from = match from.base_balance.checked_sub(amt) {
            Some(v) => match v.checked_sub(edge_cost) {
                Some(w) => w,
                None => {
                    return Ok(());
                },
            },
            None => {
                return Ok(());
            },
        };
        let post_supply = if edge_cost > 0 {
            self.total_supply.saturating_sub(edge_cost as u128)
        } else {
            self.total_supply.saturating_add(magnitude(edge_cost))
        };
        let limit_state = CoreState { total_supply: post_supply, ..*self };
        let debt_limit = match limit_state.debt_limit() {
            Ok(v) => v,
            Err(e) => {
                return Err(e);
            },
        };
        let below_limit = match new_from.checked_add(self.global_field) {
            Some(effective) => effective < debt_limit,
            None => self.global_field < 0,
        };
        if below_limit {
            return Ok(());
        }
        let new_to = match to.base_balance.checked_add(amt) {
            Some(v) => v,
            None => {
                return Ok(());
            },
        };
        let mut candidate = CoreState { ..*self };
        if edge_cost != 0 {
            candidate.total_base_sum = match self.total_base_sum.checked_sub(edge_cost) {
                Some(v) => v,
                None => {
                    return Err(InvariantError::new("overflow: total_base_sum (edge)"));
                },
            };
            if edge_cost > 0 {
                let burn = edge_cost as u128;
                if self.total_supply < burn {
                    let mut m = String::from_str("SupplyUnderflow on edge burn: supply(");
                    m.append(format_u128(self.total_supply).as_str());
                    m.append(") < burn(");
                    m.append(format_u128(burn).as_str());
                    m.append(")");
                    return Err(InvariantError(m));
                }
                candidate.total_supply = match self.total_supply.checked_sub(burn) {
                    Some(v) => v,
                    None => {
                        return Err(InvariantError::new("overflow: total_supply (edge burn)"));
                    },
                };
                candidate.total_burned = match self.total_burned.checked_add(burn) {
                    Some(v) => v,
                    None => {
                        return Err(InvariantError::new("overflow: total_burned (edge)"));
                    },
                };
            } else {
                let mint = magnitude(edge_cost);
                candidate.total_supply = match self.total_supply.checked_add(mint) {
                    Some(v) => v,
                    None => {
                        return Err(InvariantError::new("overflow: total_supply (edge mint)"));
                    },
                };
                candidate.total_minted = match self.total_minted.checked_add(mint) {
                    Some(v) => v,
                    None => {
                        return Err(InvariantError::new("overflow: total_minted (edge)"));
                    },
                };
            }
        }
        match self.adopt(candidate) {
            Ok(()) => {
                from.base_balance = new_from;
                to.base_balance = new_to;
                Ok(())
            },
            Err(e) => Err(e),
        }
    }
    /// Shares `amount`, with the dust left from earlier rounds, equally among
    /// all participants in one step: the field rises by the quotient, the
    /// remainder is kept as dust. Skipped when paused, with no participants,
    /// or when the share does not fit.
    pub fn redistribute(&mut self, amount: u64) -> (res: Result<(), InvariantError>)
        ensures
            match old(self).redistribute_outcome(amount) {
                Ok(n) => res is Ok && *final(self) == n,
                Err(m) => res matches Err(e) && e.0@ == m && *final(self) == *old(self),
            },
    {
        if self.paused || self.participants_count == 0 {
            return Ok(());
        }
        let p_u128 = self.participants_count as u128;
        let total = match (amount as u128).checked_add(self.dust_accumulator) {
            Some(v) => v,
            None => {
                return Ok(());
            },
        };
        let q = total / p_u128;
        let r = total % p_u128;
        if q > i128::MAX as u128 {
            return Ok(());
        }
        let q_i128 = q as i128;
        let global_field = match self.global_field.checked_add(q_i128) {
            Some(v) => v,
            None => {
                return Err(InvariantError::new("overflow: global_field (redistribute)"));
            },
        };
        proof {
            assert(q * p_u128 <= total) by (nonlinear_arith)
                requires
                    q == total / p_u128,
                    p_u128 > 0,
            ;
        }
        let distributed = match q.checked_mul(p_u128) {
            Some(v) => v,
            None => {
                return Err(InvariantError::new("overflow: distributed"));
            },
        };
        let total_supply = match self.total_supply.checked_add(distributed) {
            Some(v) => v,
            None => {
                return Err(InvariantError::new("overflow: total_supply (redistribute)"));
            },
        };
        let total_minted = match self.total_minted.checked_add(distributed) {
            Some(v) => v,
            None => {
                return Err(InvariantError::new("overflow: total_minted (redistribute)"));
            },
        };
        let candidate = CoreState {
            global_field,
            total_supply,
            total_minted,
            dust_accumulator: r,
            ..*self
        };
        self.adopt(candidate)
    }

    /// The deflationary tick: the field drops by `e * 10^18`, every
    /// participant's effective balance with it, while the base sum absorbs
    /// the change so that the supply stays as it was. Skipped when paused or
    /// with more than `NEG_E_MAX_P` participants.
    pub fn apply_neg_entropy(&mut self) -> (res: Result<(), InvariantError>)
        ensures
            match old(self).neg_entropy_outcome() {
                Ok(n) => res is Ok && *final(self) == n,
                Err(m) => res matches Err(e) && e.0@ == m && *final(self) == *old(self),
            },
    {
        if self.paused {
            return Ok(());
        }
        let p_i128 = self.participants_count as i128;
        if p_i128 > NEG_E_MAX_P {
            return Ok(());
        }
        let delta = match p_i128.checked_mul(NEG_E) {
            Some(v) => v,
            None => {
                return Err(InvariantError::new("overflow: delta (neg_entropy)"));
            },
        };
        let global_field = match self.global_field.checked_add(NEG_E) {
            Some(v) => v,
            None => {
                return Err(InvariantError::new("overflow: global_field (neg_entropy)"));
            },
        };
        let total_base_sum = match self.total_base_sum.checked_sub(delta) {
            Some(v) => v,
            None => {
                return Err(InvariantError::new("overflow: total_base_sum (neg_entropy)"));
            },
        };
        let candidate = CoreState { global_field, total_base_sum, ..*self };
        self.adopt(candidate)
    }
}

} // verus!
