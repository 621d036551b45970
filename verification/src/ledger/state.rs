//! The ledger state, the SIRM invariants and the check that enforces them.

use vstd::prelude::*;
use vstd::arithmetic::div_mod::{lemma_add_mod_noop, lemma_mul_mod_noop_left, lemma_small_mod};
use crate::decimal::{decimal, format_i128, format_u128, signed_decimal};
use crate::error::InvariantError;

verus! {

/// A participant's account: its balance before the global field is added.
#[derive(Clone, Copy, Debug, Default)]
pub struct Account {
    pub base_balance: i128,
}

/// The whole state of the ledger.
///
/// The effective balance of a participant is its base balance plus
/// `global_field`, so that one change of the field reaches every participant.
#[derive(Clone, Debug)]
pub struct CoreState {
    pub global_field: i128,
    pub total_base_sum: i128,
    pub total_supply: u128,
    pub total_minted: u128,
    pub total_burned: u128,
    pub participants_count: u64,
    pub dust_accumulator: u128,
    pub paused: bool,
}

/// Whether an integer is a value of `i128`.
pub open spec fn fits_i128(x: int) -> bool {
    i128::MIN <= x <= i128::MAX
}

/// Division that rounds toward zero, as Rust's `/` on signed integers does
/// (for a positive divisor).
pub open spec fn div_toward_zero(x: int, d: int) -> int {
    if x >= 0 {
        x / d
    } else {
        -((-x) / d)
    }
}

/// 2^64.
pub open spec fn word() -> int {
    0x1_0000_0000_0000_0000
}

/// The text of the first check's failure: supply differs from base sum plus field times p.
pub open spec fn supply_mismatch_text(supply: int, base: int, field: int, p: int, expected: int) -> Seq<
    char,
> {
    "SIRM invariant violated: supply("@ + signed_decimal(supply) + ") != base_sum("@
        + signed_decimal(base) + ") + field("@ + signed_decimal(field) + ") * p("@ + decimal(
        p as nat,
    ) + ") = "@ + signed_decimal(expected)
}

/// The text reported when more was burned than minted.
pub open spec fn minted_below_burned_text(minted: int, burned: int) -> Seq<char> {
    "minted("@ + decimal(minted as nat) + ") < burned("@ + decimal(burned as nat) + ")"@
}

/// The text reported when the supply differs from minted minus burned.
pub open spec fn net_supply_text(supply: int, net: int) -> Seq<char> {
    "supply("@ + decimal(supply as nat) + ") != minted-burned("@ + decimal(net as nat) + ")"@
}

/// The text reported when the dust is not below the number of participants.
pub open spec fn dust_text(dust: int, p: int) -> Seq<char> {
    "dust("@ + decimal(dust as nat) + ") >= participants("@ + decimal(p as nat) + ")"@
}

impl CoreState {
    /// The four SIRM invariants of the ledger, as stated over the integers:
    /// I1 supply equals base sum plus field times participants,
    /// I2 supply equals minted minus burned,
    /// I3 the dust is below the number of participants when there is one,
    /// and the supply is a value of `i128`.
    pub open spec fn sirm(self) -> bool {
        &&& self.total_supply as int == self.total_base_sum as int + self.global_field as int
            * self.participants_count as int
        &&& self.total_supply as int == self.total_minted as int - self.total_burned as int
        &&& self.participants_count > 0 ==> self.dust_accumulator < self.participants_count as u128
        &&& self.total_supply <= i128::MAX as u128
    }

    /// The states that `check_invariant` accepts: the SIRM invariants hold and
    /// the field's part `global_field * participants_count` is a value of `i128`.
    pub open spec fn well_formed(self) -> bool {
        &&& self.sirm()
        &&& fits_i128(self.global_field as int * self.participants_count as int)
    }

    /// What `check_invariant` reports: `None` when it accepts the state, else
    /// the text of the first check that fails, in the order the checks run.
    pub open spec fn invariant_failure(self) -> Option<Seq<char>> {
        let field_part = self.global_field as int * self.participants_count as int;
        let expected = self.total_base_sum as int + field_part;
        let supply_signed = (self.total_supply as i128) as int;
        if !fits_i128(field_part) {
            Some("overflow: field_contrib"@)
        } else if !fits_i128(expected) {
            Some("overflow: expected"@)
        } else if supply_signed != expected {
            Some(
                supply_mismatch_text(
                    supply_signed,
                    self.total_base_sum as int,
                    self.global_field as int,
                    self.participants_count as int,
                    expected,
                ),
            )
        } else if self.total_minted < self.total_burned {
            Some(minted_below_burned_text(self.total_minted as int, self.total_burned as int))
        } else if self.total_supply as int != self.total_minted as int - self.total_burned as int {
            Some(
                net_supply_text(
                    self.total_supply as int,
                    self.total_minted as int - self.total_burned as int,
                ),
            )
        } else if self.participants_count > 0 && self.dust_accumulator
            >= self.participants_count as u128 {
            Some(dust_text(self.dust_accumulator as int, self.participants_count as int))
        } else if self.total_supply > i128::MAX as u128 {
            Some("total_supply exceeds i128::MAX"@)
        } else {
            None
        }
    }

    /// The most a participant may owe, as a (non-positive) floor on a base balance:
    /// `-1` with no participants, else minus the supply over ten times the participants.
    pub open spec fn debt_limit_spec(self) -> int {
        if self.participants_count == 0 {
            -1
        } else {
            -div_toward_zero(
                (self.total_supply as i128) as int,
                10 * self.participants_count as int,
            )
        }
    }

    /// The state hash of `fingerprint`: the field, base sum, supply (each cut
    /// to 64 bits) and participant count read as the digits of a number in
    /// base 31, most significant first, modulo 2^64.
    pub open spec fn fingerprint_spec(self) -> int {
        (31 * (31 * (31 * (self.global_field as u64) as int + (self.total_base_sum as u64) as int)
            + (self.total_supply as u64) as int) + self.participants_count as int) % word()
    }

    /// The hash of `fingerprint_with_dust`: that of `fingerprint`, with the dust
    /// (cut to 64 bits) as one more digit.
    pub open spec fn fingerprint_with_dust_spec(self) -> int {
        (31 * (31 * (31 * (31 * (self.global_field as u64) as int + (
        self.total_base_sum as u64) as int) + (self.total_supply as u64) as int)
            + self.participants_count as int) + (self.dust_accumulator as u64) as int) % word()
    }

    /// The empty ledger: no participants, no supply, not paused.
    pub fn new() -> (s: Self)
        ensures
            s.global_field == 0,
            s.total_base_sum == 0,
            s.total_supply == 0,
            s.total_minted == 0,
            s.total_burned == 0,
            s.participants_count == 0,
            s.dust_accumulator == 0,
            !s.paused,
            s.settled(),
    {
        CoreState {
            global_field: 0,
            total_base_sum: 0,
            total_supply: 0,
            total_minted: 0,
            total_burned: 0,
            participants_count: 0,
            dust_accumulator: 0,
            paused: false,
        }
    }

    /// Checks the SIRM invariants, in a fixed order, and reports the first that fails.
    pub fn check_invariant(&self) -> (res: Result<(), InvariantError>)
        ensures
            match res {
                Ok(_) => self.invariant_failure() is None,
                Err(e) => self.invariant_failure() == Some(e.0@),
            },
            res is Ok <==> self.well_formed(),
    {
        proof {
            self.lemma_failure_iff_ill_formed();
        }
        let field_part = match self.global_field.checked_mul(self.participants_count as i128) {
            Some(v) => v,
            None => {
                return Err(InvariantError::new("overflow: field_contrib"));
            },
        };
        let expected = match self.total_base_sum.checked_add(field_part) {
            Some(v) => v,
            None => {
                return Err(InvariantError::new("overflow: expected"));
            },
        };
        let supply_signed = self.total_supply as i128;
        if supply_signed != expected {
            let mut m = String::from_str("SIRM invariant violated: supply(");
            m.append(format_i128(supply_signed).as_str());
            m.append(") != base_sum(");
            m.append(format_i128(self.total_base_sum).as_str());
            m.append(") + field(");
            m.append(format_i128(self.global_field).as_str());
            m.append(") * p(");
            m.append(format_u128(self.participants_count as u128).as_str());
            m.append(") = ");
            m.append(format_i128(expected).as_str());
            return Err(InvariantError(m));
        }
        if self.total_minted < self.total_burned {
            let mut m = String::from_str("minted(");
            m.append(format_u128(self.total_minted).as_str());
            m.append(") < burned(");
            m.append(format_u128(self.total_burned).as_str());
            m.append(")");
            return Err(InvariantError(m));
        }
        let net_supply = match self.total_minted.checked_sub(self.total_burned) {
            Some(v) => v,
            None => {
                return Err(InvariantError::new("overflow: net_supply"));
            },
        };
        if self.total_supply != net_supply {
            let mut m = String::from_str("supply(");
            m.append(format_u128(self.total_supply).as_str());
            m.append(") != minted-burned(");
            m.append(format_u128(net_supply).as_str());
            m.append(")");
            return Err(InvariantError(m));
        }
        if self.participants_count > 0 && self.dust_accumulator >= self.participants_count as u128 {
            let mut m = String::from_str("dust(");
            m.append(format_u128(self.dust_accumulator).as_str());
            m.append(") >= participants(");
            m.append(format_u128(self.participants_count as u128).as_str());
            m.append(")");
            return Err(InvariantError(m));
        }
        if self.total_supply > i128::MAX as u128 {
            return Err(InvariantError::new("total_supply exceeds i128::MAX"));
        }
        Ok(())
    }

    /// `invariant_failure` reports nothing exactly on the well-formed states.
    pub proof fn lemma_failure_iff_ill_formed(self)
        ensures
            self.invariant_failure() is None <==> self.well_formed(),
    {
        if self.total_supply <= i128::MAX as u128 {
            assert((self.total_supply as i128) as int == self.total_supply as int);
        }
    }

    /// The floor under a sender's base balance in a transfer.
    pub fn debt_limit(&self) -> (res: Result<i128, InvariantError>)
        ensures
            res matches Ok(limit) && limit as int == self.debt_limit_spec(),
    {
        let factor = match (self.participants_count as i128).checked_mul(10) {
            Some(v) => v,
            None => {
                return Err(InvariantError::new("overflow: debt_limit factor"));
            },
        };
        if factor == 0 {
            return Ok(-1);
        }
        let limit = match (self.total_supply as i128).checked_div(factor) {
            Some(v) => v,
            None => {
                return Err(InvariantError::new("overflow: debt_limit div"));
            },
        };
        proof {
            let x = (self.total_supply as i128) as int;
            let d = factor as int;
            assert(limit as int == div_toward_zero(x, d));
            if x >= 0 {
                assert(0 <= x / d <= x) by (nonlinear_arith)
                    requires
                        x >= 0,
                        d >= 10,
                ;
            } else {
                assert(0 <= (-x) / d < -x) by (nonlinear_arith)
                    requires
                        -x > 0,
                        d >= 10,
                ;
            }
        }
        Ok(-limit)
    }

    /// A 64-bit hash of the field, base sum, supply and participant count.
    pub fn fingerprint(&self) -> (h: u64)
        ensures
            h as int == self.fingerprint_spec(),
    {
        let mut h: u64 = 0;
        h = h.wrapping_mul(31).wrapping_add(self.global_field as u64);
        proof {
            lemma_hash_step(0, (self.global_field as u64) as int);
        }
        h = h.wrapping_mul(31).wrapping_add(self.total_base_sum as u64);
        proof {
            lemma_hash_step((self.global_field as u64) as int, (self.total_base_sum as u64) as int);
        }
        let ghost a = 31 * (self.global_field as u64) as int + (self.total_base_sum as u64) as int;
        h = h.wrapping_mul(31).wrapping_add(self.total_supply as u64);
        proof {
            lemma_hash_step(a, (self.total_supply as u64) as int);
        }
        let ghost b = 31 * a + (self.total_supply as u64) as int;
        h = h.wrapping_mul(31).wrapping_add(self.participants_count);
        proof {
            lemma_hash_step(b, self.participants_count as int);
        }
        h
    }

    /// The hash of `fingerprint` with the dust as one more input.
    pub fn fingerprint_with_dust(&self) -> (h: u64)
        ensures
            h as int == self.fingerprint_with_dust_spec(),
    {
        let mut h: u64 = 0;
        h = h.wrapping_mul(31).wrapping_add(self.global_field as u64);
        proof {
            lemma_hash_step(0, (self.global_field as u64) as int);
        }
        h = h.wrapping_mul(31).wrapping_add(self.total_base_sum as u64);
        proof {
            lemma_hash_step((self.global_field as u64) as int, (self.total_base_sum as u64) as int);
        }
        let ghost a = 31 * (self.global_field as u64) as int + (self.total_base_sum as u64) as int;
        h = h.wrapping_mul(31).wrapping_add(self.total_supply as u64);
        proof {
            lemma_hash_step(a, (self.total_supply as u64) as int);
        }
        let ghost b = 31 * a + (self.total_supply as u64) as int;
        h = h.wrapping_mul(31).wrapping_add(self.participants_count);
        proof {
            lemma_hash_step(b, self.participants_count as int);
        }
        let ghost c = 31 * b + self.participants_count as int;
        h = h.wrapping_mul(31).wrapping_add(self.dust_accumulator as u64);
        proof {
            lemma_hash_step(c, (self.dust_accumulator as u64) as int);
        }
        h
    }
}

/// One step of the base-31 hash: from the hash of `p` (modulo 2^64), adding
/// the digit `x` gives the hash of `31 * p + x`.
pub proof fn lemma_hash_step(p: int, x: int)
    requires
        0 <= p,
        0 <= x < word(),
    ensures
        vstd::wrapping::u64_specs::wrapping_add(
            vstd::wrapping::u64_specs::wrapping_mul((p % word()) as u64, 31),
            x as u64,
        ) as int == (31 * p + x) % word(),
{
    let m = word();
    let h = p % m;
    let hm = (h * 31) % m;
    lemma_mul_mod_noop_left(p, 31, m);
    assert(hm == (p * 31) % m);
    lemma_small_mod(x as nat, m as nat);
    lemma_add_mod_noop(p * 31, x, m);
    lemma_add_mod_noop(hm, x, m);
    lemma_small_mod(hm as nat, m as nat);
    assert((hm % m + x % m) % m == (p * 31 + x) % m);
    if hm + x >= m {
        lemma_small_mod((hm + x - m) as nat, m as nat);
        vstd::arithmetic::div_mod::lemma_mod_sub_multiples_vanish(hm + x, m);
    } else {
        lemma_small_mod((hm + x) as nat, m as nat);
    }
}

} // verus!
