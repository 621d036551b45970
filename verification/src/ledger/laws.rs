//! What holds of the ledger's operations as a whole: the SIRM invariants are
//! kept by every operation, the check never refuses what sound arithmetic
//! produced, and the economics of each operation (what is minted, burned,
//! shared out or kept) hold exactly.

use vstd::prelude::*;
use super::operations::{accepted, MAX_PARTICIPANTS, NEG_E, NEG_E_MAX_P};
use super::state::{fits_i128, CoreState};

verus! {

/// The effective balance of a participant with base balance `b`.
pub open spec fn effective_balance(s: CoreState, b: int) -> int {
    b + s.global_field
}

/// Every operation keeps the SIRM invariants: from a well-formed ledger an
/// operation that succeeds leaves a well-formed ledger, and from a settled
/// one (well formed, and without dust when without participants) a settled one.
pub proof fn law_operations_keep_invariants(
    s: CoreState,
    base_balance: i128,
    from: i128,
    to: i128,
    amount: u64,
    edge_cost: i128,
    reward: u64,
)
    ensures
        s.well_formed() ==> {
            &&& s.register_outcome() matches Ok(n) ==> n.well_formed()
            &&& s.unregister_outcome(base_balance) matches Ok((_, n)) ==> n.well_formed()
            &&& s.transfer_outcome(from, to, amount, edge_cost) matches Ok((n, _, _))
                ==> n.well_formed()
            &&& s.redistribute_outcome(reward) matches Ok(n) ==> n.well_formed()
            &&& s.neg_entropy_outcome() matches Ok(n) ==> n.well_formed()
        },
        s.settled() ==> {
            &&& s.register_outcome() matches Ok(n) ==> n.settled()
            &&& s.unregister_outcome(base_balance) matches Ok((_, n)) ==> n.settled()
            &&& s.transfer_outcome(from, to, amount, edge_cost) matches Ok((n, _, _))
                ==> n.settled()
            &&& s.redistribute_outcome(reward) matches Ok(n) ==> n.settled()
            &&& s.neg_entropy_outcome() matches Ok(n) ==> n.settled()
        },
{
    lemma_accepted_means_well_formed();
}

/// Every state the invariant check accepts is well formed.
proof fn lemma_accepted_means_well_formed()
    ensures
        forall|c: CoreState| #[trigger]
            accepted(c) is Ok ==> accepted(c) == Ok::<CoreState, Seq<char>>(c) && c.well_formed(),
{
    assert forall|c: CoreState| #[trigger] accepted(c) is Ok implies accepted(c) == Ok::<
        CoreState,
        Seq<char>,
    >(c) && c.well_formed() by {
        c.lemma_failure_iff_ill_formed();
    }
}

/// From a settled ledger `register` is refused only on an overflow: when the
/// base sum minus the field and the field times the new participant count fit
/// in `i128`, the participant is added.
pub proof fn law_register_refused_only_on_overflow(s: CoreState)
    requires
        s.settled(),
        s.participants_count < MAX_PARTICIPANTS,
        fits_i128(s.total_base_sum - s.global_field),
        fits_i128(s.global_field * (s.participants_count + 1)),
    ensures
        s.register_outcome() == Ok::<CoreState, Seq<char>>(
            CoreState {
                participants_count: (s.participants_count + 1) as u64,
                total_base_sum: (s.total_base_sum - s.global_field) as i128,
                ..s
            },
        ),
{
    let c = CoreState {
        participants_count: (s.participants_count + 1) as u64,
        total_base_sum: (s.total_base_sum - s.global_field) as i128,
        ..s
    };
    let f = s.global_field as int;
    let p = s.participants_count as int;
    assert(f * (p + 1) == f * p + f) by (nonlinear_arith);
    c.lemma_failure_iff_ill_formed();
}

/// From a well-formed ledger `unregister` is refused only on an overflow or when
/// the minted supply would leave `i128`: a participant with a non-negative
/// effective balance, whose positive balance the supply covers, leaves.
pub proof fn law_unregister_refused_only_on_overflow(s: CoreState, b: i128)
    requires
        s.well_formed(),
        s.participants_count > 0,
        fits_i128(b + s.global_field),
        b + s.global_field >= 0,
        b > 0 ==> s.total_supply >= b && s.total_burned + b <= u128::MAX,
        b < 0 ==> s.total_supply - b <= i128::MAX && s.total_minted - b <= u128::MAX,
        fits_i128(s.total_base_sum - b),
        fits_i128(s.total_base_sum - b + s.global_field),
        fits_i128(s.global_field * (s.participants_count - 1)),
    ensures
        s.unregister_outcome(b) matches Ok((left, n)) && left && n.participants_count
            == s.participants_count - 1 && n.total_supply == s.total_supply - b,
{
    let f = s.global_field as int;
    let p = s.participants_count as int;
    assert(f * (p - 1) == f * p - f) by (nonlinear_arith);
    lemma_accepted_means_well_formed();
    let left = (p - 1) as u64;
    if left > 0 && s.dust_accumulator >= left as u128 {
        assert((s.dust_accumulator % (left as u128)) < left) by (nonlinear_arith)
            requires
                left > 0,
        ;
    }
    let r = s.unregister_outcome(b);
    let mag = if b < 0 { -b } else { b as int };
    let totals = if b > 0 {
        super::operations::with_totals(s, s.total_supply - b, s.total_minted as int, s.total_burned + b)
    } else if b < 0 {
        super::operations::with_totals(s, s.total_supply + mag, s.total_minted + mag, s.total_burned as int)
    } else {
        s
    };
    let dust = if left > 0 && s.dust_accumulator >= left as u128 {
        (s.dust_accumulator % (left as u128)) as u128
    } else if left == 0 {
        0u128
    } else {
        s.dust_accumulator
    };
    let c = CoreState {
        total_base_sum: (s.total_base_sum - b + s.global_field) as i128,
        participants_count: left,
        dust_accumulator: dust,
        ..totals
    };
    c.lemma_failure_iff_ill_formed();
}

/// From a well-formed ledger `redistribute` is refused only on an overflow or
/// when the new supply would leave `i128`.
pub proof fn law_redistribute_refused_only_on_overflow(s: CoreState, amount: u64)
    requires
        s.well_formed(),
        !s.paused,
        s.participants_count > 0,
        amount + s.dust_accumulator <= u128::MAX,
        (amount + s.dust_accumulator) / (s.participants_count as int) <= i128::MAX,
        fits_i128(s.global_field + (amount + s.dust_accumulator) / (s.participants_count as int)),
        s.total_supply + (amount + s.dust_accumulator) / (s.participants_count as int)
            * s.participants_count <= i128::MAX,
        s.total_minted + (amount + s.dust_accumulator) / (s.participants_count as int)
            * s.participants_count <= u128::MAX,
        fits_i128(
            (s.global_field + (amount + s.dust_accumulator) / (s.participants_count as int))
                * s.participants_count,
        ),
    ensures
        s.redistribute_outcome(amount) is Ok,
{
    let p = s.participants_count as int;
    let total = amount + s.dust_accumulator;
    let q = total / p;
    let f = s.global_field as int;
    assert((f + q) * p == f * p + q * p) by (nonlinear_arith);
    assert(total % p < p) by (nonlinear_arith)
        requires
            p > 0,
    ;
    let c = CoreState {
        global_field: (s.global_field + q) as i128,
        total_supply: (s.total_supply + q * p) as u128,
        total_minted: (s.total_minted + q * p) as u128,
        dust_accumulator: (total % p) as u128,
        ..s
    };
    c.lemma_failure_iff_ill_formed();
}

/// From a well-formed ledger the deflationary tick is refused only on an overflow.
pub proof fn law_neg_entropy_refused_only_on_overflow(s: CoreState)
    requires
        s.well_formed(),
        !s.paused,
        s.participants_count <= NEG_E_MAX_P,
        fits_i128(s.global_field + NEG_E),
        fits_i128(s.total_base_sum - s.participants_count * NEG_E),
        fits_i128((s.global_field + NEG_E) * s.participants_count),
    ensures
        s.neg_entropy_outcome() is Ok,
{
    let p = s.participants_count as int;
    let f = s.global_field as int;
    assert((f + NEG_E) * p == f * p + p * NEG_E) by (nonlinear_arith);
    let c = CoreState {
        global_field: (s.global_field + NEG_E) as i128,
        total_base_sum: (s.total_base_sum - p * NEG_E) as i128,
        ..s
    };
    c.lemma_failure_iff_ill_formed();
}

/// From a well-formed ledger a transfer that passes its own guards (not
/// paused, a non-zero amount, no overflowing balance, the sender's effective
/// balance at or above the debt limit after the transfer) is refused only on
/// an overflow or when the edge cost burns more than the supply or mints it
/// out of `i128`.
pub proof fn law_transfer_refused_only_on_overflow(
    s: CoreState,
    from: i128,
    to: i128,
    amount: u64,
    edge_cost: i128,
)
    requires
        s.well_formed(),
        !s.paused,
        amount > 0,
        fits_i128(from - amount),
        fits_i128(from - amount - edge_cost),
        fits_i128(to + amount),
        edge_cost != 0 ==> fits_i128(s.total_base_sum - edge_cost),
        edge_cost > 0 ==> s.total_supply >= edge_cost && s.total_burned + edge_cost <= u128::MAX,
        edge_cost < 0 ==> s.total_supply - edge_cost <= i128::MAX && s.total_minted - edge_cost
            <= u128::MAX,
        from - amount - edge_cost + s.global_field >= s.transfer_debt_limit(edge_cost),
    ensures
        s.transfer_outcome(from, to, amount, edge_cost) matches Ok((n, f, t)) && f == from - amount
            - edge_cost && t == to + amount,
{
    lemma_accepted_means_well_formed();
    s.lemma_failure_iff_ill_formed();
    s.edge_applied(edge_cost).lemma_failure_iff_ill_formed();
}

/// Registering mints and burns nothing and leaves the field: the newcomer's
/// base balance is minus the field, so its effective balance is zero.
pub proof fn law_register_keeps_supply(s: CoreState)
    ensures
        s.register_outcome() matches Ok(n) ==> {
            &&& n.total_supply == s.total_supply
            &&& n.total_minted == s.total_minted
            &&& n.total_burned == s.total_burned
            &&& n.global_field == s.global_field
            &&& n.participants_count == s.participants_count + 1 ==> effective_balance(
                n,
                n.total_base_sum - s.total_base_sum,
            ) == 0
        },
{
    lemma_accepted_means_well_formed();
}

/// Redistribution loses nothing and treats every participant alike: when the
/// reward is shared out, every effective balance rises by the same quotient
/// `q` of the reward plus the old dust over the participants, exactly `q`
/// per participant is minted, and the remainder is the new dust.
pub proof fn law_redistribute_conserves(s: CoreState, amount: u64, b: int)
    requires
        !s.paused,
        s.participants_count > 0,
        amount + s.dust_accumulator <= u128::MAX,
        (amount + s.dust_accumulator) / (s.participants_count as int) <= i128::MAX,
    ensures
        s.redistribute_outcome(amount) matches Ok(n) ==> {
            let q = n.global_field - s.global_field;
            &&& q == (amount + s.dust_accumulator) / (s.participants_count as int)
            &&& effective_balance(n, b) == effective_balance(s, b) + q
            &&& amount + s.dust_accumulator == q * s.participants_count + n.dust_accumulator
            &&& n.total_supply == s.total_supply + q * s.participants_count
            &&& n.total_minted == s.total_minted + q * s.participants_count
            &&& n.total_burned == s.total_burned
            &&& n.total_base_sum == s.total_base_sum
            &&& n.participants_count == s.participants_count
            &&& n.dust_accumulator < n.participants_count
        },
{
    lemma_accepted_means_well_formed();
    let p = s.participants_count as int;
    let total = amount + s.dust_accumulator;
    assert(total == (total / p) * p + total % p && total % p < p) by (nonlinear_arith)
        requires
            p > 0,
            total >= 0,
    ;
}

/// The deflationary tick changes no supply: when it runs, every effective
/// balance drops by `e * 10^18` and the base sum absorbs the difference.
pub proof fn law_neg_entropy_keeps_supply(s: CoreState, b: int)
    ensures
        s.neg_entropy_outcome() matches Ok(n) ==> {
            &&& n.total_supply == s.total_supply
            &&& n.total_minted == s.total_minted
            &&& n.total_burned == s.total_burned
            &&& n.participants_count == s.participants_count
            &&& !s.paused && s.participants_count <= NEG_E_MAX_P ==> effective_balance(n, b)
                == effective_balance(s, b) + NEG_E
        },
{
    lemma_accepted_means_well_formed();
}

/// An exit refused with `Ok(false)` changes nothing, in particular when the
/// effective balance is negative; an exit made burns exactly the leaving base
/// balance (mints it back when negative: the minted total rises and the
/// burned total stays), and the dust is reduced modulo the
/// remaining participants (cleared when none remain).
pub proof fn law_unregister_effects(s: CoreState, b: i128)
    ensures
        s.unregister_outcome(b) matches Ok((false, n)) ==> n == s,
        s.participants_count > 0 && fits_i128(b + s.global_field) && b + s.global_field < 0
            ==> s.unregister_outcome(b) == Ok::<(bool, CoreState), Seq<char>>((false, s)),
        s.unregister_outcome(b) matches Ok((true, n)) ==> {
            &&& n.participants_count == s.participants_count - 1
            &&& n.total_supply == s.total_supply - b
            &&& n.total_minted - n.total_burned == s.total_minted - s.total_burned - b
            &&& b > 0 ==> n.total_burned == s.total_burned + b && n.total_minted == s.total_minted
            &&& b < 0 ==> n.total_minted == s.total_minted - b && n.total_burned == s.total_burned
            &&& b == 0 ==> n.total_minted == s.total_minted && n.total_burned == s.total_burned
            &&& n.paused == s.paused
            &&& n.total_base_sum == s.total_base_sum - b + s.global_field
            &&& n.global_field == s.global_field
            &&& n.dust_accumulator as int == if n.participants_count == 0 {
                0
            } else {
                (s.dust_accumulator as int) % (n.participants_count as int)
            }
        },
{
    lemma_accepted_means_well_formed();
    let left = (s.participants_count - 1) as int;
    if left > 0 && s.dust_accumulator < left {
        vstd::arithmetic::div_mod::lemma_small_mod(s.dust_accumulator as nat, left as nat);
    }
}

/// A transfer that moves funds keeps the sender's effective balance at or
/// above the debt limit of the ledger after it (the fourth SIRM invariant),
/// and conserves value: the two balances together
/// lose exactly the edge cost, which leaves the supply and the base sum too.
/// A transfer that moves nothing changes nothing.
pub proof fn law_transfer_conserves(s: CoreState, from: i128, to: i128, amount: u64, edge_cost: i128)
    ensures
        s.transfer_outcome(from, to, amount, edge_cost) matches Ok((n, f, t)) ==> {
            &&& t == to ==> n == s && f == from
            &&& t != to ==> {
                &&& f + n.global_field >= n.debt_limit_spec()
                &&& f == from - amount - edge_cost
                &&& t == to + amount
                &&& f + t == from + to - edge_cost
                &&& edge_cost >= 0 ==> n.total_burned == s.total_burned + edge_cost
                    && n.total_minted == s.total_minted
                &&& edge_cost < 0 ==> n.total_minted == s.total_minted - edge_cost
                    && n.total_burned == s.total_burned
                &&& n.dust_accumulator == s.dust_accumulator
                &&& n.paused == s.paused
                &&& n.total_supply == s.total_supply - edge_cost
                &&& n.total_base_sum == s.total_base_sum - edge_cost
                &&& n.global_field == s.global_field
                &&& n.participants_count == s.participants_count
            }
        },
{
    lemma_accepted_means_well_formed();
}

} // verus!
