use vstd::prelude::*;

use crate::errors::Error;
use crate::types::{AccountId, BeneficiaryModel, Multiplier, MultiplierId, MultiplierModel};

verus! {

/// Whether multiplier `id` still counts at `tick`: it is registered, and it is either
/// active or deactivated with a `valid_until` tick later than `tick`.
pub open spec fn counts_at(multipliers: Map<MultiplierId, MultiplierModel>, id: MultiplierId, tick: int) -> bool {
    &&& multipliers.contains_key(id)
    &&& match multipliers[id].valid_until {
        None => true,
        Some(v) => tick < v,
    }
}

/// Whether a weight for multiplier `id` counts at `tick`: only registered
/// multipliers count; when deactivated ones are counted as active every
/// registered multiplier counts, else only those that still count at `tick`.
pub open spec fn weight_counts(
    multipliers: Map<MultiplierId, MultiplierModel>,
    id: MultiplierId,
    tick: int,
    count_deactivated_as_active: bool,
) -> bool {
    if count_deactivated_as_active {
        multipliers.contains_key(id)
    } else {
        counts_at(multipliers, id, tick)
    }
}

/// Sum of all weights of a weight list.
pub open spec fn weight_sum(ws: Seq<(MultiplierId, Multiplier)>) -> int
    decreases ws.len(),
{
    if ws.len() == 0 {
        0
    } else {
        weight_sum(ws.drop_last()) + ws.last().1
    }
}

/// The entries of a weight list whose weight counts at `tick`, in order.
pub open spec fn retained_weights(
    ws: Seq<(MultiplierId, Multiplier)>,
    multipliers: Map<MultiplierId, MultiplierModel>,
    tick: int,
    count_deactivated_as_active: bool,
) -> Seq<(MultiplierId, Multiplier)>
    decreases ws.len(),
{
    if ws.len() == 0 {
        Seq::empty()
    } else {
        let r = retained_weights(ws.drop_last(), multipliers, tick, count_deactivated_as_active);
        if weight_counts(multipliers, ws.last().0, tick, count_deactivated_as_active) {
            r.push(ws.last())
        } else {
            r
        }
    }
}

/// No multiplier id appears twice in the weight list.
pub open spec fn ids_distinct(ws: Seq<(MultiplierId, Multiplier)>) -> bool {
    forall|i: int, j: int| 0 <= i < j < ws.len() ==> #[trigger] ws[i].0 != #[trigger] ws[j].0
}

/// The factor applied to the base payment, in percent. A beneficiary without
/// weights is paid the base payment; otherwise the weights of registered
/// multipliers are summed, either all of them or only those whose multiplier
/// still counts at `tick`. Weights for multipliers no longer registered never
/// count.
pub open spec fn multiplier_factor(
    ws: Seq<(MultiplierId, Multiplier)>,
    multipliers: Map<MultiplierId, MultiplierModel>,
    tick: int,
    count_deactivated_as_active: bool,
) -> int {
    if ws.len() == 0 {
        1
    } else {
        weight_sum(retained_weights(ws, multipliers, tick, count_deactivated_as_active))
    }
}

/// Whole periods elapsed from `last` to `tick`; none before `last`.
pub open spec fn periods_due(tick: int, last: int, periodicity: int) -> int {
    if tick < last {
        0
    } else {
        (tick - last) / periodicity
    }
}

/// Payment of one period: the factor times the base payment, divided by 100 and
/// rounded down.
pub open spec fn payment_per_period(factor: int, base_payment: int) -> int {
    factor * base_payment / 100
}

/// What a beneficiary is owed at `tick`: its unclaimed balance plus one payment for
/// each whole period elapsed since it was last settled.
pub open spec fn amount_owed(
    b: BeneficiaryModel,
    multipliers: Map<MultiplierId, MultiplierModel>,
    base_payment: int,
    periodicity: int,
    tick: int,
    count_deactivated_as_active: bool,
) -> int {
    let n = periods_due(tick, b.last_updated as int, periodicity);
    if n == 0 {
        b.unclaimed as int
    } else {
        payment_per_period(
            multiplier_factor(b.multipliers, multipliers, tick, count_deactivated_as_active),
            base_payment,
        ) * n + b.unclaimed
    }
}

/// Whether computing `amount_owed` leaves 128-bit arithmetic: the factor times the
/// base payment, or the amount itself, exceeds `u128::MAX`.
pub open spec fn amount_overflows(
    b: BeneficiaryModel,
    multipliers: Map<MultiplierId, MultiplierModel>,
    base_payment: int,
    periodicity: int,
    tick: int,
    count_deactivated_as_active: bool,
) -> bool {
    &&& periods_due(tick, b.last_updated as int, periodicity) > 0
    &&& {
        ||| multiplier_factor(b.multipliers, multipliers, tick, count_deactivated_as_active)
            * base_payment > u128::MAX
        ||| amount_owed(b, multipliers, base_payment, periodicity, tick, count_deactivated_as_active)
            > u128::MAX
    }
}

/// The factor applied to the base payment is not negative.
pub proof fn lemma_multiplier_factor_nonneg(
    ws: Seq<(MultiplierId, Multiplier)>,
    multipliers: Map<MultiplierId, MultiplierModel>,
    tick: int,
    count_deactivated_as_active: bool,
)
    ensures
        multiplier_factor(ws, multipliers, tick, count_deactivated_as_active) >= 0,
{
    lemma_weight_sum_nonneg(retained_weights(ws, multipliers, tick, count_deactivated_as_active));
}

/// What a beneficiary is owed never falls below its unclaimed balance: accrual
/// only adds to it.
pub proof fn lemma_amount_owed_covers_unclaimed(
    b: BeneficiaryModel,
    multipliers: Map<MultiplierId, MultiplierModel>,
    base_payment: int,
    periodicity: int,
    tick: int,
    count_deactivated_as_active: bool,
)
    requires
        base_payment >= 0,
        periodicity > 0,
    ensures
        amount_owed(b, multipliers, base_payment, periodicity, tick, count_deactivated_as_active) >= b.unclaimed,
{
    let f = multiplier_factor(b.multipliers, multipliers, tick, count_deactivated_as_active);
    lemma_multiplier_factor_nonneg(b.multipliers, multipliers, tick, count_deactivated_as_active);
    let n = periods_due(tick, b.last_updated as int, periodicity);
    if tick >= b.last_updated {
        assert(n >= 0) by (nonlinear_arith)
            requires
                n == (tick - b.last_updated) / periodicity,
                tick - b.last_updated >= 0,
                periodicity > 0,
        ;
    }
    let p = payment_per_period(f, base_payment);
    assert(p * n >= 0) by (nonlinear_arith)
        requires
            p == f * base_payment / 100,
            f >= 0,
            base_payment >= 0,
            n >= 0,
    ;
}

/// Weight sums do not decrease as the list grows.
pub proof fn lemma_weight_sum_prefix(ws: Seq<(MultiplierId, Multiplier)>, i: int)
    requires
        0 <= i <= ws.len(),
    ensures
        0 <= weight_sum(ws.take(i)) <= weight_sum(ws),
    decreases ws.len(),
{
    if i == ws.len() {
        assert(ws.take(i) =~= ws);
        lemma_weight_sum_nonneg(ws);
    } else {
        lemma_weight_sum_prefix(ws.drop_last(), i);
        assert(ws.drop_last().take(i) =~= ws.take(i));
    }
}

/// Weight sums are not negative.
pub proof fn lemma_weight_sum_nonneg(ws: Seq<(MultiplierId, Multiplier)>)
    ensures
        weight_sum(ws) >= 0,
    decreases ws.len(),
{
    if ws.len() > 0 {
        lemma_weight_sum_nonneg(ws.drop_last());
    }
}

/// Retaining the next entry extends the retained prefix by at most that entry.
pub proof fn lemma_retained_step(
    ws: Seq<(MultiplierId, Multiplier)>,
    multipliers: Map<MultiplierId, MultiplierModel>,
    tick: int,
    count_deactivated_as_active: bool,
    i: int,
)
    requires
        0 <= i < ws.len(),
    ensures
        retained_weights(ws.take(i + 1), multipliers, tick, count_deactivated_as_active) == if weight_counts(
            multipliers,
            ws[i].0,
            tick,
            count_deactivated_as_active,
        ) {
            retained_weights(ws.take(i), multipliers, tick, count_deactivated_as_active).push(ws[i])
        } else {
            retained_weights(ws.take(i), multipliers, tick, count_deactivated_as_active)
        },
{
    assert(ws.take(i + 1).drop_last() =~= ws.take(i));
}

/// Retained entries are entries of the list, in a list whose ids stay distinct.
pub proof fn lemma_retained_distinct(
    ws: Seq<(MultiplierId, Multiplier)>,
    multipliers: Map<MultiplierId, MultiplierModel>,
    tick: int,
    m: bool,
)
    requires
        ids_distinct(ws),
    ensures
        ids_distinct(retained_weights(ws, multipliers, tick, m)),
        forall|k: int|
            0 <= k < retained_weights(ws, multipliers, tick, m).len() ==> ws.contains(
                #[trigger] retained_weights(ws, multipliers, tick, m)[k],
            ),
    decreases ws.len(),
{
    if ws.len() > 0 {
        let d = ws.drop_last();
        assert(ids_distinct(d));
        lemma_retained_distinct(d, multipliers, tick, m);
        let r = retained_weights(d, multipliers, tick, m);
        assert forall|k: int| 0 <= k < r.len() implies ws.contains(#[trigger] r[k]) by {
            let j = choose|j: int| 0 <= j < d.len() && d[j] == r[k];
            assert(ws[j] == r[k]);
        }
        if weight_counts(multipliers, ws.last().0, tick, m) {
            let rp = r.push(ws.last());
            assert forall|a: int, b: int| 0 <= a < b < rp.len() implies #[trigger] rp[a].0 != #[trigger] rp[b].0 by {
                if b == rp.len() - 1 {
                    let j = choose|j: int| 0 <= j < d.len() && d[j] == r[a];
                    assert(ws[j] == d[j]);
                    assert(ws[j].0 != ws[ws.len() - 1].0);
                } else {
                    assert(rp[a] == r[a] && rp[b] == r[b]);
                }
            }
            assert forall|k: int| 0 <= k < rp.len() implies ws.contains(#[trigger] rp[k]) by {
                if k == rp.len() - 1 {
                    assert(ws[ws.len() - 1] == rp[k]);
                } else {
                    assert(rp[k] == r[k]);
                }
            }
        }
    }
}

/// Adding an entry adds its weight.
pub proof fn lemma_weight_sum_push(ws: Seq<(MultiplierId, Multiplier)>, e: (MultiplierId, Multiplier))
    ensures
        weight_sum(ws.push(e)) == weight_sum(ws) + e.1,
{
    assert(ws.push(e).drop_last() =~= ws);
}

/// The retained weights of a prefix weigh no more than those of the whole list.
pub proof fn lemma_retained_prefix_sum(
    ws: Seq<(MultiplierId, Multiplier)>,
    multipliers: Map<MultiplierId, MultiplierModel>,
    tick: int,
    m: bool,
    i: int,
)
    requires
        0 <= i <= ws.len(),
    ensures
        0 <= weight_sum(retained_weights(ws.take(i), multipliers, tick, m)) <= weight_sum(
            retained_weights(ws, multipliers, tick, m),
        ),
    decreases ws.len(),
{
    lemma_weight_sum_nonneg(retained_weights(ws.take(i), multipliers, tick, m));
    if i == ws.len() {
        assert(ws.take(i) =~= ws);
    } else {
        let d = ws.drop_last();
        lemma_retained_prefix_sum(d, multipliers, tick, m, i);
        assert(d.take(i) =~= ws.take(i));
        let r = retained_weights(d, multipliers, tick, m);
        if weight_counts(multipliers, ws.last().0, tick, m) {
            lemma_weight_sum_push(r, ws.last());
        }
    }
}

/// Returns `Ok` exactly when no multiplier id appears twice in `multipliers`.
pub fn check_no_duplicate_multipliers(multipliers: &Vec<(MultiplierId, Multiplier)>) -> (r: Result<(), Error>)
    ensures
        r is Ok <==> ids_distinct(multipliers@),
        r is Err ==> r == Err::<(), Error>(Error::DuplicatedMultipliers),
{
    let n = multipliers.len();
    for i in 0..n
        invariant
            n == multipliers.len(),
            forall|a: int, b: int| 0 <= a < b < multipliers.len() && a < i ==> #[trigger] multipliers@[a].0 != #[trigger] multipliers@[b].0,
    {
        for j in i + 1..n
            invariant
                n == multipliers.len(),
                i < n,
                forall|a: int, b: int| 0 <= a < b < multipliers.len() && a < i ==> #[trigger] multipliers@[a].0 != #[trigger] multipliers@[b].0,
                forall|b: int| i < b < j ==> multipliers@[i as int].0 != #[trigger] multipliers@[b].0,
        {
            if multipliers[i].0 == multipliers[j].0 {
                return Err(Error::DuplicatedMultipliers);
            }
        }
    }
    Ok(())
}

/// Returns `Ok` exactly when no account appears twice in `accounts`.
pub fn check_no_duplicate_beneficiaries(accounts: &Vec<AccountId>) -> (r: Result<(), Error>)
    ensures
        r is Ok <==> accounts@.no_duplicates(),
        r is Err ==> r == Err::<(), Error>(Error::DuplicatedBeneficiaries),
{
    let n = accounts.len();
    for i in 0..n
        invariant
            n == accounts.len(),
            forall|a: int, b: int| 0 <= a < b < accounts.len() && a < i ==> #[trigger] accounts@[a] != #[trigger] accounts@[b],
    {
        for j in i + 1..n
            invariant
                n == accounts.len(),
                i < n,
                forall|a: int, b: int| 0 <= a < b < accounts.len() && a < i ==> #[trigger] accounts@[a] != #[trigger] accounts@[b],
                forall|b: int| i < b < j ==> accounts@[i as int] != #[trigger] accounts@[b],
        {
            if accounts[i].0 == accounts[j].0 && accounts[i].1 == accounts[j].1 {
                return Err(Error::DuplicatedBeneficiaries);
            }
        }
    }
    proof {
        assert forall|a: int, b: int| 0 <= a < accounts.len() && 0 <= b < accounts.len() && a != b implies accounts@[a] != accounts@[b] by {
            if a > b {
                assert(accounts@[b] != accounts@[a]);
            }
        }
    }
    Ok(())
}

/// A copy of a weight list.
pub fn copy_weights(ws: &Vec<(MultiplierId, Multiplier)>) -> (r: Vec<(MultiplierId, Multiplier)>)
    ensures
        r@ == ws@,
{
    let mut r: Vec<(MultiplierId, Multiplier)> = Vec::new();
    let n = ws.len();
    for i in 0..n
        invariant
            n == ws.len(),
            r@ == ws@.take(i as int),
    {
        r.push(ws[i]);
        proof {
            assert(r@ =~= ws@.take(i + 1));
        }
    }
    proof {
        assert(ws@.take(n as int) =~= ws@);
    }
    r
}

} // verus!
