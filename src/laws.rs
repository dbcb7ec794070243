use vstd::prelude::*;

use vstd::arithmetic::div_mod::{lemma_mod_bound, lemma_mod_decreases, lemma_small_mod};

use crate::accrual::{counts_at, lemma_amount_owed_covers_unclaimed};
use crate::payroll::PayrollModel;
use crate::types::{AccountId, Balance, ClaimsInPeriod, Multiplier, MultiplierId, MultiplierModel};

verus! {

/// A beneficiary's unclaimed balance moves only when it is settled. A weight
/// update leaves it at least as large as before. A successful claim of `amount`
/// leaves exactly what was owed at the claim minus `amount`, and what was owed
/// is at least the balance before. Either leaves every other beneficiary as it
/// was.
pub proof fn lemma_unclaimed_balance_settlement(
    s: PayrollModel,
    a: AccountId,
    ws: Seq<(MultiplierId, Multiplier)>,
    amount: Balance,
    now: int,
    treasury: Balance,
)
    requires
        s.inv(),
        s.beneficiaries.contains_key(a),
    ensures
        !s.owed_overflows(a, now, true) ==> s.after_update(a, ws, now).beneficiaries[a].unclaimed >= s.beneficiaries[a].unclaimed,
        s.claim_outcome(a, amount, now, treasury) is Ok ==> {
            &&& s.after_claim(a, amount, now).beneficiaries[a].unclaimed + amount == s.claim_total(a, now)
            &&& s.claim_total(a, now) >= s.beneficiaries[a].unclaimed
        },
        forall|b: AccountId| b != a && #[trigger] s.beneficiaries.contains_key(b) ==> {
            &&& s.after_update(a, ws, now).beneficiaries[b] == s.beneficiaries[b]
            &&& s.after_claim(a, amount, now).beneficiaries[b] == s.beneficiaries[b]
        },
{
    lemma_amount_owed_covers_unclaimed(s.beneficiaries[a], s.multipliers, s.base_payment as int, s.periodicity as int, now, true);
    lemma_amount_owed_covers_unclaimed(s.purged(a, now), s.multipliers, s.base_payment as int, s.periodicity as int, now, false);
}

/// Reading what an account is owed depends on the payroll, the account and the
/// tick alone: two reads with no change in between agree.
pub proof fn lemma_amount_to_claim_is_repeatable(s1: PayrollModel, s2: PayrollModel, a: AccountId, now: int)
    requires
        s1 == s2,
    ensures
        s1.amount_to_claim_outcome(a, now) == s2.amount_to_claim_outcome(a, now),
{
}

/// Right after construction at `now` nobody has claimed, so the claims gate is
/// open exactly when the current period starts at tick 0.
pub proof fn lemma_gate_after_construction(s: PayrollModel, now: int)
    requires
        s.inv(),
        s.initial_block == now,
        s.claims == (ClaimsInPeriod { period: 0, total_claims: 0 }),
    ensures
        s.all_claimed_in_period(now) <==> now == 0,
{
    lemma_small_mod(0, s.periodicity as nat);
}

/// Adding a beneficiary closes the claims gate in a period that does not start
/// at tick 0.
pub proof fn lemma_gate_closes_on_add(s: PayrollModel, a: AccountId, ws: Seq<(MultiplierId, Multiplier)>, now: int)
    requires
        s.inv(),
        !s.beneficiaries.contains_key(a),
        s.period_start_at(now) != 0,
    ensures
        !s.after_add(a, ws, now).all_claimed_in_period(now),
{
}

/// A multiplier deactivated at `now` counts at every tick before the start of
/// the next period and at no tick from then on.
pub proof fn lemma_deactivated_multiplier_counts_until(s: PayrollModel, id: MultiplierId, now: int, tick: int)
    requires
        s.inv(),
        s.multipliers.contains_key(id),
        s.initial_block <= now,
    ensures
        ({
            let m = s.multipliers.insert(
                id,
                MultiplierModel { valid_until: Some(s.next_period_start(now) as u32), ..s.multipliers[id] },
            );
            s.next_period_start(now) <= u32::MAX ==> (counts_at(m, id, tick) <==> tick < s.next_period_start(now))
        }),
{
    lemma_mod_bound(now - s.initial_block, s.periodicity as int);
}

/// Adding a beneficiary and then removing it gives back the beneficiaries, the
/// account list, the registry and every other part of the payroll as they were,
/// but for the claim count, which a removal may lower.
pub proof fn lemma_add_then_remove(s: PayrollModel, a: AccountId, ws: Seq<(MultiplierId, Multiplier)>, now: int)
    requires
        s.inv(),
        !s.beneficiaries.contains_key(a),
    ensures
        s.after_add(a, ws, now).after_remove(a) == (PayrollModel { claims: s.after_add(a, ws, now).after_remove(a).claims, ..s }),
        s.after_add(a, ws, now).after_remove(a).accounts == s.accounts,
        s.after_add(a, ws, now).after_remove(a).beneficiaries == s.beneficiaries,
        s.after_add(a, ws, now).after_remove(a).multiplier_ids == s.multiplier_ids,
        s.after_add(a, ws, now).after_remove(a).multipliers == s.multipliers,
{
    let t = s.after_add(a, ws, now);
    let k = t.account_index(a);
    assert(t.accounts[s.accounts.len() as int] == a);
    assert(k == s.accounts.len()) by {
        if k != s.accounts.len() {
            assert(t.accounts[k] == a);
            assert(s.accounts[k] == a);
            assert(s.accounts.contains(a));
        }
    }
    assert(t.accounts.remove(k) =~= s.accounts);
    assert(t.beneficiaries.remove(a) =~= s.beneficiaries);
}

/// How many of the given accounts were settled at the period that starts at `p`.
pub open spec fn settled_count(s: PayrollModel, accounts: Seq<AccountId>, p: int) -> int
    decreases accounts.len(),
{
    if accounts.len() == 0 {
        0
    } else {
        settled_count(s, accounts.drop_last(), p) + if s.beneficiaries[accounts.last()].last_updated == p {
            1int
        } else {
            0int
        }
    }
}

/// Accounts not settled at `p` are missing from the settled count.
proof fn lemma_settled_count_bound(s: PayrollModel, accounts: Seq<AccountId>, p: int, k: int)
    requires
        0 <= k < accounts.len(),
        s.beneficiaries[accounts[k]].last_updated != p,
    ensures
        settled_count(s, accounts, p) <= accounts.len() - 1,
    decreases accounts.len(),
{
    lemma_settled_count_le_len(s, accounts.drop_last(), p);
    if k < accounts.len() - 1 {
        lemma_settled_count_bound(s, accounts.drop_last(), p, k);
    }
}

/// The settled count never exceeds the number of accounts.
proof fn lemma_settled_count_le_len(s: PayrollModel, accounts: Seq<AccountId>, p: int)
    ensures
        0 <= settled_count(s, accounts, p) <= accounts.len(),
    decreases accounts.len(),
{
    if accounts.len() > 0 {
        lemma_settled_count_le_len(s, accounts.drop_last(), p);
    }
}

/// When no account is settled at `p`, the settled count is zero.
proof fn lemma_settled_count_none(s: PayrollModel, accounts: Seq<AccountId>, p: int)
    requires
        forall|j: int| 0 <= j < accounts.len() ==> #[trigger] s.beneficiaries[accounts[j]].last_updated != p,
    ensures
        settled_count(s, accounts, p) == 0,
    decreases accounts.len(),
{
    if accounts.len() > 0 {
        let d = accounts.drop_last();
        assert forall|j: int| 0 <= j < d.len() implies #[trigger] s.beneficiaries[d[j]].last_updated != p by {
            assert(d[j] == accounts[j]);
        }
        lemma_settled_count_none(s, d, p);
    }
}

/// While some beneficiary has not been settled in the current period, and that
/// period does not start at tick 0, the claims gate stays closed: updates of the
/// base payment or the periodicity, and deletions of multipliers, are refused.
/// This holds as long as the claim count does not exceed the beneficiaries
/// settled in the tracked period.
pub proof fn lemma_gate_closed_while_unsettled(s: PayrollModel, a: AccountId, now: int)
    requires
        s.inv(),
        s.accounts.contains(a),
        s.period_start_at(now) != 0,
        s.beneficiaries[a].last_updated != s.period_start_at(now),
        s.claims.total_claims <= settled_count(s, s.accounts, s.claims.period as int),
    ensures
        !s.all_claimed_in_period(now),
{
    let k = choose|k: int| 0 <= k < s.accounts.len() && s.accounts[k] == a;
    if s.claims.period == s.period_start_at(now) {
        lemma_settled_count_bound(s, s.accounts, s.claims.period as int, k);
    }
}

/// The payroll after the first `k` beneficiaries of the list each claimed
/// nothing at `now`, in list order.
pub open spec fn after_zero_claims(s: PayrollModel, k: nat, now: int) -> PayrollModel
    decreases k,
{
    if k == 0 {
        s
    } else {
        let t = after_zero_claims(s, (k - 1) as nat, now);
        t.after_claim(s.accounts[k - 1], 0, now)
    }
}

/// Claiming nothing by the first `k` beneficiaries, none of which had been
/// settled in the current period, settles each of them and counts `k` claims.
proof fn lemma_zero_claims_step(s: PayrollModel, k: nat, now: int)
    requires
        s.inv(),
        s.initial_block <= now <= u32::MAX,
        k <= s.accounts.len(),
        forall|j: int| 0 <= j < s.accounts.len() ==> #[trigger] s.beneficiaries[s.accounts[j]].last_updated != s.period_start_at(now),
        s.claims.total_claims <= settled_count(s, s.accounts, s.claims.period as int),
    ensures
        ({
            let t = after_zero_claims(s, k, now);
            &&& t == (PayrollModel { beneficiaries: t.beneficiaries, claims: t.claims, ..s })
            &&& forall|a: AccountId| #[trigger] t.beneficiaries.contains_key(a) <==> s.beneficiaries.contains_key(a)
            &&& forall|j: int| k <= j < s.accounts.len() ==> #[trigger] t.beneficiaries[s.accounts[j]].last_updated
                == s.beneficiaries[s.accounts[j]].last_updated
            &&& k > 0 ==> t.claims == (ClaimsInPeriod { period: s.period_start_at(now) as u32, total_claims: k as u32 })
        }),
    decreases k,
{
    lemma_mod_decreases((now - s.initial_block) as nat, s.periodicity as nat);
    let ps = s.period_start_at(now);
    assert(s.initial_block <= ps <= now);
    if k > 0 {
        let k1 = (k - 1) as nat;
        lemma_zero_claims_step(s, k1, now);
        let t = after_zero_claims(s, k1, now);
        let a = s.accounts[k1 as int];
        assert(s.accounts.contains(a));
        assert(t.beneficiaries.contains_key(a));
        assert(t.beneficiaries[a].last_updated == s.beneficiaries[a].last_updated);
        let u = after_zero_claims(s, k, now);
        assert(u == t.after_claim(a, 0, now));
        assert(t.first_claim_in_period(a, now));
        if k1 > 0 {
            assert(t.claims.period == ps as u32);
            assert(u.claims == t.claims_after_first_claim(ps as u32));
            assert(t.claims.total_claims == k1);
            assert(k1 < t.accounts.len());
        } else if s.claims.period == ps {
            lemma_settled_count_none(s, s.accounts, ps);
        }
        assert forall|j: int| k <= j < s.accounts.len() implies #[trigger] u.beneficiaries[s.accounts[j]].last_updated
            == s.beneficiaries[s.accounts[j]].last_updated by {
            assert(s.accounts[j] != a);
        }
    }
}

/// When every beneficiary, none of which had been settled in the current
/// period, claims nothing once, the claims gate opens: updates of
/// the base payment and the periodicity are accepted again. This holds as long
/// as the claim count did not exceed the beneficiaries settled in the tracked
/// period.
pub proof fn lemma_gate_opens_after_all_claim(s: PayrollModel, now: int)
    requires
        s.inv(),
        s.initial_block <= now <= u32::MAX,
        s.accounts.len() > 0,
        forall|j: int| 0 <= j < s.accounts.len() ==> #[trigger] s.beneficiaries[s.accounts[j]].last_updated != s.period_start_at(now),
        s.claims.total_claims <= settled_count(s, s.accounts, s.claims.period as int),
    ensures
        after_zero_claims(s, s.accounts.len(), now).all_claimed_in_period(now),
{
    lemma_mod_decreases((now - s.initial_block) as nat, s.periodicity as nat);
    lemma_zero_claims_step(s, s.accounts.len(), now);
}

} // verus!
