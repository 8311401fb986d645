//! The redistribution of stake that gives the first validator half of the
//! voting power.

use vstd::prelude::*;

verus! {

/// One delegation: validator `from` hands `amount` of its stake to `to`.
#[derive(Clone, Copy, Debug, PartialEq, Eq, Structural)]
pub struct Delegation {
    pub from: usize,
    pub to: usize,
    pub amount: u128,
}

/// What each of the other validators delegates to the first: a quarter of
/// its stake.
pub open spec fn delegate_share(stake_per_validator: u128) -> u128 {
    stake_per_validator / 4
}

/// The delegations that [`redistribute_stake`] plans.
pub open spec fn redistribution(validators: nat, stake_per_validator: u128) -> Seq<Delegation> {
    Seq::new(
        if validators == 0 {
            0nat
        } else {
            (validators - 1) as nat
        },
        |i: int|
            Delegation { from: (i + 1) as usize, to: 0, amount: delegate_share(stake_per_validator) },
    )
}

/// Plans the delegations among `validators` validators that each hold
/// `stake_per_validator`: every validator but the first delegates a quarter
/// of its stake to the first.
pub fn redistribute_stake(validators: usize, stake_per_validator: u128) -> (plan: Vec<Delegation>)
    ensures
        plan@ == redistribution(validators as nat, stake_per_validator),
{
    let amount = stake_per_validator / 4;
    let mut plan: Vec<Delegation> = Vec::new();
    let mut i: usize = 1;
    while i < validators
        invariant
            1 <= i,
            validators == 0 ==> i == 1,
            validators > 0 ==> i <= validators,
            amount == delegate_share(stake_per_validator),
            plan@.len() == i - 1,
            forall|k: int|
                0 <= k < plan@.len() ==> #[trigger] plan@[k] == (Delegation {
                    from: (k + 1) as usize,
                    to: 0,
                    amount,
                }),
        decreases validators - i,
    {
        plan.push(Delegation { from: i, to: 0, amount });
        i = i + 1;
    }
    proof {
        let goal = redistribution(validators as nat, stake_per_validator);
        assert(plan@.len() == goal.len());
        assert forall|k: int| 0 <= k < plan@.len() implies plan@[k] == goal[k] by {
            assert(plan@[k].from == (k + 1) as usize);
        }
        assert(plan@ =~= goal);
    }
    plan
}

/// The stake of validator `index`, which held `stake`, once the delegations
/// of `plan` have been carried out.
pub open spec fn stake_after(plan: Seq<Delegation>, stake: int, index: int) -> int
    decreases plan.len(),
{
    if plan.len() == 0 {
        stake
    } else {
        let last = plan.last();
        let received: int = if last.to == index {
            last.amount as int
        } else {
            0
        };
        let given: int = if last.from == index {
            last.amount as int
        } else {
            0
        };
        stake_after(plan.drop_last(), stake, index) + received - given
    }
}

/// Among three validators whose stake divides by four, the plan leaves the
/// first with exactly half of all stake and the other two with a quarter
/// each.
pub proof fn law_first_validator_holds_half(stake_per_validator: u128)
    requires
        stake_per_validator % 4 == 0,
    ensures
        ({
            let plan = redistribution(3, stake_per_validator);
            let stake = stake_per_validator as int;
            &&& 2 * stake_after(plan, stake, 0) == 3 * stake
            &&& 4 * stake_after(plan, stake, 1) == 3 * stake
            &&& 4 * stake_after(plan, stake, 2) == 3 * stake
        }),
{
    let plan = redistribution(3, stake_per_validator);
    let first = plan.drop_last();
    assert(plan.len() == 2);
    assert(plan.last() == plan[1]);
    assert(first.len() == 1);
    assert(first.last() == plan[0]);
    assert(first.drop_last().len() == 0);
    reveal_with_fuel(stake_after, 3);
}

} // verus!
