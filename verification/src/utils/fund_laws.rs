use vstd::prelude::*;

use crate::coin::Coin;
use crate::utils::fund_manager::{
    all_non_zero, all_zero, balance, credit, debit, denom_total, funds_of, lemma_denom_total_covers,
    names_denom,
};

verus! {

/// Adding a coin and then using the same amount of the same denomination is
/// allowed, and leaves every balance as it was before the coin came in.
pub proof fn law_add_then_use_restores_balances(
    funds: Map<Seq<char>, u128>,
    denom: Seq<char>,
    amount: u128,
)
    requires
        amount != 0,
        balance(funds, denom) + amount <= u128::MAX,
    ensures
        amount <= balance(credit(funds, denom, amount), denom),
        forall|d: Seq<char>|
            #[trigger] balance(debit(credit(funds, denom, amount), denom, amount), d) == balance(
                funds,
                d,
            ),
{
}

/// Using funds and then adding the same coin back is allowed, and gives back
/// exactly the funds held before.
pub proof fn law_use_then_add_restores_funds(
    funds: Map<Seq<char>, u128>,
    denom: Seq<char>,
    amount: u128,
)
    requires
        0 < amount <= balance(funds, denom),
    ensures
        balance(debit(funds, denom, amount), denom) + amount <= u128::MAX,
        credit(debit(funds, denom, amount), denom, amount) == funds,
{
    assert(credit(debit(funds, denom, amount), denom, amount) =~= funds);
}

/// Adding or using one denomination leaves the balance of every other
/// denomination unchanged.
pub proof fn law_denominations_are_independent(
    funds: Map<Seq<char>, u128>,
    denom: Seq<char>,
    amount: u128,
    other: Seq<char>,
)
    requires
        other != denom,
    ensures
        balance(credit(funds, denom, amount), other) == balance(funds, other),
        balance(debit(funds, denom, amount), other) == balance(funds, other),
{
}

/// Both validations succeed on the same funds exactly when no denomination is
/// held at all.
pub proof fn law_both_validations_pass_only_without_funds(funds: Map<Seq<char>, u128>)
    ensures
        (all_non_zero(funds) && all_zero(funds)) == (funds.dom() == Set::<Seq<char>>::empty()),
{
    if all_non_zero(funds) && all_zero(funds) {
        assert forall|d: Seq<char>| !funds.dom().contains(d) by {
            if funds.contains_key(d) {
                assert(funds[d] != 0);
            }
        }
        assert(funds.dom() =~= Set::<Seq<char>>::empty());
    }
    if funds.dom() == Set::<Seq<char>>::empty() {
        assert forall|d: Seq<char>| #[trigger] funds.contains_key(d) implies funds[d] != 0 by {
            assert(!funds.dom().contains(d));
        }
    }
}

/// Using up the whole balance of a denomination leaves the funds empty exactly
/// when every other denomination held is already at zero.
pub proof fn law_using_whole_balance_empties(funds: Map<Seq<char>, u128>, denom: Seq<char>)
    ensures
        all_zero(debit(funds, denom, balance(funds, denom))) == (forall|d: Seq<char>|
            #[trigger] funds.contains_key(d) && d != denom ==> funds[d] == 0),
{
    let after = debit(funds, denom, balance(funds, denom));
    if all_zero(after) {
        assert forall|d: Seq<char>| #[trigger] funds.contains_key(d) && d != denom implies funds[d]
            == 0 by {
            assert(after.contains_key(d));
        }
    }
}

/// A denomination held with the amount zero makes the non-zero validation
/// fail, whatever the other amounts are; one held with a non-zero amount makes
/// the emptiness validation fail.
pub proof fn law_one_entry_decides_validations(funds: Map<Seq<char>, u128>, denom: Seq<char>)
    requires
        funds.contains_key(denom),
    ensures
        funds[denom] == 0 ==> !all_non_zero(funds),
        funds[denom] != 0 ==> !all_zero(funds),
{
}

/// The non-zero validation passes exactly when no held denomination has the
/// amount zero, and the emptiness validation exactly when none has a non-zero
/// amount.
pub proof fn law_validations_read_every_entry(funds: Map<Seq<char>, u128>)
    ensures
        all_non_zero(funds) == !(exists|d: Seq<char>| #[trigger] funds.contains_key(d) && funds[d] == 0),
        all_zero(funds) == !(exists|d: Seq<char>| #[trigger] funds.contains_key(d) && funds[d] != 0),
{
}

/// Adding a coin always leaves its denomination held, with the old balance
/// plus the coin's amount, and adds no other denomination nor changes any.
pub proof fn law_add_holds_its_denomination(
    funds: Map<Seq<char>, u128>,
    denom: Seq<char>,
    amount: u128,
)
    requires
        balance(funds, denom) + amount <= u128::MAX,
    ensures
        credit(funds, denom, amount).contains_key(denom),
        credit(funds, denom, amount)[denom] == balance(funds, denom) + amount,
        credit(funds, denom, amount).dom() == funds.dom().insert(denom),
        forall|d: Seq<char>|
            #[trigger] funds.contains_key(d) && d != denom ==> credit(funds, denom, amount)[d]
                == funds[d],
{
    assert(credit(funds, denom, amount).dom() =~= funds.dom().insert(denom));
}

/// Using an amount of a held denomination keeps every denomination held, even
/// one spent down to zero, and lowers only that denomination's amount.
pub proof fn law_use_keeps_denominations(funds: Map<Seq<char>, u128>, denom: Seq<char>, amount: u128)
    requires
        0 < amount <= balance(funds, denom),
    ensures
        funds.contains_key(denom),
        debit(funds, denom, amount).dom() == funds.dom(),
        debit(funds, denom, amount)[denom] == funds[denom] - amount,
        forall|d: Seq<char>|
            #[trigger] funds.contains_key(d) && d != denom ==> debit(funds, denom, amount)[d]
                == funds[d],
{
    assert(debit(funds, denom, amount).dom() =~= funds.dom());
}

/// The funds of a list of coins hold exactly the denominations that the coins
/// name, a coin of amount zero included, each with at least the amount of any
/// one of its coins.
pub proof fn law_new_holds_every_coin(coins: Seq<Coin>, i: int)
    requires
        forall|d: Seq<char>| #[trigger] denom_total(coins, d) <= u128::MAX,
        0 <= i < coins.len(),
    ensures
        funds_of(coins).contains_key(coins[i].denom@),
        funds_of(coins)[coins[i].denom@] >= coins[i].amount@,
        forall|d: Seq<char>|
            #[trigger] funds_of(coins).contains_key(d) ==> exists|j: int|
                0 <= j < coins.len() && (#[trigger] coins[j]).denom@ == d,
{
    assert(names_denom(coins, coins[i].denom@));
    lemma_denom_total_covers(coins, i);
    assert(denom_total(coins, coins[i].denom@) <= u128::MAX);
}

/// No coins make no funds: `new` of an empty list holds no denomination.
pub proof fn law_new_of_no_coins_is_empty()
    ensures
        funds_of(Seq::<Coin>::empty()).dom() == Set::<Seq<char>>::empty(),
{
    assert(funds_of(Seq::<Coin>::empty()).dom() =~= Set::<Seq<char>>::empty());
}

proof fn lemma_denom_total_of_zero_coins(coins: Seq<Coin>, denom: Seq<char>)
    requires
        forall|i: int| 0 <= i < coins.len() ==> (#[trigger] coins[i]).amount@ == 0,
    ensures
        denom_total(coins, denom) == 0,
    decreases coins.len(),
{
    if coins.len() > 0 {
        let rest = coins.drop_last();
        assert(coins.last() == coins[coins.len() - 1]);
        assert forall|i: int| 0 <= i < rest.len() implies (#[trigger] rest[i]).amount@ == 0 by {
            assert(rest[i] == coins[i]);
        }
        lemma_denom_total_of_zero_coins(rest, denom);
    }
}

/// Funds made from coins that all have a non-zero amount pass the non-zero
/// validation; they pass the emptiness validation exactly when every coin has
/// the amount zero.
pub proof fn law_validations_of_new(coins: Seq<Coin>)
    requires
        forall|d: Seq<char>| #[trigger] denom_total(coins, d) <= u128::MAX,
    ensures
        (forall|i: int| 0 <= i < coins.len() ==> (#[trigger] coins[i]).amount@ != 0) ==> all_non_zero(
            funds_of(coins),
        ),
        all_zero(funds_of(coins)) == (forall|i: int|
            0 <= i < coins.len() ==> (#[trigger] coins[i]).amount@ == 0),
{
    let funds = funds_of(coins);
    if forall|i: int| 0 <= i < coins.len() ==> (#[trigger] coins[i]).amount@ != 0 {
        assert forall|d: Seq<char>| #[trigger] funds.contains_key(d) implies funds[d] != 0 by {
            let i = choose|i: int| 0 <= i < coins.len() && (#[trigger] coins[i]).denom@ == d;
            lemma_denom_total_covers(coins, i);
            assert(denom_total(coins, d) <= u128::MAX);
        }
    }
    if all_zero(funds) {
        assert forall|i: int| 0 <= i < coins.len() implies (#[trigger] coins[i]).amount@ == 0 by {
            let d = coins[i].denom@;
            assert(names_denom(coins, d));
            assert(funds.contains_key(d));
            lemma_denom_total_covers(coins, i);
            assert(denom_total(coins, d) <= u128::MAX);
        }
    }
    if forall|i: int| 0 <= i < coins.len() ==> (#[trigger] coins[i]).amount@ == 0 {
        assert forall|d: Seq<char>| #[trigger] funds.contains_key(d) implies funds[d] == 0 by {
            lemma_denom_total_of_zero_coins(coins, d);
        }
    }
}

} // verus!
