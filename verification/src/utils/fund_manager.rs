use vstd::prelude::*;

use crate::coin::{Coin, Uint128};
use crate::error::{is_generic_err, ContractError};

verus! {

/// The amount held of `denom`: its entry where there is one, else zero.
pub open spec fn balance(funds: Map<Seq<char>, u128>, denom: Seq<char>) -> u128 {
    if funds.contains_key(denom) {
        funds[denom]
    } else {
        0
    }
}

/// The funds after `amount` of `denom` came in; the entry is made if missing.
pub open spec fn credit(funds: Map<Seq<char>, u128>, denom: Seq<char>, amount: u128) -> Map<
    Seq<char>,
    u128,
> {
    funds.insert(denom, (balance(funds, denom) + amount) as u128)
}

/// The funds after `amount` of `denom` went out.
pub open spec fn debit(funds: Map<Seq<char>, u128>, denom: Seq<char>, amount: u128) -> Map<
    Seq<char>,
    u128,
> {
    funds.insert(denom, (balance(funds, denom) - amount) as u128)
}

/// Every denomination held has a non-zero amount.
pub open spec fn all_non_zero(funds: Map<Seq<char>, u128>) -> bool {
    forall|d: Seq<char>| #[trigger] funds.contains_key(d) ==> funds[d] != 0
}

/// Every denomination held has the amount zero.
pub open spec fn all_zero(funds: Map<Seq<char>, u128>) -> bool {
    forall|d: Seq<char>| #[trigger] funds.contains_key(d) ==> funds[d] == 0
}

/// Some coin of `coins` is in the denomination `denom`.
pub open spec fn names_denom(coins: Seq<Coin>, denom: Seq<char>) -> bool {
    exists|i: int| 0 <= i < coins.len() && (#[trigger] coins[i]).denom@ == denom
}

/// The sum of the amounts of the coins of `coins` in the denomination `denom`.
pub open spec fn denom_total(coins: Seq<Coin>, denom: Seq<char>) -> nat
    decreases coins.len(),
{
    if coins.len() == 0 {
        0
    } else {
        denom_total(coins.drop_last(), denom) + (if coins.last().denom@ == denom {
            coins.last().amount@ as nat
        } else {
            0nat
        })
    }
}

/// The funds that a list of coins amounts to: one entry for each denomination
/// that some coin names, holding the sum of that denomination's amounts.
pub open spec fn funds_of(coins: Seq<Coin>) -> Map<Seq<char>, u128> {
    Map::new(|d: Seq<char>| names_denom(coins, d), |d: Seq<char>| denom_total(coins, d) as u128)
}

/// No two entries share a denomination.
spec fn distinct_denoms(entries: Seq<Coin>) -> bool {
    forall|i: int, j: int|
        0 <= i < entries.len() && 0 <= j < entries.len() && i != j ==> (#[trigger] entries[i]).denom@
            != (#[trigger] entries[j]).denom@
}

/// The position of an entry of `denom`.
spec fn index_of(entries: Seq<Coin>, denom: Seq<char>) -> int {
    choose|i: int| 0 <= i < entries.len() && (#[trigger] entries[i]).denom@ == denom
}

/// The map from denomination to amount that a list of entries stands for.
spec fn entries_view(entries: Seq<Coin>) -> Map<Seq<char>, u128> {
    Map::new(
        |d: Seq<char>| names_denom(entries, d),
        |d: Seq<char>| entries[index_of(entries, d)].amount@,
    )
}

proof fn lemma_entries_view_at(entries: Seq<Coin>, i: int)
    requires
        distinct_denoms(entries),
        0 <= i < entries.len(),
    ensures
        entries_view(entries).contains_key(entries[i].denom@),
        entries_view(entries)[entries[i].denom@] == entries[i].amount@,
{
    let d = entries[i].denom@;
    assert(names_denom(entries, d));
    let j = index_of(entries, d);
    assert(entries[j].denom@ == d);
}

proof fn lemma_entries_view_update(entries: Seq<Coin>, i: int, c: Coin)
    requires
        distinct_denoms(entries),
        0 <= i < entries.len(),
        c.denom@ == entries[i].denom@,
    ensures
        distinct_denoms(entries.update(i, c)),
        entries_view(entries.update(i, c)) =~= entries_view(entries).insert(c.denom@, c.amount@),
{
    let t = entries.update(i, c);
    assert forall|a: int, b: int|
        0 <= a < t.len() && 0 <= b < t.len() && a != b implies (#[trigger] t[a]).denom@ != (
        #[trigger] t[b]).denom@ by {
        assert(entries[a].denom@ != entries[b].denom@);
    }
    let old_view = entries_view(entries);
    let new_view = entries_view(t);
    assert forall|d: Seq<char>| #[trigger] names_denom(t, d) == names_denom(entries, d) by {
        if names_denom(entries, d) {
            let j = choose|j: int| 0 <= j < entries.len() && (#[trigger] entries[j]).denom@ == d;
            assert(t[j].denom@ == d);
        }
        if names_denom(t, d) {
            let j = choose|j: int| 0 <= j < t.len() && (#[trigger] t[j]).denom@ == d;
            assert(entries[j].denom@ == d);
        }
    }
    assert forall|d: Seq<char>| new_view.contains_key(d) implies #[trigger] new_view[d] == (if d
        == c.denom@ {
        c.amount@
    } else {
        old_view[d]
    }) by {
        let j = index_of(t, d);
        assert(t[j].denom@ == d);
        if d == c.denom@ {
            assert(t[i].denom@ == d);
            assert(j == i);
        } else {
            assert(j != i);
            assert(names_denom(entries, d));
            let k = index_of(entries, d);
            assert(entries[k].denom@ == d);
            assert(entries[j].denom@ == d);
            assert(j == k);
        }
    }
    assert(new_view.dom() =~= old_view.insert(c.denom@, c.amount@).dom());
}

proof fn lemma_entries_view_push(entries: Seq<Coin>, c: Coin)
    requires
        distinct_denoms(entries),
        !names_denom(entries, c.denom@),
    ensures
        distinct_denoms(entries.push(c)),
        entries_view(entries.push(c)) =~= entries_view(entries).insert(c.denom@, c.amount@),
{
    let t = entries.push(c);
    let n = entries.len() as int;
    assert forall|a: int, b: int|
        0 <= a < t.len() && 0 <= b < t.len() && a != b implies (#[trigger] t[a]).denom@ != (
        #[trigger] t[b]).denom@ by {
        if a < n && b < n {
            assert(entries[a].denom@ != entries[b].denom@);
        } else if a < n {
            assert(entries[a] == t[a]);
        } else {
            assert(entries[b] == t[b]);
        }
    }
    let old_view = entries_view(entries);
    let new_view = entries_view(t);
    assert forall|d: Seq<char>| #[trigger] names_denom(t, d) == (names_denom(entries, d) || d
        == c.denom@) by {
        if names_denom(entries, d) {
            let j = choose|j: int| 0 <= j < entries.len() && (#[trigger] entries[j]).denom@ == d;
            assert(t[j].denom@ == d);
        }
        if d == c.denom@ {
            assert(t[n].denom@ == d);
        }
        if names_denom(t, d) && d != c.denom@ {
            let j = choose|j: int| 0 <= j < t.len() && (#[trigger] t[j]).denom@ == d;
            assert(j != n);
            assert(entries[j].denom@ == d);
        }
    }
    assert forall|d: Seq<char>| new_view.contains_key(d) implies #[trigger] new_view[d] == (if d
        == c.denom@ {
        c.amount@
    } else {
        old_view[d]
    }) by {
        let j = index_of(t, d);
        assert(t[j].denom@ == d);
        if d == c.denom@ {
            assert(t[n].denom@ == d);
            assert(j == n);
        } else {
            assert(j != n);
            let k = index_of(entries, d);
            assert(entries[j].denom@ == d);
            assert(entries[k].denom@ == d);
            assert(t[k].denom@ == d);
            assert(j == k);
        }
    }
    assert(new_view.dom() =~= old_view.insert(c.denom@, c.amount@).dom());
}

proof fn lemma_denom_total_absent(coins: Seq<Coin>, denom: Seq<char>)
    requires
        !names_denom(coins, denom),
    ensures
        denom_total(coins, denom) == 0,
    decreases coins.len(),
{
    if coins.len() > 0 {
        let rest = coins.drop_last();
        assert(coins[coins.len() - 1] == coins.last());
        assert forall|i: int| 0 <= i < rest.len() implies (#[trigger] rest[i]).denom@ != denom by {
            assert(rest[i] == coins[i]);
        }
        lemma_denom_total_absent(rest, denom);
    }
}

pub(crate) proof fn lemma_denom_total_covers(coins: Seq<Coin>, i: int)
    requires
        0 <= i < coins.len(),
    ensures
        denom_total(coins, coins[i].denom@) >= coins[i].amount@,
    decreases coins.len(),
{
    if i < coins.len() - 1 {
        let rest = coins.drop_last();
        assert(rest[i] == coins[i]);
        lemma_denom_total_covers(rest, i);
    }
}

proof fn lemma_denom_total_prefix(coins: Seq<Coin>, n: int, denom: Seq<char>)
    requires
        0 <= n <= coins.len(),
    ensures
        denom_total(coins.take(n), denom) <= denom_total(coins, denom),
    decreases coins.len(),
{
    if n < coins.len() {
        let rest = coins.drop_last();
        assert(rest.take(n) =~= coins.take(n));
        lemma_denom_total_prefix(rest, n, denom);
    } else {
        assert(coins.take(n) =~= coins);
    }
}

/// Making the funds of a list of coins and then adding one more coin gives the
/// funds of the longer list: `new` adds its coins one after the other.
pub proof fn law_new_then_add(coins: Seq<Coin>, c: Coin)
    requires
        forall|d: Seq<char>| #[trigger] denom_total(coins.push(c), d) <= u128::MAX,
    ensures
        forall|d: Seq<char>| #[trigger] denom_total(coins, d) <= u128::MAX,
        funds_of(coins.push(c)) =~= credit(funds_of(coins), c.denom@, c.amount@),
{
    let t = coins.push(c);
    assert(t.drop_last() =~= coins);
    assert(t.last() == c);
    assert forall|d: Seq<char>| #[trigger] denom_total(coins, d) <= u128::MAX by {
        assert(denom_total(t, d) <= u128::MAX);
    }
    let before = funds_of(coins);
    let after = funds_of(t);
    let expected = credit(before, c.denom@, c.amount@);
    assert forall|d: Seq<char>| #[trigger] names_denom(t, d) == (names_denom(coins, d) || d
        == c.denom@) by {
        if names_denom(coins, d) {
            let j = choose|j: int| 0 <= j < coins.len() && (#[trigger] coins[j]).denom@ == d;
            assert(t[j].denom@ == d);
        }
        if d == c.denom@ {
            assert(t[coins.len() as int].denom@ == d);
        }
        if names_denom(t, d) && d != c.denom@ {
            let j = choose|j: int| 0 <= j < t.len() && (#[trigger] t[j]).denom@ == d;
            assert(coins[j].denom@ == d);
        }
    }
    assert forall|d: Seq<char>| after.contains_key(d) implies #[trigger] after[d] == expected[d] by {
        assert(denom_total(t, d) <= u128::MAX);
        if !names_denom(coins, d) {
            lemma_denom_total_absent(coins, d);
        }
    }
    assert(after.dom() =~= expected.dom());
}

/// Tracks the funds of a transaction, one amount for each denomination,
/// so that what is spent can be checked against what came in.
pub struct FundManager {
    funds: Vec<Coin>,
}

impl View for FundManager {
    type V = Map<Seq<char>, u128>;

    closed spec fn view(&self) -> Map<Seq<char>, u128> {
        entries_view(self.funds@)
    }
}

impl FundManager {
    /// The funds of the coins `funds`, added one after the other: one entry for
    /// each denomination that a coin names, holding the sum of its amounts.
    pub fn new(funds: &[Coin]) -> (r: FundManager)
        requires
            forall|d: Seq<char>| #[trigger] denom_total(funds@, d) <= u128::MAX,
        ensures
            r@ == funds_of(funds@),
            forall|d: Seq<char>|
                #[trigger] r@.contains_key(d) <==> exists|i: int|
                    0 <= i < funds@.len() && (#[trigger] funds@[i]).denom@ == d,
            forall|i: int|
                0 <= i < funds@.len() ==> r@.contains_key((#[trigger] funds@[i]).denom@)
                    && r@[funds@[i].denom@] >= funds@[i].amount@,
    {
        let mut fund_manager = FundManager { funds: Vec::new() };
        assert(fund_manager@ =~= funds_of(funds@.take(0)));
        let mut i: usize = 0;
        while i < funds.len()
            invariant
                i <= funds@.len(),
                fund_manager@ == funds_of(funds@.take(i as int)),
                forall|d: Seq<char>| #[trigger] denom_total(funds@, d) <= u128::MAX,
            decreases funds@.len() - i,
        {
            let ghost prefix = funds@.take(i as int);
            let ghost next = funds@.take(i + 1);
            proof {
                assert(next =~= prefix.push(funds@[i as int]));
                assert forall|d: Seq<char>| #[trigger] denom_total(next, d) <= u128::MAX by {
                    lemma_denom_total_prefix(funds@, i + 1, d);
                }
                law_new_then_add(prefix, funds@[i as int]);
                let c = funds@[i as int];
                if !names_denom(prefix, c.denom@) {
                    lemma_denom_total_absent(prefix, c.denom@);
                }
                assert(next.drop_last() =~= prefix);
                assert(next.last() == c);
                assert(denom_total(next, c.denom@) == denom_total(prefix, c.denom@) + c.amount@);
                assert(denom_total(prefix, c.denom@) <= u128::MAX);
                assert(balance(fund_manager@, c.denom@) == denom_total(prefix, c.denom@));
            }
            fund_manager.add(&funds[i]);
            i = i + 1;
        }
        assert(funds@.take(funds@.len() as int) =~= funds@);
        proof {
            assert forall|i: int| 0 <= i < funds@.len() implies fund_manager@.contains_key(
                (#[trigger] funds@[i]).denom@,
            ) && fund_manager@[funds@[i].denom@] >= funds@[i].amount@ by {
                assert(names_denom(funds@, funds@[i].denom@));
                lemma_denom_total_covers(funds@, i);
                assert(denom_total(funds@, funds@[i].denom@) <= u128::MAX);
            }
        }
        fund_manager
    }

    #[verifier::type_invariant]
    spec fn well_formed(self) -> bool {
        distinct_denoms(self.funds@)
    }

    /// The position of the entry of `denom`, if there is one.
    fn position(&self, denom: &String) -> (r: Option<usize>)
        ensures
            match r {
                Some(i) => i < self.funds@.len() && self.funds@[i as int].denom@ == denom@,
                None => !names_denom(self.funds@, denom@),
            },
    {
        let mut i: usize = 0;
        while i < self.funds.len()
            invariant
                i <= self.funds@.len(),
                forall|j: int| 0 <= j < i ==> (#[trigger] self.funds@[j]).denom@ != denom@,
            decreases self.funds@.len() - i,
        {
            if self.funds[i].denom == *denom {
                return Some(i);
            }
            i = i + 1;
        }
        None
    }

    /// The amount held of `denom`, zero when none was ever added.
    pub fn get(&self, denom: &str) -> (r: Uint128)
        ensures
            r@ == balance(self@, denom@),
            self@.contains_key(denom@) ==> r@ == self@[denom@],
            !self@.contains_key(denom@) ==> r@ == 0,
    {
        proof {
            use_type_invariant(self);
        }
        let key = denom.to_owned();
        match self.position(&key) {
            Some(i) => {
                proof {
                    lemma_entries_view_at(self.funds@, i as int);
                }
                self.funds[i].amount
            },
            None => Uint128::zero(),
        }
    }

    /// Sets the amount of the denomination of `entry`, adding the entry if it is missing.
    fn put(&mut self, entry: Coin)
        ensures
            final(self)@ == old(self)@.insert(entry.denom@, entry.amount@),
    {
        proof {
            use_type_invariant(&*self);
        }
        let ghost before = self.funds@;
        let found = self.position(&entry.denom);
        let mut funds: Vec<Coin> = Vec::new();
        std::mem::swap(&mut funds, &mut self.funds);
        assert(funds@ == before);
        match found {
            Some(i) => {
                proof {
                    lemma_entries_view_update(funds@, i as int, entry);
                }
                funds.set(i, entry);
            },
            None => {
                proof {
                    lemma_entries_view_push(funds@, entry);
                }
                funds.push(entry);
            },
        }
        self.funds = funds;
    }

    /// Adds `fund` to the funds held.
    pub fn add(&mut self, fund: &Coin)
        requires
            balance(old(self)@, fund.denom@) + fund.amount@ <= u128::MAX,
        ensures
            final(self)@ == credit(old(self)@, fund.denom@, fund.amount@),
            final(self)@.dom() == old(self)@.dom().insert(fund.denom@),
            final(self)@[fund.denom@] == (if old(self)@.contains_key(fund.denom@) {
                old(self)@[fund.denom@]
            } else {
                0
            }) + fund.amount@,
            forall|d: Seq<char>|
                #[trigger] old(self)@.contains_key(d) && d != fund.denom@ ==> final(self)@[d]
                    == old(self)@[d],
    {
        let current = self.get(fund.denom.as_str());
        let total = current.u128() + fund.amount.u128();
        let entry = Coin { denom: fund.denom.clone(), amount: Uint128::new(total) };
        self.put(entry);
    }

    /// Deducts `amount` of `denom` from the funds held.
    ///
    /// Refuses a zero amount with the message "Amount cannot be zero", and an
    /// amount above the balance of `denom` with `InsufficientFunds`; a refused
    /// call leaves the funds as they were.
    pub fn use_fund(&mut self, amount: Uint128, denom: &str) -> (r: Result<(), ContractError>)
        ensures
            amount@ == 0 ==> is_generic_err(r, "Amount cannot be zero"@),
            amount@ != 0 && balance(old(self)@, denom@) < amount@ ==> r == Err::<
                (),
                ContractError,
            >(ContractError::InsufficientFunds {  }),
            r is Ok <==> amount@ != 0 && amount@ <= balance(old(self)@, denom@),
            r is Ok ==> final(self)@ == debit(old(self)@, denom@, amount@),
            r is Err ==> final(self)@ == old(self)@,
            r is Ok ==> old(self)@.contains_key(denom@) && final(self)@.dom() == old(self)@.dom()
                && final(self)@[denom@] == old(self)@[denom@] - amount@,
            r is Ok ==> forall|d: Seq<char>|
                #[trigger] old(self)@.contains_key(d) && d != denom@ ==> final(self)@[d]
                    == old(self)@[d],
    {
        if amount.is_zero() {
            return Err(ContractError::new("Amount cannot be zero"));
        }
        let current = self.get(denom);
        if current.u128() < amount.u128() {
            return Err(ContractError::InsufficientFunds {  });
        }
        let entry = Coin { denom: denom.to_owned(), amount: Uint128::new(current.u128() - amount.u128()) };
        self.put(entry);
        Ok(())
    }

    /// Whether every entry satisfies `non_zero` (amount non-zero) or its opposite.
    fn every_amount(&self, non_zero: bool) -> (r: bool)
        ensures
            r == (if non_zero {
                all_non_zero(self@)
            } else {
                all_zero(self@)
            }),
    {
        proof {
            use_type_invariant(self);
        }
        let mut i: usize = 0;
        while i < self.funds.len()
            invariant
                i <= self.funds@.len(),
                distinct_denoms(self.funds@),
                forall|j: int|
                    0 <= j < i ==> ((#[trigger] self.funds@[j]).amount@ != 0) == non_zero,
            decreases self.funds@.len() - i,
        {
            if self.funds[i].amount.is_zero() == non_zero {
                proof {
                    lemma_entries_view_at(self.funds@, i as int);
                    let d = self.funds@[i as int].denom@;
                    assert(self@.contains_key(d));
                }
                return false;
            }
            i = i + 1;
        }
        proof {
            let m = self@;
            assert forall|d: Seq<char>| #[trigger] m.contains_key(d) implies (m[d] != 0)
                == non_zero by {
                let j = index_of(self.funds@, d);
                assert(self.funds@[j].denom@ == d);
            }
        }
        true
    }

    /// Succeeds when no denomination held has the amount zero; refuses with
    /// the message "Funds cannot be zero" otherwise.
    pub fn validate_non_zero_funds(&self) -> (r: Result<(), ContractError>)
        ensures
            r is Ok <==> all_non_zero(self@),
            r is Ok <==> forall|d: Seq<char>| #[trigger] self@.contains_key(d) ==> self@[d] != 0,
            r is Err ==> is_generic_err(r, "Funds cannot be zero"@),
    {
        if self.every_amount(true) {
            Ok(())
        } else {
            Err(ContractError::new("Funds cannot be zero"))
        }
    }

    /// Succeeds when every denomination held has the amount zero, so that no
    /// funds are left unaccounted for; refuses with the message
    /// "Funds should be empty" otherwise.
    pub fn validate_funds_are_empty(&self) -> (r: Result<(), ContractError>)
        ensures
            r is Ok <==> all_zero(self@),
            r is Ok <==> forall|d: Seq<char>| #[trigger] self@.contains_key(d) ==> self@[d] == 0,
            r is Err ==> is_generic_err(r, "Funds should be empty"@),
    {
        if self.every_amount(false) {
            Ok(())
        } else {
            Err(ContractError::new("Funds should be empty"))
        }
    }
}

} // verus!
