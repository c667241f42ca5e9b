//! The account registry: identities mapped to balances and roles.
//!
//! The registry is an append-only list of accounts with pairwise
//! distinct identities. All spec-level reasoning about balances and
//! roles goes through the functions here, so that every ledger
//! operation can state pointwise what it changes and prove that the
//! sum of all balances is conserved.

use vstd::prelude::*;

verus! {

/// A caller classification gating which operations are permitted.
#[derive(Clone, Copy, Debug, PartialEq, Eq, Structural)]
pub enum Role {
    Core,
    Finance,
    Community,
    Visitor,
}

/// One registry entry: an identity, its unit balance and its role.
pub struct Account {
    pub id: String,
    pub balance: u128,
    pub role: Role,
}

/// The identities in `s` are pairwise distinct.
pub open spec fn ids_unique(s: Seq<Account>) -> bool {
    forall|i: int, j: int| 0 <= i < j < s.len() ==> s[i].id@ != s[j].id@
}

/// Some entry of `s` carries the identity `id`.
pub open spec fn is_registered(s: Seq<Account>, id: Seq<char>) -> bool {
    exists|i: int| 0 <= i < s.len() && s[i].id@ == id
}

/// The index of the entry carrying `id`; meaningful only when
/// `is_registered(s, id)` holds.
pub open spec fn index_of(s: Seq<Account>, id: Seq<char>) -> int {
    choose|i: int| 0 <= i < s.len() && s[i].id@ == id
}

/// The balance recorded for `id`, or zero when `id` is unregistered.
pub open spec fn balance_of(s: Seq<Account>, id: Seq<char>) -> u128 {
    if is_registered(s, id) {
        s[index_of(s, id)].balance
    } else {
        0
    }
}

/// The role recorded for `id`; an unregistered identity counts as a
/// visitor, which no operation accepts.
pub open spec fn role_of(s: Seq<Account>, id: Seq<char>) -> Role {
    if is_registered(s, id) {
        s[index_of(s, id)].role
    } else {
        Role::Visitor
    }
}

/// The sum of all recorded balances, as an unbounded integer.
pub open spec fn sum_balances(s: Seq<Account>) -> int
    decreases s.len(),
{
    if s.len() == 0 {
        0
    } else {
        sum_balances(s.drop_last()) + s.last().balance
    }
}

/// Under unique identities, any entry carrying `id` is the one that
/// `index_of` picks.
pub proof fn lemma_index_of(s: Seq<Account>, i: int)
    requires
        ids_unique(s),
        0 <= i < s.len(),
    ensures
        is_registered(s, s[i].id@),
        index_of(s, s[i].id@) == i,
        balance_of(s, s[i].id@) == s[i].balance,
        role_of(s, s[i].id@) == s[i].role,
{
    assert(is_registered(s, s[i].id@));
    let j = index_of(s, s[i].id@);
    if i < j {
        assert(s[i].id@ != s[j].id@);
    } else if j < i {
        assert(s[j].id@ != s[i].id@);
    }
}

/// Every balance sum is nonnegative.
pub proof fn lemma_sum_nonneg(s: Seq<Account>)
    ensures
        sum_balances(s) >= 0,
    decreases s.len(),
{
    if s.len() > 0 {
        lemma_sum_nonneg(s.drop_last());
    }
}

/// A single recorded balance never exceeds the sum of all of them.
pub proof fn lemma_balance_le_sum(s: Seq<Account>, i: int)
    requires
        0 <= i < s.len(),
    ensures
        s[i].balance <= sum_balances(s),
    decreases s.len(),
{
    lemma_sum_nonneg(s.drop_last());
    if i < s.len() - 1 {
        lemma_balance_le_sum(s.drop_last(), i);
    }
}

/// Two distinct recorded balances never exceed the sum together.
pub proof fn lemma_two_balances_le_sum(s: Seq<Account>, i: int, j: int)
    requires
        0 <= i < s.len(),
        0 <= j < s.len(),
        i != j,
    ensures
        s[i].balance + s[j].balance <= sum_balances(s),
    decreases s.len(),
{
    let t = s.drop_last();
    if i < s.len() - 1 && j < s.len() - 1 {
        lemma_two_balances_le_sum(t, i, j);
    } else if i == s.len() - 1 {
        lemma_balance_le_sum(t, j);
    } else {
        lemma_balance_le_sum(t, i);
    }
}

/// Replacing the entry at `i` by one with the same identity changes
/// the registry pointwise: only that identity's balance and role move,
/// and the sum moves by the difference of the balances.
pub proof fn lemma_update_entry(s: Seq<Account>, i: int, a: Account)
    requires
        ids_unique(s),
        0 <= i < s.len(),
        a.id@ == s[i].id@,
    ensures
        ids_unique(s.update(i, a)),
        forall|x: Seq<char>| is_registered(s.update(i, a), x) == is_registered(s, x),
        balance_of(s.update(i, a), a.id@) == a.balance,
        role_of(s.update(i, a), a.id@) == a.role,
        forall|x: Seq<char>|
            x != a.id@ ==> balance_of(s.update(i, a), x) == balance_of(s, x) && role_of(
                s.update(i, a),
                x,
            ) == role_of(s, x),
        sum_balances(s.update(i, a)) == sum_balances(s) - s[i].balance + a.balance,
{
    let s2 = s.update(i, a);
    assert(forall|k: int| 0 <= k < s.len() ==> s2[k].id@ == s[k].id@);
    assert forall|x: Seq<char>| is_registered(s2, x) == is_registered(s, x) by {
        if is_registered(s2, x) {
            let k = choose|k: int| 0 <= k < s2.len() && s2[k].id@ == x;
            assert(s[k].id@ == x);
        }
        if is_registered(s, x) {
            let k = choose|k: int| 0 <= k < s.len() && s[k].id@ == x;
            assert(s2[k].id@ == x);
        }
    }
    lemma_index_of(s2, i);
    assert forall|x: Seq<char>| x != a.id@ implies balance_of(s2, x) == balance_of(s, x)
        && role_of(s2, x) == role_of(s, x) by {
        if is_registered(s, x) {
            let k = index_of(s, x);
            assert(0 <= k < s.len() && s[k].id@ == x);
            assert(k != i);
            lemma_index_of(s2, k);
            assert(index_of(s2, x) == k);
        }
    }
    lemma_sum_update(s, i, a);
}

/// The sum after replacing one entry.
proof fn lemma_sum_update(s: Seq<Account>, i: int, a: Account)
    requires
        0 <= i < s.len(),
    ensures
        sum_balances(s.update(i, a)) == sum_balances(s) - s[i].balance + a.balance,
    decreases s.len(),
{
    let s2 = s.update(i, a);
    if i == s.len() - 1 {
        assert(s2.drop_last() =~= s.drop_last());
    } else {
        assert(s2.drop_last() =~= s.drop_last().update(i, a));
        lemma_sum_update(s.drop_last(), i, a);
    }
}

/// Appending an entry with a fresh identity extends the registry
/// pointwise and grows the sum by the new balance.
pub proof fn lemma_push_entry(s: Seq<Account>, a: Account)
    requires
        ids_unique(s),
        !is_registered(s, a.id@),
    ensures
        ids_unique(s.push(a)),
        is_registered(s.push(a), a.id@),
        balance_of(s.push(a), a.id@) == a.balance,
        role_of(s.push(a), a.id@) == a.role,
        forall|x: Seq<char>|
            x != a.id@ ==> is_registered(s.push(a), x) == is_registered(s, x) && balance_of(
                s.push(a),
                x,
            ) == balance_of(s, x) && role_of(s.push(a), x) == role_of(s, x),
        sum_balances(s.push(a)) == sum_balances(s) + a.balance,
{
    let s2 = s.push(a);
    assert(forall|k: int| 0 <= k < s.len() ==> s2[k] == s[k]);
    assert(s2[s.len() as int] == a);
    assert forall|i: int, j: int| 0 <= i < j < s2.len() implies s2[i].id@ != s2[j].id@ by {
        if j < s.len() {
        } else {
            assert(s2[i].id@ == s[i].id@);
            if s[i].id@ == a.id@ {
                assert(is_registered(s, a.id@));
            }
        }
    }
    lemma_index_of(s2, s.len() as int);
    assert forall|x: Seq<char>| x != a.id@ implies is_registered(s2, x) == is_registered(s, x)
        && balance_of(s2, x) == balance_of(s, x) && role_of(s2, x) == role_of(s, x) by {
        if is_registered(s2, x) {
            let k = choose|k: int| 0 <= k < s2.len() && s2[k].id@ == x;
            assert(k < s.len());
            assert(s[k].id@ == x);
        }
        if is_registered(s, x) {
            let k = index_of(s, x);
            assert(s2[k].id@ == x);
            lemma_index_of(s2, k);
        }
    }
    assert(s2.drop_last() =~= s);
}

} // verus!
