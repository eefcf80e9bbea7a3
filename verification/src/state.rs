//! The ledger state and its stores: the token registry, the balance store,
//! the NFT ownership history and the per-contract receiver registrations,
//! with the spec-level lookup functions and the invariants the operations
//! preserve.
//!
//! Each store is a vector of entries looked up by string keys.  The spec
//! functions recurse from the back of the sequence, so pushing an entry
//! unfolds definitionally; updates are handled by the lemmas below.

use vstd::prelude::*;

use crate::error::Error;
use crate::expiration::BlockInfo;
use crate::permissions::{perms_unique, PermEntry, OwnerPermKey};
use crate::state_structs::{ContractConfig, TknInfo};
use crate::txhistory::{AddrTxId, Tx};

verus! {

/// One token line: its stored information and its recorded total supply.
#[derive(Debug)]
pub struct TokenEntry {
    pub info: TknInfo,
    pub total_supply: u128,
}

/// One holder's balance in one token line.
#[derive(Debug, PartialEq)]
pub struct BalanceEntry {
    pub token_id: String,
    pub address: String,
    pub amount: u128,
}

/// One step of an NFT's ownership history; the latest entry for a token line
/// names its current owner.
#[derive(Debug, PartialEq)]
pub struct OwnerEntry {
    pub token_id: String,
    pub owner: String,
}

/// A contract address together with the code hash it registered to receive
/// transfer notifications under.
#[derive(Debug, PartialEq)]
pub struct ReceiverEntry {
    pub address: String,
    pub code_hash: String,
}

// ---------------------------------------------------------------------------
// Token registry
// ---------------------------------------------------------------------------

/// The entry for token line `id`, if curated.
pub open spec fn find_token(s: Seq<TokenEntry>, id: Seq<char>) -> Option<TokenEntry>
    decreases s.len(),
{
    if s.len() == 0 {
        None
    } else if s.last().info.token_id@ == id {
        Some(s.last())
    } else {
        find_token(s.drop_last(), id)
    }
}

pub open spec fn has_token(s: Seq<TokenEntry>, id: Seq<char>) -> bool {
    find_token(s, id) is Some
}

/// No two registry entries share a token_id.
pub open spec fn tokens_unique(s: Seq<TokenEntry>) -> bool {
    forall|i: int, j: int|
        0 <= i < j < s.len() ==> (#[trigger] s[i]).info.token_id@ != (#[trigger] s[j]).info.token_id@
}

/// With unique keys, `find_token` returns the entry at any matching index,
/// and returns `None` exactly when no index matches.
pub proof fn lemma_find_token(s: Seq<TokenEntry>, id: Seq<char>)
    ensures
        (find_token(s, id) is None) <==> (forall|i: int|
            0 <= i < s.len() ==> (#[trigger] s[i]).info.token_id@ != id),
        tokens_unique(s) ==> forall|i: int|
            0 <= i < s.len() && (#[trigger] s[i]).info.token_id@ == id ==> find_token(s, id)
                == Some(s[i]),
        (find_token(s, id) is Some) ==> exists|i: int|
            0 <= i < s.len() && (#[trigger] s[i]).info.token_id@ == id && find_token(s, id)
                == Some(s[i]),
    decreases s.len(),
{
    if s.len() > 0 {
        lemma_find_token(s.drop_last(), id);
        if find_token(s, id) is Some && s.last().info.token_id@ != id {
            let i = choose|i: int|
                0 <= i < s.drop_last().len() && (#[trigger] s.drop_last()[i]).info.token_id@ == id
                    && find_token(s.drop_last(), id) == Some(s.drop_last()[i]);
            assert(s[i].info.token_id@ == id && find_token(s, id) == Some(s[i]));
        }
        assert(forall|i: int| 0 <= i < s.len() - 1 ==> s.drop_last()[i] == s[i]);
        if s.last().info.token_id@ == id {
            assert(s[s.len() - 1].info.token_id@ == id);
        }
        assert forall|i: int|
            tokens_unique(s) && 0 <= i < s.len() && (#[trigger] s[i]).info.token_id@
                == id implies find_token(s, id) == Some(s[i]) by {
            if s.last().info.token_id@ == id {
                assert(i == s.len() - 1);
            } else {
                assert(i < s.len() - 1);
                assert(s.drop_last()[i] == s[i]);
                assert(tokens_unique(s.drop_last()));
            }
        }
    }
}

/// Updating an entry in place, keeping its token_id, moves the lookup for
/// that token_id to the new entry and leaves every other lookup unchanged.
pub proof fn lemma_find_token_update(s: Seq<TokenEntry>, i: int, e: TokenEntry)
    requires
        0 <= i < s.len(),
        e.info.token_id@ == s[i].info.token_id@,
        tokens_unique(s),
    ensures
        tokens_unique(s.update(i, e)),
        find_token(s.update(i, e), e.info.token_id@) == Some(e),
        forall|id: Seq<char>|
            id != e.info.token_id@ ==> find_token(s.update(i, e), id) == find_token(s, id),
    decreases s.len(),
{
    let t = s.update(i, e);
    assert forall|a: int, b: int| 0 <= a < b < t.len() implies (#[trigger] t[a]).info.token_id@
        != (#[trigger] t[b]).info.token_id@ by {
        assert(t[a].info.token_id@ == s[a].info.token_id@);
        assert(t[b].info.token_id@ == s[b].info.token_id@);
    }
    if i == s.len() - 1 {
        assert(t.last() == e);
        assert(t.drop_last() =~= s.drop_last());
        assert forall|id: Seq<char>| id != e.info.token_id@ implies find_token(t, id)
            == find_token(s, id) by {
            assert(find_token(t, id) == find_token(s.drop_last(), id));
            assert(s.last().info.token_id@ == e.info.token_id@);
            assert(find_token(s, id) == find_token(s.drop_last(), id));
        }
    } else {
        assert(t.last() == s.last());
        assert(t.drop_last() =~= s.drop_last().update(i, e));
        assert(tokens_unique(s.drop_last()));
        lemma_find_token_update(s.drop_last(), i, e);
        assert(s.last().info.token_id@ != e.info.token_id@);
        assert(find_token(t, e.info.token_id@) == find_token(t.drop_last(), e.info.token_id@));
        assert forall|id: Seq<char>| id != e.info.token_id@ implies find_token(t, id)
            == find_token(s, id) by {
            if s.last().info.token_id@ == id {
                assert(find_token(t, id) == Some(s.last()));
                assert(find_token(s, id) == Some(s.last()));
            } else {
                assert(find_token(t, id) == find_token(t.drop_last(), id));
                assert(find_token(s, id) == find_token(s.drop_last(), id));
            }
        }
    }
}

/// Looks up the registry index of token line `id`.
pub fn token_index(tokens: &Vec<TokenEntry>, id: &String) -> (r: Option<usize>)
    requires
        tokens_unique(tokens@),
    ensures
        match r {
            Some(i) => i < tokens@.len() && tokens@[i as int].info.token_id@ == id@ && find_token(
                tokens@,
                id@,
            ) == Some(tokens@[i as int]),
            None => find_token(tokens@, id@) is None,
        },
{
    proof {
        lemma_find_token(tokens@, id@);
    }
    let mut i: usize = 0;
    while i < tokens.len()
        invariant
            i <= tokens@.len(),
            forall|j: int| 0 <= j < i ==> (#[trigger] tokens@[j]).info.token_id@ != id@,
            tokens_unique(tokens@),
        decreases tokens@.len() - i,
    {
        if tokens[i].info.token_id == *id {
            proof {
                lemma_find_token(tokens@, id@);
            }
            return Some(i);
        }
        i = i + 1;
    }
    None
}

// ---------------------------------------------------------------------------
// Balance store
// ---------------------------------------------------------------------------

/// The stored amount for holder `a` in token line `t`, if an entry exists.
pub open spec fn find_amount(s: Seq<BalanceEntry>, t: Seq<char>, a: Seq<char>) -> Option<u128>
    decreases s.len(),
{
    if s.len() == 0 {
        None
    } else if s.last().token_id@ == t && s.last().address@ == a {
        Some(s.last().amount)
    } else {
        find_amount(s.drop_last(), t, a)
    }
}

/// The balance of holder `a` in token line `t`; an absent entry reads as
/// zero.
pub open spec fn bal_of(s: Seq<BalanceEntry>, t: Seq<char>, a: Seq<char>) -> u128 {
    match find_amount(s, t, a) {
        Some(x) => x,
        None => 0u128,
    }
}

/// The sum of all stored balances of token line `t`.
pub open spec fn sum_for(s: Seq<BalanceEntry>, t: Seq<char>) -> int
    decreases s.len(),
{
    if s.len() == 0 {
        0
    } else {
        sum_for(s.drop_last(), t) + if s.last().token_id@ == t {
            s.last().amount as int
        } else {
            0
        }
    }
}

/// No two balance entries share a (token_id, holder) pair.
pub open spec fn balances_unique(s: Seq<BalanceEntry>) -> bool {
    forall|i: int, j: int|
        0 <= i < j < s.len() ==> !((#[trigger] s[i]).token_id@ == (#[trigger] s[j]).token_id@
            && s[i].address@ == s[j].address@)
}

/// With unique keys, `find_amount` returns the amount at any matching index,
/// and returns `None` exactly when no index matches.
pub proof fn lemma_find_amount(s: Seq<BalanceEntry>, t: Seq<char>, a: Seq<char>)
    ensures
        (find_amount(s, t, a) is None) <==> (forall|i: int|
            0 <= i < s.len() ==> !((#[trigger] s[i]).token_id@ == t && s[i].address@ == a)),
        balances_unique(s) ==> forall|i: int|
            0 <= i < s.len() && (#[trigger] s[i]).token_id@ == t && s[i].address@ == a
                ==> find_amount(s, t, a) == Some(s[i].amount),
        (find_amount(s, t, a) is Some) ==> exists|i: int|
            0 <= i < s.len() && (#[trigger] s[i]).token_id@ == t && s[i].address@ == a
                && s[i].amount == find_amount(s, t, a).unwrap(),
    decreases s.len(),
{
    if s.len() > 0 {
        lemma_find_amount(s.drop_last(), t, a);
        if find_amount(s, t, a) is Some && !(s.last().token_id@ == t && s.last().address@ == a) {
            let i = choose|i: int|
                0 <= i < s.drop_last().len() && (#[trigger] s.drop_last()[i]).token_id@ == t
                    && s.drop_last()[i].address@ == a && s.drop_last()[i].amount == find_amount(
                    s.drop_last(),
                    t,
                    a,
                ).unwrap();
            assert(s[i].token_id@ == t && s[i].address@ == a && s[i].amount == find_amount(
                s,
                t,
                a,
            ).unwrap());
        }
        assert(forall|i: int| 0 <= i < s.len() - 1 ==> s.drop_last()[i] == s[i]);
        if s.last().token_id@ == t && s.last().address@ == a {
            assert(s[s.len() - 1].token_id@ == t && s[s.len() - 1].address@ == a);
        }
        assert forall|i: int|
            balances_unique(s) && 0 <= i < s.len() && (#[trigger] s[i]).token_id@ == t
                && s[i].address@ == a implies find_amount(s, t, a) == Some(s[i].amount) by {
            if s.last().token_id@ == t && s.last().address@ == a {
                assert(i == s.len() - 1);
            } else {
                assert(i < s.len() - 1);
                assert(s.drop_last()[i] == s[i]);
                assert(balances_unique(s.drop_last()));
            }
        }
    }
}

/// Updating a balance entry in place, keeping its keys, moves the lookup for
/// that key to the new amount, leaves other lookups unchanged, and shifts
/// the per-token sum by the difference.
pub proof fn lemma_balance_update(s: Seq<BalanceEntry>, i: int, e: BalanceEntry)
    requires
        0 <= i < s.len(),
        e.token_id@ == s[i].token_id@,
        e.address@ == s[i].address@,
        balances_unique(s),
    ensures
        balances_unique(s.update(i, e)),
        find_amount(s.update(i, e), e.token_id@, e.address@) == Some(e.amount),
        forall|t: Seq<char>, a: Seq<char>|
            !(t == e.token_id@ && a == e.address@) ==> find_amount(s.update(i, e), t, a)
                == find_amount(s, t, a),
        forall|t: Seq<char>|
            sum_for(s.update(i, e), t) == sum_for(s, t) + if t == e.token_id@ {
                e.amount - s[i].amount
            } else {
                0
            },
    decreases s.len(),
{
    let u = s.update(i, e);
    assert forall|x: int, y: int| 0 <= x < y < u.len() implies !((#[trigger] u[x]).token_id@ == (
    #[trigger] u[y]).token_id@ && u[x].address@ == u[y].address@) by {
        assert(u[x].token_id@ == s[x].token_id@ && u[x].address@ == s[x].address@);
        assert(u[y].token_id@ == s[y].token_id@ && u[y].address@ == s[y].address@);
    }
    if i == s.len() - 1 {
        assert(u.last() == e);
        assert(u.drop_last() =~= s.drop_last());
        assert(s.last().token_id@ == e.token_id@ && s.last().address@ == e.address@);
        assert forall|t: Seq<char>, a: Seq<char>|
            !(t == e.token_id@ && a == e.address@) implies find_amount(u, t, a) == find_amount(
            s,
            t,
            a,
        ) by {
            assert(find_amount(u, t, a) == find_amount(s.drop_last(), t, a));
            assert(find_amount(s, t, a) == find_amount(s.drop_last(), t, a));
        }
        assert forall|t: Seq<char>|
            sum_for(u, t) == sum_for(s, t) + (if t == e.token_id@ {
                e.amount - s[i].amount
            } else {
                0int
            }) by {
            assert(sum_for(u, t) == sum_for(s.drop_last(), t) + if e.token_id@ == t {
                e.amount as int
            } else {
                0int
            });
            assert(sum_for(s, t) == sum_for(s.drop_last(), t) + if s[i].token_id@ == t {
                s[i].amount as int
            } else {
                0int
            });
        }
    } else {
        assert(u.last() == s.last());
        assert(u.drop_last() =~= s.drop_last().update(i, e));
        assert(balances_unique(s.drop_last()));
        lemma_balance_update(s.drop_last(), i, e);
        assert(!(s.last().token_id@ == e.token_id@ && s.last().address@ == e.address@));
        assert(find_amount(u, e.token_id@, e.address@) == find_amount(
            u.drop_last(),
            e.token_id@,
            e.address@,
        ));
        assert forall|t: Seq<char>, a: Seq<char>|
            !(t == e.token_id@ && a == e.address@) implies find_amount(u, t, a) == find_amount(
            s,
            t,
            a,
        ) by {
            if s.last().token_id@ == t && s.last().address@ == a {
                assert(find_amount(u, t, a) == Some(s.last().amount));
                assert(find_amount(s, t, a) == Some(s.last().amount));
            } else {
                assert(find_amount(u, t, a) == find_amount(u.drop_last(), t, a));
                assert(find_amount(s, t, a) == find_amount(s.drop_last(), t, a));
            }
        }
        assert forall|t: Seq<char>|
            sum_for(u, t) == sum_for(s, t) + (if t == e.token_id@ {
                e.amount - s[i].amount
            } else {
                0int
            }) by {
            assert(sum_for(u, t) == sum_for(u.drop_last(), t) + if s.last().token_id@ == t {
                s.last().amount as int
            } else {
                0int
            });
            assert(sum_for(s, t) == sum_for(s.drop_last(), t) + if s.last().token_id@ == t {
                s.last().amount as int
            } else {
                0int
            });
        }
    }
}

/// Appending a balance entry adds its amount to its token line's sum and
/// leaves lookups of every other key unchanged.
pub proof fn lemma_balance_push(s: Seq<BalanceEntry>, e: BalanceEntry)
    ensures
        find_amount(s.push(e), e.token_id@, e.address@) == Some(e.amount),
        forall|t: Seq<char>, a: Seq<char>|
            !(t == e.token_id@ && a == e.address@) ==> find_amount(s.push(e), t, a) == find_amount(
                s,
                t,
                a,
            ),
        forall|t: Seq<char>|
            sum_for(s.push(e), t) == sum_for(s, t) + if t == e.token_id@ {
                e.amount as int
            } else {
                0
            },
{
    assert(s.push(e).drop_last() =~= s);
}

/// A token line with no balance entries sums to zero.
pub proof fn lemma_sum_absent(s: Seq<BalanceEntry>, t: Seq<char>)
    requires
        forall|i: int| 0 <= i < s.len() ==> (#[trigger] s[i]).token_id@ != t,
    ensures
        sum_for(s, t) == 0,
    decreases s.len(),
{
    if s.len() > 0 {
        assert(forall|i: int|
            0 <= i < s.drop_last().len() ==> (#[trigger] s.drop_last()[i]).token_id@ != t);
        lemma_sum_absent(s.drop_last(), t);
    }
}

/// Every entry's amount is bounded by its token line's sum.
pub proof fn lemma_sum_entry_bound(s: Seq<BalanceEntry>, t: Seq<char>, i: int)
    requires
        0 <= i < s.len(),
        s[i].token_id@ == t,
    ensures
        s[i].amount as int <= sum_for(s, t),
        sum_for(s, t) >= 0,
    decreases s.len(),
{
    lemma_sum_nonneg(s, t);
    if i == s.len() - 1 {
        lemma_sum_nonneg(s.drop_last(), t);
    } else {
        assert(s.drop_last()[i] == s[i]);
        lemma_sum_entry_bound(s.drop_last(), t, i);
    }
}

/// Per-token sums are never negative.
pub proof fn lemma_sum_nonneg(s: Seq<BalanceEntry>, t: Seq<char>)
    ensures
        sum_for(s, t) >= 0,
    decreases s.len(),
{
    if s.len() > 0 {
        lemma_sum_nonneg(s.drop_last(), t);
    }
}

/// Two distinct entries of one token line together are bounded by its sum.
pub proof fn lemma_sum_two_entries(s: Seq<BalanceEntry>, t: Seq<char>, i: int, j: int)
    requires
        0 <= i < j < s.len(),
        s[i].token_id@ == t,
        s[j].token_id@ == t,
    ensures
        s[i].amount as int + s[j].amount as int <= sum_for(s, t),
    decreases s.len(),
{
    lemma_sum_nonneg(s.drop_last(), t);
    if j == s.len() - 1 {
        assert(s.drop_last()[i] == s[i]);
        lemma_sum_entry_bound(s.drop_last(), t, i);
    } else {
        assert(s.drop_last()[i] == s[i]);
        assert(s.drop_last()[j] == s[j]);
        lemma_sum_two_entries(s.drop_last(), t, i, j);
    }
}

/// Looks up the index of the balance entry for (`token_id`, `address`).
pub fn balance_index(balances: &Vec<BalanceEntry>, token_id: &String, address: &String) -> (r:
    Option<usize>)
    requires
        balances_unique(balances@),
    ensures
        match r {
            Some(i) => i < balances@.len() && balances@[i as int].token_id@ == token_id@
                && balances@[i as int].address@ == address@ && find_amount(
                balances@,
                token_id@,
                address@,
            ) == Some(balances@[i as int].amount),
            None => find_amount(balances@, token_id@, address@) is None,
        },
{
    proof {
        lemma_find_amount(balances@, token_id@, address@);
    }
    let mut i: usize = 0;
    while i < balances.len()
        invariant
            i <= balances@.len(),
            forall|j: int|
                0 <= j < i ==> !((#[trigger] balances@[j]).token_id@ == token_id@
                    && balances@[j].address@ == address@),
            balances_unique(balances@),
        decreases balances@.len() - i,
    {
        if balances[i].token_id == *token_id && balances[i].address == *address {
            proof {
                lemma_find_amount(balances@, token_id@, address@);
            }
            return Some(i);
        }
        i = i + 1;
    }
    None
}

/// Credits `amount` to (`token_id`, `address`), creating the entry if
/// absent.  Fails with `Overflow`, changing nothing, where the balance would
/// pass the largest representable amount.
pub fn add_balance(
    balances: &mut Vec<BalanceEntry>,
    token_id: &String,
    address: &String,
    amount: u128,
) -> (r: Result<(), Error>)
    requires
        balances_unique(old(balances)@),
    ensures
        balances_unique(final(balances)@),
        match r {
            Ok(_) => {
                &&& bal_of(old(balances)@, token_id@, address@) + amount <= u128::MAX
                &&& find_amount(final(balances)@, token_id@, address@) == Some(
                    (bal_of(old(balances)@, token_id@, address@) + amount) as u128,
                )
                &&& forall|t: Seq<char>, a: Seq<char>|
                    !(t == token_id@ && a == address@) ==> find_amount(final(balances)@, t, a)
                        == find_amount(old(balances)@, t, a)
                &&& forall|t: Seq<char>|
                    sum_for(final(balances)@, t) == sum_for(old(balances)@, t) + if t == token_id@ {
                        amount as int
                    } else {
                        0
                    }
                &&& forall|j: int|
                    0 <= j < final(balances)@.len() ==> ((#[trigger] final(balances)@[j]).token_id@
                        == token_id@ && final(balances)@[j].address@ == address@) || (j < old(
                        balances,
                    )@.len() && final(balances)@[j] == old(balances)@[j])
            },
            Err(e) => {
                &&& e == Error::Overflow
                &&& bal_of(old(balances)@, token_id@, address@) + amount > u128::MAX
                &&& final(balances)@ == old(balances)@
            },
        },
{
    let idx = balance_index(balances, token_id, address);
    match idx {
        Some(i) => {
            let cur: u128 = balances[i].amount;
            match cur.checked_add(amount) {
                Some(new_amount) => {
                    proof {
                        lemma_balance_update(
                            balances@,
                            i as int,
                            BalanceEntry {
                                amount: new_amount,
                                ..balances@[i as int]
                            },
                        );
                    }
                    let e = &mut balances[i];
                    e.amount = new_amount;
                    Ok(())
                },
                None => Err(Error::Overflow),
            }
        },
        None => {
            match 0u128.checked_add(amount) {
                Some(new_amount) => {
                    proof {
                        lemma_find_amount(balances@, token_id@, address@);
                        lemma_balance_push(
                            balances@,
                            BalanceEntry {
                                token_id: *token_id,
                                address: *address,
                                amount: new_amount,
                            },
                        );
                    }
                    let entry = BalanceEntry {
                        token_id: token_id.clone(),
                        address: address.clone(),
                        amount: new_amount,
                    };
                    balances.push(entry);
                    Ok(())
                },
                None => Err(Error::Overflow),
            }
        },
    }
}

/// Debits `amount` from (`token_id`, `address`).  Fails with `NotFound`
/// where the holder has no entry at all, and with `InsufficientFunds` where
/// the stored amount is smaller; either failure changes nothing.
pub fn sub_balance(
    balances: &mut Vec<BalanceEntry>,
    token_id: &String,
    address: &String,
    amount: u128,
) -> (r: Result<(), Error>)
    requires
        balances_unique(old(balances)@),
    ensures
        balances_unique(final(balances)@),
        match r {
            Ok(_) => {
                &&& find_amount(old(balances)@, token_id@, address@) is Some
                &&& amount <= bal_of(old(balances)@, token_id@, address@)
                &&& find_amount(final(balances)@, token_id@, address@) == Some(
                    (bal_of(old(balances)@, token_id@, address@) - amount) as u128,
                )
                &&& forall|t: Seq<char>, a: Seq<char>|
                    !(t == token_id@ && a == address@) ==> find_amount(final(balances)@, t, a)
                        == find_amount(old(balances)@, t, a)
                &&& forall|t: Seq<char>|
                    sum_for(final(balances)@, t) == sum_for(old(balances)@, t) - if t == token_id@ {
                        amount as int
                    } else {
                        0
                    }
                &&& final(balances)@.len() == old(balances)@.len()
                &&& forall|j: int|
                    0 <= j < final(balances)@.len() ==> (#[trigger] final(balances)@[j]).token_id@
                        == old(balances)@[j].token_id@ && final(balances)@[j].address@ == old(
                        balances,
                    )@[j].address@
            },
            Err(e) => {
                &&& final(balances)@ == old(balances)@
                &&& match find_amount(old(balances)@, token_id@, address@) {
                    None => e == Error::NotFound,
                    Some(b) => e == Error::InsufficientFunds && b < amount,
                }
            },
        },
{
    let idx = balance_index(balances, token_id, address);
    match idx {
        Some(i) => {
            let cur: u128 = balances[i].amount;
            match cur.checked_sub(amount) {
                Some(new_amount) => {
                    proof {
                        lemma_balance_update(
                            balances@,
                            i as int,
                            BalanceEntry {
                                amount: new_amount,
                                ..balances@[i as int]
                            },
                        );
                    }
                    let e = &mut balances[i];
                    e.amount = new_amount;
                    Ok(())
                },
                None => Err(Error::InsufficientFunds),
            }
        },
        None => Err(Error::NotFound),
    }
}

// ---------------------------------------------------------------------------
// NFT ownership history
// ---------------------------------------------------------------------------

/// The current owner of NFT token line `t`: the owner its latest history
/// entry names, if any entry exists.
pub open spec fn current_owner(s: Seq<OwnerEntry>, t: Seq<char>) -> Option<Seq<char>>
    decreases s.len(),
{
    if s.len() == 0 {
        None
    } else if s.last().token_id@ == t {
        Some(s.last().owner@)
    } else {
        current_owner(s.drop_last(), t)
    }
}

/// Finds the current owner of token line `t` by scanning the history from
/// its latest entry backwards.
pub fn find_current_owner(history: &Vec<OwnerEntry>, token_id: &String) -> (r: Option<String>)
    ensures
        match r {
            Some(o) => current_owner(history@, token_id@) == Some(o@),
            None => current_owner(history@, token_id@) is None,
        },
{
    proof {
        assert(history@.subrange(0, history@.len() as int) =~= history@);
    }
    let mut i: usize = history.len();
    while i > 0
        invariant
            i <= history@.len(),
            current_owner(history@, token_id@) == current_owner(
                history@.subrange(0, i as int),
                token_id@,
            ),
        decreases i,
    {
        i = i - 1;
        proof {
            assert(history@.subrange(0, i + 1 as int).last() == history@[i as int]);
            assert(history@.subrange(0, i + 1 as int).drop_last() =~= history@.subrange(
                0,
                i as int,
            ));
        }
        if history[i].token_id == *token_id {
            return Some(history[i].owner.clone());
        }
    }
    None
}

impl ContractState {
    /// Appends a new owner to a token line's ownership history; meant for
    /// NFTs, whose current owner the latest entry names.
    pub fn append_new_owner(&mut self, token_id: &String, address: &String)
        ensures
            current_owner(final(self).owner_history@, token_id@) == Some(address@),
            forall|t: Seq<char>|
                t != token_id@ ==> current_owner(final(self).owner_history@, t) == current_owner(
                    old(self).owner_history@,
                    t,
                ),
            final(self).owner_history@.len() == old(self).owner_history@.len() + 1,
            final(self).config == old(self).config,
            final(self).tokens == old(self).tokens,
            final(self).balances == old(self).balances,
            final(self).permissions == old(self).permissions,
            final(self).permission_keys == old(self).permission_keys,
            final(self).txs == old(self).txs,
            final(self).addr_tx_ids == old(self).addr_tx_ids,
            final(self).receiver_hashes == old(self).receiver_hashes,
            final(self).block == old(self).block,
    {
        let entry = OwnerEntry { token_id: token_id.clone(), owner: address.clone() };
        proof {
            assert(old(self).owner_history@.push(entry).drop_last() =~= old(
                self,
            ).owner_history@);
        }
        self.owner_history.push(entry);
    }

    /// The current owner of a token line, if its ownership history has any
    /// entry; meaningful for NFTs.
    pub fn may_get_current_owner(&self, token_id: &String) -> (r: Option<String>)
        ensures
            match r {
                Some(o) => current_owner(self.owner_history@, token_id@) == Some(o@),
                None => current_owner(self.owner_history@, token_id@) is None,
            },
    {
        find_current_owner(&self.owner_history, token_id)
    }
}

// ---------------------------------------------------------------------------
// Receiver registrations
// ---------------------------------------------------------------------------

/// The code hash that `address` registered, if any.
pub open spec fn find_receiver(s: Seq<ReceiverEntry>, address: Seq<char>) -> Option<Seq<char>>
    decreases s.len(),
{
    if s.len() == 0 {
        None
    } else if s.last().address@ == address {
        Some(s.last().code_hash@)
    } else {
        find_receiver(s.drop_last(), address)
    }
}

/// Records `code_hash` as the receiver registration of `address`,
/// overwriting an earlier one.  The store may keep superseded entries; the
/// lookup reads the latest.
pub fn set_receiver_hash(receivers: &mut Vec<ReceiverEntry>, address: &String, code_hash: String)
    ensures
        find_receiver(final(receivers)@, address@) == Some(code_hash@),
        forall|a: Seq<char>|
            a != address@ ==> find_receiver(final(receivers)@, a) == find_receiver(
                old(receivers)@,
                a,
            ),
{
    let entry = ReceiverEntry { address: address.clone(), code_hash };
    proof {
        assert(old(receivers)@.push(entry).drop_last() =~= old(receivers)@);
    }
    receivers.push(entry);
}

/// Reads the code hash that `address` registered, if any.
pub fn get_receiver_hash(receivers: &Vec<ReceiverEntry>, address: &String) -> (r: Option<String>)
    ensures
        match r {
            Some(h) => find_receiver(receivers@, address@) == Some(h@),
            None => find_receiver(receivers@, address@) is None,
        },
{
    proof {
        assert(receivers@.subrange(0, receivers@.len() as int) =~= receivers@);
    }
    let mut i: usize = receivers.len();
    while i > 0
        invariant
            i <= receivers@.len(),
            find_receiver(receivers@, address@) == find_receiver(
                receivers@.subrange(0, i as int),
                address@,
            ),
        decreases i,
    {
        i = i - 1;
        proof {
            assert(receivers@.subrange(0, i + 1 as int).last() == receivers@[i as int]);
            assert(receivers@.subrange(0, i + 1 as int).drop_last() =~= receivers@.subrange(
                0,
                i as int,
            ));
        }
        if receivers[i].address == *address {
            return Some(receivers[i].code_hash.clone());
        }
    }
    None
}

// ---------------------------------------------------------------------------
// The ledger state
// ---------------------------------------------------------------------------

/// The whole state of one deployment, threaded explicitly through every
/// operation.  The host persists it; the library only computes on it.
#[derive(Debug)]
pub struct ContractState {
    pub config: ContractConfig,
    /// The token registry, keyed by token_id.
    pub tokens: Vec<TokenEntry>,
    /// The balance store, keyed by (token_id, holder).
    pub balances: Vec<BalanceEntry>,
    /// Append-only NFT ownership history.
    pub owner_history: Vec<OwnerEntry>,
    /// The permission store, keyed by (owner, token_id, spender).
    pub permissions: Vec<PermEntry>,
    /// Append-only per-owner index of granted (token_id, spender) pairs;
    /// duplicates may accumulate, the permission store is the truth.
    pub permission_keys: Vec<OwnerPermKey>,
    /// The append-only transaction log; entry `i` has tx id `i`.
    pub txs: Vec<Tx>,
    /// Append-only per-address index into the transaction log.
    pub addr_tx_ids: Vec<AddrTxId>,
    /// Receiver registrations for transfer notifications.
    pub receiver_hashes: Vec<ReceiverEntry>,
    /// The logical clock of the latest handled operation.
    pub block: BlockInfo,
}

impl ContractState {
    /// The balance of `address` in token line `token_id`; absent reads zero.
    pub open spec fn spec_balance(self, t: Seq<char>, a: Seq<char>) -> u128 {
        bal_of(self.balances@, t, a)
    }

    /// The permission `owner` granted `spender` on `token_id`, if any.
    pub open spec fn spec_permission(
        self,
        owner: Seq<char>,
        token_id: Seq<char>,
        spender: Seq<char>,
    ) -> Option<crate::permissions::Permission> {
        crate::permissions::find_perm(self.permissions@, owner, token_id, spender)
    }

    /// The registry entry of token line `id`, if curated.
    pub open spec fn spec_token(self, id: Seq<char>) -> Option<TokenEntry> {
        find_token(self.tokens@, id)
    }

    /// Well-formedness: the invariant every operation preserves.
    ///
    /// - store keys are unique;
    /// - every balance belongs to a curated token line;
    /// - the balances of each token line sum to its recorded total supply;
    /// - an NFT token line has total supply at most one, so at most one
    ///   holder owns its single unit;
    /// - the transaction log is dense: entry `i` carries tx id `i`, and the
    ///   counter equals the log length;
    /// - each per-address index entry points into the log, and the ids of
    ///   one address are strictly increasing;
    /// - the curated token_id list mirrors the registry, in order.
    pub open spec fn wf(self) -> bool {
        &&& tokens_unique(self.tokens@)
        &&& balances_unique(self.balances@)
        &&& perms_unique(self.permissions@)
        &&& forall|i: int|
            0 <= i < self.balances@.len() ==> has_token(
                self.tokens@,
                (#[trigger] self.balances@[i]).token_id@,
            )
        &&& forall|i: int|
            0 <= i < self.tokens@.len() ==> sum_for(
                self.balances@,
                (#[trigger] self.tokens@[i]).info.token_id@,
            ) == self.tokens@[i].total_supply as int
        &&& forall|i: int|
            0 <= i < self.tokens@.len() ==> ((#[trigger] self.tokens@[i]).info.token_config.spec_is_nft()
                ==> self.tokens@[i].total_supply <= 1)
        &&& self.tx_log_wf()
        &&& self.config.token_id_list@.len() == self.tokens@.len()
        &&& forall|i: int|
            0 <= i < self.tokens@.len() ==> self.config.token_id_list@[i]@ == (
            #[trigger] self.tokens@[i]).info.token_id@
    }
}

} // verus!
