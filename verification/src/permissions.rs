//! The permission and allowance store: what an owner has granted a spender
//! on one token line, with an expiry on each right.  Entries are updated in
//! place and never removed; revocation resets one to the default.

use vstd::prelude::*;

use crate::error::Error;
use crate::expiration::{BlockInfo, Expiration};
use crate::state::ContractState;

verus! {

/// What `owner` has granted `spender` on one token line: a view-balance
/// right, a view-private-metadata right, and a transfer allowance, each with
/// its own expiry.
#[derive(Clone, Copy, Debug, PartialEq, Eq, Structural)]
pub struct Permission {
    pub view_balance_perm: bool,
    pub view_balance_exp: Expiration,
    pub view_pr_metadata_perm: bool,
    pub view_pr_metadata_exp: Expiration,
    pub trfer_allowance_perm: u128,
    pub trfer_allowance_exp: Expiration,
}

/// The all-denied record: no rights, no allowance, no expiries.  A revoked
/// permission is reset to this value.
pub open spec fn default_permission() -> Permission {
    Permission {
        view_balance_perm: false,
        view_balance_exp: Expiration::Never,
        view_pr_metadata_perm: false,
        view_pr_metadata_exp: Expiration::Never,
        trfer_allowance_perm: 0u128,
        trfer_allowance_exp: Expiration::Never,
    }
}

impl Default for Permission {
    fn default() -> (r: Self)
        ensures
            r == default_permission(),
    {
        Permission {
            view_balance_perm: false,
            view_balance_exp: Expiration::Never,
            view_pr_metadata_perm: false,
            view_pr_metadata_exp: Expiration::Never,
            trfer_allowance_perm: 0u128,
            trfer_allowance_exp: Expiration::Never,
        }
    }
}

impl Permission {
    /// Whether the view-balance right stands as of `blockinfo`: granted and
    /// not yet elapsed.
    pub open spec fn spec_check_view_balance(self, blockinfo: BlockInfo) -> bool {
        self.view_balance_perm && !self.view_balance_exp.spec_is_expired(blockinfo)
    }

    /// Whether the view-private-metadata right stands as of `blockinfo`.
    pub open spec fn spec_check_view_pr_metadata(self, blockinfo: BlockInfo) -> bool {
        self.view_pr_metadata_perm && !self.view_pr_metadata_exp.spec_is_expired(blockinfo)
    }

    pub fn check_view_balance_perm(&self, blockinfo: &BlockInfo) -> (r: bool)
        ensures
            r == self.spec_check_view_balance(*blockinfo),
    {
        self.view_balance_perm && !self.view_balance_exp.is_expired(blockinfo)
    }

    pub fn check_view_pr_metadata_perm(&self, blockinfo: &BlockInfo) -> (r: bool)
        ensures
            r == self.spec_check_view_pr_metadata(*blockinfo),
    {
        self.view_pr_metadata_perm && !self.view_pr_metadata_exp.is_expired(blockinfo)
    }
}

/// A (token_id, spender) pair under which an owner once granted a
/// permission; the owner's enumeration index lists these.
#[derive(Debug, PartialEq)]
pub struct PermissionKey {
    pub token_id: String,
    pub allowed_addr: String,
}

impl Clone for PermissionKey {
    fn clone(&self) -> (r: Self)
        ensures
            r.token_id@ == self.token_id@,
            r.allowed_addr@ == self.allowed_addr@,
    {
        PermissionKey {
            token_id: self.token_id.clone(),
            allowed_addr: self.allowed_addr.clone(),
        }
    }
}

/// One record of the permission store.
#[derive(Debug)]
pub struct PermEntry {
    pub owner: String,
    pub token_id: String,
    pub allowed_addr: String,
    pub permission: Permission,
}

/// One record of the per-owner enumeration index.
#[derive(Debug)]
pub struct OwnerPermKey {
    pub owner: String,
    pub key: PermissionKey,
}

/// The permission `owner` granted `spender` on `token_id`, if an entry
/// exists.
pub open spec fn find_perm(
    s: Seq<PermEntry>,
    owner: Seq<char>,
    token_id: Seq<char>,
    spender: Seq<char>,
) -> Option<Permission>
    decreases s.len(),
{
    if s.len() == 0 {
        None
    } else if s.last().owner@ == owner && s.last().token_id@ == token_id && s.last().allowed_addr@
        == spender {
        Some(s.last().permission)
    } else {
        find_perm(s.drop_last(), owner, token_id, spender)
    }
}

/// No two permission entries share an (owner, token_id, spender) triple.
pub open spec fn perms_unique(s: Seq<PermEntry>) -> bool {
    forall|i: int, j: int|
        0 <= i < j < s.len() ==> !((#[trigger] s[i]).owner@ == (#[trigger] s[j]).owner@
            && s[i].token_id@ == s[j].token_id@ && s[i].allowed_addr@ == s[j].allowed_addr@)
}

/// With unique keys, `find_perm` returns the permission at any matching
/// index, and returns `None` exactly when no index matches.
pub proof fn lemma_find_perm(s: Seq<PermEntry>, o: Seq<char>, t: Seq<char>, a: Seq<char>)
    ensures
        (find_perm(s, o, t, a) is None) <==> (forall|i: int|
            0 <= i < s.len() ==> !((#[trigger] s[i]).owner@ == o && s[i].token_id@ == t
                && s[i].allowed_addr@ == a)),
        perms_unique(s) ==> forall|i: int|
            0 <= i < s.len() && (#[trigger] s[i]).owner@ == o && s[i].token_id@ == t
                && s[i].allowed_addr@ == a ==> find_perm(s, o, t, a) == Some(s[i].permission),
    decreases s.len(),
{
    if s.len() > 0 {
        lemma_find_perm(s.drop_last(), o, t, a);
        assert(forall|i: int| 0 <= i < s.len() - 1 ==> s.drop_last()[i] == s[i]);
        if s.last().owner@ == o && s.last().token_id@ == t && s.last().allowed_addr@ == a {
            assert(s[s.len() - 1].owner@ == o && s[s.len() - 1].token_id@ == t && s[s.len()
                - 1].allowed_addr@ == a);
        }
        assert forall|i: int|
            perms_unique(s) && 0 <= i < s.len() && (#[trigger] s[i]).owner@ == o && s[i].token_id@
                == t && s[i].allowed_addr@ == a implies find_perm(s, o, t, a) == Some(
            s[i].permission,
        ) by {
            if s.last().owner@ == o && s.last().token_id@ == t && s.last().allowed_addr@ == a {
                assert(i == s.len() - 1);
            } else {
                assert(i < s.len() - 1);
                assert(s.drop_last()[i] == s[i]);
                assert(perms_unique(s.drop_last()));
            }
        }
    }
}

/// Updating an entry in place, keeping its triple, moves the lookup for that
/// triple to the new permission and leaves every other lookup unchanged.
pub proof fn lemma_find_perm_update(s: Seq<PermEntry>, i: int, e: PermEntry)
    requires
        0 <= i < s.len(),
        e.owner@ == s[i].owner@,
        e.token_id@ == s[i].token_id@,
        e.allowed_addr@ == s[i].allowed_addr@,
        perms_unique(s),
    ensures
        perms_unique(s.update(i, e)),
        find_perm(s.update(i, e), e.owner@, e.token_id@, e.allowed_addr@) == Some(e.permission),
        forall|o: Seq<char>, t: Seq<char>, a: Seq<char>|
            !(o == e.owner@ && t == e.token_id@ && a == e.allowed_addr@) ==> find_perm(
                s.update(i, e),
                o,
                t,
                a,
            ) == find_perm(s, o, t, a),
    decreases s.len(),
{
    let u = s.update(i, e);
    assert forall|x: int, y: int| 0 <= x < y < u.len() implies !((#[trigger] u[x]).owner@ == (
    #[trigger] u[y]).owner@ && u[x].token_id@ == u[y].token_id@ && u[x].allowed_addr@
        == u[y].allowed_addr@) by {
        assert(u[x].owner@ == s[x].owner@ && u[x].token_id@ == s[x].token_id@ && u[x].allowed_addr@
            == s[x].allowed_addr@);
        assert(u[y].owner@ == s[y].owner@ && u[y].token_id@ == s[y].token_id@ && u[y].allowed_addr@
            == s[y].allowed_addr@);
    }
    if i == s.len() - 1 {
        assert(u.last() == e);
        assert(u.drop_last() =~= s.drop_last());
        assert(s.last().owner@ == e.owner@ && s.last().token_id@ == e.token_id@
            && s.last().allowed_addr@ == e.allowed_addr@);
        assert forall|o: Seq<char>, t: Seq<char>, a: Seq<char>|
            !(o == e.owner@ && t == e.token_id@ && a == e.allowed_addr@) implies find_perm(
            u,
            o,
            t,
            a,
        ) == find_perm(s, o, t, a) by {
            assert(find_perm(u, o, t, a) == find_perm(s.drop_last(), o, t, a));
            assert(find_perm(s, o, t, a) == find_perm(s.drop_last(), o, t, a));
        }
    } else {
        assert(u.last() == s.last());
        assert(u.drop_last() =~= s.drop_last().update(i, e));
        assert(perms_unique(s.drop_last()));
        lemma_find_perm_update(s.drop_last(), i, e);
        assert(!(s.last().owner@ == e.owner@ && s.last().token_id@ == e.token_id@
            && s.last().allowed_addr@ == e.allowed_addr@));
        assert(find_perm(u, e.owner@, e.token_id@, e.allowed_addr@) == find_perm(
            u.drop_last(),
            e.owner@,
            e.token_id@,
            e.allowed_addr@,
        ));
        assert forall|o: Seq<char>, t: Seq<char>, a: Seq<char>|
            !(o == e.owner@ && t == e.token_id@ && a == e.allowed_addr@) implies find_perm(
            u,
            o,
            t,
            a,
        ) == find_perm(s, o, t, a) by {
            if s.last().owner@ == o && s.last().token_id@ == t && s.last().allowed_addr@ == a {
                assert(find_perm(u, o, t, a) == Some(s.last().permission));
                assert(find_perm(s, o, t, a) == Some(s.last().permission));
            } else {
                assert(find_perm(u, o, t, a) == find_perm(u.drop_last(), o, t, a));
                assert(find_perm(s, o, t, a) == find_perm(s.drop_last(), o, t, a));
            }
        }
    }
}

/// Looks up the store index of the (owner, token_id, spender) triple.
pub fn perm_index(
    perms: &Vec<PermEntry>,
    owner: &String,
    token_id: &String,
    spender: &String,
) -> (r: Option<usize>)
    requires
        perms_unique(perms@),
    ensures
        match r {
            Some(i) => i < perms@.len() && perms@[i as int].owner@ == owner@
                && perms@[i as int].token_id@ == token_id@ && perms@[i as int].allowed_addr@
                == spender@ && find_perm(perms@, owner@, token_id@, spender@) == Some(
                perms@[i as int].permission,
            ),
            None => find_perm(perms@, owner@, token_id@, spender@) is None,
        },
{
    proof {
        lemma_find_perm(perms@, owner@, token_id@, spender@);
    }
    let mut i: usize = 0;
    while i < perms.len()
        invariant
            i <= perms@.len(),
            forall|j: int|
                0 <= j < i ==> !((#[trigger] perms@[j]).owner@ == owner@ && perms@[j].token_id@
                    == token_id@ && perms@[j].allowed_addr@ == spender@),
            perms_unique(perms@),
        decreases perms@.len() - i,
    {
        if perms[i].owner == *owner && perms[i].token_id == *token_id && perms[i].allowed_addr
            == *spender {
            proof {
                lemma_find_perm(perms@, owner@, token_id@, spender@);
            }
            return Some(i);
        }
        i = i + 1;
    }
    None
}

/// The (token_id, spender) pairs recorded for `owner`, in grant order.
pub open spec fn perm_keys_for(s: Seq<OwnerPermKey>, owner: Seq<char>) -> Seq<PermissionKey>
    decreases s.len(),
{
    if s.len() == 0 {
        Seq::empty()
    } else {
        let rest = perm_keys_for(s.drop_last(), owner);
        if s.last().owner@ == owner {
            rest.push(s.last().key)
        } else {
            rest
        }
    }
}

/// Appending an entry whose triple is absent keeps the store's keys unique.
pub proof fn lemma_perms_push_unique(s: Seq<PermEntry>, e: PermEntry)
    requires
        perms_unique(s),
        find_perm(s, e.owner@, e.token_id@, e.allowed_addr@) is None,
    ensures
        perms_unique(s.push(e)),
{
    lemma_find_perm(s, e.owner@, e.token_id@, e.allowed_addr@);
    let u = s.push(e);
    assert forall|x: int, y: int| 0 <= x < y < u.len() implies !((#[trigger] u[x]).owner@ == (
    #[trigger] u[y]).owner@ && u[x].token_id@ == u[y].token_id@ && u[x].allowed_addr@
        == u[y].allowed_addr@) by {
        if y == u.len() - 1 {
            assert(u[x] == s[x]);
            assert(u[y] == e);
        } else {
            assert(u[x] == s[x]);
            assert(u[y] == s[y]);
        }
    }
}

/// Returns the permission `owner` has granted `allowed_addr` on `token_id`,
/// dormant ones included; `None` where no entry was ever created.
pub fn may_load_any_permission(
    state: &ContractState,
    owner: &String,
    token_id: &String,
    allowed_addr: &String,
) -> (r: Option<Permission>)
    requires
        state.wf(),
    ensures
        r == state.spec_permission(owner@, token_id@, allowed_addr@),
{
    let idx = perm_index(&state.permissions, owner, token_id, allowed_addr);
    match idx {
        Some(i) => Some(state.permissions[i].permission),
        None => None,
    }
}

/// Saves a first permission for the triple and appends the (token_id,
/// spender) pair to the owner's enumeration index.
pub fn new_permission(
    state: &mut ContractState,
    owner: &String,
    token_id: &String,
    allowed_addr: &String,
    permission: &Permission,
)
    requires
        old(state).wf(),
        old(state).spec_permission(owner@, token_id@, allowed_addr@) is None,
    ensures
        final(state).wf(),
        final(state).spec_permission(owner@, token_id@, allowed_addr@) == Some(*permission),
        forall|o: Seq<char>, t: Seq<char>, a: Seq<char>|
            !(o == owner@ && t == token_id@ && a == allowed_addr@) ==> final(state).spec_permission(
                o,
                t,
                a,
            ) == old(state).spec_permission(o, t, a),
        ({
            let ks_old = perm_keys_for(old(state).permission_keys@, owner@);
            let ks_new = perm_keys_for(final(state).permission_keys@, owner@);
            &&& ks_new.len() == ks_old.len() + 1
            &&& forall|i: int| 0 <= i < ks_old.len() ==> ks_new[i] == ks_old[i]
            &&& ks_new.last().token_id@ == token_id@
            &&& ks_new.last().allowed_addr@ == allowed_addr@
        }),
        forall|o: Seq<char>|
            o != owner@ ==> perm_keys_for(final(state).permission_keys@, o) == perm_keys_for(
                old(state).permission_keys@,
                o,
            ),
        final(state).config == old(state).config,
        final(state).tokens == old(state).tokens,
        final(state).balances == old(state).balances,
        final(state).owner_history == old(state).owner_history,
        final(state).txs == old(state).txs,
        final(state).addr_tx_ids == old(state).addr_tx_ids,
        final(state).receiver_hashes == old(state).receiver_hashes,
        final(state).block == old(state).block,
{
    let entry = PermEntry {
        owner: owner.clone(),
        token_id: token_id.clone(),
        allowed_addr: allowed_addr.clone(),
        permission: *permission,
    };
    proof {
        lemma_perms_push_unique(old(state).permissions@, entry);
        assert(old(state).permissions@.push(entry).drop_last() =~= old(state).permissions@);
    }
    state.permissions.push(entry);
    let pkey = OwnerPermKey {
        owner: owner.clone(),
        key: PermissionKey { token_id: token_id.clone(), allowed_addr: allowed_addr.clone() },
    };
    proof {
        assert(old(state).permission_keys@.push(pkey).drop_last() =~= old(
            state,
        ).permission_keys@);
    }
    state.permission_keys.push(pkey);
}

/// Overwrites the permission stored for the triple; fails with `NotFound`,
/// changing nothing, where no entry exists yet.
pub fn update_permission(
    state: &mut ContractState,
    owner: &String,
    token_id: &String,
    allowed_addr: &String,
    permission: &Permission,
) -> (r: Result<(), Error>)
    requires
        old(state).wf(),
    ensures
        final(state).wf(),
        match r {
            Ok(_) => {
                &&& old(state).spec_permission(owner@, token_id@, allowed_addr@) is Some
                &&& final(state).spec_permission(owner@, token_id@, allowed_addr@) == Some(
                    *permission,
                )
                &&& forall|o: Seq<char>, t: Seq<char>, a: Seq<char>|
                    !(o == owner@ && t == token_id@ && a == allowed_addr@) ==> final(
                        state
                    ).spec_permission(o, t, a) == old(state).spec_permission(o, t, a)
                &&& final(state).permission_keys == old(state).permission_keys
            },
            Err(e) => {
                &&& e == Error::NotFound
                &&& old(state).spec_permission(owner@, token_id@, allowed_addr@) is None
                &&& *final(state) == *old(state)
            },
        },
        final(state).config == old(state).config,
        final(state).tokens == old(state).tokens,
        final(state).balances == old(state).balances,
        final(state).owner_history == old(state).owner_history,
        final(state).txs == old(state).txs,
        final(state).addr_tx_ids == old(state).addr_tx_ids,
        final(state).receiver_hashes == old(state).receiver_hashes,
        final(state).block == old(state).block,
        final(state).permission_keys == old(state).permission_keys,
{
    let idx = perm_index(&state.permissions, owner, token_id, allowed_addr);
    match idx {
        Some(i) => {
            proof {
                lemma_find_perm_update(
                    state.permissions@,
                    i as int,
                    PermEntry { permission: *permission, ..state.permissions@[i as int] },
                );
            }
            let e = &mut state.permissions[i];
            e.permission = *permission;
            Ok(())
        },
        None => Err(Error::NotFound),
    }
}

} // verus!
