use vstd::prelude::*;

use crate::state::Contract;
use crate::types::{CategoriesJson, Error, MenuObject, StoreObject};

verus! {

/// Creating a store twice for one identity: once a first creation has
/// succeeded, a second attempt by the same caller fails with `AlreadyExists`
/// and leaves the state — in particular every field of the first store —
/// unchanged.
pub proof fn lemma_store_create_twice(
    s0: Contract,
    s1: Contract,
    s2: Contract,
    caller: Seq<char>,
    d1: StoreObject,
    d2: StoreObject,
    r1: Result<StoreObject, Error>,
    r2: Result<StoreObject, Error>,
)
    requires
        s0.wf(),
        s1.wf(),
        !s0.has_store(caller),
        Contract::set_store_post(s0, caller, d1, s1, r1),
        Contract::set_store_post(s1, caller, d2, s2, r2),
    ensures
        r1 == Ok::<StoreObject, Error>(d1),
        r2 == Err::<StoreObject, Error>(Error::AlreadyExists),
        s2 == s1,
        s1.has_store(caller),
        s1.store_for(caller) == d1,
        s2.store_for(caller) == d1,
{
    let n = s0.stores@.len() as int;
    assert(s1.stores@[n].key@ == caller);
    assert(s1.has_store(caller));
    let c = s1.store_index(caller);
    assert(0 <= c < s1.stores@.len() && s1.stores@[c].key@ == caller);
    if c < n {
        assert(s0.stores@[c] == s1.stores@.subrange(0, n)[c]);
        assert(s0.stores@[c].key@ == caller);
        assert(false);
    }
    assert(c == n);
}

/// Dish identifiers come from one counter shared by every store: two
/// successive successful additions — by the same caller or by different
/// ones — are numbered consecutively, so the assigned ids are strictly
/// increasing integers with no gaps and no repeats.
pub proof fn lemma_item_ids_consecutive(
    s0: Contract,
    s1: Contract,
    s2: Contract,
    c1: Seq<char>,
    c2: Seq<char>,
    n1: String,
    d1: String,
    g1: String,
    p1: u128,
    i1: String,
    n2: String,
    d2: String,
    g2: String,
    p2: u128,
    i2: String,
    r1: Result<MenuObject, Error>,
    r2: Result<MenuObject, Error>,
)
    requires
        s0.has_menu(c1),
        s1.has_menu(c2),
        s0.platillo_id < i128::MAX,
        s1.platillo_id < i128::MAX,
        Contract::set_platillo_post(s0, c1, n1, d1, g1, p1, i1, s1, r1),
        Contract::set_platillo_post(s1, c2, n2, d2, g2, p2, i2, s2, r2),
    ensures
        s1.platillo_id == s0.platillo_id + 1,
        s2.platillo_id == s0.platillo_id + 2,
        r1 matches Ok(m1) && m1.platillos@.last().id == s0.platillo_id + 1,
        r2 matches Ok(m2) && m2.platillos@.last().id == s0.platillo_id + 2,
{
    let k1 = s0.menu_index(c1);
    assert(s1.menus@[k1].platillos@ == s0.menus@[k1].platillos@.push(
        s1.menus@[k1].platillos@.last(),
    ));
    let k2 = s1.menu_index(c2);
    assert(s2.menus@[k2].platillos@ == s1.menus@[k2].platillos@.push(
        s2.menus@[k2].platillos@.last(),
    ));
}

/// In any well-formed catalog, dish ids are globally unique: two distinct
/// positions — in the same menu or in the menus of different stores — never
/// carry the same id, because every id was minted by the one shared counter.
pub proof fn lemma_item_ids_globally_unique(s: Contract, i: int, j: int, a: int, b: int)
    requires
        s.wf(),
        0 <= i < s.menus@.len(),
        0 <= j < s.menus@.len(),
        0 <= a < s.menus@[i].platillos@.len(),
        0 <= b < s.menus@[j].platillos@.len(),
        i != j || a != b,
    ensures
        s.menus@[i].platillos@[a].id != s.menus@[j].platillos@[b].id,
{
}

/// Helper for the taxonomy: in a list whose entry ids equal position plus
/// one, filtering by an id keeps exactly the entry at that position — or
/// nothing, when no position carries the id.
proof fn lemma_filter_by_unique_id(cats: Seq<CategoriesJson>, id: i128)
    requires
        forall|i: int| 0 <= i < cats.len() ==> (#[trigger] cats[i].id) == i + 1,
    ensures
        1 <= id <= cats.len() ==> Contract::categories_with_id(cats, id) == seq![cats[id - 1]],
        !(1 <= id <= cats.len()) ==> Contract::categories_with_id(cats, id) == Seq::<
            CategoriesJson,
        >::empty(),
    decreases cats.len(),
{
    reveal_with_fuel(Seq::<_>::filter, 2);
    if cats.len() == 0 {
        assert(Contract::categories_with_id(cats, id) =~= Seq::<CategoriesJson>::empty());
    } else {
        lemma_filter_by_unique_id(cats.drop_last(), id);
        if 1 <= id <= cats.len() {
            assert(Contract::categories_with_id(cats, id) =~= seq![cats[id - 1]]);
        } else {
            assert(Contract::categories_with_id(cats, id) =~= Seq::<CategoriesJson>::empty());
        }
    }
}

/// A category is assigned the pre-creation list length plus one as its id,
/// and filtering the taxonomy by that id straight afterwards yields exactly
/// the one created entry.
pub proof fn lemma_category_create_then_lookup(s0: Contract, s1: Contract, cat: CategoriesJson)
    requires
        s0.wf(),
        s1.wf(),
        cat.id == s0.categories@.len() + 1,
        s1.categories@ == s0.categories@.push(cat),
    ensures
        Contract::categories_with_id(s1.categories@, cat.id) == seq![cat],
{
    lemma_filter_by_unique_id(s1.categories@, cat.id);
    assert(s1.categories@[cat.id - 1] == cat);
}

/// A store update is a full replacement: after a successful update the
/// stored record equals the new data in every field, whether or not a field
/// "changed" — nothing of the old values survives.
pub proof fn lemma_update_replaces_all_fields(
    s0: Contract,
    s1: Contract,
    caller: Seq<char>,
    d: StoreObject,
    r: Result<StoreObject, Error>,
)
    requires
        s0.wf(),
        s1.wf(),
        s0.has_store(caller),
        Contract::put_store_post(s0, caller, d, s1, r),
    ensures
        r == Ok::<StoreObject, Error>(d),
        s1.has_store(caller),
        s1.store_for(caller) == d,
{
    let c0 = s0.store_index(caller);
    assert(0 <= c0 < s0.stores@.len() && s0.stores@[c0].key@ == caller);
    assert(s1.stores@[c0].key@ == caller);
    assert(s1.has_store(caller));
    let c1 = s1.store_index(caller);
    assert(0 <= c1 < s1.stores@.len() && s1.stores@[c1].key@ == caller);
    assert(c1 == c0);
}

/// Stores and menus are co-created, so an identity without a store has no
/// menu either: on such an identity `get_store` and `get_menu` both fail
/// with `NotFound` (their contracts turn this fact into that error), and
/// neither builds any partial result.
pub proof fn lemma_absent_identity_has_neither(s: Contract, key: Seq<char>)
    requires
        s.wf(),
        !s.has_store(key),
    ensures
        !s.has_menu(key),
{
    if s.has_menu(key) {
        let w = choose|w: int| 0 <= w < s.menus@.len() && s.menus@[w].id_tienda@ == key;
        assert(s.has_store(s.menus@[w].id_tienda@));
        assert(false);
    }
}

} // verus!
