use vstd::prelude::*;

use crate::types::{CategoriesJson, Error, MenuObject, PlatilloObject, StoreObject, StoreRecord};

verus! {

/// The whole catalog: the store registry, the per-store menus, the category
/// taxonomy, and the counter that mints dish identifiers. One value of this
/// type is the unit of persistence; every public operation is one atomic
/// transition on it, which either commits whole or fails and changes nothing.
pub struct Contract {
    /// The store registry, keyed by the identity of the creating caller.
    pub stores: Vec<StoreRecord>,
    /// One menu per store, found by a scan over the owning identity.
    pub menus: Vec<MenuObject>,
    /// The flat taxonomy, in creation order; ids equal position plus one.
    pub categories: Vec<CategoriesJson>,
    /// The global dish-id counter, shared by every store's menu.
    pub platillo_id: i128,
}

impl Contract {
    /// There is a store registered under `key`.
    pub open spec fn has_store(self, key: Seq<char>) -> bool {
        exists|i: int| 0 <= i < self.stores@.len() && self.stores@[i].key@ == key
    }

    /// The position of the store registered under `key` (unique when
    /// [`Self::wf`] holds).
    pub open spec fn store_index(self, key: Seq<char>) -> int {
        choose|i: int| 0 <= i < self.stores@.len() && self.stores@[i].key@ == key
    }

    /// The store record registered under `key`.
    pub open spec fn store_for(self, key: Seq<char>) -> StoreObject {
        self.stores@[self.store_index(key)].store
    }

    /// There is a menu owned by the identity `key`.
    pub open spec fn has_menu(self, key: Seq<char>) -> bool {
        exists|i: int| 0 <= i < self.menus@.len() && self.menus@[i].id_tienda@ == key
    }

    /// The position of the menu owned by `key` (unique when [`Self::wf`]
    /// holds).
    pub open spec fn menu_index(self, key: Seq<char>) -> int {
        choose|i: int| 0 <= i < self.menus@.len() && self.menus@[i].id_tienda@ == key
    }

    /// The dishes on the menu owned by `key`, in the order they were added.
    pub open spec fn menu_items(self, key: Seq<char>) -> Seq<PlatilloObject> {
        self.menus@[self.menu_index(key)].platillos@
    }

    /// There is a category with identifier `id`.
    pub open spec fn has_category(self, id: i128) -> bool {
        exists|i: int| 0 <= i < self.categories@.len() && self.categories@[i].id == id
    }

    /// The position of the category with identifier `id` (unique when
    /// [`Self::wf`] holds).
    pub open spec fn category_index(self, id: i128) -> int {
        choose|i: int| 0 <= i < self.categories@.len() && self.categories@[i].id == id
    }

    /// Store keys are pairwise distinct: one store per identity.
    pub open spec fn stores_unique(self) -> bool {
        forall|i: int, j: int|
            0 <= i < j < self.stores@.len() ==> self.stores@[i].key@ != self.stores@[j].key@
    }

    /// Menu owners are pairwise distinct: one menu per store.
    pub open spec fn menus_unique(self) -> bool {
        forall|i: int, j: int|
            0 <= i < j < self.menus@.len()
                ==> self.menus@[i].id_tienda@ != self.menus@[j].id_tienda@
    }

    /// Stores and menus are co-created: exactly the identities that have a
    /// store have a menu.
    pub open spec fn paired(self) -> bool {
        &&& forall|i: int|
            0 <= i < self.stores@.len() ==> self.has_menu(#[trigger] self.stores@[i].key@)
        &&& forall|i: int|
            0 <= i < self.menus@.len() ==> self.has_store(#[trigger] self.menus@[i].id_tienda@)
    }

    /// Every dish id on `items` was minted by the global counter while it was
    /// at most `counter`: ids are positive, bounded by the counter, and
    /// strictly increasing along the menu.
    pub open spec fn menu_items_wf(items: Seq<PlatilloObject>, counter: i128) -> bool {
        &&& forall|a: int, b: int| 0 <= a < b < items.len() ==> items[a].id < items[b].id
        &&& forall|a: int| 0 <= a < items.len() ==> 0 < (#[trigger] items[a].id) <= counter
    }

    /// Every menu's dish ids are well formed with respect to the counter.
    pub open spec fn menus_wf(self) -> bool {
        forall|i: int|
            0 <= i < self.menus@.len()
                ==> Self::menu_items_wf(#[trigger] self.menus@[i].platillos@, self.platillo_id)
    }

    /// Dish ids are globally unique: no two dishes anywhere in the catalog —
    /// same menu or different menus — carry the same id, since all ids come
    /// from the one shared counter.
    pub open spec fn item_ids_unique(self) -> bool {
        forall|i: int, j: int, a: int, b: int|
            #![trigger self.menus@[i].platillos@[a].id, self.menus@[j].platillos@[b].id]
            (0 <= i < self.menus@.len() && 0 <= j < self.menus@.len() && 0 <= a
                < self.menus@[i].platillos@.len() && 0 <= b < self.menus@[j].platillos@.len() && (i
                != j || a != b)) ==> self.menus@[i].platillos@[a].id
                != self.menus@[j].platillos@[b].id
    }

    /// Category ids record the creation policy: the id of each entry equals
    /// its position plus one.
    pub open spec fn categories_wf(self) -> bool {
        forall|i: int|
            0 <= i < self.categories@.len() ==> (#[trigger] self.categories@[i].id) == i + 1
    }

    /// Well-formedness of the aggregate. Established by [`Default::default`]
    /// and preserved by every operation.
    pub open spec fn wf(self) -> bool {
        &&& self.stores_unique()
        &&& self.menus_unique()
        &&& self.paired()
        &&& self.menus_wf()
        &&& self.item_ids_unique()
        &&& self.categories_wf()
        &&& 0 <= self.platillo_id
    }
}

impl Contract {
    /// Pairing only looks at store keys and menu owners: it carries over to
    /// any state whose stores and menus have the same keys at the same
    /// positions.
    proof fn lemma_paired_same_keys(pre: Contract, post: Contract)
        requires
            pre.paired(),
            post.stores@.len() == pre.stores@.len(),
            forall|i: int|
                0 <= i < pre.stores@.len() ==> (#[trigger] post.stores@[i]).key@
                    == pre.stores@[i].key@,
            post.menus@.len() == pre.menus@.len(),
            forall|i: int|
                0 <= i < pre.menus@.len() ==> (#[trigger] post.menus@[i]).id_tienda@
                    == pre.menus@[i].id_tienda@,
        ensures
            post.paired(),
    {
        assert forall|i: int|
            0 <= i < post.stores@.len() implies post.has_menu(post.stores@[i].key@) by {
            assert(pre.has_menu(pre.stores@[i].key@));
            let w = choose|w: int|
                0 <= w < pre.menus@.len() && pre.menus@[w].id_tienda@ == pre.stores@[i].key@;
            assert(post.menus@[w].id_tienda@ == post.stores@[i].key@);
        }
        assert forall|i: int|
            0 <= i < post.menus@.len() implies post.has_store(post.menus@[i].id_tienda@) by {
            assert(pre.has_store(pre.menus@[i].id_tienda@));
            let w = choose|w: int|
                0 <= w < pre.stores@.len() && pre.stores@[w].key@ == pre.menus@[i].id_tienda@;
            assert(post.stores@[w].key@ == post.menus@[i].id_tienda@);
        }
    }

    /// Global dish-id uniqueness only looks at the menus: it carries over to
    /// any state with the same menu sequence.
    proof fn lemma_item_ids_unique_same_menus(pre: Contract, post: Contract)
        requires
            pre.item_ids_unique(),
            post.menus@ == pre.menus@,
        ensures
            post.item_ids_unique(),
    {
        assert forall|i: int, j: int, a: int, b: int|
            #![trigger post.menus@[i].platillos@[a].id, post.menus@[j].platillos@[b].id]
            (0 <= i < post.menus@.len() && 0 <= j < post.menus@.len() && 0 <= a
                < post.menus@[i].platillos@.len() && 0 <= b < post.menus@[j].platillos@.len() && (i
                != j || a != b)) implies post.menus@[i].platillos@[a].id
            != post.menus@[j].platillos@[b].id by {
            assert(pre.menus@[i].platillos@[a].id != pre.menus@[j].platillos@[b].id);
        }
    }
}

impl Default for Contract {
    /// The empty catalog: no stores, no menus, no categories, counter at
    /// zero.
    fn default() -> (c: Self)
        ensures
            c.wf(),
            c.stores@ == Seq::<StoreRecord>::empty(),
            c.menus@ == Seq::<MenuObject>::empty(),
            c.categories@ == Seq::<CategoriesJson>::empty(),
            c.platillo_id == 0,
    {
        Contract { stores: Vec::new(), menus: Vec::new(), categories: Vec::new(), platillo_id: 0 }
    }
}

impl Contract {
    /// First position of the store registered under `key`, if any.
    fn store_position(&self, key: &String) -> (r: Option<usize>)
        ensures
            match r {
                Some(i) => {
                    &&& i < self.stores@.len()
                    &&& self.stores@[i as int].key@ == key@
                    &&& forall|j: int| 0 <= j < i ==> self.stores@[j].key@ != key@
                },
                None => !self.has_store(key@),
            },
    {
        let mut i: usize = 0;
        while i < self.stores.len()
            invariant
                i <= self.stores@.len(),
                forall|j: int| 0 <= j < i ==> self.stores@[j].key@ != key@,
            decreases self.stores@.len() - i,
        {
            if self.stores[i].key == *key {
                return Some(i);
            }
            i = i + 1;
        }
        None
    }

    /// What a successful or failed store creation does: with the caller's
    /// identity already taken, the call fails with `AlreadyExists` and the
    /// state is untouched; otherwise the new record is appended under the
    /// caller's identity together with an empty menu for it, everything else
    /// is unchanged, and the created record is returned.
    pub open spec fn set_store_post(
        pre: Contract,
        caller: Seq<char>,
        data: StoreObject,
        post: Contract,
        result: Result<StoreObject, Error>,
    ) -> bool {
        if pre.has_store(caller) {
            &&& result == Err::<StoreObject, Error>(Error::AlreadyExists)
            &&& post == pre
        } else {
            &&& result == Ok::<StoreObject, Error>(data)
            &&& post.stores@.len() == pre.stores@.len() + 1
            &&& post.stores@.subrange(0, pre.stores@.len() as int) == pre.stores@
            &&& post.stores@.last().key@ == caller
            &&& post.stores@.last().store == data
            &&& post.menus@.len() == pre.menus@.len() + 1
            &&& post.menus@.subrange(0, pre.menus@.len() as int) == pre.menus@
            &&& post.menus@.last().id_tienda@ == caller
            &&& post.menus@.last().platillos@ == Seq::<PlatilloObject>::empty()
            &&& post.categories == pre.categories
            &&& post.platillo_id == pre.platillo_id
        }
    }

    /// Register a store for `caller` and, atomically with it, an empty menu.
    ///
    /// Fails with `AlreadyExists` if `caller` already has a store; the state
    /// is then unchanged. The record is keyed by `caller`; `owner_id` is
    /// stored as a field and does not choose the key.
    pub fn set_store(
        &mut self,
        caller: String,
        owner_id: String,
        name: String,
        address: String,
        location: String,
        schedule: String,
        phone: String,
        wallet: String,
        logo: String,
    ) -> (result: Result<StoreObject, Error>)
        requires
            old(self).wf(),
        ensures
            final(self).wf(),
            Self::set_store_post(
                *old(self),
                caller@,
                (StoreObject { owner_id, name, address, location, schedule, phone, wallet, logo }),
                *final(self),
                result,
            ),
    {
        if self.store_position(&caller).is_some() {
            return Err(Error::AlreadyExists);
        }
        let data = StoreObject {
            owner_id: owner_id.clone(),
            name: name.clone(),
            address: address.clone(),
            location: location.clone(),
            schedule: schedule.clone(),
            phone: phone.clone(),
            wallet: wallet.clone(),
            logo: logo.clone(),
        };
        let record = StoreRecord { key: caller.clone(), store: data };
        proof {
            assert forall|i: int|
                0 <= i < self.menus@.len() implies self.menus@[i].id_tienda@ != caller@ by {
                assert(self.has_store(self.menus@[i].id_tienda@));
            }
        }
        self.stores.push(record);
        self.menus.push(MenuObject { id_tienda: caller, platillos: Vec::new() });
        proof {
            let pre = *old(self);
            let post = *self;
            let n = pre.stores@.len() as int;
            let m = pre.menus@.len() as int;
            assert(post.stores@.subrange(0, n) =~= pre.stores@);
            assert(post.menus@.subrange(0, m) =~= pre.menus@);
            assert forall|i: int|
                0 <= i < post.stores@.len() implies post.has_menu(post.stores@[i].key@) by {
                if i < n {
                    assert(pre.has_menu(pre.stores@[i].key@));
                    let w = choose|w: int|
                        0 <= w < pre.menus@.len() && pre.menus@[w].id_tienda@
                            == pre.stores@[i].key@;
                    assert(post.menus@[w].id_tienda@ == post.stores@[i].key@);
                } else {
                    assert(post.menus@[m].id_tienda@ == post.stores@[i].key@);
                }
            }
            assert forall|i: int|
                0 <= i < post.menus@.len() implies post.has_store(post.menus@[i].id_tienda@) by {
                if i < m {
                    assert(pre.has_store(pre.menus@[i].id_tienda@));
                    let w = choose|w: int|
                        0 <= w < pre.stores@.len() && pre.stores@[w].key@
                            == pre.menus@[i].id_tienda@;
                    assert(post.stores@[w].key@ == post.menus@[i].id_tienda@);
                } else {
                    assert(post.stores@[n].key@ == post.menus@[i].id_tienda@);
                }
            }
            assert forall|i: int, j: int, a: int, b: int|
                #![trigger post.menus@[i].platillos@[a].id, post.menus@[j].platillos@[b].id]
                (0 <= i < post.menus@.len() && 0 <= j < post.menus@.len() && 0 <= a
                    < post.menus@[i].platillos@.len() && 0 <= b < post.menus@[j].platillos@.len()
                    && (i != j || a != b)) implies post.menus@[i].platillos@[a].id
                != post.menus@[j].platillos@[b].id by {
                assert(post.menus@[m].platillos@.len() == 0);
                assert(i < m && j < m);
                assert(post.menus@[i] == pre.menus@[i]);
                assert(post.menus@[j] == pre.menus@[j]);
                assert(pre.menus@[i].platillos@[a].id != pre.menus@[j].platillos@[b].id);
            }
        }
        Ok(StoreObject { owner_id, name, address, location, schedule, phone, wallet, logo })
    }

    /// What a store update does: with no store under the caller's identity it
    /// fails with `NotFound` and the state is untouched; otherwise the stored
    /// record is replaced by `data` in full — every field, whether or not it
    /// changed — under its old key, everything else is unchanged, and the new
    /// record is returned.
    pub open spec fn put_store_post(
        pre: Contract,
        caller: Seq<char>,
        data: StoreObject,
        post: Contract,
        result: Result<StoreObject, Error>,
    ) -> bool {
        if pre.has_store(caller) {
            &&& result == Ok::<StoreObject, Error>(data)
            &&& post.stores@ == pre.stores@.update(
                pre.store_index(caller),
                (StoreRecord { key: pre.stores@[pre.store_index(caller)].key, store: data }),
            )
            &&& post.menus == pre.menus
            &&& post.categories == pre.categories
            &&& post.platillo_id == pre.platillo_id
        } else {
            &&& result == Err::<StoreObject, Error>(Error::NotFound)
            &&& post == pre
        }
    }

    /// Replace the store registered under `caller` with the given fields.
    ///
    /// A full replacement: every field of the stored record is overwritten,
    /// whether or not it changed. The record mutated is the one keyed by
    /// `caller`; the `owner_id` parameter is stored as a field only. Fails
    /// with `NotFound`, leaving the state unchanged, if `caller` has no
    /// store.
    pub fn put_store(
        &mut self,
        caller: String,
        owner_id: String,
        name: String,
        address: String,
        location: String,
        schedule: String,
        phone: String,
        wallet: String,
        logo: String,
    ) -> (result: Result<StoreObject, Error>)
        requires
            old(self).wf(),
        ensures
            final(self).wf(),
            Self::put_store_post(
                *old(self),
                caller@,
                (StoreObject { owner_id, name, address, location, schedule, phone, wallet, logo }),
                *final(self),
                result,
            ),
    {
        let k: usize = match self.store_position(&caller) {
            Some(k) => k,
            None => {
                return Err(Error::NotFound);
            },
        };
        let data = StoreObject {
            owner_id: owner_id.clone(),
            name: name.clone(),
            address: address.clone(),
            location: location.clone(),
            schedule: schedule.clone(),
            phone: phone.clone(),
            wallet: wallet.clone(),
            logo: logo.clone(),
        };
        proof {
            let pre = *old(self);
            assert(pre.has_store(caller@));
            let c = pre.store_index(caller@);
            assert(pre.stores@[c].key@ == caller@);
            assert(c == k as int);
        }
        let slot = &mut self.stores[k];
        slot.store = data;
        proof {
            let pre = *old(self);
            let post = *self;
            assert(post.stores@ =~= pre.stores@.update(
                pre.store_index(caller@),
                (StoreRecord {
                    key: pre.stores@[pre.store_index(caller@)].key,
                    store: (StoreObject {
                        owner_id,
                        name,
                        address,
                        location,
                        schedule,
                        phone,
                        wallet,
                        logo,
                    }),
                }),
            ));
            assert(forall|i: int|
                0 <= i < post.stores@.len() ==> (#[trigger] post.stores@[i].key@)
                    == pre.stores@[i].key@);
            assert forall|i: int|
                0 <= i < post.stores@.len() implies post.has_menu(post.stores@[i].key@) by {
                assert(pre.has_menu(pre.stores@[i].key@));
                let w = choose|w: int|
                    0 <= w < pre.menus@.len() && pre.menus@[w].id_tienda@ == pre.stores@[i].key@;
                assert(post.menus@[w].id_tienda@ == post.stores@[i].key@);
            }
            assert forall|i: int|
                0 <= i < post.menus@.len() implies post.has_store(post.menus@[i].id_tienda@) by {
                assert(pre.has_store(pre.menus@[i].id_tienda@));
                let w = choose|w: int|
                    0 <= w < pre.stores@.len() && pre.stores@[w].key@ == pre.menus@[i].id_tienda@;
                assert(post.stores@[w].key@ == post.menus@[i].id_tienda@);
            }
            Self::lemma_item_ids_unique_same_menus(pre, post);
        }
        Ok(StoreObject { owner_id, name, address, location, schedule, phone, wallet, logo })
    }

    /// Look up the store registered under `user_id`.
    ///
    /// Returns a copy of the stored record; fails with `NotFound`, and
    /// constructs nothing, if `user_id` has no store.
    pub fn get_store(&self, user_id: String) -> (result: Result<StoreObject, Error>)
        requires
            self.wf(),
        ensures
            self.has_store(user_id@) ==> result == Ok::<StoreObject, Error>(
                self.store_for(user_id@),
            ),
            !self.has_store(user_id@) ==> result == Err::<StoreObject, Error>(Error::NotFound),
    {
        match self.store_position(&user_id) {
            Some(k) => {
                proof {
                    let c = self.store_index(user_id@);
                    assert(self.stores@[c].key@ == user_id@);
                    assert(c == k as int);
                }
                Ok(self.stores[k].store.clone())
            },
            None => Err(Error::NotFound),
        }
    }

    /// Every registered store, in registry order, without their keys.
    pub fn get_all_stores(&self) -> (result: Vec<StoreObject>)
        ensures
            result@ == self.stores@.map_values(|r: StoreRecord| r.store),
    {
        let mut out: Vec<StoreObject> = Vec::new();
        let mut i: usize = 0;
        while i < self.stores.len()
            invariant
                i <= self.stores@.len(),
                out@.len() == i,
                forall|j: int| 0 <= j < i ==> out@[j] == self.stores@[j].store,
            decreases self.stores@.len() - i,
        {
            out.push(self.stores[i].store.clone());
            i = i + 1;
        }
        proof {
            assert(out@ =~= self.stores@.map_values(|r: StoreRecord| r.store));
        }
        out
    }

    /// First position of the menu owned by `key`, if any.
    fn menu_position(&self, key: &String) -> (r: Option<usize>)
        ensures
            match r {
                Some(i) => {
                    &&& i < self.menus@.len()
                    &&& self.menus@[i as int].id_tienda@ == key@
                    &&& forall|j: int| 0 <= j < i ==> self.menus@[j].id_tienda@ != key@
                },
                None => !self.has_menu(key@),
            },
    {
        let mut i: usize = 0;
        while i < self.menus.len()
            invariant
                i <= self.menus@.len(),
                forall|j: int| 0 <= j < i ==> self.menus@[j].id_tienda@ != key@,
            decreases self.menus@.len() - i,
        {
            if self.menus[i].id_tienda == *key {
                return Some(i);
            }
            i = i + 1;
        }
        None
    }

    /// Look up the menu owned by `user_id`.
    ///
    /// Returns a copy of the menu; fails with `NotFound`, and constructs
    /// nothing, if `user_id` has no store (and so no menu).
    pub fn get_menu(&self, user_id: String) -> (result: Result<MenuObject, Error>)
        requires
            self.wf(),
        ensures
            self.has_menu(user_id@) ==> (result matches Ok(m) && m.id_tienda@ == user_id@
                && m.platillos@ == self.menu_items(user_id@)),
            !self.has_menu(user_id@) ==> result == Err::<MenuObject, Error>(Error::NotFound),
    {
        match self.menu_position(&user_id) {
            Some(k) => {
                proof {
                    let c = self.menu_index(user_id@);
                    assert(self.menus@[c].id_tienda@ == user_id@);
                    assert(c == k as int);
                }
                Ok(self.menus[k].clone())
            },
            None => Err(Error::NotFound),
        }
    }

    /// What adding a dish does: with no menu under the caller's identity it
    /// fails with `NotFound` and the state is untouched; otherwise the
    /// counter advances by one, the new dish — carrying the advanced counter
    /// as its id — is appended to the caller's own menu, every other menu and
    /// registry is unchanged, and a copy of the caller's whole updated menu
    /// is returned.
    pub open spec fn set_platillo_post(
        pre: Contract,
        caller: Seq<char>,
        name: String,
        description: String,
        category: String,
        price: u128,
        img: String,
        post: Contract,
        result: Result<MenuObject, Error>,
    ) -> bool {
        if pre.has_menu(caller) {
            let k: int = pre.menu_index(caller);
            let item = (PlatilloObject {
                id: (pre.platillo_id + 1) as i128,
                name,
                description,
                category,
                price,
                img,
            });
            &&& post.platillo_id == pre.platillo_id + 1
            &&& post.stores == pre.stores
            &&& post.categories == pre.categories
            &&& post.menus@.len() == pre.menus@.len()
            &&& forall|j: int|
                0 <= j < pre.menus@.len() && j != k ==> post.menus@[j] == pre.menus@[j]
            &&& post.menus@[k].id_tienda == pre.menus@[k].id_tienda
            &&& post.menus@[k].platillos@ == pre.menus@[k].platillos@.push(item)
            &&& result matches Ok(m) && m.id_tienda@ == caller && m.platillos@
                == post.menus@[k].platillos@
        } else {
            &&& result == Err::<MenuObject, Error>(Error::NotFound)
            &&& post == pre
        }
    }

    /// Append a dish to the menu owned by `caller`.
    ///
    /// The dish id is minted by advancing the global counter shared by all
    /// stores, so ids are unique across the whole catalog and strictly
    /// increasing within every menu. Fails with `NotFound`, leaving the
    /// state unchanged, if `caller` has no store.
    pub fn set_platillo(
        &mut self,
        caller: String,
        name: String,
        description: String,
        category: String,
        price: u128,
        img: String,
    ) -> (result: Result<MenuObject, Error>)
        requires
            old(self).wf(),
            old(self).platillo_id < i128::MAX,
        ensures
            final(self).wf(),
            Self::set_platillo_post(
                *old(self),
                caller@,
                name,
                description,
                category,
                price,
                img,
                *final(self),
                result,
            ),
    {
        let k: usize = match self.menu_position(&caller) {
            Some(k) => k,
            None => {
                return Err(Error::NotFound);
            },
        };
        proof {
            let pre = *old(self);
            assert(pre.has_menu(caller@));
            let c = pre.menu_index(caller@);
            assert(pre.menus@[c].id_tienda@ == caller@);
            assert(c == k as int);
        }
        self.platillo_id = self.platillo_id + 1;
        let item = PlatilloObject { id: self.platillo_id, name, description, category, price, img };
        let slot = &mut self.menus[k];
        slot.platillos.push(item);
        let updated = self.menus[k].clone();
        proof {
            let pre = *old(self);
            let post = *self;
            let kk = pre.menu_index(caller@);
            assert forall|i: int|
                0 <= i < post.menus@.len() implies Self::menu_items_wf(
                post.menus@[i].platillos@,
                post.platillo_id,
            ) by {
                assert(Self::menu_items_wf(pre.menus@[i].platillos@, pre.platillo_id));
                if i == kk {
                    let olditems = pre.menus@[kk].platillos@;
                    let items = post.menus@[kk].platillos@;
                    assert forall|a: int, b: int|
                        0 <= a < b < items.len() implies items[a].id < items[b].id by {
                        assert(items[a] == olditems[a]);
                        assert(0 < olditems[a].id <= pre.platillo_id);
                        if b < items.len() - 1 {
                            assert(items[b] == olditems[b]);
                        }
                    }
                    assert forall|a: int|
                        0 <= a < items.len() implies 0 < (#[trigger] items[a]).id
                        <= post.platillo_id by {
                        if a < items.len() - 1 {
                            assert(items[a] == olditems[a]);
                            assert(0 < olditems[a].id <= pre.platillo_id);
                        }
                    }
                }
            }
            assert forall|i: int|
                0 <= i < post.stores@.len() implies post.has_menu(post.stores@[i].key@) by {
                assert(pre.has_menu(pre.stores@[i].key@));
                let w = choose|w: int|
                    0 <= w < pre.menus@.len() && pre.menus@[w].id_tienda@ == pre.stores@[i].key@;
                assert(post.menus@[w].id_tienda@ == post.stores@[i].key@);
            }
            assert forall|i: int|
                0 <= i < post.menus@.len() implies post.has_store(post.menus@[i].id_tienda@) by {
                assert(post.menus@[i].id_tienda@ == pre.menus@[i].id_tienda@);
                assert(pre.has_store(pre.menus@[i].id_tienda@));
            }
            assert forall|i: int, j: int|
                0 <= i < j < post.menus@.len() implies post.menus@[i].id_tienda@
                != post.menus@[j].id_tienda@ by {
                assert(post.menus@[i].id_tienda@ == pre.menus@[i].id_tienda@);
                assert(post.menus@[j].id_tienda@ == pre.menus@[j].id_tienda@);
            }
            let oldn = pre.menus@[kk].platillos@.len() as int;
            assert forall|x: int, c: int|
                (0 <= x < post.menus@.len() && 0 <= c < post.menus@[x].platillos@.len() && !(x
                    == kk && c == oldn)) implies post.menus@[x].platillos@[c] == pre.menus@[x]
                .platillos@[c] by {
                if x != kk {
                    assert(post.menus@[x] == pre.menus@[x]);
                }
            }
            assert forall|x: int, c: int|
                (0 <= x < pre.menus@.len() && 0 <= c < pre.menus@[x].platillos@.len()) implies 0
                < (#[trigger] pre.menus@[x].platillos@[c].id) <= pre.platillo_id by {
                assert(Self::menu_items_wf(pre.menus@[x].platillos@, pre.platillo_id));
            }
            assert forall|i: int, j: int, a: int, b: int|
                #![trigger post.menus@[i].platillos@[a].id, post.menus@[j].platillos@[b].id]
                (0 <= i < post.menus@.len() && 0 <= j < post.menus@.len() && 0 <= a
                    < post.menus@[i].platillos@.len() && 0 <= b < post.menus@[j].platillos@.len()
                    && (i != j || a != b)) implies post.menus@[i].platillos@[a].id
                != post.menus@[j].platillos@[b].id by {
                assert(post.menus@[kk].platillos@[oldn].id == pre.platillo_id + 1);
                if i == kk && a == oldn {
                    assert(post.menus@[j].platillos@[b] == pre.menus@[j].platillos@[b]);
                    assert(post.menus@[j].platillos@[b].id <= pre.platillo_id);
                } else if j == kk && b == oldn {
                    assert(post.menus@[i].platillos@[a] == pre.menus@[i].platillos@[a]);
                    assert(post.menus@[i].platillos@[a].id <= pre.platillo_id);
                } else {
                    assert(post.menus@[i].platillos@[a] == pre.menus@[i].platillos@[a]);
                    assert(post.menus@[j].platillos@[b] == pre.menus@[j].platillos@[b]);
                    assert(pre.menus@[i].platillos@[a].id != pre.menus@[j].platillos@[b].id);
                }
            }
        }
        Ok(updated)
    }

    /// Create a category named `name`; its id is the list's length before the
    /// call, plus one. Returns the created entry.
    pub fn set_category(&mut self, name: String) -> (result: CategoriesJson)
        requires
            old(self).wf(),
        ensures
            final(self).wf(),
            result.id == old(self).categories@.len() + 1,
            result.name == name,
            final(self).categories@ == old(self).categories@.push(result),
            final(self).stores == old(self).stores,
            final(self).menus == old(self).menus,
            final(self).platillo_id == old(self).platillo_id,
    {
        let id: i128 = (self.categories.len() as i128) + 1;
        let data = CategoriesJson { id, name };
        self.categories.push(data.clone());
        proof {
            assert(self.categories@ =~= old(self).categories@.push(data));
            let pre = *old(self);
            let post = *self;
            assert forall|i: int|
                0 <= i < post.categories@.len() implies (#[trigger] post.categories@[i].id) == i
                + 1 by {
                if i < pre.categories@.len() {
                    assert(post.categories@[i] == pre.categories@[i]);
                } else {
                    assert(post.categories@[i] == data);
                }
            }
            Self::lemma_paired_same_keys(pre, post);
            Self::lemma_item_ids_unique_same_menus(pre, post);
        }
        data
    }

    /// What renaming a category does: with no entry carrying `id` it fails
    /// with `NotFound` and the state is untouched; otherwise that entry's
    /// name is replaced — its id stays — everything else is unchanged, and
    /// the updated entry is returned.
    pub open spec fn put_category_post(
        pre: Contract,
        id: i128,
        name: String,
        post: Contract,
        result: Result<CategoriesJson, Error>,
    ) -> bool {
        if pre.has_category(id) {
            &&& result == Ok::<CategoriesJson, Error>((CategoriesJson { id, name }))
            &&& post.categories@ == pre.categories@.update(
                pre.category_index(id),
                (CategoriesJson { id, name }),
            )
            &&& post.stores == pre.stores
            &&& post.menus == pre.menus
            &&& post.platillo_id == pre.platillo_id
        } else {
            &&& result == Err::<CategoriesJson, Error>(Error::NotFound)
            &&& post == pre
        }
    }

    /// Rename the category whose id is `category_id`. Fails with `NotFound`,
    /// leaving the state unchanged, if no entry carries that id.
    pub fn put_category(&mut self, category_id: i128, name: String) -> (result: Result<
        CategoriesJson,
        Error,
    >)
        requires
            old(self).wf(),
        ensures
            final(self).wf(),
            Self::put_category_post(*old(self), category_id, name, *final(self), result),
    {
        let mut i: usize = 0;
        let n: usize = self.categories.len();
        while i < n
            invariant
                n == self.categories@.len(),
                i <= n,
                forall|j: int| 0 <= j < i ==> self.categories@[j].id != category_id,
                old(self) == self,
                old(self).wf(),
            decreases n - i,
        {
            if self.categories[i].id == category_id {
                proof {
                    let pre = *old(self);
                    assert(pre.has_category(category_id));
                    let c = pre.category_index(category_id);
                    assert(pre.categories@[c].id == category_id);
                    assert(pre.categories@[c].id == c + 1);
                    assert(pre.categories@[i as int].id == i + 1);
                    assert(c == i as int);
                }
                let slot = &mut self.categories[i];
                slot.name = name.clone();
                proof {
                    let pre = *old(self);
                    let post = *self;
                    assert(post.categories@ =~= pre.categories@.update(
                        pre.category_index(category_id),
                        (CategoriesJson { id: category_id, name }),
                    ));
                    let c = pre.category_index(category_id);
                    assert forall|j: int|
                        0 <= j < post.categories@.len() implies (#[trigger] post.categories@[j].id)
                        == j + 1 by {
                        if j != c {
                            assert(post.categories@[j] == pre.categories@[j]);
                        }
                    }
                    Self::lemma_paired_same_keys(pre, post);
                    Self::lemma_item_ids_unique_same_menus(pre, post);
                }
                return Ok(CategoriesJson { id: category_id, name });
            }
            i = i + 1;
        }
        Err(Error::NotFound)
    }

    /// The entries of `cats` whose id is `id`, in order: zero or one entry
    /// under the creation policy, but stated for any list.
    pub open spec fn categories_with_id(cats: Seq<CategoriesJson>, id: i128) -> Seq<
        CategoriesJson,
    > {
        cats.filter(|c: CategoriesJson| c.id == id)
    }

    /// Read the taxonomy: all entries when `category_id` is `None`, else the
    /// entries carrying that id (zero or one under the creation policy).
    /// Read-only; returns copies.
    pub fn get_category(&self, category_id: Option<i128>) -> (result: Vec<CategoriesJson>)
        ensures
            match category_id {
                Option::None => result@ == self.categories@,
                Option::Some(id) => result@ == Self::categories_with_id(self.categories@, id),
            },
    {
        let mut out: Vec<CategoriesJson> = Vec::new();
        match category_id {
            Option::None => {
                let mut i: usize = 0;
                while i < self.categories.len()
                    invariant
                        i <= self.categories@.len(),
                        out@ == self.categories@.subrange(0, i as int),
                    decreases self.categories@.len() - i,
                {
                    out.push(self.categories[i].clone());
                    proof {
                        assert(out@ =~= self.categories@.subrange(0, i + 1 as int));
                    }
                    i = i + 1;
                }
                proof {
                    assert(self.categories@.subrange(0, self.categories@.len() as int)
                        =~= self.categories@);
                }
                out
            },
            Option::Some(id) => {
                let mut i: usize = 0;
                while i < self.categories.len()
                    invariant
                        i <= self.categories@.len(),
                        out@ == Self::categories_with_id(
                            self.categories@.subrange(0, i as int),
                            id,
                        ),
                    decreases self.categories@.len() - i,
                {
                    if self.categories[i].id == id {
                        out.push(self.categories[i].clone());
                    }
                    proof {
                        reveal_with_fuel(Seq::<_>::filter, 2);
                        let cats = self.categories@;
                        let s1 = cats.subrange(0, i + 1 as int);
                        assert(s1.drop_last() =~= cats.subrange(0, i as int));
                        assert(s1.last() == cats[i as int]);
                        assert(out@ =~= Self::categories_with_id(s1, id));
                    }
                    i = i + 1;
                }
                proof {
                    assert(self.categories@.subrange(0, self.categories@.len() as int)
                        =~= self.categories@);
                }
                out
            },
        }
    }
}

} // verus!
