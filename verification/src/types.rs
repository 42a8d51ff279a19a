use vstd::prelude::*;

verus! {

/// Why an operation on the catalog was refused.
#[derive(Clone, Copy, PartialEq, Eq, Structural, Debug)]
pub enum Error {
    /// A record with the same key already exists (one store per identity).
    AlreadyExists,
    /// The store, menu or category addressed by the call does not exist.
    NotFound,
}

/// A vendor store record; plain data, keyed from outside by the identity of
/// the caller that created it.
#[derive(Debug)]
pub struct StoreObject {
    pub owner_id: String,
    pub name: String,
    pub address: String,
    pub location: String,
    pub schedule: String,
    pub phone: String,
    pub wallet: String,
    pub logo: String,
}

/// A reduced projection of a store, as handed to presentation layers.
#[derive(Debug)]
pub struct StoreJson {
    pub user_id: String,
    pub name: String,
    pub address: String,
    pub phone: String,
    pub wallet: String,
    pub logo: String,
}

/// One dish on a store's menu. The identifier is minted from a single counter
/// shared by every store, so it is unique across the whole catalog.
#[derive(Debug)]
pub struct PlatilloObject {
    pub id: i128,
    pub name: String,
    pub description: String,
    pub category: String,
    pub price: u128,
    pub img: String,
}

/// A store's menu: the identity of the owning store and its dishes, in the
/// order they were added.
#[derive(Debug)]
pub struct MenuObject {
    pub id_tienda: String,
    pub platillos: Vec<PlatilloObject>,
}

/// The name of a taxonomy entry, without its identifier.
#[derive(Debug)]
pub struct CategoriesObject {
    pub name: String,
}

/// A taxonomy entry: a numeric identifier and a display name.
#[derive(Debug)]
pub struct CategoriesJson {
    pub id: i128,
    pub name: String,
}

/// One entry of the store registry: the identity it is keyed by, and the
/// store record itself. The key is the identity of the caller that created
/// the store; the record's `owner_id` field is stored data and does not
/// select which entry a mutation touches.
#[derive(Debug)]
pub struct StoreRecord {
    pub key: String,
    pub store: StoreObject,
}

impl Clone for StoreObject {
    /// An exact copy: every field of the result equals the original's.
    fn clone(&self) -> (r: Self)
        ensures
            r == *self,
    {
        StoreObject {
            owner_id: self.owner_id.clone(),
            name: self.name.clone(),
            address: self.address.clone(),
            location: self.location.clone(),
            schedule: self.schedule.clone(),
            phone: self.phone.clone(),
            wallet: self.wallet.clone(),
            logo: self.logo.clone(),
        }
    }
}

impl Clone for PlatilloObject {
    /// An exact copy: every field of the result equals the original's.
    fn clone(&self) -> (r: Self)
        ensures
            r == *self,
    {
        PlatilloObject {
            id: self.id,
            name: self.name.clone(),
            description: self.description.clone(),
            category: self.category.clone(),
            price: self.price,
            img: self.img.clone(),
        }
    }
}

impl Clone for CategoriesJson {
    /// An exact copy: every field of the result equals the original's.
    fn clone(&self) -> (r: Self)
        ensures
            r == *self,
    {
        CategoriesJson { id: self.id, name: self.name.clone() }
    }
}

impl Clone for MenuObject {
    /// A copy with the same owner identity and, element for element, the same
    /// dishes. (Stated over the item sequence: the new `Vec` is a different
    /// allocation, so only its contents are related to the original's.)
    fn clone(&self) -> (r: Self)
        ensures
            r.id_tienda == self.id_tienda,
            r.platillos@ == self.platillos@,
    {
        let mut items: Vec<PlatilloObject> = Vec::new();
        let mut i: usize = 0;
        while i < self.platillos.len()
            invariant
                i <= self.platillos@.len(),
                items@ == self.platillos@.subrange(0, i as int),
            decreases self.platillos@.len() - i,
        {
            items.push(self.platillos[i].clone());
            proof {
                assert(items@ =~= self.platillos@.subrange(0, i + 1 as int));
            }
            i = i + 1;
        }
        proof {
            assert(items@ =~= self.platillos@);
        }
        MenuObject { id_tienda: self.id_tienda.clone(), platillos: items }
    }
}

} // verus!
