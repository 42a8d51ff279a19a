//! A catalog for a small marketplace: vendor stores, each with a menu of
//! items, and a shared flat category taxonomy.
//!
//! The whole catalog lives in one aggregate value, [`Contract`], and every
//! operation on it is a single atomic state transition: it either succeeds
//! and commits its whole change, or fails with an [`Error`] and leaves the
//! state untouched.

mod laws;
mod state;
mod types;

pub use laws::{
    lemma_absent_identity_has_neither, lemma_category_create_then_lookup,
    lemma_item_ids_consecutive, lemma_item_ids_globally_unique, lemma_store_create_twice,
    lemma_update_replaces_all_fields,
};
pub use state::Contract;
pub use types::{
    CategoriesJson, CategoriesObject, Error, MenuObject, PlatilloObject, StoreJson, StoreObject,
    StoreRecord,
};
