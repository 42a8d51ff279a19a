use catalog::{Contract, Error};

fn s(v: &str) -> String {
    v.to_string()
}

fn create_store(c: &mut Contract, caller: &str, name: &str) -> Result<catalog::StoreObject, Error> {
    c.set_store(
        s(caller),
        s(caller),
        s(name),
        s("some address"),
        s("some location"),
        s("9-17"),
        s("555-0100"),
        s("wallet.near"),
        s("logo.png"),
    )
}

#[test]
fn create_store_returns_the_record() {
    let mut c = Contract::default();
    let r = create_store(&mut c, "alice", "Alice's Cafe").unwrap();
    assert_eq!(r.owner_id, "alice");
    assert_eq!(r.name, "Alice's Cafe");
    assert_eq!(r.address, "some address");
    assert_eq!(r.location, "some location");
    assert_eq!(r.schedule, "9-17");
    assert_eq!(r.phone, "555-0100");
    assert_eq!(r.wallet, "wallet.near");
    assert_eq!(r.logo, "logo.png");
}

#[test]
fn create_store_twice_fails_and_keeps_the_first() {
    let mut c = Contract::default();
    create_store(&mut c, "alice", "Alice's Cafe").unwrap();
    let second = c.set_store(
        s("alice"),
        s("alice"),
        s("Other Name"),
        s("other address"),
        s("other location"),
        s("0-24"),
        s("555-9999"),
        s("other.near"),
        s("other.png"),
    );
    assert_eq!(second.unwrap_err(), Error::AlreadyExists);
    let kept = c.get_store(s("alice")).unwrap();
    assert_eq!(kept.name, "Alice's Cafe");
    assert_eq!(kept.address, "some address");
    assert_eq!(kept.phone, "555-0100");
}

#[test]
fn item_ids_are_consecutive_across_callers() {
    let mut c = Contract::default();
    create_store(&mut c, "alice", "Alice's Cafe").unwrap();
    create_store(&mut c, "bob", "Bob's Bar").unwrap();
    let m1 = c
        .set_platillo(s("alice"), s("Coffee"), s("hot"), s("Drinks"), 500, s("a.png"))
        .unwrap();
    let m2 = c
        .set_platillo(s("bob"), s("Beer"), s("cold"), s("Drinks"), 700, s("b.png"))
        .unwrap();
    let m3 = c
        .set_platillo(s("alice"), s("Tea"), s("hot"), s("Drinks"), 300, s("t.png"))
        .unwrap();
    assert_eq!(m1.platillos.last().unwrap().id, 1);
    assert_eq!(m2.platillos.last().unwrap().id, 2);
    assert_eq!(m3.platillos.last().unwrap().id, 3);
    let alice_menu = c.get_menu(s("alice")).unwrap();
    let ids: Vec<i128> = alice_menu.platillos.iter().map(|p| p.id).collect();
    assert_eq!(ids, vec![1, 3]);
    let bob_menu = c.get_menu(s("bob")).unwrap();
    let ids: Vec<i128> = bob_menu.platillos.iter().map(|p| p.id).collect();
    assert_eq!(ids, vec![2]);
}

#[test]
fn category_id_is_length_plus_one_and_lookup_finds_it() {
    let mut c = Contract::default();
    let first = c.set_category(s("Drinks"));
    assert_eq!(first.id, 1);
    let second = c.set_category(s("Food"));
    assert_eq!(second.id, 2);
    let found = c.get_category(Some(2));
    assert_eq!(found.len(), 1);
    assert_eq!(found[0].id, 2);
    assert_eq!(found[0].name, "Food");
}

#[test]
fn update_store_replaces_every_field() {
    let mut c = Contract::default();
    create_store(&mut c, "alice", "Alice's Cafe").unwrap();
    let r = c
        .put_store(
            s("alice"),
            s("new owner"),
            s("New Name"),
            s("new address"),
            s("new location"),
            s("10-22"),
            s("555-0200"),
            s("new.near"),
            s("new.png"),
        )
        .unwrap();
    assert_eq!(r.name, "New Name");
    let stored = c.get_store(s("alice")).unwrap();
    assert_eq!(stored.owner_id, "new owner");
    assert_eq!(stored.name, "New Name");
    assert_eq!(stored.address, "new address");
    assert_eq!(stored.location, "new location");
    assert_eq!(stored.schedule, "10-22");
    assert_eq!(stored.phone, "555-0200");
    assert_eq!(stored.wallet, "new.near");
    assert_eq!(stored.logo, "new.png");
}

#[test]
fn update_store_without_store_fails_not_found() {
    let mut c = Contract::default();
    let r = c.put_store(s("ghost"), s("o"), s("n"), s("a"), s("l"), s("s"), s("p"), s("w"), s("g"));
    assert_eq!(r.unwrap_err(), Error::NotFound);
}

#[test]
fn absent_identity_has_neither_store_nor_menu() {
    let mut c = Contract::default();
    create_store(&mut c, "alice", "Alice's Cafe").unwrap();
    assert_eq!(c.get_store(s("nobody")).unwrap_err(), Error::NotFound);
    assert_eq!(c.get_menu(s("nobody")).unwrap_err(), Error::NotFound);
}

#[test]
fn add_item_without_store_fails_not_found() {
    let mut c = Contract::default();
    let r = c.set_platillo(s("ghost"), s("Coffee"), s("hot"), s("Drinks"), 500, s("a.png"));
    assert_eq!(r.unwrap_err(), Error::NotFound);
}

#[test]
fn update_category_not_found() {
    let mut c = Contract::default();
    c.set_category(s("Drinks"));
    let r = c.put_category(5, s("Anything"));
    assert_eq!(r.unwrap_err(), Error::NotFound);
}

#[test]
fn get_category_with_absent_id_is_empty() {
    let mut c = Contract::default();
    c.set_category(s("Drinks"));
    assert!(c.get_category(Some(7)).is_empty());
}

#[test]
fn default_catalog_is_empty() {
    let c = Contract::default();
    assert!(c.get_all_stores().is_empty());
    assert!(c.get_category(None).is_empty());
}

#[test]
fn get_all_stores_lists_every_record() {
    let mut c = Contract::default();
    create_store(&mut c, "alice", "Alice's Cafe").unwrap();
    create_store(&mut c, "bob", "Bob's Bar").unwrap();
    let all = c.get_all_stores();
    assert_eq!(all.len(), 2);
    let names: Vec<String> = all.iter().map(|x| x.name.clone()).collect();
    assert!(names.contains(&"Alice's Cafe".to_string()));
    assert!(names.contains(&"Bob's Bar".to_string()));
}

#[test]
fn full_scenario() {
    let mut c = Contract::default();
    let store = create_store(&mut c, "alice", "Alice's Cafe").unwrap();
    assert_eq!(store.name, "Alice's Cafe");
    let again = create_store(&mut c, "alice", "Alice's Cafe");
    assert_eq!(again.unwrap_err(), Error::AlreadyExists);
    let menu = c
        .set_platillo(s("alice"), s("Coffee"), s("fresh"), s("Drinks"), 500, s("c.png"))
        .unwrap();
    assert_eq!(menu.platillos.len(), 1);
    assert_eq!(menu.platillos[0].id, 1);
    assert_eq!(menu.platillos[0].name, "Coffee");
    assert_eq!(menu.platillos[0].price, 500);
    let cat = c.set_category(s("Drinks"));
    assert_eq!(cat.id, 1);
    assert_eq!(cat.name, "Drinks");
    let renamed = c.put_category(1, s("Beverages")).unwrap();
    assert_eq!(renamed.id, 1);
    assert_eq!(renamed.name, "Beverages");
    let listed = c.get_category(None);
    assert_eq!(listed.len(), 1);
    assert_eq!(listed[0].id, 1);
    assert_eq!(listed[0].name, "Beverages");
}

#[test]
fn menu_is_created_with_the_store_and_starts_empty() {
    let mut c = Contract::default();
    create_store(&mut c, "alice", "Alice's Cafe").unwrap();
    let menu = c.get_menu(s("alice")).unwrap();
    assert_eq!(menu.id_tienda, "alice");
    assert!(menu.platillos.is_empty());
}
