use storelib::handlers::{add_item, delete_item, get_item, get_items, refuse, update_item, Body};
use storelib::models::inmemdb::{init_db, Database};
use storelib::models::{Item, StoreError, DB};
use storelib::routes::{item_routes, json_body, parse_path, reads_body};
use storelib::routes::{Method, Request, Target, BODY_LIMIT};

fn request(method: Method, path: &str) -> Request {
    Request { method, path: path.to_string(), body_len: 0, body: None }
}

fn request_with(method: Method, path: &str, item: Item) -> Request {
    Request { method, path: path.to_string(), body_len: 64, body: Some(item) }
}

fn one(body: Body) -> Item {
    match body {
        Body::One(it) => it,
        other => panic!("one item was due, not {:?}", other),
    }
}

fn many(body: Body) -> Vec<Item> {
    match body {
        Body::Many(its) => its,
        other => panic!("a list was due, not {:?}", other),
    }
}

#[test]
fn test_get_empty() {
    let mut db = init_db(None).unwrap();

    let value = item_routes(&mut db, request(Method::Get, "/item/"));

    assert_eq!(many(value.body).len(), 0);
    assert_eq!(value.status, 200);
}

#[test]
fn test_get_nonexist() {
    let mut db = init_db(None).unwrap();

    let value = item_routes(&mut db, request(Method::Get, "/item/xxxx-xxxx-xxxx"));

    assert_eq!(value.status, 404);
    assert!(matches!(value.body, Body::Empty));
}

#[test]
fn test_get_people() {
    let mut db = init_db(Some(vec![Item::new(
        "Spastik".to_string(),
        "Plastikman".to_string(),
        "vinyl".to_string(),
        1994,
    )]))
    .unwrap();

    let res = item_routes(&mut db, request(Method::Get, "/item/"));

    assert_eq!(res.status, 200);
    let people = many(res.body);
    assert_eq!(people[0].artist, "Plastikman");
}

#[test]
fn test_add_person() {
    let mut db = init_db(None).unwrap();

    let res = item_routes(
        &mut db,
        request_with(
            Method::Post,
            "/item/",
            Item::new("Xpander".to_string(), "Sasha".to_string(), "cd".to_string(), 1995),
        ),
    );

    assert_eq!(res.status, 200);

    let item = one(res.body);

    assert_eq!(item.title, "Xpander")
}

#[test]
fn simple_get_status_ok() {
    let mut db = init_db(None).unwrap();

    let res = item_routes(&mut db, request(Method::Get, "/item"));

    assert_eq!(res.status, 200);
}

#[test]
fn create_answers_with_the_stored_item() {
    let mut db = Database::new();
    let res = item_routes(
        &mut db,
        request_with(
            Method::Post,
            "/item",
            Item::new("Spastik".to_string(), "Plastikman".to_string(), "vinyl".to_string(), 1994),
        ),
    );
    assert_eq!(res.status, 200);
    let item = one(res.body);
    let id = item.uuid.clone().unwrap();
    assert!(!id.is_empty());
    assert_eq!(item.title, "Spastik");
    assert_eq!(item.artist, "Plastikman");
    assert_eq!(item.format, "vinyl");
    assert_eq!(item.year, 1994);
    assert_eq!(db.get_item(id).unwrap().title, "Spastik");
}

#[test]
fn create_with_an_identifier_is_a_client_error() {
    let mut db = Database::new();
    let item = Item::new("a".to_string(), "b".to_string(), "c".to_string(), 1)
        .with_uuid("mine".to_string());
    let res = item_routes(&mut db, request_with(Method::Post, "/item", item));
    assert_eq!(res.status, 400);
    assert!(matches!(res.body, Body::Empty));
    assert_eq!(db.len(), 0);
}

#[test]
fn remove_then_list_is_empty() {
    let mut db = Database::new();
    let id = db
        .add_item(Item::new("a".to_string(), "b".to_string(), "c".to_string(), 1))
        .unwrap()
        .uuid
        .unwrap();
    let res = item_routes(&mut db, request(Method::Delete, &format!("/item/{}", id)));
    assert_eq!(res.status, 200);
    assert!(matches!(res.body, Body::Empty));
    let list = item_routes(&mut db, request(Method::Get, "/item"));
    assert_eq!(list.status, 200);
    assert_eq!(many(list.body).len(), 0);
    let again = item_routes(&mut db, request(Method::Delete, &format!("/item/{}", id)));
    assert_eq!(again.status, 404);
}

#[test]
fn replace_then_fetch_gives_the_new_fields_under_the_same_identifier() {
    let mut db = Database::new();
    let id = db
        .add_item(Item::new("Two Months Off".to_string(), "Underworld".to_string(), "cd".to_string(), 1993))
        .unwrap()
        .uuid
        .unwrap();
    let put = item_routes(
        &mut db,
        request_with(
            Method::Put,
            &format!("/item/{}", id),
            Item::new("Two Months Off".to_string(), "Underworld".to_string(), "cd".to_string(), 2002),
        ),
    );
    assert_eq!(put.status, 200);
    assert!(matches!(put.body, Body::Empty));
    let got = item_routes(&mut db, request(Method::Get, &format!("/item/{}", id)));
    assert_eq!(got.status, 200);
    let item = one(got.body);
    assert_eq!(item.year, 2002);
    assert_eq!(item.uuid, Some(id));
}

#[test]
fn replace_under_an_unknown_identifier_makes_the_entry() {
    let mut db = Database::new();
    let put = item_routes(
        &mut db,
        request_with(
            Method::Put,
            "/item/fresh",
            Item::new("a".to_string(), "b".to_string(), "c".to_string(), 9),
        ),
    );
    assert_eq!(put.status, 200);
    let got = item_routes(&mut db, request(Method::Get, "/item/fresh"));
    assert_eq!(got.status, 200);
    assert_eq!(one(got.body).uuid, Some("fresh".to_string()));
}

#[test]
fn a_body_over_the_limit_or_undecoded_is_malformed() {
    assert_eq!(BODY_LIMIT, 16 * 1024);
    let item = || Item::new("a".to_string(), "b".to_string(), "c".to_string(), 9);
    assert_eq!(json_body(16384, Some(item())).unwrap().year, 9);
    assert_eq!(json_body(0, Some(item())).unwrap().title, "a");
    assert_eq!(json_body(16385, Some(item())).err(), Some(StoreError::MalformedInput));
    assert_eq!(json_body(10, None).err(), Some(StoreError::MalformedInput));
    assert_eq!(json_body(u64::MAX, None).err(), Some(StoreError::MalformedInput));

    let mut db = Database::new();
    let mut big = request_with(Method::Post, "/item", item());
    big.body_len = 16385;
    let res = item_routes(&mut db, big);
    assert_eq!(res.status, 400);
    assert_eq!(db.len(), 0);
    let res = item_routes(&mut db, request(Method::Post, "/item"));
    assert_eq!(res.status, 400);
    let res = item_routes(&mut db, request(Method::Put, "/item/k"));
    assert_eq!(res.status, 400);
    assert_eq!(db.len(), 0);
}

#[test]
fn paths_are_read_exactly() {
    assert!(matches!(parse_path("/item"), Target::Collection));
    assert!(matches!(parse_path("/item/"), Target::Collection));
    match parse_path("/item/abc-123") {
        Target::Member(id) => assert_eq!(id, "abc-123"),
        other => panic!("an entry was due, not {:?}", other),
    }
    match parse_path("/item/\u{e9}t\u{e9}") {
        Target::Member(id) => assert_eq!(id, "\u{e9}t\u{e9}"),
        other => panic!("an entry was due, not {:?}", other),
    }
    assert!(matches!(parse_path(""), Target::Unknown));
    assert!(matches!(parse_path("/"), Target::Unknown));
    assert!(matches!(parse_path("/ite"), Target::Unknown));
    assert!(matches!(parse_path("item"), Target::Unknown));
    assert!(matches!(parse_path("/items"), Target::Unknown));
    assert!(matches!(parse_path("/itex/abc"), Target::Unknown));
    assert!(matches!(parse_path("/item/a/b"), Target::Unknown));
    assert!(matches!(parse_path("/item/a/"), Target::Unknown));
    assert!(matches!(parse_path("/item//"), Target::Unknown));
}

#[test]
fn unknown_paths_and_methods() {
    let mut db = Database::new();
    assert_eq!(item_routes(&mut db, request(Method::Get, "/nothing")).status, 404);
    assert_eq!(item_routes(&mut db, request(Method::Post, "/nothing")).status, 404);
    assert_eq!(item_routes(&mut db, request(Method::Put, "/item")).status, 405);
    assert_eq!(item_routes(&mut db, request(Method::Delete, "/item")).status, 405);
    assert_eq!(item_routes(&mut db, request(Method::Other, "/item")).status, 405);
    assert_eq!(item_routes(&mut db, request(Method::Post, "/item/k")).status, 405);
    assert_eq!(item_routes(&mut db, request(Method::Other, "/item/k")).status, 405);
    assert_eq!(db.len(), 0);
}

#[test]
fn handlers_answer_each_outcome() {
    let mut db = Database::new();
    let list = get_items(&db);
    assert_eq!(list.status, 200);
    assert_eq!(many(list.body).len(), 0);

    let made = add_item(&mut db, Item::new("a".to_string(), "b".to_string(), "c".to_string(), 3));
    assert_eq!(made.status, 200);
    let id = one(made.body).uuid.unwrap();

    let got = get_item(id.clone(), &db);
    assert_eq!(got.status, 200);
    assert_eq!(one(got.body).year, 3);
    let missing = get_item("nobody".to_string(), &db);
    assert_eq!(missing.status, 404);
    assert!(matches!(missing.body, Body::Empty));

    let put = update_item(
        id.clone(),
        &mut db,
        Item::new("a".to_string(), "b".to_string(), "c".to_string(), 4),
    );
    assert_eq!(put.status, 200);
    assert!(matches!(put.body, Body::Empty));
    assert_eq!(db.get_item(id.clone()).unwrap().year, 4);

    let list = get_items(&db);
    let items = many(list.body);
    assert_eq!(items.len(), 1);
    assert_eq!(items[0].uuid, Some(id.clone()));

    assert_eq!(delete_item("nobody".to_string(), &mut db).status, 404);
    let gone = delete_item(id, &mut db);
    assert_eq!(gone.status, 200);
    assert!(matches!(gone.body, Body::Empty));
    assert_eq!(db.len(), 0);

    assert_eq!(refuse(StoreError::NotFound).status, 404);
    assert_eq!(refuse(StoreError::AlreadyAssigned).status, 400);
    assert_eq!(refuse(StoreError::MalformedInput).status, 400);
}

#[test]
fn only_a_create_or_replace_within_the_limit_has_its_body_read() {
    assert!(reads_body(Method::Post, 0));
    assert!(reads_body(Method::Put, 16384));
    assert!(!reads_body(Method::Post, 16385));
    assert!(!reads_body(Method::Put, u64::MAX));
    assert!(!reads_body(Method::Get, 0));
    assert!(!reads_body(Method::Delete, 10));
    assert!(!reads_body(Method::Other, 10));
}

#[test]
fn a_create_on_an_empty_store_is_never_refused() {
    for n in 0..200u16 {
        let mut db = Database::new();
        let res = add_item(
            &mut db,
            Item::new("Spastik".to_string(), "Plastikman".to_string(), "vinyl".to_string(), n),
        );
        assert_eq!(res.status, 200);
        let item = one(res.body);
        assert_eq!(item.uuid.unwrap().len(), 36);
        assert_eq!(item.year, n);
        assert_eq!(db.len(), 1);
    }
}
