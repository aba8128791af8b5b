use device_inventory::{
    add_device, add_device_with_id, bytes_eq, delete_device, delete_ok_body, device_json,
    devices_json, get_devices, new_device_response, sort_by_date, CreateError, DbError, Device,
    DeviceStore, NewDevice,
};

fn device(id: &str, name: &str, price: &str, date: &str, icon: &str) -> Device {
    Device {
        id: id.as_bytes().to_vec(),
        name: name.as_bytes().to_vec(),
        price: price.as_bytes().to_vec(),
        purchase_date: date.as_bytes().to_vec(),
        icon_type: icon.as_bytes().to_vec(),
    }
}

fn payload(name: &str, price: &str, date: &str, icon: &str) -> NewDevice {
    NewDevice {
        name: name.as_bytes().to_vec(),
        price: price.as_bytes().to_vec(),
        purchase_date: date.as_bytes().to_vec(),
        icon_type: icon.as_bytes().to_vec(),
    }
}

#[test]
fn list_is_ordered_by_date_descending() {
    let mut store = DeviceStore::new();
    store.insert(device("a", "one", "1", "2024-01-01", "x"));
    store.insert(device("b", "two", "2", "2023-06-15", "x"));
    store.insert(device("c", "three", "3", "2024-05-20", "x"));
    let rows = store.list_all();
    let dates: Vec<&[u8]> = rows.iter().map(|d| d.purchase_date.as_slice()).collect();
    assert_eq!(
        dates,
        vec![
            b"2024-05-20".as_slice(),
            b"2024-01-01".as_slice(),
            b"2023-06-15".as_slice()
        ]
    );
}

#[test]
fn sort_by_date_orders_descending() {
    let rows = vec![
        device("a", "one", "1", "2024-01-01", "x"),
        device("b", "two", "2", "2023-06-15", "x"),
        device("c", "three", "3", "2024-05-20", "x"),
    ];
    let sorted = sort_by_date(rows);
    assert_eq!(sorted[0].purchase_date, b"2024-05-20".to_vec());
    assert_eq!(sorted[1].purchase_date, b"2024-01-01".to_vec());
    assert_eq!(sorted[2].purchase_date, b"2023-06-15".to_vec());
}

#[test]
fn list_twice_returns_the_same_rows() {
    let mut store = DeviceStore::new();
    store.insert(device("a", "one", "1.5", "2024-01-01", "x"));
    store.insert(device("b", "two", "2", "2023-06-15", "y"));
    let first = devices_json(&store.list_all());
    let second = devices_json(&store.list_all());
    assert_eq!(first, second);
}

#[test]
fn create_then_list_contains_the_new_device_once() {
    let mut store = DeviceStore::new();
    store.insert(device("a", "old", "1", "2020-01-01", "x"));
    let created = add_device(&mut store, payload("Laptop", "1200.5", "2024-03-01", "laptop"))
        .ok()
        .expect("a fresh random id should not collide");
    let rows = store.list_all();
    assert_eq!(rows.len(), 2);
    let matching: Vec<&Device> = rows.iter().filter(|d| d.id == created.0.id).collect();
    assert_eq!(matching.len(), 1);
    assert_eq!(matching[0].name, b"Laptop".to_vec());
    assert_eq!(matching[0].price, b"1200.5".to_vec());
    assert_eq!(matching[0].purchase_date, b"2024-03-01".to_vec());
    assert_eq!(matching[0].icon_type, b"laptop".to_vec());
}

#[test]
fn delete_then_list_drops_the_id_and_stays_ok() {
    let mut store = DeviceStore::new();
    store.insert(device("a", "one", "1", "2024-01-01", "x"));
    store.insert(device("b", "two", "2", "2023-06-15", "y"));
    let body = delete_device(&mut store, &b"a".to_vec());
    assert_eq!(body, b"{\"status\":\"ok\"}".to_vec());
    let rows = store.list_all();
    assert_eq!(rows.len(), 1);
    assert!(rows.iter().all(|d| d.id != b"a".to_vec()));
    // deleting the same id again still answers the fixed success body
    let again = delete_device(&mut store, &b"a".to_vec());
    assert_eq!(again, b"{\"status\":\"ok\"}".to_vec());
    assert_eq!(store.list_all().len(), 1);
}

#[test]
fn deleting_an_absent_id_changes_nothing() {
    let mut store = DeviceStore::new();
    store.insert(device("a", "one", "1", "2024-01-01", "x"));
    let body = delete_device(&mut store, &b"missing".to_vec());
    assert_eq!(body, b"{\"status\":\"ok\"}".to_vec());
    assert_eq!(store.list_all().len(), 1);
}

#[test]
fn identical_payloads_create_distinct_rows() {
    let mut store = DeviceStore::new();
    let p = payload("Laptop", "1200.5", "2024-03-01", "laptop");
    let q = payload("Laptop", "1200.5", "2024-03-01", "laptop");
    let first = add_device(&mut store, p).ok().expect("first create");
    let second = add_device(&mut store, q).ok().expect("second create");
    assert_ne!(first.0.id, second.0.id);
    assert_eq!(store.list_all().len(), 2);
}

#[test]
fn a_taken_id_refuses_the_create_and_leaves_the_store() {
    let mut store = DeviceStore::new();
    let first = add_device_with_id(
        &mut store,
        b"fixed-id".to_vec(),
        payload("one", "1", "2024-01-01", "x"),
    );
    assert!(first.is_ok());
    let second = add_device_with_id(
        &mut store,
        b"fixed-id".to_vec(),
        payload("two", "2", "2024-02-02", "y"),
    );
    match second {
        Err(CreateError::IdTaken(id)) => assert_eq!(id, b"fixed-id".to_vec()),
        Ok(_) => panic!("a duplicate id must be refused"),
    }
    let rows = store.list_all();
    assert_eq!(rows.len(), 1);
    assert_eq!(rows[0].name, b"one".to_vec());
}

#[test]
fn byte_strings_compare_for_equality_by_content() {
    assert!(bytes_eq(&b"abc".to_vec(), &b"abc".to_vec()));
    assert!(!bytes_eq(&b"abc".to_vec(), &b"abd".to_vec()));
    assert!(!bytes_eq(&b"abc".to_vec(), &b"ab".to_vec()));
    assert!(bytes_eq(&b"".to_vec(), &b"".to_vec()));
}

#[test]
fn generated_ids_look_like_v4_uuids() {
    let (d, _) = new_device_response(payload("n", "1", "2024-01-01", "x"));
    assert_eq!(d.id.len(), 36);
    for (i, b) in d.id.iter().enumerate() {
        if i == 8 || i == 13 || i == 18 || i == 23 {
            assert_eq!(*b, b'-');
        } else {
            assert!(b.is_ascii_digit() || (b'a'..=b'f').contains(b));
        }
    }
    // the parser of the generating crate accepts the id back
    let text = String::from_utf8(d.id.clone()).unwrap();
    let parsed = uuid::Uuid::parse_str(&text).unwrap();
    assert_eq!(parsed.get_version_num(), 4);
}

#[test]
fn list_response_degrades_to_empty_array_on_fetch_error() {
    let body = get_devices(Err(DbError));
    assert_eq!(body, b"[]".to_vec());
}

#[test]
fn list_response_serializes_fetched_rows_in_date_order() {
    let rows = vec![
        device("a", "one", "1", "2024-01-01", "x"),
        device("b", "two", "2.25", "2024-05-20", "y"),
    ];
    let body = get_devices(Ok(rows));
    let expected = "[{\"id\":\"b\",\"name\":\"two\",\"price\":2.25,\"purchaseDate\":\"2024-05-20\",\"iconType\":\"y\"},{\"id\":\"a\",\"name\":\"one\",\"price\":1,\"purchaseDate\":\"2024-01-01\",\"iconType\":\"x\"}]";
    assert_eq!(body, expected.as_bytes().to_vec());
}

#[test]
fn delete_ok_body_is_the_fixed_acknowledgment() {
    assert_eq!(delete_ok_body(), b"{\"status\":\"ok\"}".to_vec());
}

#[test]
fn device_json_uses_the_external_camel_case_keys() {
    let d = device("id-1", "Laptop", "1200.5", "2024-03-01", "laptop");
    let body = device_json(&d);
    let expected = "{\"id\":\"id-1\",\"name\":\"Laptop\",\"price\":1200.5,\"purchaseDate\":\"2024-03-01\",\"iconType\":\"laptop\"}";
    assert_eq!(body, expected.as_bytes().to_vec());
}

#[test]
fn create_response_keys_are_exactly_the_external_names() {
    let (_, body) = new_device_response(payload("Laptop", "1200.5", "2024-03-01", "laptop"));
    let value: serde_json::Value = serde_json::from_slice(&body).unwrap();
    let object = value.as_object().unwrap();
    let mut keys: Vec<&str> = object.keys().map(|k| k.as_str()).collect();
    keys.sort();
    assert_eq!(keys, vec!["iconType", "id", "name", "price", "purchaseDate"]);
    // the keys stand in the body in the fixed external order
    let text = String::from_utf8(body.clone()).unwrap();
    let positions: Vec<usize> = ["\"id\":", "\"name\":", "\"price\":", "\"purchaseDate\":", "\"iconType\":"]
        .iter()
        .map(|k| text.find(k).unwrap())
        .collect();
    assert!(positions.windows(2).all(|w| w[0] < w[1]));
    assert_eq!(object.get("name").unwrap().as_str().unwrap(), "Laptop");
    assert_eq!(object.get("price").unwrap().as_f64().unwrap(), 1200.5);
    assert_eq!(
        object.get("purchaseDate").unwrap().as_str().unwrap(),
        "2024-03-01"
    );
    assert_eq!(object.get("iconType").unwrap().as_str().unwrap(), "laptop");
}

#[test]
fn string_fields_are_escaped_and_survive_a_real_parser() {
    let d = device(
        "id-2",
        "a \"quoted\" \\ name\nwith control",
        "0.5",
        "2024-01-01",
        "x",
    );
    let body = device_json(&d);
    let value: serde_json::Value = serde_json::from_slice(&body).unwrap();
    assert_eq!(
        value.as_object().unwrap().get("name").unwrap().as_str().unwrap(),
        "a \"quoted\" \\ name\nwith control"
    );
}
