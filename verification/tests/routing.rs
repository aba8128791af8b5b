use device_inventory::{cors_method_allowed, lex_le, origin_allowed, route, HttpMethod, Route};

#[test]
fn get_on_the_collection_lists() {
    let r = route(HttpMethod::Get, &b"/api/devices".to_vec());
    assert!(matches!(r, Route::ListDevices));
}

#[test]
fn post_on_the_collection_creates() {
    let r = route(HttpMethod::Post, &b"/api/devices".to_vec());
    assert!(matches!(r, Route::CreateDevice));
}

#[test]
fn delete_on_an_id_extracts_the_segment() {
    let r = route(HttpMethod::Delete, &b"/api/devices/abc-123".to_vec());
    match r {
        Route::DeleteDevice(id) => assert_eq!(id, b"abc-123".to_vec()),
        other => panic!("wrong route: {:?}", other),
    }
}

#[test]
fn methods_are_exact() {
    assert!(matches!(
        route(HttpMethod::Delete, &b"/api/devices".to_vec()),
        Route::NotFound
    ));
    assert!(matches!(
        route(HttpMethod::Get, &b"/api/devices/abc".to_vec()),
        Route::NotFound
    ));
    assert!(matches!(
        route(HttpMethod::Other, &b"/api/devices".to_vec()),
        Route::NotFound
    ));
}

#[test]
fn malformed_paths_miss() {
    assert!(matches!(
        route(HttpMethod::Delete, &b"/api/devices/".to_vec()),
        Route::NotFound
    ));
    assert!(matches!(
        route(HttpMethod::Delete, &b"/api/devices/a/b".to_vec()),
        Route::NotFound
    ));
    assert!(matches!(
        route(HttpMethod::Get, &b"/api/device".to_vec()),
        Route::NotFound
    ));
    assert!(matches!(
        route(HttpMethod::Get, &b"/api/devicesx".to_vec()),
        Route::NotFound
    ));
}

#[test]
fn every_origin_is_allowed() {
    assert!(origin_allowed(&b"http://localhost:5173".to_vec()));
    assert!(origin_allowed(&b"https://example.test".to_vec()));
    assert!(origin_allowed(&b"".to_vec()));
}

#[test]
fn cors_allows_exactly_the_three_route_methods() {
    assert!(cors_method_allowed(HttpMethod::Get));
    assert!(cors_method_allowed(HttpMethod::Post));
    assert!(cors_method_allowed(HttpMethod::Delete));
    assert!(!cors_method_allowed(HttpMethod::Other));
}

#[test]
fn byte_strings_compare_lexicographically() {
    assert!(lex_le(&b"2023-06-15".to_vec(), &b"2024-01-01".to_vec()));
    assert!(lex_le(&b"2024-01-01".to_vec(), &b"2024-05-20".to_vec()));
    assert!(!lex_le(&b"2024-05-20".to_vec(), &b"2024-01-01".to_vec()));
    assert!(lex_le(&b"abc".to_vec(), &b"abc".to_vec()));
    assert!(lex_le(&b"ab".to_vec(), &b"abc".to_vec()));
    assert!(!lex_le(&b"abc".to_vec(), &b"ab".to_vec()));
    assert!(lex_le(&b"".to_vec(), &b"a".to_vec()));
}
