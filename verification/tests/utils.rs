use reskit_apierrors::caller::{caller, caller_skip, fn_name};
use reskit_apierrors::version::VERSION;

#[test]
fn macros_test() {
    let here = "reskit_utils::macros::tests::macros_test::f";
    assert_eq!(caller(here), "reskit_utils::macros::tests::macros_test");
    assert_eq!(caller_skip(here, 4), "reskit_utils::macros::tests::macros_test");
    assert_eq!(fn_name(here), "macros_test");
    let inner = "reskit_utils::macros::tests::macros_test::inner::f";
    assert_eq!(caller(inner), "reskit_utils::macros::tests::macros_test::inner");
    assert_eq!(caller_skip(inner, 1), "reskit_utils::macros::tests::macros_test");
    assert_eq!(caller_skip(here, 5), "reskit_utils::macros::tests::macros_test");
}

#[test]
fn version_test_version() {
    assert_eq!(VERSION, "0.1.0");
}

#[test]
fn lib_test_version() {
    assert_eq!(reskit_apierrors::version::VERSION, "0.1.0");
}

#[test]
fn test_map() {
    let mut payload = serde_json::Map::new();
    payload.insert(
        "features".to_string(),
        serde_json::Value::Array(vec![
            serde_json::Value::from("serde"),
            serde_json::Value::from("json"),
        ]),
    );
    let mut map = serde_json::Map::new();
    map.insert("code".to_string(), serde_json::Value::from(200));
    map.insert("success".to_string(), serde_json::Value::from(true));
    map.insert("caller".to_string(), serde_json::Value::from(caller("json::test_map::f")));
    map.insert("payload".to_string(), serde_json::Value::Object(payload));
    let v = serde_json::Value::Object(map);
    assert_eq!(v["caller"].as_str(), Some("json::test_map"));
}

#[test]
fn caller_skip_takes_segments_from_the_end() {
    let item = "a::bb::ccc::f";
    assert_eq!(caller_skip(item, 0), "a::bb::ccc");
    assert_eq!(caller_skip(item, 1), "a::bb");
    assert_eq!(caller_skip(item, 2), "a");
    assert_eq!(caller_skip(item, 3), "a::bb::ccc");
    assert_eq!(fn_name(item), "ccc");
    assert_eq!(fn_name("main::f"), "main");
    assert_eq!(caller("::f"), "");
    assert_eq!(fn_name("::f"), "");
    assert_eq!(caller_skip("x::f", 1), "x");
}
