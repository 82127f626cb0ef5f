use http_types::StatusCode;
use reskit_apierrors::{
    adapt, force, init_once, APIErrorMeta, Builtin, CausalError, ErrorMeta, Errorspace,
    Errorspaces, PVLost,
};
use std::convert::TryFrom;

fn status_of(meta: &ErrorMeta) -> StatusCode {
    StatusCode::try_from(meta.status_code()).unwrap()
}

fn seeded() -> Errorspaces {
    let mut spaces = Errorspaces::new();
    init_once(&mut spaces);
    spaces
}

#[test]
fn test_clone() {
    let spaces = seeded();
    let space = spaces.space("").unwrap();
    let mut space_clone = space.clone();
    assert_eq!(space_clone.get_api_error_meta("", "1").unwrap().code(), "1");
    let class = ErrorMeta::new("dummy_clone", "1", "dummy error", 500);
    space_clone.register_api_error_meta(&class);
    assert_eq!(space.len("dummy_clone"), 0);
    assert_eq!(space_clone.len("dummy_clone"), 1);
    assert_eq!(
        space_clone.get_api_error_meta("dummy_clone", "1").unwrap().message(),
        "dummy error"
    );
    assert!(matches!(
        status_of(space_clone.get_api_error_meta("dummy_clone", "1").unwrap()),
        StatusCode::InternalServerError
    ));
    match space.get_api_error_meta("dummy_clone", "1") {
        None => {}
        Some(_class) => {
            assert!(false, "dummy:1 shoud None in default space");
        }
    }
}

fn demo() -> Result<(), CausalError> {
    Err(CausalError::new(anyhow::Error::msg("demo error")))
}

#[test]
fn errorspace_test_adapt() {
    let spaces = seeded();
    let caller = Some("reskit_apierrors::errorspace::tests::test_adapt::{{closure}}");
    let unknown_line = "500::1:Unknown error.:2:reskit_apierrors::errorspace::tests::test_adapt::{{closure}}";
    let result = demo()
        .map_err(|e| e.context("first"))
        .map_err(|e| adapt(&spaces, e, &Builtin::Unknown, &[], caller))
        .map_err(|e| adapt(&spaces, e, &Builtin::Internal, &[], caller));
    match result {
        Err(err) => {
            assert_eq!(format!("{}", err.root_cause()), "demo error");
            assert_eq!(format!("{}", err.to_string()), unknown_line);
            assert_eq!(err.chain(), vec![unknown_line, unknown_line, "first", "demo error"]);
            assert_eq!(err.carried().unwrap().code(), "1");
            let debug = format!("{:?}", err.into_inner());
            let expected = format!(
                "{}\n\nCaused by:\n    0: {}\n    1: first\n    2: demo error",
                unknown_line, unknown_line
            );
            assert!(debug.starts_with(&expected));
        }
        _ => panic!("an error was expected"),
    }

    let result = demo()
        .map_err(|e| e.context("pre"))
        .map_err(|e| adapt(&spaces, e, &Builtin::Unknown, &[], caller))
        .map_err(|e| e.context("post"));
    match result {
        Err(err) => {
            assert_eq!(format!("{}", err.root_cause()), "demo error");
            assert_eq!(format!("{}", err.to_string()), "post");
            assert_eq!(err.chain(), vec!["post", unknown_line, "pre", "demo error"]);
            assert_eq!(err.carried().unwrap().code(), "1");
            let debug = format!("{:?}", err.into_inner());
            let expected = format!(
                "post\n\nCaused by:\n    0: {}\n    1: pre\n    2: demo error",
                unknown_line
            );
            assert!(debug.starts_with(&expected));
        }
        _ => panic!("an error was expected"),
    }
}

#[test]
fn errorspace_test_force() {
    let spaces = seeded();
    let caller = Some("reskit_apierrors::errorspace::tests::test_force::{{closure}}");
    let unknown_line = "500::1:Unknown error.:2:reskit_apierrors::errorspace::tests::test_force::{{closure}}";
    let internal_line = "500::2:Internal server error.:2:reskit_apierrors::errorspace::tests::test_force::{{closure}}";
    let result = demo()
        .map_err(|e| e.context("first"))
        .map_err(|e| adapt(&spaces, e, &Builtin::Unknown, &[], caller))
        .map_err(|e| e.context("second"))
        .map_err(|e| force(&spaces, e, &Builtin::Internal, &[], caller));
    match result {
        Err(err) => {
            assert_eq!(format!("{}", err.root_cause()), "demo error");
            assert_eq!(format!("{}", err.to_string()), internal_line);
            assert_eq!(
                err.chain(),
                vec![internal_line, "second", unknown_line, "first", "demo error"]
            );
            assert_eq!(err.carried().unwrap().code(), "2");
            let debug = format!("{:?}", err.into_inner());
            let expected = format!(
                "{}\n\nCaused by:\n    0: second\n    1: {}\n    2: first\n    3: demo error",
                internal_line, unknown_line
            );
            assert!(debug.starts_with(&expected));
        }
        _ => panic!("an error was expected"),
    }
}

#[test]
fn register_stores_on_a_free_slot() {
    let mut space = Errorspace::new();
    assert!(space.get_api_error_meta("dummy", "1").is_none());
    space.register_api_error_meta(&ErrorMeta::new("dummy", "1", "dummy error", 500));
    let meta = space.get_api_error_meta("dummy", "1").unwrap();
    assert_eq!(meta, &ErrorMeta::new("dummy", "1", "dummy error", 500));
    assert_eq!(meta.system(), "dummy");
    assert_eq!(meta.code(), "1");
    assert_eq!(meta.message(), "dummy error");
    assert_eq!(meta.status_code(), 500);
    assert_eq!(meta.pvlost(), PVLost::LocalError);
}

#[test]
fn register_is_first_write_wins() {
    let mut space = Errorspace::new();
    space.register_api_error_meta(&ErrorMeta::new("dummy", "1", "dummy error", 500));
    space.register_api_error_meta(&ErrorMeta::new("dummy", "1", "rebound", 200));
    let meta = space.get_api_error_meta("dummy", "1").unwrap();
    assert_eq!(meta.message(), "dummy error");
    assert_eq!(meta.status_code(), 500);
    assert_eq!(space.len("dummy"), 1);
}

#[test]
fn overwrite_always_replaces() {
    let mut space = Errorspace::new();
    space.overwrite_api_error_meta(&ErrorMeta::new("dummy", "1", "dummy error", 500));
    assert_eq!(space.get_api_error_meta("dummy", "1").unwrap().status_code(), 500);
    space.overwrite_api_error_meta(&ErrorMeta::new("dummy", "1", "dummy error", 200));
    let meta = space.get_api_error_meta("dummy", "1").unwrap();
    assert_eq!(meta, &ErrorMeta::new("dummy", "1", "dummy error", 200));
    assert_eq!(space.len("dummy"), 1);
    space.overwrite_api_error_meta(&ErrorMeta::new("dummy", "2", "other", 404));
    assert_eq!(space.get_api_error_meta("dummy", "1").unwrap().status_code(), 200);
    assert_eq!(space.get_api_error_meta("dummy", "2").unwrap().status_code(), 404);
    assert_eq!(space.len("dummy"), 2);
}

#[test]
fn len_counts_the_codes_of_one_system() {
    let mut space = Errorspace::new();
    assert_eq!(space.len("a"), 0);
    space.register_api_error_meta(&ErrorMeta::new("a", "1", "one", 500));
    space.register_api_error_meta(&ErrorMeta::new("b", "1", "one", 500));
    space.register_api_error_meta(&ErrorMeta::new("a", "2", "two", 500));
    space.register_api_error_meta(&ErrorMeta::new("a", "1", "again", 500));
    assert_eq!(space.len("a"), 2);
    assert_eq!(space.len("b"), 1);
    assert_eq!(space.len("c"), 0);
    assert_eq!(space.len(""), 0);
}

#[test]
fn keys_are_compared_exactly() {
    let mut space = Errorspace::new();
    space.register_api_error_meta(&ErrorMeta::new("app", "1", "one", 500));
    assert!(space.get_api_error_meta("app", "1").is_some());
    assert!(space.get_api_error_meta("App", "1").is_none());
    assert!(space.get_api_error_meta("app", "01").is_none());
    assert!(space.get_api_error_meta("apps", "").is_none());
    assert!(space.get_api_error_meta("", "apps").is_none());
}

#[test]
fn clone_is_isolated_both_ways() {
    let mut registry = Errorspace::new();
    registry.register_api_error_meta(&ErrorMeta::new("a", "1", "one", 500));
    let mut copy = registry.clone();
    copy.overwrite_api_error_meta(&ErrorMeta::new("a", "1", "changed", 200));
    copy.register_api_error_meta(&ErrorMeta::new("a", "2", "two", 500));
    assert_eq!(registry.get_api_error_meta("a", "1").unwrap().message(), "one");
    assert!(registry.get_api_error_meta("a", "2").is_none());
    registry.register_api_error_meta(&ErrorMeta::new("a", "3", "three", 500));
    assert!(copy.get_api_error_meta("a", "3").is_none());
    assert_eq!(copy.get_api_error_meta("a", "1").unwrap().message(), "changed");
}

#[test]
fn adapt_without_classification_takes_the_default() {
    let spaces = seeded();
    let space = spaces.space("").unwrap();
    let cause = CausalError::msg("disk full").context("while saving");
    let wrapped = space.adapt(cause, &Builtin::Unknown, &[], None);
    assert_eq!(wrapped.meta, ErrorMeta::of(&Builtin::Unknown));
    assert_eq!(wrapped.caller, None);
    assert_eq!(wrapped.error.chain(), vec!["while saving", "disk full"]);
    assert_eq!(wrapped.to_string(), "500::1:Unknown error.:2");
    let cause = wrapped.into_error();
    assert_eq!(cause.chain(), vec!["500::1:Unknown error.:2", "while saving", "disk full"]);
    assert_eq!(cause.carried(), Some(&ErrorMeta::of(&Builtin::Unknown)));
}

#[test]
fn adapt_takes_the_classification_of_the_target_space() {
    let mut target = Errorspace::new();
    target.register_api_error_meta(&ErrorMeta::new("", "1", "Unknown, rebound.", 503));
    let cause = CausalError::msg("boom").classified(ErrorMeta::of(&Builtin::Unknown));
    let wrapped = target.adapt(cause, &Builtin::Internal, &[], Some("here"));
    assert_eq!(wrapped.meta, ErrorMeta::new("", "1", "Unknown, rebound.", 503));
    assert_eq!(wrapped.to_string(), "503::1:Unknown, rebound.:2:here");
}

#[test]
fn adapt_falls_back_when_the_space_does_not_know_the_class() {
    let target = Errorspace::new();
    let cause = CausalError::msg("boom").classified(ErrorMeta::of(&Builtin::Unknown));
    let wrapped = target.adapt(cause, &Builtin::Internal, &[], None);
    assert_eq!(wrapped.meta, ErrorMeta::of(&Builtin::Internal));
}

#[test]
fn force_ignores_what_is_carried() {
    let spaces = seeded();
    let space = spaces.space("").unwrap();
    let cause = CausalError::msg("boom").classified(ErrorMeta::of(&Builtin::Unknown));
    let wrapped = space.force(cause, &Builtin::Internal, &["authcar"], Some("here"));
    assert_eq!(wrapped.meta, ErrorMeta::of(&Builtin::Internal));
    assert_eq!(wrapped.caller.as_deref(), Some("here"));
    assert_eq!(wrapped.system(), "");
    assert_eq!(wrapped.code(), "2");
    assert_eq!(wrapped.message(), "Internal server error.");
    assert_eq!(wrapped.status_code(), 500);
    assert_eq!(wrapped.pvlost(), PVLost::LocalError);
}
