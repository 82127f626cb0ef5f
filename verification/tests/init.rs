use reskit_apierrors::{get_api_error_meta, init_once, APIErrorMeta, ErrorMeta, Errorspaces};

#[test]
fn init_test_init() {
    let mut spaces = Errorspaces::new();
    assert!(!spaces.is_seeded());
    init_once(&mut spaces);
    assert!(spaces.is_seeded());
    let err = get_api_error_meta(&spaces, "", "2").unwrap();
    assert_eq!(err.status_code(), 500);
    assert_eq!(err.code(), "2");
    assert_eq!(err.system(), "");
    assert_eq!(err.message(), "Internal server error.");
    init_once(&mut spaces);
    init_once(&mut spaces);
    assert!(spaces.is_seeded());
    assert_eq!(spaces.space("").unwrap().len(""), 3);
}

#[test]
fn init_once_does_nothing_the_second_time() {
    let mut spaces = Errorspaces::new();
    init_once(&mut spaces);
    let mut rebound = spaces.space("").unwrap().clone();
    rebound.overwrite_api_error_meta(&ErrorMeta::new("", "1", "rebound", 503));
    let mut other = Errorspaces::new();
    reskit_apierrors::register_errorspace(&mut other, "", rebound);
    init_once(&mut other);
    assert_eq!(get_api_error_meta(&other, "", "1").unwrap().message(), "rebound");
    init_once(&mut other);
    assert_eq!(get_api_error_meta(&other, "", "1").unwrap().message(), "rebound");
    assert_eq!(get_api_error_meta(&other, "", "2").unwrap().message(), "Internal server error.");
}
