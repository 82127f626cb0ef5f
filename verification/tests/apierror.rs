use reskit_apierrors::{APIError, APIErrorMeta, CausalError, ErrorMeta, PVLost};

#[test]
fn test_api_error_class() {
    let mut dummy_err = ErrorMeta::new("test", "1", "dummy error", 500);
    assert_eq!(dummy_err.system(), "test");
    assert_eq!(dummy_err.code(), "1");
    assert_eq!(dummy_err.message(), "dummy error");
    assert!(matches!(dummy_err.status_code(), 500));
    assert_eq!(format!("{}", dummy_err.to_string()), "500:test:1:dummy error:2");
    assert!(matches!(dummy_err.pvlost(), PVLost::LocalError));
    dummy_err = dummy_err.with_pvlost(PVLost::RemoteError);
    assert!(matches!(dummy_err.pvlost(), PVLost::RemoteError));
    assert_eq!(format!("{}", dummy_err.to_string()), "500:test:1:dummy error:1");
    let xxx_err = ErrorMeta::new("xxx", "2", "xxx error", 500).with_pvlost(PVLost::RemoteError);
    assert!(matches!(xxx_err.pvlost(), PVLost::RemoteError));
}

#[test]
fn display_is_exact() {
    let meta = ErrorMeta::new("test", "1", "dummy error", 500);
    assert_eq!(meta.to_string(), "500:test:1:dummy error:2");
    assert_eq!(ErrorMeta::new("", "", "", 0).to_string(), "0::::2");
    assert_eq!(
        ErrorMeta::new("a:b", "c", "d:e", 65535).with_pvlost(PVLost::Successful).to_string(),
        "65535:a:b:c:d:e:0"
    );
    assert_eq!(ErrorMeta::new("s", "c", "m", 1009).to_string(), "1009:s:c:m:2");
}

#[test]
fn equality_and_identity() {
    let a = ErrorMeta::new("s", "1", "one", 500);
    let b = ErrorMeta::new("s", "1", "other", 404);
    assert!(a.same_class(&b));
    assert!(a != b);
    assert!(a == a.clone());
    assert!(a.has_key("s", "1"));
    assert!(!a.has_key("s", "2"));
    assert!(!a.has_key("t", "1"));
    assert!(!a.same_class(&ErrorMeta::new("s", "2", "one", 500)));
    assert!(a != ErrorMeta::new("s", "1", "one", 500).with_pvlost(PVLost::RemoteError));
}

#[test]
fn wrapped_error_shows_its_own_classification_only() {
    let cause = CausalError::msg("root").context("inner");
    let wrapped = APIError::new(ErrorMeta::new("s", "7", "seven", 404), cause, Some("app::f"));
    assert_eq!(wrapped.to_string(), "404:s:7:seven:2:app::f");
    let cause = CausalError::msg("root");
    let wrapped = APIError::new(ErrorMeta::new("s", "7", "seven", 404), cause, None);
    assert_eq!(wrapped.to_string(), "404:s:7:seven:2");
    let cause = wrapped.into_error();
    assert_eq!(cause.chain(), vec!["404:s:7:seven:2", "root"]);
}
