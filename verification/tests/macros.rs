use reskit_apierrors::{
    adapt, adapt_errorspace, force, force_errorspace, init_once, Builtin, CausalError, Errorspaces,
};

#[test]
fn test_adapt_errorspace() {
    let mut spaces = Errorspaces::new();
    init_once(&mut spaces);
    let caller = Some("reskit_apierrors::macros::tests::test_adapt_errorspace");
    let e = adapt_errorspace(
        &spaces,
        "",
        CausalError::new(anyhow::Error::msg("xxx")),
        &Builtin::Unknown,
        &[],
        caller,
    );
    assert_eq!(
        format!("{}", e.to_string()),
        "500::1:Unknown error.:2:reskit_apierrors::macros::tests::test_adapt_errorspace"
    );
    assert_eq!(e.root_cause(), "xxx");
    let e2 = adapt_errorspace(
        &spaces,
        "",
        CausalError::new(anyhow::Error::msg("xxx")),
        &Builtin::Unknown,
        &["authcar", "rest"],
        caller,
    );
    assert_eq!(
        format!("{}", e2.to_string()),
        "500::1:Unknown error.:2:reskit_apierrors::macros::tests::test_adapt_errorspace"
    );
    assert_eq!(e2.root_cause(), "xxx");
}

#[test]
fn macros_test_adapt() {
    let mut spaces = Errorspaces::new();
    init_once(&mut spaces);
    let caller = Some("reskit_apierrors::macros::tests::test_adapt");
    let e = adapt(
        &spaces,
        CausalError::new(anyhow::Error::msg("xxx")),
        &Builtin::Unknown,
        &[],
        caller,
    );
    assert_eq!(
        format!("{}", e.to_string()),
        "500::1:Unknown error.:2:reskit_apierrors::macros::tests::test_adapt"
    );
    assert_eq!(e.root_cause(), "xxx");
    let e2 = adapt(
        &spaces,
        CausalError::new(anyhow::Error::msg("xxx")),
        &Builtin::Unknown,
        &["authcar", "rest"],
        caller,
    );
    assert_eq!(
        format!("{}", e2.to_string()),
        "500::1:Unknown error.:2:reskit_apierrors::macros::tests::test_adapt"
    );
    assert_eq!(e2.root_cause(), "xxx");
}

#[test]
fn test_force_errorspace() {
    let mut spaces = Errorspaces::new();
    init_once(&mut spaces);
    let caller = Some("reskit_apierrors::macros::tests::test_force_errorspace");
    let e = force_errorspace(
        &spaces,
        "",
        CausalError::new(anyhow::Error::msg("xxx")),
        &Builtin::Unknown,
        &[],
        caller,
    );
    assert_eq!(
        format!("{}", e.to_string()),
        "500::1:Unknown error.:2:reskit_apierrors::macros::tests::test_force_errorspace"
    );
    assert_eq!(e.root_cause(), "xxx");
    let e2 = force_errorspace(
        &spaces,
        "",
        CausalError::new(anyhow::Error::msg("xxx")),
        &Builtin::Unknown,
        &["authcar", "rest"],
        caller,
    );
    assert_eq!(
        format!("{}", e2.to_string()),
        "500::1:Unknown error.:2:reskit_apierrors::macros::tests::test_force_errorspace"
    );
    assert_eq!(e2.root_cause(), "xxx");
}

#[test]
fn macros_test_force() {
    let mut spaces = Errorspaces::new();
    init_once(&mut spaces);
    let caller = Some("reskit_apierrors::macros::tests::test_force");
    let e = force(
        &spaces,
        CausalError::new(anyhow::Error::msg("xxx")),
        &Builtin::Unknown,
        &[],
        caller,
    );
    assert_eq!(
        format!("{}", e.to_string()),
        "500::1:Unknown error.:2:reskit_apierrors::macros::tests::test_force"
    );
    assert_eq!(e.root_cause(), "xxx");
    let e2 = force(
        &spaces,
        CausalError::new(anyhow::Error::msg("xxx")),
        &Builtin::Unknown,
        &["authcar", "rest"],
        caller,
    );
    assert_eq!(
        format!("{}", e2.to_string()),
        "500::1:Unknown error.:2:reskit_apierrors::macros::tests::test_force"
    );
    assert_eq!(e2.root_cause(), "xxx");
}
