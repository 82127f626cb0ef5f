use reskit_apierrors::{APIErrorMeta, APIErrorMetas, Builtin, ErrorMeta, PVLost};

#[test]
fn test_meta() {
    assert_eq!(Builtin::Successful.message(), "Successful.");
    assert_eq!(Builtin::Unknown.message(), "Unknown error.");
}

#[test]
fn test_lifetime() {
    fn enum_as_static(meta: &'static dyn APIErrorMeta) -> &'static dyn APIErrorMeta {
        meta
    }
    let meta = enum_as_static(&Builtin::Unknown);
    assert_eq!(meta.code(), "1");
    assert_eq!(meta.system(), "");
}

#[test]
fn builtin_metas_in_declaration_order() {
    let metas = Builtin::api_error_metas();
    assert_eq!(metas.len(), 3);
    assert_eq!(metas[0], ErrorMeta::of(&Builtin::Successful));
    assert_eq!(metas[1], ErrorMeta::of(&Builtin::Unknown));
    assert_eq!(metas[2], ErrorMeta::of(&Builtin::Internal));
    assert_eq!(metas[0].to_string(), "200::0:Successful.:0");
    assert_eq!(Builtin::Unknown.to_string(), "500::1:Unknown error.:2");
    assert_eq!(Builtin::Internal.to_string(), "500::2:Internal server error.:2");
    assert_eq!(Builtin::Successful.status_code(), 200);
    assert_eq!(Builtin::Successful.pvlost(), PVLost::Successful);
    assert_eq!(Builtin::Internal.pvlost(), PVLost::LocalError);
    assert_eq!(Builtin::Internal.code(), "2");
}
