use reskit_apierrors::derive::ast::{Data, DeriveInput, FieldNode, Input, VariantNode};
use reskit_apierrors::derive::attr::{
    get, parse_apierrormeta_attribute, Attribute, Attrs, SchemaError, SchemaErrorKind, Span, Token,
};
use reskit_apierrors::{APIErrorMeta, ErrorMeta, Errorspace, PVLost};

fn span(line: usize) -> Span {
    Span { line, column: 4 }
}

fn ident(name: &str) -> Token {
    Token::Ident(name.to_string())
}

fn text(value: &str) -> Token {
    Token::Str(value.to_string())
}

fn field(name: &str, value: Token) -> Vec<Token> {
    vec![ident(name), Token::Eq, value]
}

fn list(fields: Vec<Vec<Token>>) -> Vec<Token> {
    let mut tokens = Vec::new();
    for (i, f) in fields.into_iter().enumerate() {
        if i > 0 {
            tokens.push(Token::Comma);
        }
        tokens.extend(f);
    }
    tokens
}

fn declaration(line: usize, system: &str, code: &str, message: &str, status: u64) -> Attribute {
    Attribute {
        path: "apierrormeta".to_string(),
        tokens: list(vec![
            field("system", text(system)),
            field("code", text(code)),
            field("message", text(message)),
            field("status_code", Token::Int(status)),
        ]),
        span: span(line),
    }
}

fn with_tokens(line: usize, tokens: Vec<Token>) -> Attribute {
    Attribute { path: "apierrormeta".to_string(), tokens, span: span(line) }
}

fn other_attribute(line: usize) -> Attribute {
    Attribute { path: "doc".to_string(), tokens: vec![Token::Eq, text("a comment")], span: span(line) }
}

fn variant(line: usize, name: &str, attrs: Vec<Attribute>) -> VariantNode {
    VariantNode { attrs, ident: name.to_string(), fields: Vec::new(), span: span(line) }
}

fn item(attrs: Vec<Attribute>, variants: Vec<VariantNode>) -> DeriveInput {
    DeriveInput { attrs, ident: "MetaTest".to_string(), data: Data::Enum(variants), span: span(1) }
}

fn error(kind: SchemaErrorKind, line: usize) -> SchemaError {
    SchemaError { kind, span: span(line) }
}

fn read(tokens: Vec<Token>) -> Result<ErrorMeta, SchemaErrorKind> {
    match get(&vec![with_tokens(1, tokens)]) {
        Ok(attrs) => Ok(attrs.meta.unwrap().meta),
        Err(e) => Err(e.kind),
    }
}

fn meta_test() -> DeriveInput {
    let mut successful = declaration(3, "", "0", "Successful.", 200);
    successful.tokens.push(Token::Comma);
    successful.tokens.extend(field("loss", Token::Int(0)));
    item(
        vec![other_attribute(1)],
        vec![
            variant(4, "Successful", vec![successful]),
            variant(7, "Failure", vec![other_attribute(5), declaration(6, "", "1", "Unknown error.", 500)]),
        ],
    )
}

#[test]
fn derive_makes_the_dispatch_table() {
    let table = reskit_apierrors::derive::expand::derive(&meta_test()).unwrap();
    assert_eq!(table.ident(), "MetaTest");
    assert_eq!(table.len(), 2);
    assert_eq!(table.variant(0), Some("Successful"));
    assert_eq!(table.variant(1), Some("Failure"));
    assert_eq!(table.variant(2), None);
    assert_eq!(table.message(0), Some("Successful."));
    assert_eq!(table.code(1), Some("1"));
    assert_eq!(table.system(1), Some(""));
    assert_eq!(table.status_code(0), Some(200));
    assert_eq!(table.status_code(1), Some(500));
    assert_eq!(table.pvlost(0), Some(PVLost::Successful));
    assert_eq!(table.pvlost(1), Some(PVLost::LocalError));
    assert_eq!(table.to_string(0).as_deref(), Some("200::0:Successful.:0"));
    assert_eq!(table.to_string(1).as_deref(), Some("500::1:Unknown error.:2"));
    assert_eq!(table.meta(1), Some(&ErrorMeta::new("", "1", "Unknown error.", 500)));
    assert_eq!(table.system(2), None);
    assert_eq!(table.code(2), None);
    assert_eq!(table.message(2), None);
    assert_eq!(table.status_code(2), None);
    assert_eq!(table.pvlost(2), None);
    assert_eq!(table.to_string(2), None);
    assert_eq!(table.meta(2), None);
}

#[test]
fn derived_metas_register_in_bulk() {
    let table = reskit_apierrors::derive::expand::derive(&meta_test()).unwrap();
    let metas = table.api_error_metas();
    assert_eq!(metas.len(), 2);
    assert_eq!(metas[0].message(), "Successful.");
    assert_eq!(metas[1].message(), "Unknown error.");
    let mut space = Errorspace::new();
    space.register_all(&metas);
    assert_eq!(space.len(""), 2);
    assert_eq!(space.get_api_error_meta("", "1").unwrap().status_code(), 500);
    let rebound = vec![ErrorMeta::new("", "1", "Unknown error.", 503), ErrorMeta::new("", "9", "nine", 400)];
    space.register_all(&rebound);
    assert_eq!(space.get_api_error_meta("", "1").unwrap().status_code(), 500);
    assert_eq!(space.len(""), 3);
    space.overwrite_all(&rebound);
    assert_eq!(space.get_api_error_meta("", "1").unwrap().status_code(), 503);
    assert_eq!(space.len(""), 3);
}

#[test]
fn derive_is_deterministic() {
    let a = reskit_apierrors::derive::expand::derive(&meta_test()).unwrap();
    let b = reskit_apierrors::derive::expand::derive(&meta_test()).unwrap();
    assert_eq!(a.api_error_metas(), b.api_error_metas());
    assert_eq!(format!("{:?}", a), format!("{:?}", b));
}

#[test]
fn two_declarations_on_one_variant_are_duplicate() {
    let input = item(
        vec![],
        vec![
            variant(3, "A", vec![declaration(2, "", "0", "a", 200)]),
            variant(
                7,
                "B",
                vec![declaration(5, "", "1", "b", 500), declaration(6, "", "2", "c", 500)],
            ),
        ],
    );
    assert_eq!(reskit_apierrors::derive::expand::derive(&input).unwrap_err(), error(SchemaErrorKind::DuplicateMeta, 6));
}

#[test]
fn declaration_on_the_enum_is_misplaced() {
    let input = item(
        vec![declaration(1, "", "0", "a", 200)],
        vec![variant(3, "A", vec![declaration(2, "", "1", "b", 500)]), variant(4, "B", vec![])],
    );
    assert_eq!(reskit_apierrors::derive::expand::derive(&input).unwrap_err(), error(SchemaErrorKind::MisplacedMeta, 1));
}

#[test]
fn declaration_on_a_field_is_misplaced() {
    let mut a = variant(3, "A", vec![declaration(2, "", "1", "b", 500)]);
    a.fields.push(FieldNode { attrs: vec![], ident: None });
    a.fields.push(FieldNode {
        attrs: vec![declaration(9, "", "5", "f", 500)],
        ident: Some("source".to_string()),
    });
    assert_eq!(reskit_apierrors::derive::expand::derive(&item(vec![], vec![a])).unwrap_err(), error(SchemaErrorKind::MisplacedMeta, 9));
}

#[test]
fn variant_without_declaration_is_missing() {
    let input = item(
        vec![],
        vec![
            variant(3, "A", vec![declaration(2, "", "0", "a", 200)]),
            variant(5, "B", vec![other_attribute(4)]),
            variant(6, "C", vec![]),
        ],
    );
    assert_eq!(reskit_apierrors::derive::expand::derive(&input).unwrap_err(), error(SchemaErrorKind::MissingMeta, 5));
}

#[test]
fn struct_and_union_are_unsupported() {
    let mut input = meta_test();
    input.data = Data::Struct;
    assert_eq!(reskit_apierrors::derive::expand::derive(&input).unwrap_err(), error(SchemaErrorKind::Unsupported, 1));
    input.data = Data::Union;
    assert_eq!(Input::from_syn(&input).unwrap_err(), error(SchemaErrorKind::Unsupported, 1));
}

fn malformed(token: usize) -> SchemaErrorKind {
    SchemaErrorKind::MalformedField { token }
}

#[test]
fn unknown_field_is_rejected() {
    let tokens = list(vec![field("system", text("")), field("pvlost", Token::Int(0))]);
    assert_eq!(read(tokens).unwrap_err(), SchemaErrorKind::UnknownField { token: 4 });
    let tokens = list(vec![field("colour", text("red"))]);
    assert_eq!(read(tokens).unwrap_err(), SchemaErrorKind::UnknownField { token: 0 });
}

#[test]
fn malformed_fields_are_rejected() {
    let full = |extra: Vec<Vec<Token>>| {
        let mut fields = vec![
            field("system", text("s")),
            field("code", text("c")),
            field("message", text("m")),
            field("status_code", Token::Int(500)),
        ];
        fields.extend(extra);
        list(fields)
    };
    assert!(read(full(vec![])).is_ok());
    // a required field is missing
    assert_eq!(read(vec![]).unwrap_err(), malformed(0));
    assert_eq!(
        read(list(vec![field("system", text("s")), field("code", text("c"))])).unwrap_err(),
        malformed(7)
    );
    // a value of the wrong kind
    assert_eq!(read(list(vec![field("system", Token::Int(1))])).unwrap_err(), malformed(2));
    assert_eq!(read(list(vec![field("status_code", text("500"))])).unwrap_err(), malformed(2));
    assert_eq!(read(full(vec![field("loss", text("1"))])).unwrap_err(), malformed(18));
    // a value out of range
    assert_eq!(read(full(vec![field("loss", Token::Int(3))])).unwrap_err(), malformed(18));
    assert_eq!(
        read(list(vec![field("status_code", Token::Int(65536))])).unwrap_err(),
        malformed(2)
    );
    // a field given twice
    assert_eq!(read(full(vec![field("code", text("d"))])).unwrap_err(), malformed(16));
    // the shape of the list
    let mut trailing = full(vec![]);
    trailing.push(Token::Comma);
    assert_eq!(read(trailing).unwrap_err(), malformed(16));
    assert_eq!(read(vec![ident("system")]).unwrap_err(), malformed(1));
    assert_eq!(read(vec![ident("system"), Token::Eq]).unwrap_err(), malformed(2));
    assert_eq!(read(vec![ident("system"), Token::Comma, text("s")]).unwrap_err(), malformed(1));
    assert_eq!(
        read(vec![ident("system"), Token::Eq, text("s"), Token::Other]).unwrap_err(),
        malformed(3)
    );
    assert_eq!(read(vec![Token::Eq]).unwrap_err(), malformed(0));
    assert_eq!(read(vec![text("system")]).unwrap_err(), malformed(0));
}

#[test]
fn loss_defaults_to_local_error() {
    let meta = read(list(vec![
        field("status_code", Token::Int(404)),
        field("message", text("m")),
        field("code", text("c")),
        field("system", text("s")),
    ]))
    .unwrap();
    assert_eq!(meta, ErrorMeta::new("s", "c", "m", 404));
    assert_eq!(meta.pvlost(), PVLost::LocalError);
    let meta = read(list(vec![
        field("loss", Token::Int(1)),
        field("status_code", Token::Int(404)),
        field("message", text("m")),
        field("code", text("c")),
        field("system", text("s")),
    ]))
    .unwrap();
    assert_eq!(meta.pvlost(), PVLost::RemoteError);
}

#[test]
fn get_passes_over_other_attributes() {
    let attrs = get(&vec![other_attribute(1), other_attribute(2)]).unwrap();
    assert!(attrs.meta.is_none());
    assert_eq!(attrs.span(), None);
    let attrs = get(&vec![other_attribute(1), declaration(2, "s", "c", "m", 500), other_attribute(3)]).unwrap();
    assert_eq!(attrs.span(), Some(span(2)));
    assert_eq!(attrs.meta.unwrap().meta, ErrorMeta::new("s", "c", "m", 500));
}

#[test]
fn first_failure_wins() {
    // the second declaration cannot be read: that is reported, not the duplicate
    let attrs = vec![declaration(1, "s", "c", "m", 500), with_tokens(2, vec![ident("colour")])];
    assert_eq!(get(&attrs).unwrap_err(), error(SchemaErrorKind::UnknownField { token: 0 }, 2));
    // reading comes before checking: a later variant that cannot be read hides an earlier missing one
    let input = item(
        vec![],
        vec![variant(2, "A", vec![]), variant(4, "B", vec![with_tokens(3, vec![])])],
    );
    assert_eq!(reskit_apierrors::derive::expand::derive(&input).unwrap_err(), error(SchemaErrorKind::MalformedField { token: 0 }, 3));
}

#[test]
fn parse_keeps_the_first_declaration() {
    let mut attrs = Attrs { meta: None };
    assert_eq!(parse_apierrormeta_attribute(&mut attrs, &declaration(1, "s", "c", "m", 500)), Ok(()));
    assert_eq!(
        parse_apierrormeta_attribute(&mut attrs, &declaration(2, "t", "d", "n", 400)),
        Err(error(SchemaErrorKind::DuplicateMeta, 2))
    );
    assert_eq!(attrs.meta.unwrap().meta, ErrorMeta::new("s", "c", "m", 500));
}

#[test]
fn validation_of_a_read_enumeration() {
    let input = Input::from_syn(&meta_test()).unwrap();
    assert_eq!(input.validate(), Ok(()));
    let missing = Input::from_syn(&item(vec![], vec![variant(2, "A", vec![])])).unwrap();
    assert_eq!(missing.validate(), Err(error(SchemaErrorKind::MissingMeta, 2)));
}
