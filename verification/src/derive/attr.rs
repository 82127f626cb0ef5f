use vstd::prelude::*;
use vstd::string::*;
use crate::apierror::{meta_view, str_eq, text_view, ErrorMeta, MetaView};
use crate::pvlost::PVLost;

verus! {

/// A place in the source that a schema was read from.
#[derive(Clone, Copy, Debug, PartialEq, Eq, Structural)]
pub struct Span {
    /// The line, counted from 1.
    pub line: usize,
    /// The column, counted from 0.
    pub column: usize,
}

/// One token of the argument list of an attribute.
#[derive(Debug)]
pub enum Token {
    /// A name.
    Ident(String),
    /// The sign `=`.
    Eq,
    /// A comma.
    Comma,
    /// A string literal, by its value.
    Str(String),
    /// An integer literal, by its value.
    Int(u64),
    /// Any other token.
    Other,
}

/// An attribute as it stands on an item: its name and the tokens between
/// its parentheses.
#[derive(Debug)]
pub struct Attribute {
    /// The name of the attribute.
    pub path: String,
    /// The tokens of its argument list.
    pub tokens: Vec<Token>,
    /// Where the attribute stands.
    pub span: Span,
}

/// The ways in which a schema can be wrong.
#[derive(Clone, Copy, Debug, PartialEq, Eq, Structural)]
pub enum SchemaErrorKind {
    /// More than one declaration stands on one item.
    DuplicateMeta,
    /// A declaration stands on the enumeration itself or on a field of a
    /// variant.
    MisplacedMeta,
    /// A declaration does not give each of its fields one value of the
    /// right kind. `token` is the position, among the tokens of the
    /// declaration, of the token at fault; it is the number of tokens where
    /// something is missing at the end.
    MalformedField { token: usize },
    /// A declaration names a field that is not known. `token` is the
    /// position of the name among the tokens of the declaration.
    UnknownField { token: usize },
    /// A variant has no declaration.
    MissingMeta,
    /// The item is no enumeration.
    Unsupported,
}

/// A failure of reading or checking a schema, with the place of the
/// attribute, variant or item at fault.
#[derive(Clone, Copy, Debug, PartialEq, Eq, Structural)]
pub struct SchemaError {
    /// What is wrong.
    pub kind: SchemaErrorKind,
    /// Where it is wrong.
    pub span: Span,
}

/// The fields that a declaration can give.
#[derive(Clone, Copy, Debug, PartialEq, Eq, Structural)]
pub enum FieldName {
    /// `system`, a string.
    System,
    /// `code`, a string.
    Code,
    /// `message`, a string.
    Message,
    /// `status_code`, an integer.
    StatusCode,
    /// `loss`, an integer: 0, 1 or 2.
    Loss,
}

/// The field that a name stands for, if it is the name of one.
pub open spec fn field_named(name: Seq<char>) -> Option<FieldName> {
    if name == "system"@ {
        Some(FieldName::System)
    } else if name == "code"@ {
        Some(FieldName::Code)
    } else if name == "message"@ {
        Some(FieldName::Message)
    } else if name == "status_code"@ {
        Some(FieldName::StatusCode)
    } else if name == "loss"@ {
        Some(FieldName::Loss)
    } else {
        None
    }
}

/// The values that a declaration has given so far.
pub ghost struct Fields {
    /// The value of `system`.
    pub system: Option<Seq<char>>,
    /// The value of `code`.
    pub code: Option<Seq<char>>,
    /// The value of `message`.
    pub message: Option<Seq<char>>,
    /// The value of `status_code`.
    pub status_code: Option<u16>,
    /// The value of `loss`.
    pub pvlost: Option<PVLost>,
}

impl Fields {
    /// No field has a value.
    pub open spec fn none() -> Fields {
        Fields { system: None, code: None, message: None, status_code: None, pvlost: None }
    }

    /// Whether `field` has a value.
    pub open spec fn has(self, field: FieldName) -> bool {
        match field {
            FieldName::System => self.system.is_some(),
            FieldName::Code => self.code.is_some(),
            FieldName::Message => self.message.is_some(),
            FieldName::StatusCode => self.status_code.is_some(),
            FieldName::Loss => self.pvlost.is_some(),
        }
    }

    /// The fields after `field` is given the value that `token` writes;
    /// `None` if the token is of the wrong kind for the field, a status that
    /// is no 16-bit number, or a loss that is none of 0, 1 and 2.
    pub open spec fn with(self, field: FieldName, token: Token) -> Option<Fields> {
        match (field, token) {
            (FieldName::System, Token::Str(s)) => Some(Fields { system: Some(s@), ..self }),
            (FieldName::Code, Token::Str(s)) => Some(Fields { code: Some(s@), ..self }),
            (FieldName::Message, Token::Str(s)) => Some(Fields { message: Some(s@), ..self }),
            (FieldName::StatusCode, Token::Int(n)) => if n <= u16::MAX {
                Some(Fields { status_code: Some(n as u16), ..self })
            } else {
                None
            },
            (FieldName::Loss, Token::Int(n)) => match PVLost::spec_from_code(n as int) {
                Some(lost) => Some(Fields { pvlost: Some(lost), ..self }),
                None => None,
            },
            _ => None,
        }
    }

    /// The classification that the fields declare: `system`, `code`,
    /// `message` and `status_code` must have a value; `loss` is `LocalError`
    /// where it has none.
    pub open spec fn meta(self) -> Option<MetaView> {
        if self.system.is_some() && self.code.is_some() && self.message.is_some()
            && self.status_code.is_some() {
            Some(
                MetaView {
                    system: self.system.unwrap(),
                    code: self.code.unwrap(),
                    message: self.message.unwrap(),
                    status: self.status_code.unwrap(),
                    pvlost: match self.pvlost {
                        Some(lost) => lost,
                        None => PVLost::LocalError,
                    },
                },
            )
        } else {
            None
        }
    }
}

/// The failure of a declaration at the token `at`.
pub open spec fn malformed(at: int) -> SchemaErrorKind {
    SchemaErrorKind::MalformedField { token: at as usize }
}

/// Reads the fields of a declaration from the token `at` on, where a field
/// must begin. A field is a known name that has no value yet, the sign `=`
/// and a literal of the kind of the field; fields are separated by single
/// commas, and nothing follows the last one. The first token that is
/// otherwise decides the error: a name that is not known is `UnknownField`,
/// anything else `MalformedField`, each at that token.
pub open spec fn parse_fields(tokens: Seq<Token>, at: int, acc: Fields) -> Result<
    Fields,
    SchemaErrorKind,
>
    decreases tokens.len() - at,
{
    if at < 0 || at >= tokens.len() {
        Err(malformed(at))
    } else {
        match tokens[at] {
            Token::Ident(name) => match field_named(name@) {
                None => Err(SchemaErrorKind::UnknownField { token: at as usize }),
                Some(field) => if acc.has(field) {
                    Err(malformed(at))
                } else if at + 1 >= tokens.len() || !(tokens[at + 1] is Eq) {
                    Err(malformed(at + 1))
                } else if at + 2 >= tokens.len() {
                    Err(malformed(at + 2))
                } else {
                    match acc.with(field, tokens[at + 2]) {
                        None => Err(malformed(at + 2)),
                        Some(next) => if at + 3 == tokens.len() {
                            Ok(next)
                        } else if tokens[at + 3] is Comma {
                            parse_fields(tokens, at + 4, next)
                        } else {
                            Err(malformed(at + 3))
                        },
                    }
                },
            },
            _ => Err(malformed(at)),
        }
    }
}

/// The classification that the tokens of a declaration declare, or what is
/// wrong with them. A declaration that lacks a required field is malformed
/// at its end.
pub open spec fn declaration(tokens: Seq<Token>) -> Result<MetaView, SchemaErrorKind> {
    match parse_fields(tokens, 0, Fields::none()) {
        Err(kind) => Err(kind),
        Ok(fields) => match fields.meta() {
            Some(meta) => Ok(meta),
            None => Err(malformed(tokens.len() as int)),
        },
    }
}

/// A declaration that was read: the classification it declares and the
/// place of the attribute.
#[derive(Debug)]
pub struct Meta {
    /// Where the declaration stands.
    pub span: Span,
    /// The declared classification.
    pub meta: ErrorMeta,
}

/// What a declaration that was read is, as plain values.
pub ghost struct DeclView {
    /// Where the declaration stands.
    pub span: Span,
    /// The declared classification.
    pub meta: MetaView,
}

impl View for Meta {
    type V = DeclView;

    open spec fn view(&self) -> DeclView {
        DeclView { span: self.span, meta: self.meta@ }
    }
}

impl Clone for Meta {
    fn clone(&self) -> (meta: Meta)
        ensures
            meta@ == self@,
    {
        Meta { span: self.span, meta: self.meta.clone() }
    }
}

/// The declaration found among the attributes of one item, if there is one.
#[derive(Debug)]
pub struct Attrs {
    /// The declaration.
    pub meta: Option<Meta>,
}

impl View for Attrs {
    type V = Option<DeclView>;

    open spec fn view(&self) -> Option<DeclView> {
        match self.meta {
            Some(meta) => Some(meta@),
            None => None,
        }
    }
}

impl Clone for Attrs {
    fn clone(&self) -> (attrs: Attrs)
        ensures
            attrs@ == self@,
    {
        match &self.meta {
            Some(meta) => Attrs { meta: Some(meta.clone()) },
            None => Attrs { meta: None },
        }
    }
}

impl Attrs {
    /// Where the declaration stands, if there is one.
    pub fn span(&self) -> (span: Option<Span>)
        ensures
            span == match self@ {
                Some(decl) => Some(decl.span),
                None => None,
            },
    {
        if let Some(meta) = &self.meta {
            Some(meta.span)
        } else {
            None
        }
    }
}

/// Whether an attribute is a declaration: whether its name is
/// `apierrormeta`.
pub open spec fn is_declaration(attr: Attribute) -> bool {
    attr.path@ == "apierrormeta"@
}

/// What is known after one more attribute is read: an attribute of another
/// name changes nothing; a declaration that cannot be read is an error with
/// its kind; a second declaration is `DuplicateMeta`; a first one is kept.
/// The error stands at the attribute.
pub open spec fn with_attribute(found: Option<DeclView>, attr: Attribute) -> Result<
    Option<DeclView>,
    SchemaError,
> {
    if !is_declaration(attr) {
        Ok(found)
    } else {
        match declaration(attr.tokens@) {
            Err(kind) => Err(SchemaError { kind, span: attr.span }),
            Ok(meta) => if found.is_some() {
                Err(SchemaError { kind: SchemaErrorKind::DuplicateMeta, span: attr.span })
            } else {
                Ok(Some(DeclView { span: attr.span, meta }))
            },
        }
    }
}

/// What is known after the first `n` attributes of an item are read in
/// order: the first failure, or the one declaration among them, if any.
pub open spec fn declared_in(attrs: Seq<Attribute>, n: int) -> Result<Option<DeclView>, SchemaError>
    decreases n,
{
    if n <= 0 {
        Ok(None)
    } else {
        match declared_in(attrs, n - 1) {
            Err(e) => Err(e),
            Ok(found) => with_attribute(found, attrs[n - 1]),
        }
    }
}

/// The declaration among the attributes of an item.
pub open spec fn declared(attrs: Seq<Attribute>) -> Result<Option<DeclView>, SchemaError> {
    declared_in(attrs, attrs.len() as int)
}

/// The field that a name stands for, if it is the name of one.
fn field_name(name: &str) -> (field: Option<FieldName>)
    ensures
        field == field_named(name@),
{
    if str_eq(name, "system") {
        Some(FieldName::System)
    } else if str_eq(name, "code") {
        Some(FieldName::Code)
    } else if str_eq(name, "message") {
        Some(FieldName::Message)
    } else if str_eq(name, "status_code") {
        Some(FieldName::StatusCode)
    } else if str_eq(name, "loss") {
        Some(FieldName::Loss)
    } else {
        None
    }
}

/// The values read so far.
struct Partial {
    system: Option<String>,
    code: Option<String>,
    message: Option<String>,
    status_code: Option<u16>,
    pvlost: Option<PVLost>,
}

impl View for Partial {
    type V = Fields;

    closed spec fn view(&self) -> Fields {
        Fields {
            system: text_view(self.system),
            code: text_view(self.code),
            message: text_view(self.message),
            status_code: self.status_code,
            pvlost: self.pvlost,
        }
    }
}

impl Partial {
    /// Whether `field` has a value.
    fn has(&self, field: FieldName) -> (b: bool)
        ensures
            b == self@.has(field),
    {
        match field {
            FieldName::System => self.system.is_some(),
            FieldName::Code => self.code.is_some(),
            FieldName::Message => self.message.is_some(),
            FieldName::StatusCode => self.status_code.is_some(),
            FieldName::Loss => self.pvlost.is_some(),
        }
    }

    /// Gives `field` the value that `token` writes, and says whether it
    /// could.
    fn set(&mut self, field: FieldName, token: &Token) -> (done: bool)
        ensures
            match old(self)@.with(field, *token) {
                Some(next) => done && final(self)@ == next,
                None => !done && final(self)@ == old(self)@,
            },
    {
        match (field, token) {
            (FieldName::System, Token::Str(s)) => {
                self.system = Some(s.clone());
                true
            },
            (FieldName::Code, Token::Str(s)) => {
                self.code = Some(s.clone());
                true
            },
            (FieldName::Message, Token::Str(s)) => {
                self.message = Some(s.clone());
                true
            },
            (FieldName::StatusCode, Token::Int(n)) => {
                if *n <= 0xffff {
                    self.status_code = Some(*n as u16);
                    true
                } else {
                    false
                }
            },
            (FieldName::Loss, Token::Int(n)) => {
                if *n == 0 {
                    self.pvlost = Some(PVLost::Successful);
                    true
                } else if *n == 1 {
                    self.pvlost = Some(PVLost::RemoteError);
                    true
                } else if *n == 2 {
                    self.pvlost = Some(PVLost::LocalError);
                    true
                } else {
                    false
                }
            },
            _ => false,
        }
    }

    /// The classification that the values declare, if the required ones are
    /// there.
    fn meta(&self) -> (meta: Option<ErrorMeta>)
        ensures
            meta_view(meta) == self@.meta(),
    {
        match (&self.system, &self.code, &self.message, self.status_code) {
            (Some(system), Some(code), Some(message), Some(status)) => {
                let meta = ErrorMeta::new(system.as_str(), code.as_str(), message.as_str(), status);
                match self.pvlost {
                    Some(lost) => Some(meta.with_pvlost(lost)),
                    None => Some(meta),
                }
            },
            _ => None,
        }
    }
}

/// Reads the fields of a declaration.
fn parse_tokens(tokens: &Vec<Token>) -> (r: Result<Partial, SchemaErrorKind>)
    ensures
        match r {
            Ok(fields) => parse_fields(tokens@, 0, Fields::none()) == Ok::<Fields, SchemaErrorKind>(
                fields@,
            ),
            Err(kind) => parse_fields(tokens@, 0, Fields::none()) == Err::<Fields, SchemaErrorKind>(
                kind,
            ),
        },
{
    let mut fields = Partial { system: None, code: None, message: None, status_code: None, pvlost: None };
    let n = tokens.len();
    let mut at: usize = 0;
    loop
        invariant
            n == tokens.len(),
            at <= n,
            parse_fields(tokens@, at as int, fields@) == parse_fields(tokens@, 0, Fields::none()),
        decreases n - at,
    {
        if at >= n {
            return Err(SchemaErrorKind::MalformedField { token: at });
        }
        let field = match &tokens[at] {
            Token::Ident(name) => match field_name(name.as_str()) {
                None => {
                    return Err(SchemaErrorKind::UnknownField { token: at });
                },
                Some(field) => field,
            },
            _ => {
                return Err(SchemaErrorKind::MalformedField { token: at });
            },
        };
        if fields.has(field) {
            return Err(SchemaErrorKind::MalformedField { token: at });
        }
        if n - at <= 1 {
            return Err(SchemaErrorKind::MalformedField { token: at + 1 });
        }
        match &tokens[at + 1] {
            Token::Eq => {},
            _ => {
                return Err(SchemaErrorKind::MalformedField { token: at + 1 });
            },
        }
        if n - at <= 2 {
            return Err(SchemaErrorKind::MalformedField { token: at + 2 });
        }
        if !fields.set(field, &tokens[at + 2]) {
            return Err(SchemaErrorKind::MalformedField { token: at + 2 });
        }
        if n - at == 3 {
            return Ok(fields);
        }
        match &tokens[at + 3] {
            Token::Comma => {},
            _ => {
                return Err(SchemaErrorKind::MalformedField { token: at + 3 });
            },
        }
        at = at + 4;
    }
}

/// Reads one declaration and keeps it in `attrs`. Fails, and leaves `attrs`
/// as it is, if the declaration cannot be read, with the kind of what is
/// wrong and the token at fault, or if `attrs` holds a declaration already,
/// with `DuplicateMeta`; the error stands at the attribute.
pub fn parse_apierrormeta_attribute(attrs: &mut Attrs, attr: &Attribute) -> (r: Result<
    (),
    SchemaError,
>)
    ensures
        match declaration(attr.tokens@) {
            Err(kind) => r == Err::<(), SchemaError>(SchemaError { kind, span: attr.span })
                && final(attrs)@ == old(attrs)@,
            Ok(meta) => if old(attrs)@.is_some() {
                r == Err::<(), SchemaError>(
                    SchemaError { kind: SchemaErrorKind::DuplicateMeta, span: attr.span },
                ) && final(attrs)@ == old(attrs)@
            } else {
                r.is_ok() && final(attrs)@ == Some(DeclView { span: attr.span, meta })
            },
        },
{
    let fields = match parse_tokens(&attr.tokens) {
        Err(kind) => {
            return Err(SchemaError { kind, span: attr.span });
        },
        Ok(fields) => fields,
    };
    let meta = match fields.meta() {
        None => {
            return Err(
                SchemaError {
                    kind: SchemaErrorKind::MalformedField { token: attr.tokens.len() },
                    span: attr.span,
                },
            );
        },
        Some(meta) => meta,
    };
    if attrs.meta.is_some() {
        return Err(SchemaError { kind: SchemaErrorKind::DuplicateMeta, span: attr.span });
    }
    attrs.meta = Some(Meta { span: attr.span, meta });
    Ok(())
}

/// Reads the attributes of one item in order and returns the declaration
/// among them, if there is one. Attributes of other names are passed over.
/// Fails with the first failure: a declaration that cannot be read, or a
/// second declaration.
pub fn get(input: &Vec<Attribute>) -> (r: Result<Attrs, SchemaError>)
    ensures
        match r {
            Ok(attrs) => declared(input@) == Ok::<Option<DeclView>, SchemaError>(attrs@),
            Err(e) => declared(input@) == Err::<Option<DeclView>, SchemaError>(e),
        },
{
    let mut attrs = Attrs { meta: None };
    let mut i: usize = 0;
    while i < input.len()
        invariant
            i <= input.len(),
            declared_in(input@, i as int) == Ok::<Option<DeclView>, SchemaError>(attrs@),
        decreases input.len() - i,
    {
        let attr = &input[i];
        if str_eq(attr.path.as_str(), "apierrormeta") {
            match parse_apierrormeta_attribute(&mut attrs, attr) {
                Err(e) => {
                    proof {
                        lemma_declared_error(input@, i + 1, input.len() as int);
                    }
                    return Err(e);
                },
                Ok(()) => {},
            }
        }
        i += 1;
    }
    Ok(attrs)
}

/// Once reading has failed, it has failed: the attributes that follow do
/// not change the error.
pub(crate) proof fn lemma_declared_error(attrs: Seq<Attribute>, n: int, m: int)
    requires
        0 <= n <= m,
        declared_in(attrs, n) is Err,
    ensures
        declared_in(attrs, m) == declared_in(attrs, n),
    decreases m - n,
{
    if n < m {
        lemma_declared_error(attrs, n, m - 1);
    }
}

} // verus!
