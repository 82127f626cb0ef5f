use vstd::prelude::*;
use vstd::string::*;
use crate::cause::{CausalError, CauseView};
use crate::pvlost::PVLost;
use crate::text::{decimal, decimal_string};

verus! {

/// What a classification is, as plain mathematical values.
pub ghost struct MetaView {
    /// The namespace that owns the code.
    pub system: Seq<char>,
    /// The code, unique within its system.
    pub code: Seq<char>,
    /// The message for people.
    pub message: Seq<char>,
    /// The canonical transport status.
    pub status: u16,
    /// The loss attribution.
    pub pvlost: PVLost,
}

impl MetaView {
    /// The identity of the classification: its system and its code.
    pub open spec fn key(self) -> (Seq<char>, Seq<char>) {
        (self.system, self.code)
    }

    /// The one-line text of the classification: status, system, code,
    /// message and the number of the loss attribution, separated by colons.
    /// The loss attribution is always part of the text.
    pub open spec fn text(self) -> Seq<char> {
        decimal(self.status as nat) + seq![':'] + self.system + seq![':'] + self.code + seq![':']
            + self.message + seq![':'] + decimal(self.pvlost.spec_code() as nat)
    }
}

/// The accessors of a classification. Every classification has a system, a
/// code, a message, a transport status and a loss attribution.
pub trait APIErrorMeta {
    /// The classification as plain values.
    spec fn spec_meta(&self) -> MetaView;

    /// The namespace that owns the code.
    fn system(&self) -> (r: &str)
        ensures
            r@ == self.spec_meta().system,
    ;

    /// The code, unique within its system.
    fn code(&self) -> (r: &str)
        ensures
            r@ == self.spec_meta().code,
    ;

    /// The message for people.
    fn message(&self) -> (r: &str)
        ensures
            r@ == self.spec_meta().message,
    ;

    /// The canonical transport status.
    fn status_code(&self) -> (r: u16)
        ensures
            r == self.spec_meta().status,
    ;

    /// The loss attribution.
    fn pvlost(&self) -> (r: PVLost)
        ensures
            r == self.spec_meta().pvlost,
    ;
}

/// A closed set of classifications that can be enumerated, for registering
/// all of them at once.
pub trait APIErrorMetas {
    /// The classifications of the set, in declaration order.
    spec fn spec_metas() -> Seq<MetaView>;

    /// Every classification of the set, in declaration order.
    fn api_error_metas() -> (metas: Vec<ErrorMeta>)
        ensures
            metas.len() == Self::spec_metas().len(),
            forall|i: int| 0 <= i < metas.len() ==> (#[trigger] metas[i])@ == Self::spec_metas()[i],
    ;
}

/// One error class: an identity made of system and code, with a message, a
/// transport status and a loss attribution. A value never changes once made.
#[derive(Debug)]
pub struct ErrorMeta {
    system: String,
    code: String,
    message: String,
    status: u16,
    pvlost: PVLost,
}

impl View for ErrorMeta {
    type V = MetaView;

    closed spec fn view(&self) -> MetaView {
        MetaView {
            system: self.system@,
            code: self.code@,
            message: self.message@,
            status: self.status,
            pvlost: self.pvlost,
        }
    }
}

impl ErrorMeta {
    /// A classification with the given fields and the default loss
    /// attribution, `LocalError`.
    pub fn new(system: &str, code: &str, message: &str, status: u16) -> (meta: ErrorMeta)
        ensures
            meta@ == (MetaView {
                system: system@,
                code: code@,
                message: message@,
                status: status,
                pvlost: PVLost::LocalError,
            }),
    {
        ErrorMeta {
            system: String::from_str(system),
            code: String::from_str(code),
            message: String::from_str(message),
            status,
            pvlost: PVLost::LocalError,
        }
    }

    /// The classification that `meta` stands for, as a value of its own.
    pub fn of<M: APIErrorMeta>(meta: &M) -> (copy: ErrorMeta)
        ensures
            copy@ == meta.spec_meta(),
    {
        ErrorMeta {
            system: String::from_str(meta.system()),
            code: String::from_str(meta.code()),
            message: String::from_str(meta.message()),
            status: meta.status_code(),
            pvlost: meta.pvlost(),
        }
    }

    /// A copy of the classification with another loss attribution.
    pub fn with_pvlost(self, pvlost: PVLost) -> (meta: ErrorMeta)
        ensures
            meta@ == (MetaView { pvlost: pvlost, ..self@ }),
    {
        ErrorMeta {
            system: self.system,
            code: self.code,
            message: self.message,
            status: self.status,
            pvlost,
        }
    }

    /// Whether two classifications are the same class: the same system and
    /// the same code, whatever their other fields.
    pub fn same_class(&self, other: &ErrorMeta) -> (b: bool)
        ensures
            b == (self@.key() == other@.key()),
    {
        self.system == other.system && self.code == other.code
    }

    /// Whether the classification has the given identity.
    pub fn has_key(&self, system: &str, code: &str) -> (b: bool)
        ensures
            b == (self@.key() == (system@, code@)),
    {
        str_eq(self.system.as_str(), system) && str_eq(self.code.as_str(), code)
    }

    /// The one-line text of the classification, such as
    /// `500:test:1:dummy error:2`.
    pub fn to_string(&self) -> (s: String)
        ensures
            s@ == self@.text(),
    {
        proof {
            reveal_strlit(":");
        }
        let s = decimal_string(self.status as u64).concat(":").concat(self.system.as_str()).concat(
            ":",
        ).concat(self.code.as_str()).concat(":").concat(self.message.as_str()).concat(":").concat(
            decimal_string(self.pvlost.code() as u64).as_str(),
        );
        assert(s@ =~= self@.text());
        s
    }
}

impl Clone for ErrorMeta {
    fn clone(&self) -> (meta: ErrorMeta)
        ensures
            meta@ == self@,
    {
        ErrorMeta {
            system: self.system.clone(),
            code: self.code.clone(),
            message: self.message.clone(),
            status: self.status,
            pvlost: self.pvlost,
        }
    }
}

impl PartialEq for ErrorMeta {
    /// Two classifications are equal when all their fields are.
    fn eq(&self, other: &ErrorMeta) -> (b: bool) {
        self.system == other.system && self.code == other.code && self.message == other.message
            && self.status == other.status && self.pvlost.code() == other.pvlost.code()
    }
}

impl vstd::std_specs::cmp::PartialEqSpecImpl for ErrorMeta {
    open spec fn obeys_eq_spec() -> bool {
        true
    }

    open spec fn eq_spec(&self, other: &ErrorMeta) -> bool {
        self@ == other@
    }
}

impl APIErrorMeta for ErrorMeta {
    open spec fn spec_meta(&self) -> MetaView {
        self@
    }

    fn system(&self) -> (r: &str) {
        self.system.as_str()
    }

    fn code(&self) -> (r: &str) {
        self.code.as_str()
    }

    fn message(&self) -> (r: &str) {
        self.message.as_str()
    }

    fn status_code(&self) -> (r: u16) {
        self.status
    }

    fn pvlost(&self) -> (r: PVLost) {
        self.pvlost
    }
}

/// What a classified error is, as plain values.
pub ghost struct WrappedView {
    /// The classification attached to the failure.
    pub meta: MetaView,
    /// The cause that was classified.
    pub error: CauseView,
    /// Where the classification was attached, if that was recorded.
    pub caller: Option<Seq<char>>,
}

impl WrappedView {
    /// The one-line text of a classified error: its own classification and,
    /// after a colon, the caller if there is one. Its causes are not part of it.
    pub open spec fn text(self) -> Seq<char> {
        match self.caller {
            Some(caller) => self.meta.text() + seq![':'] + caller,
            None => self.meta.text(),
        }
    }

    /// The classified error as a cause for whoever handles it next: one more
    /// link on top of the chain, which displays the text of the classified
    /// error, and the classification as the one carried.
    pub open spec fn as_cause(self) -> CauseView {
        CauseView { texts: seq![self.text()] + self.error.texts, carried: Some(self.meta) }
    }
}

/// The plain values of an optional classification.
pub open spec fn meta_view(meta: Option<ErrorMeta>) -> Option<MetaView> {
    match meta {
        Some(m) => Some(m@),
        None => None,
    }
}

/// The plain values of an optional text.
pub open spec fn text_view(text: Option<String>) -> Option<Seq<char>> {
    match text {
        Some(t) => Some(t@),
        None => None,
    }
}

/// The plain values of an optional borrowed text.
pub open spec fn str_view(text: Option<&str>) -> Option<Seq<char>> {
    match text {
        Some(t) => Some(t@),
        None => None,
    }
}

/// A failure with its classification: the cause as it arrived, the
/// classification attached to it, and the place that attached it.
#[derive(Debug)]
pub struct APIError {
    /// The classification.
    pub meta: ErrorMeta,
    /// The cause.
    pub error: CausalError,
    /// The place that attached the classification.
    pub caller: Option<String>,
}

impl View for APIError {
    type V = WrappedView;

    open spec fn view(&self) -> WrappedView {
        WrappedView { meta: self.meta@, error: self.error@, caller: text_view(self.caller) }
    }
}

impl APIError {
    /// Attaches `meta` to `error`, recording `caller` if one is given.
    pub fn new(meta: ErrorMeta, error: CausalError, caller: Option<&str>) -> (wrapped: APIError)
        ensures
            wrapped@ == (WrappedView { meta: meta@, error: error@, caller: str_view(caller) }),
    {
        let caller = match caller {
            Some(c) => Some(String::from_str(c)),
            None => None,
        };
        APIError { meta, error, caller }
    }

    /// The one-line text of the classified error, such as
    /// `500::1:Unknown error.:2:app::handler`. It shows the classification
    /// and the caller only, not the causes.
    pub fn to_string(&self) -> (s: String)
        ensures
            s@ == self@.text(),
    {
        proof {
            reveal_strlit(":");
        }
        match &self.caller {
            Some(caller) => {
                let s = self.meta.to_string().concat(":").concat(caller.as_str());
                assert(s@ =~= self@.text());
                s
            },
            None => self.meta.to_string(),
        }
    }

    /// Hands the classified error on as a cause: the chain gets one more
    /// link on top, which displays the text of the classified error, and the
    /// classification travels with it.
    pub fn into_error(self) -> (cause: CausalError)
        ensures
            cause@ == self@.as_cause(),
    {
        let line = self.to_string();
        self.error.context(line.as_str()).classified(self.meta)
    }
}

impl APIErrorMeta for APIError {
    open spec fn spec_meta(&self) -> MetaView {
        self.meta@
    }

    fn system(&self) -> (r: &str) {
        self.meta.system()
    }

    fn code(&self) -> (r: &str) {
        self.meta.code()
    }

    fn message(&self) -> (r: &str) {
        self.meta.message()
    }

    fn status_code(&self) -> (r: u16) {
        self.meta.status_code()
    }

    fn pvlost(&self) -> (r: PVLost) {
        self.meta.pvlost()
    }
}

/// Whether two texts hold the same characters.
pub fn str_eq(a: &str, b: &str) -> (eq: bool)
    ensures
        eq == (a@ == b@),
{
    let x = a.as_bytes();
    let y = b.as_bytes();
    proof {
        vstd::utf8::encode_utf8_decode_utf8(a@);
        vstd::utf8::encode_utf8_decode_utf8(b@);
    }
    let n = x.len();
    if n != y.len() {
        return false;
    }
    let mut i: usize = 0;
    while i < n
        invariant
            n == x@.len(),
            n == y@.len(),
            i <= n,
            x@.take(i as int) == y@.take(i as int),
            x@ == a.spec_bytes(),
            y@ == b.spec_bytes(),
        decreases n - i,
    {
        if x[i] != y[i] {
            return false;
        }
        assert(x@.take(i + 1) =~= x@.take(i as int).push(x@[i as int]));
        assert(y@.take(i + 1) =~= y@.take(i as int).push(y@[i as int]));
        i += 1;
    }
    assert(x@ =~= x@.take(n as int));
    assert(y@ =~= y@.take(n as int));
    true
}

} // verus!
