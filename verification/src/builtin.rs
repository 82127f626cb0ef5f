use vstd::prelude::*;
use crate::apierror::{APIErrorMeta, APIErrorMetas, ErrorMeta, MetaView};
use crate::pvlost::PVLost;

verus! {

/// The classifications that every registry of the default space starts with.
#[derive(Clone, Copy, Debug, PartialEq, Eq, Structural)]
pub enum Builtin {
    /// Not an error; returned on success. Transport status 200.
    Successful,
    /// An error of which nothing more is known, such as one received from
    /// another address space whose error space is not known here, or one
    /// raised by an interface that gives too little information. Transport
    /// status 500.
    Unknown,
    /// An invariant that the system relies on is broken; reserved for
    /// serious errors. Transport status 500.
    Internal,
}

impl Builtin {
    /// The one-line text of the classification, such as
    /// `500::1:Unknown error.:2`.
    pub fn to_string(&self) -> (s: String)
        ensures
            s@ == self.spec_meta().text(),
    {
        ErrorMeta::of(self).to_string()
    }
}

impl APIErrorMeta for Builtin {
    open spec fn spec_meta(&self) -> MetaView {
        match self {
            Builtin::Successful => MetaView {
                system: ""@,
                code: "0"@,
                message: "Successful."@,
                status: 200,
                pvlost: PVLost::Successful,
            },
            Builtin::Unknown => MetaView {
                system: ""@,
                code: "1"@,
                message: "Unknown error."@,
                status: 500,
                pvlost: PVLost::LocalError,
            },
            Builtin::Internal => MetaView {
                system: ""@,
                code: "2"@,
                message: "Internal server error."@,
                status: 500,
                pvlost: PVLost::LocalError,
            },
        }
    }

    fn system(&self) -> (r: &str) {
        ""
    }

    fn code(&self) -> (r: &str) {
        match self {
            Builtin::Successful => "0",
            Builtin::Unknown => "1",
            Builtin::Internal => "2",
        }
    }

    fn message(&self) -> (r: &str) {
        match self {
            Builtin::Successful => "Successful.",
            Builtin::Unknown => "Unknown error.",
            Builtin::Internal => "Internal server error.",
        }
    }

    fn status_code(&self) -> (r: u16) {
        match self {
            Builtin::Successful => 200,
            Builtin::Unknown => 500,
            Builtin::Internal => 500,
        }
    }

    fn pvlost(&self) -> (r: PVLost) {
        match self {
            Builtin::Successful => PVLost::Successful,
            Builtin::Unknown => PVLost::LocalError,
            Builtin::Internal => PVLost::LocalError,
        }
    }
}

impl APIErrorMetas for Builtin {
    open spec fn spec_metas() -> Seq<MetaView> {
        seq![
            Builtin::Successful.spec_meta(),
            Builtin::Unknown.spec_meta(),
            Builtin::Internal.spec_meta(),
        ]
    }

    fn api_error_metas() -> (metas: Vec<ErrorMeta>) {
        let mut metas: Vec<ErrorMeta> = Vec::new();
        metas.push(ErrorMeta::of(&Builtin::Successful));
        metas.push(ErrorMeta::of(&Builtin::Unknown));
        metas.push(ErrorMeta::of(&Builtin::Internal));
        metas
    }
}

/// The builtin classifications have three distinct identities, all in the
/// system with the empty name.
pub proof fn lemma_builtin_keys_distinct(a: Builtin, b: Builtin)
    ensures
        a.spec_meta().system == Seq::<char>::empty(),
        a != b ==> a.spec_meta().key() != b.spec_meta().key(),
{
    reveal_strlit("");
    reveal_strlit("0");
    reveal_strlit("1");
    reveal_strlit("2");
    assert("0"@[0] == '0');
    assert("1"@[0] == '1');
    assert("2"@[0] == '2');
}

} // verus!
