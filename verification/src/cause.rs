use vstd::prelude::*;
use vstd::string::*;
use crate::apierror::{meta_view, ErrorMeta, MetaView};

verus! {

/// `anyhow::Error`, the chain of causes that an error carries. Its contents
/// are seen through `chain_texts` only.
#[verifier::external_type_specification]
#[verifier::external_body]
pub struct ExAnyhowError(anyhow::Error);

/// The messages of an `anyhow::Error`: what each link of its chain displays,
/// the outermost first and the root cause last.
pub uninterp spec fn chain_texts(error: anyhow::Error) -> Seq<Seq<char>>;

/// `anyhow::Error::msg`: a new error made of one message, with no cause
/// below it.
#[verifier::external_body]
fn error_msg(message: &str) -> (error: anyhow::Error)
    ensures
        chain_texts(error) == seq![message@],
{
    anyhow::Error::msg(message.to_owned())
}

/// `anyhow::Error::context`: the same chain with one more link on top, which
/// displays the context.
#[verifier::external_body]
fn error_context(error: anyhow::Error, context: &str) -> (wrapped: anyhow::Error)
    ensures
        chain_texts(wrapped) == seq![context@] + chain_texts(error),
{
    error.context(context.to_owned())
}

/// `anyhow::Error::chain`: the links of the error, the error itself first,
/// each handed out as the text it displays. A chain is never empty.
#[verifier::external_body]
fn error_chain(error: &anyhow::Error) -> (texts: Vec<String>)
    ensures
        texts.len() >= 1,
        texts.len() == chain_texts(*error).len(),
        forall|i: int| 0 <= i < texts.len() ==> (#[trigger] texts[i])@ == chain_texts(*error)[i],
{
    error.chain().map(|link| link.to_string()).collect()
}

/// What a causal error is, as plain values.
pub ghost struct CauseView {
    /// The message of each link of the chain, the outermost first.
    pub texts: Seq<Seq<char>>,
    /// The classification that the error carries, if it was classified.
    pub carried: Option<MetaView>,
}

/// An error as it travels: a chain of causes, and the classification that
/// was last attached to it, if any.
#[derive(Debug)]
pub struct CausalError {
    error: anyhow::Error,
    carried: Option<ErrorMeta>,
}

impl View for CausalError {
    type V = CauseView;

    closed spec fn view(&self) -> CauseView {
        CauseView { texts: chain_texts(self.error), carried: meta_view(self.carried) }
    }
}

impl CausalError {
    /// An error that carries no classification, with the given chain.
    pub fn new(error: anyhow::Error) -> (cause: CausalError)
        ensures
            cause@ == (CauseView { texts: chain_texts(error), carried: None }),
    {
        CausalError { error, carried: None }
    }

    /// An error with the given chain that carries `carried`.
    pub fn carrying(error: anyhow::Error, carried: Option<ErrorMeta>) -> (cause: CausalError)
        ensures
            cause@ == (CauseView { texts: chain_texts(error), carried: meta_view(carried) }),
    {
        CausalError { error, carried }
    }

    /// An error made of one message: no cause below it, no classification.
    pub fn msg(message: &str) -> (cause: CausalError)
        ensures
            cause@ == (CauseView { texts: seq![message@], carried: None }),
    {
        CausalError { error: error_msg(message), carried: None }
    }

    /// The same error under one more link, which displays `context`. The
    /// classification it carries stays.
    pub fn context(self, context: &str) -> (cause: CausalError)
        ensures
            cause@ == (CauseView { texts: seq![context@] + self@.texts, carried: self@.carried }),
    {
        CausalError { error: error_context(self.error, context), carried: self.carried }
    }

    /// The same chain, now carrying `meta` in place of what it carried.
    pub fn classified(self, meta: ErrorMeta) -> (cause: CausalError)
        ensures
            cause@ == (CauseView { texts: self@.texts, carried: Some(meta@) }),
    {
        CausalError { error: self.error, carried: Some(meta) }
    }

    /// The classification that the error carries, if it was classified.
    pub fn carried(&self) -> (meta: Option<&ErrorMeta>)
        ensures
            match meta {
                Some(m) => self@.carried == Some(m@),
                None => self@.carried.is_none(),
            },
    {
        self.carried.as_ref()
    }

    /// The messages of the chain, the outermost first and the root cause
    /// last. There is at least one.
    pub fn chain(&self) -> (texts: Vec<String>)
        ensures
            texts.len() >= 1,
            texts.len() == self@.texts.len(),
            forall|i: int| 0 <= i < texts.len() ==> (#[trigger] texts[i])@ == self@.texts[i],
    {
        error_chain(&self.error)
    }

    /// The message of the outermost link. The causes below it are not
    /// printed.
    pub fn to_string(&self) -> (text: String)
        ensures
            self@.texts.len() >= 1,
            text@ == self@.texts.first(),
    {
        let texts = error_chain(&self.error);
        texts[0].clone()
    }

    /// The message of the root cause, the last link of the chain.
    pub fn root_cause(&self) -> (text: String)
        ensures
            self@.texts.len() >= 1,
            text@ == self@.texts.last(),
    {
        let texts = error_chain(&self.error);
        texts[texts.len() - 1].clone()
    }

    /// The chain of causes, for a caller that goes on with `anyhow`.
    pub fn into_inner(self) -> (error: anyhow::Error)
        ensures
            chain_texts(error) == self@.texts,
    {
        self.error
    }
}

} // verus!
