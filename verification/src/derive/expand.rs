use vstd::prelude::*;
use crate::apierror::{str_view, text_view, APIErrorMeta, ErrorMeta, MetaView};
use crate::derive::ast::{
    inheriting, input_of, variant_of, variants_of, variants_view, Data, DeriveInput, Enum, EnumView,
    Input, VariantNode,
};
use crate::derive::attr::{
    declaration, declared, declared_in, is_declaration, lemma_declared_error, Attribute, DeclView,
    SchemaError, SchemaErrorKind,
};
use crate::derive::valid::{
    all_declared, enum_checked, lemma_checked_all_declared, lemma_variants_checked_error,
    variants_checked,
};
use crate::errorspace::metas_view;
use crate::pvlost::PVLost;

verus! {

/// One arm of a dispatch table: a variant and its classification.
#[derive(Debug)]
pub struct Arm {
    /// The name of the variant.
    pub variant: String,
    /// The classification declared on it.
    pub meta: ErrorMeta,
}

/// What an arm is, as plain values.
pub ghost struct ArmView {
    /// The name of the variant.
    pub variant: Seq<char>,
    /// The classification declared on it.
    pub meta: MetaView,
}

impl View for Arm {
    type V = ArmView;

    open spec fn view(&self) -> ArmView {
        ArmView { variant: self.variant@, meta: self.meta@ }
    }
}

/// What a dispatch table is, as plain values.
pub ghost struct DispatchView {
    /// The name of the enumeration.
    pub ident: Seq<char>,
    /// One arm for each variant, in declaration order.
    pub arms: Seq<ArmView>,
}

impl DispatchView {
    /// The classification of the variant at position `variant`, if there is
    /// such a variant.
    pub open spec fn meta(self, variant: int) -> Option<MetaView> {
        if 0 <= variant < self.arms.len() {
            Some(self.arms[variant].meta)
        } else {
            None
        }
    }

    /// The classifications of all variants, in declaration order.
    pub open spec fn metas(self) -> Seq<MetaView> {
        self.arms.map_values(|arm: ArmView| arm.meta)
    }
}

/// The dispatch table of an enumeration whose variants all have a
/// declaration: for each variant, in order, its name and the classification
/// declared on it.
pub open spec fn generated(input: EnumView) -> DispatchView {
    DispatchView {
        ident: input.ident,
        arms: Seq::new(
            input.variants.len(),
            |i: int|
                ArmView {
                    variant: input.variants[i].ident,
                    meta: input.variants[i].attrs.unwrap().meta,
                },
        ),
    }
}

/// What `derive` makes of an item: the first failure of reading it, else the
/// first failure of checking it, else its dispatch table.
pub open spec fn derived(node: DeriveInput) -> Result<DispatchView, SchemaError> {
    match input_of(node) {
        Err(e) => Err(e),
        Ok(input) => match enum_checked(input) {
            Err(e) => Err(e),
            Ok(()) => Ok(generated(input)),
        },
    }
}

/// The plain values of a list of arms.
pub open spec fn arms_view(arms: Seq<Arm>) -> Seq<ArmView> {
    arms.map_values(|arm: Arm| arm@)
}

/// The table that gives each variant of an enumeration its classification.
/// A variant is known by its position in declaration order.
#[derive(Debug)]
pub struct Dispatch {
    ident: String,
    arms: Vec<Arm>,
}

impl View for Dispatch {
    type V = DispatchView;

    closed spec fn view(&self) -> DispatchView {
        DispatchView { ident: self.ident@, arms: arms_view(self.arms@) }
    }
}

impl Dispatch {
    /// The name of the enumeration.
    pub fn ident(&self) -> (name: &str)
        ensures
            name@ == self@.ident,
    {
        self.ident.as_str()
    }

    /// The number of variants.
    pub fn len(&self) -> (n: usize)
        ensures
            n == self@.arms.len(),
    {
        self.arms.len()
    }

    /// The arm of the variant at position `variant`, if there is such a
    /// variant.
    fn arm(&self, variant: usize) -> (arm: Option<&Arm>)
        ensures
            match arm {
                Some(a) => variant < self@.arms.len() && a@ == self@.arms[variant as int],
                None => variant >= self@.arms.len(),
            },
    {
        if variant < self.arms.len() {
            Some(&self.arms[variant])
        } else {
            None
        }
    }

    /// The name of the variant at position `variant`.
    pub fn variant(&self, variant: usize) -> (name: Option<&str>)
        ensures
            str_view(name) == if variant < self@.arms.len() {
                Some(self@.arms[variant as int].variant)
            } else {
                None
            },
    {
        match self.arm(variant) {
            Some(arm) => Some(arm.variant.as_str()),
            None => None,
        }
    }

    /// The classification of the variant at position `variant`.
    pub fn meta(&self, variant: usize) -> (meta: Option<&ErrorMeta>)
        ensures
            match meta {
                Some(m) => self@.meta(variant as int) == Some(m@),
                None => self@.meta(variant as int).is_none(),
            },
    {
        match self.arm(variant) {
            Some(arm) => Some(&arm.meta),
            None => None,
        }
    }

    /// The system declared for the variant at position `variant`.
    pub fn system(&self, variant: usize) -> (system: Option<&str>)
        ensures
            str_view(system) == match self@.meta(variant as int) {
                Some(m) => Some(m.system),
                None => None,
            },
    {
        match self.arm(variant) {
            Some(arm) => Some(arm.meta.system()),
            None => None,
        }
    }

    /// The code declared for the variant at position `variant`.
    pub fn code(&self, variant: usize) -> (code: Option<&str>)
        ensures
            str_view(code) == match self@.meta(variant as int) {
                Some(m) => Some(m.code),
                None => None,
            },
    {
        match self.arm(variant) {
            Some(arm) => Some(arm.meta.code()),
            None => None,
        }
    }

    /// The message declared for the variant at position `variant`.
    pub fn message(&self, variant: usize) -> (message: Option<&str>)
        ensures
            str_view(message) == match self@.meta(variant as int) {
                Some(m) => Some(m.message),
                None => None,
            },
    {
        match self.arm(variant) {
            Some(arm) => Some(arm.meta.message()),
            None => None,
        }
    }

    /// The transport status declared for the variant at position `variant`.
    pub fn status_code(&self, variant: usize) -> (status: Option<u16>)
        ensures
            status == match self@.meta(variant as int) {
                Some(m) => Some(m.status),
                None => None,
            },
    {
        match self.arm(variant) {
            Some(arm) => Some(arm.meta.status_code()),
            None => None,
        }
    }

    /// The loss attribution declared for the variant at position `variant`.
    pub fn pvlost(&self, variant: usize) -> (lost: Option<PVLost>)
        ensures
            lost == match self@.meta(variant as int) {
                Some(m) => Some(m.pvlost),
                None => None,
            },
    {
        match self.arm(variant) {
            Some(arm) => Some(arm.meta.pvlost()),
            None => None,
        }
    }

    /// The one-line text of the variant at position `variant`: status,
    /// system, code, message and the number of the loss attribution,
    /// separated by colons.
    pub fn to_string(&self, variant: usize) -> (text: Option<String>)
        ensures
            text_view(text) == match self@.meta(variant as int) {
                Some(m) => Some(m.text()),
                None => None,
            },
    {
        match self.arm(variant) {
            Some(arm) => Some(arm.meta.to_string()),
            None => None,
        }
    }

    /// The classification of every variant, in declaration order, for
    /// registering all of them at once.
    pub fn api_error_metas(&self) -> (metas: Vec<ErrorMeta>)
        ensures
            metas_view(metas@) == self@.metas(),
    {
        let mut metas: Vec<ErrorMeta> = Vec::new();
        let mut i: usize = 0;
        while i < self.arms.len()
            invariant
                i <= self.arms.len(),
                metas.len() == i,
                forall|j: int| 0 <= j < i ==> (#[trigger] metas@[j])@ == self.arms@[j].meta@,
            decreases self.arms.len() - i,
        {
            metas.push(self.arms[i].meta.clone());
            i += 1;
        }
        assert(metas_view(metas@) =~= self@.metas());
        metas
    }
}

/// Reads the schema on an item, checks it, and makes its dispatch table.
/// Fails with the first failure of reading, or else of checking; nothing is
/// made of a schema with a failure.
pub fn derive(node: &DeriveInput) -> (r: Result<Dispatch, SchemaError>)
    ensures
        match r {
            Ok(table) => derived(*node) == Ok::<DispatchView, SchemaError>(table@),
            Err(e) => derived(*node) == Err::<DispatchView, SchemaError>(e),
        },
{
    let input = match Input::from_syn(node) {
        Err(e) => {
            return Err(e);
        },
        Ok(input) => input,
    };
    match input.validate() {
        Err(e) => {
            return Err(e);
        },
        Ok(()) => {},
    }
    proof {
        lemma_checked_all_declared(input@);
    }
    Ok(
        match input {
            Input::Enum(input) => impl_enum(input),
        },
    )
}

/// Makes the dispatch table of an enumeration whose variants all have a
/// declaration.
fn impl_enum(input: Enum) -> (table: Dispatch)
    requires
        all_declared(input@),
    ensures
        table@ == generated(input@),
{
    let mut arms: Vec<Arm> = Vec::new();
    let mut i: usize = 0;
    while i < input.variants.len()
        invariant
            i <= input.variants.len(),
            all_declared(input@),
            arms.len() == i,
            forall|j: int| 0 <= j < i ==> (#[trigger] arms@[j])@ == generated(input@).arms[j],
        decreases input.variants.len() - i,
    {
        let variant = &input.variants[i];
        assert(variants_view(input.variants@)[i as int] == variant@);
        assert(input@.variants[i as int].attrs.is_some());
        match &variant.attrs.meta {
            Some(decl) => {
                arms.push(Arm { variant: variant.ident.clone(), meta: decl.meta.clone() });
            },
            None => {},
        }
        i += 1;
    }
    let table = Dispatch { ident: input.ident, arms };
    assert(table@.arms =~= generated(input@).arms);
    table
}

/// Two declarations on one item are `DuplicateMeta`: where the attributes up
/// to the second declaration hold one other declaration, and both can be
/// read, reading fails at the second one.
pub proof fn lemma_two_declarations(attrs: Seq<Attribute>, first: int, second: int)
    requires
        0 <= first < second < attrs.len(),
        is_declaration(attrs[first]),
        is_declaration(attrs[second]),
        declaration(attrs[first].tokens@).is_ok(),
        declaration(attrs[second].tokens@).is_ok(),
        forall|k: int| 0 <= k < second && k != first ==> !is_declaration(#[trigger] attrs[k]),
    ensures
        declared(attrs) == Err::<Option<DeclView>, SchemaError>(
            SchemaError { kind: SchemaErrorKind::DuplicateMeta, span: attrs[second].span },
        ),
{
    lemma_declared_none(attrs, first);
    lemma_declared_one(attrs, first, second);
    lemma_declared_error(attrs, second + 1, attrs.len() as int);
}

/// Attributes of other names declare nothing.
proof fn lemma_declared_none(attrs: Seq<Attribute>, n: int)
    requires
        0 <= n <= attrs.len(),
        forall|k: int| 0 <= k < n ==> !is_declaration(#[trigger] attrs[k]),
    ensures
        declared_in(attrs, n) == Ok::<Option<DeclView>, SchemaError>(None),
    decreases n,
{
    if n > 0 {
        lemma_declared_none(attrs, n - 1);
    }
}

/// One declaration that can be read, among attributes of other names, is
/// the declaration of the item.
proof fn lemma_declared_one(attrs: Seq<Attribute>, first: int, n: int)
    requires
        0 <= first < n <= attrs.len(),
        is_declaration(attrs[first]),
        declaration(attrs[first].tokens@).is_ok(),
        forall|k: int| 0 <= k < n && k != first ==> !is_declaration(#[trigger] attrs[k]),
    ensures
        declared_in(attrs, n) == Ok::<Option<DeclView>, SchemaError>(
            Some(
                DeclView {
                    span: attrs[first].span,
                    meta: declaration(attrs[first].tokens@).unwrap(),
                },
            ),
        ),
    decreases n,
{
    if n == first + 1 {
        lemma_declared_none(attrs, first);
    } else {
        lemma_declared_one(attrs, first, n - 1);
    }
}

/// The variants of an item, as they stand in the source; none for an item
/// that is no enumeration.
pub open spec fn variant_nodes(node: DeriveInput) -> Seq<VariantNode> {
    match node.data {
        Data::Enum(variants) => variants@,
        _ => Seq::empty(),
    }
}

/// A declaration on the enumeration itself is `MisplacedMeta`: where the
/// item and its variants can be read and the item has a declaration,
/// `derive` fails at that declaration.
pub proof fn lemma_declaration_on_enum(node: DeriveInput, decl: DeclView)
    requires
        node.data is Enum,
        declared(node.attrs@) == Ok::<Option<DeclView>, SchemaError>(Some(decl)),
        variants_of(variant_nodes(node), variant_nodes(node).len() as int, Some(decl)).is_ok(),
    ensures
        derived(node) == Err::<DispatchView, SchemaError>(
            SchemaError { kind: SchemaErrorKind::MisplacedMeta, span: decl.span },
        ),
{
}

/// A variant with no declaration is `MissingMeta`: where the item and its
/// variants can be read, the item has no declaration, and the variants
/// before the one at position `k` are in order, `derive` fails at that
/// variant.
pub proof fn lemma_variant_without_declaration(node: DeriveInput, k: int)
    requires
        node.data is Enum,
        declared(node.attrs@) == Ok::<Option<DeclView>, SchemaError>(None),
        variants_of(variant_nodes(node), variant_nodes(node).len() as int, None).is_ok(),
        0 <= k < variant_nodes(node).len(),
        declared(variant_nodes(node)[k].attrs@) == Ok::<Option<DeclView>, SchemaError>(None),
        variants_checked(
            variants_of(variant_nodes(node), variant_nodes(node).len() as int, None).unwrap(),
            k,
        ).is_ok(),
    ensures
        derived(node) == Err::<DispatchView, SchemaError>(
            SchemaError { kind: SchemaErrorKind::MissingMeta, span: variant_nodes(node)[k].span },
        ),
{
    let nodes = variant_nodes(node);
    let read = variants_of(nodes, nodes.len() as int, None).unwrap();
    lemma_variants_of_index(nodes, nodes.len() as int, None, k);
    lemma_variants_checked_error(read, k + 1, read.len() as int);
}

/// The variant read at a position is the variant of the node at that
/// position, with the declaration of the enumeration where it has none.
proof fn lemma_variants_of_index(
    nodes: Seq<VariantNode>,
    n: int,
    inherited: Option<DeclView>,
    k: int,
)
    requires
        0 <= k < n <= nodes.len(),
        variants_of(nodes, n, inherited).is_ok(),
    ensures
        variants_of(nodes, n, inherited).unwrap().len() == n,
        variant_of(nodes[k]).is_ok(),
        variants_of(nodes, n, inherited).unwrap()[k] == inheriting(
            variant_of(nodes[k]).unwrap(),
            inherited,
        ),
    decreases n,
{
    lemma_variants_of_len(nodes, n, inherited);
    if k < n - 1 {
        lemma_variants_of_index(nodes, n - 1, inherited, k);
    } else {
        lemma_variants_of_len(nodes, n - 1, inherited);
    }
}

/// As many variants are read as there are nodes.
proof fn lemma_variants_of_len(nodes: Seq<VariantNode>, n: int, inherited: Option<DeclView>)
    requires
        0 <= n <= nodes.len(),
        variants_of(nodes, n, inherited).is_ok(),
    ensures
        variants_of(nodes, n, inherited).unwrap().len() == n,
    decreases n,
{
    if n > 0 {
        lemma_variants_of_len(nodes, n - 1, inherited);
    }
}

} // verus!
