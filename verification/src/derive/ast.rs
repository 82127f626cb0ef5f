use vstd::prelude::*;
use crate::derive::attr::{declared, get, Attribute, Attrs, DeclView, SchemaError, SchemaErrorKind, Span};

verus! {

/// A field of a variant, as it stands in the source.
#[derive(Debug)]
pub struct FieldNode {
    /// The attributes on the field.
    pub attrs: Vec<Attribute>,
    /// The name of the field, if it has one.
    pub ident: Option<String>,
}

/// A variant of an enumeration, as it stands in the source.
#[derive(Debug)]
pub struct VariantNode {
    /// The attributes on the variant.
    pub attrs: Vec<Attribute>,
    /// The name of the variant.
    pub ident: String,
    /// The fields of the variant.
    pub fields: Vec<FieldNode>,
    /// Where the variant stands.
    pub span: Span,
}

/// What kind of item a schema was written on.
#[derive(Debug)]
pub enum Data {
    /// A struct.
    Struct,
    /// An enumeration, with its variants in order.
    Enum(Vec<VariantNode>),
    /// A union.
    Union,
}

/// An item with a schema on it, as it stands in the source.
#[derive(Debug)]
pub struct DeriveInput {
    /// The attributes on the item.
    pub attrs: Vec<Attribute>,
    /// The name of the item.
    pub ident: String,
    /// The body of the item.
    pub data: Data,
    /// Where the item stands.
    pub span: Span,
}

/// How a field of a variant is referred to.
#[derive(Debug)]
pub enum Member {
    /// By its name.
    Named(String),
    /// By its position among the fields of the variant.
    Unnamed(usize),
}

/// What a member is, as plain values.
pub ghost enum MemberView {
    /// A field with a name.
    Named(Seq<char>),
    /// A field known by its position.
    Unnamed(usize),
}

impl View for Member {
    type V = MemberView;

    open spec fn view(&self) -> MemberView {
        match self {
            Member::Named(name) => MemberView::Named(name@),
            Member::Unnamed(index) => MemberView::Unnamed(*index),
        }
    }
}

/// A field of a variant with the declaration read from it.
#[derive(Debug)]
pub struct Field {
    /// The declaration on the field, if one stands there.
    pub attrs: Attrs,
    /// The name or the position of the field.
    pub member: Member,
}

/// What a field is, as plain values.
pub ghost struct FieldView {
    /// The declaration on the field.
    pub attrs: Option<DeclView>,
    /// The name or the position of the field.
    pub member: MemberView,
}

impl View for Field {
    type V = FieldView;

    open spec fn view(&self) -> FieldView {
        FieldView { attrs: self.attrs@, member: self.member@ }
    }
}

/// A variant with the declaration read from it.
#[derive(Debug)]
pub struct Variant {
    /// The declaration of the variant, if it has one.
    pub attrs: Attrs,
    /// The name of the variant.
    pub ident: String,
    /// The fields of the variant.
    pub fields: Vec<Field>,
    /// Where the variant stands.
    pub span: Span,
}

/// What a variant is, as plain values.
pub ghost struct VariantView {
    /// The declaration of the variant.
    pub attrs: Option<DeclView>,
    /// The name of the variant.
    pub ident: Seq<char>,
    /// The fields of the variant.
    pub fields: Seq<FieldView>,
    /// Where the variant stands.
    pub span: Span,
}

/// The plain values of a list of fields.
pub open spec fn fields_view(fields: Seq<Field>) -> Seq<FieldView> {
    fields.map_values(|f: Field| f@)
}

impl View for Variant {
    type V = VariantView;

    open spec fn view(&self) -> VariantView {
        VariantView {
            attrs: self.attrs@,
            ident: self.ident@,
            fields: fields_view(self.fields@),
            span: self.span,
        }
    }
}

/// An enumeration with the declarations read from it.
#[derive(Debug)]
pub struct Enum {
    /// The declaration on the enumeration itself, if one stands there.
    pub attrs: Attrs,
    /// The name of the enumeration.
    pub ident: String,
    /// The variants, in order.
    pub variants: Vec<Variant>,
}

/// What an enumeration is, as plain values.
pub ghost struct EnumView {
    /// The declaration on the enumeration itself.
    pub attrs: Option<DeclView>,
    /// The name of the enumeration.
    pub ident: Seq<char>,
    /// The variants, in order.
    pub variants: Seq<VariantView>,
}

/// The plain values of a list of variants.
pub open spec fn variants_view(variants: Seq<Variant>) -> Seq<VariantView> {
    variants.map_values(|v: Variant| v@)
}

impl View for Enum {
    type V = EnumView;

    open spec fn view(&self) -> EnumView {
        EnumView {
            attrs: self.attrs@,
            ident: self.ident@,
            variants: variants_view(self.variants@),
        }
    }
}

/// An item that a schema can be read from.
#[derive(Debug)]
pub enum Input {
    /// An enumeration.
    Enum(Enum),
}

impl View for Input {
    type V = EnumView;

    open spec fn view(&self) -> EnumView {
        match self {
            Input::Enum(input) => input@,
        }
    }
}

/// The field read from the node at position `i`.
pub open spec fn field_of(i: int, node: FieldNode) -> Result<FieldView, SchemaError> {
    match declared(node.attrs@) {
        Err(e) => Err(e),
        Ok(attrs) => Ok(
            FieldView {
                attrs,
                member: match node.ident {
                    Some(name) => MemberView::Named(name@),
                    None => MemberView::Unnamed(i as usize),
                },
            },
        ),
    }
}

/// The fields read from the first `n` nodes in order, or the first failure.
pub open spec fn fields_of(nodes: Seq<FieldNode>, n: int) -> Result<Seq<FieldView>, SchemaError>
    decreases n,
{
    if n <= 0 {
        Ok(Seq::empty())
    } else {
        match fields_of(nodes, n - 1) {
            Err(e) => Err(e),
            Ok(fields) => match field_of(n - 1, nodes[n - 1]) {
                Err(e) => Err(e),
                Ok(field) => Ok(fields.push(field)),
            },
        }
    }
}

/// The variant read from a node: its own declaration first, then its fields.
pub open spec fn variant_of(node: VariantNode) -> Result<VariantView, SchemaError> {
    match declared(node.attrs@) {
        Err(e) => Err(e),
        Ok(attrs) => match fields_of(node.fields@, node.fields@.len() as int) {
            Err(e) => Err(e),
            Ok(fields) => Ok(VariantView { attrs, ident: node.ident@, fields, span: node.span }),
        },
    }
}

/// A variant as it stands in an enumeration: one without a declaration of
/// its own takes the declaration of the enumeration, if there is one.
pub open spec fn inheriting(variant: VariantView, inherited: Option<DeclView>) -> VariantView {
    if variant.attrs.is_none() {
        VariantView { attrs: inherited, ..variant }
    } else {
        variant
    }
}

/// The variants read from the first `n` nodes in order, or the first
/// failure.
pub open spec fn variants_of(nodes: Seq<VariantNode>, n: int, inherited: Option<DeclView>) -> Result<
    Seq<VariantView>,
    SchemaError,
>
    decreases n,
{
    if n <= 0 {
        Ok(Seq::empty())
    } else {
        match variants_of(nodes, n - 1, inherited) {
            Err(e) => Err(e),
            Ok(variants) => match variant_of(nodes[n - 1]) {
                Err(e) => Err(e),
                Ok(variant) => Ok(variants.push(inheriting(variant, inherited))),
            },
        }
    }
}

/// The enumeration read from an item with the given variants: the
/// attributes of the item first, then the variants in order.
pub open spec fn enum_of(node: DeriveInput, variants: Seq<VariantNode>) -> Result<
    EnumView,
    SchemaError,
> {
    match declared(node.attrs@) {
        Err(e) => Err(e),
        Ok(attrs) => match variants_of(variants, variants.len() as int, attrs) {
            Err(e) => Err(e),
            Ok(variants) => Ok(EnumView { attrs, ident: node.ident@, variants }),
        },
    }
}

/// What is read from an item: an enumeration, or a failure. A struct and a
/// union are `Unsupported`, at the item.
pub open spec fn input_of(node: DeriveInput) -> Result<EnumView, SchemaError> {
    match node.data {
        Data::Enum(variants) => enum_of(node, variants@),
        _ => Err(SchemaError { kind: SchemaErrorKind::Unsupported, span: node.span }),
    }
}

impl Input {
    /// Reads the declarations of an item. Fails with `Unsupported` for a
    /// struct or a union, and with the first failure of reading a
    /// declaration for an enumeration.
    pub fn from_syn(node: &DeriveInput) -> (r: Result<Input, SchemaError>)
        ensures
            match r {
                Ok(input) => input_of(*node) == Ok::<EnumView, SchemaError>(input@),
                Err(e) => input_of(*node) == Err::<EnumView, SchemaError>(e),
            },
    {
        match &node.data {
            Data::Struct => Err(SchemaError { kind: SchemaErrorKind::Unsupported, span: node.span }),
            Data::Enum(data) => match Enum::from_syn(node, data) {
                Ok(input) => Ok(Input::Enum(input)),
                Err(e) => Err(e),
            },
            Data::Union => Err(SchemaError { kind: SchemaErrorKind::Unsupported, span: node.span }),
        }
    }
}

impl Enum {
    /// Reads the declaration on the enumeration and those of its variants,
    /// in order. A variant without a declaration of its own takes the one of
    /// the enumeration.
    fn from_syn(node: &DeriveInput, data: &Vec<VariantNode>) -> (r: Result<Enum, SchemaError>)
        ensures
            match r {
                Ok(input) => enum_of(*node, data@) == Ok::<EnumView, SchemaError>(input@),
                Err(e) => enum_of(*node, data@) == Err::<EnumView, SchemaError>(e),
            },
    {
        let attrs = match get(&node.attrs) {
            Err(e) => {
                return Err(e);
            },
            Ok(attrs) => attrs,
        };
        let mut variants: Vec<Variant> = Vec::new();
        let mut i: usize = 0;
        assert(variants_view(variants@) =~= Seq::<VariantView>::empty());
        while i < data.len()
            invariant
                i <= data.len(),
                declared(node.attrs@) == Ok::<Option<DeclView>, SchemaError>(attrs@),
                variants_of(data@, i as int, attrs@) == Ok::<Seq<VariantView>, SchemaError>(
                    variants_view(variants@),
                ),
            decreases data.len() - i,
        {
            let mut variant = match Variant::from_syn(&data[i]) {
                Err(e) => {
                    proof {
                        lemma_variants_error(data@, i + 1, data.len() as int, attrs@);
                    }
                    return Err(e);
                },
                Ok(variant) => variant,
            };
            if variant.attrs.meta.is_none() {
                variant.attrs = attrs.clone();
            }
            proof {
                assert(variants_view(variants@.push(variant)) =~= variants_view(variants@).push(
                    variant@,
                ));
            }
            variants.push(variant);
            i += 1;
        }
        Ok(Enum { attrs, ident: node.ident.clone(), variants })
    }
}

impl Variant {
    /// Reads the declaration of a variant and those on its fields.
    fn from_syn(node: &VariantNode) -> (r: Result<Variant, SchemaError>)
        ensures
            match r {
                Ok(variant) => variant_of(*node) == Ok::<VariantView, SchemaError>(variant@),
                Err(e) => variant_of(*node) == Err::<VariantView, SchemaError>(e),
            },
    {
        let attrs = match get(&node.attrs) {
            Err(e) => {
                return Err(e);
            },
            Ok(attrs) => attrs,
        };
        let fields = match Field::multiple_from_syn(&node.fields) {
            Err(e) => {
                return Err(e);
            },
            Ok(fields) => fields,
        };
        Ok(Variant { attrs, ident: node.ident.clone(), fields, span: node.span })
    }
}

impl Field {
    /// Reads the fields of a variant in order.
    fn multiple_from_syn(fields: &Vec<FieldNode>) -> (r: Result<Vec<Field>, SchemaError>)
        ensures
            match r {
                Ok(read) => fields_of(fields@, fields@.len() as int) == Ok::<
                    Seq<FieldView>,
                    SchemaError,
                >(fields_view(read@)),
                Err(e) => fields_of(fields@, fields@.len() as int) == Err::<
                    Seq<FieldView>,
                    SchemaError,
                >(e),
            },
    {
        let mut read: Vec<Field> = Vec::new();
        let mut i: usize = 0;
        assert(fields_view(read@) =~= Seq::<FieldView>::empty());
        while i < fields.len()
            invariant
                i <= fields.len(),
                fields_of(fields@, i as int) == Ok::<Seq<FieldView>, SchemaError>(
                    fields_view(read@),
                ),
            decreases fields.len() - i,
        {
            let field = match Field::from_syn(i, &fields[i]) {
                Err(e) => {
                    proof {
                        lemma_fields_error(fields@, i + 1, fields.len() as int);
                    }
                    return Err(e);
                },
                Ok(field) => field,
            };
            proof {
                assert(fields_view(read@.push(field)) =~= fields_view(read@).push(field@));
            }
            read.push(field);
            i += 1;
        }
        Ok(read)
    }

    /// Reads the declaration on the field at position `i`. The field is
    /// known by its name if it has one, and by its position if not.
    fn from_syn(i: usize, node: &FieldNode) -> (r: Result<Field, SchemaError>)
        ensures
            match r {
                Ok(field) => field_of(i as int, *node) == Ok::<FieldView, SchemaError>(field@),
                Err(e) => field_of(i as int, *node) == Err::<FieldView, SchemaError>(e),
            },
    {
        let attrs = match get(&node.attrs) {
            Err(e) => {
                return Err(e);
            },
            Ok(attrs) => attrs,
        };
        let member = match &node.ident {
            Some(name) => Member::Named(name.clone()),
            None => Member::Unnamed(i),
        };
        Ok(Field { attrs, member })
    }
}

/// Once reading the fields has failed, the fields that follow do not change
/// the error.
proof fn lemma_fields_error(nodes: Seq<FieldNode>, n: int, m: int)
    requires
        0 <= n <= m,
        fields_of(nodes, n) is Err,
    ensures
        fields_of(nodes, m) == fields_of(nodes, n),
    decreases m - n,
{
    if n < m {
        lemma_fields_error(nodes, n, m - 1);
    }
}

/// Once reading the variants has failed, the variants that follow do not
/// change the error.
proof fn lemma_variants_error(nodes: Seq<VariantNode>, n: int, m: int, inherited: Option<DeclView>)
    requires
        0 <= n <= m,
        variants_of(nodes, n, inherited) is Err,
    ensures
        variants_of(nodes, m, inherited) == variants_of(nodes, n, inherited),
    decreases m - n,
{
    if n < m {
        lemma_variants_error(nodes, n, m - 1, inherited);
    }
}

} // verus!
