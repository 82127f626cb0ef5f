use vstd::prelude::*;
use crate::derive::ast::{Enum, EnumView, Field, FieldView, Input, Variant, VariantView, fields_view, variants_view};
use crate::derive::attr::{Attrs, DeclView, SchemaError, SchemaErrorKind};

verus! {

/// The failure for a declaration that stands where none may stand: on the
/// enumeration itself or on a field.
pub open spec fn misplaced(attrs: Option<DeclView>) -> Result<(), SchemaError> {
    match attrs {
        Some(decl) => Err(SchemaError { kind: SchemaErrorKind::MisplacedMeta, span: decl.span }),
        None => Ok(()),
    }
}

/// Whether the first `n` fields are free of declarations, or the failure for
/// the first one that is not.
pub open spec fn fields_checked(fields: Seq<FieldView>, n: int) -> Result<(), SchemaError>
    decreases n,
{
    if n <= 0 {
        Ok(())
    } else {
        match fields_checked(fields, n - 1) {
            Err(e) => Err(e),
            Ok(()) => misplaced(fields[n - 1].attrs),
        }
    }
}

/// Whether a variant has its declaration and its fields have none. A
/// variant without a declaration is `MissingMeta`, at the variant; a
/// declaration on a field is `MisplacedMeta`, at that declaration.
pub open spec fn variant_checked(variant: VariantView) -> Result<(), SchemaError> {
    if variant.attrs.is_none() {
        Err(SchemaError { kind: SchemaErrorKind::MissingMeta, span: variant.span })
    } else {
        fields_checked(variant.fields, variant.fields.len() as int)
    }
}

/// Whether the first `n` variants are in order, or the failure of the first
/// one that is not.
pub open spec fn variants_checked(variants: Seq<VariantView>, n: int) -> Result<(), SchemaError>
    decreases n,
{
    if n <= 0 {
        Ok(())
    } else {
        match variants_checked(variants, n - 1) {
            Err(e) => Err(e),
            Ok(()) => variant_checked(variants[n - 1]),
        }
    }
}

/// Whether an enumeration is in order: no declaration on the enumeration
/// itself, which would be `MisplacedMeta`, and every variant in order.
pub open spec fn enum_checked(input: EnumView) -> Result<(), SchemaError> {
    match misplaced(input.attrs) {
        Err(e) => Err(e),
        Ok(()) => variants_checked(input.variants, input.variants.len() as int),
    }
}

/// Whether every variant of an enumeration has a declaration.
pub open spec fn all_declared(input: EnumView) -> bool {
    forall|i: int| 0 <= i < input.variants.len() ==> (#[trigger] input.variants[i]).attrs.is_some()
}

impl Input {
    /// Checks where the declarations stand. Fails with the first failure:
    /// `MisplacedMeta` for a declaration on the enumeration itself, then, for
    /// each variant in order, `MissingMeta` if it has none and `MisplacedMeta`
    /// for one on a field of it.
    pub fn validate(&self) -> (r: Result<(), SchemaError>)
        ensures
            r == enum_checked(self@),
    {
        match self {
            Input::Enum(input) => input.validate(),
        }
    }
}

impl Enum {
    /// Checks the enumeration and each of its variants in order.
    pub fn validate(&self) -> (r: Result<(), SchemaError>)
        ensures
            r == enum_checked(self@),
    {
        match check_non_variant_attrs(&self.attrs) {
            Err(e) => {
                return Err(e);
            },
            Ok(()) => {},
        }
        let mut i: usize = 0;
        while i < self.variants.len()
            invariant
                i <= self.variants.len(),
                self@.attrs.is_none(),
                variants_checked(variants_view(self.variants@), i as int) == Ok::<(), SchemaError>(()),
            decreases self.variants.len() - i,
        {
            assert(variants_view(self.variants@)[i as int] == self.variants@[i as int]@);
            match self.variants[i].validate() {
                Err(e) => {
                    proof {
                        lemma_variants_checked_error(
                            variants_view(self.variants@),
                            i + 1,
                            self.variants.len() as int,
                        );
                    }
                    return Err(e);
                },
                Ok(()) => {},
            }
            i += 1;
        }
        Ok(())
    }
}

impl Variant {
    /// Checks that the variant has a declaration and that its fields have
    /// none.
    pub fn validate(&self) -> (r: Result<(), SchemaError>)
        ensures
            r == variant_checked(self@),
    {
        if self.attrs.meta.is_none() {
            return Err(SchemaError { kind: SchemaErrorKind::MissingMeta, span: self.span });
        }
        let mut i: usize = 0;
        while i < self.fields.len()
            invariant
                i <= self.fields.len(),
                self@.attrs.is_some(),
                fields_checked(fields_view(self.fields@), i as int) == Ok::<(), SchemaError>(()),
            decreases self.fields.len() - i,
        {
            assert(fields_view(self.fields@)[i as int] == self.fields@[i as int]@);
            match self.fields[i].validate() {
                Err(e) => {
                    proof {
                        lemma_fields_checked_error(
                            fields_view(self.fields@),
                            i + 1,
                            self.fields.len() as int,
                        );
                    }
                    return Err(e);
                },
                Ok(()) => {},
            }
            i += 1;
        }
        Ok(())
    }
}

impl Field {
    /// Checks that no declaration stands on the field.
    pub fn validate(&self) -> (r: Result<(), SchemaError>)
        ensures
            r == misplaced(self@.attrs),
    {
        check_non_variant_attrs(&self.attrs)
    }
}

/// Checks the attributes of something that is no variant: a declaration
/// there is `MisplacedMeta`, at that declaration.
fn check_non_variant_attrs(attrs: &Attrs) -> (r: Result<(), SchemaError>)
    ensures
        r == misplaced(attrs@),
{
    if let Some(meta) = &attrs.meta {
        return Err(SchemaError { kind: SchemaErrorKind::MisplacedMeta, span: meta.span });
    }
    Ok(())
}

/// Once a field has failed the check, the fields that follow do not change
/// the error.
proof fn lemma_fields_checked_error(fields: Seq<FieldView>, n: int, m: int)
    requires
        0 <= n <= m,
        fields_checked(fields, n) is Err,
    ensures
        fields_checked(fields, m) == fields_checked(fields, n),
    decreases m - n,
{
    if n < m {
        lemma_fields_checked_error(fields, n, m - 1);
    }
}

/// Once a variant has failed the check, the variants that follow do not
/// change the error.
pub(crate) proof fn lemma_variants_checked_error(variants: Seq<VariantView>, n: int, m: int)
    requires
        0 <= n <= m,
        variants_checked(variants, n) is Err,
    ensures
        variants_checked(variants, m) == variants_checked(variants, n),
    decreases m - n,
{
    if n < m {
        lemma_variants_checked_error(variants, n, m - 1);
    }
}

/// An enumeration that passes the check has a declaration on every variant,
/// and none on itself.
pub(crate) proof fn lemma_checked_all_declared(input: EnumView)
    requires
        enum_checked(input).is_ok(),
    ensures
        input.attrs.is_none(),
        all_declared(input),
{
    assert forall|i: int| 0 <= i < input.variants.len() implies (#[trigger] input.variants[i]).attrs.is_some() by {
        lemma_variants_checked_prefix(input.variants, i + 1, input.variants.len() as int);
    }
}

/// If the first `m` variants pass the check, so do the first `n` of them.
proof fn lemma_variants_checked_prefix(variants: Seq<VariantView>, n: int, m: int)
    requires
        0 <= n <= m,
        variants_checked(variants, m).is_ok(),
    ensures
        variants_checked(variants, n).is_ok(),
    decreases m - n,
{
    if n < m {
        lemma_variants_checked_prefix(variants, n, m - 1);
    }
}

} // verus!
