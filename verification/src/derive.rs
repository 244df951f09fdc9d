//! The variant-derivation engine.
//!
//! Given the declaration of a record type — a struct, or an enum-like
//! ordered list of variants — this module computes the tag assignment (the
//! position of each variant, starting at zero), the ordered payload shape of
//! each variant, and the binding style used by the three primitive
//! operations, while deciding whether the type is closed (a known bound on
//! its tags) or open (explicitly extensible).  A variant with more than one
//! named field is rejected: its fields have no unambiguous tuple order.

use vstd::prelude::*;

use crate::syntax::Span;
use crate::text::{decimal_string, spec_decimal};

verus! {

/// A host identifier, carried by name.
#[derive(Debug, PartialEq, Eq)]
pub struct Ident {
    /// The text of the identifier.
    pub name: String,
}

/// A reference to a host type.
#[derive(Clone, Copy, Debug, PartialEq, Eq, Structural)]
pub enum TypeRef {
    /// The unit type, the payload of unit variants.
    Unit,
    /// An opaque handle to a host type.
    Host(u64),
}

/// One named field of a variant: its name and its type.
#[derive(Debug)]
pub struct NamedField {
    /// The declared field name.
    pub name: Ident,
    /// The field's type.
    pub ty: TypeRef,
}

/// The fields of one variant or struct declaration.
#[derive(Debug)]
pub enum Fields {
    /// Fields declared with names.
    Named(Vec<NamedField>),
    /// Positional fields, declared by type alone.
    Unnamed(Vec<TypeRef>),
    /// No fields at all.
    Unit,
}

/// One variant of an enum-like declaration.
#[derive(Debug)]
pub struct Variant {
    /// The variant's constructor name.
    pub ident: Ident,
    /// The variant's fields.
    pub fields: Fields,
    /// The span of the fields, for diagnostics.
    pub fields_span: Span,
}

/// The binding style the primitive operations use for one case's payload.
#[derive(Debug)]
pub enum Binding {
    /// Positional fields, bound left to right under generated names.
    Positional(Vec<String>),
    /// Named fields, bound by their declared names.
    Named(Vec<Ident>),
}

/// The derived case of one variant: its tag, its ordered payload types, and
/// how the primitive operations bind its fields.
#[derive(Debug)]
pub struct CaseImpl {
    /// The variant's tag: its position in the declaration.
    pub tag: usize,
    /// The ordered types of the payload tuple.
    pub case_types: Vec<TypeRef>,
    /// How extraction and reconstruction bind the fields.
    pub binding: Binding,
}

/// A declaration-shape diagnostic.
#[derive(Debug)]
pub struct DeriveError {
    /// The span the diagnostic points at.
    pub span: Span,
    /// The diagnostic text.
    pub message: String,
}

/// The range marker the derived type receives.
#[derive(Clone, Copy, Debug, PartialEq, Eq, Structural)]
pub enum RangePlan {
    /// The type is closed: its tags lie strictly below this bound.
    Bounded(usize),
    /// The type is open: its tag query may report no known case.
    Unbounded,
}

/// The plan of the derived tag function and range marker.
#[derive(Clone, Copy, Debug, PartialEq, Eq, Structural)]
pub struct MatchPlan {
    /// The number of declared variants; variant `i` reports tag `i`.
    pub num_variants: usize,
    /// The declared range of the type.
    pub range: RangePlan,
    /// Whether the tag function carries a final arm reporting no known
    /// case; only open types have one.
    pub open_fallthrough: bool,
}

/// The whole derivation for one declaration: the tag function plan and one
/// derived case per variant, or the diagnostic of a variant whose shape was
/// rejected.
#[derive(Debug)]
pub struct DerivePlan {
    /// The plan of the derived tag function.
    pub match_plan: MatchPlan,
    /// One derived case per variant, in tag order.
    pub case_impls: Vec<Result<CaseImpl, DeriveError>>,
}

/// A declaration handed to the derivation engine.
#[derive(Debug)]
pub enum Data {
    /// A struct declaration: one implicit variant.
    Struct {
        /// The struct's fields.
        fields: Fields,
        /// The span of the fields, for diagnostics.
        fields_span: Span,
    },
    /// An enum-like declaration.
    Enum {
        /// The declared variants, in order.
        variants: Vec<Variant>,
    },
    /// A union declaration, which has no discriminant at all.
    Union,
}

/// The model of one whole declaration.
#[derive(Debug)]
pub struct DeriveInput {
    /// The declared type's name.
    pub ident: Ident,
    /// The path identifiers of the declaration's attributes.
    pub attrs: Vec<String>,
    /// The declaration itself.
    pub data: Data,
    /// The span of the derivation site, for diagnostics that concern the
    /// whole declaration.
    pub span: Span,
}

/// The ordered payload types of a variant with these fields: a single
/// unit type for a unit variant, the declared types otherwise.
pub open spec fn spec_field_types(fields: Fields) -> Seq<TypeRef> {
    match fields {
        Fields::Named(named) => named@.map_values(|f: NamedField| f.ty),
        Fields::Unnamed(tys) => tys@,
        Fields::Unit => seq![TypeRef::Unit],
    }
}

/// A variant shape the derivation rejects: more than one named field, whose
/// tuple order would be ambiguous.
pub open spec fn rejected_shape(fields: Fields) -> bool {
    fields matches Fields::Named(named) && named@.len() > 1
}

/// The generated name of positional binding `i`.
pub open spec fn spec_positional_name(i: int) -> Seq<char> {
    seq!['x', '_'] + spec_decimal(i as nat)
}

/// What the derived case of one variant holds: the variant's position as
/// its tag, the ordered payload types, and bindings by declared name for
/// named fields (or for no field at all) and by generated positional names
/// otherwise.
pub open spec fn case_impl_matches(n: usize, fields: Fields, ci: CaseImpl) -> bool {
    &&& ci.tag == n
    &&& ci.case_types@ == spec_field_types(fields)
    &&& match fields {
        Fields::Named(named) => ci.binding matches Binding::Named(ns) && ns@.len()
            == named@.len() && (forall|i: int|
            0 <= i < named@.len() ==> (#[trigger] ns@[i]).name@ == named@[i].name.name@),
        Fields::Unnamed(tys) => ci.binding matches Binding::Positional(ns) && ns@.len()
            == tys@.len() && (forall|i: int|
            0 <= i < tys@.len() ==> (#[trigger] ns@[i])@ == spec_positional_name(i)),
        Fields::Unit => ci.binding matches Binding::Named(ns) && ns@.len() == 0,
    }
}

/// The diagnostic for a struct with more than one named field.
pub open spec fn spec_struct_message(name: Seq<char>) -> Seq<char> {
    "cannot derive `Match` for the struct `"@ + name
        + "` with more than one named field\nconsider making `"@ + name
        + "` a tuple struct, or a wrapper for another type with named fields"@
}

/// The diagnostic for an enum variant with more than one named field.
pub open spec fn spec_variant_message(name: Seq<char>, constructor: Seq<char>) -> Seq<char> {
    "cannot derive `Match` for the enum variant `"@ + name + "::"@ + constructor
        + "` with more than one named field\nconsider making `"@ + name + "::"@ + constructor
        + "` a tuple variant, or a wrapper for another type with named fields"@
}

/// The diagnostic for a union declaration.
pub open spec fn spec_union_message() -> Seq<char> {
    "Cannot derive `Match` for a union, since unions lack a tag"@
}

/// What the derivation of a struct declaration yields when its shape is
/// accepted: a closed type with exactly one case, at tag zero.
pub open spec fn struct_plan_matches(fields: Fields, plan: DerivePlan) -> bool {
    &&& plan.match_plan.num_variants == 1
    &&& plan.match_plan.range == RangePlan::Bounded(1usize)
    &&& plan.match_plan.open_fallthrough == false
    &&& plan.case_impls@.len() == 1
    &&& plan.case_impls@[0] matches Ok(ci) && case_impl_matches(0usize, fields, ci)
}

/// What the derivation of an enum declaration yields: position-based tags,
/// a bounded range exactly when the declaration is not marked extensible,
/// and one derived case (or one shape diagnostic) per variant.
pub open spec fn enum_plan_matches(
    exhaustive: bool,
    name: Seq<char>,
    variants: Seq<Variant>,
    plan: DerivePlan,
) -> bool {
    &&& plan.match_plan.num_variants == variants.len()
    &&& plan.match_plan.range == (if exhaustive {
        RangePlan::Bounded(variants.len() as usize)
    } else {
        RangePlan::Unbounded
    })
    &&& plan.match_plan.open_fallthrough == !exhaustive
    &&& plan.case_impls@.len() == variants.len()
    &&& forall|i: int|
        0 <= i < variants.len() ==> {
            let v = variants[i];
            if rejected_shape(v.fields) {
                (#[trigger] plan.case_impls@[i]) matches Err(e) && e.span == v.fields_span
                    && e.message@ == spec_variant_message(name, v.ident.name@)
            } else {
                plan.case_impls@[i] matches Ok(ci) && case_impl_matches(
                    i as usize,
                    v.fields,
                    ci,
                )
            }
        }
}

/// Extract the ordered payload types from a variant's fields, or nothing
/// when more than one field is named.
pub fn ordered_fields_types(fields: &Fields) -> (r: Option<Vec<TypeRef>>)
    ensures
        rejected_shape(*fields) ==> r is None,
        !rejected_shape(*fields) ==> (r matches Some(tys) && tys@ == spec_field_types(*fields)),
{
    match fields {
        Fields::Named(named) => {
            if named.len() > 1 {
                None
            } else {
                let mut tys: Vec<TypeRef> = Vec::new();
                let mut i: usize = 0;
                while i < named.len()
                    invariant
                        i <= named@.len(),
                        tys@.len() == i,
                        forall|j: int| 0 <= j < i ==> tys@[j] == named@[j].ty,
                    decreases named@.len() - i,
                {
                    tys.push(named[i].ty);
                    i = i + 1;
                }
                proof {
                    assert(tys@ =~= named@.map_values(|f: NamedField| f.ty));
                }
                Some(tys)
            }
        },
        Fields::Unnamed(declared) => {
            let mut tys: Vec<TypeRef> = Vec::new();
            let mut i: usize = 0;
            while i < declared.len()
                invariant
                    i <= declared@.len(),
                    tys@.len() == i,
                    forall|j: int| 0 <= j < i ==> tys@[j] == declared@[j],
                decreases declared@.len() - i,
            {
                tys.push(declared[i]);
                i = i + 1;
            }
            proof {
                assert(tys@ =~= declared@);
            }
            Some(tys)
        },
        Fields::Unit => {
            let mut tys: Vec<TypeRef> = Vec::new();
            tys.push(TypeRef::Unit);
            proof {
                assert(tys@ =~= seq![TypeRef::Unit]);
            }
            Some(tys)
        },
    }
}

/// The declared names of named fields, or the number of fields when they
/// are positional.  A unit shape has no fields and no names.
pub fn field_names(fields: &Fields) -> (r: Result<Vec<Ident>, usize>)
    ensures
        match *fields {
            Fields::Named(named) => r matches Ok(ns) && ns@.len() == named@.len() && (forall|
                i: int,
            |
                0 <= i < named@.len() ==> (#[trigger] ns@[i]).name@ == named@[i].name.name@),
            Fields::Unnamed(tys) => tys@.len() <= usize::MAX && r == Err::<Vec<Ident>, usize>(
                tys@.len() as usize,
            ),
            Fields::Unit => r matches Ok(ns) && ns@.len() == 0,
        },
{
    match fields {
        Fields::Named(named) => {
            let mut ns: Vec<Ident> = Vec::new();
            let mut i: usize = 0;
            while i < named.len()
                invariant
                    i <= named@.len(),
                    ns@.len() == i,
                    forall|j: int| 0 <= j < i ==> (#[trigger] ns@[j]).name@ == named@[j].name.name@,
                decreases named@.len() - i,
            {
                ns.push(Ident { name: named[i].name.name.clone() });
                i = i + 1;
            }
            Ok(ns)
        },
        Fields::Unnamed(tys) => Err(tys.len()),
        Fields::Unit => Ok(Vec::new()),
    }
}

/// The generated positional binding names for `k` fields.
fn positional_names(k: usize) -> (ns: Vec<String>)
    ensures
        ns@.len() == k,
        forall|i: int| 0 <= i < k ==> (#[trigger] ns@[i])@ == spec_positional_name(i),
{
    let mut ns: Vec<String> = Vec::new();
    let mut i: usize = 0;
    while i < k
        invariant
            i <= k,
            ns@.len() == i,
            forall|j: int| 0 <= j < i ==> (#[trigger] ns@[j])@ == spec_positional_name(j),
        decreases k - i,
    {
        let mut s = "x_".to_owned();
        let d = decimal_string(i);
        s.append(d.as_str());
        proof {
            reveal_strlit("x_");
            assert(s@ =~= spec_positional_name(i as int));
        }
        ns.push(s);
        i = i + 1;
    }
    ns
}

/// Derive the case of one variant: its payload tuple shape and binding
/// style, bound to tag `n`, or nothing when the shape is rejected.
pub fn case_impl(n: usize, fields: &Fields) -> (r: Option<CaseImpl>)
    ensures
        rejected_shape(*fields) ==> r is None,
        !rejected_shape(*fields) ==> (r matches Some(ci) && case_impl_matches(n, *fields, ci)),
{
    let case_types = match ordered_fields_types(fields) {
        Some(tys) => tys,
        None => {
            return None;
        },
    };
    let binding = match field_names(fields) {
        Ok(ns) => Binding::Named(ns),
        Err(k) => Binding::Positional(positional_names(k)),
    };
    Some(CaseImpl { tag: n, case_types, binding })
}

/// Render the diagnostic for a struct with more than one named field.
fn struct_message(name: &String) -> (s: String)
    ensures
        s@ == spec_struct_message(name@),
{
    let mut s = "cannot derive `Match` for the struct `".to_owned();
    s.append(name.as_str());
    s.append("` with more than one named field\nconsider making `");
    s.append(name.as_str());
    s.append("` a tuple struct, or a wrapper for another type with named fields");
    s
}

/// Render the diagnostic for an enum variant with more than one named
/// field.
fn variant_message(name: &String, constructor: &String) -> (s: String)
    ensures
        s@ == spec_variant_message(name@, constructor@),
{
    let mut s = "cannot derive `Match` for the enum variant `".to_owned();
    s.append(name.as_str());
    s.append("::");
    s.append(constructor.as_str());
    s.append("` with more than one named field\nconsider making `");
    s.append(name.as_str());
    s.append("::");
    s.append(constructor.as_str());
    s.append("` a tuple variant, or a wrapper for another type with named fields");
    s
}

/// Derive the tag function and single case of a struct declaration, whose
/// one variant sits at tag zero, or reject its shape.
pub fn derive_match_struct(ident: &Ident, fields: &Fields, fields_span: Span) -> (r: Result<
    DerivePlan,
    DeriveError,
>)
    ensures
        rejected_shape(*fields) ==> (r matches Err(e) && e.span == fields_span && e.message@
            == spec_struct_message(ident.name@)),
        !rejected_shape(*fields) ==> (r matches Ok(plan) && struct_plan_matches(*fields, plan)),
{
    match case_impl(0, fields) {
        Some(ci) => {
            let mut case_impls: Vec<Result<CaseImpl, DeriveError>> = Vec::new();
            case_impls.push(Ok(ci));
            Ok(
                DerivePlan {
                    match_plan: MatchPlan {
                        num_variants: 1,
                        range: RangePlan::Bounded(1),
                        open_fallthrough: false,
                    },
                    case_impls,
                },
            )
        },
        None => Err(DeriveError { span: fields_span, message: struct_message(&ident.name) }),
    }
}

/// Derive the tag function and cases of an enum declaration: tags are
/// assigned by position, the range is bounded by the variant count exactly
/// when the declaration is not marked extensible, and each variant's case
/// is derived — or its shape rejected — independently.
pub fn derive_match_enum(exhaustive: bool, ident: &Ident, variants: &Vec<Variant>) -> (plan:
    DerivePlan)
    ensures
        enum_plan_matches(exhaustive, ident.name@, variants@, plan),
{
    let num_variants = variants.len();
    let mut case_impls: Vec<Result<CaseImpl, DeriveError>> = Vec::new();
    let mut i: usize = 0;
    while i < variants.len()
        invariant
            i <= variants@.len(),
            case_impls@.len() == i,
            forall|j: int|
                0 <= j < i ==> {
                    let v = variants@[j];
                    if rejected_shape(v.fields) {
                        (#[trigger] case_impls@[j]) matches Err(e) && e.span == v.fields_span
                            && e.message@ == spec_variant_message(ident.name@, v.ident.name@)
                    } else {
                        case_impls@[j] matches Ok(ci) && case_impl_matches(
                            j as usize,
                            v.fields,
                            ci,
                        )
                    }
                },
        decreases variants@.len() - i,
    {
        let v = &variants[i];
        match case_impl(i, &v.fields) {
            Some(ci) => {
                case_impls.push(Ok(ci));
            },
            None => {
                case_impls.push(
                    Err(
                        DeriveError {
                            span: v.fields_span,
                            message: variant_message(&ident.name, &v.ident.name),
                        },
                    ),
                );
            },
        }
        i = i + 1;
    }
    DerivePlan {
        match_plan: MatchPlan {
            num_variants,
            range: if exhaustive {
                RangePlan::Bounded(num_variants)
            } else {
                RangePlan::Unbounded
            },
            open_fallthrough: !exhaustive,
        },
        case_impls,
    }
}

/// Whether the declaration's attributes leave the type exhaustive: no
/// attribute path names the extensibility marker.
fn is_exhaustive(attrs: &Vec<String>) -> (b: bool)
    ensures
        b == (forall|i: int|
            0 <= i < attrs@.len() ==> (#[trigger] attrs@[i])@ != "non_exhaustive"@),
{
    let marker = "non_exhaustive".to_owned();
    let mut i: usize = 0;
    while i < attrs.len()
        invariant
            i <= attrs@.len(),
            marker@ == "non_exhaustive"@,
            forall|j: int| 0 <= j < i ==> (#[trigger] attrs@[j])@ != "non_exhaustive"@,
        decreases attrs@.len() - i,
    {
        let a = &attrs[i];
        if a.eq(&marker) {
            return false;
        }
        i = i + 1;
    }
    true
}

/// Derive the whole plan for one declaration: a struct derives one case, an
/// enum derives one case per variant, and a union is rejected outright
/// since it carries no discriminant.
pub fn derive_match_impl(input: &DeriveInput) -> (r: Result<DerivePlan, DeriveError>)
    ensures
        ({
            let exhaustive = forall|i: int|
                0 <= i < input.attrs@.len() ==> (#[trigger] input.attrs@[i])@
                    != "non_exhaustive"@;
            match input.data {
                Data::Struct { fields, fields_span } => {
                    if rejected_shape(fields) {
                        &&& r matches Err(e)
                        &&& e.span == fields_span
                        &&& e.message@ == spec_struct_message(input.ident.name@)
                    } else {
                        r matches Ok(plan) && struct_plan_matches(fields, plan)
                    }
                },
                Data::Enum { variants } => r matches Ok(plan) && enum_plan_matches(
                    exhaustive,
                    input.ident.name@,
                    variants@,
                    plan,
                ),
                Data::Union => {
                    &&& r matches Err(e)
                    &&& e.span == input.span
                    &&& e.message@ == spec_union_message()
                },
            }
        }),
{
    let exhaustive = is_exhaustive(&input.attrs);
    match &input.data {
        Data::Struct { fields, fields_span } => derive_match_struct(
            &input.ident,
            fields,
            *fields_span,
        ),
        Data::Enum { variants } => Ok(derive_match_enum(exhaustive, &input.ident, variants)),
        Data::Union => Err(
            DeriveError {
                span: input.span,
                message: "Cannot derive `Match` for a union, since unions lack a tag".to_owned(),
            },
        ),
    }
}

} // verus!
