use vesta::derive::{
    derive_match_enum, derive_match_impl, derive_match_struct, field_names, ordered_fields_types,
    Binding, Data, DeriveInput, Fields, Ident, NamedField, RangePlan, TypeRef, Variant,
};
use vesta::syntax::Span;

fn ident(name: &str) -> Ident {
    Ident { name: name.to_string() }
}

fn named(fields: &[(&str, u64)]) -> Fields {
    Fields::Named(
        fields
            .iter()
            .map(|(n, t)| NamedField { name: ident(n), ty: TypeRef::Host(*t) })
            .collect(),
    )
}

fn unnamed(tys: &[u64]) -> Fields {
    Fields::Unnamed(tys.iter().map(|t| TypeRef::Host(*t)).collect())
}

#[test]
fn unit_variant_has_unit_payload() {
    let tys = ordered_fields_types(&Fields::Unit).expect("unit shape is accepted");
    assert_eq!(tys, vec![TypeRef::Unit]);
}

#[test]
fn unnamed_fields_keep_their_order() {
    let tys = ordered_fields_types(&unnamed(&[5, 6, 7])).expect("tuple shape is accepted");
    assert_eq!(tys, vec![TypeRef::Host(5), TypeRef::Host(6), TypeRef::Host(7)]);
}

#[test]
fn one_named_field_projects_to_its_type() {
    let tys = ordered_fields_types(&named(&[("field", 9)])).expect("one named field is accepted");
    assert_eq!(tys, vec![TypeRef::Host(9)]);
}

#[test]
fn two_named_fields_are_rejected() {
    assert!(ordered_fields_types(&named(&[("a", 1), ("b", 2)])).is_none());
}

#[test]
fn field_names_counts_unnamed() {
    assert_eq!(field_names(&unnamed(&[1, 2, 3])), Err(3));
}

#[test]
fn field_names_of_unit_are_empty() {
    let ns = field_names(&Fields::Unit).expect("unit has names");
    assert!(ns.is_empty());
}

#[test]
fn struct_with_one_named_field_derives() {
    let plan = derive_match_struct(&ident("Wrapper"), &named(&[("field", 3)]), Span { id: 1 })
        .expect("one named field derives");
    assert_eq!(plan.match_plan.num_variants, 1);
    assert_eq!(plan.match_plan.range, RangePlan::Bounded(1));
    assert!(!plan.match_plan.open_fallthrough);
    assert_eq!(plan.case_impls.len(), 1);
    let ci = plan.case_impls[0].as_ref().expect("shape accepted");
    assert_eq!(ci.tag, 0);
    assert_eq!(ci.case_types, vec![TypeRef::Host(3)]);
    match &ci.binding {
        Binding::Named(ns) => {
            assert_eq!(ns.len(), 1);
            assert_eq!(ns[0].name, "field");
        },
        Binding::Positional(_) => panic!("named fields bind by name"),
    }
}

#[test]
fn struct_with_two_named_fields_is_rejected() {
    let err = derive_match_struct(&ident("Pair"), &named(&[("a", 1), ("b", 2)]), Span { id: 4 })
        .expect_err("two named fields are ambiguous");
    assert_eq!(err.span, Span { id: 4 });
    assert_eq!(
        err.message,
        "cannot derive `Match` for the struct `Pair` with more than one named field\n\
         consider making `Pair` a tuple struct, or a wrapper for another type with named fields"
    );
}

#[test]
fn enum_assigns_tags_by_position() {
    let variants = vec![
        Variant { ident: ident("A"), fields: Fields::Unit, fields_span: Span { id: 1 } },
        Variant { ident: ident("B"), fields: unnamed(&[7]), fields_span: Span { id: 2 } },
        Variant { ident: ident("C"), fields: named(&[("field", 8)]), fields_span: Span { id: 3 } },
        Variant { ident: ident("D"), fields: unnamed(&[9, 10]), fields_span: Span { id: 4 } },
    ];
    let plan = derive_match_enum(true, &ident("T"), &variants);
    assert_eq!(plan.match_plan.num_variants, 4);
    assert_eq!(plan.match_plan.range, RangePlan::Bounded(4));
    assert!(!plan.match_plan.open_fallthrough);
    assert_eq!(plan.case_impls.len(), 4);
    for (i, ci) in plan.case_impls.iter().enumerate() {
        assert_eq!(ci.as_ref().expect("all shapes accepted").tag, i);
    }
    let d = plan.case_impls[3].as_ref().unwrap();
    assert_eq!(d.case_types, vec![TypeRef::Host(9), TypeRef::Host(10)]);
    match &d.binding {
        Binding::Positional(ns) => assert_eq!(ns, &vec!["x_0".to_string(), "x_1".to_string()]),
        Binding::Named(_) => panic!("tuple fields bind positionally"),
    }
}

#[test]
fn open_enum_gets_fallthrough() {
    let variants = vec![Variant {
        ident: ident("A"),
        fields: Fields::Unit,
        fields_span: Span { id: 1 },
    }];
    let plan = derive_match_enum(false, &ident("T"), &variants);
    assert_eq!(plan.match_plan.range, RangePlan::Unbounded);
    assert!(plan.match_plan.open_fallthrough);
}

#[test]
fn bad_variant_rejected_alone() {
    // One variant with two named fields fails; its siblings still derive.
    let variants = vec![
        Variant { ident: ident("Good"), fields: Fields::Unit, fields_span: Span { id: 1 } },
        Variant {
            ident: ident("Bad"),
            fields: named(&[("a", 1), ("b", 2)]),
            fields_span: Span { id: 2 },
        },
    ];
    let plan = derive_match_enum(true, &ident("T"), &variants);
    assert!(plan.case_impls[0].is_ok());
    let err = plan.case_impls[1].as_ref().expect_err("two named fields rejected");
    assert_eq!(err.span, Span { id: 2 });
    assert_eq!(
        err.message,
        "cannot derive `Match` for the enum variant `T::Bad` with more than one named field\n\
         consider making `T::Bad` a tuple variant, or a wrapper for another type with named fields"
    );
}

#[test]
fn non_exhaustive_attribute_opens_the_type() {
    let decl = DeriveInput {
        ident: ident("T"),
        attrs: vec!["derive".to_string(), "non_exhaustive".to_string()],
        data: Data::Enum {
            variants: vec![Variant {
                ident: ident("A"),
                fields: Fields::Unit,
                fields_span: Span { id: 1 },
            }],
        },
        span: Span { id: 0 },
    };
    let plan = derive_match_impl(&decl).expect("enums derive");
    assert_eq!(plan.match_plan.range, RangePlan::Unbounded);
    assert!(plan.match_plan.open_fallthrough);
}

#[test]
fn plain_enum_is_closed() {
    let decl = DeriveInput {
        ident: ident("T"),
        attrs: vec!["derive".to_string()],
        data: Data::Enum {
            variants: vec![Variant {
                ident: ident("A"),
                fields: Fields::Unit,
                fields_span: Span { id: 1 },
            }],
        },
        span: Span { id: 0 },
    };
    let plan = derive_match_impl(&decl).expect("enums derive");
    assert_eq!(plan.match_plan.range, RangePlan::Bounded(1));
}

#[test]
fn union_is_rejected() {
    let decl = DeriveInput {
        ident: ident("U"),
        attrs: vec![],
        data: Data::Union,
        span: Span { id: 77 },
    };
    let err = derive_match_impl(&decl).expect_err("unions lack a tag");
    assert_eq!(err.span, Span { id: 77 });
    assert_eq!(err.message, "Cannot derive `Match` for a union, since unions lack a tag");
}

#[test]
fn positional_names_render_in_decimal() {
    let variants = vec![Variant {
        ident: ident("Wide"),
        fields: unnamed(&[0, 1, 2, 3, 4, 5, 6, 7, 8, 9, 10, 11]),
        fields_span: Span { id: 1 },
    }];
    let plan = derive_match_enum(true, &ident("T"), &variants);
    let ci = plan.case_impls[0].as_ref().unwrap();
    match &ci.binding {
        Binding::Positional(ns) => {
            assert_eq!(ns.len(), 12);
            assert_eq!(ns[9], "x_9");
            assert_eq!(ns[10], "x_10");
            assert_eq!(ns[11], "x_11");
        },
        Binding::Named(_) => panic!("tuple fields bind positionally"),
    }
}
