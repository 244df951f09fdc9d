use vesta::case_expr::{CaseArm, CaseInput};
use vesta::dispatch::PlannedArm;
use vesta::path::{vesta_path_choice, CrateLookup, PathPlan};
use vesta::syntax::{Arm, Expr, Span};

fn span(id: u64) -> Span {
    Span { id }
}

fn arm(id: u64) -> Arm {
    Arm { id }
}

fn input(arms: Vec<CaseArm>) -> CaseInput {
    CaseInput {
        scrutinee: Expr { id: 0, span: span(100) },
        cases_span: span(99),
        arms,
    }
}

fn tagged(tag: usize, span_id: u64, arm_id: u64) -> CaseArm {
    CaseArm { tag: Some(tag), tag_span: span(span_id), arm: arm(arm_id) }
}

fn wildcard(span_id: u64, arm_id: u64) -> CaseArm {
    CaseArm { tag: None, tag_span: span(span_id), arm: arm(arm_id) }
}

#[test]
fn exhaustive_plan_certifies_bound() {
    // Tags {0, 1, 2}, no default: three outer arms, then a fallthrough
    // statically certified for bound 3 — nothing fallible anywhere.
    let out = input(vec![tagged(0, 1, 10), tagged(1, 2, 11), tagged(2, 3, 12)])
        .compile()
        .expect("covering all tags compiles");
    let plan = out.dispatch_plan();
    assert_eq!(plan.scrutinee, Expr { id: 0, span: span(100) });
    assert_eq!(plan.cases_span, span(99));
    assert_eq!(plan.arms.len(), 4);
    for (i, pa) in plan.arms.iter().take(3).enumerate() {
        match pa {
            PlannedArm::Tagged { tag, inner, inherited_default } => {
                assert_eq!(*tag, i);
                assert_eq!(inner.len(), 1);
                assert!(inherited_default.is_none());
            },
            _ => panic!("the first arms dispatch on tags"),
        }
    }
    match &plan.arms[3] {
        PlannedArm::Fallthrough { bound } => assert_eq!(*bound, 3),
        _ => panic!("an exhaustive dispatch ends in a certified fallthrough"),
    }
}

#[test]
fn default_plan_carries_default() {
    // With a default arm the governing arm is the default itself, and each
    // tag group inherits a copy of it.
    let out = input(vec![tagged(4, 1, 10), wildcard(2, 11)])
        .compile()
        .expect("default suppresses exhaustiveness");
    let plan = out.dispatch_plan();
    assert_eq!(plan.arms.len(), 2);
    match &plan.arms[0] {
        PlannedArm::Tagged { tag, inherited_default, .. } => {
            assert_eq!(*tag, 4);
            assert_eq!(*inherited_default, Some(arm(11)));
        },
        _ => panic!("tag groups come first"),
    }
    match &plan.arms[1] {
        PlannedArm::Default { arm: a } => assert_eq!(*a, arm(11)),
        _ => panic!("the default arm governs"),
    }
}

#[test]
fn empty_dispatch_certifies_zero() {
    let out = input(vec![]).compile().expect("no arms, no gaps");
    let plan = out.dispatch_plan();
    assert_eq!(plan.arms.len(), 1);
    match &plan.arms[0] {
        PlannedArm::Fallthrough { bound } => assert_eq!(*bound, 0),
        _ => panic!("zero mentioned tags certify a bound of zero"),
    }
}

#[test]
fn unreachable_arms_are_still_planned() {
    // Arms after the default are emitted, each in its own sub-match, so the
    // host compiler reports them as unreachable; and a tag mentioned only
    // there still counts toward nothing, since the default exists.
    let out = input(vec![tagged(0, 1, 10), wildcard(2, 11), tagged(7, 3, 12), wildcard(4, 13)])
        .compile()
        .expect("default present");
    let plan = out.dispatch_plan();
    assert_eq!(plan.arms.len(), 4);
    match &plan.arms[2] {
        PlannedArm::UnreachableTagged { tag, tag_span, arm: a } => {
            assert_eq!(*tag, 7);
            assert_eq!(*tag_span, span(3));
            assert_eq!(*a, arm(12));
        },
        _ => panic!("tagged unreachable arms keep their tag"),
    }
    match &plan.arms[3] {
        PlannedArm::UnreachableUntagged { arm: a } => assert_eq!(*a, arm(13)),
        _ => panic!("untagged unreachable arms are kept as they stand"),
    }
}

#[test]
fn path_choice_follows_lookup() {
    assert!(matches!(
        vesta_path_choice(CrateLookup::Itself, true),
        PathPlan::SelfReexport
    ));
    assert!(matches!(vesta_path_choice(CrateLookup::Itself, false), PathPlan::Absolute));
    assert!(matches!(vesta_path_choice(CrateLookup::Unknown, false), PathPlan::Absolute));
    match vesta_path_choice(CrateLookup::Named("my_vesta".to_string()), false) {
        PathPlan::Renamed(n) => assert_eq!(n, "my_vesta"),
        _ => panic!("a renamed dependency is named as renamed"),
    }
}
