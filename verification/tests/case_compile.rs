use vesta::case_expr::{ArmAction, CaseArm, CaseInput, EntryHead};
use vesta::syntax::{Arm, Expr, Span};

fn span(id: u64) -> Span {
    Span { id }
}

fn arm(id: u64) -> Arm {
    Arm { id }
}

fn scrutinee() -> Expr {
    Expr { id: 0, span: Span { id: 100 } }
}

fn tagged(tag: usize, span_id: u64, arm_id: u64) -> CaseArm {
    CaseArm { tag: Some(tag), tag_span: span(span_id), arm: arm(arm_id) }
}

fn wildcard(span_id: u64, arm_id: u64) -> CaseArm {
    CaseArm { tag: None, tag_span: span(span_id), arm: arm(arm_id) }
}

fn input(arms: Vec<CaseArm>) -> CaseInput {
    CaseInput { scrutinee: scrutinee(), cases_span: span(99), arms }
}

#[test]
fn three_tags_compile() {
    // A case expression `{0 => a, 1(x) => f(x), 2 => b}` over tags {0, 1, 2}
    // compiles with three tag groups and no default.
    let out = input(vec![tagged(0, 1, 10), tagged(1, 2, 11), tagged(2, 3, 12)])
        .compile()
        .expect("covering all tags must compile");
    assert_eq!(out.cases.len(), 3);
    assert_eq!(out.cases[0].tag, 0);
    assert_eq!(out.cases[1].tag, 1);
    assert_eq!(out.cases[2].tag, 2);
    assert!(out.default.is_none());
    assert!(out.unreachable.is_empty());
    assert_eq!(out.cases[1].arms, vec![(span(2), arm(11))]);
}

#[test]
fn missing_middle_tag_fails() {
    // `{0 => a, 2 => b}` misses tag 1 and has no default: it must fail,
    // naming 1.
    let err = input(vec![tagged(0, 1, 10), tagged(2, 2, 11)])
        .compile()
        .expect_err("a gap without a default must not compile");
    assert_eq!(err.span, Span { id: 100 });
    assert_eq!(err.message, "non-exhaustive patterns: `1(_)` not covered");
}

#[test]
fn message_two_missing() {
    let err = input(vec![tagged(0, 1, 10), tagged(2, 2, 11), tagged(4, 3, 12)])
        .compile()
        .expect_err("two gaps must not compile");
    assert_eq!(
        err.message,
        "non-exhaustive patterns: `1(_)` and `3(_)` not covered"
    );
}

#[test]
fn message_three_missing() {
    // Missing tags {1, 3, 4} list with commas and a final ", and".
    let err = input(vec![tagged(0, 1, 10), tagged(2, 2, 11), tagged(5, 3, 12)])
        .compile()
        .expect_err("three gaps must not compile");
    assert_eq!(
        err.message,
        "non-exhaustive patterns: `1(_)`, `3(_)`, and `4(_)` not covered"
    );
}

#[test]
fn default_suppresses_exhaustiveness() {
    // `{5 => a, _ => b}` compiles although tags 0..5 are uncovered.
    let out = input(vec![tagged(5, 1, 10), wildcard(2, 11)])
        .compile()
        .expect("a default arm suppresses the exhaustiveness requirement");
    assert_eq!(out.cases.len(), 1);
    assert_eq!(out.cases[0].tag, 5);
    assert_eq!(out.default, Some((span(2), arm(11))));
    assert!(out.unreachable.is_empty());
}

#[test]
fn order_kept_within_tag() {
    // Two arms share tag 2 (say, separate guards); they stay in source
    // order inside the group, with tag 0 and 1 groups before them.
    let out = input(vec![
        tagged(2, 1, 10),
        tagged(0, 2, 11),
        tagged(2, 3, 12),
        tagged(1, 4, 13),
    ])
    .compile()
    .expect("all tags covered");
    assert_eq!(out.cases.len(), 3);
    assert_eq!(out.cases[2].tag, 2);
    assert_eq!(out.cases[2].arms, vec![(span(1), arm(10)), (span(3), arm(12))]);
    assert_eq!(out.cases[0].arms, vec![(span(2), arm(11))]);
    assert_eq!(out.cases[1].arms, vec![(span(4), arm(13))]);
}

#[test]
fn arms_after_default_are_unreachable() {
    // Everything after the first default arm is sequestered, keeping its
    // own tag for diagnostics.
    let out = input(vec![
        tagged(0, 1, 10),
        wildcard(2, 11),
        tagged(0, 3, 12),
        wildcard(4, 13),
    ])
    .compile()
    .expect("default present");
    assert_eq!(out.default, Some((span(2), arm(11))));
    assert_eq!(out.unreachable, vec![tagged(0, 3, 12), wildcard(4, 13)]);
    // The reachable group for tag 0 holds only the arm before the default.
    assert_eq!(out.cases.len(), 1);
    assert_eq!(out.cases[0].arms, vec![(span(1), arm(10))]);
}

#[test]
fn empty_case_expression_compiles() {
    // No arms at all: no tag is mentioned, so nothing is missing (this is
    // only exhaustive for a type with zero cases, certified separately).
    let out = input(vec![]).compile().expect("no arms, no gaps");
    assert!(out.cases.is_empty());
    assert!(out.default.is_none());
    assert!(out.unreachable.is_empty());
}

#[test]
fn zero_only_compiles() {
    let out = input(vec![tagged(0, 1, 10)]).compile().expect("tag 0 alone");
    assert_eq!(out.cases.len(), 1);
}

#[test]
fn classify_wildcard_entry() {
    let r = CaseArm::classify(&EntryHead::Wildcard { span: span(7) });
    assert_eq!(r.unwrap(), ArmAction::ParseDefault { tag_span: span(7) });
}

#[test]
fn classify_tagged_pattern_entry() {
    let r = CaseArm::classify(&EntryHead::TaggedPattern {
        tag: 3,
        span: span(7),
        pattern_span: span(8),
        pattern_empty: false,
    });
    assert_eq!(r.unwrap(), ArmAction::ParseTagged { tag: 3, tag_span: span(7) });
}

#[test]
fn classify_rejects_empty_parentheses() {
    // `3() => ...` is ambiguous with "no payload" and is rejected at the
    // parentheses' span.
    let r = CaseArm::classify(&EntryHead::TaggedPattern {
        tag: 3,
        span: span(7),
        pattern_span: span(8),
        pattern_empty: true,
    });
    let e = r.expect_err("empty parentheses are rejected");
    assert_eq!(e.span, span(8));
    assert_eq!(e.message, "expected pattern");
}

#[test]
fn classify_bare_tagged_entry() {
    let r = CaseArm::classify(&EntryHead::TaggedBare { tag: 9, span: span(7) });
    assert_eq!(r.unwrap(), ArmAction::ParseBareTagged { tag: 9, tag_span: span(7) });
}

#[test]
fn assemble_rewrites_nothing_but_the_tag() {
    let a = CaseArm::assemble(&ArmAction::ParseDefault { tag_span: span(7) }, arm(42));
    assert_eq!(a, wildcard(7, 42));
    let b = CaseArm::assemble(&ArmAction::ParseTagged { tag: 5, tag_span: span(7) }, arm(42));
    assert_eq!(b, tagged(5, 7, 42));
    let c = CaseArm::assemble(&ArmAction::ParseBareTagged { tag: 5, tag_span: span(7) }, arm(42));
    assert_eq!(c, tagged(5, 7, 42));
}

#[test]
fn large_tag_message() {
    // The decimal rendering of a multi-digit tag appears in full.
    let err = input(vec![tagged(12, 1, 10)])
        .compile()
        .expect_err("tags 0..12 are uncovered");
    assert_eq!(
        err.message,
        "non-exhaustive patterns: `0(_)`, `1(_)`, `2(_)`, `3(_)`, `4(_)`, `5(_)`, \
         `6(_)`, `7(_)`, `8(_)`, `9(_)`, `10(_)`, and `11(_)` not covered"
    );
}
