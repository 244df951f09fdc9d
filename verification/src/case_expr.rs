//! The case-expression compiler.
//!
//! A case expression is a scrutinee followed by a sequence of arms, each
//! labelled with an integer tag or with the wildcard.  [`CaseArm::classify`]
//! decides, from the first tokens of one entry, how the entry is parsed.
//! [`CaseInput::compile`] groups the parsed arms by tag, separates the first
//! default arm, decides exhaustiveness, and either yields a [`CaseOutput`]
//! dispatch description or fails with a diagnostic that names every missing
//! tag.

use vstd::prelude::*;

use crate::syntax::{Arm, Expr, Span};
use crate::text::{
    contains_seq, decimal_string, lemma_contains_left, lemma_contains_right, lemma_contains_self,
    lemma_contains_trans, spec_decimal,
};

verus! {

/// One parsed arm of a case expression: an optional tag (`None` marks the
/// default arm), the source span of the tag (or of the wildcard token), and
/// the host arm that follows it.
#[derive(Clone, Copy, Debug, PartialEq, Eq, Structural)]
pub struct CaseArm {
    /// The tag for this case, or `None` if the case was a catch-all case.
    pub tag: Option<usize>,
    /// The span for the tag.
    pub tag_span: Span,
    /// The host arm for the case: the pattern following the tag, its arrow
    /// and its body.
    pub arm: Arm,
}

/// What the front of one case entry looks like, before the host arm that
/// follows it is parsed.
#[derive(Clone, Copy, Debug, PartialEq, Eq, Structural)]
pub enum EntryHead {
    /// The entry begins with the wildcard token.
    Wildcard {
        /// The span of the wildcard token.
        span: Span,
    },
    /// The entry begins with the integer literal `tag`, followed by
    /// parentheses holding the payload pattern.
    TaggedPattern {
        /// The value of the tag literal.
        tag: usize,
        /// The span of the tag literal.
        span: Span,
        /// The span of the parenthesized contents.
        pattern_span: Span,
        /// Whether the parentheses are empty.
        pattern_empty: bool,
    },
    /// The entry begins with the integer literal `tag` not followed by
    /// parentheses.
    TaggedBare {
        /// The value of the tag literal.
        tag: usize,
        /// The span of the tag literal.
        span: Span,
    },
}

/// How the remainder of one case entry is to be parsed, as decided by
/// [`CaseArm::classify`].
#[derive(Clone, Copy, Debug, PartialEq, Eq, Structural)]
pub enum ArmAction {
    /// Parse a host arm as it stands; the entry is the default arm, and its
    /// pattern is the wildcard itself.
    ParseDefault {
        /// The span of the wildcard token, recorded as the tag span.
        tag_span: Span,
    },
    /// Consume the tag literal, then parse a host arm whose pattern is the
    /// parenthesized payload pattern.
    ParseTagged {
        /// The value of the tag.
        tag: usize,
        /// The span of the tag literal.
        tag_span: Span,
    },
    /// Leave the tag literal in place and parse a host arm, so that the
    /// literal serves as its pattern; then replace that pattern with a
    /// wildcard at the tag's span, since the tag itself already carries the
    /// matching information.
    ParseBareTagged {
        /// The value of the tag.
        tag: usize,
        /// The span of the tag literal.
        tag_span: Span,
    },
}

/// A parse diagnostic, tied to the offending span.
#[derive(Clone, Debug)]
pub struct ParseError {
    /// The span the diagnostic points at.
    pub span: Span,
    /// The diagnostic text.
    pub message: String,
}

impl CaseArm {
    /// Decide, from the head of one entry, how the entry is to be parsed.
    ///
    /// A wildcard head is the default arm.  A tagged head followed by a
    /// non-empty parenthesized pattern consumes the tag and parses the
    /// parenthesized pattern; empty parentheses are rejected, since they
    /// would be ambiguous with "no payload".  A tagged head with no
    /// parentheses leaves the literal in place for the host arm grammar and
    /// rewrites the resulting pattern to a wildcard.
    pub fn classify(head: &EntryHead) -> (r: Result<ArmAction, ParseError>)
        ensures
            match *head {
                EntryHead::Wildcard { span } => r == Ok::<ArmAction, ParseError>(
                    ArmAction::ParseDefault { tag_span: span },
                ),
                EntryHead::TaggedPattern { tag, span, pattern_span, pattern_empty } => {
                    if pattern_empty {
                        &&& r matches Err(e)
                        &&& e.span == pattern_span
                        &&& e.message@ == "expected pattern"@
                    } else {
                        r == Ok::<ArmAction, ParseError>(
                            ArmAction::ParseTagged { tag, tag_span: span },
                        )
                    }
                },
                EntryHead::TaggedBare { tag, span } => r == Ok::<ArmAction, ParseError>(
                    ArmAction::ParseBareTagged { tag, tag_span: span },
                ),
            },
    {
        match *head {
            EntryHead::Wildcard { span } => Ok(ArmAction::ParseDefault { tag_span: span }),
            EntryHead::TaggedPattern { tag, span, pattern_span, pattern_empty } => {
                if pattern_empty {
                    Err(
                        ParseError {
                            span: pattern_span,
                            message: "expected pattern".to_owned(),
                        },
                    )
                } else {
                    Ok(ArmAction::ParseTagged { tag, tag_span: span })
                }
            },
            EntryHead::TaggedBare { tag, span } => Ok(
                ArmAction::ParseBareTagged { tag, tag_span: span },
            ),
        }
    }

    /// Assemble the parsed case arm from the decided action and the host arm
    /// that was parsed after it.
    pub fn assemble(action: &ArmAction, arm: Arm) -> (r: CaseArm)
        ensures
            match *action {
                ArmAction::ParseDefault { tag_span } => r == (CaseArm {
                    tag: None,
                    tag_span,
                    arm,
                }),
                ArmAction::ParseTagged { tag, tag_span } => r == (CaseArm {
                    tag: Some(tag),
                    tag_span,
                    arm,
                }),
                ArmAction::ParseBareTagged { tag, tag_span } => r == (CaseArm {
                    tag: Some(tag),
                    tag_span,
                    arm,
                }),
            },
    {
        match *action {
            ArmAction::ParseDefault { tag_span } => CaseArm { tag: None, tag_span, arm },
            ArmAction::ParseTagged { tag, tag_span } => CaseArm { tag: Some(tag), tag_span, arm },
            ArmAction::ParseBareTagged { tag, tag_span } => CaseArm {
                tag: Some(tag),
                tag_span,
                arm,
            },
        }
    }
}

/// The input to the case-expression compiler: the scrutinee, the span of the
/// braces wrapping the cases, and the parsed arms in source order.
#[derive(Clone, Debug)]
pub struct CaseInput {
    /// The scrutinee: the expression upon which the match is made.
    pub scrutinee: Expr,
    /// The span of the braces wrapping all the cases.
    pub cases_span: Span,
    /// The cases, in source order.
    pub arms: Vec<CaseArm>,
}

/// The arms of one tag, in source order.
#[derive(Clone, Debug)]
pub struct TagGroup {
    /// The tag these arms belong to.
    pub tag: usize,
    /// The arms for this tag, each with the span of its tag literal,
    /// ordered as they were listed in the input.
    pub arms: Vec<(Span, Arm)>,
}

/// The output of the case-expression compiler, ready to be rendered into a
/// two-level dispatch.
#[derive(Clone, Debug)]
pub struct CaseOutput {
    /// The scrutinee of the case expression.
    pub scrutinee: Expr,
    /// The span of the braces wrapping all the cases.
    pub cases_span: Span,
    /// The reachable cases, one group per distinct tag, ordered by tag.
    pub cases: Vec<TagGroup>,
    /// The default case, if there was any: the first arm with no tag.
    pub default: Option<(Span, Arm)>,
    /// All the arms listed after the first default arm, kept so that
    /// generated code can report them as unreachable.
    pub unreachable: Vec<CaseArm>,
}

/// An exhaustiveness diagnostic, attributed to the scrutinee's span.
#[derive(Clone, Debug)]
pub struct CompileError {
    /// The span the diagnostic points at.
    pub span: Span,
    /// The diagnostic text, naming every missing tag.
    pub message: String,
}

/// The number of arms before the first default arm: the arms that take part
/// in dispatch.
pub open spec fn active_len(arms: Seq<CaseArm>) -> int
    decreases arms.len(),
{
    if arms.len() == 0 {
        0
    } else if arms[0].tag is None {
        0
    } else {
        1 + active_len(arms.skip(1))
    }
}

/// Whether the case expression has a default arm.
pub open spec fn has_default(arms: Seq<CaseArm>) -> bool {
    active_len(arms) < arms.len()
}

/// The first default arm, if any.
pub open spec fn default_of(arms: Seq<CaseArm>) -> Option<(Span, Arm)> {
    if has_default(arms) {
        Some((arms[active_len(arms)].tag_span, arms[active_len(arms)].arm))
    } else {
        None
    }
}

/// The arms listed after the first default arm.
pub open spec fn unreachable_of(arms: Seq<CaseArm>) -> Seq<CaseArm> {
    if has_default(arms) {
        arms.skip(active_len(arms) + 1)
    } else {
        Seq::empty()
    }
}

/// Tag `t` appears on one of the first `n` arms.
pub open spec fn covered_in(arms: Seq<CaseArm>, n: int, t: usize) -> bool {
    exists|j: int| 0 <= j < n && (#[trigger] arms[j]).tag == Some(t)
}

/// Tag `t` appears on an arm that takes part in dispatch.
pub open spec fn covered(arms: Seq<CaseArm>, t: usize) -> bool {
    covered_in(arms, active_len(arms), t)
}

/// The greatest tag among the first `n` arms, if any arm there is tagged.
pub open spec fn max_tag(arms: Seq<CaseArm>, n: int) -> Option<usize>
    decreases n,
{
    if n <= 0 {
        None
    } else {
        let rest = max_tag(arms, n - 1);
        match arms[n - 1].tag {
            None => rest,
            Some(t) => match rest {
                None => Some(t),
                Some(m) => Some(if t > m { t } else { m }),
            },
        }
    }
}

/// The tags below `k` that no one of the first `n` arms covers, in
/// ascending order.
pub open spec fn missing_below(arms: Seq<CaseArm>, n: int, k: int) -> Seq<usize>
    decreases k,
{
    if k <= 0 {
        Seq::empty()
    } else {
        missing_below(arms, n, k - 1) + (if covered_in(arms, n, (k - 1) as usize) {
            Seq::empty()
        } else {
            seq![(k - 1) as usize]
        })
    }
}

/// The missing tags of the case expression: every tag from zero up to the
/// greatest tag mentioned that no arm covers — but only when there is no
/// default arm, since a default makes every gap reachable.
pub open spec fn spec_missing(arms: Seq<CaseArm>) -> Seq<usize> {
    let n = active_len(arms);
    if n < arms.len() {
        Seq::empty()
    } else {
        match max_tag(arms, n) {
            None => Seq::empty(),
            Some(m) => missing_below(arms, n, m + 1),
        }
    }
}

/// The `(span, arm)` pairs of the arms among the first `n` that carry tag
/// `t`, in source order.
pub open spec fn group_spec(arms: Seq<CaseArm>, n: int, t: usize) -> Seq<(Span, Arm)>
    decreases n,
{
    if n <= 0 {
        Seq::empty()
    } else {
        let prev = group_spec(arms, n - 1, t);
        if arms[n - 1].tag == Some(t) {
            prev.push((arms[n - 1].tag_span, arms[n - 1].arm))
        } else {
            prev
        }
    }
}

/// The rendering of one missing tag in the diagnostic: the tag in decimal,
/// wrapped as a pattern over any payload.
pub open spec fn spec_tag_pattern(t: usize) -> Seq<char> {
    seq!['`'] + spec_decimal(t as nat) + seq!['(', '_', ')', '`']
}

/// The separator written before item `i` of a list of `k` rendered tags:
/// a comma between inner items, "and" before the last, with the comma kept
/// before "and" only when more than two items are listed.
pub open spec fn spec_sep(i: int, k: int) -> Seq<char> {
    if i == k - 1 {
        if k > 2 {
            seq![',', ' ', 'a', 'n', 'd', ' ']
        } else {
            seq![' ', 'a', 'n', 'd', ' ']
        }
    } else {
        seq![',', ' ']
    }
}

/// The rendering of the first `upto` items of the missing-tag list `tags`.
pub open spec fn spec_tag_list(tags: Seq<usize>, upto: int) -> Seq<char>
    decreases upto,
{
    if upto <= 0 {
        Seq::empty()
    } else if upto == 1 {
        spec_tag_pattern(tags[0])
    } else {
        spec_tag_list(tags, upto - 1) + spec_sep(upto - 1, tags.len() as int) + spec_tag_pattern(
            tags[upto - 1],
        )
    }
}

/// The whole exhaustiveness diagnostic for the missing tags `tags`.
pub open spec fn spec_missing_message(tags: Seq<usize>) -> Seq<char> {
    "non-exhaustive patterns: "@ + spec_tag_list(tags, tags.len() as int) + " not covered"@
}

/// What it means for `out` to be the compiled form of `input`: the first
/// default arm is separated out, every arm after it is kept as unreachable,
/// and the remaining arms are grouped by tag, groups ordered by tag and each
/// group keeping its arms in source order.
pub open spec fn compiles_to(input: CaseInput, out: CaseOutput) -> bool {
    let arms = input.arms@;
    let n = active_len(arms);
    &&& out.scrutinee == input.scrutinee
    &&& out.cases_span == input.cases_span
    &&& out.default == default_of(arms)
    &&& out.unreachable@ == unreachable_of(arms)
    &&& forall|p: int, q: int|
        0 <= p < q < out.cases@.len() ==> out.cases@[p].tag < out.cases@[q].tag
    &&& forall|p: int| 0 <= p < out.cases@.len() ==> covered(arms, (#[trigger] out.cases@[p]).tag)
    &&& forall|t: usize|
        covered(arms, t) ==> exists|p: int|
            0 <= p < out.cases@.len() && (#[trigger] out.cases@[p]).tag == t
    &&& forall|p: int|
        0 <= p < out.cases@.len() ==> (#[trigger] out.cases@[p]).arms@ == group_spec(
            arms,
            n,
            out.cases@[p].tag,
        )
}

/// The scan that stops at the first untagged arm finds `active_len`.
pub proof fn lemma_active_len_from_scan(arms: Seq<CaseArm>, n: int)
    requires
        0 <= n <= arms.len(),
        forall|j: int| 0 <= j < n ==> (#[trigger] arms[j]).tag is Some,
        n < arms.len() ==> arms[n].tag is None,
    ensures
        active_len(arms) == n,
    decreases n,
{
    if n > 0 {
        assert(arms[0].tag is Some);
        assert forall|j: int| 0 <= j < n - 1 implies (#[trigger] arms.skip(1)[j]).tag is Some by {
            assert(arms.skip(1)[j] == arms[j + 1]);
        }
        if n - 1 < arms.skip(1).len() {
            assert(arms.skip(1)[n - 1] == arms[n]);
        }
        lemma_active_len_from_scan(arms.skip(1), n - 1);
    }
}

/// A tag covered within a prefix is covered within any longer prefix.
pub proof fn lemma_covered_mono(arms: Seq<CaseArm>, m: int, n: int, t: usize)
    requires
        m <= n,
        covered_in(arms, m, t),
    ensures
        covered_in(arms, n, t),
{
    let j = choose|j: int| 0 <= j < m && (#[trigger] arms[j]).tag == Some(t);
    assert(0 <= j < n && (arms[j]).tag == Some(t));
}

/// Taking one more arm into account covers exactly the tags covered before,
/// plus that arm's own tag.
pub proof fn lemma_covered_step(arms: Seq<CaseArm>, i: int, t: usize)
    requires
        0 <= i < arms.len(),
    ensures
        covered_in(arms, i + 1, t) <==> (covered_in(arms, i, t) || arms[i].tag == Some(t)),
{
    if covered_in(arms, i + 1, t) {
        let j = choose|j: int| 0 <= j < i + 1 && (#[trigger] arms[j]).tag == Some(t);
        if j < i {
            assert(covered_in(arms, i, t));
        }
    }
    if covered_in(arms, i, t) {
        lemma_covered_mono(arms, i, i + 1, t);
    }
    if arms[i].tag == Some(t) {
        assert(0 <= i < i + 1 && (arms[i]).tag == Some(t));
    }
}

/// `max_tag` is `None` exactly when no tag is covered, and otherwise is a
/// covered tag at least as large as every covered tag.
pub proof fn lemma_max_tag_props(arms: Seq<CaseArm>, n: int)
    requires
        0 <= n <= arms.len(),
    ensures
        max_tag(arms, n) is None ==> forall|t: usize| !covered_in(arms, n, t),
        max_tag(arms, n) matches Some(m) ==> covered_in(arms, n, m) && (forall|t: usize|
            covered_in(arms, n, t) ==> t <= m),
    decreases n,
{
    if n <= 0 {
        assert forall|t: usize| !covered_in(arms, n, t) by {
            if covered_in(arms, n, t) {
                let j = choose|j: int| 0 <= j < n && (#[trigger] arms[j]).tag == Some(t);
                assert(false);
            }
        }
    } else {
        lemma_max_tag_props(arms, n - 1);
        assert forall|t: usize| covered_in(arms, n, t) implies (covered_in(arms, n - 1, t)
            || arms[n - 1].tag == Some(t)) by {
            lemma_covered_step(arms, n - 1, t);
        }
        match arms[n - 1].tag {
            None => {
                match max_tag(arms, n - 1) {
                    None => {},
                    Some(m) => {
                        lemma_covered_mono(arms, n - 1, n, m);
                    },
                }
            },
            Some(tn) => {
                assert(covered_in(arms, n, tn)) by {
                    assert(0 <= n - 1 < n && (arms[n - 1]).tag == Some(tn));
                }
                match max_tag(arms, n - 1) {
                    None => {},
                    Some(m) => {
                        lemma_covered_mono(arms, n - 1, n, m);
                    },
                }
            },
        }
    }
}

/// Inserting `t` at its sorted position keeps a strictly ascending sequence
/// strictly ascending, and adds exactly `t` to its elements.
proof fn lemma_sorted_insert(s: Seq<usize>, p: int, t: usize)
    requires
        0 <= p <= s.len(),
        forall|a: int, b: int| 0 <= a < b < s.len() ==> s[a] < s[b],
        forall|q: int| 0 <= q < p ==> s[q] < t,
        p < s.len() ==> s[p] > t,
    ensures
        forall|a: int, b: int|
            0 <= a < b < s.insert(p, t).len() ==> s.insert(p, t)[a] < s.insert(p, t)[b],
        forall|x: usize| s.insert(p, t).contains(x) <==> (s.contains(x) || x == t),
    decreases s.len(),
{
    s.insert_ensures(p, t);
    let r = s.insert(p, t);
    assert forall|a: int, b: int| 0 <= a < b < r.len() implies r[a] < r[b] by {
        if a > p {
            assert(r[(a - 1) + 1] == s[a - 1]);
        }
        if b > p {
            assert(r[(b - 1) + 1] == s[b - 1]);
        }
    }
    assert forall|x: usize| r.contains(x) implies (s.contains(x) || x == t) by {
        let i = choose|i: int| 0 <= i < r.len() && r[i] == x;
        if i < p {
            assert(s[i] == x);
        } else if i > p {
            assert(r[(i - 1) + 1] == s[i - 1]);
            assert(s[i - 1] == x);
        }
    }
    assert forall|x: usize| s.contains(x) || x == t implies r.contains(x) by {
        if x == t {
            assert(r[p] == t);
        } else {
            let i = choose|i: int| 0 <= i < s.len() && s[i] == x;
            if i < p {
                assert(r[i] == s[i]);
            } else {
                assert(r[i + 1] == s[i]);
            }
        }
    }
}

/// When every tag below `k` is covered, no tag below `k` is missing.
pub proof fn lemma_missing_below_covered(arms: Seq<CaseArm>, n: int, k: int)
    requires
        forall|t: usize| t < k ==> covered_in(arms, n, t),
    ensures
        missing_below(arms, n, k).len() == 0,
    decreases k,
{
    if k > 0 {
        lemma_missing_below_covered(arms, n, k - 1);
        assert(covered_in(arms, n, (k - 1) as usize));
    }
}

/// An uncovered tag below `k` appears among the missing tags below `k`.
pub proof fn lemma_missing_below_contains(arms: Seq<CaseArm>, n: int, t: usize, k: int)
    requires
        !covered_in(arms, n, t),
        t < k,
    ensures
        missing_below(arms, n, k).contains(t),
    decreases k,
{
    let mb = missing_below(arms, n, k);
    if t == k - 1 {
        assert(mb[mb.len() - 1] == t);
    } else {
        lemma_missing_below_contains(arms, n, t, k - 1);
        let prev = missing_below(arms, n, k - 1);
        let i = choose|i: int| 0 <= i < prev.len() && prev[i] == t;
        assert(mb[i] == t);
    }
}

/// Whether `t` is among the collected tags.
fn contains_tag(tags: &Vec<usize>, t: usize) -> (b: bool)
    ensures
        b == tags@.contains(t),
{
    let mut p: usize = 0;
    while p < tags.len()
        invariant
            p <= tags@.len(),
            forall|q: int| 0 <= q < p ==> tags@[q] != t,
        decreases tags@.len() - p,
    {
        if tags[p] == t {
            assert(tags@[p as int] == t);
            return true;
        }
        p = p + 1;
    }
    proof {
        if tags@.contains(t) {
            let i = choose|i: int| 0 <= i < tags@.len() && tags@[i] == t;
            assert(false);
        }
    }
    false
}

/// Render the exhaustiveness diagnostic for the missing tags `missing`.
fn missing_message(missing: &Vec<usize>) -> (s: String)
    ensures
        s@ == spec_missing_message(missing@),
{
    let k = missing.len();
    let mut patterns = String::new();
    let mut n: usize = 0;
    while n < k
        invariant
            n <= k,
            k == missing@.len(),
            patterns@ == spec_tag_list(missing@, n as int),
        decreases k - n,
    {
        if n > 0 {
            if n == k - 1 {
                if k - 1 > 1 {
                    patterns.append(",");
                }
                patterns.append(" and ");
            } else {
                patterns.append(", ");
            }
            proof {
                reveal_strlit(",");
                reveal_strlit(" and ");
                reveal_strlit(", ");
                if n == k - 1 {
                    if k > 2 {
                        assert(","@ + " and "@ =~= spec_sep(n as int, k as int));
                    } else {
                        assert(" and "@ =~= spec_sep(n as int, k as int));
                    }
                } else {
                    assert(", "@ =~= spec_sep(n as int, k as int));
                }
            }
        }
        patterns.append("`");
        let d = decimal_string(missing[n]);
        patterns.append(d.as_str());
        patterns.append("(_)`");
        proof {
            reveal_strlit("`");
            reveal_strlit("(_)`");
            assert("`"@ =~= seq!['`']);
            assert("(_)`"@ =~= seq!['(', '_', ')', '`']);
            if n == 0 {
                assert(patterns@ =~= spec_tag_list(missing@, n + 1));
            } else {
                assert(patterns@ =~= spec_tag_list(missing@, n + 1));
            }
        }
        n = n + 1;
    }
    let mut s = "non-exhaustive patterns: ".to_owned();
    s.append(patterns.as_str());
    s.append(" not covered");
    s
}

/// `active_len` never exceeds the number of arms.
pub proof fn lemma_active_len_bounds(arms: Seq<CaseArm>)
    ensures
        0 <= active_len(arms) <= arms.len(),
    decreases arms.len(),
{
    if arms.len() > 0 && arms[0].tag is Some {
        lemma_active_len_bounds(arms.skip(1));
    }
}

/// Item `j` of the rendered missing-tag list occurs in the rendering.
proof fn lemma_tag_list_contains(tags: Seq<usize>, upto: int, j: int)
    requires
        0 <= j < upto <= tags.len(),
    ensures
        contains_seq(spec_tag_list(tags, upto), spec_tag_pattern(tags[j])),
    decreases upto,
{
    let pat = spec_tag_pattern(tags[j]);
    if upto == 1 {
        lemma_contains_self(pat);
    } else if j == upto - 1 {
        lemma_contains_self(pat);
        lemma_contains_right(
            spec_tag_list(tags, upto - 1) + spec_sep(upto - 1, tags.len() as int),
            pat,
            pat,
        );
    } else {
        lemma_tag_list_contains(tags, upto - 1, j);
        lemma_contains_left(
            spec_tag_list(tags, upto - 1),
            spec_sep(upto - 1, tags.len() as int),
            pat,
        );
        lemma_contains_left(
            spec_tag_list(tags, upto - 1) + spec_sep(upto - 1, tags.len() as int),
            spec_tag_pattern(tags[upto - 1]),
            pat,
        );
    }
}

/// Every tag of the missing list is named, in full, in the diagnostic: the
/// rendered message holds the tag's pattern, and so the tag's own decimal
/// token.
pub proof fn lemma_message_contains(tags: Seq<usize>, k: usize)
    requires
        tags.contains(k),
    ensures
        contains_seq(spec_missing_message(tags), spec_tag_pattern(k)),
        contains_seq(spec_missing_message(tags), spec_decimal(k as nat)),
{
    let j = choose|j: int| 0 <= j < tags.len() && tags[j] == k;
    lemma_tag_list_contains(tags, tags.len() as int, j);
    let list = spec_tag_list(tags, tags.len() as int);
    let pat = spec_tag_pattern(k);
    lemma_contains_right("non-exhaustive patterns: "@, list, pat);
    lemma_contains_left("non-exhaustive patterns: "@ + list, " not covered"@, pat);
    let dec = spec_decimal(k as nat);
    lemma_contains_self(dec);
    lemma_contains_right(seq!['`'], dec, dec);
    lemma_contains_left(seq!['`'] + dec, seq!['(', '_', ')', '`'], dec);
    lemma_contains_trans(spec_missing_message(tags), pat, dec);
}

/// *Exhaustiveness completeness.*  When no default arm exists and some tag
/// `k` below a covered tag `t` is itself not covered, the case expression
/// does not compile: `k` is reported missing, and the diagnostic contains
/// the token for `k`.
pub proof fn lemma_exhaustiveness_completeness(arms: Seq<CaseArm>, k: usize, t: usize)
    requires
        !has_default(arms),
        !covered(arms, k),
        covered(arms, t),
        k < t,
    ensures
        spec_missing(arms).len() > 0,
        spec_missing(arms).contains(k),
        contains_seq(spec_missing_message(spec_missing(arms)), spec_tag_pattern(k)),
        contains_seq(spec_missing_message(spec_missing(arms)), spec_decimal(k as nat)),
{
    lemma_active_len_bounds(arms);
    let n = active_len(arms);
    lemma_max_tag_props(arms, n);
    match max_tag(arms, n) {
        None => {
            assert(false);
        },
        Some(m) => {
            assert(t <= m);
            lemma_missing_below_contains(arms, n, k, m + 1);
            lemma_message_contains(spec_missing(arms), k);
        },
    }
}

/// *A default arm suppresses the exhaustiveness requirement.*  With a
/// default arm present no tag is reported missing, so compilation succeeds
/// whatever tags are covered.
pub proof fn lemma_default_suppresses(arms: Seq<CaseArm>)
    requires
        has_default(arms),
    ensures
        spec_missing(arms).len() == 0,
{
}

impl CaseInput {
    /// Compile a `CaseInput` into a [`CaseOutput`] if its arms are valid, or
    /// return a [`CompileError`] naming every missing tag.
    ///
    /// Arms are grouped by tag in source order until the first default arm;
    /// every arm after that point is unreachable and kept only for
    /// diagnostics.  When no default arm exists, every tag from zero up to
    /// the greatest tag mentioned must be covered; otherwise compilation
    /// fails with a message listing the missing tags in ascending order.
    pub fn compile(self) -> (r: Result<CaseOutput, CompileError>)
        ensures
            match r {
                Ok(out) => spec_missing(self.arms@).len() == 0 && compiles_to(self, out),
                Err(e) => {
                    &&& spec_missing(self.arms@).len() > 0
                    &&& e.span == self.scrutinee.span
                    &&& e.message@ == spec_missing_message(spec_missing(self.arms@))
                },
            },
    {
        let CaseInput { scrutinee, cases_span, arms } = self;
        let ghost aseq = arms@;

        // Find the active prefix: every arm before the first default arm.
        let mut n: usize = 0;
        while n < arms.len() && arms[n].tag.is_some()
            invariant
                n <= arms.len(),
                aseq == arms@,
                forall|j: int| 0 <= j < n ==> (#[trigger] aseq[j]).tag is Some,
            decreases arms.len() - n,
        {
            n = n + 1;
        }
        proof {
            lemma_active_len_from_scan(aseq, n as int);
        }

        // The first default arm, and the unreachable arms after it.
        let mut default: Option<(Span, Arm)> = None;
        let mut unreachable: Vec<CaseArm> = Vec::new();
        if n < arms.len() {
            default = Some((arms[n].tag_span, arms[n].arm));
            let mut j: usize = n + 1;
            while j < arms.len()
                invariant
                    n + 1 <= j <= arms.len(),
                    aseq == arms@,
                    unreachable@ == aseq.subrange(n + 1, j as int),
                decreases arms.len() - j,
            {
                unreachable.push(arms[j]);
                proof {
                    assert(aseq.subrange(n + 1, j + 1) =~= aseq.subrange(n + 1, j as int).push(
                        aseq[j as int],
                    ));
                }
                j = j + 1;
            }
            proof {
                assert(unreachable@ =~= unreachable_of(aseq));
            }
        }

        // Collect, in ascending order, every tag of the active prefix.
        let mut tags: Vec<usize> = Vec::new();
        let mut i: usize = 0;
        while i < n
            invariant
                i <= n <= arms.len(),
                aseq == arms@,
                n as int == active_len(aseq),
                forall|j: int| 0 <= j < n ==> (#[trigger] aseq[j]).tag is Some,
                forall|a: int, b: int| 0 <= a < b < tags@.len() ==> tags@[a] < tags@[b],
                forall|p: int|
                    0 <= p < tags@.len() ==> covered_in(aseq, i as int, #[trigger] tags@[p]),
                forall|t: usize| covered_in(aseq, i as int, t) ==> tags@.contains(t),
            decreases n - i,
        {
            let t = arms[i].tag.unwrap();
            let ghost old_tags = tags@;
            let mut p: usize = 0;
            while p < tags.len() && tags[p] < t
                invariant
                    p <= tags@.len(),
                    tags@ == old_tags,
                    forall|q: int| 0 <= q < p ==> tags@[q] < t,
                    forall|a: int, b: int| 0 <= a < b < tags@.len() ==> tags@[a] < tags@[b],
                decreases tags@.len() - p,
            {
                p = p + 1;
            }
            let already = p < tags.len() && tags[p] == t;
            if !already {
                proof {
                    lemma_sorted_insert(tags@, p as int, t);
                }
                tags.insert(p, t);
            }
            proof {
                assert(aseq[i as int].tag == Some(t));
                if !already {
                    assert(tags@ == old_tags.insert(p as int, t));
                }
                assert forall|t2: usize| covered_in(aseq, i + 1, t2) implies tags@.contains(
                    t2,
                ) by {
                    lemma_covered_step(aseq, i as int, t2);
                    if t2 == t {
                        if already {
                            assert(tags@[p as int] == t);
                            assert(tags@.contains(t));
                        } else {
                            old_tags.insert_ensures(p as int, t);
                            assert(tags@[p as int] == t);
                            assert(tags@.contains(t));
                        }
                    } else {
                        assert(covered_in(aseq, i as int, t2));
                        assert(old_tags.contains(t2));
                        assert(tags@.contains(t2));
                    }
                }
                assert forall|p2: int| 0 <= p2 < tags@.len() implies covered_in(
                    aseq,
                    i + 1,
                    #[trigger] tags@[p2],
                ) by {
                    lemma_covered_step(aseq, i as int, tags@[p2]);
                    if tags@[p2] != t {
                        assert(old_tags.contains(tags@[p2]));
                        let q = choose|q: int|
                            0 <= q < old_tags.len() && old_tags[q] == tags@[p2];
                        assert(covered_in(aseq, i as int, old_tags[q]));
                    }
                }
            }
            i = i + 1;
        }

        proof {
            lemma_max_tag_props(aseq, n as int);
            if tags@.len() == 0 {
                match max_tag(aseq, n as int) {
                    Some(m) => {
                        assert(tags@.contains(m));
                        let q = choose|q: int| 0 <= q < tags@.len() && tags@[q] == m;
                        assert(false);
                    },
                    None => {},
                }
            } else {
                let last = tags@[tags@.len() - 1];
                assert(covered_in(aseq, n as int, last));
                match max_tag(aseq, n as int) {
                    Some(m) => {
                        assert(tags@.contains(m));
                        let q = choose|q: int| 0 <= q < tags@.len() && tags@[q] == m;
                        assert(m <= last);
                        assert(max_tag(aseq, n as int) == Some(last));
                    },
                    None => {},
                }
            }
        }

        // The missing tags: every gap below the greatest tag mentioned,
        // relevant only when there is no default arm.
        let mut missing: Vec<usize> = Vec::new();
        if default.is_none() && tags.len() > 0 {
            let max = tags[tags.len() - 1];
            let mut k: usize = 0;
            loop
                invariant_except_break
                    k <= max,
                    aseq == arms@,
                    n as int == active_len(aseq),
                    max_tag(aseq, n as int) == Some(max),
                    forall|p: int|
                        0 <= p < tags@.len() ==> covered_in(aseq, n as int, #[trigger] tags@[p]),
                    forall|t: usize| covered_in(aseq, n as int, t) ==> tags@.contains(t),
                    missing@ == missing_below(aseq, n as int, k as int),
                ensures
                    aseq == arms@,
                    missing@ == missing_below(aseq, n as int, max as int + 1),
                decreases max - k,
            {
                let c = contains_tag(&tags, k);
                proof {
                    if c {
                        let q = choose|q: int| 0 <= q < tags@.len() && tags@[q] == k;
                        assert(covered_in(aseq, n as int, tags@[q]));
                    }
                    assert(c == covered_in(aseq, n as int, k));
                }
                if !c {
                    let ghost old_missing = missing@;
                    missing.push(k);
                    proof {
                        assert(missing@ =~= old_missing + seq![k]);
                    }
                }
                if k == max {
                    break ;
                }
                k = k + 1;
            }
        }

        if missing.len() == 0 {
            // Build one group per tag, each holding its arms in source
            // order.
            let mut cases: Vec<TagGroup> = Vec::new();
            let mut p: usize = 0;
            while p < tags.len()
                invariant
                    p <= tags@.len(),
                    aseq == arms@,
                    n <= arms.len(),
                    n as int == active_len(aseq),
                    forall|j: int| 0 <= j < n ==> (#[trigger] aseq[j]).tag is Some,
                    cases@.len() == p,
                    forall|q: int|
                        0 <= q < p ==> (#[trigger] cases@[q]).tag == tags@[q] && cases@[q].arms@
                            == group_spec(aseq, n as int, tags@[q]),
                decreases tags@.len() - p,
            {
                let t = tags[p];
                let mut garms: Vec<(Span, Arm)> = Vec::new();
                let mut j: usize = 0;
                while j < n
                    invariant
                        j <= n <= arms.len(),
                        aseq == arms@,
                        garms@ == group_spec(aseq, j as int, t),
                    decreases n - j,
                {
                    let keep = match arms[j].tag {
                        Some(tt) => tt == t,
                        None => false,
                    };
                    if keep {
                        garms.push((arms[j].tag_span, arms[j].arm));
                    }
                    j = j + 1;
                }
                cases.push(TagGroup { tag: t, arms: garms });
                p = p + 1;
            }
            let out = CaseOutput { scrutinee, cases_span, cases, default, unreachable };
            proof {
                let input = self;
                assert forall|t: usize| covered(aseq, t) implies exists|q: int|
                    0 <= q < out.cases@.len() && (#[trigger] out.cases@[q]).tag == t by {
                    assert(tags@.contains(t));
                    let q = choose|q: int| 0 <= q < tags@.len() && tags@[q] == t;
                    assert((out.cases@[q]).tag == t);
                }
                assert(compiles_to(input, out));
            }
            Ok(out)
        } else {
            let message = missing_message(&missing);
            Err(CompileError { span: scrutinee.span, message })
        }
    }
}

} // verus!
