//! The dispatch emitter.
//!
//! A compiled [`CaseOutput`] is rendered into a two-level dispatch: an outer
//! match on the tag of the scrutinee, and for each tag an inner match on the
//! extracted payload.  [`CaseOutput::dispatch_plan`] computes the exact
//! sequence of arms of the outer match: one arm per tag group, then either a
//! statically-certified fallthrough (when the covered tags were required to
//! be exhaustive) or the default arm, then the unreachable arms kept for
//! diagnostics.  Rendering that plan into host syntax embeds each host arm
//! unmodified, so everything the generated code decides is decided here.

use vstd::prelude::*;

use crate::case_expr::{
    active_len, compiles_to, covered_in, lemma_active_len_from_scan, lemma_max_tag_props,
    lemma_missing_below_covered, max_tag, spec_missing, CaseArm, CaseInput, CaseOutput, TagGroup,
};
use crate::syntax::{Arm, Expr, Span};

verus! {

/// One arm of the outer dispatch, in emission order.
#[derive(Clone, Debug)]
pub enum PlannedArm {
    /// `Some(tag)` selects this arm; the payload is then extracted under
    /// `tag` and matched against `inner`, with the default arm, if any,
    /// inherited as the final inner arm (marked as possibly unreachable).
    Tagged {
        /// The tag this arm dispatches on.
        tag: usize,
        /// The arms for this tag, in their source order.
        inner: Vec<(Span, Arm)>,
        /// The inherited copy of the default arm, if one exists.
        inherited_default: Option<Arm>,
    },
    /// The fallthrough taken when no tag matches and no default exists: it
    /// statically certifies that the scrutinee's type has exactly `bound`
    /// reachable tags, and is then unreachable.
    Fallthrough {
        /// The certified number of cases of the scrutinee's type.
        bound: usize,
    },
    /// The default arm, emitted after the tagged arms.
    Default {
        /// The host arm of the default case.
        arm: Arm,
    },
    /// An arm found after the default arm, emitted inside its own one-armed
    /// sub-match against its original tag so that host tooling reports it as
    /// genuinely unreachable.
    UnreachableTagged {
        /// The original tag of the unreachable arm.
        tag: usize,
        /// The span of that tag.
        tag_span: Span,
        /// The host arm.
        arm: Arm,
    },
    /// An untagged arm found after the default arm, emitted as it stands.
    UnreachableUntagged {
        /// The host arm.
        arm: Arm,
    },
}

/// The plan of the generated dispatch: the scrutinee, the span the dispatch
/// is attributed to, and the arms of the outer match in emission order.
#[derive(Clone, Debug)]
pub struct DispatchPlan {
    /// The scrutinee, bound once and then dispatched on.
    pub scrutinee: Expr,
    /// The span of the braces of the original case expression.
    pub cases_span: Span,
    /// The arms of the outer dispatch, in emission order.
    pub arms: Vec<PlannedArm>,
}

/// The larger of an optional running maximum and one more tag.
pub open spec fn opt_max_tag(a: Option<usize>, t: usize) -> Option<usize> {
    match a {
        None => Some(t),
        Some(m) => Some(if t > m { t } else { m }),
    }
}

/// The greatest tag among the first `k` tag groups.
pub open spec fn groups_max(cases: Seq<TagGroup>, k: int) -> Option<usize>
    decreases k,
{
    if k <= 0 {
        None
    } else {
        opt_max_tag(groups_max(cases, k - 1), cases[k - 1].tag)
    }
}

/// The greatest tag mentioned, folding the tags of the first `k`
/// unreachable arms on top of `acc`.
pub open spec fn unreachable_max(acc: Option<usize>, arms: Seq<CaseArm>, k: int) -> Option<usize>
    decreases k,
{
    if k <= 0 {
        acc
    } else {
        match arms[k - 1].tag {
            None => unreachable_max(acc, arms, k - 1),
            Some(t) => opt_max_tag(unreachable_max(acc, arms, k - 1), t),
        }
    }
}

/// The greatest tag mentioned anywhere in the output: among the tag groups
/// and among the unreachable arms.
pub open spec fn mentioned_max(out: CaseOutput) -> Option<usize> {
    unreachable_max(
        groups_max(out.cases@, out.cases@.len() as int),
        out.unreachable@,
        out.unreachable@.len() as int,
    )
}

/// The bound certified by the exhaustive fallthrough arm, or `None` when a
/// default arm makes the dispatch non-exhaustive: one past the greatest
/// mentioned tag, and zero when no tag is mentioned at all.
pub open spec fn spec_exhaustive_bound(out: CaseOutput) -> Option<int> {
    if out.default is Some {
        None
    } else {
        match mentioned_max(out) {
            None => Some(0),
            Some(m) => Some(m + 1),
        }
    }
}

/// What it means for `plan` to be the rendered dispatch of `out`: one
/// `Tagged` arm per tag group in order, then exactly one governing arm
/// (the certified fallthrough when no default exists, the default arm
/// otherwise), then one arm per unreachable arm in order.
pub open spec fn plan_matches(out: CaseOutput, plan: DispatchPlan) -> bool {
    let nc = out.cases@.len() as int;
    &&& plan.scrutinee == out.scrutinee
    &&& plan.cases_span == out.cases_span
    &&& plan.arms@.len() == nc + 1 + out.unreachable@.len()
    &&& forall|q: int|
        0 <= q < nc ==> {
            &&& (#[trigger] plan.arms@[q]) matches PlannedArm::Tagged { tag, inner, inherited_default }
            &&& tag == out.cases@[q].tag
            &&& inner@ == out.cases@[q].arms@
            &&& inherited_default == (match out.default {
                Some((s, a)) => Some(a),
                None => None,
            })
        }
    &&& (out.default is None ==> (plan.arms@[nc] matches PlannedArm::Fallthrough { bound }
        && Some(bound as int) == spec_exhaustive_bound(out)))
    &&& (out.default matches Some((s, a)) ==> (plan.arms@[nc] matches PlannedArm::Default { arm }
        && arm == a))
    &&& forall|u: int|
        0 <= u < out.unreachable@.len() ==> {
            let ua = out.unreachable@[u];
            match ua.tag {
                Some(t) => (#[trigger] plan.arms@[nc + 1 + u]) matches
                    PlannedArm::UnreachableTagged { tag, tag_span, arm } && tag == t && tag_span
                    == ua.tag_span && arm == ua.arm,
                None => plan.arms@[nc + 1 + u] matches PlannedArm::UnreachableUntagged { arm }
                    && arm == ua.arm,
            }
        }
}

impl CaseOutput {
    /// The greatest tag mentioned in this output, among the tag groups and
    /// the unreachable arms.
    fn mentioned_max_exec(&self) -> (m: Option<usize>)
        ensures
            m == mentioned_max(*self),
    {
        let mut mx: Option<usize> = None;
        let mut q: usize = 0;
        while q < self.cases.len()
            invariant
                q <= self.cases@.len(),
                mx == groups_max(self.cases@, q as int),
            decreases self.cases@.len() - q,
        {
            let t = self.cases[q].tag;
            mx = match mx {
                None => Some(t),
                Some(m) => Some(if t > m { t } else { m }),
            };
            q = q + 1;
        }
        let mut u: usize = 0;
        while u < self.unreachable.len()
            invariant
                u <= self.unreachable@.len(),
                mx == unreachable_max(
                    groups_max(self.cases@, self.cases@.len() as int),
                    self.unreachable@,
                    u as int,
                ),
            decreases self.unreachable@.len() - u,
        {
            match self.unreachable[u].tag {
                Some(t) => {
                    mx = match mx {
                        None => Some(t),
                        Some(m) => Some(if t > m { t } else { m }),
                    };
                },
                None => {},
            }
            u = u + 1;
        }
        mx
    }

    /// Render this output into the plan of the generated dispatch.
    ///
    /// The only arithmetic done here is the certified bound, one past the
    /// greatest mentioned tag, which must fit the machine word.
    pub fn dispatch_plan(&self) -> (plan: DispatchPlan)
        requires
            (spec_exhaustive_bound(*self) matches Some(b) ==> b <= usize::MAX),
        ensures
            plan_matches(*self, plan),
    {
        let mut arms: Vec<PlannedArm> = Vec::new();
        let inherited: Option<Arm> = match self.default {
            Some((_s, a)) => Some(a),
            None => None,
        };

        // One outer arm per tag group, in order.
        let mut q: usize = 0;
        while q < self.cases.len()
            invariant
                q <= self.cases@.len(),
                arms@.len() == q,
                inherited == (match self.default {
                    Some((s, a)) => Some(a),
                    None => None,
                }),
                forall|p: int|
                    0 <= p < q ==> {
                        &&& (#[trigger] arms@[p]) matches PlannedArm::Tagged {
                            tag,
                            inner,
                            inherited_default,
                        }
                        &&& tag == self.cases@[p].tag
                        &&& inner@ == self.cases@[p].arms@
                        &&& inherited_default == (match self.default {
                            Some((s, a)) => Some(a),
                            None => None,
                        })
                    },
            decreases self.cases@.len() - q,
        {
            let group = &self.cases[q];
            let mut inner: Vec<(Span, Arm)> = Vec::new();
            let mut j: usize = 0;
            while j < group.arms.len()
                invariant
                    j <= group.arms@.len(),
                    inner@ == group.arms@.subrange(0, j as int),
                decreases group.arms@.len() - j,
            {
                inner.push(group.arms[j]);
                proof {
                    assert(group.arms@.subrange(0, j + 1) =~= group.arms@.subrange(
                        0,
                        j as int,
                    ).push(group.arms@[j as int]));
                }
                j = j + 1;
            }
            proof {
                assert(inner@ =~= group.arms@);
            }
            arms.push(
                PlannedArm::Tagged { tag: group.tag, inner, inherited_default: inherited },
            );
            q = q + 1;
        }

        // The single governing arm: the certified fallthrough when the
        // covered tags had to be exhaustive, the default arm otherwise.
        match self.default {
            None => {
                let bound: usize = match self.mentioned_max_exec() {
                    None => 0,
                    Some(m) => m + 1,
                };
                arms.push(PlannedArm::Fallthrough { bound });
            },
            Some((_s, a)) => {
                arms.push(PlannedArm::Default { arm: a });
            },
        }

        // The unreachable arms, each in its own sub-match.
        let ghost base = arms@.len() as int;
        let mut u: usize = 0;
        while u < self.unreachable.len()
            invariant
                u <= self.unreachable@.len(),
                arms@.len() == base + u,
                base == self.cases@.len() + 1,
                forall|p: int|
                    0 <= p < self.cases@.len() ==> {
                        &&& (#[trigger] arms@[p]) matches PlannedArm::Tagged {
                            tag,
                            inner,
                            inherited_default,
                        }
                        &&& tag == self.cases@[p].tag
                        &&& inner@ == self.cases@[p].arms@
                        &&& inherited_default == (match self.default {
                            Some((s, a)) => Some(a),
                            None => None,
                        })
                    },
                (self.default is None ==> (arms@[self.cases@.len() as int] matches
                    PlannedArm::Fallthrough { bound } && Some(bound as int)
                    == spec_exhaustive_bound(*self))),
                (self.default matches Some((s, a)) ==> (arms@[self.cases@.len() as int] matches
                    PlannedArm::Default { arm } && arm == a)),
                forall|v: int|
                    0 <= v < u ==> {
                        let ua = self.unreachable@[v];
                        match ua.tag {
                            Some(t) => (#[trigger] arms@[base + v]) matches
                                PlannedArm::UnreachableTagged { tag, tag_span, arm } && tag == t
                                && tag_span == ua.tag_span && arm == ua.arm,
                            None => arms@[base + v] matches PlannedArm::UnreachableUntagged { arm }
                                && arm == ua.arm,
                        }
                    },
            decreases self.unreachable@.len() - u,
        {
            let ua = self.unreachable[u];
            match ua.tag {
                Some(t) => {
                    arms.push(
                        PlannedArm::UnreachableTagged { tag: t, tag_span: ua.tag_span, arm: ua.arm },
                    );
                },
                None => {
                    arms.push(PlannedArm::UnreachableUntagged { arm: ua.arm });
                },
            }
            u = u + 1;
        }

        DispatchPlan { scrutinee: self.scrutinee, cases_span: self.cases_span, arms }
    }
}

/// `groups_max` over a non-empty prefix is the greatest group tag there.
proof fn lemma_groups_max_props(cases: Seq<TagGroup>, k: int)
    requires
        0 <= k <= cases.len(),
    ensures
        groups_max(cases, k) is None ==> k == 0,
        groups_max(cases, k) matches Some(m) ==> (exists|q: int|
            0 <= q < k && (#[trigger] cases[q]).tag == m) && (forall|q: int|
            0 <= q < k ==> (#[trigger] cases[q]).tag <= m),
    decreases k,
{
    if k > 0 {
        lemma_groups_max_props(cases, k - 1);
    }
}

/// *Order preservation within a tag.*  In the planned dispatch of a
/// compiled case expression, the inner dispatch of every tag group holds
/// exactly the arms that carried that tag — all of them, in their original
/// source order.
pub proof fn lemma_order_preservation(
    input: CaseInput,
    out: CaseOutput,
    plan: DispatchPlan,
    q: int,
)
    requires
        compiles_to(input, out),
        plan_matches(out, plan),
        0 <= q < out.cases@.len(),
    ensures
        plan.arms@[q] matches PlannedArm::Tagged { tag, inner, inherited_default } && inner@
            == crate::case_expr::group_spec(input.arms@, active_len(input.arms@), tag),
{
}

/// *Exhaustiveness soundness.*  For a case expression whose arms cover
/// every tag in `0..n` and carry no tag outside it, with no default arm:
/// compilation succeeds, and the planned dispatch consists of the tag
/// groups followed by one fallthrough arm that is statically certified for
/// bound `n` — no fallible default fallthrough is emitted anywhere.
pub proof fn lemma_exhaustive_soundness(
    input: CaseInput,
    out: CaseOutput,
    plan: DispatchPlan,
    n: usize,
)
    requires
        forall|j: int|
            0 <= j < input.arms@.len() ==> ((#[trigger] input.arms@[j]).tag matches Some(t) && t
                < n),
        forall|t: usize| t < n ==> covered_in(input.arms@, input.arms@.len() as int, t),
        compiles_to(input, out),
        plan_matches(out, plan),
    ensures
        spec_missing(input.arms@).len() == 0,
        out.default is None,
        out.unreachable@.len() == 0,
        plan.arms@.len() == out.cases@.len() + 1,
        forall|q: int| 0 <= q < out.cases@.len() ==> (#[trigger] plan.arms@[q]) is Tagged,
        plan.arms@[out.cases@.len() as int] matches PlannedArm::Fallthrough { bound } && bound
            == n,
{
    let arms = input.arms@;
    let len = arms.len() as int;
    lemma_active_len_from_scan(arms, len);
    assert(active_len(arms) == len);
    lemma_max_tag_props(arms, len);

    // Every covered tag lies below n, since every arm's tag does.
    assert forall|t: usize| covered_in(arms, len, t) implies t < n by {
        let j = choose|j: int| 0 <= j < len && (#[trigger] arms[j]).tag == Some(t);
    }

    // The greatest mentioned tag is exactly n - 1 (when n > 0), and the
    // missing list below it is empty.
    if n == 0 {
        assert(len == 0) by {
            if len > 0 {
                assert((arms[0]).tag matches Some(t) && t < 0);
            }
        }
        assert(max_tag(arms, len) is None);
    } else {
        assert(covered_in(arms, len, (n - 1) as usize));
        match max_tag(arms, len) {
            None => {
                assert(false);
            },
            Some(m) => {
                assert((n - 1) as usize <= m);
                assert(m < n);
                lemma_missing_below_covered(arms, len, m + 1);
            },
        }
    }

    // The tag groups mention exactly the covered tags, so the certified
    // bound computed from them is n.
    let nc = out.cases@.len() as int;
    lemma_groups_max_props(out.cases@, nc);
    if n == 0 {
        match groups_max(out.cases@, nc) {
            None => {},
            Some(m) => {
                let q = choose|q: int| 0 <= q < nc && (#[trigger] out.cases@[q]).tag == m;
                assert(covered_in(arms, len, m));
                assert(false);
            },
        }
        assert(mentioned_max(out) is None);
        assert(spec_exhaustive_bound(out) == Some(0int));
    } else {
        assert(covered_in(arms, len, (n - 1) as usize));
        assert(crate::case_expr::covered(arms, (n - 1) as usize));
        assert(exists|q: int|
            0 <= q < out.cases@.len() && (#[trigger] out.cases@[q]).tag == (n - 1) as usize);
        let q0 = choose|q: int|
            0 <= q < out.cases@.len() && (#[trigger] out.cases@[q]).tag == (n - 1) as usize;
        assert(out.cases@[q0].tag == (n - 1) as usize);
        match groups_max(out.cases@, nc) {
            None => {
                assert(false);
            },
            Some(m) => {
                assert((n - 1) as usize <= m);
                let q = choose|q: int| 0 <= q < nc && (#[trigger] out.cases@[q]).tag == m;
                assert(crate::case_expr::covered(arms, out.cases@[q].tag));
                assert(covered_in(arms, len, m));
                assert(m == (n - 1) as usize);
            },
        }
        assert(mentioned_max(out) == Some((n - 1) as usize));
        assert(spec_exhaustive_bound(out) == Some(n as int));
    }
}

} // verus!
