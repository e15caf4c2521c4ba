//! Batch grading: checks a student proof against an instructor key.
//!
//! The pipeline is strictly sequential and fail-fast: compare the two
//! premise sets (duplicate- and order-insensitively), then locate the goal —
//! the instructor key's unique non-premise top-level line — among the
//! student's top-level lines, then walk the matching line's justification
//! chain down to premises. Rule soundness itself is an external concern: the
//! external rule-checker's per-line verdicts arrive as an argument, and a
//! derived line counts as justified only when its verdict is positive.
//!
//! When several student lines state the goal, only the first structural
//! match in line order is examined; its justification decides the outcome.

use vstd::prelude::*;

use crate::expr::Expr;
use crate::model::{line_deps, line_expr, Proof, ProofLine};

verus! {

/// Why a grading run rejects a submission.
#[derive(Clone, Copy, Debug, PartialEq, Eq, Structural)]
pub enum GradeError {
    /// The two premise value sets differ.
    PremiseMismatch,
    /// No student top-level line states the goal.
    GoalNotFound,
    /// The goal's justification chain is broken: an invalid rule
    /// application, a dependency that is no earlier line, or a cycle.
    IncompleteJustification,
}

/// Number of non-premise lines among `s`.
pub open spec fn derived_count(s: Seq<ProofLine>) -> int
    decreases s.len(),
{
    if s.len() == 0 {
        0
    } else {
        (if s[0] is Derived {
            1int
        } else {
            0int
        }) + derived_count(s.drop_first())
    }
}

/// Index of the first non-premise line of `s`; `s.len()` when none exists.
pub open spec fn first_derived(s: Seq<ProofLine>) -> int
    decreases s.len(),
{
    if s.len() == 0 {
        0
    } else if s[0] is Derived {
        0
    } else {
        1 + first_derived(s.drop_first())
    }
}

/// An instructor key is usable when it is well formed and exposes exactly
/// one non-premise top-level line: the goal.
pub open spec fn has_unique_goal(p: Proof) -> bool {
    &&& p.wf()
    &&& derived_count(p.lines@) == 1
}

/// The goal a key demands: the resolved expression of its one non-premise
/// top-level line.
pub open spec fn goal_expr(p: Proof) -> Expr {
    p.pool@[line_expr(p.lines@[first_derived(p.lines@)]).idx as int]
}

/// Index of the first line of `lines` whose resolved expression equals
/// `goal`; `lines.len()` when none does.
pub open spec fn first_stating(lines: Seq<ProofLine>, pool: Seq<Expr>, goal: Expr) -> int
    decreases lines.len(),
{
    if lines.len() == 0 {
        0
    } else if pool[line_expr(lines[0]).idx as int] == goal {
        0
    } else {
        1 + first_stating(lines.drop_first(), pool, goal)
    }
}

/// Line `i` of `p` is fully justified: a premise outright — every premise
/// line of the root sequence belongs to the compared premise set — or a
/// derived step whose rule application the external rule-checker confirmed
/// and whose cited dependencies are strictly earlier, themselves justified
/// lines. A dependency at or after its citing line — in particular any
/// cycle — breaks the chain.
pub open spec fn justified(p: Proof, rule_ok: Seq<bool>, i: int) -> bool
    decreases i,
{
    0 <= i < p.lines@.len() && match p.lines@[i] {
        ProofLine::Premise(_) => true,
        ProofLine::Derived { deps, .. } => rule_ok[i] && forall|j: int|
            0 <= j < deps@.len() ==> (#[trigger] deps@[j]).idx < i && justified(
                p,
                rule_ok,
                deps@[j].idx as int,
            ),
    }
}

/// The grading outcome as a function of the two proofs and the external
/// rule-checker's verdicts: the first failure of the sequential pipeline,
/// or success.
pub open spec fn grade_outcome(ip: Proof, sp: Proof, rule_ok: Seq<bool>) -> Result<
    (),
    GradeError,
> {
    if ip.premise_set() != sp.premise_set() {
        Err(GradeError::PremiseMismatch)
    } else {
        let k = first_stating(sp.lines@, sp.pool@, goal_expr(ip));
        if k == sp.lines@.len() {
            Err(GradeError::GoalNotFound)
        } else if justified(sp, rule_ok, k) {
            Ok(())
        } else {
            Err(GradeError::IncompleteJustification)
        }
    }
}

/// `first_derived` is within bounds, nothing before it is derived, and it
/// lands on a derived line whenever one exists.
proof fn lemma_first_derived(s: Seq<ProofLine>)
    ensures
        0 <= first_derived(s) <= s.len(),
        forall|j: int| 0 <= j < first_derived(s) ==> !(#[trigger] s[j] is Derived),
        derived_count(s) > 0 ==> first_derived(s) < s.len() && s[first_derived(s)] is Derived,
    decreases s.len(),
{
    if s.len() > 0 {
        lemma_first_derived(s.drop_first());
        assert forall|j: int| 0 <= j < first_derived(s) implies !(#[trigger] s[j] is Derived) by {
            if j > 0 {
                assert(s[j] == s.drop_first()[j - 1]);
            }
        }
        if derived_count(s) > 0 && !(s[0] is Derived) {
            assert(s[first_derived(s)] == s.drop_first()[first_derived(s.drop_first())]);
        }
    }
}

/// `first_stating` is within bounds, nothing before it states `goal`, and
/// it lands on a line stating `goal` whenever one exists.
proof fn lemma_first_stating(lines: Seq<ProofLine>, pool: Seq<Expr>, goal: Expr)
    ensures
        0 <= first_stating(lines, pool, goal) <= lines.len(),
        forall|j: int|
            0 <= j < first_stating(lines, pool, goal) ==> pool[line_expr(
                #[trigger] lines[j],
            ).idx as int] != goal,
        first_stating(lines, pool, goal) < lines.len() ==> pool[line_expr(
            lines[first_stating(lines, pool, goal)],
        ).idx as int] == goal,
    decreases lines.len(),
{
    if lines.len() > 0 {
        lemma_first_stating(lines.drop_first(), pool, goal);
        assert forall|j: int|
            0 <= j < first_stating(lines, pool, goal) implies pool[line_expr(
            #[trigger] lines[j],
        ).idx as int] != goal by {
            if j > 0 {
                assert(lines[j] == lines.drop_first()[j - 1]);
            }
        }
        let k = first_stating(lines, pool, goal);
        if k < lines.len() && k > 0 {
            assert(lines[k] == lines.drop_first()[k - 1]);
        }
    }
}

/// Whether a vector of expression values holds `e`.
fn expr_vec_contains(v: &Vec<Expr>, e: &Expr) -> (r: bool)
    ensures
        r == v@.contains(*e),
{
    let n = v.len();
    let mut i: usize = 0;
    while i < n
        invariant
            n == v@.len(),
            i <= n,
            forall|j: int| 0 <= j < i ==> v@[j] != *e,
        decreases n - i,
    {
        if v[i].eq_value(e) {
            return true;
        }
        i += 1;
    }
    false
}

/// Whether two vectors of expression values hold the same set of values,
/// regardless of order and of duplicates.
fn expr_sets_equal(a: &Vec<Expr>, b: &Vec<Expr>) -> (r: bool)
    ensures
        r == (a@.to_set() == b@.to_set()),
{
    let n = a.len();
    let mut i: usize = 0;
    while i < n
        invariant
            n == a@.len(),
            i <= n,
            forall|j: int| 0 <= j < i ==> b@.contains(#[trigger] a@[j]),
        decreases n - i,
    {
        if !expr_vec_contains(b, &a[i]) {
            proof {
                assert(a@.to_set().contains(a@[i as int]));
                assert(!b@.to_set().contains(a@[i as int]));
            }
            return false;
        }
        i += 1;
    }
    let m = b.len();
    let mut k: usize = 0;
    while k < m
        invariant
            m == b@.len(),
            k <= m,
            forall|j: int| 0 <= j < a@.len() ==> b@.contains(#[trigger] a@[j]),
            forall|j: int| 0 <= j < k ==> a@.contains(#[trigger] b@[j]),
        decreases m - k,
    {
        if !expr_vec_contains(a, &b[k]) {
            proof {
                assert(b@.to_set().contains(b@[k as int]));
                assert(!a@.to_set().contains(b@[k as int]));
            }
            return false;
        }
        k += 1;
    }
    proof {
        assert(a@.to_set() =~= b@.to_set());
    }
    true
}

/// Walks one line's justification chain, depth first, confirming the
/// external rule-checker's verdict at every derived step and stopping at
/// premises; any dependency at or after its citing line fails the walk.
fn check_justified(p: &Proof, rule_ok: &Vec<bool>, i: usize) -> (r: bool)
    requires
        p.wf(),
        rule_ok@.len() == p.lines@.len(),
        i < p.lines@.len(),
    ensures
        r == justified(*p, rule_ok@, i as int),
    decreases i,
{
    match p.lines.get(i) {
        Some(line) => {
            match line {
                ProofLine::Premise(_) => true,
                ProofLine::Derived { deps, .. } => {
                    if !rule_ok[i] {
                        return false;
                    }
                    let m = deps.len();
                    let mut j: usize = 0;
                    while j < m
                        invariant
                            p.wf(),
                            rule_ok@.len() == p.lines@.len(),
                            i < p.lines@.len(),
                            m == deps@.len(),
                            j <= m,
                            deps@ == line_deps(p.lines@[i as int]),
                            p.lines@[i as int] is Derived,
                            rule_ok@[i as int],
                            forall|j2: int|
                                0 <= j2 < j ==> (#[trigger] deps@[j2]).idx < i && justified(
                                    *p,
                                    rule_ok@,
                                    deps@[j2].idx as int,
                                ),
                        decreases m - j,
                    {
                        let d = deps[j];
                        if d.idx >= i {
                            proof {
                                assert(!((deps@[j as int]).idx < i));
                            }
                            return false;
                        }
                        if !check_justified(p, rule_ok, d.idx) {
                            proof {
                                assert(!justified(*p, rule_ok@, deps@[j as int].idx as int));
                            }
                            return false;
                        }
                        j += 1;
                    }
                    true
                },
            }
        },
        None => {
            proof {
                assert(false);
            }
            false
        },
    }
}

/// Locates the goal of an instructor key: the resolved expression of its
/// unique non-premise top-level line.
fn find_goal(p: &Proof) -> (r: Expr)
    requires
        has_unique_goal(*p),
    ensures
        r == goal_expr(*p),
{
    proof {
        lemma_first_derived(p.lines@);
    }
    let n = p.lines.len();
    let mut i: usize = 0;
    while i < n
        invariant
            has_unique_goal(*p),
            n == p.lines@.len(),
            i <= n,
            forall|j: int| 0 <= j < i ==> !(#[trigger] p.lines@[j] is Derived),
            0 <= first_derived(p.lines@) < n,
            p.lines@[first_derived(p.lines@)] is Derived,
            forall|j: int| 0 <= j < first_derived(p.lines@) ==> !(#[trigger] p.lines@[j] is Derived),
        decreases n - i,
    {
        match p.lines.get(i) {
            Some(line) => {
                match line {
                    ProofLine::Derived { expr, .. } => {
                        proof {
                            let fd = first_derived(p.lines@);
                            assert(p.lines@[i as int] is Derived);
                            if fd < i {
                                assert(!(p.lines@[fd] is Derived));
                            }
                            if fd > i {
                                assert(!(p.lines@[i as int] is Derived));
                            }
                            assert(fd == i);
                        }
                        match p.lookup_expr(*expr) {
                            Some(e) => {
                                return e.duplicate();
                            },
                            None => {
                                proof {
                                    assert(false);
                                }
                            },
                        }
                    },
                    ProofLine::Premise(_) => {},
                }
            },
            None => {
                proof {
                    assert(false);
                }
            },
        }
        i += 1;
    }
    proof {
        assert(false);
    }
    Expr::Atom(0)
}

/// Finds the first student top-level line stating `goal`; `p.lines@.len()`
/// when none does.
fn find_stating(p: &Proof, goal: &Expr) -> (r: usize)
    requires
        p.wf(),
    ensures
        r == first_stating(p.lines@, p.pool@, *goal),
        r <= p.lines@.len(),
{
    proof {
        lemma_first_stating(p.lines@, p.pool@, *goal);
    }
    let n = p.lines.len();
    let mut i: usize = 0;
    while i < n
        invariant
            p.wf(),
            n == p.lines@.len(),
            i <= n,
            forall|j: int|
                0 <= j < i ==> p.pool@[line_expr(#[trigger] p.lines@[j]).idx as int] != *goal,
            0 <= first_stating(p.lines@, p.pool@, *goal) <= n,
            forall|j: int|
                0 <= j < first_stating(p.lines@, p.pool@, *goal) ==> p.pool@[line_expr(
                    #[trigger] p.lines@[j],
                ).idx as int] != *goal,
            first_stating(p.lines@, p.pool@, *goal) < n ==> p.pool@[line_expr(
                p.lines@[first_stating(p.lines@, p.pool@, *goal)],
            ).idx as int] == *goal,
        decreases n - i,
    {
        match p.lines.get(i) {
            Some(line) => {
                let re = match line {
                    ProofLine::Premise(r) => *r,
                    ProofLine::Derived { expr, .. } => *expr,
                };
                match p.lookup_expr(re) {
                    Some(e) => {
                        if e.eq_value(goal) {
                            proof {
                                assert(first_stating(p.lines@, p.pool@, *goal) == i);
                            }
                            return i;
                        }
                    },
                    None => {
                        proof {
                            assert(false);
                        }
                    },
                }
            },
            None => {
                proof {
                    assert(false);
                }
            },
        }
        i += 1;
    }
    n
}

/// Grades a student proof against an instructor key, given the external
/// rule-checker's verdict for each student line: the sequential pipeline's
/// first failure, or success.
pub fn grade(instructor: &Proof, student: &Proof, rule_ok: &Vec<bool>) -> (r: Result<
    (),
    GradeError,
>)
    requires
        has_unique_goal(*instructor),
        student.wf(),
        rule_ok@.len() == student.lines@.len(),
    ensures
        r == grade_outcome(*instructor, *student, rule_ok@),
{
    let i_vals = instructor.premise_values();
    let s_vals = student.premise_values();
    if !expr_sets_equal(&i_vals, &s_vals) {
        return Err(GradeError::PremiseMismatch);
    }
    let goal = find_goal(instructor);
    let k = find_stating(student, &goal);
    if k == student.lines.len() {
        return Err(GradeError::GoalNotFound);
    }
    if check_justified(student, rule_ok, k) {
        Ok(())
    } else {
        Err(GradeError::IncompleteJustification)
    }
}

/// Premise comparison is order-insensitive: premise value sequences that
/// are permutations of one another give equal premise sets, so they compare
/// equal.
pub proof fn lemma_premise_cmp_permutation(a: Seq<Expr>, b: Seq<Expr>)
    requires
        a.to_multiset() == b.to_multiset(),
    ensures
        a.to_set() == b.to_set(),
{
    broadcast use vstd::seq_lib::group_to_multiset_ensures;

    assert forall|x: Expr| a.contains(x) implies b.contains(x) by {
        assert(a.to_multiset().count(x) > 0);
    }
    assert forall|x: Expr| b.contains(x) implies a.contains(x) by {
        assert(b.to_multiset().count(x) > 0);
    }
    assert(a.to_set() =~= b.to_set());
}

/// Premise comparison is duplicate-insensitive: repeating a premise value
/// that is already present leaves the premise set unchanged, so it cannot
/// change how premise collections compare.
pub proof fn lemma_premise_cmp_duplicate(a: Seq<Expr>, i: int)
    requires
        0 <= i < a.len(),
    ensures
        a.push(a[i]).to_set() == a.to_set(),
{
    assert forall|x: Expr| a.push(a[i]).contains(x) implies a.contains(x) by {
        let w = choose|w: int| 0 <= w < a.push(a[i]).len() && a.push(a[i])[w] == x;
        if w < a.len() {
            assert(a[w] == x);
        } else {
            assert(a[i] == x);
        }
    }
    assert forall|x: Expr| a.contains(x) implies a.push(a[i]).contains(x) by {
        let w = choose|w: int| 0 <= w < a.len() && a[w] == x;
        assert(a.push(a[i])[w] == x);
    }
    assert(a.push(a[i]).to_set() =~= a.to_set());
}

} // verus!
