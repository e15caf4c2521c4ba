//! The proof data model: justified lines over an expression pool.
//!
//! A `Proof` is a pool of interned expressions plus an ordered root sequence
//! of lines, each either a premise or a derived step citing earlier lines.
//! The model exposes premise enumeration, top-level line enumeration,
//! reference resolution, and the dependency query that an external
//! rule-checker works from; it does not itself judge rule soundness.

use vstd::prelude::*;

use crate::expr::{Expr, ExprRef, Pool};
use crate::zipper_vec::ZipperVec;

verus! {

/// A handle to one line of a proof's root sequence.
#[derive(Clone, Copy, Debug, PartialEq, Eq, Structural)]
pub struct LineRef {
    /// Position of the line in the root sequence.
    pub idx: usize,
}

/// One justified line: an assumption, or a step derived from earlier lines
/// by a named rule.
#[derive(Debug, PartialEq, Eq)]
pub enum ProofLine {
    /// An assumption introduced without derivation.
    Premise(ExprRef),
    /// A step justified by a rule applied to cited dependency lines.
    Derived { expr: ExprRef, rule: u64, deps: Vec<LineRef> },
}

/// The expression a line states.
pub open spec fn line_expr(l: ProofLine) -> ExprRef {
    match l {
        ProofLine::Premise(r) => r,
        ProofLine::Derived { expr, .. } => expr,
    }
}

/// The rule a derived line applies; meaningless for premise lines.
pub open spec fn line_rule(l: ProofLine) -> u64 {
    match l {
        ProofLine::Derived { rule, .. } => rule,
        ProofLine::Premise(_) => arbitrary(),
    }
}

/// The dependency lines a derived line cites; meaningless for premise lines.
pub open spec fn line_deps(l: ProofLine) -> Seq<LineRef> {
    match l {
        ProofLine::Derived { deps, .. } => deps@,
        ProofLine::Premise(_) => arbitrary(),
    }
}

/// Every reference a line holds stays inside its proof: the stated
/// expression is interned, and cited lines exist.
pub open spec fn line_wf(l: ProofLine, n_exprs: int, n_lines: int) -> bool {
    &&& line_expr(l).idx < n_exprs
    &&& match l {
        ProofLine::Premise(_) => true,
        ProofLine::Derived { deps, .. } => forall|j: int|
            0 <= j < deps@.len() ==> (#[trigger] deps@[j]).idx < n_lines,
    }
}

/// The premise handles among `s`, in order.
pub open spec fn premise_refs(s: Seq<ProofLine>) -> Seq<ExprRef>
    decreases s.len(),
{
    if s.len() == 0 {
        Seq::empty()
    } else {
        let rest = premise_refs(s.drop_last());
        match s.last() {
            ProofLine::Premise(r) => rest.push(r),
            _ => rest,
        }
    }
}

/// Every handle in `premise_refs(s)` comes from a line of `s`, so it
/// inherits the lines' well-formedness bound.
pub proof fn lemma_premise_refs_wf(s: Seq<ProofLine>, n_exprs: int, n_lines: int)
    requires
        forall|i: int| 0 <= i < s.len() ==> line_wf(#[trigger] s[i], n_exprs, n_lines),
    ensures
        forall|j: int|
            0 <= j < premise_refs(s).len() ==> (#[trigger] premise_refs(s)[j]).idx < n_exprs,
    decreases s.len(),
{
    if s.len() > 0 {
        assert forall|i: int|
            0 <= i < s.drop_last().len() implies line_wf(
            #[trigger] s.drop_last()[i],
            n_exprs,
            n_lines,
        ) by {
            assert(s.drop_last()[i] == s[i]);
        }
        lemma_premise_refs_wf(s.drop_last(), n_exprs, n_lines);
        assert(line_wf(s.last(), n_exprs, n_lines));
        let rest = premise_refs(s.drop_last());
        assert forall|j: int|
            0 <= j < premise_refs(s).len() implies (#[trigger] premise_refs(s)[j]).idx
            < n_exprs by {
            if j < rest.len() {
                assert(premise_refs(s)[j] == rest[j]);
            } else {
                assert(premise_refs(s)[j] == line_expr(s.last()));
            }
        }
    }
}

/// A proof: an expression pool plus the ordered root sequence of lines.
/// During grading it is treated as immutable.
#[derive(Debug)]
pub struct Proof {
    pub pool: Pool,
    pub lines: ZipperVec<ProofLine>,
}

impl Proof {
    /// Every line's references stay inside this proof.
    pub open spec fn wf(self) -> bool {
        forall|i: int|
            0 <= i < self.lines@.len() ==> line_wf(
                #[trigger] self.lines@[i],
                self.pool@.len() as int,
                self.lines@.len() as int,
            )
    }

    /// The premise lines' expressions, resolved, in order.
    pub open spec fn premise_exprs(self) -> Seq<Expr> {
        premise_refs(self.lines@).map(|i: int, r: ExprRef| self.pool@[r.idx as int])
    }

    /// The assumption set of the top-level argument: duplicate- and
    /// order-insensitive.
    pub open spec fn premise_set(self) -> Set<Expr> {
        self.premise_exprs().to_set()
    }

    /// The handles of the premise-kind root lines, in order.
    pub fn premises(&self) -> (r: Vec<ExprRef>)
        ensures
            r@ == premise_refs(self.lines@),
    {
        let n = self.lines.len();
        let mut out: Vec<ExprRef> = Vec::new();
        let mut i: usize = 0;
        while i < n
            invariant
                n == self.lines@.len(),
                i <= n,
                out@ == premise_refs(self.lines@.subrange(0, i as int)),
            decreases n - i,
        {
            let ghost prev = self.lines@.subrange(0, i as int);
            match self.lines.get(i) {
                Some(line) => {
                    match line {
                        ProofLine::Premise(r) => {
                            out.push(*r);
                        },
                        _ => {},
                    }
                },
                None => {
                    proof {
                        assert(false);
                    }
                },
            }
            i += 1;
            proof {
                let cur = self.lines@.subrange(0, i as int);
                assert(cur.drop_last() =~= prev);
                assert(cur.last() == self.lines@[i - 1]);
            }
        }
        proof {
            assert(self.lines@.subrange(0, n as int) =~= self.lines@);
        }
        out
    }

    /// The premise lines' expressions resolved to values, in order; the
    /// raw material of premise-set comparison.
    pub fn premise_values(&self) -> (r: Vec<Expr>)
        requires
            self.wf(),
        ensures
            r@ == self.premise_exprs(),
    {
        proof {
            lemma_premise_refs_wf(
                self.lines@,
                self.pool@.len() as int,
                self.lines@.len() as int,
            );
        }
        let refs = self.premises();
        let m = refs.len();
        let mut out: Vec<Expr> = Vec::new();
        let mut k: usize = 0;
        while k < m
            invariant
                m == refs@.len(),
                k <= m,
                refs@ == premise_refs(self.lines@),
                forall|j: int|
                    0 <= j < m ==> (#[trigger] refs@[j]).idx < self.pool@.len(),
                out@.len() == k,
                forall|j: int|
                    0 <= j < k ==> #[trigger] out@[j] == self.pool@[refs@[j].idx as int],
            decreases m - k,
        {
            match self.pool.lookup(refs[k]) {
                Some(e) => {
                    out.push(e.duplicate());
                },
                None => {
                    proof {
                        assert(false);
                    }
                },
            }
            k += 1;
        }
        proof {
            assert(out@ =~= self.premise_exprs());
        }
        out
    }

    /// The root lines at nesting depth zero, in order.
    pub fn direct_lines(&self) -> (r: Vec<LineRef>)
        ensures
            r@.len() == self.lines@.len(),
            forall|i: int| 0 <= i < r@.len() ==> (#[trigger] r@[i]).idx == i,
    {
        let n = self.lines.len();
        let mut out: Vec<LineRef> = Vec::new();
        let mut i: usize = 0;
        while i < n
            invariant
                n == self.lines@.len(),
                i <= n,
                out@.len() == i,
                forall|j: int| 0 <= j < i ==> (#[trigger] out@[j]).idx == j,
            decreases n - i,
        {
            out.push(LineRef { idx: i });
            i += 1;
        }
        out
    }

    /// Resolves an expression handle; absent rather than failing, so that
    /// callers can build partial sets safely.
    pub fn lookup_expr(&self, r: ExprRef) -> (res: Option<&Expr>)
        ensures
            r.idx < self.pool@.len() ==> (res matches Some(e) && *e == self.pool@[r.idx as int]),
            r.idx >= self.pool@.len() ==> res is None,
    {
        self.pool.lookup(r)
    }

    /// The line a handle names, if it exists.
    pub fn line_at(&self, l: LineRef) -> (res: Option<&ProofLine>)
        ensures
            l.idx < self.lines@.len() ==> (res matches Some(x) && *x == self.lines@[l.idx as int]),
            l.idx >= self.lines@.len() ==> res is None,
    {
        self.lines.get(l.idx)
    }

    /// The dependency-graph query for an external rule-checker: a derived
    /// line's rule identifier and its cited dependency lines, absent for
    /// premise lines and unknown handles.
    pub fn justification(&self, l: LineRef) -> (res: Option<(u64, Vec<LineRef>)>)
        ensures
            l.idx < self.lines@.len() && (self.lines@[l.idx as int] is Derived) ==> (
            res matches Some(p) && p.0 == line_rule(self.lines@[l.idx as int]) && p.1@ == line_deps(
                self.lines@[l.idx as int],
            )),
            l.idx < self.lines@.len() && (self.lines@[l.idx as int] is Premise) ==> res is None,
            l.idx >= self.lines@.len() ==> res is None,
    {
        match self.lines.get(l.idx) {
            Some(line) => {
                match line {
                    ProofLine::Derived { rule, deps, .. } => {
                        let mut copy: Vec<LineRef> = Vec::new();
                        let mut j: usize = 0;
                        let m = deps.len();
                        while j < m
                            invariant
                                m == deps@.len(),
                                j <= m,
                                copy@ == deps@.subrange(0, j as int),
                            decreases m - j,
                        {
                            copy.push(deps[j]);
                            proof {
                                assert(copy@ =~= deps@.subrange(0, j + 1 as int));
                            }
                            j += 1;
                        }
                        proof {
                            assert(copy@ =~= deps@);
                        }
                        Some((*rule, copy))
                    },
                    ProofLine::Premise(_) => None,
                }
            },
            None => None,
        }
    }
}

} // verus!
