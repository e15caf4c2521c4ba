//! Logical expression values and the arena that interns them.
//!
//! An `Expr` is an immutable, structurally comparable expression tree. A
//! `Pool` owns a collection of interned expressions and hands out `ExprRef`
//! handles; a handle is meaningful only against its owning pool, so values
//! from different proofs must be resolved before they are compared.

use vstd::prelude::*;

verus! {

/// An immutable propositional expression, compared structurally.
#[derive(Debug, PartialEq, Eq)]
pub enum Expr {
    /// An atomic proposition, identified by a number.
    Atom(u64),
    Not(Box<Expr>),
    And(Box<Expr>, Box<Expr>),
    Or(Box<Expr>, Box<Expr>),
    Implies(Box<Expr>, Box<Expr>),
}

impl Expr {
    /// Structural equality; agrees with mathematical equality of the values.
    pub fn eq_value(&self, other: &Expr) -> (r: bool)
        ensures
            r == (self == other),
        decreases self,
    {
        match (self, other) {
            (Expr::Atom(a), Expr::Atom(b)) => *a == *b,
            (Expr::Not(a), Expr::Not(b)) => a.eq_value(b),
            (Expr::And(a1, a2), Expr::And(b1, b2)) => a1.eq_value(b1) && a2.eq_value(b2),
            (Expr::Or(a1, a2), Expr::Or(b1, b2)) => a1.eq_value(b1) && a2.eq_value(b2),
            (Expr::Implies(a1, a2), Expr::Implies(b1, b2)) => a1.eq_value(b1) && a2.eq_value(b2),
            _ => false,
        }
    }

    /// A structurally equal copy.
    pub fn duplicate(&self) -> (r: Expr)
        ensures
            r == self,
        decreases self,
    {
        match self {
            Expr::Atom(a) => Expr::Atom(*a),
            Expr::Not(a) => Expr::Not(Box::new(a.duplicate())),
            Expr::And(a, b) => Expr::And(Box::new(a.duplicate()), Box::new(b.duplicate())),
            Expr::Or(a, b) => Expr::Or(Box::new(a.duplicate()), Box::new(b.duplicate())),
            Expr::Implies(a, b) => Expr::Implies(Box::new(a.duplicate()), Box::new(b.duplicate())),
        }
    }
}

/// Failure of resolving a handle against a pool.
#[derive(Debug, PartialEq, Eq, Structural)]
pub enum ResolveError {
    /// The handle is foreign or stale: its owning pool is not this one.
    UnknownReference,
}

/// A stable handle to an expression interned in one `Pool`. Handle equality
/// is meaningful only within the owning pool.
#[derive(Clone, Copy, Debug, PartialEq, Eq, Structural)]
pub struct ExprRef {
    /// Index into the owning pool, in order of interning.
    pub idx: usize,
}

/// The arena that owns expression values for one proof and resolves the
/// handles it has issued.
#[derive(Debug, PartialEq, Eq)]
pub struct Pool {
    /// The interned values, in order of interning.
    pub exprs: Vec<Expr>,
}

impl View for Pool {
    type V = Seq<Expr>;

    open spec fn view(&self) -> Seq<Expr> {
        self.exprs@
    }
}

impl Pool {
    pub fn new() -> (r: Pool)
        ensures
            r@ == Seq::<Expr>::empty(),
    {
        Pool { exprs: Vec::new() }
    }

    /// Registers a value and returns a fresh handle for it.
    pub fn intern(&mut self, e: Expr) -> (r: ExprRef)
        requires
            old(self)@.len() < usize::MAX,
        ensures
            final(self)@ == old(self)@.push(e),
            r.idx == old(self)@.len(),
    {
        let r = ExprRef { idx: self.exprs.len() };
        self.exprs.push(e);
        r
    }

    /// Resolves a handle to a copy of its value; fails exactly on handles
    /// this pool never issued.
    pub fn resolve(&self, r: ExprRef) -> (res: Result<Expr, ResolveError>)
        ensures
            r.idx < self@.len() ==> res == Ok::<Expr, ResolveError>(self@[r.idx as int]),
            r.idx >= self@.len() ==> res == Err::<Expr, ResolveError>(
                ResolveError::UnknownReference,
            ),
    {
        if r.idx < self.exprs.len() {
            Ok(self.exprs[r.idx].duplicate())
        } else {
            Err(ResolveError::UnknownReference)
        }
    }

    /// Like `resolve`, but absent rather than failing, so that callers can
    /// build partial sets safely.
    pub fn lookup(&self, r: ExprRef) -> (res: Option<&Expr>)
        ensures
            r.idx < self@.len() ==> (res matches Some(e) && *e == self@[r.idx as int]),
            r.idx >= self@.len() ==> res is None,
    {
        if r.idx < self.exprs.len() {
            Some(&self.exprs[r.idx])
        } else {
            None
        }
    }
}

} // verus!
