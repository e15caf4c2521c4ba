use aris_core::expr::{Expr, ExprRef, Pool, ResolveError};
use aris_core::grade::{grade, GradeError};
use aris_core::importer::{parse, Document, ImportError, LineRecord};
use aris_core::model::{LineRef, Proof};

fn atom(n: u64) -> Expr {
    Expr::Atom(n)
}

fn and(a: Expr, b: Expr) -> Expr {
    Expr::And(Box::new(a), Box::new(b))
}

fn or(a: Expr, b: Expr) -> Expr {
    Expr::Or(Box::new(a), Box::new(b))
}

fn premise_rec(e: Expr) -> LineRecord {
    LineRecord { premise: true, expr: e, rule: 0, deps: vec![] }
}

fn derived_rec(e: Expr, rule: u64, deps: Vec<usize>) -> LineRecord {
    LineRecord { premise: false, expr: e, rule, deps }
}

fn doc_of(records: Vec<LineRecord>, author: &str) -> Document {
    Document { records, author: author.to_string(), fingerprint: 42 }
}

/// Instructor key: premises {P, Q}, goal P∧Q.
fn instructor_key() -> Proof {
    let d = doc_of(
        vec![
            premise_rec(atom(1)),
            premise_rec(atom(2)),
            derived_rec(and(atom(1), atom(2)), 1, vec![]),
        ],
        "instructor",
    );
    parse(d).unwrap().0
}

fn import(records: Vec<LineRecord>) -> Proof {
    parse(doc_of(records, "student")).unwrap().0
}

fn all_ok(p: &Proof) -> Vec<bool> {
    vec![true; p.direct_lines().len()]
}

#[test]
fn test_scenario_valid_derivation_succeeds() {
    let key = instructor_key();
    // Student premises {Q, P}, then P∧Q derived from both premises.
    let student = import(vec![
        premise_rec(atom(2)),
        premise_rec(atom(1)),
        derived_rec(and(atom(1), atom(2)), 1, vec![0, 1]),
    ]);
    let verdicts = all_ok(&student);
    assert_eq!(grade(&key, &student, &verdicts), Ok(()));
}

#[test]
fn test_scenario_missing_premise_mismatch() {
    let key = instructor_key();
    // Student premises {P} only: Q is missing.
    let student = import(vec![
        premise_rec(atom(1)),
        derived_rec(and(atom(1), atom(2)), 1, vec![0]),
    ]);
    let verdicts = all_ok(&student);
    assert_eq!(grade(&key, &student, &verdicts), Err(GradeError::PremiseMismatch));
}

#[test]
fn test_scenario_goal_not_found() {
    let key = instructor_key();
    // Premises match, but no top-level line states P∧Q.
    let student = import(vec![
        premise_rec(atom(1)),
        premise_rec(atom(2)),
        derived_rec(or(atom(1), atom(2)), 1, vec![0]),
    ]);
    let verdicts = all_ok(&student);
    assert_eq!(grade(&key, &student, &verdicts), Err(GradeError::GoalNotFound));
}

#[test]
fn test_scenario_circular_justification() {
    let key = instructor_key();
    // P∧Q is stated at top level, but its chain cites a line that cites the
    // goal line back: a cycle.
    let student = import(vec![
        premise_rec(atom(1)),
        premise_rec(atom(2)),
        derived_rec(and(atom(1), atom(2)), 1, vec![3]),
        derived_rec(atom(9), 2, vec![2]),
    ]);
    let verdicts = all_ok(&student);
    assert_eq!(grade(&key, &student, &verdicts), Err(GradeError::IncompleteJustification));
}

#[test]
fn test_rejected_rule_application_fails() {
    let key = instructor_key();
    let student = import(vec![
        premise_rec(atom(2)),
        premise_rec(atom(1)),
        derived_rec(and(atom(1), atom(2)), 1, vec![0, 1]),
    ]);
    // The external rule-checker rejects the goal line's rule application.
    let verdicts = vec![true, true, false];
    assert_eq!(grade(&key, &student, &verdicts), Err(GradeError::IncompleteJustification));
}

#[test]
fn test_premise_comparison_ignores_duplicates_and_order() {
    let key = instructor_key();
    // Duplicated and permuted premises still compare equal as a set.
    let student = import(vec![
        premise_rec(atom(2)),
        premise_rec(atom(1)),
        premise_rec(atom(2)),
        premise_rec(atom(1)),
        derived_rec(and(atom(1), atom(2)), 1, vec![1, 0]),
    ]);
    let verdicts = all_ok(&student);
    assert_eq!(grade(&key, &student, &verdicts), Ok(()));
}

#[test]
fn test_first_matching_line_decides() {
    let key = instructor_key();
    // Two lines state P∧Q; the first one in line order is examined, and its
    // broken chain decides the outcome.
    let student = import(vec![
        premise_rec(atom(1)),
        premise_rec(atom(2)),
        derived_rec(and(atom(1), atom(2)), 1, vec![3]),
        derived_rec(and(atom(1), atom(2)), 1, vec![0, 1]),
    ]);
    let verdicts = all_ok(&student);
    assert_eq!(grade(&key, &student, &verdicts), Err(GradeError::IncompleteJustification));
}

#[test]
fn test_import_rejects_premise_with_deps() {
    let d = doc_of(
        vec![LineRecord { premise: true, expr: atom(1), rule: 0, deps: vec![0] }],
        "student",
    );
    assert_eq!(parse(d).unwrap_err(), ImportError::MalformedDocument);
}

#[test]
fn test_import_rejects_dangling_reference() {
    let d = doc_of(
        vec![premise_rec(atom(1)), derived_rec(atom(2), 1, vec![5])],
        "student",
    );
    assert_eq!(parse(d).unwrap_err(), ImportError::DanglingReference);
}

#[test]
fn test_import_reports_first_fault() {
    // The malformed premise on line 0 is reported, not the dangling
    // reference on line 1.
    let d = doc_of(
        vec![
            LineRecord { premise: true, expr: atom(1), rule: 0, deps: vec![0] },
            derived_rec(atom(2), 1, vec![9]),
        ],
        "student",
    );
    assert_eq!(parse(d).unwrap_err(), ImportError::MalformedDocument);
}

#[test]
fn test_import_returns_author_and_fingerprint() {
    let d = doc_of(vec![premise_rec(atom(1))], "alex");
    let (_, author, fingerprint) = parse(d).unwrap();
    assert_eq!(author, "alex");
    assert_eq!(fingerprint, 42);
}

#[test]
fn test_model_enumeration() {
    let p = import(vec![
        premise_rec(atom(1)),
        derived_rec(and(atom(1), atom(1)), 3, vec![0]),
        premise_rec(atom(2)),
    ]);
    let lines = p.direct_lines();
    assert_eq!(lines.len(), 3);
    let premises = p.premises();
    assert_eq!(premises.len(), 2);
    assert_eq!(p.lookup_expr(premises[0]), Some(&atom(1)));
    assert_eq!(p.lookup_expr(premises[1]), Some(&atom(2)));
    // The dependency-graph query: rule and cited lines of the derived step.
    let (rule, deps) = p.justification(lines[1]).unwrap();
    assert_eq!(rule, 3);
    assert_eq!(deps, vec![LineRef { idx: 0 }]);
    assert_eq!(p.justification(lines[0]), None);
}

#[test]
fn test_pool_resolve() {
    let mut pool = Pool::new();
    let r = pool.intern(and(atom(1), atom(2)));
    assert_eq!(pool.resolve(r), Ok(and(atom(1), atom(2))));
    assert_eq!(pool.lookup(r), Some(&and(atom(1), atom(2))));
    // A handle this pool never issued is a foreign or stale reference.
    let foreign = ExprRef { idx: 17 };
    assert_eq!(pool.resolve(foreign), Err(ResolveError::UnknownReference));
    assert_eq!(pool.lookup(foreign), None);
}

#[test]
fn test_expr_structural_equality() {
    let a = and(atom(1), atom(2));
    let b = and(atom(1), atom(2));
    assert!(a.eq_value(&b));
    assert_eq!(a.duplicate(), b);
    assert!(!a.eq_value(&and(atom(2), atom(1))));
    assert!(!a.eq_value(&or(atom(1), atom(2))));
}
