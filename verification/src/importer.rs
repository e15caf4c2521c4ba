//! Builds a `Proof` from a persisted document.
//!
//! The wire format itself is an external concern; a document arrives here as
//! plain records, one per root line, in order. Import validates the
//! document's structure — premise records carry no justification, and every
//! cited dependency names a record that exists — and then interns each
//! record's expression, producing the proof plus its author and content
//! fingerprint.

use vstd::prelude::*;

use crate::expr::{Expr, ExprRef, Pool};
use crate::model::{line_deps, line_expr, line_rule, LineRef, Proof, ProofLine};
use crate::zipper_vec::ZipperVec;

verus! {

/// Structural faults that make a document unusable.
#[derive(Clone, Copy, Debug, PartialEq, Eq, Structural)]
pub enum ImportError {
    /// The document does not match the expected schema.
    MalformedDocument,
    /// A dependency cites a line that does not exist in the document.
    DanglingReference,
}

/// One persisted root line: an expression, and for derived steps a rule
/// identifier with the indices of the cited lines.
#[derive(Debug, PartialEq, Eq)]
pub struct LineRecord {
    /// True for an assumption, false for a derived step.
    pub premise: bool,
    pub expr: Expr,
    /// The applied rule; meaningful only when `premise` is false.
    pub rule: u64,
    /// Indices of the cited dependency lines; must be empty for premises.
    pub deps: Vec<usize>,
}

/// A persisted proof document: ordered line records plus provenance.
#[derive(Debug, PartialEq, Eq)]
pub struct Document {
    pub records: Vec<LineRecord>,
    /// Who authored the proof.
    pub author: String,
    /// Opaque content identifier used for provenance.
    pub fingerprint: u64,
}

/// The structural fault of a single record, if any, against a document of
/// `n` lines. A premise carrying dependencies is malformed; a derived step
/// citing a line outside the document dangles.
pub open spec fn record_err(rec: LineRecord, n: int) -> Option<ImportError> {
    if rec.premise && rec.deps@.len() > 0 {
        Some(ImportError::MalformedDocument)
    } else if !rec.premise && exists|j: int| 0 <= j < rec.deps@.len() && rec.deps@[j] >= n {
        Some(ImportError::DanglingReference)
    } else {
        None
    }
}

/// The first record's fault in document order, if any record has one.
pub open spec fn doc_err(records: Seq<LineRecord>, n: int) -> Option<ImportError>
    decreases records.len(),
{
    if records.len() == 0 {
        None
    } else {
        match doc_err(records.drop_last(), n) {
            Some(e) => Some(e),
            None => record_err(records.last(), n),
        }
    }
}

/// When every record before `i` is clean and record `i` is faulty, the
/// document's first fault is record `i`'s.
proof fn lemma_doc_err_first(records: Seq<LineRecord>, n: int, i: int)
    requires
        0 <= i < records.len(),
        doc_err(records.subrange(0, i), n) is None,
        record_err(records[i], n) is Some,
    ensures
        doc_err(records, n) == record_err(records[i], n),
    decreases records.len(),
{
    if records.len() == i + 1 {
        assert(records.drop_last() =~= records.subrange(0, i));
        assert(records.last() == records[i]);
    } else {
        assert(records.drop_last().subrange(0, i) =~= records.subrange(0, i));
        assert(records.drop_last()[i] == records[i]);
        lemma_doc_err_first(records.drop_last(), n, i);
    }
}

/// A clean document has only clean records.
proof fn lemma_doc_err_none(records: Seq<LineRecord>, n: int)
    requires
        doc_err(records, n) is None,
    ensures
        forall|i: int| 0 <= i < records.len() ==> record_err(#[trigger] records[i], n) is None,
    decreases records.len(),
{
    if records.len() > 0 {
        lemma_doc_err_none(records.drop_last(), n);
        assert forall|i: int|
            0 <= i < records.len() implies record_err(#[trigger] records[i], n) is None by {
            if i < records.len() - 1 {
                assert(records[i] == records.drop_last()[i]);
            } else {
                assert(records[i] == records.last());
            }
        }
    }
}

/// How an imported line reflects its record: same kind, the expression
/// interned at the record's own index, and for derived steps the same rule
/// and the same cited lines.
pub open spec fn line_matches_record(l: ProofLine, rec: LineRecord, i: usize) -> bool {
    &&& line_expr(l) == (ExprRef { idx: i })
    &&& (l is Premise <==> rec.premise)
    &&& !rec.premise ==> line_rule(l) == rec.rule && line_deps(l) == rec.deps@.map_values(
        |d: usize| LineRef { idx: d },
    )
}

/// Deserializes a persisted document into a proof, its author, and its
/// content fingerprint. Rejects, with the first fault in document order,
/// premises that carry dependencies (`MalformedDocument`) and dependency
/// citations of nonexistent lines (`DanglingReference`).
pub fn parse(doc: Document) -> (r: Result<(Proof, String, u64), ImportError>)
    ensures
        doc_err(doc.records@, doc.records@.len() as int) is None ==> (r matches Ok(t)
            && t.0.wf()
            && t.0.pool@ == doc.records@.map_values(|rec: LineRecord| rec.expr)
            && t.0.lines@.len() == doc.records@.len()
            && (forall|i: int| 0 <= i < doc.records@.len() ==> line_matches_record(
                #[trigger] t.0.lines@[i],
                doc.records@[i],
                i as usize,
            ))
            && t.1 == doc.author && t.2 == doc.fingerprint),
        doc_err(doc.records@, doc.records@.len() as int) is Some ==> r == Err::<
            (Proof, String, u64),
            ImportError,
        >(doc_err(doc.records@, doc.records@.len() as int).unwrap()),
{
    let n = doc.records.len();
    let ghost recs = doc.records@;

    // Validation pass: find the first structural fault, if any.
    let mut i: usize = 0;
    while i < n
        invariant
            n == recs.len(),
            i <= n,
            recs == doc.records@,
            doc_err(recs.subrange(0, i as int), n as int) is None,
        decreases n - i,
    {
        let rec = &doc.records[i];
        if rec.premise {
            if rec.deps.len() > 0 {
                proof {
                    lemma_doc_err_first(recs, n as int, i as int);
                }
                return Err(ImportError::MalformedDocument);
            }
        } else {
            let m = rec.deps.len();
            let mut j: usize = 0;
            while j < m
                invariant
                    m == rec.deps@.len(),
                    j <= m,
                    i < n,
                    n == recs.len(),
                    recs == doc.records@,
                    *rec == recs[i as int],
                    !rec.premise,
                    doc_err(recs.subrange(0, i as int), n as int) is None,
                    forall|j2: int| 0 <= j2 < j ==> (#[trigger] rec.deps@[j2]) < n,
                decreases m - j,
            {
                if rec.deps[j] >= n {
                    proof {
                        assert(rec.deps@[j as int] >= n);
                        assert(record_err(recs[i as int], n as int) == Some(
                            ImportError::DanglingReference,
                        ));
                        lemma_doc_err_first(recs, n as int, i as int);
                    }
                    return Err(ImportError::DanglingReference);
                }
                j += 1;
            }
        }
        i += 1;
        proof {
            let cur = recs.subrange(0, i as int);
            assert(cur.drop_last() =~= recs.subrange(0, i - 1));
            assert(cur.last() == recs[i - 1]);
            assert(record_err(recs[i - 1], n as int) is None);
        }
    }
    proof {
        assert(recs.subrange(0, n as int) =~= recs);
        lemma_doc_err_none(recs, n as int);
    }

    // Build pass: intern each expression and lay down the lines in order.
    let mut pool = Pool::new();
    let mut lines: ZipperVec<ProofLine> = ZipperVec::new();
    let mut i: usize = 0;
    while i < n
        invariant
            n == recs.len(),
            i <= n,
            recs == doc.records@,
            forall|k: int| 0 <= k < recs.len() ==> record_err(#[trigger] recs[k], n as int) is None,
            pool@ == recs.subrange(0, i as int).map_values(|rec: LineRecord| rec.expr),
            lines@.len() == i,
            forall|k: int|
                0 <= k < i ==> line_matches_record(#[trigger] lines@[k], recs[k], k as usize),
            forall|k: int|
                0 <= k < i ==> crate::model::line_wf(#[trigger] lines@[k], i as int, n as int),
        decreases n - i,
    {
        let rec = &doc.records[i];
        let re = pool.intern(rec.expr.duplicate());
        let line = if rec.premise {
            ProofLine::Premise(re)
        } else {
            let m = rec.deps.len();
            let mut dv: Vec<LineRef> = Vec::new();
            let mut j: usize = 0;
            while j < m
                invariant
                    m == rec.deps@.len(),
                    j <= m,
                    dv@ == rec.deps@.subrange(0, j as int).map_values(|d: usize| LineRef { idx: d }),
                decreases m - j,
            {
                dv.push(LineRef { idx: rec.deps[j] });
                proof {
                    assert(dv@ =~= rec.deps@.subrange(0, j + 1 as int).map_values(
                        |d: usize| LineRef { idx: d },
                    ));
                }
                j += 1;
            }
            proof {
                assert(rec.deps@.subrange(0, m as int) =~= rec.deps@);
            }
            ProofLine::Derived { expr: re, rule: rec.rule, deps: dv }
        };
        lines.push(line);
        i += 1;
        proof {
            assert(pool@ =~= recs.subrange(0, i as int).map_values(|rec: LineRecord| rec.expr));
            assert(record_err(recs[i - 1], n as int) is None);
        }
    }
    let p = Proof { pool, lines };
    proof {
        assert(recs.subrange(0, n as int) =~= recs);
        assert forall|k: int|
            0 <= k < p.lines@.len() implies crate::model::line_wf(
            #[trigger] p.lines@[k],
            p.pool@.len() as int,
            p.lines@.len() as int,
        ) by {
            assert(crate::model::line_wf(p.lines@[k], n as int, n as int));
        }
    }
    Ok((p, doc.author, doc.fingerprint))
}

} // verus!
