//! Core of an interactive natural-deduction proof tool: an expression pool
//! with stable handles, a cursor-optimized ordered container for proof lines,
//! an importer that builds a proof from a persisted document, and a grader
//! that checks a student proof against an instructor key.

pub mod expr;
pub mod grade;
pub mod importer;
pub mod model;
pub mod zipper_vec;
