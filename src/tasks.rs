//! Descriptions that come with a task bundle.
use vstd::prelude::*;

verus! {

/// File format of one part of a statement.
#[derive(Clone, Copy, Debug, PartialEq, Eq, Structural)]
pub enum StatementFormat {
    Markdown,
    Tex,
    Pdf,
}

/// The format of each part of a task statement.
#[derive(Clone, Copy, Debug, PartialEq, Eq, Structural)]
pub struct Statement {
    pub input: StatementFormat,
    pub output: StatementFormat,
    pub legend: StatementFormat,
    pub name: StatementFormat,
    pub notes: StatementFormat,
}

/// A grader stub for one language.
#[derive(Clone, Debug)]
pub struct Stub {
    pub object_file: String,
}

} // verus!
