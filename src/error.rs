//! The single diagnostic shape that every stage reports failures in.
use vstd::prelude::*;

verus! {

/// Which stage of the pipeline failed.
#[derive(Debug, Clone, Copy, PartialEq, Eq, Structural)]
pub enum ErrorKind {
    /// A delimited metadata block whose body does not parse.
    FrontmatterParse,
    /// A plugin failed in the tree phase or the text phase.
    Plugin,
    /// The tree handed to code generation has a shape it cannot emit.
    CodegenInvariant,
    /// Assembly of the final module failed.
    Assembly,
}

/// Error with message and optional location, context and suggested fix.
#[derive(Debug, Clone)]
pub struct MdxError {
    pub kind: ErrorKind,
    pub message: String,
    pub file: Option<String>,
    /// 1-indexed line.
    pub line: Option<u64>,
    /// 1-indexed column.
    pub column: Option<u64>,
    pub context: Option<String>,
    pub suggestion: Option<String>,
}

impl MdxError {
    /// An error of `kind` with only a message.
    pub fn new(kind: ErrorKind, message: String) -> (r: MdxError)
        ensures
            r.kind == kind,
            r.message@ == message@,
            r.file is None,
            r.line is None,
            r.column is None,
            r.context is None,
            r.suggestion is None,
    {
        MdxError { kind, message, file: None, line: None, column: None, context: None, suggestion: None }
    }

    /// The same error with a file path attached.
    pub fn with_file(self, file: String) -> (r: MdxError)
        ensures
            r == (MdxError { file: Some(file), ..self }),
    {
        MdxError { file: Some(file), ..self }
    }
}

} // verus!
