//! Compilation errors.

use vstd::prelude::*;

use crate::utils::info::Info;

verus! {

/// An error found while compiling, with the position it concerns.
#[derive(Debug, PartialEq, Eq)]
pub struct CompileError {
    pub i: Info,
    pub msg: String,
}

/// The outcome of a compilation step.
pub type CompileResult<T> = Result<T, CompileError>;

/// What a `CompileError` says.
pub struct SpecCompileError {
    pub i: Info,
    pub msg: Seq<char>,
}

impl View for CompileError {
    type V = SpecCompileError;

    open spec fn view(&self) -> SpecCompileError {
        SpecCompileError { i: self.i, msg: self.msg@ }
    }
}

impl CompileError {
    pub fn new(i: &Info, msg: &str) -> (r: CompileError)
        ensures
            r@ == (SpecCompileError { i: *i, msg: msg@ }),
    {
        CompileError { i: *i, msg: msg.to_string() }
    }
}

} // verus!
