pub mod ast;
pub mod hir;
pub mod js;
pub mod text;

use vstd::prelude::*;
use ast::syntax::ParserResult;

verus! {

/// A compiler from a source language: made from its options, it compiles an input
/// and parses one.
pub trait Compiler<Input, Output, Options>: Sized {
    /// Whether compiling the input is defined.
    spec fn compilable(&self, input: Input) -> bool;

    fn new(options: Options) -> Self;

    fn compile(&self, input: Input) -> (output: Output)
        requires
            self.compilable(input),
    ;

    fn parse(&self, input: Input) -> ParserResult;
}

} // verus!
