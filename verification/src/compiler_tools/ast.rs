//! The contract of a syntax tree.
//!
//! A compiler for the machine gives its own node types. Each of them
//! implements `ASTNode`, so that every compiler is driven in the same way.
use vstd::prelude::*;
use crate::compiler_tools::{CompileResult, SymTable};

verus! {

/// The text that one level of indentation is made of.
pub const INDENT: &'static str = "\t";

/// A node of a syntax tree.
pub trait ASTNode {
    /// Compiles the node to the cells of a program, in the order in which the
    /// machine is to run them, or to a message that says what is wrong with
    /// the node. A name that the table does not bind is reported by such a
    /// message.
    ///
    /// The table of bound names is read and left as it is: a node that opens
    /// a scope forks the table for its children.
    fn compile<'a>(&'a self, state: &'a SymTable<'a>) -> CompileResult;

    /// The node as text, not indented: what `print_level` gives for the
    /// level 0.
    fn prettyprint(&self) -> (text: String)
        ensures
            call_ensures(Self::print_level, (self, 0usize), text),
    {
        self.print_level(0)
    }

    /// The node as text, indented by `level` copies of `INDENT`, its
    /// children one level deeper.
    fn print_level(&self, level: usize) -> String;
}

} // verus!
