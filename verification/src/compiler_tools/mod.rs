//! What compilers that target the machine share: places in the source, the
//! table of bound names, and the contract of a syntax tree.
use vstd::prelude::*;
use std::hash::Hash;
use crate::cell::SVMCell;

pub mod ast;
pub mod forktable;
pub mod location;

pub use self::ast::{ASTNode, INDENT};
pub use self::forktable::ForkTable;
pub use self::location::{AtLocation, Location};

verus! {

/// A place in the environment of the machine. The environment is a stack of
/// levels, each a list of values: the first number is the level, the second
/// the position within the level.
pub type Index = (u64, u64);

/// The table of bound names: it maps a name to the place in the environment
/// that holds the value bound to it.
pub type SymTable<'a> = ForkTable<'a>;

/// What the compilation of a node comes to: the cells it compiles to, or a
/// message that says why it does not compile.
pub type CompileResult = Result<Vec<SVMCell>, String>;

/// A table of bound names.
pub trait Scope<K> where K: Eq + Hash {
    /// Binds a name at a level of the environment, and returns the place that
    /// the name is bound to.
    fn bind(&mut self, name: K, lvl: u64) -> (index: Index)
        ensures
            index.0 == lvl,
    ;

    /// The place that a name is bound to, or `None` if the name is unbound.
    fn lookup(&self, name: &K) -> Option<Index>;
}

} // verus!
