//! Building blocks for programs that work with the Seax virtual machine, a
//! stack machine in the SECD tradition that runs functional languages.
//!
//! + `cell`: the cells of the machine: atoms, instructions and lists.
//! + `list`: the singly linked list that the machine is built on, and the
//!   stack operations on it.
//! + `compiler_tools`: what compilers for the machine share: the table of
//!   bound names, the contract of a syntax tree, places in the source.
//! + `text`: how values are turned into text.
pub mod cell;
pub mod compiler_tools;
pub mod list;
pub mod text;

pub use self::cell::{Atom, Inst, SVMCell};
pub use self::list::List::{Cons, Nil};
pub use self::list::{List, Stack};
