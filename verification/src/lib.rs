//! Tree-traversal visitors for composite data.
//!
//! The traversal routine of a type is synthesized from its declaration: the
//! attribute blocks on the type, on its variants and on its fields say what
//! to skip and which traversal function to use ([`params`], [`synth`]). A
//! routine is run over a value, a tree of nodes, by a visitor whose hooks are
//! called around each node and can break the traversal off ([`visit`],
//! [`run`], [`run_mut`], [`function`]). What holds of synthesis and
//! traversal as a whole is proved in [`laws`] and [`shared`].

pub mod error;
pub mod function;
pub mod laws;
pub mod meta;
pub mod node;
pub mod params;
pub mod routine;
pub mod run;
pub mod run_mut;
pub mod schema;
pub mod shape;
pub mod shared;
pub mod synth;
pub mod token;
pub mod tree;
pub mod visit;

pub use crate::function::FnVisitor;
pub use crate::tree::Traversable;
pub use crate::tree::TraversableMut;
pub use crate::visit::Event;
pub use crate::visit::Visitor;
pub use crate::visit::VisitorMut;
