//! Predicate-guarded transition graphs: nodes joined by links that fire on an
//! input symbol, and a cursor that walks them one symbol at a time.
pub mod capability;
pub mod cursor;
pub mod graph;
pub mod laws;

pub use capability::{
    eq, not_eq, Condition, Equals, Fallback, Func, Guard, Inspect, NotEquals, Otherwise, Process, Symbol,
};
pub use cursor::Cursor;
pub use graph::{node, ANode, Graph, Link, LinkProcess, Linkable, Node, Work};
