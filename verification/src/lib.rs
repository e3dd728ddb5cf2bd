//! Query-planning core of a document database: a value domain, a query AST,
//! a term-to-plan compiler with an algebraic optimizer, a plan explainer,
//! and the wire protocol's two byte layers: length-prefixed framing and a
//! self-describing value encoding.
pub mod ast;
pub mod render;
pub mod planner;
pub mod frame;
pub mod wire;
