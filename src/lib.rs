//! Reflection substrate: a generic write path into tracked memory and a
//! cycle-safe, depth-bounded pretty printer over reflected value graphs.
pub mod peek;
pub mod printer;
pub mod render_proofs;
pub mod shape;
pub mod slot;
pub mod style;
