//! Scoped call-path capture: a root scope bounds the stack walks made at leaf
//! points beneath it, and the linear captures are merged into one call tree.

pub mod capture;
pub mod context;
pub mod laws;
pub mod render;
pub mod symbol;
pub mod tree;
pub mod walk;
