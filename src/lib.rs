//! A growable vector whose handle is a single pointer: the length and the
//! capacity live in a header at the front of the block that also holds the
//! elements.

pub mod allocator;
pub mod growth;
pub mod layout;
pub mod vector;

pub use allocator::{AllocError, Allocator, Global, Request};
pub use layout::{BlockLayout, LayoutOverflow};
pub use vector::{SmolVec, SmolVecError};
