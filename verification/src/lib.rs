//! A bidirectional interning table for path values.
//!
//! The interner maps path values to small, dense, sequential integer
//! handles and back. Paths are keyed in the forward direction by a 64-bit
//! digest computed with `rustc_hash`'s Fx hasher rather than by the path
//! value itself, so the table never stores a second copy of a path and
//! never re-runs the path's equality machinery on lookup. The reverse
//! direction is a plain append-only vector indexed by handle.

pub mod interner;
pub mod laws;

pub use interner::FileId;
pub use interner::PathInterner;
pub use interner::VfsPath;
