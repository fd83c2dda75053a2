//! Containers and handles that track, at run time, what ordinary Rust
//! tracks in its types: which slots of a buffer hold a value, and whether
//! a handle owns what it points to.

pub mod might_own;
pub mod uninitialized;

pub use might_own::MightOwn;
pub use uninitialized::SafeUninitializedVec;
