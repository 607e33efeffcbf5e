//! Call-site context for `Result<T, E>` that keeps the concrete error type.
//!
//! `ResultExt::annotate` wraps the error of a `Result` in an [`Error`] that
//! carries a context string next to the original, still typed, error value.

mod error;
mod ext;
pub mod prelude;

pub use error::Error;
pub use ext::ResultExt;

use vstd::prelude::*;

verus! {

/// Shorthand for `core::result::Result<T, Error<E>>`.
pub type Result<T, E> = core::result::Result<T, Error<E>>;

} // verus!
