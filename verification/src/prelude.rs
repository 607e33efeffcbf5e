//! Re-exports [`ResultExt`](crate::ResultExt) for glob imports.

pub use crate::ext::ResultExt;
