//! A fixed-capacity store that keeps its values inline and hands out
//! independent mutable accessors to distinct slots, one per position per
//! traversal.

use vstd::prelude::*;

pub mod cursor;
pub mod duo;
pub mod store;

pub use cursor::MutatingCursor;
pub use duo::Duo;
pub use store::{CapacityExceeded, InlineStore};
