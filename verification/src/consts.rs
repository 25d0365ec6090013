//! Names used where the user gave none.

use vstd::prelude::*;

verus! {

/// The title of a story that has none.
pub const DEFAULT_TITLE: &'static str = "Untitled";

/// The author of a story that has none.
pub const DEFAULT_AUTHOR: &'static str = "Anonymous";

/// The name of a model whose name cannot be told.
pub const DEFAULT_MODEL_NAME: &'static str = "AI";

} // verus!
