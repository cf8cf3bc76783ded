//! What the embedding platform provides.

use vstd::prelude::*;

verus! {

/// An item the platform hands to the library, which may move between
/// threads.
pub trait PlatformItem: Sync + Send + 'static {}

} // verus!
