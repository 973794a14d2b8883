//! Network tags.

use vstd::prelude::*;

verus! {

/// The default network.
pub const GEO: &'static str = "GEO";

} // verus!
