//! The lifecycle: the MCP session rules, not the conversation. When it ends,
//! whoever was watching the window gets a moment to see why it goes away.

use vstd::prelude::*;

verus! {

/// The goodbye, in milliseconds: just enough for whoever was watching on the
/// second monitor to learn why the window is disappearing. Leaving it on
/// screen would turn the ephemeral into a broken promise.
pub const FAREWELL_MILLIS: u64 = 2500;

} // verus!
