//! Identity of the macOS application.

use vstd::prelude::*;

verus! {

/// The application's bundle identifier, which is also its login item's label.
pub const BUNDLE_ID: &'static str = "com.spotfreeze.app";

} // verus!
