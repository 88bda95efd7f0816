//! The settings page: no state of its own yet.

use vstd::prelude::*;

verus! {

/// Placeholder page state.
pub struct SettingsPage {}

} // verus!
