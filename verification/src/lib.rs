//! Verified core of a personal image proxy: naming rules, refresh decisions,
//! dashboard markup and request helpers.

pub mod html_components;
pub mod image_storage;
pub mod models;
pub mod request_handlers;
pub mod text;
pub mod utility;

use vstd::prelude::*;

verus! {

/// Default interval used when the form omits a refresh frequency.
pub const DEFAULT_FREQUENCY_HOURS: u64 = 4;

/// Maximum client cache lifetime for stored media and dashboard assets.
pub const CLIENT_MAX_AGE_SECS: u64 = 86_400;

} // verus!
