//! The one failure this crate's storage strategies report.

use vstd::prelude::*;

verus! {

/// Returned when `free` is handed a handle that is no longer live: the slot
/// was already freed (a double free) and may since have been reused.  The
/// storage strategies report this loudly instead of silently doing nothing,
/// because masking it would turn a detectable bug into a latent one.
#[derive(Debug, Clone, Copy, PartialEq, Eq, Structural)]
pub struct StaleHandleError;

} // verus!
