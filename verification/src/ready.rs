//! The ready line, by which the module says that it has data to send or is
//! prepared to receive.

use vstd::prelude::*;

verus! {

/// Whether a sample of the ready line shows the module ready. A line that
/// could not be read counts as not ready.
pub open spec fn ready(sample: Option<bool>) -> bool {
    sample == Some(true)
}

/// Whether a sample of the ready line shows the module ready. A line that
/// could not be read counts as not ready.
pub fn is_ready(sample: Option<bool>) -> (yes: bool)
    ensures
        yes == ready(sample),
{
    match sample {
        Some(level) => level,
        None => false,
    }
}

} // verus!
