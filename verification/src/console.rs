//! Console preparation. The portable form of the library has nothing to
//! configure, so the call always succeeds; a host running on a Windows
//! console makes the platform call itself before tailing.

use vstd::prelude::*;

verus! {

/// Prepares the console for output. Nothing needs setting up here, so the
/// call always succeeds.
pub fn setup_windows_console() -> (r: Result<(), ()>)
    ensures
        r is Ok,
{
    Ok(())
}

} // verus!
