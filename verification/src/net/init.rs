use vstd::prelude::*;
use crate::error::{Error, ErrorView};

verus! {

/// Stands for the network subsystem in its started state: while the guard
/// lives the subsystem is up, and whoever drops it shuts the subsystem
/// down.
#[derive(Debug)]
pub struct InitGuard;

/// The version of the socket layer that is asked for: 2.2, the minor
/// number in the high byte.
pub fn requested_version() -> (r: u16)
    ensures
        r == 0x0202,
{
    let major: u16 = 2;
    let minor: u16 = 2;
    assert(minor << 8 == 0x0200) by (bit_vector)
        requires
            minor == 2,
    ;
    major + (minor << 8)
}

/// Starts the network subsystem: `started` is the code that the system
/// returned when it was asked to start the socket layer in the version
/// that `requested_version` gives. Zero means that it is up.
pub fn initialize(started: i32) -> (r: Result<InitGuard, Error>)
    ensures
        started == 0 ==> r is Ok,
        started != 0 ==> r is Err && r->Err_0@ == ErrorView::Os(started),
{
    if started != 0 {
        return Err(Error::from_os_error_code(started));
    }
    Ok(InitGuard)
}

} // verus!
