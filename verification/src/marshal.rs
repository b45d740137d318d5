//! Locating the runtime's `Marshal.PtrToStringAnsi` routine.
use vstd::prelude::*;

verus! {

/// Distance from the start of the scanned byte pattern to the routine.
pub const PTR_TO_STRING_ANSI_OFFSET: usize = 0x140;

/// The cached address of the routine after a scan with result `scanned`,
/// starting from `cached`.
pub open spec fn found_address(cached: Option<usize>, scanned: Option<usize>) -> Option<usize> {
    match scanned {
        Some(addr) => Some((addr + PTR_TO_STRING_ANSI_OFFSET) as usize),
        None => cached,
    }
}

/// The cached address of the routine after a scan: the routine lies
/// `PTR_TO_STRING_ANSI_OFFSET` bytes past the pattern when the scan found
/// it; when the scan found nothing the cache keeps what it held.
pub fn find(cached: Option<usize>, scanned: Option<usize>) -> (r: Option<usize>)
    requires
        scanned matches Some(addr) ==> addr + PTR_TO_STRING_ANSI_OFFSET <= usize::MAX,
    ensures
        r == found_address(cached, scanned),
        scanned matches Some(addr) ==> r matches Some(found) && found == addr + 0x140,
        scanned is None ==> r == cached,
{
    match scanned {
        Some(addr) => Some(addr + PTR_TO_STRING_ANSI_OFFSET),
        None => cached,
    }
}

/// The module that holds the routine, given which game executable is
/// loaded; one of the two supported executables must be.
pub fn module(beta_loaded: bool, alpha_loaded: bool) -> (r: &'static str)
    requires
        beta_loaded || alpha_loaded,
    ensures
        r@ == "GameAssembly.dll"@,
{
    if beta_loaded {
        "GameAssembly.dll"
    } else {
        "GameAssembly.dll"
    }
}

/// The found routine lies 0x140 bytes past the scanned pattern, by integer
/// addition of the whole address; a failed scan leaves the cache as it was.
pub proof fn law_find_adds_offset(cached: Option<usize>, scanned: Option<usize>)
    requires
        scanned matches Some(addr) ==> addr + 0x140 <= usize::MAX,
    ensures
        scanned matches Some(addr) ==> found_address(cached, scanned) matches Some(found)
            && found == addr + 0x140,
        scanned is None ==> found_address(cached, scanned) == cached,
{
}

/// Scanning again with the same result changes nothing: a second `find`
/// leaves the cache as the first one left it.
pub proof fn law_find_idempotent(cached: Option<usize>, scanned: Option<usize>)
    requires
        scanned matches Some(addr) ==> addr + PTR_TO_STRING_ANSI_OFFSET <= usize::MAX,
    ensures
        found_address(found_address(cached, scanned), scanned) == found_address(cached, scanned),
{
}

} // verus!
