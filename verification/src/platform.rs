//! Platform facts that this build provides without the macOS frameworks,
//! and virtual desktop (Spaces) queries, which need private macOS APIs that
//! are not bound.
use vstd::prelude::*;

verus! {

/// The user-info key of a workspace notification that holds the process id
/// of the application concerned.
#[allow(non_upper_case_globals)]
pub const NSApplicationProcessIdentifier: &'static str = "NSApplicationProcessIdentifier";

/// The macOS window-manager backend.
pub struct MacOsBackend;

/// The Windows window-manager backend.
pub struct WindowsBackend;

/// Make the process an accessory app (no Dock icon). Without the macOS
/// application framework there is nothing to change.
pub fn set_accessory_activation_policy() {
}

/// The major macOS version; 0 where the macOS frameworks are not available.
pub fn macos_major_version() -> (r: u32)
    ensures
        r == 0,
{
    0
}

/// A virtual desktop of a display.
#[derive(Debug, Clone)]
pub struct SpaceInfo {
    pub display_id: u32,
    pub space_index: u8,
    pub display_uuid: String,
}

/// Every virtual desktop; none are known without the private API.
pub fn all_spaces() -> (r: Vec<SpaceInfo>)
    ensures
        r@.len() == 0,
{
    Vec::new()
}

/// The active virtual desktop of a display; unknown without the private API.
pub fn active_space_for_display(_display_id: u32) -> (r: Option<u8>)
    ensures
        r is None,
{
    None
}

/// Switch a display to a virtual desktop; not possible without the private
/// API, so nothing happens.
pub fn switch_to_space(_display_id: u32, _space_index: u8) {
}

} // verus!
