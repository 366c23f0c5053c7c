//! Failures that the host reports.

use vstd::prelude::*;

verus! {

/// Error number of a link across devices.
pub const EXDEV: i32 = 18;

/// Error number of a link across volumes on Windows.
pub const ERROR_NOT_SAME_DEVICE: i32 = 17;

/// Error number of a file that another process has open on Windows.
pub const ERROR_SHARING_VIOLATION: i32 = 32;

/// The kinds of failure that the library tells apart.
#[derive(Clone, Copy, Debug, PartialEq, Eq, Structural)]
pub enum IoErrorKind {
    NotFound,
    PermissionDenied,
    ConnectionRefused,
    WouldBlock,
    Interrupted,
    CrossesDevices,
    Other,
}

/// A failure that the host reported.
#[derive(Clone, Copy, Debug, PartialEq, Eq, Structural)]
pub struct IoError {
    pub kind: IoErrorKind,
    /// The operating system's error number, where there is one.
    pub raw: Option<i32>,
}

/// Whether a link failed because the target is on another device.
pub open spec fn crosses_devices(error: IoError, platform_code: Option<i32>) -> bool {
    error.kind == IoErrorKind::CrossesDevices || (platform_code is Some && error.raw
        == platform_code)
}

/// Whether a link failed with the platform's own number for a link across devices.
pub fn is_platform_cross_device_link_error(error: IoError, platform_code: Option<i32>) -> (r: bool)
    ensures
        r == (platform_code is Some && error.raw == platform_code),
{
    match (error.raw, platform_code) {
        (Some(raw), Some(code)) => raw == code,
        _ => false,
    }
}

/// Whether a link failed because the target is on another device. `platform_code` is the
/// platform's own error number for that, where it has one.
pub fn is_cross_device_link_error(error: IoError, platform_code: Option<i32>) -> (r: bool)
    ensures
        r == crosses_devices(error, platform_code),
{
    error.kind == IoErrorKind::CrossesDevices || is_platform_cross_device_link_error(
        error,
        platform_code,
    )
}

/// Whether a lock file could not be opened because another process holds it, on Windows.
pub fn is_windows_lock_conflict(error: IoError) -> (r: bool)
    ensures
        r == (error.kind == IoErrorKind::PermissionDenied || error.kind == IoErrorKind::WouldBlock
            || error.raw == Some(ERROR_SHARING_VIOLATION)),
{
    if error.kind == IoErrorKind::PermissionDenied || error.kind == IoErrorKind::WouldBlock {
        return true;
    }
    match error.raw {
        Some(raw) => raw == ERROR_SHARING_VIOLATION,
        None => false,
    }
}

/// A link crosses devices where the host says so in its own words or by the platform's own number,
/// and nowhere else.
pub proof fn only_other_devices_are_crossed(error: IoError, code: i32)
    ensures
        error.kind == IoErrorKind::CrossesDevices ==> crosses_devices(error, None)
            && crosses_devices(error, Some(code)),
        error.kind != IoErrorKind::CrossesDevices ==> !crosses_devices(error, None),
        error.kind != IoErrorKind::CrossesDevices ==> (crosses_devices(error, Some(code))
            <==> error.raw == Some(code)),
{
}

/// Hosts have their own numbers for a link across devices and for a file that another process has
/// open.
pub proof fn links_fail_by_number()
    ensures
        EXDEV == 18,
        ERROR_NOT_SAME_DEVICE == 17,
        ERROR_SHARING_VIOLATION == 32,
{
}

} // verus!
