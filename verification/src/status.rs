//! Status codes exchanged with the host, in its 32-bit signed convention.
//!
//! A status is an `i32`. Negative values report failure; zero and positive
//! values report success, possibly qualified.

use vstd::prelude::*;

verus! {

/// A host status code.
pub type StatusCode = i32;

/// The request completed.
pub const S_OK: StatusCode = 0;

/// The request ended without a result to report.
pub const S_FALSE: StatusCode = 1;

/// An argument was not valid (`0x80070057`).
pub const E_INVALIDARG: StatusCode = -2147024809;

/// Memory could not be obtained (`0x8007000E`).
pub const E_OUTOFMEMORY: StatusCode = -2147024882;

/// The path is not in the backing store (`0x80070002`).
pub const E_FILE_NOT_FOUND: StatusCode = -2147024894;

/// The operation is refused by policy (`0x80070005`).
pub const E_ACCESS_DENIED: StatusCode = -2147024891;

/// System error code: the file was not found.
pub const ERROR_FILE_NOT_FOUND: u32 = 2;

/// System error code: access is denied.
pub const ERROR_ACCESS_DENIED: u32 = 5;

/// The request failed, with no further detail (`0x80004005`).
pub const E_FAIL: StatusCode = -2147467259;

/// The status every handler error collapses to at the native boundary: a
/// failure, the same for every error.
pub const GENERIC_FAILURE: StatusCode = E_FAIL;

/// Whether `status` reports failure to the host.
pub open spec fn spec_failed(status: StatusCode) -> bool {
    status < 0
}

/// Whether `status` reports failure to the host.
#[verifier::when_used_as_spec(spec_failed)]
pub fn failed(status: StatusCode) -> (b: bool)
    ensures
        b == spec_failed(status),
{
    status < 0
}

/// The status that stands for system error `code`.
///
/// Zero stays zero and a code with its top bit set is already a status, read
/// as a signed value. Any other code keeps its low sixteen bits and gains the
/// failure bit and the system facility: `0x8007xxxx`.
pub open spec fn spec_hresult_from_win32(code: u32) -> int {
    if code == 0 {
        0
    } else if code >= 0x8000_0000 {
        code - 0x1_0000_0000
    } else {
        (code % 0x1_0000) + 0x8007_0000 - 0x1_0000_0000
    }
}

/// Turns a system error code into a status.
pub fn hresult_from_win32(code: u32) -> (hr: StatusCode)
    ensures
        hr == spec_hresult_from_win32(code),
        code != 0 ==> spec_failed(hr),
{
    if code == 0 {
        0
    } else if code >= 0x8000_0000 {
        let wide: i64 = code as i64 - 0x1_0000_0000;
        wide as i32
    } else {
        let low: u32 = code % 0x1_0000;
        let wide: i64 = low as i64 + 0x8007_0000 - 0x1_0000_0000;
        wide as i32
    }
}

/// The named failure statuses are the images of their system error codes.
pub proof fn lemma_named_statuses()
    ensures
        spec_hresult_from_win32(ERROR_FILE_NOT_FOUND) == E_FILE_NOT_FOUND,
        spec_hresult_from_win32(ERROR_ACCESS_DENIED) == E_ACCESS_DENIED,
        spec_failed(E_FILE_NOT_FOUND),
        spec_failed(E_ACCESS_DENIED),
        spec_failed(E_INVALIDARG),
        spec_failed(E_OUTOFMEMORY),
        spec_failed(E_FAIL),
        spec_failed(GENERIC_FAILURE),
        !spec_failed(S_OK),
        !spec_failed(S_FALSE),
{
}

} // verus!
