use prjfs::provider::{status_from_result, ProviderError};
use prjfs::status::{
    failed, hresult_from_win32, E_ACCESS_DENIED, E_FAIL, E_FILE_NOT_FOUND, E_INVALIDARG,
    E_OUTOFMEMORY, ERROR_ACCESS_DENIED, ERROR_FILE_NOT_FOUND, GENERIC_FAILURE, S_FALSE, S_OK,
};

#[test]
fn named_statuses_have_the_values_of_the_host() {
    assert_eq!(S_OK, 0);
    assert_eq!(S_FALSE, 1);
    assert_eq!(E_INVALIDARG as u32, 0x8007_0057);
    assert_eq!(E_OUTOFMEMORY as u32, 0x8007_000E);
    assert_eq!(E_FILE_NOT_FOUND as u32, 0x8007_0002);
    assert_eq!(E_ACCESS_DENIED as u32, 0x8007_0005);
    assert_eq!(E_FAIL as u32, 0x8000_4005);
}

#[test]
fn system_error_codes_become_failure_statuses() {
    assert_eq!(hresult_from_win32(ERROR_ACCESS_DENIED), E_ACCESS_DENIED);
    assert_eq!(hresult_from_win32(ERROR_FILE_NOT_FOUND), E_FILE_NOT_FOUND);
    assert_eq!(hresult_from_win32(87), E_INVALIDARG);
    assert_eq!(hresult_from_win32(14), E_OUTOFMEMORY);
    assert_eq!(hresult_from_win32(0xFFFF) as u32, 0x8007_FFFF);
}

#[test]
fn zero_stays_success() {
    assert_eq!(hresult_from_win32(0), S_OK);
}

#[test]
fn only_the_low_sixteen_bits_of_a_code_are_kept() {
    assert_eq!(hresult_from_win32(0x0001_0005) as u32, 0x8007_0005);
    assert_eq!(hresult_from_win32(0x7FFF_0000) as u32, 0x8007_0000);
}

#[test]
fn a_code_with_the_top_bit_set_is_a_status_already() {
    assert_eq!(hresult_from_win32(0x8007_0005), E_ACCESS_DENIED);
    assert_eq!(hresult_from_win32(0x8000_0000), i32::MIN);
    assert_eq!(hresult_from_win32(0xFFFF_FFFF), -1);
}

#[test]
fn negative_statuses_are_failures() {
    assert!(failed(E_INVALIDARG));
    assert!(failed(-1));
    assert!(!failed(S_OK));
    assert!(!failed(S_FALSE));
}

#[test]
fn a_status_chosen_by_the_handler_passes_through() {
    assert_eq!(status_from_result(Ok(S_OK)), S_OK);
    assert_eq!(status_from_result(Ok(E_ACCESS_DENIED)), E_ACCESS_DENIED);
    assert_eq!(status_from_result(Ok(E_INVALIDARG)), E_INVALIDARG);
    assert_eq!(status_from_result(Ok(12345)), 12345);
}

#[test]
fn every_error_collapses_to_the_generic_failure() {
    assert_eq!(GENERIC_FAILURE, E_FAIL);
    assert_eq!(GENERIC_FAILURE, -2147467259);
    assert!(failed(GENERIC_FAILURE));
    assert_eq!(status_from_result(Err(ProviderError::Unhandled)), GENERIC_FAILURE);
    assert_eq!(status_from_result(Err(ProviderError::InvalidSession)), GENERIC_FAILURE);
    assert_eq!(status_from_result(Err(ProviderError::CorruptRoot)), GENERIC_FAILURE);
    assert_eq!(
        status_from_result(Err(ProviderError::RegistrationFailed(E_ACCESS_DENIED))),
        GENERIC_FAILURE
    );
}

#[test]
fn each_error_has_its_named_status() {
    assert_eq!(ProviderError::InvalidSession.status(), E_INVALIDARG);
    assert_eq!(ProviderError::NotFound.status(), E_FILE_NOT_FOUND);
    assert_eq!(ProviderError::OutOfMemory.status(), E_OUTOFMEMORY);
    assert_eq!(ProviderError::AccessDenied.status(), E_ACCESS_DENIED);
    assert_eq!(ProviderError::RegistrationFailed(-7).status(), -7);
    assert_eq!(ProviderError::StartFailed(-9).status(), -9);
    assert_eq!(ProviderError::CorruptRoot.status(), GENERIC_FAILURE);
    assert_eq!(ProviderError::Unhandled.status(), GENERIC_FAILURE);
}
