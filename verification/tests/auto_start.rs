use lumitray::auto_start::{
    clears_startup_mark, command_line, effective_status, is_enabled, refresh, run_value_exists,
    set_enabled_outcome, startup_disabled, AutostartError, ERROR_FILE_NOT_FOUND, ERROR_SUCCESS,
};

#[test]
fn enabled_needs_value_and_no_disable_mark() {
    assert!(is_enabled(true, false));
    assert!(!is_enabled(true, true));
    assert!(!is_enabled(false, false));
}

#[test]
fn run_value_and_startup_mark() {
    assert!(run_value_exists(true, ERROR_SUCCESS));
    assert!(!run_value_exists(true, ERROR_FILE_NOT_FOUND));
    assert!(!run_value_exists(false, ERROR_SUCCESS));
    let mut data = [0u8; 32];
    data[0] = 3;
    assert!(startup_disabled(true, ERROR_SUCCESS, 12, &data));
    assert!(!startup_disabled(true, ERROR_SUCCESS, 0, &data));
    assert!(!startup_disabled(false, ERROR_SUCCESS, 12, &data));
    assert!(!startup_disabled(true, ERROR_FILE_NOT_FOUND, 12, &data));
    data[0] = 2;
    assert!(!startup_disabled(true, ERROR_SUCCESS, 12, &data));
}

#[test]
fn refresh_rewrites_existing_entry_only() {
    assert!(refresh(true));
    assert!(!refresh(false));
}

#[test]
fn deleting_a_missing_value_counts_as_success() {
    assert_eq!(effective_status(false, ERROR_FILE_NOT_FOUND), ERROR_SUCCESS);
    assert_eq!(effective_status(true, ERROR_FILE_NOT_FOUND), ERROR_FILE_NOT_FOUND);
    assert_eq!(effective_status(false, 5), 5);
    assert!(clears_startup_mark(true, ERROR_SUCCESS));
    assert!(!clears_startup_mark(true, 5));
    assert!(!clears_startup_mark(false, ERROR_SUCCESS));
}

#[test]
fn set_enabled_outcomes() {
    assert_eq!(set_enabled_outcome(true, false, 0, 0), Err(AutostartError::NoExePath));
    assert_eq!(set_enabled_outcome(true, true, 5, 0), Err(AutostartError::OpenRunKey(5)));
    assert_eq!(set_enabled_outcome(true, true, 0, 5), Err(AutostartError::Write(5)));
    assert_eq!(set_enabled_outcome(false, true, 0, ERROR_FILE_NOT_FOUND), Ok(()));
    assert_eq!(set_enabled_outcome(true, true, 0, 0), Ok(()));
}

#[test]
fn command_line_is_quoted_utf16le_with_nul() {
    let bytes = command_line("C:\\a.exe");
    let mut expected: Vec<u8> = Vec::new();
    for unit in "\"C:\\a.exe\"".encode_utf16() {
        expected.extend_from_slice(&unit.to_le_bytes());
    }
    expected.extend_from_slice(&[0, 0]);
    assert_eq!(bytes, expected);
    assert_eq!(&bytes[..4], &[0x22, 0, 0x43, 0]);
}

#[test]
fn command_line_encodes_surrogate_pairs() {
    let bytes = command_line("\u{1F600}");
    assert_eq!(bytes, vec![0x22, 0, 0x3D, 0xD8, 0x00, 0xDE, 0x22, 0, 0, 0]);
    let bytes = command_line("显");
    assert_eq!(bytes, vec![0x22, 0, 0x3E, 0x66, 0x22, 0, 0, 0]);
}

#[test]
fn turning_on_then_reading_back() {
    // after a successful turn-on the Run query succeeds and the "off" mark is gone
    assert_eq!(set_enabled_outcome(true, true, ERROR_SUCCESS, ERROR_SUCCESS), Ok(()));
    let data = [0u8; 32];
    assert!(is_enabled(
        run_value_exists(true, ERROR_SUCCESS),
        startup_disabled(true, ERROR_FILE_NOT_FOUND, 0, &data)
    ));
    // after a successful turn-off the Run query finds nothing
    assert_eq!(set_enabled_outcome(false, true, ERROR_SUCCESS, ERROR_SUCCESS), Ok(()));
    assert!(!is_enabled(
        run_value_exists(true, ERROR_FILE_NOT_FOUND),
        startup_disabled(true, ERROR_FILE_NOT_FOUND, 0, &data)
    ));
}
