//! Errors as text.

use imxrt_usdhc::SdError;

#[test]
fn errors_have_a_text() {
    assert_eq!(SdError::Timeout.to_string(), "SD timeout");
    assert_eq!(SdError::CrcError.to_string(), "SD CRC error");
    assert_eq!(SdError::NoCard.to_string(), "No SD card");
}

#[test]
fn failed_command_shows_its_status_in_hexadecimal() {
    for status in [0u32, 1, 0xA, 0x0001_0000, 0x1234_ABCD, 0xDEAD_BEEF, u32::MAX] {
        assert_eq!(
            SdError::CommandFailed(status).to_string(),
            format!("SD command failed: {status:#010x}")
        );
    }
    assert_eq!(
        SdError::CommandFailed(0x0001_0000).to_string(),
        "SD command failed: 0x00010000"
    );
}
