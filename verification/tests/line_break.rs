use novel_cli::line_break::{verify_line_break, verify_windows_line_break, LineBreakError};

#[test]
fn line_break() {
    verify_line_break("12345\n\n123").unwrap();
}

#[test]
fn line_break_failed() {
    assert!(verify_line_break("12345\r\n\n123").is_err());
    assert!(verify_line_break("12345\r\n").is_err());
}

#[test]
fn windows_line_breaks() {
    verify_windows_line_break("12345\r\n\r\n").unwrap();
    assert_eq!(
        verify_windows_line_break("12345\n\r\n"),
        Err(LineBreakError::UnixLineBreakOnWindows)
    );
    assert_eq!(
        verify_windows_line_break("12345\n\n"),
        Err(LineBreakError::UnixLineBreakOnWindows)
    );
    assert_eq!(
        verify_line_break("a\r\nb"),
        Err(LineBreakError::WindowsLineBreakOnUnix)
    );
}
