use pty_session::error::SessionError;
use pty_session::geometry::{Dimensions, DEFAULT_COLS, DEFAULT_ROWS};
use pty_session::session::Session;
use pty_session::shell::ShellCommand;
use pty_session::text::same_text;

#[test]
fn default_dimensions_are_24_by_80() {
    assert_eq!(DEFAULT_ROWS, 24);
    assert_eq!(DEFAULT_COLS, 80);
    assert_eq!(Dimensions::default(), Dimensions { rows: 24, cols: 80 });
}

#[test]
fn dimensions_new_keeps_rows_and_columns_apart() {
    let d = Dimensions::new(40, 120);
    assert_eq!(d.rows, 40);
    assert_eq!(d.cols, 120);
}

#[test]
fn new_session_has_the_initial_size() {
    let session = Session::new("id".to_string(), 5u8);
    assert_eq!(session.id, "id");
    assert_eq!(session.handles, 5);
    assert_eq!(session.dimensions, Dimensions { rows: 24, cols: 80 });
}

#[test]
fn default_shell_is_powershell_without_logo() {
    let command = ShellCommand::default_shell();
    assert_eq!(command.program, "powershell.exe");
    assert_eq!(command.args, vec!["-NoLogo".to_string()]);
}

#[test]
fn each_error_has_its_message() {
    assert_eq!(SessionError::SessionNotFound.message(), "Session not found");
    assert_eq!(SessionError::PtyAllocationFailed.message(), "Failed to allocate a pseudo-terminal");
    assert_eq!(SessionError::ShellSpawnFailed.message(), "Failed to spawn the shell");
    assert_eq!(SessionError::WriteFailed.message(), "Failed to write to the session");
    assert_eq!(SessionError::ResizeFailed.message(), "Failed to resize the session");
    assert_eq!(SessionError::IdentifierUnavailable.message(), "Session identifier already issued");
}

#[test]
fn same_text_compares_characters() {
    assert!(same_text("", ""));
    assert!(same_text("abc", "abc"));
    assert!(same_text("\u{e9}\u{20ac}", "\u{e9}\u{20ac}"));
    assert!(!same_text("abc", "abd"));
    assert!(!same_text("abc", "ab"));
    assert!(!same_text("", "a"));
    assert!(!same_text("e\u{301}", "\u{e9}"));
}
