use zelp::commands::{attach_args, list_sessions_args, ZellijCommand, PROGRAM};
use zelp::decimal::decimal_string;

fn strings(items: &[&str]) -> Vec<String> {
    items.iter().map(|s| s.to_string()).collect()
}

#[test]
fn program_is_zellij() {
    assert_eq!(PROGRAM, "zellij");
}

#[test]
fn new_tab_without_name() {
    let command = ZellijCommand::NewTab { session_name: "dev", tab_name: None };
    assert_eq!(command.args(), strings(&["--session", "dev", "action", "new-tab"]));
}

#[test]
fn new_tab_with_name() {
    let command = ZellijCommand::NewTab { session_name: "dev", tab_name: Some("logs") };
    assert_eq!(
        command.args(),
        strings(&["--session", "dev", "action", "new-tab", "--name", "logs"])
    );
}

#[test]
fn go_to_tab_writes_index_in_decimal() {
    let command = ZellijCommand::GoToTab { session_name: "dev", tab_index: 12 };
    assert_eq!(command.args(), strings(&["--session", "dev", "action", "go-to-tab", "12"]));
}

#[test]
fn go_to_first_tab() {
    let command = ZellijCommand::GoToTab { session_name: "work space", tab_index: 1 };
    assert_eq!(
        command.args(),
        strings(&["--session", "work space", "action", "go-to-tab", "1"])
    );
}

#[test]
fn rename_tab_passes_name_unchanged() {
    let command = ZellijCommand::RenameTab { session_name: "dev", new_name: "my editor" };
    assert_eq!(
        command.args(),
        strings(&["--session", "dev", "action", "rename-tab", "my editor"])
    );
}

#[test]
fn write_chars_appends_one_line_feed() {
    let command = ZellijCommand::WriteChars { session_name: "dev", chars: "vim" };
    assert_eq!(command.args(), strings(&["--session", "dev", "action", "write-chars", "vim\n"]));
}

#[test]
fn write_chars_of_nothing_is_a_line_feed() {
    let command = ZellijCommand::WriteChars { session_name: "dev", chars: "" };
    assert_eq!(command.args(), strings(&["--session", "dev", "action", "write-chars", "\n"]));
}

#[test]
fn write_chars_keeps_a_line_feed_that_is_there() {
    let command = ZellijCommand::WriteChars { session_name: "dev", chars: "ls\n" };
    assert_eq!(command.args(), strings(&["--session", "dev", "action", "write-chars", "ls\n\n"]));
}

#[test]
fn write_chars_keeps_text_beyond_ascii() {
    let command = ZellijCommand::WriteChars { session_name: "dév", chars: "echo 'grüß dich' 🚀" };
    assert_eq!(
        command.args(),
        strings(&["--session", "dév", "action", "write-chars", "echo 'grüß dich' 🚀\n"])
    );
}

#[test]
fn session_name_of_each_command() {
    let commands = [
        ZellijCommand::NewTab { session_name: "a", tab_name: None },
        ZellijCommand::GoToTab { session_name: "a", tab_index: 3 },
        ZellijCommand::RenameTab { session_name: "a", new_name: "x" },
        ZellijCommand::WriteChars { session_name: "a", chars: "y" },
    ];
    for command in commands {
        assert_eq!(command.session_name(), "a");
        assert_eq!(command.args()[..3], strings(&["--session", "a", "action"])[..]);
    }
}

#[test]
fn attach_creates_the_session() {
    assert_eq!(attach_args("dev"), strings(&["attach", "--create", "dev"]));
}

#[test]
fn list_sessions_takes_no_argument() {
    assert_eq!(list_sessions_args(), strings(&["list-sessions"]));
}

#[test]
fn decimal_of_single_digits() {
    for n in 0..10usize {
        assert_eq!(decimal_string(n), n.to_string());
    }
    assert_eq!(decimal_string(0), "0");
    assert_eq!(decimal_string(7), "7");
}

#[test]
fn decimal_of_larger_numbers() {
    assert_eq!(decimal_string(10), "10");
    assert_eq!(decimal_string(99), "99");
    assert_eq!(decimal_string(100), "100");
    assert_eq!(decimal_string(12345), "12345");
    assert_eq!(decimal_string(9_007_199), "9007199");
}

#[test]
fn decimal_of_the_largest_number() {
    assert_eq!(decimal_string(usize::MAX), usize::MAX.to_string());
}

#[test]
fn decimal_agrees_with_std_on_many_numbers() {
    let mut n: usize = 1;
    while n < usize::MAX / 7 {
        assert_eq!(decimal_string(n), n.to_string());
        assert_eq!(decimal_string(n - 1), (n - 1).to_string());
        n = n * 7 + 3;
    }
}
