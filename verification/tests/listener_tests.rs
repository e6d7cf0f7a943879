use codex_shell::listener::{console_setup, parse_args, pipe_line_action, session_input, session_line, ArgsError, PipeAction, ValueFlag};

fn args(v: &[&str]) -> Vec<String> {
    v.iter().map(|s| s.to_string()).collect()
}

#[test]
fn other_modes_are_not_the_listener() {
    assert!(matches!(parse_args(&args(&["app"])), Ok(None)));
    assert!(matches!(parse_args(&args(&["app", "--other"])), Ok(None)));
}

#[test]
fn listener_arguments_are_read() {
    let parsed = parse_args(&args(&[
        "app",
        "--conpty-listener",
        "--pipe-name",
        " p1 ",
        "--working-directory",
        " C:\\w ",
        "--window-title",
        " 実装 ",
    ]));
    let a = match parsed {
        Ok(Some(a)) => a,
        _ => panic!("listener arguments expected"),
    };
    assert_eq!(a.pipe_name, "p1");
    assert_eq!(a.working_dir, "C:\\w");
    assert_eq!(a.window_title, " 実装 ");
    let default_title = parse_args(&args(&["app", "--conpty-listener", "--pipe-name", "p", "--working-directory", "w"]));
    match default_title {
        Ok(Some(a)) => assert_eq!(a.window_title, "相談"),
        _ => panic!("listener arguments expected"),
    }
}

#[test]
fn listener_argument_errors() {
    assert!(matches!(
        parse_args(&args(&["app", "--conpty-listener", "--pipe-name"])),
        Err(ArgsError::MissingValue(ValueFlag::PipeName))
    ));
    match parse_args(&args(&["app", "--conpty-listener", "--bogus"])) {
        Err(ArgsError::UnknownArgument(a)) => assert_eq!(a, "--bogus"),
        _ => panic!("unknown argument expected"),
    }
    assert!(matches!(
        parse_args(&args(&["app", "--conpty-listener", "--working-directory", "w"])),
        Err(ArgsError::EmptyPipeName)
    ));
    assert!(matches!(
        parse_args(&args(&["app", "--conpty-listener", "--pipe-name", "p", "--working-directory", "  "])),
        Err(ArgsError::EmptyWorkingDirectory)
    ));
}

#[test]
fn pipe_lines() {
    assert!(matches!(pipe_line_action("\r\n"), PipeAction::Ignore));
    assert!(matches!(pipe_line_action("__interrupt__\n"), PipeAction::Interrupt));
    assert!(matches!(pipe_line_action("__listener_exit__\r\n"), PipeAction::Exit));
    match pipe_line_action(" dir \r\n") {
        PipeAction::Forward(c) => assert_eq!(c, " dir "),
        _ => panic!("forward expected"),
    }
    assert_eq!(session_line("exit"), "exit\r");
}

#[test]
fn console_titles() {
    assert_eq!(console_setup(" 実装 "), (Some("実装".to_string()), true));
    assert_eq!(console_setup("相談"), (Some("相談".to_string()), false));
    assert_eq!(console_setup("  "), (None, false));
}

fn error_message(v: &[&str]) -> String {
    match parse_args(&args(v)) {
        Err(e) => e.message(),
        _ => panic!("error expected"),
    }
}

#[test]
fn listener_argument_error_messages() {
    assert_eq!(error_message(&["p", "--conpty-listener", "--bogus"]), "不明な引数です: --bogus");
    assert_eq!(error_message(&["p", "--conpty-listener", "--pipe-name", "q"]), "working_directory が空です");
    assert_eq!(error_message(&["p", "--conpty-listener", "--working-directory", "w"]), "pipe_name が空です");
    assert_eq!(error_message(&["p", "--conpty-listener", "--pipe-name"]), "--pipe-name の値が不足しています");
    assert_eq!(
        error_message(&["p", "--conpty-listener", "--pipe-name", "q", "--working-directory"]),
        "--working-directory の値が不足しています"
    );
    assert_eq!(
        error_message(&["p", "--conpty-listener", "--window-title"]),
        "--window-title の値が不足しています"
    );
    let parsed = parse_args(&args(&["p", "--conpty-listener", "--pipe-name", " p1 ", "--working-directory", "C:/w"]));
    match parsed {
        Ok(Some(a)) => {
            assert_eq!(a.pipe_name, "p1");
            assert_eq!(a.working_dir, "C:/w");
            assert_eq!(a.window_title, "相談");
        }
        _ => panic!("listener arguments expected"),
    }
}

#[test]
fn listener_session_writes_forwarded_lines_then_exit() {
    let lines: Vec<String> = args(&["dir\r\n", "", "\r\n", "__interrupt__\n", "cd ..\n", "__listener_exit__\r\n", "never"]);
    let (written, read) = session_input(&lines);
    assert_eq!(written, "dir\r\u{3}cd ..\rexit\r");
    assert_eq!(read, 6);
    let (written, read) = session_input(&args(&["a\n", "b"]));
    assert_eq!(written, "a\rb\r");
    assert_eq!(read, 2);
}
