use codex_shell::codex_output::{
    append_event_end_body, change_directory_command, codex_prompt_script, decorate_codex_output_display_lines,
    filter_event_end_body, is_codex_output_noise_line, pane_row_count, CodexOutput, StreamEffect,
    CODEX_STREAM_BEGIN_MARKER, CODEX_STREAM_END_MARKER, CODEX_TURN_SEPARATOR,
};

#[test]
fn noise_lines() {
    assert!(is_codex_output_noise_line("  Tokens Used: 1234 "));
    assert!(is_codex_output_noise_line("latency 20ms"));
    assert!(is_codex_output_noise_line("stderr: codex"));
    assert!(is_codex_output_noise_line("STDOUT"));
    assert!(!is_codex_output_noise_line("token"));
    assert!(!is_codex_output_noise_line("hello"));
}

#[test]
fn pane_decoration() {
    assert_eq!(decorate_codex_output_display_lines(""), "");
    assert_eq!(decorate_codex_output_display_lines("a\nb"), "- a\n- b");
    assert_eq!(decorate_codex_output_display_lines("a\r\n\nb\n"), "- a\n- \n- b");
}

#[test]
fn event_end_body() {
    assert_eq!(filter_event_end_body("  one \n\n tokens used: 3\ntwo\r\n"), "one\ntwo");
    let mut out = String::new();
    append_event_end_body(&mut out, "\n \n");
    assert_eq!(out, "");
    append_event_end_body(&mut out, "x");
    assert_eq!(out, "x");
    append_event_end_body(&mut out, "y\nz");
    assert_eq!(out, "x\ny\nz");
}

#[test]
fn session_commands() {
    assert_eq!(change_directory_command("C:\\a \"b\""), "cd \"C:\\a \"\"b\"\"\"");
    assert_eq!(
        codex_prompt_script("hi"),
        format!(
            "$prompt = @\"\nhi\n\"@\nWrite-Output \"{CODEX_STREAM_BEGIN_MARKER}\"\ncodex exec $prompt\nWrite-Output \"{CODEX_STREAM_END_MARKER}\"\n"
        )
    );
}

#[test]
fn stream_of_a_run() {
    let mut pane = CodexOutput::new();
    assert!(matches!(pane.feed_line("before the run", false), StreamEffect::Ignored));
    assert_eq!(pane.text, "");
    assert!(matches!(pane.feed_line(&format!("  {CODEX_STREAM_BEGIN_MARKER} "), false), StreamEffect::Began));
    assert_eq!(pane.text, CODEX_TURN_SEPARATOR);
    match pane.feed_line(" answer line ", false) {
        StreamEffect::Appended(l) => assert_eq!(l, "answer line"),
        _ => panic!("appended expected"),
    }
    assert!(matches!(pane.feed_line("tokens used: 5", false), StreamEffect::Ignored));
    assert!(matches!(pane.feed_line("stderr: codex", true), StreamEffect::Ignored));
    assert!(matches!(pane.feed_line("Codex", true), StreamEffect::Ignored));
    match pane.feed_line("  body from stderr ", true) {
        StreamEffect::Appended(l) => assert_eq!(l, "body from stderr"),
        _ => panic!("appended expected"),
    }
    assert!(matches!(pane.feed_line("another stderr line", true), StreamEffect::Ignored));
    assert!(matches!(pane.feed_line(CODEX_STREAM_END_MARKER, false), StreamEffect::Ended));
    assert!(!pane.streaming_active);
    assert_eq!(
        pane.text,
        format!("{CODEX_TURN_SEPARATOR}\nanswer line\nbody from stderr\n{CODEX_TURN_SEPARATOR}")
    );
    assert!(matches!(pane.feed_line("after", false), StreamEffect::Ignored));
    assert!(matches!(pane.feed_line(CODEX_STREAM_BEGIN_MARKER, false), StreamEffect::Began));
    assert_eq!(pane.text, CODEX_TURN_SEPARATOR);
}

#[test]
fn row_counts() {
    assert_eq!(pane_row_count("", 3), 3);
    assert_eq!(pane_row_count("a\nb\nc\nd", 3), 4);
    assert_eq!(pane_row_count("a\nb", 3), 3);
}

#[test]
fn draining_output_outside_a_run_changes_nothing() {
    let mut out = CodexOutput::new();
    for (line, is_stderr) in [("hello", false), ("stderr: codex", true), ("body", true), ("  ", false)] {
        assert!(matches!(out.feed_line(line, is_stderr), StreamEffect::Ignored));
    }
    assert!(!out.streaming_active);
    assert!(!out.waiting_stderr_body);
    assert_eq!(out.text, "");
}
