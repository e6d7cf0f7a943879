use codex_shell::app_config::{bound_input_field, is_exe_extension, AppConfig, ConfigField};
use codex_shell::codex_config::{
    check_config_value_reflected, check_model_choice, check_reasoning_effort_choice, config_combo_text,
    is_valid_model, is_valid_reasoning_effort, key_assignment_line, load_codex_config_value, load_model,
    load_reasoning_effort, settle_config_choice, update_codex_config_text, ConfigEditError, DEFAULT_MODEL, DEFAULT_REASONING_EFFORT,
};

#[test]
fn candidates_are_recognised() {
    assert!(is_valid_model("gpt-5.3-codex"));
    assert!(is_valid_model("gpt-5.4"));
    assert!(!is_valid_model("gpt-4"));
    assert!(is_valid_reasoning_effort("xhigh"));
    assert!(!is_valid_reasoning_effort("extreme"));
    assert!(matches!(check_model_choice("nope"), Err(ConfigEditError::InvalidModel)));
    assert!(matches!(check_reasoning_effort_choice("nope"), Err(ConfigEditError::InvalidReasoningEffort)));
    assert!(check_model_choice("gpt-5.3-codex-spark").is_ok());
}

#[test]
fn values_are_read_from_the_configuration() {
    let text = "approval = \"never\"\n  model = \"gpt-5.4\"  \nmodel_reasoning_effort = \"high\"\n";
    assert_eq!(load_codex_config_value(text, "model"), Some("gpt-5.4".to_string()));
    assert_eq!(load_codex_config_value(text, "missing"), None);
    assert_eq!(load_model(Some(text)), "gpt-5.4");
    assert_eq!(load_reasoning_effort(Some(text)), "high");
    assert_eq!(load_model(None), DEFAULT_MODEL);
    assert_eq!(load_reasoning_effort(Some("model_reasoning_effort = \"odd\"")), DEFAULT_REASONING_EFFORT);
}

#[test]
fn keys_are_escaped_in_patterns() {
    let text = "a.b = \"1\"\naxb = \"2\"\n";
    assert_eq!(load_codex_config_value(text, "a.b"), Some("1".to_string()));
    assert_eq!(load_codex_config_value("axb = \"2\"\n", "a.b"), None);
}

#[test]
fn update_replaces_or_appends_and_reads_back() {
    let text = "model = \"gpt-5.3-codex\"\nother = \"x\"";
    let updated = update_codex_config_text(text, "model", "gpt-5.4").ok().unwrap();
    assert_eq!(updated, "model = \"gpt-5.4\"\nother = \"x\"");
    assert_eq!(load_codex_config_value(&updated, "model"), Some("gpt-5.4".to_string()));
    assert!(check_config_value_reflected(&updated, "model", "gpt-5.4").is_ok());
    assert!(matches!(
        check_config_value_reflected(&updated, "model", "gpt-5.3-codex"),
        Err(ConfigEditError::NotReflected)
    ));
    let appended = update_codex_config_text(text, "model_reasoning_effort", "low").ok().unwrap();
    assert_eq!(appended, "model = \"gpt-5.3-codex\"\nother = \"x\"\nmodel_reasoning_effort = \"low\"\n");
    assert_eq!(update_codex_config_text("", "k", "v").ok().unwrap(), "k = \"v\"\n");
    assert_eq!(key_assignment_line("model", "m"), "model = \"m\"");
}

#[test]
fn combo_texts_fall_back() {
    assert_eq!(config_combo_text("gpt-5.4", "ph", "d"), "gpt-5.4");
    assert_eq!(config_combo_text("", "  ph ", "d"), "ph");
    assert_eq!(config_combo_text("", "  ", "d"), "d");
}

#[test]
fn settings_fields_and_slots() {
    let mut config = AppConfig::new("C:\\work".to_string());
    assert_eq!(config.auto_start_path(0), Some(""));
    assert_eq!(config.auto_start_path(4), None);
    assert!(config.set_auto_start_path(2, "C:\\t\\b.exe".to_string()));
    assert_eq!(config.auto_start_path(2), Some("C:\\t\\b.exe"));
    assert_eq!(config.auto_start_path(1), Some(""));
    assert!(!config.set_auto_start_path(7, "x".to_string()));
    assert_eq!(bound_input_field(" config.working_dir "), Some(ConfigField::WorkingDir));
    assert_eq!(bound_input_field("config.auto_start_exe.4"), Some(ConfigField::AutoStartExe4));
    assert_eq!(bound_input_field("config.save"), None);
    config.set_field(ConfigField::WorkingDir, "D:\\p".to_string());
    assert_eq!(config.field(ConfigField::WorkingDir), "D:\\p");
    assert_eq!(config.field(ConfigField::AutoStartExe3), "C:\\t\\b.exe");
}

#[test]
fn auto_start_targets_skip_blank_slots() {
    let mut config = AppConfig::new(".".to_string());
    config.set_auto_start_path(0, "  a.exe ".to_string());
    config.set_auto_start_path(1, "   ".to_string());
    config.set_auto_start_path(3, "d.exe".to_string());
    let targets = config.auto_start_targets();
    assert_eq!(targets, vec![(0, "a.exe".to_string()), (3, "d.exe".to_string())]);
}

#[test]
fn exe_extension_ignores_case() {
    assert!(is_exe_extension(Some("exe")));
    assert!(is_exe_extension(Some("EXE")));
    assert!(!is_exe_extension(Some("lnk")));
    assert!(!is_exe_extension(None));
}

#[test]
fn config_choices_only_take_candidates() {
    let mut model = "gpt-5.4".to_string();
    settle_config_choice(&mut model, "gpt-5.3-codex", true, false);
    assert_eq!(model, "gpt-5.4");
    settle_config_choice(&mut model, "gpt-5.3-codex", true, true);
    assert_eq!(model, "gpt-5.3-codex");
    settle_config_choice(&mut model, "other", true, true);
    assert_eq!(model, "gpt-5.3-codex");
    let mut effort = "medium".to_string();
    settle_config_choice(&mut effort, "xhigh", false, true);
    assert_eq!(effort, "xhigh");
    settle_config_choice(&mut effort, "gpt-5.4", false, true);
    assert_eq!(effort, "xhigh");
}
