use codex_shell::command::{
    is_checkable_object_type, is_custom_windows_screen, is_known_ui_command, is_modal_screen,
    is_project_launch_command, is_radio_object_type,
};
use codex_shell::editor::{
    editor_object_entries, editor_selected_object_text, ensure_editor_object, ensure_editor_screen,
    keep_editor_object_selected, target_window_size_source, WindowSizeSource,
};
use codex_shell::objects::{
    combo_kind, image_placeholder_text, text_align, widget_kind, ComboKind, TextAlign, WidgetKind,
    bind_command_availability, is_button_enabled, is_object_runtime_visible, ordered_indices, radio_checked_after,
    radio_group_key, resolve_object_text, runtime_checked_for_command, sync_runtime_bound_states,
    CommandAvailability, ObjectSummary, commands_to_dispatch, is_bind_command_enabled,
};
use codex_shell::selection::{ensure_selected_objects_valid, select_object_on_click, set_primary_selected_object};
use codex_shell::ui_definition::{position_of, UiDefinition, UiScreen};
use codex_shell::ui_session::{ui_command_action, ReasoningLevel, UiCommandAction, UiSession};

fn ids(v: &[&str]) -> Vec<String> {
    v.iter().map(|s| s.to_string()).collect()
}

fn object(id: &str, object_type: &str, z: i32) -> ObjectSummary {
    ObjectSummary {
        id: id.to_string(),
        object_type: object_type.to_string(),
        z_index: z,
        checked: false,
        visible: true,
        enabled: true,
        command: String::new(),
        group: String::new(),
        text: String::new(),
    }
}

#[test]
fn known_commands() {
    assert!(is_known_ui_command("input.send"));
    assert!(is_known_ui_command("config.save"));
    assert!(!is_known_ui_command(" input.send"));
    assert!(!is_known_ui_command("mode.codex_start"));
    assert!(is_project_launch_command(" mode.project_debug_run "));
    assert!(is_radio_object_type(" radio_button "));
    assert!(!is_radio_object_type("checkbox"));
    assert!(is_checkable_object_type("checkbox"));
}

#[test]
fn screen_kinds() {
    assert!(is_custom_windows_screen("Build_Window"));
    assert!(is_custom_windows_screen("win_tools"));
    assert!(!is_custom_windows_screen("window_modal"));
    assert!(!is_custom_windows_screen("  "));
    assert!(is_modal_screen("settings"));
    assert!(!is_modal_screen("main"));
}

#[test]
fn command_actions() {
    assert!(matches!(ui_command_action(" input.send "), (UiCommandAction::InputSend, false)));
    assert!(matches!(ui_command_action(""), (UiCommandAction::Nothing, false)));
    assert!(matches!(
        ui_command_action("config.auto_start_exe.3.browse"),
        (UiCommandAction::BrowseAutoStartExe(2), false)
    ));
    assert!(matches!(
        ui_command_action("reasoning.xhigh"),
        (UiCommandAction::SetReasoningEffort(ReasoningLevel::XHigh), false)
    ));
    match ui_command_action("status.message") {
        (UiCommandAction::Unknown(c), undeclared) => {
            assert_eq!(c, "status.message");
            assert!(!undeclared);
        }
        _ => panic!("unknown expected"),
    }
    match ui_command_action(" foo.bar ") {
        (UiCommandAction::Unknown(c), undeclared) => {
            assert_eq!(c, "foo.bar");
            assert!(undeclared);
        }
        _ => panic!("unknown expected"),
    }
    assert_eq!(ReasoningLevel::Medium.text(), "medium");
}

#[test]
fn navigation_and_edit_mode() {
    let mut s = UiSession::new();
    s.handle_ui_settings();
    assert_eq!(s.current_screen_id, "settings");
    assert_eq!(s.selected_screen_id, "settings");
    let objects = ids(&["a", "b"]);
    s.resize_locked_by_save = true;
    let message = s.handle_ui_edit_toggle(Some(&objects));
    assert_eq!(message, "UI編集モードを有効化しました");
    assert!(s.ui_edit_mode);
    assert!(!s.resize_locked_by_save);
    assert_eq!(s.selected_object_id, "a");
    assert_eq!(s.selected_object_ids, ids(&["a"]));
    s.handle_nav_back_main();
    assert_eq!(s.current_screen_id, "main");
    assert_eq!(s.selected_screen_id, "settings");
    let message = s.handle_ui_edit_toggle(None);
    assert_eq!(message, "UI編集モードを無効化しました");
    assert!(s.selected_object_ids.is_empty());
    assert_eq!(s.selected_object_id, "a");
}

#[test]
fn selection_validation() {
    let mut primary = "gone".to_string();
    let mut selected = ids(&["x", "b", "gone", "a"]);
    ensure_selected_objects_valid(&mut primary, &mut selected, Some(&ids(&["a", "b", "c"])));
    assert_eq!(primary, "b");
    assert_eq!(selected, ids(&["b", "a"]));
    ensure_selected_objects_valid(&mut primary, &mut selected, Some(&ids(&["a", "b", "c"])));
    assert_eq!((primary.clone(), selected.clone()), ("b".to_string(), ids(&["b", "a"])));
    ensure_selected_objects_valid(&mut primary, &mut selected, None);
    assert_eq!(primary, "");
    assert!(selected.is_empty());
    let mut primary = "c".to_string();
    let mut selected = ids(&["a"]);
    ensure_selected_objects_valid(&mut primary, &mut selected, Some(&ids(&["a", "b", "c"])));
    assert_eq!(selected, ids(&["c", "a"]));
    set_primary_selected_object(&mut primary, &mut selected, "z".to_string());
    assert_eq!(selected, ids(&["z"]));
    set_primary_selected_object(&mut primary, &mut selected, String::new());
    assert!(selected.is_empty());
}

#[test]
fn click_selection() {
    let mut primary = "a".to_string();
    let mut selected: Vec<String> = vec![];
    select_object_on_click(&mut primary, &mut selected, "b", true);
    assert_eq!(selected, ids(&["a", "b"]));
    assert_eq!(primary, "a");
    select_object_on_click(&mut primary, &mut selected, "b", true);
    assert_eq!(selected, ids(&["a", "b"]));
    select_object_on_click(&mut primary, &mut selected, "c", false);
    assert_eq!((primary.as_str(), selected.clone()), ("c", ids(&["c"])));
}

#[test]
fn drawing_order_and_radio_groups() {
    assert_eq!(ordered_indices(&vec![3, 1, 3, 0]), vec![3, 1, 0, 2]);
    let mut a = object("a", "radio", 0);
    a.group = " g ".to_string();
    a.checked = true;
    let mut b = object("b", "radio_button", 0);
    b.group = "g".to_string();
    let c = object("c", "radio", 0);
    let mut d = object("d", "checkbox", 0);
    d.checked = true;
    assert_eq!(radio_group_key(&a), "g");
    assert_eq!(radio_group_key(&c), "c");
    let objects = vec![a, b, c, d];
    assert_eq!(radio_checked_after(&objects, 1), vec![false, true, false, true]);
}

#[test]
fn runtime_states_and_texts() {
    assert_eq!(runtime_checked_for_command("reasoning.high", false, "high"), Some(true));
    assert_eq!(runtime_checked_for_command("ui.edit.toggle", true, "low"), Some(true));
    assert_eq!(runtime_checked_for_command("input.send", true, "low"), None);
    let mut r = object("r", "radio", 0);
    r.command = "reasoning.low".to_string();
    r.checked = true;
    let mut e = object("e", "checkbox", 0);
    e.command = "ui.edit.toggle".to_string();
    let (states, changed) = sync_runtime_bound_states(&vec![r, e], true, "medium");
    assert_eq!(states, vec![false, true]);
    assert!(changed);
    let mut hint = object("h", "label", 0);
    hint.command = "ui.edit.locked_hint".to_string();
    assert!(!is_object_runtime_visible(&hint, false));
    assert!(is_object_runtime_visible(&hint, true));
    let mut status = object("s", "label", 0);
    status.command = "status.message".to_string();
    assert_eq!(resolve_object_text(&status, "準備完了", false), "状態: 準備完了");
    let mut voice = object("v", "button", 0);
    voice.command = "input.voice_toggle".to_string();
    assert_eq!(resolve_object_text(&voice, "", true), "読み取り中");
    assert_eq!(resolve_object_text(&voice, "", false), "音声入力");
    let plain = object("", "button", 0);
    assert_eq!(resolve_object_text(&plain, "", false), "button");
}

#[test]
fn command_availability() {
    assert!(matches!(bind_command_availability("input.send", true, true, true), CommandAvailability::Disabled));
    assert!(matches!(bind_command_availability("input.send", false, true, false), CommandAvailability::Enabled));
    assert!(matches!(
        bind_command_availability("mode.project_debug_run", false, true, false),
        CommandAvailability::IfDebugExecutableResolves
    ));
    assert!(matches!(
        bind_command_availability("mode.project_target_move", false, false, false),
        CommandAvailability::Disabled
    ));
    assert!(matches!(bind_command_availability("config.model", false, false, false), CommandAvailability::Enabled));
    assert!(!is_button_enabled(true, true, true, "btn_project_target_move", true));
    assert!(is_button_enabled(true, true, true, "btn_other", true));
}

#[test]
fn screens_of_a_definition() {
    let mut d: UiDefinition<u8> = UiDefinition {
        version: 1,
        objects: vec![7, 8],
        screens: vec![UiScreen { id: "settings".to_string(), objects: vec![1] }],
    };
    assert_eq!(d.screen_index("settings"), Some(0));
    assert_eq!(d.screen_index("main"), None);
    d.normalize_screens();
    assert!(d.objects.is_empty());
    assert_eq!(d.screen_ids(), ids(&["settings", "main"]));
    assert_eq!(d.screen("main").unwrap().objects, vec![7, 8]);
    d.normalize_screens();
    assert_eq!(d.screen_ids(), ids(&["settings", "main"]));
    assert_eq!(d.screen("main").unwrap().objects, vec![7, 8]);
    let mut empty: UiDefinition<u8> = UiDefinition { version: 2, objects: vec![], screens: vec![] };
    empty.normalize_screens();
    assert_eq!(empty.screen_ids(), ids(&["main"]));
    assert!(empty.screen("main").unwrap().objects.is_empty());
    assert_eq!(position_of(&ids(&["a", "b"]), "b"), Some(1));
}

#[test]
fn editor_panel_selection() {
    let mut screen = "gone".to_string();
    let mut primary = "x".to_string();
    let mut selected = ids(&["x"]);
    assert!(ensure_editor_screen(&mut screen, &mut primary, &mut selected, &ids(&["main", "settings"])));
    assert_eq!((screen.as_str(), primary.as_str(), selected.len()), ("main", "", 0));
    assert!(!ensure_editor_screen(&mut screen, &mut primary, &mut selected, &vec![]));
    ensure_editor_object(&mut primary, &mut selected, &ids(&["o1", "o2"]));
    assert_eq!((primary.as_str(), selected.clone()), ("o1", ids(&["o1"])));
    let mut primary = "o2".to_string();
    let mut selected = ids(&["o1"]);
    ensure_editor_object(&mut primary, &mut selected, &ids(&["o1", "o2"]));
    assert_eq!(selected, ids(&["o2", "o1"]));
    let mut selected = ids(&["o1"]);
    keep_editor_object_selected(&"o2".to_string(), &mut selected);
    assert_eq!(selected, ids(&["o2"]));
}

#[test]
fn editor_object_list() {
    let mut a = object("a", "label", 2);
    a.text = "ラベル".to_string();
    let b = object("b", "button", -1);
    let c = object("c", "button", 2);
    let entries = editor_object_entries(&vec![a, b, c]);
    let rows: Vec<(usize, String)> = entries.iter().map(|e| (e.index, e.label.clone())).collect();
    assert_eq!(
        rows,
        vec![(1, "2: b (z=-1)".to_string()), (0, "ラベル".to_string()), (2, "3: c (z=2)".to_string())]
    );
    assert_eq!(editor_selected_object_text(&entries, "a"), "ラベル");
    assert_eq!(editor_selected_object_text(&entries, "zz"), "zz");
    assert_eq!(target_window_size_source(" main "), WindowSizeSource::MainWindow);
    assert_eq!(target_window_size_source("tool_win"), WindowSizeSource::CreatedWindow);
    assert_eq!(target_window_size_source("settings"), WindowSizeSource::ModalContent);
}

#[test]
fn validation_with_an_empty_identifier_is_not_stable() {
    let objects = ids(&["a", ""]);
    let mut primary = String::new();
    let mut selected = ids(&[""]);
    ensure_selected_objects_valid(&mut primary, &mut selected, Some(&objects));
    assert_eq!(primary, "");
    assert!(selected.is_empty());
    ensure_selected_objects_valid(&mut primary, &mut selected, Some(&objects));
    assert_eq!(primary, "a");
    assert_eq!(selected, ids(&["a"]));
}

#[test]
fn widgets_by_type_and_command() {
    assert_eq!(widget_kind(" panel "), WidgetKind::Panel);
    assert_eq!(widget_kind("label"), WidgetKind::Label);
    assert_eq!(widget_kind("input"), WidgetKind::Input);
    assert_eq!(widget_kind("image"), WidgetKind::Image);
    assert_eq!(widget_kind("project_dropdown"), WidgetKind::ComboBox);
    assert_eq!(widget_kind("checkbox"), WidgetKind::Checkbox);
    assert_eq!(widget_kind("radio_button"), WidgetKind::Radio);
    assert_eq!(widget_kind("anything"), WidgetKind::Button);
    assert_eq!(combo_kind(" config.model "), ComboKind::Model);
    assert_eq!(combo_kind("config.model_reasoning_effort"), ComboKind::ReasoningEffort);
    assert_eq!(combo_kind("project.select"), ComboKind::Project);
    assert_eq!(text_align(" left"), TextAlign::Left);
    assert_eq!(text_align("right"), TextAlign::Right);
    assert_eq!(text_align("middle"), TextAlign::Center);
    assert_eq!(image_placeholder_text("  "), "image");
    assert_eq!(image_placeholder_text(" logo "), "image: logo");
    let mut s = UiSession::new();
    assert!(!s.window_resize_allowed());
    s.ui_edit_mode = true;
    assert!(s.window_resize_allowed());
    s.resize_locked_by_save = true;
    assert!(!s.window_resize_allowed());
}

#[test]
fn edit_mode_dispatches_nothing() {
    let clicked = ids(&["input.send", "ui.edit_toggle"]);
    assert_eq!(commands_to_dispatch(true, clicked.clone()), clicked);
    assert!(commands_to_dispatch(false, clicked).is_empty());
}

#[test]
fn bind_command_enabled_in_full() {
    assert!(is_bind_command_enabled(" mode.project_debug_run ", false, true, false, true));
    assert!(!is_bind_command_enabled("mode.project_debug_run", false, true, false, false));
    assert!(!is_bind_command_enabled("mode.project_debug_run", false, false, false, true));
    assert!(!is_bind_command_enabled("mode.project_debug_run", true, true, false, true));
    assert!(is_bind_command_enabled("input.send", false, true, false, false));
    assert!(!is_bind_command_enabled("input.send", false, false, true, true));
    assert!(is_bind_command_enabled("mode.project_target_move", false, false, true, false));
    assert!(!is_bind_command_enabled("mode.project_target_move", false, true, false, true));
    assert!(!is_bind_command_enabled("config.model", true, true, true, true));
    assert!(is_bind_command_enabled("config.model", false, false, false, false));
    assert!(is_bind_command_enabled("ui.edit_toggle", true, false, false, false));
}

#[test]
fn radio_choice_is_exclusive_and_second_sync_changes_nothing() {
    let mut a = object("a", "radio", 0);
    a.checked = true;
    a.group = "g".to_string();
    let mut b = object("b", "radio_button", 0);
    b.group = " g ".to_string();
    let mut c = object("c", "radio", 0);
    c.group = "other".to_string();
    c.checked = true;
    let objects = vec![a, b, c];
    assert_eq!(radio_checked_after(&objects, 1), vec![false, true, true]);
    let mut low = object("low", "radio", 0);
    low.command = "reasoning.low".to_string();
    let mut high = object("high", "radio", 0);
    high.command = "reasoning.high".to_string();
    high.checked = true;
    let mut objects = vec![low, high];
    let (states, changed) = sync_runtime_bound_states(&objects, false, "low");
    assert_eq!(states, vec![true, false]);
    assert!(changed);
    for (o, s) in objects.iter_mut().zip(states.iter()) {
        o.checked = *s;
    }
    let (again, changed_again) = sync_runtime_bound_states(&objects, false, "low");
    assert_eq!(again, states);
    assert!(!changed_again);
}
