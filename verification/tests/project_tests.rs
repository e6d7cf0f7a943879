use codex_shell::project::{
    debug_executable_from_declaration, is_project_declaration_file_name, path_dedup_key, project_entry_name,
    project_name_from_declaration, sort_entries_by_name, DebugExecutableError, ProjectEntry, ProjectList,
};

fn entry(name: &str, path: &str) -> ProjectEntry {
    ProjectEntry { name: name.to_string(), path: Some(path.to_string()) }
}

#[test]
fn declaration_file_names() {
    assert!(is_project_declaration_file_name("プロジェクト宣言_shell.md"));
    assert!(!is_project_declaration_file_name("プロジェクト宣言_shell.txt"));
    assert!(!is_project_declaration_file_name("宣言_shell.md"));
}

#[test]
fn project_name_is_the_first_line() {
    assert_eq!(project_name_from_declaration("  Codex Shell \nmore"), Some("Codex Shell".to_string()));
    assert_eq!(project_name_from_declaration("   \nname"), None);
    assert_eq!(project_name_from_declaration(""), None);
    assert_eq!(project_entry_name(None, Some("stem".to_string())), "stem");
    assert_eq!(project_entry_name(None, None), "Unnamed Project");
    assert_eq!(project_entry_name(Some("n".to_string()), Some("stem".to_string())), "n");
}

#[test]
fn debug_executable_is_the_fourth_line() {
    let body = "name\nsummary\nnotes\n  \"C:\\p\\target\\debug\\app.exe\"  \nrest";
    assert_eq!(debug_executable_from_declaration(body), Ok("C:\\p\\target\\debug\\app.exe".to_string()));
    assert_eq!(debug_executable_from_declaration("a\nb\nc"), Err(DebugExecutableError::MissingLine));
    assert_eq!(debug_executable_from_declaration("a\nb\nc\n   \n"), Err(DebugExecutableError::EmptyLine));
}

#[test]
fn path_keys_ignore_separators_and_case() {
    assert_eq!(path_dedup_key("C:/Work/App.EXE", None), "c:\\work\\app.exe");
    assert_eq!(path_dedup_key("x", Some("D:/Real/Path")), "d:\\real\\path");
    let key = path_dedup_key("C:/Mixed\\Sep/File.MD", None);
    assert_eq!(path_dedup_key(&key, None), key);
    assert_eq!(entry("  Name ", "C:/A").highlight_key(None), "c:\\a");
    let unnamed = ProjectEntry { name: "  My Proj ".to_string(), path: None };
    assert_eq!(unnamed.highlight_key(None), "my proj");
}

#[test]
fn entries_are_sorted_by_name_stably() {
    let found = vec![entry("b", "/1"), entry("a", "/2"), entry("b", "/3"), entry("a", "/4")];
    let sorted = sort_entries_by_name(&found);
    let got: Vec<(String, String)> =
        sorted.iter().map(|e| (e.name.clone(), e.path.clone().unwrap())).collect();
    let want: Vec<(String, String)> =
        [("a", "/2"), ("a", "/4"), ("b", "/1"), ("b", "/3")].iter().map(|(a, b)| (a.to_string(), b.to_string())).collect();
    assert_eq!(got, want);
}

#[test]
fn refresh_keeps_the_selected_declaration() {
    let mut list = ProjectList::new();
    list.replace_entries(vec![entry("b", "/b"), entry("a", "/a")]);
    assert_eq!(list.selected, Some(0));
    assert_eq!(list.selected_declaration_path(), Some("/a".to_string()));
    list.select(Some(1));
    list.replace_entries(vec![entry("c", "/c"), entry("b", "/b"), entry("a", "/a")]);
    assert_eq!(list.selected, Some(1));
    assert_eq!(list.selected_entry().unwrap().name, "b");
    list.replace_entries(vec![entry("z", "/z"), entry("y", "/y")]);
    assert_eq!(list.selected, Some(0));
    assert_eq!(list.selected_entry().unwrap().name, "y");
    list.replace_entries(vec![]);
    assert_eq!(list.selected, None);
    list.clear();
    assert!(list.entries.is_empty());
}

#[test]
fn highlight_follows_the_moved_project() {
    let mut list = ProjectList::new();
    list.replace_entries(vec![entry("a", "C:/a")]);
    let key = list.selected_entry().unwrap().highlight_key(None);
    assert!(!list.is_selected_highlighted(Some(&key)));
    list.record_move(true, Some(key.clone()));
    assert!(list.is_selected_highlighted(Some(&key)));
    assert!(!list.is_selected_highlighted(None));
    list.record_move(false, Some(key.clone()));
    assert!(!list.is_selected_highlighted(Some(&key)));
}

#[test]
fn combo_text_falls_back() {
    let mut list = ProjectList::new();
    assert_eq!(list.combo_text("  "), "プロジェクトを選択");
    assert_eq!(list.combo_text(" 選んで "), "選んで");
    list.replace_entries(vec![entry("proj", "/p")]);
    assert_eq!(list.combo_text("x"), "proj");
}

#[test]
fn selection_points_at_an_entry_and_the_target_folder_follows_it() {
    let mut list = ProjectList::new();
    assert_eq!(list.target_dir(), None);
    list.replace_entries(vec![entry("b", r"C:\root\b\プロジェクト宣言_b.md"), entry("a", r"C:\root\a\プロジェクト宣言_a.md")]);
    assert_eq!(list.selected, Some(0));
    assert_eq!(list.target_dir(), Some(r"C:\root\a".to_string()));
    list.select(Some(1));
    assert_eq!(list.target_dir(), Some(r"C:\root\b".to_string()));
    list.replace_entries(vec![entry("b", r"C:\root\b\プロジェクト宣言_b.md")]);
    assert_eq!(list.selected, Some(0));
    assert_eq!(list.target_dir(), Some(r"C:\root\b".to_string()));
    list.replace_entries(vec![]);
    assert_eq!(list.selected, None);
    assert_eq!(list.target_dir(), None);
}
