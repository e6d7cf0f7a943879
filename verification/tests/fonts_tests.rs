use codex_shell::fonts::{add_default_font, font_family_for, font_key, font_registration_order, is_font_extension, needs_default_font};

fn names(v: &[&str]) -> Vec<String> {
    v.iter().map(|s| s.to_string()).collect()
}

#[test]
fn font_files_and_keys() {
    assert!(is_font_extension("ttf"));
    assert!(is_font_extension("OTF"));
    assert!(is_font_extension("TtC"));
    assert!(!is_font_extension("woff"));
    assert_eq!(font_key("Noto Sans JP Bold"), "Noto_Sans_JP_Bold");
}

#[test]
fn default_font_is_added_when_missing() {
    assert!(needs_default_font(&names(&["a", "b"])));
    assert!(!needs_default_font(&names(&["a", "noto_sans_jp"])));
    assert!(needs_default_font(&names(&[])));
}

#[test]
fn fonts_are_registered_once_in_name_order() {
    let keys = names(&["noto_sans_jp", "b", "a", "b", "c"]);
    let order = font_registration_order(&keys);
    let registered: Vec<&str> = order.iter().map(|&i| keys[i].as_str()).collect();
    assert_eq!(registered, vec!["a", "b", "c", "noto_sans_jp"]);
    assert_eq!(order, vec![2, 1, 4, 0]);
}

#[test]
fn object_font_family_choice() {
    let registered = names(&["noto_sans_jp", "mono"]);
    assert_eq!(font_family_for(" mono ", &registered), Some("mono".to_string()));
    assert_eq!(font_family_for("serif", &registered), None);
    assert_eq!(font_family_for("  ", &registered), None);
}

#[test]
fn registered_names_are_sorted_unique_and_hold_the_default() {
    let mut keys = names(&["zen", "abc", "zen"]);
    assert!(add_default_font(&mut keys));
    assert_eq!(keys, names(&["noto_sans_jp", "zen", "abc", "zen"]));
    let order = font_registration_order(&keys);
    let registered: Vec<String> = order.iter().map(|&i| keys[i].clone()).collect();
    assert_eq!(registered, names(&["abc", "noto_sans_jp", "zen"]));
    let mut present = names(&["noto_sans_jp", "b"]);
    assert!(!add_default_font(&mut present));
    assert_eq!(present, names(&["noto_sans_jp", "b"]));
}
