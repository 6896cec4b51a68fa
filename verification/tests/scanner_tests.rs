use desktop_files::scanner::{
    base_name, default_save_path, discover, is_desktop_path, slug_file_name,
    user_applications_dir,
};

fn strings(items: &[&str]) -> Vec<String> {
    items.iter().map(|s| s.to_string()).collect()
}

#[test]
fn both_roots_missing_give_empty_sequence() {
    let r = discover(None, None);
    assert!(r.is_empty());
}

#[test]
fn one_missing_root_contributes_nothing() {
    let r = discover(None, Some(strings(&["/home/u/.local/share/applications/a.desktop"])));
    assert_eq!(r, strings(&["/home/u/.local/share/applications/a.desktop"]));
}

#[test]
fn system_root_comes_before_user_root() {
    let r = discover(
        Some(strings(&["/usr/share/applications/sys.desktop"])),
        Some(strings(&["/home/u/.local/share/applications/user.desktop"])),
    );
    assert_eq!(
        r,
        strings(&[
            "/usr/share/applications/sys.desktop",
            "/home/u/.local/share/applications/user.desktop",
        ])
    );
}

#[test]
fn non_desktop_files_are_filtered_out() {
    let r = discover(
        Some(strings(&[
            "/usr/share/applications/a.desktop",
            "/usr/share/applications/readme.txt",
            "/usr/share/applications/b.desktop",
            "/usr/share/applications/noext",
        ])),
        None,
    );
    assert_eq!(
        r,
        strings(&["/usr/share/applications/a.desktop", "/usr/share/applications/b.desktop"])
    );
}

#[test]
fn duplicate_file_names_are_kept_in_both_roots() {
    let r = discover(
        Some(strings(&["/usr/share/applications/same.desktop"])),
        Some(strings(&["/home/u/.local/share/applications/same.desktop"])),
    );
    assert_eq!(r.len(), 2);
}

#[test]
fn extension_rules_follow_the_base_name() {
    assert!(is_desktop_path("/a/b/app.desktop"));
    assert!(is_desktop_path("app.desktop"));
    assert!(is_desktop_path("/a/archive.tar.desktop"));
    assert!(is_desktop_path("/a/.hidden.desktop"));
    assert!(!is_desktop_path("/a/b/app.txt"));
    assert!(!is_desktop_path("/a/b/desktop"));
    assert!(!is_desktop_path("/a/b/.desktop"));
    assert!(!is_desktop_path("/a/b/appdesktop"));
    assert!(!is_desktop_path("/a/app.desktop/inner"));
}

#[test]
fn base_name_takes_what_follows_the_last_slash() {
    assert_eq!(base_name("/usr/share/applications/editor.desktop"), "editor.desktop");
    assert_eq!(base_name("plain.desktop"), "plain.desktop");
    assert_eq!(base_name("/trailing/dir/"), "");
}

#[test]
fn user_root_is_under_home() {
    assert_eq!(user_applications_dir("/home/u"), "/home/u/.local/share/applications");
}

#[test]
fn slug_lowercases_and_hyphenates() {
    assert_eq!(slug_file_name("New App"), "new-app.desktop");
    assert_eq!(slug_file_name("My Cool Editor"), "my-cool-editor.desktop");
    assert_eq!(slug_file_name("simple"), "simple.desktop");
}

#[test]
fn default_save_path_joins_root_and_slug() {
    assert_eq!(
        default_save_path("/home/u", "New App"),
        "/home/u/.local/share/applications/new-app.desktop"
    );
}
