use desktop_files::codec::DesktopFile;
use desktop_files::error::DesktopFileError;

#[test]
fn new_record_has_documented_defaults() {
    let f = DesktopFile::new("My App".to_string(), "/usr/bin/myapp".to_string());
    let e = &f.desktop_entry;
    assert_eq!(e.entry_type, "Application");
    assert_eq!(e.version, Some("1.0".to_string()));
    assert_eq!(e.name, "My App");
    assert_eq!(e.exec_command, Some("/usr/bin/myapp".to_string()));
    assert_eq!(e.terminal, Some(false));
    assert_eq!(e.hidden, Some(false));
    assert_eq!(e.dbus_activatable, Some(false));
    assert_eq!(e.generic_name, None);
    assert_eq!(e.comment, None);
    assert_eq!(e.icon, None);
    assert_eq!(e.path, None);
    assert_eq!(e.categories, None);
    assert_eq!(e.keywords, None);
    assert_eq!(e.startup_wm_class, None);
    assert_eq!(e.url, None);
    assert_eq!(e.mime_type, None);
    assert_eq!(e.only_show_in, None);
    assert_eq!(e.not_show_in, None);
    assert_eq!(e.try_exec, None);
    assert_eq!(e.actions, None);
    assert!(f.icon_data.is_none());
}

#[test]
fn serialize_emits_fixed_order() {
    let mut f = DesktopFile::new("Editor".to_string(), "ed".to_string());
    f.desktop_entry.comment = Some("A text editor".to_string());
    f.desktop_entry.categories = Some("Utility;Development".to_string());
    let text = f.to_string();
    assert_eq!(
        text,
        "[Desktop Entry]\nType=Application\nName=Editor\nVersion=1.0\nComment=A text editor\n\
         Exec=ed\nTerminal=false\nCategories=Utility;Development\nHidden=false\n\
         DBusActivatable=false\n"
    );
}

#[test]
fn round_trip_preserves_every_field() {
    let mut f = DesktopFile::new("Player".to_string(), "play --now".to_string());
    let e = &mut f.desktop_entry;
    e.version = Some("1.5".to_string());
    e.generic_name = Some("Media Player".to_string());
    e.comment = Some("Plays things".to_string());
    e.icon = Some("player-icon".to_string());
    e.path = Some("/opt/player".to_string());
    e.terminal = Some(true);
    e.categories = Some("AudioVideo;Player".to_string());
    e.keywords = Some("music;video".to_string());
    e.startup_wm_class = Some("PlayerMain".to_string());
    e.mime_type = Some("audio/mpeg;video/mp4".to_string());
    e.hidden = Some(false);
    e.only_show_in = Some("GNOME;KDE".to_string());
    e.not_show_in = Some("XFCE".to_string());
    e.dbus_activatable = Some(true);
    e.try_exec = Some("/usr/bin/play".to_string());
    e.actions = Some("PlayPause;Stop".to_string());

    let parsed = DesktopFile::from_string(&f.to_string()).expect("round trip must parse");
    let a = &f.desktop_entry;
    let b = &parsed.desktop_entry;
    assert_eq!(a.entry_type, b.entry_type);
    assert_eq!(a.version, b.version);
    assert_eq!(a.name, b.name);
    assert_eq!(a.generic_name, b.generic_name);
    assert_eq!(a.comment, b.comment);
    assert_eq!(a.icon, b.icon);
    assert_eq!(a.exec_command, b.exec_command);
    assert_eq!(a.path, b.path);
    assert_eq!(a.terminal, b.terminal);
    assert_eq!(a.categories, b.categories);
    assert_eq!(a.keywords, b.keywords);
    assert_eq!(a.startup_wm_class, b.startup_wm_class);
    assert_eq!(a.url, b.url);
    assert_eq!(a.mime_type, b.mime_type);
    assert_eq!(a.hidden, b.hidden);
    assert_eq!(a.only_show_in, b.only_show_in);
    assert_eq!(a.not_show_in, b.not_show_in);
    assert_eq!(a.dbus_activatable, b.dbus_activatable);
    assert_eq!(a.try_exec, b.try_exec);
    assert_eq!(a.actions, b.actions);
    assert!(parsed.icon_data.is_none());
}

#[test]
fn missing_name_fails_with_missing_field() {
    let r = DesktopFile::from_string("[Desktop Entry]\nType=Application\nExec=run\n");
    match r {
        Err(DesktopFileError::MissingField(field)) => assert_eq!(field, "Name"),
        _ => panic!("expected MissingField(\"Name\")"),
    }
}

#[test]
fn empty_text_fails_with_missing_field() {
    match DesktopFile::from_string("") {
        Err(DesktopFileError::MissingField(field)) => assert_eq!(field, "Name"),
        _ => panic!("expected MissingField(\"Name\")"),
    }
}

#[test]
fn last_duplicate_name_wins() {
    let f = DesktopFile::from_string("[Desktop Entry]\nName=First\nName=Second\n").unwrap();
    assert_eq!(f.desktop_entry.name, "Second");
}

#[test]
fn terminal_yes_reads_as_explicit_false() {
    let f = DesktopFile::from_string("[Desktop Entry]\nName=X\nTerminal=yes\n").unwrap();
    assert_eq!(f.desktop_entry.terminal, Some(false));
}

#[test]
fn terminal_true_reads_as_true() {
    let f = DesktopFile::from_string("[Desktop Entry]\nName=X\nTerminal=true\n").unwrap();
    assert_eq!(f.desktop_entry.terminal, Some(true));
}

#[test]
fn absent_terminal_stays_unset() {
    let f = DesktopFile::from_string("[Desktop Entry]\nName=X\n").unwrap();
    assert_eq!(f.desktop_entry.terminal, None);
}

#[test]
fn capitalized_true_reads_as_false() {
    let f = DesktopFile::from_string("[Desktop Entry]\nName=X\nHidden=True\n").unwrap();
    assert_eq!(f.desktop_entry.hidden, Some(false));
}

#[test]
fn type_defaults_to_application() {
    let f = DesktopFile::from_string("[Desktop Entry]\nName=X\n").unwrap();
    assert_eq!(f.desktop_entry.entry_type, "Application");
}

#[test]
fn comments_and_blank_lines_are_ignored() {
    let f = DesktopFile::from_string(
        "# header comment\n\n[Desktop Entry]\n# inner comment\n\nName=X\n",
    )
    .unwrap();
    assert_eq!(f.desktop_entry.name, "X");
}

#[test]
fn lines_before_any_section_are_dropped() {
    let r = DesktopFile::from_string("Name=Early\n[Desktop Entry]\nType=Link\n");
    assert!(r.is_err());
}

#[test]
fn keys_in_other_sections_are_dropped() {
    let f = DesktopFile::from_string(
        "[Desktop Entry]\nName=X\n[Desktop Action Stop]\nName=Other\nIcon=stop\n",
    )
    .unwrap();
    assert_eq!(f.desktop_entry.name, "X");
    assert_eq!(f.desktop_entry.icon, None);
}

#[test]
fn returning_to_entry_section_resumes_parsing() {
    let f = DesktopFile::from_string(
        "[Desktop Entry]\nName=X\n[Other]\nIcon=ignored\n[Desktop Entry]\nIcon=kept\n",
    )
    .unwrap();
    assert_eq!(f.desktop_entry.icon, Some("kept".to_string()));
}

#[test]
fn keys_and_values_are_trimmed() {
    let f = DesktopFile::from_string("[Desktop Entry]\n  Name  =  Spaced Out  \n").unwrap();
    assert_eq!(f.desktop_entry.name, "Spaced Out");
}

#[test]
fn value_keeps_later_equals_signs() {
    let f = DesktopFile::from_string("[Desktop Entry]\nName=X\nExec=env A=1 run\n").unwrap();
    assert_eq!(f.desktop_entry.exec_command, Some("env A=1 run".to_string()));
}

#[test]
fn empty_value_is_kept_as_empty_string() {
    let f = DesktopFile::from_string("[Desktop Entry]\nName=X\nVersion=\n").unwrap();
    assert_eq!(f.desktop_entry.version, Some(String::new()));
}

#[test]
fn lines_without_equals_are_dropped() {
    let f = DesktopFile::from_string("[Desktop Entry]\nName=X\nnot a key value line\n").unwrap();
    assert_eq!(f.desktop_entry.name, "X");
}

#[test]
fn booleans_serialize_as_literals() {
    let mut f = DesktopFile::new("B".to_string(), "b".to_string());
    f.desktop_entry.terminal = Some(true);
    f.desktop_entry.hidden = Some(false);
    let text = f.to_string();
    assert!(text.contains("Terminal=true\n"));
    assert!(text.contains("Hidden=false\n"));
}

#[test]
fn error_messages_name_the_field() {
    let e = DesktopFileError::MissingField("Name".to_string());
    assert_eq!(e.message(), "Missing required field: Name");
    let e = DesktopFileError::InvalidValue("Type".to_string(), "Game".to_string());
    assert_eq!(e.message(), "Invalid value for field Type: Game");
}
