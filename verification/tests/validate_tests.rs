use desktop_files::codec::DesktopFile;
use desktop_files::error::DesktopFileError;

#[test]
fn valid_application_passes() {
    let f = DesktopFile::new("App".to_string(), "app".to_string());
    assert!(f.validate().is_ok());
}

#[test]
fn empty_name_fails_before_invalid_type() {
    let mut f = DesktopFile::new(String::new(), "app".to_string());
    f.desktop_entry.entry_type = "Bogus".to_string();
    match f.validate() {
        Err(DesktopFileError::MissingField(field)) => assert_eq!(field, "Name"),
        _ => panic!("expected the name violation first"),
    }
}

#[test]
fn unknown_type_fails_with_invalid_value() {
    let mut f = DesktopFile::new("App".to_string(), "app".to_string());
    f.desktop_entry.entry_type = "Gadget".to_string();
    match f.validate() {
        Err(DesktopFileError::InvalidValue(field, value)) => {
            assert_eq!(field, "Type");
            assert_eq!(value, "Gadget");
        },
        _ => panic!("expected InvalidValue(\"Type\", ...)"),
    }
}

#[test]
fn application_without_exec_fails() {
    let mut f = DesktopFile::new("App".to_string(), "app".to_string());
    f.desktop_entry.exec_command = None;
    match f.validate() {
        Err(DesktopFileError::MissingField(field)) => assert_eq!(field, "Exec"),
        _ => panic!("expected MissingField(\"Exec\")"),
    }
}

#[test]
fn link_without_url_fails() {
    let mut f = DesktopFile::new("Site".to_string(), String::new()).clone();
    f.desktop_entry.entry_type = "Link".to_string();
    f.desktop_entry.exec_command = None;
    match f.validate() {
        Err(DesktopFileError::MissingField(field)) => assert_eq!(field, "URL"),
        _ => panic!("expected MissingField(\"URL\")"),
    }
}

#[test]
fn link_with_url_passes() {
    let mut f = DesktopFile::new("Site".to_string(), String::new());
    f.desktop_entry.entry_type = "Link".to_string();
    f.desktop_entry.exec_command = None;
    f.desktop_entry.url = Some("https://example.org".to_string());
    assert!(f.validate().is_ok());
}

#[test]
fn directory_needs_neither_exec_nor_url() {
    let mut f = DesktopFile::new("Tools".to_string(), String::new());
    f.desktop_entry.entry_type = "Directory".to_string();
    f.desktop_entry.exec_command = None;
    f.desktop_entry.url = None;
    assert!(f.validate().is_ok());
}
