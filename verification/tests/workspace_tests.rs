use proctor_core::workspace::FileError;
use proctor_core::workspace::Workspace;

#[test]
fn create_twice_reports_already_exists() {
    let mut ws = Workspace::new();
    assert_eq!(ws.create_file("x.txt"), Ok(()));
    assert_eq!(ws.create_file("x.txt"), Err(FileError::AlreadyExists));
    // the file still holds what the first call left: nothing
    assert_eq!(ws.read_file("x.txt"), Ok(String::new()));
}

#[test]
fn write_then_read_round_trip() {
    let mut ws = Workspace::new();
    assert_eq!(ws.write_file("notes.txt", "hello"), Ok(()));
    assert_eq!(ws.read_file("notes.txt"), Ok(String::from("hello")));
    assert_eq!(ws.write_file("notes.txt", "bye"), Ok(()));
    assert_eq!(ws.read_file("notes.txt"), Ok(String::from("bye")));
}

#[test]
fn read_missing_file() {
    let ws = Workspace::new();
    assert_eq!(ws.read_file("ghost.txt"), Err(FileError::NotFound));
}

#[test]
fn escaping_names_are_denied_without_mutation() {
    let mut ws = Workspace::new();
    assert_eq!(ws.create_file("../secret"), Err(FileError::AccessDenied));
    assert_eq!(ws.write_file("../secret", "x"), Err(FileError::AccessDenied));
    assert_eq!(ws.read_file("../secret"), Err(FileError::AccessDenied));
    assert_eq!(ws.list_files(), Vec::<String>::new());
}

#[test]
fn listing_is_sorted_and_filtered() {
    let mut ws = Workspace::new();
    assert_eq!(ws.write_file("b.txt", "2"), Ok(()));
    assert_eq!(ws.write_file("a.txt", "1"), Ok(()));
    assert_eq!(ws.write_file("session_log.txt", "log"), Ok(()));
    assert_eq!(ws.write_file(".hidden", "h"), Ok(()));
    assert_eq!(ws.list_files(), vec![String::from("a.txt"), String::from("b.txt")]);
}

#[test]
fn overwrite_keeps_one_listing_entry() {
    let mut ws = Workspace::new();
    assert_eq!(ws.write_file("a.txt", "1"), Ok(()));
    assert_eq!(ws.write_file("a.txt", "2"), Ok(()));
    assert_eq!(ws.list_files(), vec![String::from("a.txt")]);
}

#[test]
fn contains_reflects_creation() {
    let mut ws = Workspace::new();
    assert!(!ws.contains("x.txt"));
    assert_eq!(ws.create_file("x.txt"), Ok(()));
    assert!(ws.contains("x.txt"));
}

#[test]
fn raw_directory_listing_is_filtered_sorted_deduplicated() {
    let names = vec![
        String::from("b.txt"),
        String::from("session_log.txt"),
        String::from(".hidden"),
        String::from("a.txt"),
        String::from("b.txt"),
    ];
    assert_eq!(
        proctor_core::workspace::filter_listing(&names),
        vec![String::from("a.txt"), String::from("b.txt")]
    );
}

#[test]
fn error_messages() {
    assert_eq!(FileError::AccessDenied.message(), "Access denied");
    assert_eq!(FileError::AlreadyExists.message(), "File already exists");
    assert_eq!(FileError::NotFound.message(), "File not found");
}
