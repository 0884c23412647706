use pledger::emoji::{for_error, for_search, for_success, for_warning};
use pledger::io::file::FileError;

#[test]
fn emojis_are_the_assigned_signs() {
    assert_eq!(for_success().to_string(), "\u{2705}");
    assert_eq!(for_warning().to_string(), "\u{26a0}\u{fe0f} ");
    assert_eq!(for_error().to_string(), "\u{274c}");
    assert_eq!(for_search().to_string(), "\u{1f50e}");
    assert_eq!(for_error().as_str(), "\u{274c}");
}

#[test]
fn file_errors_are_told_apart() {
    assert_ne!(FileError::NotFound, FileError::Unknown);
}
