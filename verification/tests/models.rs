use time_tracker::bool_to_int;
use time_tracker::int_to_bool;
use time_tracker::Category;
use time_tracker::RepositoryError;

#[test]
fn test_category_as_str() {
    assert_eq!(Category::DeepWork.as_str(), "deep_work");
    assert_eq!(Category::Meetings.as_str(), "meetings");
    assert_eq!(Category::Admin.as_str(), "admin");
    assert_eq!(Category::Break.as_str(), "break");
    assert_eq!(Category::Away.as_str(), "away");
}

#[test]
fn test_category_from_str_valid() {
    assert_eq!(Category::from_str("deep_work"), Some(Category::DeepWork));
    assert_eq!(Category::from_str("meetings"), Some(Category::Meetings));
    assert_eq!(Category::from_str("admin"), Some(Category::Admin));
    assert_eq!(Category::from_str("break"), Some(Category::Break));
    assert_eq!(Category::from_str("away"), Some(Category::Away));
}

#[test]
fn test_category_from_str_invalid() {
    assert_eq!(Category::from_str("invalid"), None);
    assert_eq!(Category::from_str(""), None);
    assert_eq!(Category::from_str("Deep Work"), None);
    assert_eq!(Category::from_str("AWAY"), None);
}

#[test]
fn test_category_roundtrip() {
    let variants = [
        Category::DeepWork,
        Category::Meetings,
        Category::Admin,
        Category::Break,
        Category::Away,
    ];
    for variant in variants {
        assert_eq!(Category::from_str(variant.as_str()), Some(variant));
    }
}

#[test]
fn test_int_to_bool() {
    assert!(!int_to_bool(0));
    assert!(int_to_bool(1));
    assert!(int_to_bool(42));
    assert!(int_to_bool(-1));
}

#[test]
fn test_bool_to_int() {
    assert_eq!(bool_to_int(true), 1);
    assert_eq!(bool_to_int(false), 0);
}

#[test]
fn test_roundtrip() {
    assert!(int_to_bool(bool_to_int(true)));
    assert!(!int_to_bool(bool_to_int(false)));
}

#[test]
fn test_repository_error_messages() {
    let e = RepositoryError::DatabaseError(String::from("no such table"));
    assert_eq!(e.message(), "Database error: no such table");
    let e = RepositoryError::LockError(String::from("poisoned"));
    assert_eq!(e.message(), "Lock error: poisoned");
    let e = RepositoryError::NotFound(String::from("entry 7"));
    assert_eq!(e.message(), "Not found: entry 7");
    let e = RepositoryError::InvalidData(String::from("bad flag"));
    assert_eq!(e.message(), "Invalid data: bad flag");
}
