use flocker::hub::Tag;
use flocker::terminal::{format_bytes, format_duration_words, Column, TableFormatter};

#[test]
fn test_format_bytes_plain() {
    assert_eq!(format_bytes(0), "0 B");
    assert_eq!(format_bytes(500), "500 B");
    assert_eq!(format_bytes(1023), "1023 B");
}

#[test]
fn test_format_bytes_scaled() {
    assert_eq!(format_bytes(1024), "1.0 KB");
    assert_eq!(format_bytes(1536), "1.5 KB");
    assert_eq!(format_bytes(2048), "2.0 KB");
    assert_eq!(format_bytes(1048576), "1.0 MB");
    assert_eq!(format_bytes(1073741824), "1.0 GB");
    assert_eq!(format_bytes(1099511627776), "1.0 TB");
    assert_eq!(format_bytes(1125899906842624), "1.0 PB");
}

#[test]
fn test_format_duration_words() {
    assert_eq!(format_duration_words(800, 0, 0), "2 years ago");
    assert_eq!(format_duration_words(45, 3, 0), "1 months ago");
    assert_eq!(format_duration_words(10, 0, 0), "1 weeks ago");
    assert_eq!(format_duration_words(3, 0, 0), "3 days ago");
    assert_eq!(format_duration_words(0, 5, 0), "5 hours ago");
    assert_eq!(format_duration_words(0, 0, 10), "10 minutes ago");
    assert_eq!(format_duration_words(0, 0, 0), "Seconds Ago");
}

#[test]
fn test_table_construction() {
    let columns = vec![
        Column::new("NAME".to_string(), 20),
        Column::new("SIZE".to_string(), 10),
    ];
    let _formatter = TableFormatter::new(columns);
}

#[test]
fn test_tag_accessors() {
    let tag = Tag::new("latest".to_string(), "2024-01-01T00:00:00Z".to_string());
    assert_eq!(tag.name(), "latest");
    assert_eq!(tag.last_updated, "2024-01-01T00:00:00Z");
}
