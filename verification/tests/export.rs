use time_tracker::escape_csv_field;
use time_tracker::export_entries_to_csv;
use time_tracker::text::clock_label;
use time_tracker::text::i32_to_string;
use time_tracker::text::parse_u64;
use time_tracker::text::u64_to_string;
use time_tracker::text::utc_time_label;
use time_tracker::TimeEntry;

fn entry(timestamp: i64, category: &str, notes: Option<&str>) -> TimeEntry {
    TimeEntry {
        id: None,
        timestamp,
        category: category.to_string(),
        duration_minutes: 15,
        is_away: false,
        is_retroactive: true,
        notes: notes.map(|n| n.to_string()),
        created_at: None,
    }
}

#[test]
fn test_escape_csv_field_plain() {
    assert_eq!(escape_csv_field("plain"), "plain");
    assert_eq!(escape_csv_field(""), "");
}

#[test]
fn test_escape_csv_field_comma() {
    assert_eq!(escape_csv_field("a,b"), "\"a,b\"");
}

#[test]
fn test_escape_csv_field_quote() {
    assert_eq!(escape_csv_field("say \"hi\""), "\"say \"\"hi\"\"\"");
}

#[test]
fn test_escape_csv_field_newline() {
    assert_eq!(escape_csv_field("line\nbreak"), "\"line\nbreak\"");
}

#[test]
fn test_export_header_only() {
    let entries: Vec<TimeEntry> = Vec::new();
    let csv = export_entries_to_csv(&entries).unwrap();
    assert_eq!(csv, "Date,Time,Category,Duration (minutes),Is Away,Is Retroactive,Notes\n");
}

#[test]
fn test_export_one_entry_exact() {
    let entries = vec![entry(1000, "deep_work", Some("a,b"))];
    let csv = export_entries_to_csv(&entries).unwrap();
    assert_eq!(
        csv,
        "Date,Time,Category,Duration (minutes),Is Away,Is Retroactive,Notes\n\
         1970-01-01,00:16,deep_work,15,false,true,\"a,b\"\n"
    );
}

#[test]
fn test_export_away_entry() {
    let mut e = entry(900_000, "away", None);
    e.is_away = true;
    e.is_retroactive = false;
    let csv = export_entries_to_csv(&vec![e]).unwrap();
    assert_eq!(
        csv,
        "Date,Time,Category,Duration (minutes),Is Away,Is Retroactive,Notes\n\
         1970-01-11,10:00,away,15,true,false,\n"
    );
}

#[test]
fn test_export_invalid_timestamp() {
    let entries = vec![entry(i64::MIN, "break", None)];
    let err = export_entries_to_csv(&entries).unwrap_err();
    assert_eq!(err, "Invalid timestamp");
}

#[test]
fn test_utc_time_label_values() {
    assert_eq!(utc_time_label(0), "00:00");
    assert_eq!(utc_time_label(86_399), "23:59");
    assert_eq!(utc_time_label(1000), "00:16");
    assert_eq!(utc_time_label(-60), "23:59");
}

#[test]
fn test_clock_label_values() {
    assert_eq!(clock_label(0, 0), "12:00 AM");
    assert_eq!(clock_label(43_200, 0), "12:00 PM");
    assert_eq!(clock_label(34_200, 0), "9:30 AM");
    assert_eq!(clock_label(900_000, 0), "10:00 AM");
    // The offset shifts the local wall clock.
    assert_eq!(clock_label(0, 3_600), "1:00 AM");
    assert_eq!(clock_label(0, -3_600), "11:00 PM");
}

#[test]
fn test_parse_u64_accepts_std_forms() {
    assert_eq!(parse_u64("15"), Some(15));
    assert_eq!(parse_u64("+7"), Some(7));
    assert_eq!(parse_u64("0"), Some(0));
    assert_eq!(parse_u64("18446744073709551615"), Some(u64::MAX));
    assert_eq!(parse_u64(""), None);
    assert_eq!(parse_u64("+"), None);
    assert_eq!(parse_u64("-3"), None);
    assert_eq!(parse_u64("1.5"), None);
    assert_eq!(parse_u64("18446744073709551616"), None);
}

#[test]
fn test_decimal_rendering() {
    assert_eq!(u64_to_string(0), "0");
    assert_eq!(u64_to_string(1234), "1234");
    assert_eq!(i32_to_string(-5), "-5");
    assert_eq!(i32_to_string(i32::MIN), "-2147483648");
    assert_eq!(i32_to_string(i32::MAX), "2147483647");
}
