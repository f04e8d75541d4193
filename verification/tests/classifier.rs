use datedir::classify::{
    decide_transfer, entry_plan, padded2_string, u32_decimal, year_string, Action, Plan,
    SourceEntry,
};

fn entry(name: &str, size: u64, mtime_micros: i64, is_dir: bool) -> SourceEntry {
    SourceEntry { name: name.to_string(), size, mtime_micros, is_dir }
}

#[test]
fn decimal_rendering() {
    assert_eq!(u32_decimal(0), "0");
    assert_eq!(u32_decimal(7), "7");
    assert_eq!(u32_decimal(2023), "2023");
    assert_eq!(u32_decimal(4294967295), "4294967295");
}

#[test]
fn year_rendering() {
    assert_eq!(year_string(2023), "2023");
    assert_eq!(year_string(0), "0");
    assert_eq!(year_string(-44), "-44");
    assert_eq!(year_string(i32::MIN), "-2147483648");
}

#[test]
fn zero_padding() {
    assert_eq!(padded2_string(0), "00");
    assert_eq!(padded2_string(7), "07");
    assert_eq!(padded2_string(10), "10");
    assert_eq!(padded2_string(31), "31");
}

#[test]
fn plan_for_known_timestamp() {
    // 2023-07-04T10:00:00Z
    let e = entry("photo.jpg", 10, 1_688_464_800_000_000, false);
    match entry_plan(&e) {
        Plan::Dest { segments } => assert_eq!(segments, vec!["2023", "07", "04"]),
        _ => panic!("expected a destination plan"),
    }
}

#[test]
fn plan_for_epoch() {
    let e = entry("old.txt", 1, 0, false);
    match entry_plan(&e) {
        Plan::Dest { segments } => assert_eq!(segments, vec!["1970", "01", "01"]),
        _ => panic!("expected a destination plan"),
    }
}

#[test]
fn plan_before_epoch() {
    // 1900-01-01T14:38:45Z
    let e = entry("older.txt", 1, -2_208_936_075_000_000, false);
    match entry_plan(&e) {
        Plan::Dest { segments } => assert_eq!(segments, vec!["1900", "01", "01"]),
        _ => panic!("expected a destination plan"),
    }
}

#[test]
fn plan_for_directory() {
    let e = entry("sub", 0, 1_688_464_800_000_000, true);
    assert!(matches!(entry_plan(&e), Plan::SkipIsDirectory));
}

#[test]
fn plan_for_out_of_range_timestamp() {
    let far_future = entry("future", 1, i64::MAX, false);
    assert!(matches!(entry_plan(&far_future), Plan::InvalidTimestamp));
    let far_past = entry("past", 1, i64::MIN, false);
    assert!(matches!(entry_plan(&far_past), Plan::InvalidTimestamp));
}

#[test]
fn missing_destination_transfers() {
    assert!(matches!(decide_transfer(false, 5, None), Action::Transfer));
    assert!(matches!(decide_transfer(true, 5, None), Action::Transfer));
}

#[test]
fn same_size_skips_unless_forced() {
    assert!(matches!(decide_transfer(false, 5, Some(5)), Action::SkipExists));
    assert!(matches!(decide_transfer(false, 5, Some(6)), Action::Transfer));
    assert!(matches!(decide_transfer(true, 5, Some(5)), Action::Transfer));
}
