use chrono::Datelike;
use zugzug::errors::ErrorKind;
use zugzug::naming::{dir_name, split_entry_name, today, Date};
use zugzug::store::Bucket;

fn day(year: i32, month: u32, day: u32) -> Date {
    Date { year, month, day }
}

fn std_name(date: &Date, name: &str) -> String {
    format!("{:04}{:02}{:02}_{}", date.year, date.month, date.day, name)
}

#[test]
fn dir_name_of_a_task() {
    assert_eq!(dir_name(&day(2024, 3, 5), "task"), "20240305_task");
}

#[test]
fn dir_name_keeps_the_name_as_it_is() {
    assert_eq!(dir_name(&day(2024, 3, 5), "my_task"), "20240305_my_task");
    assert_eq!(dir_name(&day(2024, 12, 31), ""), "20241231_");
    assert_eq!(dir_name(&day(1999, 1, 1), "a b/c"), "19990101_a b/c");
    assert_eq!(dir_name(&day(2024, 3, 5), "décor"), "20240305_décor");
}

#[test]
fn dir_name_pads_small_numbers() {
    assert_eq!(dir_name(&day(5, 1, 2), "x"), "00050102_x");
    assert_eq!(dir_name(&day(0, 10, 20), "x"), "00001020_x");
    assert_eq!(dir_name(&day(987, 9, 9), "x"), "09870909_x");
}

#[test]
fn dir_name_does_not_cut_large_numbers() {
    assert_eq!(dir_name(&day(12345, 1, 2), "x"), "123450102_x");
    assert_eq!(dir_name(&day(2024, 123, 4567), "x"), "20241234567_x");
    assert_eq!(dir_name(&day(i32::MAX, u32::MAX, u32::MAX), "x"), "214748364742949672954294967295_x");
}

#[test]
fn dir_name_of_a_year_before_zero() {
    assert_eq!(dir_name(&day(-5, 1, 2), "x"), "-0050102_x");
    assert_eq!(dir_name(&day(-1234, 1, 2), "x"), "-12340102_x");
    assert_eq!(dir_name(&day(i32::MIN, 1, 2), "x"), "-21474836480102_x");
}

#[test]
fn dir_name_is_what_std_formats() {
    let years = [i32::MIN, -10000, -9999, -1000, -999, -100, -10, -1, 0, 1, 9, 10, 99, 100, 999, 1000, 2024, 9999, 10000, i32::MAX];
    let small = [0u32, 1, 9, 10, 12, 31, 99, 100, u32::MAX];
    for year in years {
        for month in small {
            for d in small {
                let date = day(year, month, d);
                assert_eq!(dir_name(&date, "n"), std_name(&date, "n"));
            }
        }
    }
}

#[test]
fn make_dir_names_the_directory() {
    let bucket = Bucket { name: "work".to_string(), path: "/tmp/work".to_string() };
    let made = bucket.make_dir("task", &day(2024, 3, 5), false);
    assert_eq!(made.ok(), Some("20240305_task".to_string()));
}

#[test]
fn make_dir_refuses_an_existing_path() {
    let bucket = Bucket { name: "work".to_string(), path: "/tmp/work".to_string() };
    let first = bucket.make_dir("task", &day(2024, 3, 5), false);
    assert!(first.is_ok());
    let err = bucket.make_dir("task", &day(2024, 3, 5), true).unwrap_err();
    assert_eq!(err.kind(), ErrorKind::PathExists);
    assert_eq!(err.description(), "Path already exists");
}

#[test]
fn today_is_the_day_of_the_local_clock() {
    let before = chrono::Local::now();
    let date = today();
    let after = chrono::Local::now();
    let seen = (date.year, date.month, date.day);
    assert!(
        seen == (before.year(), before.month(), before.day())
            || seen == (after.year(), after.month(), after.day())
    );
    assert!((1..=12).contains(&date.month));
    assert!((1..=31).contains(&date.day));
}

#[test]
fn split_at_the_first_underscore() {
    let (date, name) = split_entry_name("20240305_my_task").ok().unwrap();
    assert_eq!(date, "20240305");
    assert_eq!(name, "my_task");
}

#[test]
fn split_with_empty_parts() {
    assert_eq!(split_entry_name("_x").ok(), Some((String::new(), "x".to_string())));
    assert_eq!(split_entry_name("x_").ok(), Some(("x".to_string(), String::new())));
    assert_eq!(split_entry_name("_").ok(), Some((String::new(), String::new())));
    assert_eq!(split_entry_name("__").ok(), Some((String::new(), "_".to_string())));
}

#[test]
fn split_counts_characters_not_bytes() {
    let (date, name) = split_entry_name("dé_ñandú_x").ok().unwrap();
    assert_eq!(date, "dé");
    assert_eq!(name, "ñandú_x");
}

#[test]
fn split_without_underscore_is_malformed() {
    let err = split_entry_name("notes").unwrap_err();
    assert_eq!(err.kind(), ErrorKind::MalformedEntryName);
    assert_eq!(err.description(), "Malformed entry name: notes");
    let err = split_entry_name("").unwrap_err();
    assert_eq!(err.kind(), ErrorKind::MalformedEntryName);
    assert_eq!(err.description(), "Malformed entry name: ");
}

#[test]
fn split_agrees_with_std_splitn() {
    for entry in ["a_b", "a_b_c", "_", "__a", "20240305_x", "é_é", "no-underscore"] {
        let parts: Vec<&str> = entry.splitn(2, "_").collect();
        match split_entry_name(entry) {
            Ok((date, name)) => {
                assert_eq!(parts.len(), 2);
                assert_eq!(date, parts[0]);
                assert_eq!(name, parts[1]);
            }
            Err(_) => assert_eq!(parts.len(), 1),
        }
    }
}

#[test]
fn a_made_name_reads_back() {
    let date = day(2024, 3, 5);
    for name in ["task", "my_task", "", "_", "a_b_c"] {
        let full = dir_name(&date, name);
        let (stamp, rest) = split_entry_name(&full).ok().unwrap();
        assert_eq!(stamp, "20240305");
        assert_eq!(rest, name);
    }
}
