use std::cmp::Ordering;

use logforth::rolling::compare_logfile;
use logforth::rolling::files_to_delete;
use logforth::rolling::parse_logfile_name;
use logforth::rolling::parse_usize;
use logforth::rolling::sort_order;
use logforth::rolling::CivilDateTime;
use logforth::rolling::LogFileKey;
use logforth::rolling::Rotation;
use logforth::rolling::RollingFileWriterBuilder;
use logforth::rolling::RollingState;
use logforth::rolling::Startup;

fn date(year: i16, month: i8, day: i8, hour: i8, minute: i8) -> CivilDateTime {
    CivilDateTime {
        year,
        month,
        day,
        hour,
        minute,
        second: 0,
        subsec_nanosecond: 0,
    }
}

fn state(rotation: Rotation, suffix: &str, max_files: Option<usize>, max_size: Option<usize>) -> RollingState {
    let mut b = RollingFileWriterBuilder::new("test_file".to_string())
        .rotation(rotation)
        .filename_suffix(suffix.to_string());
    if let Some(n) = max_files {
        b = b.max_log_files(n);
    }
    if let Some(n) = max_size {
        b = b.max_file_size(n);
    }
    b.build(date(2024, 8, 10, 0, 0), None).unwrap()
}

#[test]
fn empty_filename_is_refused() {
    let err = RollingFileWriterBuilder::new(String::new())
        .build(date(2024, 8, 10, 0, 0), None)
        .err()
        .unwrap();
    assert_eq!(err.to_string(), "filename must not be empty");
}

#[test]
fn current_and_archive_names() {
    let s = state(Rotation::Never, "log", None, None);
    assert_eq!(s.current_filename(), "test_file.log");
    assert_eq!(s.archive_filename(date(2024, 8, 10, 0, 0), 3), "test_file.3.log");

    let s = state(Rotation::Never, "", None, None);
    assert_eq!(s.current_filename(), "test_file");
    assert_eq!(s.archive_filename(date(2024, 8, 10, 0, 0), 12), "test_file.12");

    let s = state(Rotation::Daily, "log", None, None);
    assert_eq!(s.archive_filename(date(2024, 8, 10, 13, 5), 1), "test_file.2024-08-10.1.log");

    let s = state(Rotation::Minutely, "", None, None);
    assert_eq!(s.archive_filename(date(2024, 8, 10, 13, 5), 2), "test_file.2024-08-10-13-05.2");

    let s = state(Rotation::Hourly, "txt", None, None);
    assert_eq!(s.archive_filename(date(2024, 8, 10, 13, 5), 2), "test_file.2024-08-10-13.2.txt");
}

#[test]
fn date_texts_are_zero_padded() {
    let s = state(Rotation::Minutely, "", None, None);
    assert_eq!(s.archive_filename(date(7, 1, 2, 3, 4), 0), "test_file.0007-01-02-03-04.0");
    assert_eq!(s.archive_filename(date(-5, 12, 31, 23, 59), 1), "test_file.-005-12-31-23-59.1");
    assert_eq!(s.archive_filename(date(-2024, 2, 29, 0, 0), 1), "test_file.-2024-02-29-00-00.1");
}

#[test]
fn listed_names_are_read_back() {
    let s = state(Rotation::Never, "log", None, None);
    let max = CivilDateTime::max();
    let cur = s.parse_logfile(b"test_file.log").unwrap();
    assert_eq!(cur, LogFileKey { datetime: max, count: 0 });
    let a = s.parse_logfile(b"test_file.7.log").unwrap();
    assert_eq!(a, LogFileKey { datetime: max, count: 7 });
    assert_eq!(s.parse_logfile(b"other.7.log"), None);
    assert_eq!(s.parse_logfile(b"test_file.7.txt"), None);
    assert_eq!(s.parse_logfile(b"test_file.x.log"), None);
    assert_eq!(s.parse_logfile(b"test_file-7.log"), None);

    let s = state(Rotation::Daily, "log", None, None);
    let d = s.parse_logfile(b"test_file.2024-08-10.3.log").unwrap();
    assert_eq!(d.datetime, date(2024, 8, 10, 0, 0));
    assert_eq!(d.count, 3);
    assert_eq!(s.parse_logfile(b"test_file.2024-13-10.3.log"), None);
    assert_eq!(s.parse_logfile(b"test_file.3.log"), None);
}

#[test]
fn archived_names_are_recognised() {
    for suffix in ["log", ""] {
        let s = state(Rotation::Never, suffix, None, None);
        for cnt in [1usize, 9, 10, 12345] {
            let name = s.archive_filename(date(2024, 8, 10, 0, 0), cnt);
            let key = s.parse_logfile(name.as_bytes()).unwrap();
            assert_eq!(key.count, cnt);
        }
        let cur = s.current_filename();
        assert_eq!(s.parse_logfile(cur.as_bytes()).unwrap().count, 0);
    }
}

#[test]
fn parse_logfile_name_without_suffix() {
    let r = parse_logfile_name(b"app.42", b"app", None, Rotation::Never).unwrap();
    assert_eq!(r.count, 42);
    assert_eq!(parse_logfile_name(b"app", b"app", None, Rotation::Never).unwrap().count, 0);
}

#[test]
fn usize_parsing() {
    assert_eq!(parse_usize(b"0"), Some(0));
    assert_eq!(parse_usize(b"+17"), Some(17));
    assert_eq!(parse_usize(b""), None);
    assert_eq!(parse_usize(b"+"), None);
    assert_eq!(parse_usize(b"-1"), None);
    assert_eq!(parse_usize(b"1a"), None);
    assert_eq!(parse_usize(b"18446744073709551615"), Some(usize::MAX));
    assert_eq!(parse_usize(b"18446744073709551616"), None);
}

#[test]
fn oldest_comes_first() {
    let max = CivilDateTime::max();
    let keys = vec![
        LogFileKey { datetime: max, count: 0 },
        LogFileKey { datetime: max, count: 1 },
        LogFileKey { datetime: max, count: 3 },
        LogFileKey { datetime: max, count: 2 },
    ];
    assert_eq!(sort_order(&keys), vec![2, 3, 1, 0]);
    assert_eq!(compare_logfile(&keys[2], &keys[1]), Ordering::Less);
    assert_eq!(compare_logfile(&keys[0], &keys[1]), Ordering::Greater);
    assert_eq!(compare_logfile(&keys[0], &keys[0]), Ordering::Equal);

    let dated = vec![
        LogFileKey { datetime: date(2024, 8, 11, 0, 0), count: 1 },
        LogFileKey { datetime: date(2024, 8, 10, 0, 0), count: 1 },
        LogFileKey { datetime: date(2024, 8, 10, 0, 0), count: 2 },
    ];
    assert_eq!(sort_order(&dated), vec![2, 1, 0]);
}

#[test]
fn equal_files_keep_their_listing_order() {
    let k = LogFileKey { datetime: date(2024, 1, 1, 0, 0), count: 5 };
    assert_eq!(sort_order(&vec![k, k, k]), vec![0, 1, 2]);
}

#[test]
fn oldest_files_are_deleted() {
    let max = CivilDateTime::max();
    let keys: Vec<LogFileKey> = [0usize, 1, 2, 3, 4]
        .iter()
        .map(|&c| LogFileKey { datetime: max, count: c })
        .collect();
    assert_eq!(files_to_delete(&keys, 3), vec![4, 3, 2]);
    assert_eq!(files_to_delete(&keys, 5), vec![4]);
    assert_eq!(files_to_delete(&keys, 6), Vec::<usize>::new());
    assert_eq!(files_to_delete(&keys, 1), vec![4, 3, 2, 1, 0]);
}

#[test]
fn rename_plan_moves_archives_up() {
    let s = state(Rotation::Never, "log", Some(10), None);
    let plan = s.rename_plan(date(2024, 8, 10, 0, 0), 2);
    let plan: Vec<(&str, &str)> = plan.iter().map(|(a, b)| (a.as_str(), b.as_str())).collect();
    assert_eq!(
        plan,
        vec![
            ("test_file.2.log", "test_file.3.log"),
            ("test_file.1.log", "test_file.2.log"),
            ("test_file.log", "test_file.1.log"),
        ]
    );
    assert_eq!(s.probe_limit(), 10);
    assert_eq!(state(Rotation::Never, "log", None, None).probe_limit(), usize::MAX);
}

#[test]
fn rotation_by_size() {
    let mut s = state(Rotation::Never, "log", Some(3), Some(100));
    let now = date(2024, 8, 10, 0, 1);
    assert_eq!(s.begin_write(now, 0, None), None);
    s.record_written(60);
    assert_eq!(s.begin_write(now, 0, None), None);
    s.record_written(60);
    assert_eq!(s.current_filesize(), 120);
    assert!(s.should_rollover_on_size());
    let later = date(2024, 8, 10, 0, 2);
    assert_eq!(s.begin_write(later, 0, None), Some(later));
    assert_eq!(s.current_filesize(), 0);
}

#[test]
fn rotation_by_date_uses_previous_write_date() {
    let start = date(2024, 8, 10, 0, 0);
    let mut s = RollingFileWriterBuilder::new("test_file".to_string())
        .rotation(Rotation::Minutely)
        .max_file_size(10)
        .build(start, Some(60_000))
        .unwrap();
    assert_eq!(s.begin_write(start, 0, Some(60_000)), None);
    s.record_written(50);
    let next = date(2024, 8, 10, 0, 1);
    assert!(s.should_rollover_on_date(60_000));
    assert!(!s.should_rollover_on_date(59_999));
    // due by time and by size: rotated once, under the date of the previous write
    assert_eq!(s.begin_write(next, 60_000, Some(120_000)), Some(start));
    assert_eq!(s.current_filesize(), 0);
    assert!(!s.should_rollover_on_date(119_999));
}

#[test]
fn startup_resumes_the_current_file() {
    let mut s = state(Rotation::Never, "log", Some(5), None);
    let max = CivilDateTime::max();
    let names = vec![b"test_file.1.log".to_vec(), b"test_file.log".to_vec()];
    let keys = vec![
        LogFileKey { datetime: max, count: 1 },
        LogFileKey { datetime: max, count: 0 },
    ];
    assert_eq!(s.startup(&names, &keys), Startup::Resume(1));
    assert_eq!(s.startup(&vec![], &vec![]), Startup::CreateNew);
    let names = vec![b"test_file.1.log".to_vec()];
    let keys = vec![LogFileKey { datetime: max, count: 1 }];
    assert_eq!(s.startup(&names, &keys), Startup::CreateNew);
}

#[test]
fn resume_takes_the_file_size_and_time() {
    let mut s = state(Rotation::Daily, "log", None, None);
    s.resume(77, Some((date(2024, 8, 9, 12, 0), Some(1000))));
    assert_eq!(s.current_filesize(), 77);
    assert!(s.should_rollover_on_date(1000));
    assert_eq!(s.begin_write(date(2024, 8, 10, 0, 0), 1000, Some(2000)), Some(date(2024, 8, 9, 12, 0)));
}

#[test]
fn date_formats() {
    assert_eq!(Rotation::Minutely.date_format(), "%Y-%m-%d-%H-%M");
    assert_eq!(Rotation::Hourly.date_format(), "%Y-%m-%d-%H");
    assert_eq!(Rotation::Daily.date_format(), "%Y-%m-%d");
    assert_eq!(Rotation::Never.date_format(), "%Y-%m-%d");
}

#[test]
fn datetimes_are_ordered_by_fields() {
    assert!(date(2024, 1, 1, 0, 0).is_before(&date(2024, 1, 1, 0, 1)));
    assert!(!date(2024, 1, 2, 0, 0).is_before(&date(2024, 1, 1, 23, 59)));
    assert!(date(2023, 12, 31, 23, 59).is_before(&CivilDateTime::max()));
}

#[test]
fn rollovers_never_keep_more_than_the_limit() {
    let limit = 3;
    let size = 4;
    let mut s = state(Rotation::Never, "log", Some(limit), Some(size));
    let now = date(2024, 8, 10, 0, 0);
    // an empty directory: the writer creates its current file
    assert_eq!(s.startup(&vec![], &vec![]), Startup::CreateNew);
    // the directory, as the keys of the writer's files other than the current one
    let mut archived: Vec<LogFileKey> = Vec::new();
    let mut rollovers = 0;
    for _ in 0..20 {
        let before = s.current_filesize();
        match s.begin_write(now, 0, None) {
            Some(date) => {
                assert!(before >= size);
                assert_eq!(s.current_filesize(), 0);
                // the current file is archived, then the excess files are removed
                archived.push(LogFileKey { datetime: date, count: 0 });
                for k in archived.iter_mut() {
                    k.count += 1;
                }
                let remove = s.retention_plan(&archived);
                let kept: Vec<LogFileKey> = archived
                    .iter()
                    .enumerate()
                    .filter(|(j, _)| !remove.contains(j))
                    .map(|(_, k)| *k)
                    .collect();
                archived = kept;
                rollovers += 1;
                // the new current file and the archives
                assert_eq!(archived.len() + 1, std::cmp::min(rollovers + 1, limit));
            }
            None => assert!(before < size),
        }
        s.record_written(3);
        assert_eq!(s.current_filesize(), if before >= size { 3 } else { before + 3 });
    }
    assert!(rollovers > 3);
}
