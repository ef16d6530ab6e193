use rhc_bot::clock::{clock_seconds, now};
use rhc_bot::logs::{log_cutoff, log_day_fits, log_expired, log_line, log_path};
use rhc_bot::paths::{join, logs_dir, marker_path, paths};

#[test]
fn the_clock_is_past_the_turn_of_the_century() {
    let seconds = std::time::SystemTime::now()
        .duration_since(std::time::UNIX_EPOCH)
        .unwrap()
        .as_secs() as i64;
    let time = now().unwrap();
    assert!(time >= seconds && time <= seconds + 60);
}

#[test]
fn a_clock_reading_is_a_number_of_seconds() {
    assert_eq!(clock_seconds(Some(1_700_000_000)), Some(1_700_000_000));
    assert_eq!(clock_seconds(Some(u64::MAX)), Some(-1));
    assert_eq!(clock_seconds(None), None);
}

#[test]
fn files_stand_in_the_data_directory() {
    assert_eq!(
        paths("/var/lib/rhc-bot"),
        ("/var/lib/rhc-bot/config.json".to_owned(), "/var/lib/rhc-bot/state.db".to_owned())
    );
    assert_eq!(logs_dir("data/"), "data/logs");
    assert_eq!(marker_path("d"), "d/ubi-cache-updated");
    assert_ne!(paths("x").0, paths("x").1);
    for base in ["", "/", "a", "a/", "a//", "中"] {
        let path = std::path::PathBuf::from(base).join("logs");
        assert_eq!(join(base, "logs"), path.to_string_lossy());
    }
}

#[test]
fn a_log_is_named_for_its_day() {
    assert_eq!(log_path("logs", 0), "logs/0.log");
    assert_eq!(log_path("logs", 86_399), "logs/0.log");
    assert_eq!(log_path("logs", 86_400), "logs/1.log");
    assert_eq!(log_path("logs", 1_700_000_000), "logs/19675.log");
    assert_eq!(log_path("logs", -86_401), "logs/-1.log");
    assert_eq!(log_path("logs", i64::MIN), format!("logs/{}.log", i64::MIN / 86_400));
    assert_eq!(log_line(12, "poll: x"), "12 poll: x\n");
}

#[test]
fn logs_expire_after_the_retention() {
    let time = 1_700_000_000;
    let cutoff = log_cutoff(time, 7);
    assert_eq!(cutoff, 1_699_395_200);
    assert!(!log_expired("19675.log", cutoff));
    assert!(!log_expired("19669.log", cutoff));
    assert!(log_expired("19668.log", cutoff));
    assert!(log_expired("19667", cutoff));
    assert!(log_expired("0.log.log", cutoff));
    assert!(!log_expired("notes.log", cutoff));
    assert!(!log_expired("19667.txt", cutoff));
}

#[test]
fn the_current_log_is_kept() {
    for time in [0, 86_399, 86_400, 1_700_000_000] {
        for days in [1, 7, 365] {
            let path = log_path("", time);
            assert!(!log_expired(&path, log_cutoff(time, days)));
        }
    }
}

#[test]
fn a_retention_may_be_beyond_counting() {
    assert_eq!(log_cutoff(1_000, 0), 1_000);
    assert_eq!(log_cutoff(1_000, u64::MAX), 1_001);
    assert_eq!(log_cutoff(i64::MIN, 1), i64::MIN);
    assert_eq!(log_cutoff(i64::MAX, u64::MAX), i64::MAX);
    assert!(log_day_fits("106751991167300.log"));
    assert!(!log_day_fits("106751991167301.log"));
    assert!(log_day_fits("readme"));
}
