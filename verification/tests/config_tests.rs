use achievements::config::{config_dir_path, config_file_path, list_line, Config, Day};
use achievements::Timestamp;

fn datetime_ts(year: i32, month: u8, day: u8, hour: u8, minute: u8, offset_hours: i8) -> Timestamp {
    let month = time::Month::try_from(month).expect("bad month");
    let date = time::Date::from_calendar_date(year, month, day).expect("bad date");
    let t = time::Time::from_hms(hour, minute, 0).expect("bad time");
    let offset = time::UtcOffset::from_hms(offset_hours, 0, 0).expect("bad offset");
    let odt = date.with_time(t).assume_offset(offset);
    Timestamp {
        unix_seconds: odt.unix_timestamp(),
        nanosecond: odt.nanosecond(),
        offset_seconds: odt.offset().whole_seconds(),
    }
}

#[test]
fn set_day_test() {
    let mut config = Config { days: vec![] };

    // add to empty config
    let first_label = "Festa della liberazione";
    let first_date = datetime_ts(1944, 4, 25, 12, 0, 2);
    config.set_day(first_label, first_date);

    let first_day = config.days.first().expect("Should have a day in it");
    assert_eq!(first_day.label, first_label);
    assert_eq!(first_day.date, first_date);

    // adding another day
    let second_label = "A random day";
    let second_date = datetime_ts(2000, 1, 31, 12, 0, 2);
    config.set_day(second_label, second_date);

    assert_eq!(config.days.len(), 2);
    // first day still unchanged
    let first_day = config.days.first().expect("Should have a day in it");
    assert_eq!(first_day.label, first_label);
    assert_eq!(first_day.date, first_date);
    let second_day = config.days.last().expect("Should have a day in it");
    assert_eq!(second_day.label, second_label);
    assert_eq!(second_day.date, second_date);

    // updating an existing day
    let second_label = "   A random day  \n";
    let second_date = datetime_ts(1000, 12, 12, 12, 0, 2);
    config.set_day(second_label, second_date);

    assert_eq!(config.days.len(), 2);
    // first day still unchanged
    let first_day = config.days.first().expect("Should have a day in it");
    assert_eq!(first_day.label, first_label);
    assert_eq!(first_day.date, first_date);
    // second day updated
    let second_day = config.days.last().expect("Should have a day in it");
    assert_eq!(second_day.label, second_label.trim());
    assert_eq!(second_day.date, second_date);
}

#[test]
fn remove_day_test() {
    let first_label = "Festa della liberazione";
    let first_date = datetime_ts(1944, 4, 25, 12, 0, 2);

    let mut config = Config {
        days: vec![
            Day {
                label: first_label.to_string(),
                date: first_date,
            },
            Day {
                label: "something".to_string(),
                date: datetime_ts(2000, 1, 31, 12, 0, 2),
            },
        ],
    };

    // Remove day with given label (case-insensitive, trimmed)
    let input_label = " SomeThing  \n";
    config.remove_day(input_label);

    // only 1 day remaining
    assert_eq!(config.days.len(), 1);

    // first day still unchanged
    let first_day = config.days.first().expect("Should have a day in it");
    assert_eq!(first_day.label, first_label);
    assert_eq!(first_day.date, first_date);

    // day with label "something" removed
    let something_is_found = config.days.iter().find(|day| day.label == "something");
    assert!(something_is_found.is_none());
}

#[test]
fn remove_day_nonexistent_label_is_noop() {
    let first_date = datetime_ts(1969, 7, 20, 20, 17, 0);
    let mut config = Config {
        days: vec![Day {
            label: "somelabel".to_string(),
            date: first_date,
        }],
    };

    config.remove_day("not there");

    assert_eq!(config.days.len(), 1);
    assert_eq!(config.days[0].label, "somelabel");
    assert_eq!(config.days[0].date, first_date);
}

#[test]
fn remove_day_trims_and_ignores_case() {
    let keep_date = datetime_ts(1989, 11, 9, 18, 53, 1);
    let mut config = Config {
        days: vec![
            Day {
                label: "somelabel".to_string(),
                date: datetime_ts(1969, 7, 20, 20, 17, 0),
            },
            Day {
                label: "another".to_string(),
                date: keep_date,
            },
        ],
    };

    config.remove_day("  SomeLabel \n");

    assert_eq!(config.days.len(), 1);
    assert_eq!(config.days[0].label, "another");
    assert_eq!(config.days[0].date, keep_date);
}

#[test]
fn new_config_is_empty() {
    assert_eq!(Config::new().days.len(), 0);
    assert_eq!(Config::default().days.len(), 0);
}

#[test]
fn path_helpers() {
    let dir = config_dir_path("/home/someone");
    assert_eq!(dir, "/home/someone/.config/achievements");
    assert_eq!(
        config_file_path(&dir),
        "/home/someone/.config/achievements/config.json"
    );
}

#[test]
fn list_line_format() {
    assert_eq!(
        list_line("Moon landing", "1969-07-20T20:17:40+00:00"),
        "'Moon landing': 1969-07-20T20:17:40+00:00"
    );
}
