use md2paper::render::image_requests;
use md2paper::date::unix_secs_to_ymd;
use md2paper::is_http_url;
use md2paper::render::MemWorld;
use typst::World;
use typst::syntax::{FileId, VirtualPath};

#[test]
fn test_is_http_url_detects_https() {
    assert!(is_http_url("https://example.com/image.png"));
}

#[test]
fn test_is_http_url_detects_http() {
    assert!(is_http_url("http://example.com/logo.svg"));
}

#[test]
fn test_is_http_url_rejects_relative_path() {
    assert!(!is_http_url("images/photo.jpg"));
}

#[test]
fn test_is_http_url_rejects_absolute_path() {
    assert!(!is_http_url("/usr/local/images/photo.jpg"));
}

#[test]
fn test_today_returns_correct_month_and_day() {
    let world = MemWorld::new("", Vec::new());
    let date = world.today(None).expect("today must return a date");
    let month = date.month().unwrap();
    let day = date.day().unwrap();
    assert!(month >= 1 && month <= 12, "month out of range: {month}");
    assert!(day >= 1 && day <= 31, "day out of range: {day}");
    assert!(date.year().unwrap() >= 2024, "year implausibly small");
}

#[test]
fn unix_epoch_is_first_of_january_1970() {
    assert_eq!(unix_secs_to_ymd(0), (1970, 1, 1));
}

#[test]
fn unix_time_of_a_known_date() {
    // 2024-02-29 12:00:00 UTC
    assert_eq!(unix_secs_to_ymd(1_709_208_000), (2024, 2, 29));
    // 1969-12-31 23:59:59 UTC
    assert_eq!(unix_secs_to_ymd(-1), (1969, 12, 31));
}

#[test]
fn month_ends_roll_over_to_the_next_month() {
    // 2023-02-28 and the day after, 2023-03-01 (not a leap year)
    assert_eq!(unix_secs_to_ymd(1_677_542_400), (2023, 2, 28));
    assert_eq!(unix_secs_to_ymd(1_677_628_800), (2023, 3, 1));
    // 2000-02-29 (a leap year, divisible by 400) and 2100-03-01 after 2100-02-28
    assert_eq!(unix_secs_to_ymd(951_782_400), (2000, 2, 29));
    assert_eq!(unix_secs_to_ymd(4_107_456_000), (2100, 2, 28));
    assert_eq!(unix_secs_to_ymd(4_107_542_400), (2100, 3, 1));
    // 2024-04-30 and 2024-05-01
    assert_eq!(unix_secs_to_ymd(1_714_435_200), (2024, 4, 30));
    assert_eq!(unix_secs_to_ymd(1_714_521_600), (2024, 5, 1));
}

#[test]
fn the_world_holds_the_embedded_fonts() {
    let world = MemWorld::new("", Vec::new());
    assert!(world.font(0).is_some());
    assert!(world.book().families().next().is_some());
}

#[test]
fn the_calendar_repeats_every_four_hundred_years() {
    assert_eq!(unix_secs_to_ymd(146_097 * 86_400), (2370, 1, 1));
    assert_eq!(unix_secs_to_ymd(1_709_208_000 + 146_097 * 86_400), (2424, 2, 29));
}

#[test]
fn image_requests_keep_one_source_per_path() {
    let sources = vec!["img/a.png".to_string(), "./img/a.png".to_string(), "b.png".to_string()];
    let r = image_requests(&sources);
    assert_eq!(r.len(), 2);
    assert_eq!(r[0], ("img/a.png".to_string(), "img/a.png".to_string()));
    assert_eq!(r[1], ("b.png".to_string(), "b.png".to_string()));
}

#[test]
fn the_world_reads_the_first_file_under_a_path() {
    let files = vec![
        ("a.png".to_string(), vec![1u8, 2]),
        ("b.png".to_string(), vec![3u8]),
        ("a.png".to_string(), vec![4u8]),
    ];
    let world = MemWorld::new("", files);
    assert_eq!(world.file_index("a.png"), Some(0));
    assert_eq!(world.file_index("b.png"), Some(1));
    assert_eq!(world.file_index("c.png"), None);
    let id = FileId::new(None, VirtualPath::new("a.png"));
    assert_eq!(world.file(id).unwrap().as_slice(), &[1u8, 2][..]);
    let missing = FileId::new(None, VirtualPath::new("c.png"));
    assert!(world.file(missing).is_err());
}

#[test]
fn the_world_serves_only_its_main_source() {
    let world = MemWorld::new("Hello", Vec::new());
    let main = world.main();
    assert_eq!(world.source(main).unwrap().text(), "Hello");
    let other = FileId::new(None, VirtualPath::new("other.typ"));
    assert!(world.source(other).is_err());
}

#[test]
fn the_next_day_is_the_next_date() {
    assert_eq!(unix_secs_to_ymd(1_677_542_400), (2023, 2, 28));
    assert_eq!(unix_secs_to_ymd(1_677_542_400 + 86_400), (2023, 3, 1));
    assert_eq!(unix_secs_to_ymd(1_709_078_400), (2024, 2, 28));
    assert_eq!(unix_secs_to_ymd(1_709_078_400 + 86_400), (2024, 2, 29));
    assert_eq!(unix_secs_to_ymd(1_704_067_200 - 86_400), (2023, 12, 31));
    assert_eq!(unix_secs_to_ymd(1_704_067_200), (2024, 1, 1));
}

#[test]
fn later_days_have_later_dates() {
    let mut last = unix_secs_to_ymd(-86_400 * 400);
    for day in -399i64..400 {
        let date = unix_secs_to_ymd(day * 86_400);
        assert!(date > last, "{:?} after {:?}", date, last);
        last = date;
    }
}
