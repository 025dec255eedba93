use plogtion::calendar::{
    image_url, parse_file_name_date, parse_post_date, post_path, post_url, storage_path,
    upload_date_now, upload_date_on, CalendarDate,
};

fn day(year: i32, month: u32, day: u32) -> CalendarDate {
    CalendarDate { year, month, day }
}

#[test]
fn post_dates_are_read_as_year_month_day() {
    assert_eq!(parse_post_date("2023-10-01"), Some(day(2023, 10, 1)));
    assert_eq!(parse_post_date("2024-02-29"), Some(day(2024, 2, 29)));
    assert_eq!(parse_post_date("2023-02-29"), None);
    assert_eq!(parse_post_date("2023-13-01"), None);
    assert_eq!(parse_post_date("20231001"), None);
    assert_eq!(parse_post_date("yesterday"), None);
    assert_eq!(parse_post_date(""), None);
}

#[test]
fn file_names_carry_their_date_before_the_first_underscore() {
    assert_eq!(parse_file_name_date("20230615_123456.jpg"), Some(day(2023, 6, 15)));
    assert_eq!(parse_file_name_date("20230615_a_b.jpg"), Some(day(2023, 6, 15)));
    assert_eq!(parse_file_name_date("20230615"), Some(day(2023, 6, 15)));
    assert_eq!(parse_file_name_date("IMG_20230615.jpg"), None);
    assert_eq!(parse_file_name_date("20230615.jpg"), None);
    assert_eq!(parse_file_name_date("20231301_x.jpg"), None);
    assert_eq!(parse_file_name_date(""), None);
}

#[test]
fn upload_date_falls_back_to_the_record_and_then_to_today() {
    let today = day(2020, 1, 2);
    assert_eq!(upload_date_on("20230615_a.jpg", "2024-05-06", today), day(2023, 6, 15));
    assert_eq!(upload_date_on("a.jpg", "2024-05-06", today), day(2024, 5, 6));
    assert_eq!(upload_date_on("a.jpg", "May", today), today);
    assert_eq!(upload_date_on("a.jpg", "", today), today);
}

#[test]
fn upload_date_now_needs_no_clock_where_a_date_is_given() {
    assert_eq!(upload_date_now("20230615_a.jpg", ""), day(2023, 6, 15));
    assert_eq!(upload_date_now("a.jpg", "2024-05-06"), day(2024, 5, 6));
    let now = upload_date_now("a.jpg", "");
    assert!(1 <= now.month && now.month <= 12);
    assert!(1 <= now.day && now.day <= 31);
}

#[test]
fn storage_paths_are_partitioned_by_year_and_month() {
    assert_eq!(storage_path(day(2023, 6, 15), "20230615_a.jpg"), "images/2023/06/20230615_a.jpg");
    assert_eq!(storage_path(day(2023, 12, 1), "x y.png"), "images/2023/12/x y.png");
    assert_eq!(storage_path(day(987, 1, 1), ""), "images/987/01/");
    assert_eq!(storage_path(day(-5, 3, 1), "a"), "images/-5/03/a");
    assert_eq!(storage_path(day(12345, 10, 1), "a"), "images/12345/10/a");
}

#[test]
fn addresses_are_built_from_fixed_bases() {
    assert_eq!(
        image_url("images/2023/06/a.jpg"),
        "https://kyrremann-plog.s3.nl-ams.scw.cloud/images/2023/06/a.jpg"
    );
    assert_eq!(post_path("2023-10-01", "hello-world"), "_posts/2023-10-01-hello-world.md");
    assert_eq!(post_path("", ""), "_posts/-.md");
    assert_eq!(
        post_url(day(2023, 9, 30), "hello-world"),
        "https://kyrremann.no/plog/2023/09/hello-world"
    );
}
