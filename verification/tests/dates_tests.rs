use rss_daily::dates::format_ymd;

#[test]
fn calendar_dates_in_utc() {
    assert_eq!(format_ymd(0), "1970-01-01");
    assert_eq!(format_ymd(86_399), "1970-01-01");
    assert_eq!(format_ymd(-1), "1969-12-31");
    assert_eq!(format_ymd(951_782_400), "2000-02-29");
    assert_eq!(format_ymd(951_868_800), "2000-03-01");
    assert_eq!(format_ymd(1_735_689_599), "2024-12-31");
}

#[test]
fn years_outside_four_digits_are_signed() {
    assert_eq!(format_ymd(-62_167_219_200), "0000-01-01");
    assert_eq!(format_ymd(-62_167_219_201), "-0001-12-31");
    assert_eq!(format_ymd(253_402_300_800), "+10000-01-01");
    assert_eq!(format_ymd(-8_334_601_228_800), "-262143-01-01");
    assert_eq!(format_ymd(8_210_266_876_799), "+262142-12-31");
}
