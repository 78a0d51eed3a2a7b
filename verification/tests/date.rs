use image_renamer::date::{
    exif_date, file_date, is_day, resolve_date, since_epoch, stamp_day, stat_date,
};

/// A little-endian TIFF whose Exif directory holds one attribute, the time of
/// capture, with the given text.
fn tiff_with_capture_time(stamp: &str) -> Vec<u8> {
    let stamp = &stamp[..19];
    let mut bytes: Vec<u8> = Vec::new();
    bytes.extend_from_slice(&[0x49, 0x49, 0x2A, 0x00]);
    bytes.extend_from_slice(&8u32.to_le_bytes());
    // Directory of the primary image: one entry that points to the Exif directory.
    bytes.extend_from_slice(&1u16.to_le_bytes());
    bytes.extend_from_slice(&0x8769u16.to_le_bytes());
    bytes.extend_from_slice(&4u16.to_le_bytes());
    bytes.extend_from_slice(&1u32.to_le_bytes());
    bytes.extend_from_slice(&26u32.to_le_bytes());
    bytes.extend_from_slice(&0u32.to_le_bytes());
    // Exif directory: one entry, twenty ASCII bytes stored after the directory.
    bytes.extend_from_slice(&1u16.to_le_bytes());
    bytes.extend_from_slice(&0x9003u16.to_le_bytes());
    bytes.extend_from_slice(&2u16.to_le_bytes());
    bytes.extend_from_slice(&20u32.to_le_bytes());
    bytes.extend_from_slice(&44u32.to_le_bytes());
    bytes.extend_from_slice(&0u32.to_le_bytes());
    bytes.extend_from_slice(stamp.as_bytes());
    bytes.push(0);
    bytes
}

/// A little-endian TIFF with an empty directory.
fn tiff_without_attributes() -> Vec<u8> {
    let mut bytes: Vec<u8> = Vec::new();
    bytes.extend_from_slice(&[0x49, 0x49, 0x2A, 0x00]);
    bytes.extend_from_slice(&8u32.to_le_bytes());
    bytes.extend_from_slice(&0u16.to_le_bytes());
    bytes.extend_from_slice(&0u32.to_le_bytes());
    bytes
}

#[test]
fn exif_date_is_the_day_of_capture() {
    let image = tiff_with_capture_time("2023:06:01 10:20:30");
    assert_eq!(exif_date(&image), Some("2023-06-01".to_string()));
    let image = tiff_with_capture_time("1999:12:31 23:59:59");
    assert_eq!(exif_date(&image), Some("1999-12-31".to_string()));
}

#[test]
fn exif_date_of_a_time_that_cannot_be_read_is_none() {
    assert_eq!(exif_date(&tiff_with_capture_time("                   ")), None);
    assert_eq!(exif_date(&tiff_with_capture_time("    :  :     :  :  ")), None);
    assert_eq!(exif_date(&tiff_with_capture_time("2023-06-01 10:20:30")), None);
    assert_eq!(exif_date(&tiff_with_capture_time("2023:06:01T10:20:30")), None);
    assert_eq!(exif_date(&tiff_with_capture_time("on a sunny afternoon")[..]), None);
    assert_eq!(exif_date(&tiff_with_capture_time("2023:13:01 10:20:30")), None);
    assert_eq!(exif_date(&tiff_with_capture_time("2023:00:10 10:20:30")), None);
    assert_eq!(exif_date(&tiff_with_capture_time("2023:06:00 10:20:30")), None);
    assert_eq!(exif_date(&tiff_with_capture_time("2023:06:32 10:20:30")), None);
}

#[test]
fn stamp_day_takes_the_day_of_a_displayed_time() {
    assert_eq!(stamp_day("2023-06-01 10:20:30"), Some("2023-06-01".to_string()));
    assert_eq!(stamp_day("0001-01-01 00:00:00"), Some("0001-01-01".to_string()));
    assert_eq!(stamp_day("9999-12-31 99:99:99"), Some("9999-12-31".to_string()));
}

#[test]
fn stamp_day_of_other_texts_is_none() {
    assert_eq!(stamp_day(""), None);
    assert_eq!(stamp_day("unknown"), None);
    assert_eq!(stamp_day("2023-06-01"), None);
    assert_eq!(stamp_day("\"2023-06-01 10:20\""), None);
    assert_eq!(stamp_day("2023-06-01 10:20:30 "), None);
    assert_eq!(stamp_day("2023-06-01T10:20:30"), None);
    assert_eq!(stamp_day("2023-06-01 10-20-30"), None);
    assert_eq!(stamp_day("2023-06-01 1o:20:30"), None);
    assert_eq!(stamp_day("2023-13-01 10:20:30"), None);
    assert_eq!(stamp_day("2023-06-00 10:20:30"), None);
    assert_eq!(stamp_day("2023:06:01 10:20:30"), None);
    assert_eq!(stamp_day("２０２３-06-01 10:20"), None);
}

#[test]
fn is_day_accepts_days_only() {
    assert!(is_day("2023-06-01"));
    assert!(is_day("0000-01-01"));
    assert!(is_day("9999-12-31"));
    assert!(!is_day(""));
    assert!(!is_day("Y-m-d"));
    assert!(!is_day("2023-6-1"));
    assert!(!is_day("2023-06-01 "));
    assert!(!is_day("2023/06/01"));
    assert!(!is_day("2023-00-01"));
    assert!(!is_day("2023-13-01"));
    assert!(!is_day("2023-06-00"));
    assert!(!is_day("2023-06-32"));
    assert!(!is_day("2023-06-0a"));
    assert!(!is_day("+2023-06-1"));
    assert!(!is_day("２０２３-０６-０１"));
}

#[test]
fn since_epoch_rounds_down() {
    assert_eq!(since_epoch(false, 0, 0), Some((0, 0)));
    assert_eq!(since_epoch(false, 1_700_000_000, 5), Some((1_700_000_000, 5)));
    assert_eq!(since_epoch(true, 0, 0), Some((0, 0)));
    assert_eq!(since_epoch(true, 10, 0), Some((-10, 0)));
    assert_eq!(since_epoch(true, 10, 1), Some((-11, 999_999_999)));
    assert_eq!(since_epoch(true, 0, 250_000_000), Some((-1, 750_000_000)));
    assert_eq!(since_epoch(false, i64::MAX as u64, 999_999_999), Some((i64::MAX, 999_999_999)));
    assert_eq!(since_epoch(true, i64::MAX as u64, 1), Some((i64::MIN, 999_999_999)));
}

#[test]
fn since_epoch_of_what_is_no_time_is_none() {
    assert_eq!(since_epoch(false, i64::MAX as u64 + 1, 0), None);
    assert_eq!(since_epoch(true, u64::MAX, 0), None);
    assert_eq!(since_epoch(false, 0, 1_000_000_000), None);
    assert_eq!(since_epoch(true, 0, u32::MAX), None);
}

#[test]
fn exif_date_of_an_image_without_the_attribute_is_none() {
    assert_eq!(exif_date(&tiff_without_attributes()), None);
}

#[test]
fn exif_date_of_what_is_no_image_is_none() {
    assert_eq!(exif_date(b"plain text"), None);
    assert_eq!(exif_date(&[]), None);
    assert_eq!(exif_date(&[0xFF, 0xD8, 0xFF, 0xD9]), None);
    assert_eq!(exif_date(&[0x49, 0x49, 0x2A, 0x00, 0xFF, 0xFF, 0xFF, 0xFF]), None);
}

#[test]
fn stat_date_is_the_day_in_utc_without_an_offset() {
    assert_eq!(stat_date(0, 0), Some("1970-01-01".to_string()));
    assert_eq!(stat_date(86_399, 0), Some("1970-01-01".to_string()));
    assert_eq!(stat_date(86_400, 0), Some("1970-01-02".to_string()));
    assert_eq!(stat_date(-1, 0), Some("1969-12-31".to_string()));
    assert_eq!(stat_date(-86_400, 0), Some("1969-12-31".to_string()));
    assert_eq!(stat_date(-86_401, 0), Some("1969-12-30".to_string()));
    // 2023-11-14 22:13:20 UTC
    assert_eq!(stat_date(1_700_000_000, 0), Some("2023-11-14".to_string()));
    // 1901-12-13 20:45:52 UTC
    assert_eq!(stat_date(-2_147_483_648, 0), Some("1901-12-13".to_string()));
}

#[test]
fn stat_date_follows_the_offset_of_the_zone() {
    assert_eq!(stat_date(1_700_000_000, 7_200), Some("2023-11-15".to_string()));
    assert_eq!(stat_date(1_700_000_000, 6_399), Some("2023-11-14".to_string()));
    assert_eq!(stat_date(1_700_000_000, 6_400), Some("2023-11-15".to_string()));
    assert_eq!(stat_date(1_700_000_000, -79_999), Some("2023-11-14".to_string()));
    assert_eq!(stat_date(1_700_000_000, -80_001), Some("2023-11-13".to_string()));
    assert_eq!(stat_date(0, -1), Some("1969-12-31".to_string()));
    assert_eq!(stat_date(-1, 1), Some("1970-01-01".to_string()));
    assert_eq!(stat_date(0, 50_400), Some("1970-01-01".to_string()));
    assert_eq!(stat_date(0, i32::MAX), Some("2038-01-19".to_string()));
    assert_eq!(stat_date(0, i32::MIN), Some("1901-12-13".to_string()));
}

#[test]
fn stat_date_knows_the_leap_years() {
    assert_eq!(stat_date(1_709_164_800, 0), Some("2024-02-29".to_string()));
    assert_eq!(stat_date(1_709_251_200, 0), Some("2024-03-01".to_string()));
    assert_eq!(stat_date(1_677_542_400, 0), Some("2023-02-28".to_string()));
    assert_eq!(stat_date(1_677_628_800, 0), Some("2023-03-01".to_string()));
    assert_eq!(stat_date(951_782_400, 0), Some("2000-02-29".to_string()));
    assert_eq!(stat_date(-2_203_977_600, 0), Some("1900-02-28".to_string()));
    assert_eq!(stat_date(-2_203_891_200, 0), Some("1900-03-01".to_string()));
    assert_eq!(stat_date(4_107_456_000, 0), Some("2100-02-28".to_string()));
    assert_eq!(stat_date(4_107_542_400, 0), Some("2100-03-01".to_string()));
    assert_eq!(stat_date(1_704_067_199, 0), Some("2023-12-31".to_string()));
    assert_eq!(stat_date(1_704_067_200, 0), Some("2024-01-01".to_string()));
}

#[test]
fn stat_date_at_the_ends_of_its_range() {
    assert_eq!(stat_date(-62_167_219_200, 0), Some("0000-01-01".to_string()));
    assert_eq!(stat_date(-62_167_219_201, 0), None);
    assert_eq!(stat_date(-62_167_219_201, 1), Some("0000-01-01".to_string()));
    assert_eq!(stat_date(-62_167_219_200, -1), None);
    assert_eq!(stat_date(253_402_300_799, 0), Some("9999-12-31".to_string()));
    assert_eq!(stat_date(253_402_300_800, 0), None);
    assert_eq!(stat_date(253_402_300_800, -1), Some("9999-12-31".to_string()));
    assert_eq!(stat_date(253_402_300_799, 1), None);
}

#[test]
fn stat_date_outside_of_what_can_be_a_date_is_none() {
    assert_eq!(stat_date(i64::MAX, 0), None);
    assert_eq!(stat_date(i64::MIN, 0), None);
    assert_eq!(stat_date(i64::MAX, i32::MAX), None);
    assert_eq!(stat_date(i64::MIN, i32::MIN), None);
    assert_eq!(stat_date(260_000_000_001, i32::MIN), None);
    assert_eq!(stat_date(-70_000_000_001, i32::MAX), None);
}

#[test]
fn stat_date_agrees_with_the_calendar_of_chrono() {
    let offsets = [0, 1, -1, 3_600, -3_600, 19_800, 50_400, -43_200, 86_399, -86_399];
    let mut secs: i64 = -62_167_219_200 + 86_400;
    while secs < 253_402_300_800 - 86_400 {
        for offset in offsets {
            let zone = chrono::FixedOffset::east_opt(offset).unwrap();
            let expected = chrono::DateTime::from_timestamp(secs, 0)
                .unwrap()
                .with_timezone(&zone)
                .format("%Y-%m-%d")
                .to_string();
            assert_eq!(stat_date(secs, offset), Some(expected));
        }
        secs += 86_400 * 97 + 3_607;
    }
}

#[test]
fn stat_date_gives_days() {
    let mut secs: i64 = -5_000_000_000;
    while secs < 5_000_000_000 {
        let day = stat_date(secs, 0).unwrap();
        assert!(is_day(&day));
        secs += 9_999_991;
    }
}

#[test]
fn file_date_prefers_the_embedded_date() {
    let image = tiff_with_capture_time("2023:06:01 10:20:30");
    assert_eq!(
        file_date(&image, Some("2024-02-03".to_string())),
        Some("2023-06-01".to_string())
    );
    assert_eq!(file_date(&image, None), Some("2023-06-01".to_string()));
}

#[test]
fn file_date_passes_over_an_embedded_time_that_cannot_be_read() {
    let image = tiff_with_capture_time("                   ");
    assert_eq!(
        file_date(&image, Some("2024-02-03".to_string())),
        Some("2024-02-03".to_string())
    );
    assert_eq!(file_date(&image, None), None);
}

#[test]
fn file_date_takes_no_creation_date_that_is_no_day() {
    assert_eq!(file_date(b"no metadata here", Some("Y-m-d".to_string())), None);
    assert_eq!(file_date(b"no metadata here", Some("+10000-01-01".to_string())), None);
    assert_eq!(file_date(b"no metadata here", Some("2001-02-03 04:05:06".to_string())), None);
}

#[test]
fn file_date_falls_back_to_the_creation_date() {
    assert_eq!(
        file_date(&tiff_without_attributes(), Some("1999-12-31".to_string())),
        Some("1999-12-31".to_string())
    );
    assert_eq!(
        file_date(b"no metadata here", Some("2001-02-03".to_string())),
        Some("2001-02-03".to_string())
    );
}

#[test]
fn file_date_without_either_is_none() {
    assert_eq!(file_date(&tiff_without_attributes(), None), None);
    assert_eq!(file_date(b"no metadata here", None), None);
    assert_eq!(file_date(&[], None), None);
}

#[test]
fn resolve_date_takes_the_first_date_that_is_there() {
    let embedded = Some("2023-06-01".to_string());
    let created = Some("1999-12-31".to_string());
    assert_eq!(resolve_date(embedded.clone(), created.clone()), embedded);
    assert_eq!(resolve_date(embedded.clone(), None), embedded);
    assert_eq!(resolve_date(None, created.clone()), created);
    assert_eq!(resolve_date(None, None), None);
}
