use gallery_sorter::config::Config;
use gallery_sorter::time::{
    combine_subsec, extract_exif_time, extract_metadata_time, extract_time, parse_exif, parse_multi,
    parse_video_datetime, subsec_tag_for, subsec_to_nanos, timestamp_after, trim_matches_str, ExifTag, TimeError,
    TimeSource, Timestamp,
};

fn ts(year: i32, month: u32, day: u32, hour: u32, minute: u32, second: u32, nanosecond: u32) -> Timestamp {
    Timestamp { year, month, day, hour, minute, second, nanosecond }
}

/// A minimal JPEG with DateTimeOriginal and, optionally, SubSecTimeOriginal.
fn exif_jpeg(datetime: &str, subsec: Option<&str>) -> Vec<u8> {
    let mut payload = Vec::new();
    payload.extend_from_slice(b"Exif\0\0");
    payload.extend_from_slice(b"II\x2A\x00\x08\x00\x00\x00");

    let dt_len = (datetime.len() + 1) as u32;
    let sub_len = subsec.map(|s| (s.len() + 1) as u32).unwrap_or(0);
    let sub_inline = sub_len <= 4;
    let exif_ifd_offset: u32 = 0x1A;
    let entry_count: u16 = if subsec.is_some() { 2 } else { 1 };
    let dt_offset = exif_ifd_offset + 2 + entry_count as u32 * 12 + 4;
    let sub_offset = if sub_inline { 0 } else { dt_offset + dt_len };

    payload.extend_from_slice(&1u16.to_le_bytes());
    payload.extend_from_slice(&0x8769u16.to_le_bytes());
    payload.extend_from_slice(&4u16.to_le_bytes());
    payload.extend_from_slice(&1u32.to_le_bytes());
    payload.extend_from_slice(&exif_ifd_offset.to_le_bytes());
    payload.extend_from_slice(&0u32.to_le_bytes());

    payload.extend_from_slice(&entry_count.to_le_bytes());
    payload.extend_from_slice(&0x9003u16.to_le_bytes());
    payload.extend_from_slice(&2u16.to_le_bytes());
    payload.extend_from_slice(&dt_len.to_le_bytes());
    payload.extend_from_slice(&dt_offset.to_le_bytes());
    if let Some(subsec) = subsec {
        payload.extend_from_slice(&0x9291u16.to_le_bytes());
        payload.extend_from_slice(&2u16.to_le_bytes());
        payload.extend_from_slice(&sub_len.to_le_bytes());
        if sub_inline {
            let mut inline = [0u8; 4];
            inline[..subsec.len()].copy_from_slice(subsec.as_bytes());
            payload.extend_from_slice(&inline);
        } else {
            payload.extend_from_slice(&sub_offset.to_le_bytes());
        }
    }
    payload.extend_from_slice(&0u32.to_le_bytes());

    payload.extend_from_slice(datetime.as_bytes());
    payload.push(0);
    if !sub_inline {
        if let Some(subsec) = subsec {
            payload.extend_from_slice(subsec.as_bytes());
            payload.push(0);
        }
    }

    let mut bytes = Vec::new();
    bytes.extend_from_slice(&[0xFF, 0xD8]);
    bytes.extend_from_slice(&[0xFF, 0xE1]);
    bytes.extend_from_slice(&((payload.len() + 2) as u16).to_be_bytes());
    bytes.extend_from_slice(&payload);
    bytes.extend_from_slice(&[0xFF, 0xD9]);
    bytes
}

#[test]
fn test_parse_exif() {
    let dt = parse_exif("2024:01:15 14:30:00").unwrap();
    assert_eq!(dt.year, 2024);
    assert_eq!(dt.month, 1);
    assert_eq!(dt.day, 15);
    assert_eq!(dt.hour, 14);
    assert_eq!(dt.minute, 30);
    assert_eq!(dt.second, 0);

    let dt = parse_exif("\"2024:01:15 14:30:00\"").unwrap();
    assert_eq!(dt.year, 2024);

    let dt = parse_exif("2024-01-15 14:30:00").unwrap();
    assert_eq!(dt.year, 2024);

    assert!(parse_exif("invalid").is_none());
}

#[test]
fn test_subsec_to_nanos_pads_to_millis() {
    assert_eq!(subsec_to_nanos("123"), Some(123_000_000));
    assert_eq!(subsec_to_nanos("123456"), Some(123_456_000));
    assert_eq!(subsec_to_nanos("12"), Some(120_000_000));
    assert_eq!(subsec_to_nanos("000"), Some(0));
    assert_eq!(subsec_to_nanos("abc"), None);
}

#[test]
fn subsec_keeps_nine_digits_and_skips_other_characters() {
    assert_eq!(subsec_to_nanos("\"1234567891234\""), Some(123_456_789));
    assert_eq!(subsec_to_nanos(" 5 "), Some(500_000_000));
    assert_eq!(subsec_to_nanos(""), None);
    assert_eq!(subsec_to_nanos("999999999"), Some(999_999_999));
}

#[test]
fn test_time_source_debug() {
    assert_eq!(format!("{:?}", TimeSource::Exif), "Exif");
    assert_eq!(format!("{:?}", TimeSource::VideoMetadata), "VideoMetadata");
    assert_eq!(format!("{:?}", TimeSource::Filename), "Filename");
    assert_eq!(format!("{:?}", TimeSource::FileSystem), "FileSystem");
}

#[test]
fn test_extract_exif_time_with_subsec_millis() {
    let bytes = exif_jpeg("2024:01:15 14:30:00", Some("123"));

    let time = extract_exif_time(&bytes).unwrap();
    assert_eq!(time.source, TimeSource::Exif);
    assert!(time.has_millis);
    assert_eq!(time.timestamp, ts(2024, 1, 15, 14, 30, 0, 123_000_000));
}

#[test]
fn test_extract_exif_time_without_subsec_has_no_millis() {
    let bytes = exif_jpeg("2024:01:15 14:30:00", None);

    let time = extract_exif_time(&bytes).unwrap();
    assert_eq!(time.source, TimeSource::Exif);
    assert!(!time.has_millis);
    assert_eq!(time.timestamp.nanosecond, 0);
}

#[test]
fn exif_time_with_long_subsec_value() {
    let bytes = exif_jpeg("2023:12:31 23:59:58", Some("4567"));
    let time = extract_exif_time(&bytes).unwrap();
    assert_eq!(time.timestamp, ts(2023, 12, 31, 23, 59, 58, 456_700_000));
}

#[test]
fn exif_read_failure_is_an_exif_error() {
    assert!(matches!(extract_exif_time(b"not a real jpeg"), Err(TimeError::ExifRead { .. })));
}

#[test]
fn test_extract_metadata_time_image_without_exif_errors() {
    let result = extract_metadata_time("photo.jpg", &Config::default(), b"not a real jpeg", Err("no video".to_string()));

    assert!(result.is_err(), "file without EXIF must not produce a time");
}

#[test]
fn test_extract_metadata_time_unsupported_extension_errors() {
    let result = extract_metadata_time("notes.txt", &Config::default(), b"hello", Err("no video".to_string()));

    assert!(matches!(result, Err(TimeError::UnsupportedFormat)));
}

#[test]
fn metadata_time_of_a_video_comes_from_its_metadata() {
    let t = ts(2024, 2, 3, 4, 5, 6, 0);
    let result = extract_metadata_time("clip.MP4", &Config::default(), b"", Ok(t)).unwrap();
    assert_eq!(result.source, TimeSource::VideoMetadata);
    assert_eq!(result.timestamp, t);
    assert!(matches!(
        extract_metadata_time("clip.mp4", &Config::default(), b"", Err("ffprobe failed".to_string())),
        Err(TimeError::VideoMetadata { .. })
    ));
}

#[test]
fn extraction_falls_back_in_order() {
    let config = Config::default();
    let exif = exif_jpeg("2024:01:15 14:30:00", None);
    let name_time = ts(2020, 5, 6, 7, 8, 9, 0);
    let fs_time = ts(2021, 1, 1, 0, 0, 0, 0);

    let t = extract_time("a.jpg", &config, &exif, Err(String::new()), Some(name_time), Ok(fs_time)).unwrap();
    assert_eq!(t.source, TimeSource::Exif);

    let t = extract_time("a.jpg", &config, b"junk", Err(String::new()), Some(name_time), Ok(fs_time)).unwrap();
    assert_eq!(t.source, TimeSource::Filename);
    assert_eq!(t.timestamp, name_time);

    let t = extract_time("a.jpg", &config, b"junk", Err(String::new()), None, Ok(fs_time)).unwrap();
    assert_eq!(t.source, TimeSource::FileSystem);

    let e = extract_time("a.jpg", &config, b"junk", Err(String::new()), None, Err("gone".to_string())).unwrap_err();
    assert_eq!(e, TimeError::FileSystem { message: "gone".to_string() });
}

#[test]
fn video_dates_in_several_forms() {
    assert_eq!(parse_video_datetime("2024-01-15T14:30:00Z"), Some(ts(2024, 1, 15, 14, 30, 0, 0)));
    assert_eq!(parse_video_datetime("2024-01-15T14:30:00+08:00"), Some(ts(2024, 1, 15, 6, 30, 0, 0)));
    assert_eq!(parse_video_datetime("  2024-01-15T14:30:00.250000Z "), Some(ts(2024, 1, 15, 14, 30, 0, 250_000_000)));
    assert_eq!(parse_video_datetime("2024-01-15 14:30:00"), Some(ts(2024, 1, 15, 14, 30, 0, 0)));
    assert_eq!(parse_video_datetime("2024:01:15 14:30:00"), Some(ts(2024, 1, 15, 14, 30, 0, 0)));
    assert_eq!(parse_video_datetime("2024-01-15"), Some(ts(2024, 1, 15, 0, 0, 0, 0)));
    assert_eq!(parse_video_datetime("yesterday"), None);
}

#[test]
fn parse_multi_takes_the_first_format_that_fits() {
    assert_eq!(parse_multi(" 2024/01/15 14:30:00 ", &["%Y-%m-%d %H:%M:%S", "%Y/%m/%d %H:%M:%S"]), Some(ts(2024, 1, 15, 14, 30, 0, 0)));
    assert_eq!(parse_multi("2024/01/15 14:30:00", &[]), None);
}

#[test]
fn subsec_merging_and_tags() {
    let base = ts(2024, 1, 15, 14, 30, 0, 0);
    assert_eq!(combine_subsec(&base, "5"), ts(2024, 1, 15, 14, 30, 0, 500_000_000));
    assert_eq!(combine_subsec(&base, "none"), base);
    assert_eq!(subsec_tag_for(ExifTag::DateTimeOriginal), Some(ExifTag::SubSecTimeOriginal));
    assert_eq!(subsec_tag_for(ExifTag::DateTimeDigitized), Some(ExifTag::SubSecTimeDigitized));
    assert_eq!(subsec_tag_for(ExifTag::DateTime), Some(ExifTag::SubSecTime));
    assert_eq!(subsec_tag_for(ExifTag::SubSecTime), None);
}

#[test]
fn trimming_quotes() {
    assert_eq!(trim_matches_str("\"\"abc\"", '"'), "abc");
    assert_eq!(trim_matches_str("\"\"\"", '"'), "");
    assert_eq!(trim_matches_str("a\"b", '"'), "a\"b");
}

#[test]
fn timestamps_order_by_date_then_time() {
    let a = ts(2024, 1, 15, 14, 30, 0, 0);
    let b = ts(2024, 1, 15, 14, 30, 0, 1);
    let c = ts(2023, 12, 31, 23, 59, 59, 999_999_999);
    assert!(timestamp_after(&b, &a));
    assert!(!timestamp_after(&a, &b));
    assert!(timestamp_after(&a, &c));
    assert!(!timestamp_after(&a, &a));
}
