use chat::clock::{format_time_ago, format_time_ago_at, now_seconds, random};
use chat::codec::{compress_data, decode, decompress_data, is_white_space};

#[test]
fn time_ago_in_the_largest_unit() {
    assert_eq!(format_time_ago_at(1000, 1000), "0s");
    assert_eq!(format_time_ago_at(1059, 1000), "59s");
    assert_eq!(format_time_ago_at(1060, 1000), "1m");
    assert_eq!(format_time_ago_at(1000 + 3599, 1000), "59m");
    assert_eq!(format_time_ago_at(1000 + 3600, 1000), "1h");
    assert_eq!(format_time_ago_at(1000 + 86399, 1000), "23h");
    assert_eq!(format_time_ago_at(1000 + 86400, 1000), "1d");
    assert_eq!(format_time_ago_at(1000 + 10 * 86400 + 5, 1000), "10d");
    assert_eq!(format_time_ago_at(u64::MAX, 0), "213503982334601d");
}

#[test]
fn a_time_yet_to_come() {
    assert_eq!(format_time_ago_at(1000, 1001), "future");
    assert_eq!(format_time_ago_at(0, u64::MAX), "future");
}

#[test]
fn time_ago_by_the_clock() {
    let now = now_seconds();
    assert!(now > 1_600_000_000);
    let text = format_time_ago(now);
    assert!(text == "0s" || text == "1s" || text == "2s", "{}", text);
    assert_eq!(format_time_ago(u64::MAX), "future");
    assert!(format_time_ago(0).ends_with('d'));
}

#[test]
fn random_values_come_in_every_width() {
    let a: u32 = random();
    let b: u64 = random();
    let c: u128 = random();
    assert!(b <= u64::from(u32::MAX));
    assert!(c <= u128::from(u32::MAX));
    let _ = a;
}

#[test]
fn decoding_plain_base64() {
    assert_eq!(decode("aGVsbG8="), Ok(b"hello".to_vec()));
    assert_eq!(decode("aGVsbG8gd29ybGQ="), Ok(b"hello world".to_vec()));
    assert_eq!(decode("TQ=="), Ok(b"M".to_vec()));
    assert_eq!(decode("TWE="), Ok(b"Ma".to_vec()));
    assert_eq!(decode("TWFu"), Ok(b"Man".to_vec()));
    assert_eq!(decode("AAEC/f7/"), Ok(vec![0, 1, 2, 253, 254, 255]));
    assert_eq!(decode("+/+/"), Ok(vec![0xfb, 0xff, 0xbf]));
    assert_eq!(decode(""), Ok(vec![]));
}

#[test]
fn decoding_skips_white_space_and_stops_at_padding() {
    assert_eq!(decode(" aGVs\nbG8=\t"), Ok(b"hello".to_vec()));
    assert_eq!(decode("aGVsbG8=!!!"), Ok(b"hello".to_vec()));
    assert_eq!(decode("=aGVsbG8"), Ok(vec![]));
    assert_eq!(decode("aGVsbG8"), Ok(b"hello".to_vec()));
    assert_eq!(decode("TQ"), Ok(b"M".to_vec()));
    assert_eq!(decode("T"), Ok(vec![]));
}

#[test]
fn decoding_rejects_a_foreign_character() {
    assert_eq!(decode("aGV*bG8="), Err("Invalid base64 character: *".to_string()));
    assert_eq!(decode("-"), Err("Invalid base64 character: -".to_string()));
    assert_eq!(decode("aGVs\u{e9}"), Err("Invalid base64 character: \u{e9}".to_string()));
}

#[test]
fn compression_round_trip() {
    let data = b"aaaaaaaaaaaaaaaaaaaaaaaaaaaaaaaaaaaaaaaaaaaaaaaaaaaaaaaaaaaaaaaaaaaaaaaaaaaaaa".to_vec();
    let stream = compress_data(&data).unwrap();
    assert_ne!(stream, data);
    assert_eq!(&stream[..3], &[0x1f, 0x8b, 8]);
    assert!(stream.len() < data.len());
    assert_eq!(decompress_data(&stream), Ok(data));
    let empty = compress_data(&[]).unwrap();
    assert!(!empty.is_empty());
    assert_eq!(decompress_data(&empty), Ok(vec![]));
}

#[test]
fn decompression_of_what_is_no_stream() {
    let r = decompress_data(b"not gzip at all");
    assert!(r.is_err());
    assert!(r.unwrap_err().starts_with("Decompression error: "));
    let r = decompress_data(&[]);
    assert!(r.is_err());
}

#[test]
fn white_space_is_what_the_standard_library_says() {
    for code in 0..=0x10ffffu32 {
        if let Some(c) = char::from_u32(code) {
            assert_eq!(is_white_space(c), c.is_whitespace(), "U+{:04X}", code);
        }
    }
}
