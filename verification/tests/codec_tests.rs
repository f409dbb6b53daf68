use chrono::{Datelike, TimeZone, Timelike, Utc};
use postmarkee::b64;
use postmarkee::date::{self, UtcDateTime};

fn utc(
    year: u16,
    month: u8,
    day: u8,
    hour: u8,
    minute: u8,
    second: u8,
    nanosecond: u32,
) -> UtcDateTime {
    UtcDateTime {
        year,
        month,
        day,
        hour,
        minute,
        second,
        nanosecond,
    }
}

#[test]
fn date_literal_parses_to_utc() {
    let parsed = date::deserialize("Wed, 17 Feb 2014 07:25:01 -0500").unwrap();
    assert_eq!(parsed, utc(2014, 2, 17, 12, 25, 1, 0));
}

#[test]
fn date_parse_agrees_with_chrono() {
    let text = "Mon, 17 Feb 2014 07:25:01 -05:00";
    let parsed = date::deserialize(text).unwrap();
    let reference = chrono::DateTime::parse_from_str(text, "%a, %-d %b %Y %H:%M:%S %:z")
        .unwrap()
        .with_timezone(&Utc);
    assert_eq!(parsed.year as i32, reference.year());
    assert_eq!(parsed.month as u32, reference.month());
    assert_eq!(parsed.day as u32, reference.day());
    assert_eq!(parsed.hour as u32, reference.hour());
    assert_eq!(parsed.minute as u32, reference.minute());
    assert_eq!(parsed.second as u32, reference.second());
}

#[test]
fn date_serialize_agrees_with_chrono() {
    let t = utc(2014, 2, 17, 12, 25, 1, 0);
    let reference = chrono::Utc
        .with_ymd_and_hms(2014, 2, 17, 12, 25, 1)
        .unwrap()
        .format("%a, %-d %b %Y %H:%M:%S %:z")
        .to_string();
    assert_eq!(date::serialize(&t), reference);
    assert_eq!(date::serialize(&t), "Mon, 17 Feb 2014 12:25:01 +00:00");
}

#[test]
fn date_round_trips() {
    let samples = [
        utc(2014, 2, 17, 12, 25, 1, 0),
        utc(1999, 12, 31, 23, 59, 59, 0),
        utc(2000, 2, 29, 0, 0, 0, 0),
        utc(1, 1, 1, 0, 0, 0, 0),
        utc(9999, 12, 31, 23, 59, 59, 0),
    ];
    for t in samples {
        assert_eq!(date::deserialize(&date::serialize(&t)).unwrap(), t);
    }
}

#[test]
fn date_offset_rolls_the_day() {
    let parsed = date::deserialize("Wed, 1 Jan 2014 00:30:00 +0100").unwrap();
    assert_eq!(parsed, utc(2013, 12, 31, 23, 30, 0, 0));
    let parsed = date::deserialize("Wed, 31 Dec 2013 23:30:00 -01:00").unwrap();
    assert_eq!(parsed, utc(2014, 1, 1, 0, 30, 0, 0));
}

#[test]
fn date_rejects_malformed_text() {
    assert!(date::deserialize("").is_err());
    assert!(date::deserialize("17 Feb 2014 07:25:01 -0500").is_err());
    assert!(date::deserialize("Xyz, 17 Feb 2014 07:25:01 -0500").is_err());
    assert!(date::deserialize("Mon, 30 Feb 2014 07:25:01 -0500").is_err());
    assert!(date::deserialize("Mon, 17 Feb 2014 24:25:01 -0500").is_err());
    assert!(date::deserialize("Mon, 17 Feb 2014 07:25:01 -0500 ").is_err());
}

#[test]
fn iso_timestamp_parses_and_normalizes() {
    let parsed = date::parse_iso_utc("2014-02-17T07:25:01.4178645-05:00").unwrap();
    assert_eq!(parsed, utc(2014, 2, 17, 12, 25, 1, 417864500));
    let parsed = date::parse_iso_utc("2014-02-17T07:25:01Z").unwrap();
    assert_eq!(parsed, utc(2014, 2, 17, 7, 25, 1, 0));
    let parsed = date::parse_iso_utc("2014-02-17T07:25:01z").unwrap();
    assert_eq!(parsed, utc(2014, 2, 17, 7, 25, 1, 0));
    assert!(date::parse_iso_utc("2014-02-17 07:25:01Z").is_err());
    assert!(date::parse_iso_utc("2014-02-17T07:25:01.1234567890Z").is_err());
}

#[test]
fn base64_round_trips_bytes() {
    let samples: Vec<Vec<u8>> = vec![
        vec![],
        vec![0],
        vec![255],
        vec![1, 2],
        vec![1, 2, 3],
        vec![1, 2, 3, 4],
        (0u16..=255).map(|b| b as u8).collect(),
    ];
    for bytes in samples {
        let encoded = b64::serialize(&bytes);
        assert_eq!(b64::deserialize(&encoded).unwrap(), bytes);
    }
}

#[test]
fn base64_agrees_with_the_reference_encoder() {
    let samples: Vec<Vec<u8>> = vec![
        vec![],
        b"f".to_vec(),
        b"fo".to_vec(),
        b"foo".to_vec(),
        b"foob".to_vec(),
        b"fooba".to_vec(),
        b"foobar".to_vec(),
        (0u16..=255).map(|b| b as u8).collect(),
    ];
    for bytes in samples {
        assert_eq!(b64::serialize(&bytes), base64::encode(&bytes));
        assert_eq!(
            b64::deserialize(&base64::encode(&bytes)).unwrap(),
            base64::decode(&base64::encode(&bytes)).unwrap()
        );
    }
}

#[test]
fn base64_rejects_invalid_text() {
    assert!(b64::deserialize("!!!!").is_err());
    assert!(b64::deserialize("QQ").is_err());
    assert!(b64::deserialize("QQ=").is_err());
    assert!(b64::deserialize("=QQQ").is_err());
    assert!(b64::deserialize("QR==").is_err());
}
