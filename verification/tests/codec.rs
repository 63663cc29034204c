use authcore::codec::{
    read_framed_record, read_plain_record, write_framed_record, write_plain_record,
};
use authcore::time::DateTime;

fn at(nanos: i128) -> DateTime {
    DateTime::from_unix_timestamp_nanos(nanos).unwrap()
}

#[test]
fn plain_record_is_the_timestamp_then_the_text() {
    let bytes = write_plain_record(&at(0), "ab");
    assert_eq!(bytes.len(), 18);
    assert_eq!(&bytes[..16], at(0).to_bytes().as_slice());
    assert_eq!(&bytes[16..], b"ab");
}

#[test]
fn plain_record_round_trip() {
    let bytes = write_plain_record(&at(1_700_000_000_000_000_001), "zoë");
    let (stamp, text) = read_plain_record(&bytes).unwrap();
    assert_eq!(stamp.unix_timestamp_nanos(), 1_700_000_000_000_000_001);
    assert_eq!(text, "zoë");
}

#[test]
fn plain_record_with_an_empty_text() {
    let bytes = write_plain_record(&at(5), "");
    assert_eq!(bytes.len(), 16);
    let (stamp, text) = read_plain_record(&bytes).unwrap();
    assert_eq!(stamp.unix_timestamp_nanos(), 5);
    assert_eq!(text, "");
}

#[test]
fn plain_record_that_is_too_short_is_refused() {
    assert!(read_plain_record(&[0u8; 15]).is_none());
    assert!(read_plain_record(&[]).is_none());
}

#[test]
fn plain_record_with_a_broken_text_is_refused() {
    let mut bytes = write_plain_record(&at(5), "a");
    bytes.push(0xff);
    assert!(read_plain_record(&bytes).is_none());
}

#[test]
fn plain_record_with_a_timestamp_out_of_range_is_refused() {
    let mut bytes = vec![0xffu8; 16];
    bytes.extend_from_slice(b"alice");
    assert!(read_plain_record(&bytes).is_none());
}

#[test]
fn framed_record_layout() {
    let bytes = write_framed_record(&at(0), "ab", &[9, 8, 7]);
    assert_eq!(bytes.len(), 16 + 8 + 2 + 3);
    assert_eq!(&bytes[16..24], &[2, 0, 0, 0, 0, 0, 0, 0]);
    assert_eq!(&bytes[24..26], b"ab");
    assert_eq!(&bytes[26..], &[9, 8, 7]);
}

#[test]
fn framed_record_round_trip() {
    let bytes = write_framed_record(&at(-42), "bob", &[1, 2, 3, 4]);
    let (stamp, text, tail) = read_framed_record(&bytes).unwrap();
    assert_eq!(stamp.unix_timestamp_nanos(), -42);
    assert_eq!(text, "bob");
    assert_eq!(tail, vec![1, 2, 3, 4]);
}

#[test]
fn framed_record_with_empty_parts() {
    let bytes = write_framed_record(&at(1), "", &[]);
    assert_eq!(bytes.len(), 24);
    let (stamp, text, tail) = read_framed_record(&bytes).unwrap();
    assert_eq!(stamp.unix_timestamp_nanos(), 1);
    assert_eq!(text, "");
    assert!(tail.is_empty());
}

#[test]
fn framed_record_that_announces_too_long_a_text_is_refused() {
    let mut bytes = write_framed_record(&at(1), "bob", &[]);
    bytes[16] = 4;
    assert!(read_framed_record(&bytes).is_none());
    bytes[16] = 3;
    assert!(read_framed_record(&bytes).is_some());
    bytes[23] = 0x80;
    assert!(read_framed_record(&bytes).is_none());
}

#[test]
fn framed_record_that_is_too_short_is_refused() {
    assert!(read_framed_record(&[0u8; 23]).is_none());
}

#[test]
fn framed_record_with_a_broken_text_is_refused() {
    let mut bytes = write_framed_record(&at(1), "b", &[1]);
    bytes[24] = 0xff;
    assert!(read_framed_record(&bytes).is_none());
}
