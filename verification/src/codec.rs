//! The stored form of records.
//!
//! A record starts with a timestamp of sixteen bytes. A plain record goes on
//! with a text in UTF-8, to its end. A framed record goes on with the length
//! of a text as eight little-endian bytes, the text in UTF-8, and a tail of
//! bytes, to its end.

use crate::text::string_from_utf8;
use crate::time::{
    lemma_timestamp_round_trip, timestamp_bytes, timestamp_from_bytes, timestamp_in_range,
    DateTime, TIMESTAMP_BYTES,
};
use vstd::bytes::{
    lemma_auto_spec_u64_to_from_le_bytes, spec_u64_from_le_bytes, spec_u64_to_le_bytes,
    u64_from_le_bytes, u64_to_le_bytes,
};
use vstd::prelude::*;
use vstd::slice::{slice_subrange, slice_to_vec};
use vstd::utf8::{
    decode_utf8, encode_utf8, encode_utf8_decode_utf8, encode_utf8_valid_utf8, valid_utf8,
};

verus! {

/// Number of bytes that hold the length of the text in a framed record.
pub const LENGTH_BYTES: usize = 8;

/// Number of bytes before the text of a framed record.
pub const FRAME_BYTES: usize = 24;

/// The plain record of a timestamp and a text.
pub open spec fn plain_record(stamp: int, text: Seq<char>) -> Seq<u8> {
    timestamp_bytes(stamp) + encode_utf8(text)
}

/// The timestamp and the text that `bytes` is the plain record of, if it is
/// one.
pub open spec fn parse_plain_record(bytes: Seq<u8>) -> Option<(int, Seq<char>)> {
    if bytes.len() >= TIMESTAMP_BYTES && timestamp_from_bytes(
        bytes.subrange(0, TIMESTAMP_BYTES as int),
    ) is Some && valid_utf8(bytes.subrange(TIMESTAMP_BYTES as int, bytes.len() as int)) {
        Some(
            (
                timestamp_from_bytes(bytes.subrange(0, TIMESTAMP_BYTES as int)).unwrap(),
                decode_utf8(bytes.subrange(TIMESTAMP_BYTES as int, bytes.len() as int)),
            ),
        )
    } else {
        None
    }
}

/// Reading back a plain record gives what it was made of.
pub proof fn lemma_plain_round_trip(stamp: int, text: Seq<char>)
    requires
        timestamp_in_range(stamp),
    ensures
        parse_plain_record(plain_record(stamp, text)) == Some((stamp, text)),
{
    let record = plain_record(stamp, text);
    lemma_timestamp_round_trip(stamp);
    encode_utf8_valid_utf8(text);
    encode_utf8_decode_utf8(text);
    assert(record.subrange(0, TIMESTAMP_BYTES as int) =~= timestamp_bytes(stamp));
    assert(record.subrange(TIMESTAMP_BYTES as int, record.len() as int) =~= encode_utf8(text));
}

/// Writes the plain record of a timestamp and a text.
pub fn write_plain_record(stamp: &DateTime, text: &str) -> (bytes: Vec<u8>)
    ensures
        bytes@ == plain_record(stamp@, text@),
{
    let mut bytes = stamp.to_bytes();
    bytes.extend_from_slice(text.as_bytes());
    assert(bytes@ =~= plain_record(stamp@, text@));
    bytes
}

/// Reads a plain record back; `None` unless `bytes` is one.
pub fn read_plain_record(bytes: &[u8]) -> (r: Option<(DateTime, String)>)
    ensures
        r is Some <==> parse_plain_record(bytes@) is Some,
        r is Some ==> (r.unwrap().0@, r.unwrap().1@) == parse_plain_record(bytes@).unwrap()
            && r.unwrap().0.wf(),
{
    if bytes.len() < TIMESTAMP_BYTES {
        return None;
    }
    let stamp = match DateTime::from_bytes(slice_subrange(bytes, 0, TIMESTAMP_BYTES)) {
        Some(stamp) => stamp,
        None => { return None; },
    };
    let text = slice_to_vec(slice_subrange(bytes, TIMESTAMP_BYTES, bytes.len()));
    match string_from_utf8(text) {
        Some(text) => Some((stamp, text)),
        None => None,
    }
}

/// The framed record of a timestamp, a text and a tail.
pub open spec fn framed_record(stamp: int, text: Seq<char>, tail: Seq<u8>) -> Seq<u8>
    recommends
        encode_utf8(text).len() <= u64::MAX,
{
    timestamp_bytes(stamp) + spec_u64_to_le_bytes(encode_utf8(text).len() as u64) + encode_utf8(
        text,
    ) + tail
}

/// The length of the text that the framed record `bytes` announces.
pub open spec fn framed_text_len(bytes: Seq<u8>) -> int {
    spec_u64_from_le_bytes(bytes.subrange(TIMESTAMP_BYTES as int, FRAME_BYTES as int)) as int
}

/// The timestamp, the text and the tail that `bytes` is the framed record
/// of, if it is one.
pub open spec fn parse_framed_record(bytes: Seq<u8>) -> Option<(int, Seq<char>, Seq<u8>)> {
    if bytes.len() >= FRAME_BYTES && timestamp_from_bytes(
        bytes.subrange(0, TIMESTAMP_BYTES as int),
    ) is Some && framed_text_len(bytes) <= bytes.len() - FRAME_BYTES && valid_utf8(
        bytes.subrange(FRAME_BYTES as int, FRAME_BYTES + framed_text_len(bytes)),
    ) {
        Some(
            (
                timestamp_from_bytes(bytes.subrange(0, TIMESTAMP_BYTES as int)).unwrap(),
                decode_utf8(
                    bytes.subrange(FRAME_BYTES as int, FRAME_BYTES + framed_text_len(bytes)),
                ),
                bytes.subrange(FRAME_BYTES + framed_text_len(bytes), bytes.len() as int),
            ),
        )
    } else {
        None
    }
}

/// Reading back a framed record gives what it was made of.
pub proof fn lemma_framed_round_trip(stamp: int, text: Seq<char>, tail: Seq<u8>)
    requires
        timestamp_in_range(stamp),
        encode_utf8(text).len() <= u64::MAX,
    ensures
        parse_framed_record(framed_record(stamp, text, tail)) == Some((stamp, text, tail)),
{
    let record = framed_record(stamp, text, tail);
    let name = encode_utf8(text);
    let len = spec_u64_to_le_bytes(name.len() as u64);
    lemma_timestamp_round_trip(stamp);
    lemma_auto_spec_u64_to_from_le_bytes();
    encode_utf8_valid_utf8(text);
    encode_utf8_decode_utf8(text);
    assert(len.len() == LENGTH_BYTES);
    assert(record.subrange(0, TIMESTAMP_BYTES as int) =~= timestamp_bytes(stamp));
    assert(record.subrange(TIMESTAMP_BYTES as int, FRAME_BYTES as int) =~= len);
    assert(framed_text_len(record) == name.len());
    assert(record.subrange(FRAME_BYTES as int, FRAME_BYTES + name.len()) =~= name);
    assert(record.subrange(FRAME_BYTES + name.len(), record.len() as int) =~= tail);
}

/// Writes the framed record of a timestamp, a text and a tail.
pub fn write_framed_record(stamp: &DateTime, text: &str, tail: &[u8]) -> (bytes: Vec<u8>)
    ensures
        bytes@ == framed_record(stamp@, text@, tail@),
{
    let name = text.as_bytes();
    let mut bytes = stamp.to_bytes();
    let len = u64_to_le_bytes(name.len() as u64);
    bytes.extend_from_slice(len.as_slice());
    bytes.extend_from_slice(name);
    bytes.extend_from_slice(tail);
    assert(bytes@ =~= framed_record(stamp@, text@, tail@));
    bytes
}

/// Reads a framed record back; `None` unless `bytes` is one.
pub fn read_framed_record(bytes: &[u8]) -> (r: Option<(DateTime, String, Vec<u8>)>)
    ensures
        r is Some <==> parse_framed_record(bytes@) is Some,
        r is Some ==> (r.unwrap().0@, r.unwrap().1@, r.unwrap().2@) == parse_framed_record(
            bytes@,
        ).unwrap() && r.unwrap().0.wf(),
{
    if bytes.len() < FRAME_BYTES {
        return None;
    }
    let stamp = match DateTime::from_bytes(slice_subrange(bytes, 0, TIMESTAMP_BYTES)) {
        Some(stamp) => stamp,
        None => { return None; },
    };
    let announced: u64 = u64_from_le_bytes(slice_subrange(bytes, TIMESTAMP_BYTES, FRAME_BYTES));
    if announced > (bytes.len() - FRAME_BYTES) as u64 {
        return None;
    }
    let text_end: usize = FRAME_BYTES + announced as usize;
    let text = slice_to_vec(slice_subrange(bytes, FRAME_BYTES, text_end));
    let tail = slice_to_vec(slice_subrange(bytes, text_end, bytes.len()));
    match string_from_utf8(text) {
        Some(text) => Some((stamp, text, tail)),
        None => None,
    }
}

} // verus!
