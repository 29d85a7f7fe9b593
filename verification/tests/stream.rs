use musidex_daemon::domain::stream::{
    clip_range, content_range_value, parse_range, stream, stream_music, ByteRange, MediaInfo,
    RangeDescriptor, StreamError, StreamResponse,
};

fn resource() -> MediaInfo {
    MediaInfo { total: 1000, content_type: String::from("audio/ogg") }
}

fn ranged(header: &str) -> Result<StreamResponse, StreamError> {
    let media = resource();
    stream(Some(&media), Some(header.as_bytes()))
}

fn header(resp: &StreamResponse, name: &str) -> Option<String> {
    let mut found = None;
    for (n, v) in resp.headers.iter() {
        if n == name {
            found = Some(v.clone());
        }
    }
    found
}

#[test]
fn first_hundred_bytes_are_partial_content() {
    let resp = ranged("bytes=0-99").unwrap();
    assert_eq!(resp.status, 206);
    assert_eq!(resp.length, 100);
    assert_eq!(resp.offset, 0);
    assert_eq!(
        resp.headers,
        vec![
            (String::from("Content-Type"), String::from("audio/ogg")),
            (String::from("Accept-Ranges"), String::from("bytes")),
            (String::from("Content-Range"), String::from("bytes 0-99/1000")),
        ]
    );
}

#[test]
fn no_range_header_gives_the_whole_resource() {
    let media = resource();
    let resp = stream(Some(&media), None).unwrap();
    assert_eq!(resp.status, 200);
    assert_eq!(resp.offset, 0);
    assert_eq!(resp.length, 1000);
    assert_eq!(header(&resp, "Accept-Ranges"), Some(String::from("bytes")));
    assert_eq!(header(&resp, "Content-Type"), Some(String::from("audio/ogg")));
    assert_eq!(header(&resp, "Content-Range"), None);
    assert_eq!(resp.headers.len(), 2);
}

#[test]
fn range_past_the_end_is_clipped() {
    let resp = ranged("bytes=900-1500").unwrap();
    assert_eq!(resp.status, 206);
    assert_eq!(resp.offset, 900);
    assert_eq!(resp.length, 100);
    assert_eq!(header(&resp, "Content-Range"), Some(String::from("bytes 900-999/1000")));
}

#[test]
fn full_range_keeps_status_200_with_content_range() {
    let resp = ranged("bytes=0-999").unwrap();
    assert_eq!(resp.status, 200);
    assert_eq!(resp.offset, 0);
    assert_eq!(resp.length, 1000);
    assert_eq!(header(&resp, "Content-Range"), Some(String::from("bytes 0-999/1000")));
}

#[test]
fn open_ended_range_runs_to_the_last_byte() {
    let resp = ranged("bytes=500-").unwrap();
    assert_eq!(resp.status, 206);
    assert_eq!(resp.offset, 500);
    assert_eq!(resp.length, 500);
    assert_eq!(header(&resp, "Content-Range"), Some(String::from("bytes 500-999/1000")));
}

#[test]
fn open_ended_range_from_zero_is_the_whole_resource() {
    let resp = ranged("bytes=0-").unwrap();
    assert_eq!(resp.status, 200);
    assert_eq!(resp.length, 1000);
    assert_eq!(header(&resp, "Content-Range"), Some(String::from("bytes 0-999/1000")));
}

#[test]
fn start_beyond_the_resource_is_moved_onto_the_last_byte() {
    let resp = ranged("bytes=2000-3000").unwrap();
    assert_eq!(resp.status, 206);
    assert_eq!(resp.offset, 999);
    assert_eq!(resp.length, 1);
    assert_eq!(header(&resp, "Content-Range"), Some(String::from("bytes 999-999/1000")));
}

#[test]
fn end_before_start_is_moved_onto_the_start() {
    let resp = ranged("bytes=500-100").unwrap();
    assert_eq!(resp.status, 206);
    assert_eq!(resp.offset, 500);
    assert_eq!(resp.length, 1);
    assert_eq!(header(&resp, "Content-Range"), Some(String::from("bytes 500-500/1000")));
}

#[test]
fn single_byte_range() {
    let resp = ranged("bytes=0-0").unwrap();
    assert_eq!(resp.status, 206);
    assert_eq!(resp.offset, 0);
    assert_eq!(resp.length, 1);
    assert_eq!(header(&resp, "Content-Range"), Some(String::from("bytes 0-0/1000")));
}

#[test]
fn only_the_first_of_several_ranges_is_served() {
    let resp = ranged("bytes=0-99,200-299").unwrap();
    assert_eq!(resp.status, 206);
    assert_eq!(resp.length, 100);
    assert_eq!(header(&resp, "Content-Range"), Some(String::from("bytes 0-99/1000")));
    let resp = ranged("bytes=10-19, this is not looked at").unwrap();
    assert_eq!(header(&resp, "Content-Range"), Some(String::from("bytes 10-19/1000")));
}

#[test]
fn numbers_too_large_for_64_bits_lie_beyond_the_end() {
    let resp = ranged("bytes=0-99999999999999999999999999").unwrap();
    assert_eq!(resp.status, 200);
    assert_eq!(resp.length, 1000);
    let resp = ranged("bytes=99999999999999999999999999-5").unwrap();
    assert_eq!(resp.offset, 999);
    assert_eq!(resp.length, 1);
    let resp = ranged("bytes=18446744073709551615-18446744073709551616").unwrap();
    assert_eq!(header(&resp, "Content-Range"), Some(String::from("bytes 999-999/1000")));
}

#[test]
fn leading_zeros_are_digits_like_any_other() {
    let resp = ranged("bytes=007-0010").unwrap();
    assert_eq!(header(&resp, "Content-Range"), Some(String::from("bytes 7-10/1000")));
}

#[test]
fn malformed_headers_are_refused() {
    for text in [
        "",
        "bytes",
        "bytes=",
        "bytes=-",
        "bytes=-500",
        "bytes=abc",
        "bytes=0",
        "bytes=0-5x",
        "bytes=0x-5",
        "bytes= 0-5",
        "bytes=0 -5",
        "bytes=0- 5",
        "bytes=0-5 ",
        "bytes=0--5",
        "bytes=0-5-6",
        "bytes=+0-5",
        "Bytes=0-5",
        "items=0-5",
        "bytes=,0-5",
        "0-5",
    ] {
        assert_eq!(ranged(text), Err(StreamError::MalformedRange), "{}", text);
    }
}

#[test]
fn unknown_media_is_not_found_whatever_the_header() {
    assert_eq!(stream(None, None), Err(StreamError::NotFound));
    assert_eq!(stream(None, Some(&b"bytes=0-99"[..])), Err(StreamError::NotFound));
    assert_eq!(stream(None, Some(&b"nonsense"[..])), Err(StreamError::NotFound));
}

#[test]
fn empty_resource() {
    let media = MediaInfo { total: 0, content_type: String::from("audio/ogg") };
    let resp = stream(Some(&media), None).unwrap();
    assert_eq!(resp.status, 200);
    assert_eq!(resp.offset, 0);
    assert_eq!(resp.length, 0);
    assert_eq!(
        stream(Some(&media), Some(&b"bytes=0-99"[..])),
        Err(StreamError::RangeNotSatisfiable)
    );
    assert_eq!(stream(Some(&media), Some(&b"bytes=x"[..])), Err(StreamError::MalformedRange));
}

#[test]
fn one_byte_resource() {
    let media = MediaInfo { total: 1, content_type: String::from("text/plain") };
    let resp = stream(Some(&media), Some(&b"bytes=0-0"[..])).unwrap();
    assert_eq!(resp.status, 200);
    assert_eq!(resp.length, 1);
    assert_eq!(header(&resp, "Content-Range"), Some(String::from("bytes 0-0/1")));
    let resp = stream(Some(&media), Some(&b"bytes=5-"[..])).unwrap();
    assert_eq!(resp.status, 200);
    assert_eq!(header(&resp, "Content-Range"), Some(String::from("bytes 0-0/1")));
}

#[test]
fn largest_resource() {
    let media = MediaInfo { total: u64::MAX, content_type: String::from("video/mp4") };
    let resp = stream(Some(&media), Some(&b"bytes=1-"[..])).unwrap();
    assert_eq!(resp.status, 206);
    assert_eq!(resp.offset, 1);
    assert_eq!(resp.length, u64::MAX - 1);
    assert_eq!(
        header(&resp, "Content-Range"),
        Some(String::from("bytes 1-18446744073709551614/18446744073709551615"))
    );
}

#[test]
fn parse_range_reads_start_and_end() {
    assert_eq!(parse_range(b"bytes=12-345"), Some(ByteRange { start: 12, end: Some(345) }));
    assert_eq!(parse_range(b"bytes=12-"), Some(ByteRange { start: 12, end: None }));
    assert_eq!(parse_range(b"bytes=12-,7-8"), Some(ByteRange { start: 12, end: None }));
    assert_eq!(
        parse_range(b"bytes=18446744073709551615-18446744073709551614"),
        Some(ByteRange { start: u64::MAX, end: Some(u64::MAX - 1) })
    );
    assert_eq!(
        parse_range(b"bytes=18446744073709551616-184467440737095516150"),
        Some(ByteRange { start: u64::MAX, end: Some(u64::MAX) })
    );
    assert_eq!(parse_range(b"bytes=12"), None);
    assert_eq!(parse_range(&[0xff, 0xfe]), None);
    assert_eq!(parse_range(b"bytes=1\xff-2"), None);
}

#[test]
fn clip_range_fits_the_range_to_the_resource() {
    assert_eq!(
        clip_range(ByteRange { start: 3, end: Some(7) }, 10),
        RangeDescriptor { start: 3, end: 7, total: 10 }
    );
    assert_eq!(
        clip_range(ByteRange { start: 3, end: None }, 10),
        RangeDescriptor { start: 3, end: 9, total: 10 }
    );
    assert_eq!(
        clip_range(ByteRange { start: 30, end: Some(2) }, 10),
        RangeDescriptor { start: 9, end: 9, total: 10 }
    );
    assert_eq!(
        clip_range(ByteRange { start: 3, end: Some(10) }, 10),
        RangeDescriptor { start: 3, end: 9, total: 10 }
    );
}

#[test]
fn stream_music_resolves_a_header() {
    assert_eq!(
        stream_music(1000, b"bytes=900-1500"),
        Ok(RangeDescriptor { start: 900, end: 999, total: 1000 })
    );
    assert_eq!(stream_music(1000, b"bytes=900"), Err(StreamError::MalformedRange));
    assert_eq!(stream_music(0, b"bytes=0-"), Err(StreamError::RangeNotSatisfiable));
}

#[test]
fn content_range_value_is_spelled_in_decimal() {
    let d = RangeDescriptor { start: 0, end: 9, total: 10 };
    assert_eq!(content_range_value(&d), "bytes 0-9/10");
    let d = RangeDescriptor { start: 1234567890, end: 9876543210, total: 18446744073709551615 };
    assert_eq!(content_range_value(&d), "bytes 1234567890-9876543210/18446744073709551615");
}

#[test]
fn errors_are_client_errors() {
    assert_eq!(StreamError::NotFound.status(), 404);
    assert_eq!(StreamError::MalformedRange.status(), 400);
    assert_eq!(StreamError::RangeNotSatisfiable.status(), 416);
}
