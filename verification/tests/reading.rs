//! The overlap-preserving reader on in-memory streams: window contents,
//! carried overlap, exhaustion.

use inullify::reader::OverlapReader;
use inullify::source::VecSource;

#[test]
fn windows_overlap_and_cover_the_stream() {
    let data: Vec<u8> = (0u8..16).collect();
    let mut reader = OverlapReader::new(VecSource::new(data), 8, 4);
    let w1 = reader.next().unwrap();
    assert_eq!(w1, (0u8..8).collect::<Vec<u8>>());
    let w2 = reader.next().unwrap();
    assert_eq!(w2, (4u8..12).collect::<Vec<u8>>());
    let w3 = reader.next().unwrap();
    assert_eq!(w3, (8u8..16).collect::<Vec<u8>>());
    assert_eq!(reader.next(), None);
}

#[test]
fn tail_of_one_window_heads_the_next() {
    let data: Vec<u8> = (0u8..20).collect();
    let mut reader = OverlapReader::new(VecSource::new(data), 8, 4);
    let mut prev = reader.next().unwrap();
    while let Some(cur) = reader.next() {
        let tail = &prev[prev.len() - 4..];
        assert_eq!(&cur[..4], tail);
        prev = cur;
    }
}

#[test]
fn short_stream_yields_one_window() {
    let mut reader = OverlapReader::new(VecSource::new(vec![1, 2, 3]), 8, 4);
    assert_eq!(reader.next(), Some(vec![1, 2, 3]));
    assert_eq!(reader.next(), None);
}

#[test]
fn empty_stream_yields_nothing() {
    let mut reader = OverlapReader::new(VecSource::new(Vec::new()), 8, 4);
    assert_eq!(reader.next(), None);
}
