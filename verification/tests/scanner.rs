//! Scanning behaviour on in-memory streams: single-window hits, misses,
//! chunk-boundary straddling, first-match short-circuit, label display.

use inullify::detector::{detect, detect_with, display_label};
use inullify::pattern::SignaturePattern;
use inullify::source::VecSource;

const SIGNATURES: &str = r"(?P<ELF>\x7FELF)|(?P<PHP><\?)";

fn sig_pattern() -> SignaturePattern {
    SignaturePattern::compile(SIGNATURES.to_string()).unwrap()
}

#[test]
fn detect_elf_in_single_window() {
    let pat = sig_pattern();
    let mut data = b"\x7FELF".to_vec();
    data.extend_from_slice(&[0u8; 100]);
    let r = detect(&pat, VecSource::new(data));
    assert_eq!(r, Some("ELF".to_string()));
}

#[test]
fn detect_php_in_single_window() {
    let pat = sig_pattern();
    let data = b"<?php echo 1; ?>".to_vec();
    let r = detect(&pat, VecSource::new(data));
    assert_eq!(r, Some("PHP".to_string()));
}

#[test]
fn detect_none_for_clean_content() {
    let pat = sig_pattern();
    let r = detect(&pat, VecSource::new(b"hello world".to_vec()));
    assert_eq!(r, None);
}

#[test]
fn detect_none_regardless_of_size() {
    let pat = sig_pattern();
    let big = vec![b'a'; 20_000];
    let r = detect(&pat, VecSource::new(big));
    assert_eq!(r, None);
}

#[test]
fn detect_none_for_empty_stream() {
    let pat = sig_pattern();
    let r = detect(&pat, VecSource::new(Vec::new()));
    assert_eq!(r, None);
}

#[test]
fn exact_signature_content_detected() {
    // A file whose entire content is the four executable-header bytes.
    let pat = sig_pattern();
    let r = detect(&pat, VecSource::new(vec![0x7F, 0x45, 0x4C, 0x46]));
    assert_eq!(r, Some("ELF".to_string()));
    assert_eq!(display_label(&r.unwrap()), "ELF");
}

#[test]
fn boundary_straddling_signature_detected() {
    // Chunks of 8 with an overlap of 4: the signature at positions 6..10
    // straddles the first chunk boundary and is seen in the second window.
    let pat = sig_pattern();
    let mut data = b"aaaaaa".to_vec();
    data.extend_from_slice(b"\x7FELF");
    data.extend_from_slice(b"aaaaaa");
    assert_eq!(data.len(), 16);
    let r = detect_with(&pat, VecSource::new(data), 8, 4);
    assert_eq!(r, Some("ELF".to_string()));
}

#[test]
fn boundary_straddling_signature_missed_with_small_overlap() {
    // The same placement with the overlap shrunk below the signature length:
    // no window holds all four bytes, so the signature goes unseen.
    let pat = sig_pattern();
    let mut data = b"aaaaaa".to_vec();
    data.extend_from_slice(b"\x7FELF");
    data.extend_from_slice(b"aaaaaa");
    let r = detect_with(&pat, VecSource::new(data), 8, 1);
    assert_eq!(r, None);
}

#[test]
fn boundary_straddling_at_default_chunk_size() {
    // Two of the four signature bytes sit in the first 4096-byte chunk and
    // two in the next; the 64-byte overlap keeps them visible together.
    let pat = sig_pattern();
    let mut data = vec![b'a'; 4094];
    data.extend_from_slice(b"\x7FELF");
    data.extend(vec![b'a'; 1000]);
    let r = detect(&pat, VecSource::new(data));
    assert_eq!(r, Some("ELF".to_string()));
}

#[test]
fn first_match_wins_within_a_window() {
    let pat = sig_pattern();
    let data = b"..\x7FELF....<?..".to_vec();
    let r = detect(&pat, VecSource::new(data));
    assert_eq!(r, Some("ELF".to_string()));
}

#[test]
fn first_match_wins_across_windows() {
    // The script tag sits in the first window, the header only in a later
    // one: scanning stops on the earlier hit.
    let pat = sig_pattern();
    let mut data = b"<?aaaaaa".to_vec();
    data.extend_from_slice(b"aa\x7FELFaa");
    let r = detect_with(&pat, VecSource::new(data), 8, 4);
    assert_eq!(r, Some("PHP".to_string()));
}

#[test]
fn unnamed_match_reports_empty_label() {
    let pat = SignaturePattern::compile(r"abc".to_string()).unwrap();
    let r = detect(&pat, VecSource::new(b"xxabcxx".to_vec()));
    assert_eq!(r, Some(String::new()));
}

#[test]
fn equal_content_gives_equal_results() {
    // The scan verdict is a function of the pattern and the bytes alone.
    let pat = sig_pattern();
    let mut data = vec![b'x'; 5000];
    data[4500] = 0x7F;
    data[4501] = b'E';
    data[4502] = b'L';
    data[4503] = b'F';
    let r1 = detect(&pat, VecSource::new(data.clone()));
    let r2 = detect(&pat, VecSource::new(data));
    assert_eq!(r1, r2);
    assert_eq!(r1, Some("ELF".to_string()));
}

#[test]
fn compile_rejects_bad_pattern() {
    assert!(SignaturePattern::compile("(".to_string()).is_err());
}

#[test]
fn display_label_keeps_a_name() {
    assert_eq!(display_label("ELF"), "ELF");
}

#[test]
fn display_label_marks_the_unnamed_signature() {
    assert_eq!(display_label(""), "(default)");
}
