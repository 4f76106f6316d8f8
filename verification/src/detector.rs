//! The streaming signature scanner: drives an overlap-preserving reader over
//! one input and asks the pattern for its verdict on each window, stopping at
//! the first match.

use vstd::prelude::*;
use vstd::string::StrSliceExecFns;
use vstd::string::StringExecFns;
use crate::pattern::SignaturePattern;
use crate::pattern::anchor_free;
use crate::pattern::match_verdict;
use crate::reader::OverlapReader;
use crate::source::ByteSource;

verus! {

/// How many bytes the scanner reads per chunk.
pub const SCAN_CHUNK: usize = 4096;

/// How many bytes of one chunk are carried into the next. A signature longer
/// than this can straddle a chunk boundary unseen: the overlap must be at
/// least the longest byte length the configured pattern can match.
pub const SCAN_OVERLAP: usize = 64;

/// Whether some contiguous byte window of `stream` draws a match verdict.
pub open spec fn some_window_matches(pattern: Seq<char>, stream: Seq<u8>) -> bool {
    exists|i: int, j: int|
        0 <= i <= j <= stream.len() && match_verdict(pattern, stream.subrange(i, j)) is Some
}

/// The verdict a scan reaches from the already-checked window `stream[a..b]`
/// onward (the empty initial window for `a == b == 0`), when every read
/// serves exactly what is asked: each next window starts `overlap` bytes
/// before the previous one's end and runs a whole chunk, clipped to the
/// stream's end, and the first match decides.
pub open spec fn scan_from(
    pattern: Seq<char>,
    stream: Seq<u8>,
    chunk: int,
    overlap: int,
    a: int,
    b: int,
) -> Option<Seq<char>>
    recommends
        0 <= a <= b <= stream.len(),
        0 <= overlap < chunk,
    decreases stream.len() - b,
{
    if b >= stream.len() {
        None::<Seq<char>>
    } else {
        let a2 = if b - a > overlap {
            b - overlap
        } else {
            a
        };
        let b2 = vstd::math::min(a2 + chunk, stream.len() as int);
        if b2 <= b {
            // A chunk no larger than the overlap cannot advance.
            None::<Seq<char>>
        } else if match_verdict(pattern, stream.subrange(a2, b2)) is Some {
            match_verdict(pattern, stream.subrange(a2, b2))
        } else {
            scan_from(pattern, stream, chunk, overlap, a2, b2)
        }
    }
}

/// The verdict of scanning a whole stream with exact reads: a function of
/// the pattern text, the content and the two sizes alone, so two scans of
/// equal content always agree.
pub open spec fn scan_result(
    pattern: Seq<char>,
    stream: Seq<u8>,
    chunk: int,
    overlap: int,
) -> Option<Seq<char>> {
    scan_from(pattern, stream, chunk, overlap, 0, 0)
}

/// Scan `source` with an explicit chunk size and overlap. Reports the label
/// of the first window the pattern matches; reports nothing when no window
/// matched (in particular whenever no byte window of the stream matches at
/// all, whatever the stream's size). A reported label is always the
/// pattern's verdict on some contiguous window of the stream. And when the
/// source is reliable, the chunk exceeds the overlap and the pattern is
/// anchor-free, a silent scan means no window of the stream that fits the
/// overlap matches: a signature short enough for the overlap is never
/// missed, wherever a chunk boundary falls. Under the same conditions a
/// reported label comes from a window before whose start no overlap-sized
/// window matches: the scan stopped at its first hit, never a later one.
#[verifier::loop_isolation(false)]
pub fn detect_with<S: ByteSource>(
    pattern: &SignaturePattern,
    source: S,
    chunk_size: usize,
    overlap: usize,
) -> (r: Option<String>)
    requires
        source.pos() == 0,
    ensures
        r is Some ==> exists|i: int, j: int|
            0 <= i <= j <= source.stream().len() && match_verdict(
                pattern@,
                source.stream().subrange(i, j),
            ) == Some(r->Some_0@),
        !some_window_matches(pattern@, source.stream()) ==> r is None,
        source.reliable() && chunk_size > overlap && anchor_free(pattern@) && r is None
            ==> forall|i: int, j: int|
            0 <= i < j <= source.stream().len() && j - i <= overlap ==> match_verdict(
                pattern@,
                source.stream().subrange(i, j),
            ) is None,
        source.reliable() && chunk_size > overlap && anchor_free(pattern@) && r is Some
            ==> exists|a: int, b: int|
            {
                &&& 0 <= a <= b <= source.stream().len()
                &&& match_verdict(pattern@, source.stream().subrange(a, b)) == Some(r->Some_0@)
                &&& forall|p: int, q: int|
                    0 <= p < q <= a && q - p <= overlap ==> match_verdict(
                        pattern@,
                        source.stream().subrange(p, q),
                    ) is None
            },
        source.reliable() && source.exact() && chunk_size > overlap ==> ({
            let v = scan_result(pattern@, source.stream(), chunk_size as int, overlap as int);
            &&& (r is Some <==> v is Some)
            &&& (r is Some ==> r->Some_0@ == v->Some_0)
        }),
{
    let ghost stream0 = source.stream();
    let ghost thorough = source.reliable() && chunk_size > overlap && anchor_free(pattern@);
    let ghost pinned = source.reliable() && source.exact() && chunk_size > overlap;
    let mut reader = OverlapReader::new(source, chunk_size, overlap);
    proof {
        assert(reader.window() =~= stream0.subrange(reader.win_start(), reader.consumed()));
    }
    loop
        invariant
            reader.wf(),
            reader.stream() == stream0,
            reader.reliable() == source.reliable(),
            reader.exact() == source.exact(),
            reader.overlap_spec() == overlap,
            reader.chunk_spec() == chunk_size,
            0 <= reader.win_start() <= reader.consumed() <= reader.stream().len(),
            reader.window() == stream0.subrange(reader.win_start(), reader.consumed()),
            thorough ==> forall|p: int, q: int|
                0 <= p < q <= reader.consumed() && q - p <= overlap ==> match_verdict(
                    pattern@,
                    stream0.subrange(p, q),
                ) is None,
            thorough ==> reader.window().len() >= overlap || reader.win_start() == 0
                || reader.consumed() == stream0.len(),
            pinned ==> scan_result(pattern@, stream0, chunk_size as int, overlap as int)
                == scan_from(
                pattern@,
                stream0,
                chunk_size as int,
                overlap as int,
                reader.win_start(),
                reader.consumed(),
            ),
        decreases reader.stream().len() - reader.consumed(),
    {
        let ghost a1 = reader.win_start();
        let ghost b1 = reader.consumed();
        match reader.next() {
            None => {
                proof {
                    if thorough {
                        assert(reader.consumed() == stream0.len());
                    }
                    if pinned {
                        assert(b1 == stream0.len());
                        assert(scan_from(
                            pattern@,
                            stream0,
                            chunk_size as int,
                            overlap as int,
                            a1,
                            b1,
                        ) is None);
                    }
                }
                return None;
            },
            Some(data) => {
                match pattern.match_label(data.as_slice()) {
                    Some(label) => {
                        proof {
                            let a = reader.win_start();
                            let b = reader.consumed();
                            assert(0 <= a <= b <= source.stream().len() && match_verdict(
                                pattern@,
                                source.stream().subrange(a, b),
                            ) == Some(label@));
                            if thorough {
                                // Nothing the overlap could hold matched
                                // before this window's start: the scan
                                // stopped at the first hit.
                                assert(a <= b1);
                                assert forall|p: int, q: int|
                                    0 <= p < q <= a && q - p <= overlap implies match_verdict(
                                    pattern@,
                                    source.stream().subrange(p, q),
                                ) is None by {
                                    assert(q <= b1);
                                }
                            }
                            if pinned {
                                assert(b1 < stream0.len());
                                assert(scan_from(
                                    pattern@,
                                    stream0,
                                    chunk_size as int,
                                    overlap as int,
                                    a1,
                                    b1,
                                ) == Some(label@));
                            }
                        }
                        return Some(label);
                    },
                    None => {
                        proof {
                            if pinned {
                                assert(b1 < stream0.len());
                                assert(scan_from(
                                    pattern@,
                                    stream0,
                                    chunk_size as int,
                                    overlap as int,
                                    a1,
                                    b1,
                                ) == scan_from(
                                    pattern@,
                                    stream0,
                                    chunk_size as int,
                                    overlap as int,
                                    reader.win_start(),
                                    reader.consumed(),
                                ));
                            }
                            if thorough {
                                let a2 = reader.win_start();
                                let b2 = reader.consumed();
                                assert forall|p: int, q: int|
                                    0 <= p < q <= b2 && q - p <= overlap implies match_verdict(
                                    pattern@,
                                    stream0.subrange(p, q),
                                ) is None by {
                                    if q > b1 {
                                        // The window sits past the previous
                                        // slice's end, so it lies inside the
                                        // new slice: its start is no earlier
                                        // than the carried overlap.
                                        assert(a2 <= p);
                                        assert(stream0.subrange(p, q) =~= data@.subrange(
                                            p - a2,
                                            q - a2,
                                        ));
                                    }
                                }
                            }
                        }
                    },
                }
            },
        }
    }
}

/// Scan `source` with the scanner's configured chunk size and overlap; see
/// `detect_with`.
pub fn detect<S: ByteSource>(pattern: &SignaturePattern, source: S) -> (r: Option<String>)
    requires
        source.pos() == 0,
    ensures
        r is Some ==> exists|i: int, j: int|
            0 <= i <= j <= source.stream().len() && match_verdict(
                pattern@,
                source.stream().subrange(i, j),
            ) == Some(r->Some_0@),
        !some_window_matches(pattern@, source.stream()) ==> r is None,
        source.reliable() && anchor_free(pattern@) && r is None ==> forall|i: int, j: int|
            0 <= i < j <= source.stream().len() && j - i <= SCAN_OVERLAP ==> match_verdict(
                pattern@,
                source.stream().subrange(i, j),
            ) is None,
        source.reliable() && anchor_free(pattern@) && r is Some ==> exists|a: int, b: int|
            {
                &&& 0 <= a <= b <= source.stream().len()
                &&& match_verdict(pattern@, source.stream().subrange(a, b)) == Some(r->Some_0@)
                &&& forall|p: int, q: int|
                    0 <= p < q <= a && q - p <= SCAN_OVERLAP ==> match_verdict(
                        pattern@,
                        source.stream().subrange(p, q),
                    ) is None
            },
        source.reliable() && source.exact() ==> ({
            let v = scan_result(
                pattern@,
                source.stream(),
                SCAN_CHUNK as int,
                SCAN_OVERLAP as int,
            );
            &&& (r is Some <==> v is Some)
            &&& (r is Some ==> r->Some_0@ == v->Some_0)
        }),
{
    detect_with(pattern, source, SCAN_CHUNK, SCAN_OVERLAP)
}

/// The label under which a match is reported: the matched alternative's
/// name, or a fixed marker when the match carried no name.
pub fn display_label(detected: &str) -> (r: String)
    ensures
        detected@.len() == 0 ==> r@ == "(default)"@,
        detected@.len() > 0 ==> r@ == detected@,
{
    if detected.unicode_len() == 0 {
        String::from_str("(default)")
    } else {
        String::from_str(detected)
    }
}

} // verus!
