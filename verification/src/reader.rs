//! The chunked reader behind the streaming scanner. It serves the input as a
//! succession of windows over one fixed buffer: before each refill it shifts
//! the last `overlap` bytes of the previous window to the front, so a byte
//! pattern short enough to fit in the overlap is never split invisibly
//! across two windows.

use vstd::prelude::*;
use crate::source::ByteSource;

verus! {

/// A reader that yields overlapping windows of its input. Each yielded
/// window is a contiguous run of the stream; consecutive windows share their
/// last and first `overlap` bytes (fewer when the earlier window was that
/// short). Reads that fail or return nothing end the succession.
pub struct OverlapReader<S: ByteSource> {
    input: S,
    buffer: Vec<u8>,
    chunk: usize,
    overlap: usize,
    eof: bool,
    start: Ghost<int>,
}

impl<S: ByteSource> OverlapReader<S> {
    /// The input's whole byte sequence.
    pub closed spec fn stream(&self) -> Seq<u8> {
        self.input.stream()
    }

    /// How far into the stream the reader has read.
    pub closed spec fn consumed(&self) -> int {
        self.input.pos()
    }

    /// Where in the stream the currently held window begins.
    pub closed spec fn win_start(&self) -> int {
        self.start@
    }

    /// The bytes currently held, always `stream[win_start .. consumed]`.
    pub closed spec fn window(&self) -> Seq<u8> {
        self.buffer@
    }

    /// The configured number of bytes carried over between windows.
    pub closed spec fn overlap_spec(&self) -> int {
        self.overlap as int
    }

    /// The configured buffer size, an upper bound on every window's length.
    pub closed spec fn chunk_spec(&self) -> int {
        self.chunk as int
    }

    /// Whether the underlying source is reliable (see `ByteSource`).
    pub closed spec fn reliable(&self) -> bool {
        self.input.reliable()
    }

    /// Whether the underlying source is exact (see `ByteSource`).
    pub closed spec fn exact(&self) -> bool {
        self.input.exact()
    }

    /// Whether the succession has ended: the input stopped serving (end or
    /// error), or the whole buffer fits inside the overlap, so no step could
    /// ever take in a new byte. Once `next` returns nothing it returns
    /// nothing forever.
    pub closed spec fn exhausted(&self) -> bool {
        self.eof || (self.chunk <= self.buffer@.len() && self.buffer@.len() <= self.overlap)
    }

    /// The reader's internal consistency: the held bytes are exactly the
    /// stream between `win_start` and `consumed`, and fit the buffer; once a
    /// reliable source stopped serving, the stream was fully consumed.
    pub closed spec fn wf(&self) -> bool {
        &&& 0 <= self.start@
        &&& self.start@ + self.buffer@.len() == self.input.pos()
        &&& self.input.pos() <= self.input.stream().len()
        &&& self.buffer@ == self.input.stream().subrange(self.start@, self.input.pos())
        &&& self.buffer@.len() <= self.chunk
        &&& self.eof && self.input.reliable() ==> self.input.pos() == self.input.stream().len()
    }

    /// A reader over `input`, reading `chunk_size` bytes at a time and
    /// carrying `overlap` bytes from each window into the next.
    pub fn new(input: S, chunk_size: usize, overlap: usize) -> (r: Self)
        requires
            0 <= input.pos() <= input.stream().len(),
        ensures
            r.wf(),
            r.stream() == input.stream(),
            r.reliable() == input.reliable(),
            r.exact() == input.exact(),
            r.consumed() == input.pos(),
            r.win_start() == input.pos(),
            r.window() == Seq::<u8>::empty(),
            r.overlap_spec() == overlap,
            r.chunk_spec() == chunk_size,
    {
        let ghost p = input.pos();
        let r = OverlapReader {
            input,
            buffer: Vec::new(),
            chunk: chunk_size,
            overlap,
            eof: false,
            start: Ghost(p),
        };
        proof {
            assert(r.buffer@ =~= r.input.stream().subrange(p, p));
        }
        r
    }

    /// Yield the next window, or nothing once the input stopped serving new
    /// bytes. A yielded window starts `overlap` bytes before the end of the
    /// previous one (at its start, when the previous held no more than
    /// `overlap` bytes), always contains at least one byte not yet yielded,
    /// and is verbatim the stream between its start and `consumed`.
    pub fn next(&mut self) -> (r: Option<Vec<u8>>)
        requires
            old(self).wf(),
        ensures
            final(self).wf(),
            final(self).stream() == old(self).stream(),
            final(self).overlap_spec() == old(self).overlap_spec(),
            final(self).chunk_spec() == old(self).chunk_spec(),
            final(self).reliable() == old(self).reliable(),
            final(self).exact() == old(self).exact(),
            old(self).exhausted() ==> r is None,
            r is None ==> final(self).exhausted(),
            0 <= final(self).win_start() <= final(self).consumed() <= final(self).stream().len(),
            final(self).window() == final(self).stream().subrange(
                final(self).win_start(),
                final(self).consumed(),
            ),
            old(self).reliable() && old(self).chunk_spec() > old(self).overlap_spec() ==> match r {
                Option::None => final(self).consumed() == final(self).stream().len(),
                Option::Some(w) => final(self).window().len() >= final(self).overlap_spec()
                    || final(self).consumed() == final(self).stream().len(),
            },
            old(self).reliable() && old(self).exact() && old(self).chunk_spec()
                > old(self).overlap_spec() && r is Some ==> final(self).consumed()
                == vstd::math::min(
                final(self).win_start() + final(self).chunk_spec(),
                final(self).stream().len() as int,
            ),
            match r {
                Option::None => final(self).consumed() == old(self).consumed(),
                Option::Some(w) => {
                    &&& w@.len() > 0
                    &&& final(self).consumed() > old(self).consumed()
                    &&& w@ == final(self).window()
                    &&& final(self).win_start() == (if old(self).window().len() > old(self).overlap_spec() {
                        old(self).win_start() + old(self).window().len() - old(self).overlap_spec()
                    } else {
                        old(self).win_start()
                    })
                    &&& w@ == final(self).stream().subrange(
                        final(self).win_start(),
                        final(self).consumed(),
                    )
                },
            },
    {
        if self.eof {
            return None;
        }
        // Shift: keep only the last `overlap` bytes of the previous window.
        if self.buffer.len() > self.overlap {
            let offset = self.buffer.len() - self.overlap;
            let ghost orig = self.buffer@;
            let mut i: usize = 0;
            while i < self.overlap
                invariant
                    i <= self.overlap,
                    self.overlap < orig.len(),
                    orig.len() <= usize::MAX,
                    offset == orig.len() - self.overlap,
                    self.input == old(self).input,
                    self.start == old(self).start,
                    self.eof == old(self).eof,
                    self.overlap == old(self).overlap,
                    self.chunk == old(self).chunk,
                    self.buffer@.len() == orig.len(),
                    forall|j: int| 0 <= j < i ==> self.buffer@[j] == orig[offset + j],
                    forall|j: int| i <= j < orig.len() ==> self.buffer@[j] == orig[j],
                decreases self.overlap - i,
            {
                let b = self.buffer[offset + i];
                self.buffer[i] = b;
                i += 1;
            }
            self.buffer.truncate(self.overlap);
            proof {
                self.start@ = self.start@ + offset;
                assert(self.buffer@ =~= self.input.stream().subrange(
                    self.start@,
                    self.input.pos(),
                ));
            }
        }
        // Fill: append fresh bytes until the window holds at least `overlap`
        // bytes of which at least one is new, the buffer is full, or the
        // input stops serving.
        let ghost base = self.input.pos();
        let ghost shifted = self.start@;
        let mut fresh: usize = 0;
        let mut done = false;
        while !done && (self.buffer.len() < self.overlap || fresh == 0) && self.buffer.len()
            < self.chunk
            invariant
                self.wf(),
                self.stream() == old(self).stream(),
                self.overlap == old(self).overlap,
                self.chunk == old(self).chunk,
                self.start@ == shifted,
                self.input.pos() == base + fresh,
                fresh <= self.buffer@.len(),
                done == self.eof,
                fresh == 0 ==> self.buffer@.len() <= self.overlap,
                self.reliable() == old(self).reliable(),
                self.exact() == old(self).exact(),
                old(self).reliable() && old(self).exact() && self.overlap < self.chunk && fresh
                    >= 1 ==> self.input.pos() == vstd::math::min(
                    shifted + self.chunk,
                    self.stream().len() as int,
                ),
            decreases (if done { 0int } else { 1int }), self.chunk - self.buffer@.len(),
        {
            let want = self.chunk - self.buffer.len();
            let mut piece = self.input.read_some(want);
            if piece.len() == 0 {
                self.eof = true;
                done = true;
            } else {
                fresh = fresh + piece.len();
                self.buffer.append(&mut piece);
                proof {
                    assert(self.buffer@ =~= self.input.stream().subrange(
                        self.start@,
                        self.input.pos(),
                    ));
                }
            }
        }
        if fresh == 0 {
            return None;
        }
        let out = vstd::slice::slice_to_vec(self.buffer.as_slice());
        Some(out)
    }
}

/// Law: no byte window short enough for the overlap is lost at a chunk
/// boundary. Let one yielded slice cover stream positions `[a1, b1)` and the
/// next cover `[a2, b2)` (so `a2` sits `overlap` bytes before `b1`, or at
/// `a1` when the first slice held no more than `overlap` bytes, exactly as
/// `next` ensures). Then every window of length at most `overlap` that lies
/// within the two slices' joint extent lies wholly inside one of them.
pub proof fn lemma_no_window_lost(
    a1: int,
    b1: int,
    a2: int,
    b2: int,
    overlap: int,
    p: int,
    q: int,
)
    requires
        a1 <= b1 <= b2,
        a2 == (if b1 - a1 > overlap {
            b1 - overlap
        } else {
            a1
        }),
        q - p <= overlap,
        a1 <= p <= q <= b2,
    ensures
        (a1 <= p && q <= b1) || (a2 <= p && q <= b2),
{
}

/// Law: the tail of one yielded slice reappears verbatim at the head of the
/// next. With slices `stream[a1..b1]` and `stream[a2..b2]` placed as `next`
/// ensures, the last `k` bytes of the first slice equal the first `k` bytes
/// of the second, where `k` is the overlap length (the whole first slice,
/// when it is shorter than that).
pub proof fn lemma_tail_carried(stream: Seq<u8>, a1: int, b1: int, a2: int, b2: int, overlap: int)
    requires
        0 <= a1 <= b1 <= b2 <= stream.len(),
        0 <= overlap,
        a2 == (if b1 - a1 > overlap {
            b1 - overlap
        } else {
            a1
        }),
    ensures
        ({
            let k = if b1 - a1 > overlap {
                overlap
            } else {
                b1 - a1
            };
            stream.subrange(a1, b1).skip(b1 - a1 - k) == stream.subrange(a2, b2).take(k)
        }),
{
    let k = if b1 - a1 > overlap {
        overlap
    } else {
        b1 - a1
    };
    assert(stream.subrange(a1, b1).skip(b1 - a1 - k) =~= stream.subrange(a2, b2).take(k));
}

} // verus!
