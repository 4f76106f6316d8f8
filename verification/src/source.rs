//! The input side of the streaming scanner: a source of bytes read in
//! increments, modelled as a fixed underlying stream and a cursor. A read may
//! return fewer bytes than asked for, and a read of zero bytes means the
//! source is done serving (end of input, or a read error treated the same).

use vstd::prelude::*;

verus! {

/// One input stream read front to back in increments. Implementors choose
/// how many bytes each read returns; returning none at all ends the scan
/// (the reader treats exhaustion and read errors alike, so an implementor
/// backed by real input maps its errors to an empty read). The spec methods
/// default to the weakest model — an empty, unreliable stream — so an
/// implementor outside the verifier, such as one reading a real file, need
/// only provide `read_some`; the stream-level guarantees of a scan hold of
/// the model an implementor states, and of such a source they say nothing.
pub trait ByteSource {
    /// The whole sequence of bytes this source serves, fixed for its lifetime.
    open spec fn stream(&self) -> Seq<u8> {
        Seq::<u8>::empty()
    }

    /// How many bytes have been served so far.
    open spec fn pos(&self) -> int {
        0
    }

    /// Whether this source is reliable: asked for at least one byte, it
    /// serves at least one whenever any remain. An unreliable source (one
    /// backed by fallible input) may stop serving early instead.
    open spec fn reliable(&self) -> bool {
        false
    }

    /// Whether this source is exact: every read serves precisely as many
    /// bytes as were asked for, up to what remains. Reads from an exact
    /// source are fully determined by the stream and the cursor, so whatever
    /// is computed from them is a function of the stream alone.
    open spec fn exact(&self) -> bool {
        false
    }

    /// Serve up to `max` of the next unserved bytes, in order and without
    /// gaps. An empty result leaves the cursor where it was, and from a
    /// reliable source means the stream is exhausted.
    fn read_some(&mut self, max: usize) -> (r: Vec<u8>)
        requires
            0 <= old(self).pos() <= old(self).stream().len(),
        ensures
            final(self).stream() == old(self).stream(),
            final(self).reliable() == old(self).reliable(),
            final(self).exact() == old(self).exact(),
            r@.len() <= max,
            final(self).pos() == old(self).pos() + r@.len(),
            final(self).pos() <= final(self).stream().len(),
            r@ == old(self).stream().subrange(old(self).pos(), old(self).pos() + r@.len()),
            old(self).reliable() && max >= 1 && r@.len() == 0 ==> old(self).pos()
                == old(self).stream().len(),
            old(self).exact() ==> r@.len() == vstd::math::min(
                max as int,
                old(self).stream().len() - old(self).pos(),
            ),
    ;
}

/// A source over bytes already in memory; each read serves as much as asked
/// for. Scans driven from tests use it, and a caller that has a file's
/// content in memory can too.
pub struct VecSource {
    data: Vec<u8>,
    cursor: usize,
}

impl VecSource {
    pub fn new(data: Vec<u8>) -> (s: VecSource)
        ensures
            s.stream() == data@,
            s.pos() == 0,
    {
        VecSource { data, cursor: 0 }
    }
}

impl ByteSource for VecSource {
    closed spec fn stream(&self) -> Seq<u8> {
        self.data@
    }

    closed spec fn pos(&self) -> int {
        self.cursor as int
    }

    closed spec fn reliable(&self) -> bool {
        true
    }

    closed spec fn exact(&self) -> bool {
        true
    }

    fn read_some(&mut self, max: usize) -> (r: Vec<u8>)
    {
        let remaining = self.data.len() - self.cursor;
        let n = if max < remaining {
            max
        } else {
            remaining
        };
        let mut out: Vec<u8> = Vec::new();
        let mut i: usize = 0;
        while i < n
            invariant
                i <= n,
                self.cursor + n <= self.data.len(),
                out@.len() == i,
                out@ == self.data@.subrange(self.cursor as int, self.cursor + i),
            decreases n - i,
        {
            out.push(self.data[self.cursor + i]);
            proof {
                assert(out@ =~= self.data@.subrange(self.cursor as int, self.cursor + i + 1));
            }
            i += 1;
        }
        self.cursor = self.cursor + n;
        out
    }
}

} // verus!
