//! Read and write cursors over the control pipe's scratch buffer.
//!
//! The control pipe stages outgoing descriptors in a fixed scratch buffer
//! and sends them one packet at a time.  A [`WriteCursor`] fills the buffer
//! from the front; [`WriteCursor::into_read`] hands the same buffer to a
//! [`ReadCursor`], which deals it out in chunks.  The buffer is owned by
//! whichever cursor (or control-pipe state) currently holds it, so no
//! copying happens on a state transition.

use vstd::prelude::*;

verus! {

/// Reads a buffer's first `len` bytes in successive chunks.
pub struct ReadCursor {
    pub buf: Vec<u8>,
    pub len: usize,
    pub pos: usize,
}

impl ReadCursor {
    pub open spec fn wf(self) -> bool {
        self.pos <= self.len <= self.buf@.len()
    }

    /// The bytes still to be read.
    pub open spec fn spec_rest(self) -> int {
        self.len - self.pos
    }

    /// The staged data this cursor deals out.
    pub open spec fn data(self) -> Seq<u8> {
        self.buf@.take(self.len as int)
    }

    pub fn new(buf: Vec<u8>) -> (r: ReadCursor)
        ensures
            r.wf(),
            r.buf == buf,
            r.len == buf@.len(),
            r.pos == 0,
    {
        let len = buf.len();
        ReadCursor::with_len(buf, len)
    }

    pub fn with_len(buf: Vec<u8>, len: usize) -> (r: ReadCursor)
        requires
            len <= buf@.len(),
        ensures
            r.wf(),
            r.buf == buf,
            r.len == len,
            r.pos == 0,
    {
        ReadCursor { buf, len, pos: 0 }
    }

    /// Deals out the next chunk: up to `len` bytes, fewer when fewer
    /// remain.  A short (possibly empty) chunk means the data is exhausted.
    pub fn read(&mut self, len: usize) -> (chunk: Vec<u8>)
        requires
            old(self).wf(),
        ensures
            final(self).wf(),
            final(self).buf == old(self).buf,
            final(self).len == old(self).len,
            chunk@.len() == if len <= old(self).spec_rest() { len as int } else {
                old(self).spec_rest()
            },
            final(self).pos == old(self).pos + chunk@.len(),
            chunk@ == old(self).buf@.subrange(
                old(self).pos as int,
                old(self).pos + chunk@.len(),
            ),
    {
        let rest = self.rest();
        let n = if len < rest { len } else { rest };
        let start = self.pos;
        self.pos = start + n;
        let mut chunk: Vec<u8> = Vec::new();
        let mut i: usize = 0;
        while i < n
            invariant
                i <= n,
                start + n <= self.buf@.len(),
                self.pos == start + n,
                chunk@.len() == i,
                self.buf@.len() == old(self).buf@.len(),
                self.buf == old(self).buf,
                forall|j: int| 0 <= j < i ==> chunk@[j] == self.buf@[start + j],
            decreases n - i,
        {
            let b = self.buf[start + i];
            chunk.push(b);
            i += 1;
        }
        proof {
            assert(chunk@ =~= old(self).buf@.subrange(start as int, start + n));
        }
        chunk
    }

    pub fn pos(&self) -> (r: usize)
        ensures
            r == self.pos,
    {
        self.pos
    }

    pub fn len(&self) -> (r: usize)
        ensures
            r == self.len,
    {
        self.len
    }

    /// How many bytes remain to be read.
    pub fn rest(&self) -> (r: usize)
        requires
            self.wf(),
        ensures
            r == self.spec_rest(),
    {
        self.len - self.pos
    }

    /// Hands the underlying buffer back.
    pub fn into_buf(self) -> (r: Vec<u8>)
        ensures
            r == self.buf,
    {
        self.buf
    }
}

/// Fills a buffer from the front.
pub struct WriteCursor {
    pub buf: Vec<u8>,
    pub len: usize,
}

impl WriteCursor {
    pub open spec fn wf(self) -> bool {
        self.len <= self.buf@.len()
    }

    /// The bytes written so far.
    pub open spec fn data(self) -> Seq<u8> {
        self.buf@.take(self.len as int)
    }

    pub fn new(buf: Vec<u8>) -> (r: WriteCursor)
        ensures
            r.wf(),
            r.buf == buf,
            r.len == 0,
    {
        WriteCursor { buf, len: 0 }
    }

    /// Appends `src`, truncated to the space left; returns how many bytes
    /// landed.
    pub fn write(&mut self, src: &[u8]) -> (n: usize)
        requires
            old(self).wf(),
        ensures
            final(self).wf(),
            n == if src@.len() <= old(self).buf@.len() - old(self).len {
                src@.len() as int
            } else {
                old(self).buf@.len() - old(self).len
            },
            final(self).len == old(self).len + n,
            final(self).buf@.len() == old(self).buf@.len(),
            final(self).data() == old(self).data() + src@.take(n as int),
            final(self).buf@.skip(final(self).len as int)
                == old(self).buf@.skip(final(self).len as int),
    {
        let space = self.buf.len() - self.len;
        let n = if src.len() < space { src.len() } else { space };
        let start = self.len;
        self.len = start + n;
        let mut i: usize = 0;
        while i < n
            invariant
                i <= n,
                start + n <= self.buf@.len(),
                n <= src@.len(),
                self.buf@.len() == old(self).buf@.len(),
                self.len == start + n,
                forall|j: int| 0 <= j < i ==> self.buf@[start + j] == src@[j],
                forall|j: int| 0 <= j < self.buf@.len() && !(start <= j < start + i)
                    ==> self.buf@[j] == old(self).buf@[j],
            decreases n - i,
        {
            let b = src[i];
            self.buf[start + i] = b;
            i += 1;
        }
        proof {
            assert(self.data() =~= old(self).data() + src@.take(n as int));
            assert(self.buf@.skip(self.len as int) =~= old(self).buf@.skip(self.len as int));
        }
        n
    }

    pub fn len(&self) -> (r: usize)
        ensures
            r == self.len,
    {
        self.len
    }

    /// The bytes written so far, as a slice.
    pub fn as_slice(&self) -> (r: &[u8])
        requires
            self.wf(),
        ensures
            r@ == self.data(),
    {
        vstd::slice::slice_subrange(self.buf.as_slice(), 0, self.len)
    }

    /// Hands the underlying buffer back.
    pub fn into_buf(self) -> (r: Vec<u8>)
        ensures
            r == self.buf,
    {
        self.buf
    }

    /// Reuses the buffer as a read cursor over the bytes written so far.
    pub fn into_read(self) -> (r: ReadCursor)
        requires
            self.wf(),
        ensures
            r.wf(),
            r.buf == self.buf,
            r.len == self.len,
            r.pos == 0,
    {
        let len = self.len();
        ReadCursor::with_len(self.into_buf(), len)
    }
}

} // verus!
