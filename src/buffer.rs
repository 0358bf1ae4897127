use vstd::prelude::*;

verus! {

/// A fixed-capacity store of bytes: the occupied bytes always start at index 0
/// and end at `head`.
pub struct ByteBuffer {
    buf: Vec<u8>,
    head: usize,
}

impl View for ByteBuffer {
    type V = Seq<u8>;

    /// The occupied bytes, oldest first.
    closed spec fn view(&self) -> Seq<u8> {
        self.buf@.take(self.head as int)
    }
}

impl ByteBuffer {
    /// The number of bytes the buffer can hold.
    pub closed spec fn capacity(&self) -> nat {
        self.buf@.len()
    }

    pub closed spec fn wf(&self) -> bool {
        self.head <= self.buf@.len()
    }

    /// An empty buffer that holds up to `length` bytes.
    pub fn new(length: usize) -> (r: ByteBuffer)
        ensures
            r.wf(),
            r@ == Seq::<u8>::empty(),
            r.capacity() == length,
    {
        let mut buf: Vec<u8> = Vec::with_capacity(length);
        let mut i: usize = 0;
        while i < length
            invariant
                i <= length,
                buf@.len() == i,
            decreases length - i,
        {
            buf.push(0u8);
            i = i + 1;
        }
        let r = ByteBuffer { buf, head: 0 };
        assert(r@ =~= Seq::<u8>::empty());
        r
    }

    /// How many more bytes fit.
    pub fn free(&self) -> (r: usize)
        requires
            self.wf(),
        ensures
            r == self.capacity() - self@.len(),
    {
        self.buf.len() - self.head
    }

    /// Appends `data` to the occupied bytes; tells whether anything was added.
    pub fn read_from(&mut self, data: &[u8]) -> (r: bool)
        requires
            old(self).wf(),
            data@.len() <= old(self).capacity() - old(self)@.len(),
        ensures
            final(self).wf(),
            final(self).capacity() == old(self).capacity(),
            final(self)@ == old(self)@ + data@,
            r == (data@.len() > 0),
    {
        let n = data.len();
        let start = self.head;
        let cap = self.buf.len();
        let mut i: usize = 0;
        while i < n
            invariant
                n == data@.len(),
                cap == self.buf@.len(),
                start == old(self).head,
                old(self).wf(),
                start + n <= self.buf@.len(),
                self.buf@.len() == old(self).buf@.len(),
                self.head == start,
                i <= n,
                forall|k: int| 0 <= k < start ==> self.buf@[k] == old(self).buf@[k],
                forall|k: int| 0 <= k < i ==> self.buf@[start + k] == data@[k],
            decreases n - i,
        {
            self.buf.set(start + i, data[i]);
            i = i + 1;
        }
        self.head = start + n;
        assert(self@ =~= old(self)@ + data@);
        n > 0
    }

    /// The occupied bytes, left as they are.
    pub fn peek(&self) -> (r: &[u8])
        requires
            self.wf(),
        ensures
            r@ == self@,
            r@.len() <= self.capacity(),
    {
        vstd::slice::slice_subrange(self.buf.as_slice(), 0, self.head)
    }

    /// Drops the first `length` occupied bytes and moves the rest to the front.
    pub fn consume(&mut self, length: usize)
        requires
            old(self).wf(),
            length <= old(self)@.len(),
        ensures
            final(self).wf(),
            final(self).capacity() == old(self).capacity(),
            final(self)@ == old(self)@.skip(length as int),
    {
        let rest = self.head - length;
        let mut i: usize = 0;
        while i < rest
            invariant
                old(self).wf(),
                length <= old(self).head,
                rest == old(self).head - length,
                self.head == old(self).head,
                self.buf@.len() == old(self).buf@.len(),
                i <= rest,
                forall|k: int| 0 <= k < i ==> self.buf@[k] == old(self).buf@[k + length],
                forall|k: int| i <= k < self.buf@.len() ==> self.buf@[k] == old(self).buf@[k],
            decreases rest - i,
        {
            let b = self.buf[i + length];
            self.buf.set(i, b);
            i = i + 1;
        }
        self.head = rest;
        assert(self@ =~= old(self)@.skip(length as int));
    }
}

} // verus!
