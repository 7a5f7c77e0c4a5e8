//! Support code for the Longan Nano board (GD32VF103): a driver for esp-at Wi-Fi modules on a
//! serial link, the ADC's configuration, and a text writer into a fixed byte buffer.
use vstd::prelude::*;
use vstd::string::StringSliceAdditionalSpecFns;

pub mod adc;
pub mod bytes;
pub mod esp_at;
pub mod response;

verus! {

/// A writer of text into a byte buffer that it borrows: what does not fit is dropped.
pub struct ByteMutWriter<'a> {
    buf: &'a mut [u8],
    cursor: usize,
}

impl<'a> ByteMutWriter<'a> {
    /// The bytes written so far.
    pub closed spec fn written(&self) -> Seq<u8> {
        self.buf@.take(self.cursor as int)
    }

    pub closed spec fn spec_capacity(&self) -> nat {
        self.buf@.len()
    }

    pub closed spec fn wf(&self) -> bool {
        self.cursor <= self.buf@.len()
    }

    pub fn new(buf: &'a mut [u8]) -> (r: Self)
        ensures
            r.wf(),
            r.written() == Seq::<u8>::empty(),
            r.spec_capacity() == old(buf)@.len(),
    {
        ByteMutWriter { buf, cursor: 0 }
    }

    pub fn capacity(&self) -> (r: usize)
        requires
            self.wf(),
        ensures
            r == self.spec_capacity(),
    {
        self.buf.len()
    }

    /// Forgets what was written.
    pub fn clear(&mut self)
        requires
            old(self).wf(),
        ensures
            final(self).wf(),
            final(self).written() == Seq::<u8>::empty(),
            final(self).spec_capacity() == old(self).spec_capacity(),
    {
        self.cursor = 0;
    }

    pub fn len(&self) -> (r: usize)
        requires
            self.wf(),
        ensures
            r == self.written().len(),
    {
        self.cursor
    }

    pub fn empty(&self) -> (r: bool)
        requires
            self.wf(),
        ensures
            r == (self.written().len() == 0),
    {
        self.cursor == 0
    }

    pub fn full(&self) -> (r: bool)
        requires
            self.wf(),
        ensures
            r == (self.written().len() == self.spec_capacity()),
    {
        self.buf.len() == self.cursor
    }

    /// Appends the bytes of `s`, as many as there is room for.
    pub fn write_str(&mut self, s: &str)
        requires
            old(self).wf(),
        ensures
            final(self).wf(),
            final(self).spec_capacity() == old(self).spec_capacity(),
            final(self).written() == (old(self).written() + s.spec_bytes()).take(
                vstd::math::min(
                    old(self).spec_capacity() as int,
                    (old(self).written().len() + s.spec_bytes().len()) as int,
                ),
            ),
    {
        let bytes = s.as_bytes();
        let start = self.cursor;
        let cap = self.buf.len();
        let room = cap - start;
        let n = if bytes.len() < room {
            bytes.len()
        } else {
            room
        };
        let ghost before = self.buf@;
        let mut i: usize = 0;
        while i < n
            invariant
                n <= bytes@.len(),
                start + n <= cap,
                self.buf@.len() == cap,
                before.len() == cap,
                self.cursor == start,
                i <= n,
                forall|k: int| 0 <= k < start ==> self.buf@[k] == before[k],
                forall|k: int| 0 <= k < i ==> self.buf@[start + k] == bytes@[k],
            decreases n - i,
        {
            self.buf[start + i] = bytes[i];
            i += 1;
        }
        self.cursor = start + n;
        proof {
            assert(self.buf@.take(self.cursor as int) =~= (before.take(start as int)
                + bytes@).take(start + n));
        }
    }
}

} // verus!
