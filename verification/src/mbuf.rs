//! The packet buffer descriptor.
//!
//! An `MBuf` is a fixed-capacity byte buffer holding one single-segment
//! packet.  `data_off` is the headroom before the live data, `data_len` the
//! live byte count, and `pkt_len` the logical packet length, always equal to
//! `data_len` for single-segment packets.  Growing at the front consumes
//! headroom; growing at the back consumes tailroom.

use vstd::prelude::*;

verus! {

/// Fixed capacity of every buffer, in bytes.
pub const MAX_MBUF_SIZE: u16 = 2048;

/// A single-segment packet buffer.
pub struct MBuf {
    pub data_off: u16,
    pub buf_len: u16,
    pub data_len: u16,
    pub pkt_len: u32,
    pub buf: Vec<u8>,
}

impl MBuf {
    /// The buffer invariant: the live region fits in the backing storage and
    /// the logical packet length equals the live data length.
    pub open spec fn wf(&self) -> bool {
        &&& self.buf@.len() == self.buf_len
        &&& self.buf_len == MAX_MBUF_SIZE
        &&& self.data_off + self.data_len <= self.buf_len
        &&& self.pkt_len == self.data_len
    }

    /// The live packet bytes.
    pub open spec fn bytes(&self) -> Seq<u8> {
        self.buf@.subrange(self.data_off as int, self.data_off + self.data_len)
    }

    /// Headroom before the live data.
    pub open spec fn headroom(&self) -> int {
        self.data_off as int
    }

    /// Tailroom after the live data.
    pub open spec fn tailroom(&self) -> int {
        self.buf_len - self.data_off - self.data_len
    }

    /// The live data, headroom and tailroom together always make up the
    /// fixed capacity.
    pub proof fn lemma_room(&self)
        requires
            self.wf(),
        ensures
            self.bytes().len() + self.headroom() + self.tailroom() == MAX_MBUF_SIZE,
            self.headroom() >= 0,
            self.tailroom() >= 0,
    {
    }

    /// A fresh zero-filled buffer holding `pkt_len` live bytes at offset 0.
    pub fn new(pkt_len: u32) -> (r: MBuf)
        requires
            pkt_len <= MAX_MBUF_SIZE as u32,
        ensures
            r.wf(),
            r.headroom() == 0,
            r.bytes() == Seq::<u8>::new(pkt_len as nat, |i: int| 0u8),
            r.buf@ == Seq::<u8>::new(MAX_MBUF_SIZE as nat, |i: int| 0u8),
    {
        let mut buf: Vec<u8> = Vec::new();
        let mut i: usize = 0;
        while i < MAX_MBUF_SIZE as usize
            invariant
                i <= MAX_MBUF_SIZE,
                buf@ == Seq::<u8>::new(i as nat, |j: int| 0u8),
            decreases MAX_MBUF_SIZE - i,
        {
            buf.push(0);
            proof {
                assert(buf@ =~= Seq::<u8>::new((i + 1) as nat, |j: int| 0u8));
            }
            i = i + 1;
        }
        let r = MBuf { data_off: 0, buf_len: MAX_MBUF_SIZE, data_len: pkt_len as u16, pkt_len, buf };
        proof {
            assert(r.bytes() =~= Seq::<u8>::new(pkt_len as nat, |i: int| 0u8));
        }
        r
    }

    /// Total capacity of the buffer.
    pub fn buf_len(&self) -> (r: usize)
        requires
            self.wf(),
        ensures
            r == MAX_MBUF_SIZE,
    {
        self.buf_len as usize
    }

    /// Length of the live data.
    pub fn data_len(&self) -> (r: usize)
        requires
            self.wf(),
        ensures
            r == self.bytes().len(),
    {
        self.data_len as usize
    }

    /// Logical packet length; equals `data_len` for single-segment packets.
    pub fn pkt_len(&self) -> (r: usize)
        requires
            self.wf(),
        ensures
            r == self.bytes().len(),
    {
        self.pkt_len as usize
    }

    /// Headroom before the live data.
    fn pkt_headroom(&self) -> (r: usize)
        requires
            self.wf(),
        ensures
            r == self.headroom(),
    {
        self.data_off as usize
    }

    /// Tailroom after the live data.
    fn pkt_tailroom(&self) -> (r: usize)
        requires
            self.wf(),
        ensures
            r == self.tailroom(),
    {
        self.buf_len as usize - self.data_off as usize - self.data_len as usize
    }

    /// Read the live byte at `i`.
    pub fn get_data(&self, i: usize) -> (r: u8)
        requires
            self.wf(),
            i < self.bytes().len(),
        ensures
            r == self.bytes()[i as int],
    {
        self.buf[self.data_off as usize + i]
    }

    /// Overwrite the live byte at `i`.
    pub fn set_data(&mut self, i: usize, v: u8)
        requires
            old(self).wf(),
            i < old(self).bytes().len(),
        ensures
            final(self).wf(),
            final(self).bytes() == old(self).bytes().update(i as int, v),
            final(self).headroom() == old(self).headroom(),
            final(self).tailroom() == old(self).tailroom(),
    {
        let idx: usize = self.data_off as usize + i;
        self.buf.set(idx, v);
        proof {
            assert(self.bytes() =~= old(self).bytes().update(i as int, v));
        }
    }

    /// Grow the live data at the front by `len` bytes, taken from headroom.
    /// Returns `len` on success; returns 0 and leaves the buffer unchanged
    /// when the headroom is exhausted.  The uncovered bytes are whatever the
    /// headroom held.
    pub fn add_data_beginning(&mut self, len: usize) -> (r: usize)
        requires
            old(self).wf(),
        ensures
            final(self).wf(),
            len > old(self).headroom() ==> r == 0 && *final(self) == *old(self),
            len <= old(self).headroom() ==> {
                &&& r == len
                &&& final(self).bytes().len() == old(self).bytes().len() + len
                &&& final(self).bytes().skip(len as int) == old(self).bytes()
                &&& final(self).headroom() == old(self).headroom() - len
                &&& final(self).tailroom() == old(self).tailroom()
            },
            final(self).buf@ == old(self).buf@,
    {
        if len > self.pkt_headroom() {
            0
        } else {
            self.data_off = self.data_off - len as u16;
            self.data_len = self.data_len + len as u16;
            self.pkt_len = self.pkt_len + len as u32;
            proof {
                assert(self.bytes().skip(len as int) =~= old(self).bytes());
            }
            len
        }
    }

    /// Grow the live data at the back by `len` bytes, taken from tailroom.
    /// Returns `len` on success; returns 0 and leaves the buffer unchanged
    /// when the tailroom is exhausted.  The uncovered bytes are whatever the
    /// tailroom held.
    pub fn add_data_end(&mut self, len: usize) -> (r: usize)
        requires
            old(self).wf(),
        ensures
            final(self).wf(),
            len > old(self).tailroom() ==> r == 0 && *final(self) == *old(self),
            len <= old(self).tailroom() ==> {
                &&& r == len
                &&& final(self).bytes().len() == old(self).bytes().len() + len
                &&& final(self).bytes().take(old(self).bytes().len() as int) == old(self).bytes()
                &&& final(self).headroom() == old(self).headroom()
                &&& final(self).tailroom() == old(self).tailroom() - len
            },
            final(self).buf@ == old(self).buf@,
    {
        if len > self.pkt_tailroom() {
            0
        } else {
            self.data_len = self.data_len + len as u16;
            self.pkt_len = self.pkt_len + len as u32;
            proof {
                assert(self.bytes().take(old(self).bytes().len() as int) =~= old(self).bytes());
            }
            len
        }
    }

    /// Shrink the live data at the front by `len` bytes, returning them to
    /// headroom.  Returns `len` on success; returns 0 and leaves the buffer
    /// unchanged when `len` exceeds the live data.
    pub fn remove_data_beginning(&mut self, len: usize) -> (r: usize)
        requires
            old(self).wf(),
        ensures
            final(self).wf(),
            len > old(self).bytes().len() ==> r == 0 && *final(self) == *old(self),
            len <= old(self).bytes().len() ==> {
                &&& r == len
                &&& final(self).bytes() == old(self).bytes().skip(len as int)
                &&& final(self).headroom() == old(self).headroom() + len
                &&& final(self).tailroom() == old(self).tailroom()
            },
            final(self).buf@ == old(self).buf@,
    {
        if len > self.data_len() {
            0
        } else {
            self.data_off = self.data_off + len as u16;
            self.data_len = self.data_len - len as u16;
            self.pkt_len = self.pkt_len - len as u32;
            proof {
                assert(self.bytes() =~= old(self).bytes().skip(len as int));
            }
            len
        }
    }

    /// Shrink the live data at the back by `len` bytes, returning them to
    /// tailroom.  Returns `len` on success; returns 0 and leaves the buffer
    /// unchanged when `len` exceeds the live data.
    pub fn remove_data_end(&mut self, len: usize) -> (r: usize)
        requires
            old(self).wf(),
        ensures
            final(self).wf(),
            len > old(self).bytes().len() ==> r == 0 && *final(self) == *old(self),
            len <= old(self).bytes().len() ==> {
                &&& r == len
                &&& final(self).bytes() == old(self).bytes().take(
                    old(self).bytes().len() - len as int,
                )
                &&& final(self).headroom() == old(self).headroom()
                &&& final(self).tailroom() == old(self).tailroom() + len
            },
            final(self).buf@ == old(self).buf@,
    {
        if len > self.data_len() {
            0
        } else {
            self.data_len = self.data_len - len as u16;
            self.pkt_len = self.pkt_len - len as u32;
            proof {
                assert(self.bytes() =~= old(self).bytes().take(
                    old(self).bytes().len() - len as int,
                ));
            }
            len
        }
    }
}

/// Return a batch of buffers to the free pool.  The pool is owned by the
/// driver; from the framework's point of view freeing a batch just consumes
/// the vector.
pub fn mbuf_free_bulk(mbufs: &mut Vec<MBuf>) -> (r: i32)
    ensures
        final(mbufs)@.len() == 0,
        r == 0,
{
    mbufs.clear();
    0
}

} // verus!
