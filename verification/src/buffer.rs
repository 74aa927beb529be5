//! Buffer edit primitives for the packet parse layer.
//!
//! All reads and writes are big-endian (network order) and are specified
//! against the live byte sequence of the buffer.  `alloc` opens a gap by
//! shifting trailing bytes towards the tail; `dealloc` closes one by
//! shifting them back; zero-length calls are no-ops.

use vstd::prelude::*;

verus! {

use crate::mbuf::MBuf;

/// Errors of the buffer edit primitives.
#[derive(Debug, PartialEq, Eq, Structural)]
pub enum BufferError {
    /// Failed to allocate a new buffer.
    FailAlloc,
    /// The offset lies beyond the live data.
    BadOffset(usize),
    /// Head/tail room was exhausted while resizing.
    NotResized,
    /// The item is larger than the live data that remains at the offset.
    OutOfBuffer(usize),
}

/// The 16-bit big-endian value stored at `off`.
pub open spec fn be16(b: Seq<u8>, off: int) -> u16 {
    (b[off] * 256 + b[off + 1]) as u16
}

/// The 32-bit big-endian value stored at `off`.
pub open spec fn be32(b: Seq<u8>, off: int) -> u32 {
    (b[off] * 0x1000000 + b[off + 1] * 0x10000 + b[off + 2] * 0x100 + b[off + 3]) as u32
}

/// Read the byte at `offset`.
pub fn read_u8(mbuf: &MBuf, offset: usize) -> (r: Result<u8, BufferError>)
    requires
        mbuf.wf(),
    ensures
        match r {
            Ok(v) => offset < mbuf.bytes().len() && v == mbuf.bytes()[offset as int],
            Err(e) => offset >= mbuf.bytes().len() && e == (BufferError::OutOfBuffer(1usize)),
        },
{
    if offset < mbuf.data_len() {
        Ok(mbuf.get_data(offset))
    } else {
        Err(BufferError::OutOfBuffer(1))
    }
}

/// Read the 16-bit big-endian value at `offset`.
pub fn read_u16(mbuf: &MBuf, offset: usize) -> (r: Result<u16, BufferError>)
    requires
        mbuf.wf(),
    ensures
        match r {
            Ok(v) => offset + 2 <= mbuf.bytes().len() && v == be16(mbuf.bytes(), offset as int),
            Err(e) => offset + 2 > mbuf.bytes().len() && e == (BufferError::OutOfBuffer(2usize)),
        },
{
    if offset < mbuf.data_len() && 2 <= mbuf.data_len() - offset {
        let hi = mbuf.get_data(offset);
        let lo = mbuf.get_data(offset + 1);
        Ok((hi as u16) * 256 + (lo as u16))
    } else {
        Err(BufferError::OutOfBuffer(2))
    }
}

/// Read the 32-bit big-endian value at `offset`.
pub fn read_u32(mbuf: &MBuf, offset: usize) -> (r: Result<u32, BufferError>)
    requires
        mbuf.wf(),
    ensures
        match r {
            Ok(v) => offset + 4 <= mbuf.bytes().len() && v == be32(mbuf.bytes(), offset as int),
            Err(e) => offset + 4 > mbuf.bytes().len() && e == (BufferError::OutOfBuffer(4usize)),
        },
{
    if offset < mbuf.data_len() && 4 <= mbuf.data_len() - offset {
        let b0 = mbuf.get_data(offset);
        let b1 = mbuf.get_data(offset + 1);
        let b2 = mbuf.get_data(offset + 2);
        let b3 = mbuf.get_data(offset + 3);
        Ok((b0 as u32) * 0x1000000 + (b1 as u32) * 0x10000 + (b2 as u32) * 0x100 + (b3 as u32))
    } else {
        Err(BufferError::OutOfBuffer(4))
    }
}

/// Write the byte `v` at `offset`.
pub fn write_u8(mbuf: &mut MBuf, offset: usize, v: u8) -> (r: Result<(), BufferError>)
    requires
        old(mbuf).wf(),
    ensures
        final(mbuf).wf(),
        match r {
            Ok(()) => {
                &&& offset < old(mbuf).bytes().len()
                &&& final(mbuf).bytes() == old(mbuf).bytes().update(offset as int, v)
                &&& final(mbuf).headroom() == old(mbuf).headroom()
            },
            Err(e) => {
                &&& offset >= old(mbuf).bytes().len()
                &&& e == (BufferError::BadOffset(offset))
                &&& *final(mbuf) == *old(mbuf)
            },
        },
{
    if offset < mbuf.data_len() {
        mbuf.set_data(offset, v);
        Ok(())
    } else {
        Err(BufferError::BadOffset(offset))
    }
}

/// Write the 16-bit value `v` at `offset` in big-endian order.
pub fn write_u16(mbuf: &mut MBuf, offset: usize, v: u16) -> (r: Result<(), BufferError>)
    requires
        old(mbuf).wf(),
    ensures
        final(mbuf).wf(),
        match r {
            Ok(()) => {
                &&& offset + 2 <= old(mbuf).bytes().len()
                &&& final(mbuf).bytes() == old(mbuf).bytes().update(
                    offset as int,
                    (v / 256) as u8,
                ).update(offset as int + 1, (v % 256) as u8)
                &&& be16(final(mbuf).bytes(), offset as int) == v
                &&& final(mbuf).bytes().len() == old(mbuf).bytes().len()
                &&& final(mbuf).headroom() == old(mbuf).headroom()
            },
            Err(e) => {
                &&& offset + 2 > old(mbuf).bytes().len()
                &&& e == (BufferError::BadOffset(offset))
                &&& *final(mbuf) == *old(mbuf)
            },
        },
{
    if offset < mbuf.data_len() && 2 <= mbuf.data_len() - offset {
        mbuf.set_data(offset, (v / 256) as u8);
        mbuf.set_data(offset + 1, (v % 256) as u8);
        proof {
            assert(v / 256 * 256 + v % 256 == v) by {
                vstd::arithmetic::div_mod::lemma_fundamental_div_mod(v as int, 256);
            }
        }
        Ok(())
    } else {
        Err(BufferError::BadOffset(offset))
    }
}

/// Write the 32-bit value `v` at `offset` in big-endian order.
pub fn write_u32(mbuf: &mut MBuf, offset: usize, v: u32) -> (r: Result<(), BufferError>)
    requires
        old(mbuf).wf(),
    ensures
        final(mbuf).wf(),
        match r {
            Ok(()) => {
                &&& offset + 4 <= old(mbuf).bytes().len()
                &&& final(mbuf).bytes() == old(mbuf).bytes().update(
                    offset as int,
                    (v / 0x1000000) as u8,
                ).update(offset as int + 1, (v / 0x10000 % 0x100) as u8).update(
                    offset as int + 2,
                    (v / 0x100 % 0x100) as u8,
                ).update(offset as int + 3, (v % 0x100) as u8)
                &&& be32(final(mbuf).bytes(), offset as int) == v
                &&& final(mbuf).bytes().len() == old(mbuf).bytes().len()
                &&& final(mbuf).headroom() == old(mbuf).headroom()
            },
            Err(e) => {
                &&& offset + 4 > old(mbuf).bytes().len()
                &&& e == (BufferError::BadOffset(offset))
                &&& *final(mbuf) == *old(mbuf)
            },
        },
{
    if offset < mbuf.data_len() && 4 <= mbuf.data_len() - offset {
        mbuf.set_data(offset, (v / 0x1000000) as u8);
        mbuf.set_data(offset + 1, (v / 0x10000 % 0x100) as u8);
        mbuf.set_data(offset + 2, (v / 0x100 % 0x100) as u8);
        mbuf.set_data(offset + 3, (v % 0x100) as u8);
        proof {
            assert(v / 0x1000000 * 0x1000000 + v / 0x10000 % 0x100 * 0x10000 + v / 0x100 % 0x100
                * 0x100 + v % 0x100 == v) by (bit_vector);
        }
        Ok(())
    } else {
        Err(BufferError::BadOffset(offset))
    }
}

/// Copy `len` live bytes starting at `offset` out of the buffer.
#[verifier::loop_isolation(false)]
pub fn read_slice(mbuf: &MBuf, offset: usize, len: usize) -> (r: Result<Vec<u8>, BufferError>)
    requires
        mbuf.wf(),
    ensures
        match r {
            Ok(v) => {
                &&& offset <= mbuf.bytes().len()
                &&& offset + len <= mbuf.bytes().len()
                &&& v@ == mbuf.bytes().subrange(offset as int, offset + len)
            },
            Err(e) => if offset > mbuf.bytes().len() {
                e == (BufferError::BadOffset(offset))
            } else {
                offset + len > mbuf.bytes().len() && e == (BufferError::OutOfBuffer(len))
            },
        },
{
    if offset > mbuf.data_len() {
        return Err(BufferError::BadOffset(offset));
    }
    if len > mbuf.data_len() - offset {
        return Err(BufferError::OutOfBuffer(len));
    }
    let mut out: Vec<u8> = Vec::new();
    let mut i: usize = 0;
    while i < len
        invariant
            mbuf.wf(),
            i <= len,
            offset + len <= mbuf.bytes().len(),
            out@ == mbuf.bytes().subrange(offset as int, offset + i),
        decreases len - i,
    {
        out.push(mbuf.get_data(offset + i));
        proof {
            assert(out@ =~= mbuf.bytes().subrange(offset as int, offset + i + 1));
        }
        i = i + 1;
    }
    Ok(out)
}

/// Overwrite `data.len()` live bytes starting at `offset`.
#[verifier::loop_isolation(false)]
pub fn write_slice(mbuf: &mut MBuf, offset: usize, data: &Vec<u8>) -> (r: Result<
    (),
    BufferError,
>)
    requires
        old(mbuf).wf(),
    ensures
        final(mbuf).wf(),
        match r {
            Ok(()) => {
                &&& offset + data@.len() <= old(mbuf).bytes().len()
                &&& final(mbuf).bytes().len() == old(mbuf).bytes().len()
                &&& final(mbuf).bytes().subrange(offset as int, offset + data@.len()) == data@
                &&& final(mbuf).bytes().take(offset as int) == old(mbuf).bytes().take(
                    offset as int,
                )
                &&& final(mbuf).bytes().skip(offset + data@.len()) == old(mbuf).bytes().skip(
                    offset + data@.len(),
                )
                &&& final(mbuf).headroom() == old(mbuf).headroom()
            },
            Err(e) => {
                &&& offset + data@.len() > old(mbuf).bytes().len()
                &&& e == (BufferError::BadOffset(offset))
                &&& *final(mbuf) == *old(mbuf)
            },
        },
{
    if offset > mbuf.data_len() || data.len() > mbuf.data_len() - offset {
        return Err(BufferError::BadOffset(offset));
    }
    let mut i: usize = 0;
    while i < data.len()
        invariant
            mbuf.wf(),
            i <= data@.len(),
            mbuf.bytes().len() == old(mbuf).bytes().len(),
            mbuf.headroom() == old(mbuf).headroom(),
            forall|j: int| 0 <= j < i ==> mbuf.bytes()[offset + j] == #[trigger] data@[j],
            forall|p: int|
                0 <= p < mbuf.bytes().len() && !(offset <= p < offset + i)
                    ==> #[trigger] mbuf.bytes()[p] == old(mbuf).bytes()[p],
        decreases data@.len() - i,
    {
        mbuf.set_data(offset + i, data[i]);
        i = i + 1;
    }
    proof {
        assert(mbuf.bytes().subrange(offset as int, offset + data@.len()) =~= data@);
        assert(mbuf.bytes().take(offset as int) =~= old(mbuf).bytes().take(offset as int));
        assert(mbuf.bytes().skip(offset + data@.len()) =~= old(mbuf).bytes().skip(
            offset + data@.len(),
        ));
    }
    Ok(())
}

/// Open a gap of `len` bytes at `offset` by shifting the trailing bytes
/// towards the tail.  The gap's content is unspecified; the caller writes
/// it next.
#[verifier::loop_isolation(false)]
pub fn alloc_bytes(mbuf: &mut MBuf, offset: usize, len: usize) -> (r: Result<(), BufferError>)
    requires
        old(mbuf).wf(),
    ensures
        final(mbuf).wf(),
        match r {
            Ok(()) => {
                &&& len == 0 || offset <= old(mbuf).bytes().len()
                &&& len != 0 ==> {
                    &&& len <= old(mbuf).tailroom()
                    &&& final(mbuf).bytes().len() == old(mbuf).bytes().len() + len
                    &&& final(mbuf).bytes().take(offset as int) == old(mbuf).bytes().take(
                        offset as int,
                    )
                    &&& final(mbuf).bytes().skip(offset + len) == old(mbuf).bytes().skip(
                        offset as int,
                    )
                    &&& final(mbuf).headroom() == old(mbuf).headroom()
                }
                &&& len == 0 ==> *final(mbuf) == *old(mbuf)
            },
            Err(e) => {
                &&& len != 0
                &&& *final(mbuf) == *old(mbuf)
                &&& if offset > old(mbuf).bytes().len() {
                    e == (BufferError::BadOffset(offset))
                } else {
                    len > old(mbuf).tailroom() && e == (BufferError::NotResized)
                }
            },
        },
{
    if len == 0 {
        return Ok(());
    }
    let data_len = mbuf.data_len();
    if offset > data_len {
        return Err(BufferError::BadOffset(offset));
    }
    if mbuf.add_data_end(len) == 0 {
        return Err(BufferError::NotResized);
    }
    let ghost pre = mbuf.bytes();
    let copy_len = data_len - offset;
    let mut i: usize = copy_len;
    while i > 0
        invariant
            mbuf.wf(),
            i <= copy_len,
            copy_len == data_len - offset,
            offset + len + copy_len == pre.len(),
            mbuf.bytes().len() == pre.len(),
            mbuf.headroom() == old(mbuf).headroom(),
            forall|p: int|
                0 <= p < offset + len + i ==> #[trigger] mbuf.bytes()[p] == pre[p],
            forall|j: int|
                i <= j < copy_len ==> mbuf.bytes()[offset + len + j] == #[trigger] pre[offset
                    + j],
        decreases i,
    {
        proof {
            mbuf.lemma_room();
        }
        i = i - 1;
        let b = mbuf.get_data(offset + i);
        mbuf.set_data(offset + len + i, b);
    }
    proof {
        assert forall|j: int| 0 <= j < copy_len implies #[trigger] mbuf.bytes()[offset + len
            + j] == old(mbuf).bytes()[offset + j] by {
            assert(mbuf.bytes()[offset + len + j] == pre[offset + j]);
            assert(pre.take(data_len as int) == old(mbuf).bytes());
            assert(pre[offset + j] == pre.take(data_len as int)[offset + j]);
        }
        assert forall|p: int| 0 <= p < offset implies #[trigger] mbuf.bytes()[p] == old(
            mbuf,
        ).bytes()[p] by {
            assert(mbuf.bytes()[p] == pre[p]);
            assert(pre[p] == pre.take(data_len as int)[p]);
        }
        assert(mbuf.bytes().take(offset as int) =~= old(mbuf).bytes().take(offset as int));
        assert forall|j: int| 0 <= j < copy_len implies mbuf.bytes().skip(offset + len)[j]
            == old(mbuf).bytes().skip(offset as int)[j] by {
            assert(mbuf.bytes()[offset + len + j] == old(mbuf).bytes()[offset + j]);
        }
        assert(mbuf.bytes().skip(offset + len) =~= old(mbuf).bytes().skip(offset as int));
    }
    Ok(())
}

/// Close a gap of `len` bytes at `offset` by shifting the trailing bytes
/// back towards the head.
#[verifier::loop_isolation(false)]
pub fn dealloc(mbuf: &mut MBuf, offset: usize, len: usize) -> (r: Result<(), BufferError>)
    requires
        old(mbuf).wf(),
    ensures
        final(mbuf).wf(),
        match r {
            Ok(()) => {
                &&& len == 0 || offset + len <= old(mbuf).bytes().len()
                &&& len != 0 ==> {
                    &&& final(mbuf).bytes() == old(mbuf).bytes().take(offset as int) + old(
                        mbuf,
                    ).bytes().skip(offset + len)
                    &&& final(mbuf).headroom() == old(mbuf).headroom()
                }
                &&& len == 0 ==> *final(mbuf) == *old(mbuf)
            },
            Err(e) => {
                &&& len != 0
                &&& *final(mbuf) == *old(mbuf)
                &&& if offset > old(mbuf).bytes().len() {
                    e == (BufferError::BadOffset(offset))
                } else {
                    offset + len > old(mbuf).bytes().len() && e == (BufferError::NotResized)
                }
            },
        },
{
    if len == 0 {
        return Ok(());
    }
    let data_len = mbuf.data_len();
    if offset > data_len {
        return Err(BufferError::BadOffset(offset));
    }
    if len > data_len - offset {
        return Err(BufferError::NotResized);
    }
    let ghost pre = mbuf.bytes();
    let copy_len = data_len - offset - len;
    let mut i: usize = 0;
    while i < copy_len
        invariant
            mbuf.wf(),
            i <= copy_len,
            copy_len == data_len - offset - len,
            offset + len + copy_len == pre.len(),
            mbuf.bytes().len() == pre.len(),
            mbuf.headroom() == old(mbuf).headroom(),
            forall|p: int|
                0 <= p < pre.len() && !(offset <= p < offset + i) ==> #[trigger] mbuf.bytes()[p]
                    == pre[p],
            forall|j: int|
                0 <= j < i ==> mbuf.bytes()[offset + j] == #[trigger] pre[offset + len + j],
        decreases copy_len - i,
    {
        proof {
            mbuf.lemma_room();
        }
        let b = mbuf.get_data(offset + len + i);
        mbuf.set_data(offset + i, b);
        i = i + 1;
    }
    let removed = mbuf.remove_data_end(len);
    proof {
        assert(removed == len);
        let target = old(mbuf).bytes().take(offset as int) + old(mbuf).bytes().skip(offset + len);
        assert forall|p: int| 0 <= p < mbuf.bytes().len() implies #[trigger] mbuf.bytes()[p]
            == target[p] by {
            if p < offset {
                assert(mbuf.bytes()[p] == pre[p]);
            } else {
                let j = p - offset;
                assert(mbuf.bytes()[offset + j] == pre[offset + len + j]);
            }
        }
        assert(mbuf.bytes() =~= target);
    }
    Ok(())
}

/// Grow (`len > 0`) or shrink (`len < 0`) the buffer at `offset`.
pub fn realloc(mbuf: &mut MBuf, offset: usize, len: isize) -> (r: Result<(), BufferError>)
    requires
        old(mbuf).wf(),
        len > isize::MIN,
    ensures
        final(mbuf).wf(),
        len == 0 ==> r is Ok && *final(mbuf) == *old(mbuf),
        len > 0 ==> match r {
            Ok(()) => {
                &&& offset <= old(mbuf).bytes().len()
                &&& len <= old(mbuf).tailroom()
                &&& final(mbuf).bytes().len() == old(mbuf).bytes().len() + len
                &&& final(mbuf).bytes().take(offset as int) == old(mbuf).bytes().take(
                    offset as int,
                )
                &&& final(mbuf).bytes().skip(offset + len) == old(mbuf).bytes().skip(offset as int)
                &&& final(mbuf).headroom() == old(mbuf).headroom()
            },
            Err(e) => {
                &&& *final(mbuf) == *old(mbuf)
                &&& if offset > old(mbuf).bytes().len() {
                    e == (BufferError::BadOffset(offset))
                } else {
                    len > old(mbuf).tailroom() && e == (BufferError::NotResized)
                }
            },
        },
        len < 0 ==> match r {
            Ok(()) => {
                &&& offset + (-len) <= old(mbuf).bytes().len()
                &&& final(mbuf).bytes() == old(mbuf).bytes().take(offset as int) + old(
                    mbuf,
                ).bytes().skip(offset + (-len))
                &&& final(mbuf).headroom() == old(mbuf).headroom()
            },
            Err(e) => {
                &&& *final(mbuf) == *old(mbuf)
                &&& if offset > old(mbuf).bytes().len() {
                    e == (BufferError::BadOffset(offset))
                } else {
                    offset + (-len) > old(mbuf).bytes().len() && e == (BufferError::NotResized)
                }
            },
        },
{
    if len > 0 {
        alloc_bytes(mbuf, offset, len as usize)
    } else if len < 0 {
        dealloc(mbuf, offset, (-len) as usize)
    } else {
        Ok(())
    }
}

/// The two big-endian bytes of a 16-bit value.
pub open spec fn be16_bytes(v: u16) -> Seq<u8> {
    seq![(v / 256) as u8, (v % 256) as u8]
}

/// `b` with the bytes at `off .. off + repl.len()` replaced by `repl`.
pub open spec fn splice(b: Seq<u8>, off: int, repl: Seq<u8>) -> Seq<u8> {
    b.take(off) + repl + b.skip(off + repl.len())
}

/// Cut the live data down to `to_len` bytes.
pub fn trim(mbuf: &mut MBuf, to_len: usize) -> (r: Result<(), BufferError>)
    requires
        old(mbuf).wf(),
    ensures
        final(mbuf).wf(),
        match r {
            Ok(()) => {
                &&& to_len < old(mbuf).bytes().len()
                &&& final(mbuf).bytes() == old(mbuf).bytes().take(to_len as int)
                &&& final(mbuf).headroom() == old(mbuf).headroom()
            },
            Err(e) => {
                &&& to_len >= old(mbuf).bytes().len()
                &&& e == (BufferError::NotResized)
                &&& *final(mbuf) == *old(mbuf)
            },
        },
{
    let data_len = mbuf.data_len();
    if data_len > to_len {
        mbuf.remove_data_end(data_len - to_len);
        Ok(())
    } else {
        Err(BufferError::NotResized)
    }
}

} // verus!
