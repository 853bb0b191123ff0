//! Big-endian integers on the wire, and a cursor over a byte frame.
use byteorder::ByteOrder;
use vstd::prelude::*;

verus! {

/// The unsigned value of the two bytes at `p`, most significant first.
pub open spec fn be_u16_at(data: Seq<u8>, p: int) -> int {
    data[p] as int * 0x100 + data[p + 1] as int
}

/// The two bytes at `p` read as a big-endian two's-complement integer.
pub open spec fn be_i16_at(data: Seq<u8>, p: int) -> int {
    let u: int = be_u16_at(data, p);
    if u >= 0x8000 {
        u - 0x1_0000
    } else {
        u
    }
}

/// The unsigned value of the four bytes at `p`, most significant first.
pub open spec fn be_u32_at(data: Seq<u8>, p: int) -> int {
    ((data[p] as int * 0x100 + data[p + 1] as int) * 0x100 + data[p + 2] as int) * 0x100 + data[p
        + 3] as int
}

/// The four bytes at `p` read as a big-endian two's-complement integer.
pub open spec fn be_i32_at(data: Seq<u8>, p: int) -> int {
    let u: int = be_u32_at(data, p);
    if u >= 0x8000_0000 {
        u - 0x1_0000_0000
    } else {
        u
    }
}

/// The 16-bit field at `p`, or 0 when the frame ends before the field does.
pub open spec fn i16_field(data: Seq<u8>, p: int) -> i16 {
    if 0 <= p && p + 2 <= data.len() {
        be_i16_at(data, p) as i16
    } else {
        0
    }
}

/// The 32-bit field at `p`, or 0 when the frame ends before the field does.
pub open spec fn i32_field(data: Seq<u8>, p: int) -> i32 {
    if 0 <= p && p + 4 <= data.len() {
        be_i32_at(data, p) as i32
    } else {
        0
    }
}

/// Where a cursor that started at `start <= len` stands after `k` bytes of
/// reads that all stop at the end of the frame: every failed read leaves the
/// cursor at the end.
pub open spec fn cursor_after(len: int, start: int, k: int) -> int {
    if start + k <= len {
        start + k
    } else {
        len
    }
}

/// `byteorder::BigEndian::read_i16` on the two bytes at `pos`: their
/// big-endian two's-complement value.
#[verifier::external_body]
fn be_read_i16(data: &[u8], pos: usize) -> (v: i16)
    requires
        pos + 2 <= data@.len(),
    ensures
        v as int == be_i16_at(data@, pos as int),
{
    byteorder::BigEndian::read_i16(&data[pos..])
}

/// `byteorder::BigEndian::read_i32` on the four bytes at `pos`: their
/// big-endian two's-complement value.
#[verifier::external_body]
fn be_read_i32(data: &[u8], pos: usize) -> (v: i32)
    requires
        pos + 4 <= data@.len(),
    ensures
        v as int == be_i32_at(data@, pos as int),
{
    byteorder::BigEndian::read_i32(&data[pos..])
}

/// A read position over a frame. A read that would run past the end fails and
/// leaves the position at the end of the frame; the position never passes
/// the end.
pub(crate) struct FrameReader<'a> {
    pub(crate) data: &'a [u8],
    pub(crate) pos: usize,
}

impl<'a> FrameReader<'a> {
    pub(crate) open spec fn wf(&self) -> bool {
        self.pos <= self.data@.len()
    }

    pub(crate) fn new(data: &'a [u8]) -> (r: Self)
        ensures
            r.data@ == data@,
            r.pos == 0,
            r.wf(),
    {
        FrameReader { data, pos: 0 }
    }

    pub(crate) fn position(&self) -> (p: usize)
        ensures
            p == self.pos,
    {
        self.pos
    }

    /// Moves to `target`, or to the end of the frame where `target` lies
    /// beyond it.
    pub(crate) fn set_position(&mut self, target: usize)
        requires
            old(self).wf(),
        ensures
            final(self).wf(),
            final(self).data@ == old(self).data@,
            final(self).pos == if target <= old(self).data@.len() {
                target as int
            } else {
                old(self).data@.len() as int
            },
    {
        if target <= self.data.len() {
            self.pos = target;
        } else {
            self.pos = self.data.len();
        }
    }

    pub(crate) fn read_u8(&mut self) -> (r: Option<u8>)
        requires
            old(self).wf(),
        ensures
            final(self).wf(),
            final(self).data@ == old(self).data@,
            final(self).pos == cursor_after(old(self).data@.len() as int, old(self).pos as int, 1),
            old(self).pos + 1 <= old(self).data@.len() ==> r == Some(
                old(self).data@[old(self).pos as int],
            ),
            old(self).pos + 1 > old(self).data@.len() ==> r is None,
    {
        if self.pos < self.data.len() {
            let b: u8 = self.data[self.pos];
            self.pos = self.pos + 1;
            Some(b)
        } else {
            self.pos = self.data.len();
            None
        }
    }

    pub(crate) fn read_i16(&mut self) -> (r: Option<i16>)
        requires
            old(self).wf(),
        ensures
            final(self).wf(),
            final(self).data@ == old(self).data@,
            final(self).pos == cursor_after(old(self).data@.len() as int, old(self).pos as int, 2),
            old(self).pos + 2 <= old(self).data@.len() ==> (r matches Some(v) && v as int
                == be_i16_at(old(self).data@, old(self).pos as int)),
            old(self).pos + 2 > old(self).data@.len() ==> r is None,
    {
        if self.data.len() - self.pos >= 2 {
            let v: i16 = be_read_i16(self.data, self.pos);
            self.pos = self.pos + 2;
            Some(v)
        } else {
            self.pos = self.data.len();
            None
        }
    }

    pub(crate) fn read_i32(&mut self) -> (r: Option<i32>)
        requires
            old(self).wf(),
        ensures
            final(self).wf(),
            final(self).data@ == old(self).data@,
            final(self).pos == cursor_after(old(self).data@.len() as int, old(self).pos as int, 4),
            old(self).pos + 4 <= old(self).data@.len() ==> (r matches Some(v) && v as int
                == be_i32_at(old(self).data@, old(self).pos as int)),
            old(self).pos + 4 > old(self).data@.len() ==> r is None,
    {
        if self.data.len() - self.pos >= 4 {
            let v: i32 = be_read_i32(self.data, self.pos);
            self.pos = self.pos + 4;
            Some(v)
        } else {
            self.pos = self.data.len();
            None
        }
    }
}

} // verus!
