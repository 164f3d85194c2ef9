//! Encode sink and decode source. The sink appends to an in-memory byte
//! buffer; the source walks a byte buffer with a read cursor. The primitive
//! fixed-width and raw-buffer codecs live here as methods with exact byte
//! contracts.

use vstd::prelude::*;
use crate::align::pad_len;
use crate::wire::{u16_le, u16_of, zeros};

verus! {

/// Byte sink that an encode call appends to.
pub struct NlSerState {
    buf: Vec<u8>,
}

impl View for NlSerState {
    type V = Seq<u8>;

    closed spec fn view(&self) -> Seq<u8> {
        self.buf@
    }
}

impl NlSerState {
    /// Fresh, empty sink.
    pub fn new() -> (r: NlSerState)
        ensures
            r@ == Seq::<u8>::empty(),
    {
        NlSerState { buf: Vec::new() }
    }

    /// The bytes written so far, surrendering the sink.
    pub fn into_inner(self) -> (r: Vec<u8>)
        ensures
            r@ == self@,
    {
        self.buf
    }

    /// Append one byte.
    pub fn put_u8(&mut self, v: u8)
        ensures
            final(self)@ == old(self)@.push(v),
    {
        self.buf.push(v);
    }

    /// Append a 16-bit field, least significant byte first.
    pub fn put_u16(&mut self, v: u16)
        ensures
            final(self)@ == old(self)@ + u16_le(v),
    {
        self.buf.push((v % 256) as u8);
        self.buf.push((v / 256) as u8);
        assert(final(self)@ =~= old(self)@ + u16_le(v));
    }

    /// Append raw bytes followed by zero padding up to the next 4-byte
    /// boundary of the byte count written for this value.
    pub fn put_bytes_padded(&mut self, bytes: &Vec<u8>)
        ensures
            final(self)@ == old(self)@ + bytes@ + zeros(pad_len(bytes@.len() as int)),
    {
        let n = bytes.len();
        let mut i: usize = 0;
        while i < n
            invariant
                i <= n,
                n == bytes@.len(),
                self@ == old(self)@ + bytes@.subrange(0, i as int),
            decreases n - i,
        {
            self.buf.push(bytes[i]);
            i = i + 1;
            assert(self@ =~= old(self)@ + bytes@.subrange(0, i as int));
        }
        assert(bytes@.subrange(0, n as int) =~= bytes@);
        let pad: usize = (4 - (n % 4)) % 4;
        assert(pad as int == pad_len(bytes@.len() as int));
        let mut j: usize = 0;
        while j < pad
            invariant
                j <= pad,
                self@ == old(self)@ + bytes@ + zeros(j as int),
            decreases pad - j,
        {
            self.buf.push(0);
            j = j + 1;
            assert(self@ =~= old(self)@ + bytes@ + zeros(j as int));
        }
    }
}

/// Byte source that a decode call reads from: the full input and a cursor.
pub struct NlDeState {
    buf: Vec<u8>,
    pos: usize,
}

impl NlDeState {
    /// The whole input handed to `new`; never changed by reads.
    pub closed spec fn bytes(&self) -> Seq<u8> {
        self.buf@
    }

    /// The read cursor.
    pub closed spec fn pos(&self) -> int {
        self.pos as int
    }

    /// The cursor never passes the end of the input.
    pub open spec fn wf(&self) -> bool {
        0 <= self.pos() <= self.bytes().len()
    }

    /// The bytes not yet consumed.
    pub open spec fn remaining(&self) -> Seq<u8> {
        self.bytes().subrange(self.pos(), self.bytes().len() as int)
    }

    /// Fresh source over a copy of `bytes`, cursor at the start.
    pub fn new(bytes: &[u8]) -> (r: NlDeState)
        ensures
            r.bytes() == bytes@,
            r.pos() == 0,
            r.wf(),
    {
        NlDeState { buf: vstd::slice::slice_to_vec(bytes), pos: 0 }
    }

    /// Current cursor position.
    pub fn position(&self) -> (r: usize)
        ensures
            r as int == self.pos(),
    {
        self.pos
    }

    /// Length of the whole input.
    pub fn len(&self) -> (r: usize)
        ensures
            r as int == self.bytes().len(),
    {
        self.buf.len()
    }

    /// Read one byte; `None` when the input is exhausted, cursor unchanged.
    pub fn take_u8(&mut self) -> (r: Option<u8>)
        requires
            old(self).wf(),
        ensures
            final(self).bytes() == old(self).bytes(),
            final(self).wf(),
            old(self).remaining().len() >= 1 ==> {
                &&& r == Some(old(self).remaining()[0])
                &&& final(self).pos() == old(self).pos() + 1
            },
            old(self).remaining().len() < 1 ==> {
                &&& r is None
                &&& final(self).pos() == old(self).pos()
            },
    {
        if self.pos < self.buf.len() {
            let b = self.buf[self.pos];
            self.pos = self.pos + 1;
            Some(b)
        } else {
            None
        }
    }

    /// Read a 16-bit field, least significant byte first; `None` when fewer
    /// than 2 bytes remain, cursor unchanged.
    pub fn take_u16(&mut self) -> (r: Option<u16>)
        requires
            old(self).wf(),
        ensures
            final(self).bytes() == old(self).bytes(),
            final(self).wf(),
            old(self).remaining().len() >= 2 ==> {
                &&& r == Some(u16_of(old(self).remaining()[0], old(self).remaining()[1]))
                &&& final(self).pos() == old(self).pos() + 2
            },
            old(self).remaining().len() < 2 ==> {
                &&& r is None
                &&& final(self).pos() == old(self).pos()
            },
    {
        if self.buf.len() - self.pos >= 2 {
            let lo = self.buf[self.pos];
            let hi = self.buf[self.pos + 1];
            self.pos = self.pos + 2;
            Some(lo as u16 + 256 * (hi as u16))
        } else {
            None
        }
    }

    /// Read exactly `n` bytes; `None` when fewer than `n` remain, cursor
    /// unchanged.
    pub fn take_bytes(&mut self, n: usize) -> (r: Option<Vec<u8>>)
        requires
            old(self).wf(),
        ensures
            final(self).bytes() == old(self).bytes(),
            final(self).wf(),
            old(self).remaining().len() >= n ==> {
                &&& r matches Some(v) && v@ == old(self).remaining().subrange(0, n as int)
                &&& final(self).pos() == old(self).pos() + n
            },
            old(self).remaining().len() < n ==> {
                &&& r is None
                &&& final(self).pos() == old(self).pos()
            },
    {
        if n <= self.buf.len() - self.pos {
            let end: usize = self.pos + n;
            let mut out: Vec<u8> = Vec::new();
            let mut j: usize = self.pos;
            while j < end
                invariant
                    self.pos <= j <= end,
                    end as int == self.pos as int + n as int,
                    end <= self.buf@.len(),
                    out@ == self.buf@.subrange(self.pos as int, j as int),
                decreases end - j,
            {
                out.push(self.buf[j]);
                j = j + 1;
                assert(out@ =~= self.buf@.subrange(self.pos as int, j as int));
            }
            assert(out@ =~= old(self).remaining().subrange(0, n as int));
            self.pos = self.pos + n;
            Some(out)
        } else {
            None
        }
    }
}

} // verus!
