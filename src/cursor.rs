use vstd::prelude::*;

verus! {

/// The stream ended where a byte was still required.
#[derive(Clone, Copy, Debug, PartialEq, Eq, Structural)]
pub struct Truncated {
    /// The offset of the byte that was missing (the length of the stream).
    pub offset: usize,
}

/// A sequential, single-pass reader over a byte buffer.
pub struct ByteCursor<'a> {
    bytes: &'a [u8],
    pos: usize,
}

impl<'a> ByteCursor<'a> {
    /// The bytes being read.
    pub closed spec fn data(&self) -> Seq<u8> {
        self.bytes@
    }

    /// The offset of the next byte to read.
    pub closed spec fn pos(&self) -> int {
        self.pos as int
    }

    /// The position lies within the buffer or just past its end.
    pub open spec fn wf(&self) -> bool {
        0 <= self.pos() <= self.data().len() <= usize::MAX
    }

    /// A cursor at the start of `bytes`.
    pub fn new(bytes: &'a [u8]) -> (r: ByteCursor<'a>)
        ensures
            r.wf(),
            r.data() == bytes@,
            r.pos() == 0,
    {
        assert(bytes@.len() == bytes.len());
        ByteCursor { bytes, pos: 0 }
    }

    /// The offset of the next byte to read.
    pub fn position(&self) -> (r: usize)
        requires
            self.wf(),
        ensures
            r == self.pos(),
            r <= self.data().len(),
    {
        self.pos
    }

    /// Whether a byte is left to read.
    pub fn has_next(&self) -> (r: bool)
        requires
            self.wf(),
        ensures
            r == (self.pos() < self.data().len()),
    {
        self.pos < self.bytes.len()
    }

    /// Reads the next byte and advances past it; fails, without moving, at
    /// the end of the stream.
    pub fn next_byte(&mut self) -> (r: Result<u8, Truncated>)
        requires
            old(self).wf(),
        ensures
            final(self).wf(),
            final(self).data() == old(self).data(),
            old(self).pos() < old(self).data().len() ==> r == Ok::<u8, Truncated>(
                old(self).data()[old(self).pos()],
            ) && final(self).pos() == old(self).pos() + 1,
            old(self).pos() >= old(self).data().len() ==> r == Err::<u8, Truncated>(
                Truncated { offset: old(self).data().len() as usize },
            ) && final(self).pos() == old(self).pos(),
    {
        if self.pos < self.bytes.len() {
            let b = self.bytes[self.pos];
            self.pos = self.pos + 1;
            Ok(b)
        } else {
            Err(Truncated { offset: self.bytes.len() })
        }
    }
}

} // verus!
