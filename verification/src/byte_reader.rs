use vstd::prelude::*;

use crate::error::Error;

verus! {

/// A stream of bytes that decoders consume from the front.
///
/// Its view is the sequence of bytes not yet read.
pub struct ByteReader {
    data: Vec<u8>,
    pos: usize,
}

impl View for ByteReader {
    type V = Seq<u8>;

    closed spec fn view(&self) -> Seq<u8> {
        self.data@.subrange(self.pos as int, self.data@.len() as int)
    }
}

impl ByteReader {
    #[verifier::type_invariant]
    spec fn inv(self) -> bool {
        self.pos <= self.data@.len()
    }

    /// A stream that yields the given bytes, in order.
    pub fn new(data: Vec<u8>) -> (r: ByteReader)
        ensures
            r@ == data@,
    {
        ByteReader { data, pos: 0 }
    }

    /// The number of bytes not yet read.
    pub fn remaining(&self) -> (n: usize)
        ensures
            n == self@.len(),
    {
        proof { use_type_invariant(self); }
        self.data.len() - self.pos
    }

    /// Reads one byte; fails, consuming nothing, at the end of the stream.
    pub fn read_byte(&mut self) -> (res: Result<u8, Error>)
        ensures
            old(self)@.len() == 0 ==> res == Err::<u8, Error>(Error::UnexpectedEof) && final(self)@ == old(self)@,
            old(self)@.len() > 0 ==> res == Ok::<u8, Error>(old(self)@[0]) && final(self)@ == old(self)@.drop_first(),
    {
        proof { use_type_invariant(&*self); }
        if self.pos < self.data.len() {
            let b = self.data[self.pos];
            self.pos = self.pos + 1;
            assert(self@ =~= old(self)@.drop_first());
            Ok(b)
        } else {
            Err(Error::UnexpectedEof)
        }
    }

    /// Reads exactly `n` bytes; fails, consuming nothing, when fewer remain.
    pub fn read_exact(&mut self, n: usize) -> (res: Result<Vec<u8>, Error>)
        ensures
            n > old(self)@.len() ==> res is Err && res->Err_0 == Error::UnexpectedEof && final(self)@ == old(self)@,
            n <= old(self)@.len() ==> res is Ok && res->Ok_0@ == old(self)@.take(n as int)
                && final(self)@ == old(self)@.skip(n as int),
    {
        proof { use_type_invariant(&*self); }
        if n > self.data.len() - self.pos {
            return Err(Error::UnexpectedEof);
        }
        let mut out: Vec<u8> = Vec::new();
        let start = self.pos;
        let mut i: usize = 0;
        while i < n
            invariant
                start == old(self).pos,
                self.data == old(self).data,
                self.pos == start,
                start + n <= self.data.len(),
                i <= n,
                out@ == self.data@.subrange(start as int, start + i),
            decreases n - i,
        {
            out.push(self.data[start + i]);
            i = i + 1;
            assert(out@ =~= self.data@.subrange(start as int, start + i));
        }
        self.pos = start + n;
        assert(out@ =~= old(self)@.take(n as int));
        assert(self@ =~= old(self)@.skip(n as int));
        Ok(out)
    }
}

} // verus!
