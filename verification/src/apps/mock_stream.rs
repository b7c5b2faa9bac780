//! A stream that lives in memory, to stand in for a connection.

use vstd::prelude::*;

verus! {

/// What a peer would send, and what was last written to it.
pub struct MockTcpStream {
    pub read_data: Vec<u8>,
    pub write_data: Vec<u8>,
}

impl MockTcpStream {
    /// Copies the start of the data to read into `buf`, as much as fits, and
    /// returns how many bytes that was. The data is not used up.
    pub fn read(&self, buf: &mut Vec<u8>) -> (size: usize)
        ensures
            size == vstd::math::min(self.read_data@.len() as int, old(buf)@.len() as int),
            final(buf)@.len() == old(buf)@.len(),
            final(buf)@.take(size as int) == self.read_data@.take(size as int),
            final(buf)@.skip(size as int) == old(buf)@.skip(size as int),
    {
        let size: usize = if self.read_data.len() < buf.len() {
            self.read_data.len()
        } else {
            buf.len()
        };
        let mut i: usize = 0;
        while i < size
            invariant
                i <= size,
                size <= self.read_data@.len(),
                size <= buf@.len(),
                buf@.len() == old(buf)@.len(),
                buf@.take(i as int) == self.read_data@.take(i as int),
                buf@.skip(size as int) == old(buf)@.skip(size as int),
            decreases size - i,
        {
            let ghost prev = buf@;
            buf.set(i, self.read_data[i]);
            assert(buf@.take(i + 1) =~= prev.take(i as int).push(self.read_data@[i as int]));
            assert(self.read_data@.take(i + 1) =~= self.read_data@.take(i as int).push(
                self.read_data@[i as int],
            ));
            assert(buf@.skip(size as int) =~= prev.skip(size as int));
            i = i + 1;
        }
        size
    }

    /// Replaces what was written by `buf` and returns its length.
    pub fn write(&mut self, buf: &[u8]) -> (size: usize)
        ensures
            size == buf@.len(),
            final(self).write_data@ == buf@,
            final(self).read_data == old(self).read_data,
    {
        let mut data: Vec<u8> = Vec::new();
        let mut i: usize = 0;
        while i < buf.len()
            invariant
                i <= buf@.len(),
                data@ == buf@.take(i as int),
            decreases buf@.len() - i,
        {
            data.push(buf[i]);
            assert(buf@.take(i + 1) =~= buf@.take(i as int).push(buf@[i as int]));
            i = i + 1;
        }
        assert(buf@.take(buf@.len() as int) =~= buf@);
        self.write_data = data;
        buf.len()
    }
}

} // verus!
