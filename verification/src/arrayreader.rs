//! A reader over a borrowed byte array.

use vstd::prelude::*;

verus! {

/// Reads bytes out of a borrowed array.
///
/// Reads start at the front of the array and take successive bytes: each
/// read moves the position past the bytes it copied, and a reader at the
/// end of the array reads nothing.
pub struct ArrayReader<'a> {
    array: &'a [u8],
    current_index: usize,
}

impl<'a> ArrayReader<'a> {
    #[verifier::type_invariant]
    spec fn position_in_bounds(self) -> bool {
        self.current_index <= self.array@.len()
    }

    /// The bytes that the reader reads from.
    pub closed spec fn contents(self) -> Seq<u8> {
        self.array@
    }

    /// The index of the first byte that a read copies.
    pub closed spec fn position(self) -> nat {
        self.current_index as nat
    }

    /// The bytes from the read position to the end of the array.
    pub open spec fn remaining(self) -> Seq<u8> {
        self.contents().subrange(self.position() as int, self.contents().len() as int)
    }

    /// Makes a reader at the start of `array`.
    pub fn new(array: &'a [u8]) -> (reader: Self)
        ensures
            reader.contents() == array@,
            reader.position() == 0,
    {
        Self { array, current_index: 0 }
    }

    /// Copies as many of the remaining bytes as fit into the front of `buf`,
    /// moves the position past them, and returns how many were copied. The
    /// rest of `buf` is left as it was.
    fn copy_into(&mut self, buf: &mut [u8]) -> (count: usize)
        ensures
            final(self).contents() == old(self).contents(),
            final(self).position() == old(self).position() + count,
            count as int == vstd::math::min(old(buf)@.len() as int, old(self).remaining().len() as int),
            final(buf)@ == old(self).remaining().subrange(0, count as int) + old(buf)@.subrange(
                count as int,
                old(buf)@.len() as int,
            ),
    {
        proof {
            use_type_invariant(&*self);
        }
        let len = self.array.len();
        let available = len.saturating_sub(self.current_index);
        let max_read = if buf.len() < available {
            buf.len()
        } else {
            available
        };
        let start = self.current_index;
        let mut i: usize = 0;
        while i < max_read
            invariant
                max_read <= buf@.len(),
                start + max_read <= len,
                len == self.array@.len(),
                start == self.current_index,
                i <= max_read,
                buf@.len() == old(buf)@.len(),
                forall|k: int| 0 <= k < i ==> buf@[k] == self.array@[start + k],
                forall|k: int| i <= k < buf@.len() ==> buf@[k] == old(buf)@[k],
            decreases max_read - i,
        {
            buf[i] = self.array[start + i];
            i = i + 1;
        }
        assert(buf@ =~= self.remaining().subrange(0, max_read as int) + old(buf)@.subrange(
            max_read as int,
            old(buf)@.len() as int,
        ));
        self.current_index = start + max_read;
        max_read
    }
}

/// Reads take successive bytes: after a read of `count` bytes, the bytes
/// left to read are the ones that were left before, less the `count`
/// copied; so the next read starts where this one stopped, and a reader
/// with nothing left reads `Ok(0)` from then on.
pub proof fn law_reads_take_successive_bytes<'a>(
    before: ArrayReader<'a>,
    after: ArrayReader<'a>,
    count: nat,
)
    requires
        before.position() <= before.contents().len(),
        count <= before.remaining().len(),
        after.contents() == before.contents(),
        after.position() == before.position() + count,
    ensures
        after.remaining() == before.remaining().subrange(count as int, before.remaining().len() as int),
        after.remaining().len() == before.remaining().len() - count,
{
    assert(after.remaining() =~= before.remaining().subrange(
        count as int,
        before.remaining().len() as int,
    ));
}

impl<'a> std::io::Read for ArrayReader<'a> {
    /// Copies as many of the remaining bytes as fit into the front of `buf`
    /// and returns how many were copied; it never fails. The rest of `buf`
    /// is left as it was, and the reader moves past the copied bytes, so
    /// the next read goes on where this one stopped; once the array is used
    /// up, reads return `Ok(0)`.
    fn read(&mut self, buf: &mut [u8]) -> (outcome: std::io::Result<usize>)
        ensures
            final(self).contents() == old(self).contents(),
            outcome is Ok,
            outcome matches Ok(count) ==> final(self).position() == old(self).position() + count,
            outcome matches Ok(count) ==> count as int == vstd::math::min(
                old(buf)@.len() as int,
                old(self).remaining().len() as int,
            ),
            outcome matches Ok(count) ==> final(buf)@ == old(self).remaining().subrange(
                0,
                count as int,
            ) + old(buf)@.subrange(count as int, old(buf)@.len() as int),
    {
        Ok(self.copy_into(buf))
    }
}

} // verus!
