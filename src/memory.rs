use vstd::prelude::*;
use vstd::slice::slice_subrange;

use crate::error::Chip8Error;

verus! {

/// Number of addressable bytes.
pub const MEMORY_SIZE: usize = 4096;

/// `base` with the bytes of `data` written over it from `offset` on.
pub open spec fn splice<T>(base: Seq<T>, offset: int, data: Seq<T>) -> Seq<T> {
    Seq::new(
        base.len(),
        |k: int|
            if offset <= k < offset + data.len() {
                data[k - offset]
            } else {
                base[k]
            },
    )
}

/// Whether `len` bytes starting at `offset` lie inside memory.
pub open spec fn in_bounds(offset: int, len: int) -> bool {
    0 <= offset && 0 <= len && offset + len <= MEMORY_SIZE
}

/// A flat store of bytes, addressed from 0 up to `MEMORY_SIZE`.
#[derive(Debug)]
pub struct Memory {
    data: Vec<u8>,
}

impl View for Memory {
    type V = Seq<u8>;

    closed spec fn view(&self) -> Seq<u8> {
        self.data@
    }
}

impl Memory {
    /// The store has exactly `MEMORY_SIZE` bytes.
    pub open spec fn wf(&self) -> bool {
        self@.len() == MEMORY_SIZE
    }

    /// A memory of `MEMORY_SIZE` zero bytes.
    pub fn new() -> (m: Memory)
        ensures
            m.wf(),
            m@ == Seq::new(MEMORY_SIZE as nat, |k: int| 0u8),
    {
        let m = Memory { data: vec![0u8; MEMORY_SIZE] };
        assert(m@ =~= Seq::new(MEMORY_SIZE as nat, |k: int| 0u8));
        m
    }

    /// Copies `data` into memory from `offset` on, or fails, changing
    /// nothing, where it would not fit.
    pub fn load_at_offset(&mut self, offset: usize, data: Vec<u8>) -> (r: Result<(), Chip8Error>)
        requires
            old(self).wf(),
        ensures
            final(self).wf(),
            in_bounds(offset as int, data@.len() as int) ==> r == Ok::<(), Chip8Error>(()) && final(self)@ == splice(
                old(self)@,
                offset as int,
                data@,
            ),
            !in_bounds(offset as int, data@.len() as int) ==> r == Err::<(), Chip8Error>(
                Chip8Error::OutOfBoundsMemoryAccess,
            ) && final(self)@ == old(self)@,
    {
        if offset > MEMORY_SIZE || data.len() > MEMORY_SIZE - offset {
            return Err(Chip8Error::OutOfBoundsMemoryAccess);
        }
        let mut k: usize = 0;
        while k < data.len()
            invariant
                offset + data@.len() <= MEMORY_SIZE,
                k <= data@.len(),
                self@.len() == MEMORY_SIZE,
                forall|j: int|
                    0 <= j < MEMORY_SIZE ==> #[trigger] self@[j] == if offset <= j < offset + k {
                        data@[j - offset]
                    } else {
                        old(self)@[j]
                    },
            decreases data@.len() - k,
        {
            self.data.set(offset + k, data[k]);
            k = k + 1;
        }
        assert(self@ =~= splice(old(self)@, offset as int, data@));
        Ok(())
    }

    /// Copies `data` into memory from `offset` on, or fails, changing
    /// nothing, where it would not fit.
    pub fn write_vec(&mut self, offset: usize, data: Vec<u8>) -> (r: Result<(), Chip8Error>)
        requires
            old(self).wf(),
        ensures
            final(self).wf(),
            in_bounds(offset as int, data@.len() as int) ==> r == Ok::<(), Chip8Error>(()) && final(self)@ == splice(
                old(self)@,
                offset as int,
                data@,
            ),
            !in_bounds(offset as int, data@.len() as int) ==> r == Err::<(), Chip8Error>(
                Chip8Error::OutOfBoundsMemoryAccess,
            ) && final(self)@ == old(self)@,
    {
        self.load_at_offset(offset, data)
    }

    /// Stores one byte at `offset`.
    pub fn write(&mut self, offset: usize, byte: u8) -> (r: Result<(), Chip8Error>)
        requires
            old(self).wf(),
        ensures
            final(self).wf(),
            offset < MEMORY_SIZE ==> r == Ok::<(), Chip8Error>(()) && final(self)@ == old(self)@.update(
                offset as int,
                byte,
            ),
            offset >= MEMORY_SIZE ==> r == Err::<(), Chip8Error>(
                Chip8Error::OutOfBoundsMemoryAccess,
            ) && final(self)@ == old(self)@,
    {
        if offset >= MEMORY_SIZE {
            return Err(Chip8Error::OutOfBoundsMemoryAccess);
        }
        self.data.set(offset, byte);
        Ok(())
    }

    /// The byte at `offset`.
    pub fn read(&self, offset: usize) -> (r: Result<u8, Chip8Error>)
        requires
            self.wf(),
        ensures
            offset < MEMORY_SIZE ==> r == Ok::<u8, Chip8Error>(self@[offset as int]),
            offset >= MEMORY_SIZE ==> r == Err::<u8, Chip8Error>(
                Chip8Error::OutOfBoundsMemoryAccess,
            ),
    {
        if offset >= MEMORY_SIZE {
            return Err(Chip8Error::OutOfBoundsMemoryAccess);
        }
        Ok(self.data[offset])
    }

    /// The `n` bytes that start at `offset`.
    pub fn read_chunk(&self, offset: usize, n: usize) -> (r: Result<&[u8], Chip8Error>)
        requires
            self.wf(),
        ensures
            in_bounds(offset as int, n as int) ==> r is Ok && r->Ok_0@ == self@.subrange(
                offset as int,
                offset + n,
            ),
            !in_bounds(offset as int, n as int) ==> r is Err && r->Err_0
                == Chip8Error::OutOfBoundsMemoryAccess,
    {
        if offset > MEMORY_SIZE || n > MEMORY_SIZE - offset {
            return Err(Chip8Error::OutOfBoundsMemoryAccess);
        }
        Ok(slice_subrange(self.data.as_slice(), offset, offset + n))
    }
}

} // verus!
