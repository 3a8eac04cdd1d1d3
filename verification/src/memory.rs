//! The machine's flat byte-addressable memory, with bounds-checked reads
//! and a loader that copies byte blocks in at a given base address.

use vstd::prelude::*;

use crate::chip8::{Chip8Error, MEMORY_SIZE};

verus! {

/// The bytes of `m` after `v` has been copied in starting at `addr`. Only
/// indices of `m` are written: a copy that would run past the end of the
/// sequence is truncated there.
pub open spec fn spec_load(m: Seq<u8>, addr: int, v: Seq<u8>) -> Seq<u8> {
    Seq::new(
        m.len(),
        |j: int|
            if addr <= j && j < addr + v.len() {
                v[j - addr]
            } else {
                m[j]
            },
    )
}

/// The machine's 4096 bytes of addressable memory. The view is the flat
/// sequence of bytes.
pub struct Memory {
    memory: Vec<u8>,
}

impl View for Memory {
    type V = Seq<u8>;

    closed spec fn view(&self) -> Seq<u8> {
        self.memory@
    }
}

impl Default for Memory {
    /// Zero-initialized memory.
    fn default() -> (r: Self)
        ensures
            r.wf(),
            forall|j: int| 0 <= j < MEMORY_SIZE ==> r@[j] == 0u8,
    {
        let mut memory: Vec<u8> = Vec::new();
        let mut i: usize = 0;
        while i < MEMORY_SIZE
            invariant
                i <= MEMORY_SIZE,
                memory@.len() == i,
                forall|k: int| 0 <= k < i ==> memory@[k] == 0u8,
            decreases MEMORY_SIZE - i,
        {
            memory.push(0);
            i = i + 1;
        }
        Memory { memory }
    }
}

impl Memory {
    /// Memory holds exactly one byte per address.
    pub open spec fn wf(&self) -> bool {
        self@.len() == MEMORY_SIZE
    }

    /// Copies `v` into memory starting at `address`. A copy that would run
    /// past the end of memory is silently truncated there; the caller sees
    /// no report of how much was written.
    pub fn load_at_address(&mut self, address: usize, v: &[u8])
        requires
            old(self).wf(),
        ensures
            final(self).wf(),
            final(self)@ == spec_load(old(self)@, address as int, v@),
    {
        let mut i: usize = 0;
        while i < v.len() && address + i < MEMORY_SIZE
            invariant
                old(self).wf(),
                self.memory@.len() == MEMORY_SIZE,
                i <= v@.len(),
                address >= MEMORY_SIZE ==> i == 0,
                address < MEMORY_SIZE ==> address + i <= MEMORY_SIZE,
                forall|j: int|
                    0 <= j < MEMORY_SIZE ==> self.memory@[j] == if address <= j && j < address
                        + i {
                        v@[j - address]
                    } else {
                        old(self)@[j]
                    },
            decreases v@.len() - i,
        {
            self.memory[address + i] = v[i];
            i = i + 1;
        }
        proof {
            assert(self.memory@ =~= spec_load(old(self)@, address as int, v@));
        }
    }

    /// Reads a byte at an address already known to be in bounds.
    pub(crate) fn byte_at(&self, address: usize) -> (r: u8)
        requires
            self.wf(),
            address < MEMORY_SIZE,
        ensures
            r == self@[address as int],
    {
        self.memory[address]
    }

    /// Reads the byte at `address`. Fails with `OutOfBounds` if the
    /// address is past the end of memory.
    pub fn get_u8(&self, address: usize) -> (r: Result<u8, Chip8Error>)
        requires
            self.wf(),
        ensures
            address < MEMORY_SIZE ==> r == Ok::<u8, Chip8Error>(self@[address as int]),
            address >= MEMORY_SIZE ==> r == Err::<u8, Chip8Error>(
                (Chip8Error::OutOfBounds { address }),
            ),
    {
        if address < MEMORY_SIZE {
            Ok(self.byte_at(address))
        } else {
            Err(Chip8Error::OutOfBounds { address })
        }
    }

    /// Overwrites the byte at `address`. Fails with `OutOfBounds`, leaving
    /// memory unchanged, if the address is past the end of memory.
    pub fn set_u8(&mut self, address: usize, value: u8) -> (r: Result<(), Chip8Error>)
        requires
            old(self).wf(),
        ensures
            final(self).wf(),
            address < MEMORY_SIZE ==> r == Ok::<(), Chip8Error>(()) && final(self)@ == old(
                self,
            )@.update(address as int, value),
            address >= MEMORY_SIZE ==> r == Err::<(), Chip8Error>(
                (Chip8Error::OutOfBounds { address }),
            ) && final(self)@ == old(self)@,
    {
        if address < MEMORY_SIZE {
            self.memory[address] = value;
            Ok(())
        } else {
            Err(Chip8Error::OutOfBounds { address })
        }
    }

    /// Fetches the two bytes of the instruction at `address`, high byte
    /// first. Fails with `OutOfBounds`, naming the first address past the
    /// end, when the pair does not fit in memory.
    pub fn get_instruction(&self, address: usize) -> (r: Result<[u8; 2], Chip8Error>)
        requires
            self.wf(),
        ensures
            address + 1 < MEMORY_SIZE ==> (r matches Ok(b) && b[0] == self@[address as int]
                && b[1] == self@[address as int + 1]),
            address + 1 >= MEMORY_SIZE ==> r == Err::<[u8; 2], Chip8Error>(
                (Chip8Error::OutOfBounds {
                    address: if address < MEMORY_SIZE {
                        (address + 1) as usize
                    } else {
                        address
                    },
                }),
            ),
    {
        if address < MEMORY_SIZE - 1 {
            let fb = self.memory[address];
            let sb = self.memory[address + 1];
            Ok([fb, sb])
        } else if address < MEMORY_SIZE {
            Err(Chip8Error::OutOfBounds { address: address + 1 })
        } else {
            Err(Chip8Error::OutOfBounds { address })
        }
    }
}

} // verus!
