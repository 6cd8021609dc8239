//! The memory subsystem: bounds-checked linear byte storage with word
//! accessors, block copy and bulk load.
//!
//! Every access is range-checked against the configured size; any
//! out-of-range index yields [`Error::OutOfBounds`], and a derived operation
//! (word access, copy, load) checks its whole range first so that it never
//! applies partially.

use vstd::prelude::*;

verus! {

/// A memory access failure.
#[derive(Clone, Copy, PartialEq, Eq, Structural, Debug)]
pub enum Error {
    /// An address fell outside the configured size.
    OutOfBounds(u16),
    /// Any other storage failure; no operation of this crate produces it.
    OtherError,
}

/// The 16-bit little-endian word stored at `addr`: low byte first.
pub open spec fn word_at(mem: Seq<u8>, addr: int) -> u16 {
    (mem[addr] + mem[addr + 1] * 256) as u16
}

/// The low byte of a 16-bit word.
pub open spec fn word_lo(w: u16) -> u8 {
    (w % 256) as u8
}

/// The high byte of a 16-bit word.
pub open spec fn word_hi(w: u16) -> u8 {
    (w / 256) as u8
}

/// `mem` with the 16-bit word `w` stored little-endian at `addr`.
pub open spec fn word_written(mem: Seq<u8>, addr: int, w: u16) -> Seq<u8> {
    mem.update(addr, word_lo(w)).update(addr + 1, word_hi(w))
}

/// Splitting a word into its two bytes and reading it back yields the word.
pub proof fn lemma_word_roundtrip(w: u16)
    ensures
        word_lo(w) + word_hi(w) * 256 == w,
        forall|mem: Seq<u8>, addr: int|
            0 <= addr && addr + 1 < mem.len() ==> word_at(
                #[trigger] word_written(mem, addr, w),
                addr,
            ) == w,
{
    assert(word_lo(w) + word_hi(w) * 256 == w) by (nonlinear_arith);
}

/// Memory bounds, the visibility half: a byte written at an in-range
/// address is immediately seen by a read of that address. Together with
/// the contracts of [`Addressable::write`] and [`Addressable::read`] —
/// which succeed exactly on addresses below the size and fail with
/// `OutOfBounds` on all others — this is the bounds discipline of the
/// memory subsystem.
pub proof fn lemma_write_read_visible(mem: Seq<u8>, addr: u16, v: u8)
    requires
        addr < mem.len(),
    ensures
        mem.update(addr as int, v)[addr as int] == v,
        mem.update(addr as int, v).len() == mem.len(),
{
}

/// The effect of copying `n` bytes one at a time, in ascending order, from
/// `from` to `to` inside `mem`.
pub open spec fn copied(mem: Seq<u8>, from: int, to: int, n: int) -> Seq<u8>
    decreases n,
{
    if n <= 0 {
        mem
    } else {
        let m = copied(mem, from, to, n - 1);
        m.update(to + (n - 1), m[from + (n - 1)])
    }
}

/// Copying never changes how many bytes the memory holds.
pub proof fn lemma_copied_len(mem: Seq<u8>, from: int, to: int, n: int)
    requires
        0 <= from,
        0 <= to,
        from + n <= mem.len(),
        to + n <= mem.len(),
    ensures
        copied(mem, from, to, n).len() == mem.len(),
    decreases n,
{
    if n > 0 {
        lemma_copied_len(mem, from, to, n - 1);
    }
}

/// `mem` with `data` written over the range starting at `addr`.
pub open spec fn loaded(mem: Seq<u8>, data: Seq<u8>, addr: int) -> Seq<u8> {
    Seq::new(mem.len(), |i: int| if addr <= i < addr + data.len() { data[i - addr] } else { mem[i] })
}

/// Bounds-checked byte storage addressed by `u16`, with word accessors
/// derived from the byte accessors.
pub trait Addressable: Sized {
    /// The bytes this memory holds.
    spec fn mem(&self) -> Seq<u8>;

    /// Well-formedness of the representation. Every memory holds at most
    /// 0x10000 bytes, the range a 16-bit address can reach.
    spec fn wf(&self) -> bool;

    /// A well-formed memory never holds more bytes than an address reaches.
    proof fn lemma_mem_len(&self)
        requires
            self.wf(),
        ensures
            self.mem().len() <= 0x10000,
    ;

    /// The configured size in bytes.
    fn size(&self) -> (n: usize)
        requires
            self.wf(),
        ensures
            n == self.mem().len(),
    ;

    /// Read the byte at `addr`.
    fn read(&self, addr: u16) -> (r: Result<u8, Error>)
        requires
            self.wf(),
        ensures
            match r {
                Ok(b) => addr < self.mem().len() && b == self.mem()[addr as int],
                Err(e) => addr >= self.mem().len() && e == Error::OutOfBounds(addr),
            },
    ;

    /// Write the byte `value` at `addr`.
    fn write(&mut self, addr: u16, value: u8) -> (r: Result<(), Error>)
        requires
            old(self).wf(),
        ensures
            final(self).wf(),
            match r {
                Ok(()) => addr < old(self).mem().len() && final(self).mem() == old(
                    self,
                ).mem().update(addr as int, value),
                Err(e) => addr >= old(self).mem().len() && e == Error::OutOfBounds(addr)
                    && final(self).mem() == old(self).mem(),
            },
    ;

    /// Read the 16-bit little-endian word at `addr`.
    fn read_word(&self, addr: u16) -> (r: Result<u16, Error>)
        requires
            self.wf(),
        ensures
            match r {
                Ok(w) => addr + 1 < self.mem().len() && w == word_at(self.mem(), addr as int),
                Err(e) => addr + 1 >= self.mem().len() && e == Error::OutOfBounds(addr),
            },
    {
        match self.read(addr) {
            Ok(lo) => {
                if addr == u16::MAX {
                    proof {
                        self.lemma_mem_len();
                    }
                    Err(Error::OutOfBounds(addr))
                } else {
                    match self.read(addr + 1) {
                        Ok(hi) => Ok(lo as u16 + (hi as u16) * 256),
                        Err(_) => Err(Error::OutOfBounds(addr)),
                    }
                }
            },
            Err(_) => Err(Error::OutOfBounds(addr)),
        }
    }

    /// Write the 16-bit word `value` at `addr`, low byte first. The range is
    /// checked before either byte is written, so a failure leaves the memory
    /// unchanged.
    fn write_word(&mut self, addr: u16, value: u16) -> (r: Result<(), Error>)
        requires
            old(self).wf(),
        ensures
            final(self).wf(),
            match r {
                Ok(()) => addr + 1 < old(self).mem().len() && final(self).mem() == word_written(
                    old(self).mem(),
                    addr as int,
                    value,
                ),
                Err(e) => addr + 1 >= old(self).mem().len() && e == Error::OutOfBounds(addr)
                    && final(self).mem() == old(self).mem(),
            },
    {
        let n = self.size();
        if addr as usize >= n || addr as usize + 1 >= n {
            return Err(Error::OutOfBounds(addr));
        }
        proof {
            self.lemma_mem_len();
        }
        let lo = (value % 256) as u8;
        let hi = (value / 256) as u8;
        match self.write(addr, lo) {
            Ok(()) => self.write(addr + 1, hi),
            Err(e) => Err(e),
        }
    }

    /// Copy `n` bytes from `from` to `to`, byte by byte in ascending order.
    /// Both ranges are checked before anything is written.
    fn copy(&mut self, from: u16, to: u16, n: usize) -> (r: Result<(), Error>)
        requires
            old(self).wf(),
        ensures
            final(self).wf(),
            match r {
                Ok(()) => from + n <= old(self).mem().len() && to + n <= old(self).mem().len()
                    && final(self).mem() == copied(old(self).mem(), from as int, to as int, n as int),
                Err(e) => (from + n > old(self).mem().len() || to + n > old(self).mem().len())
                    && final(self).mem() == old(self).mem() && (e == Error::OutOfBounds(from) || e
                    == Error::OutOfBounds(to)),
            },
    {
        let size = self.size();
        if n > size || from as usize > size - n {
            return Err(Error::OutOfBounds(from));
        }
        if to as usize > size - n {
            return Err(Error::OutOfBounds(to));
        }
        proof {
            self.lemma_mem_len();
        }
        let ghost orig = self.mem();
        let mut i: usize = 0;
        while i < n
            invariant
                0 <= i <= n,
                from + n <= orig.len(),
                to + n <= orig.len(),
                orig.len() <= 0x10000,
                self.wf(),
                self.mem() == copied(orig, from as int, to as int, i as int),
            decreases n - i,
        {
            proof {
                lemma_copied_len(orig, from as int, to as int, i as int);
            }
            assert(self.mem().len() == orig.len());
            let b = match self.read(from + i as u16) {
                Ok(b) => b,
                Err(e) => {
                    return Err(e);
                },
            };
            match self.write(to + i as u16, b) {
                Ok(()) => (),
                Err(e) => {
                    return Err(e);
                },
            }
            i = i + 1;
        }
        Ok(())
    }

    /// Write all of `from` into memory starting at `addr`. The whole range
    /// is checked before anything is written.
    fn load(&mut self, from: &[u8], addr: u16) -> (r: Result<(), Error>)
        requires
            old(self).wf(),
        ensures
            final(self).wf(),
            match r {
                Ok(()) => addr + from.len() <= old(self).mem().len() && final(self).mem() == loaded(
                    old(self).mem(),
                    from@,
                    addr as int,
                ),
                Err(e) => addr + from.len() > old(self).mem().len() && e == Error::OutOfBounds(addr)
                    && final(self).mem() == old(self).mem(),
            },
    {
        let size = self.size();
        let n = from.len();
        if n > size || addr as usize > size - n {
            return Err(Error::OutOfBounds(addr));
        }
        proof {
            self.lemma_mem_len();
        }
        let ghost orig = self.mem();
        let mut i: usize = 0;
        while i < n
            invariant
                0 <= i <= n,
                n == from.len(),
                addr + n <= orig.len(),
                orig.len() <= 0x10000,
                self.wf(),
                self.mem().len() == orig.len(),
                forall|j: int|
                    0 <= j < orig.len() ==> self.mem()[j] == if addr <= j < addr + i {
                        from@[j - addr]
                    } else {
                        orig[j]
                    },
            decreases n - i,
        {
            let b = from[i];
            match self.write(addr + i as u16, b) {
                Ok(()) => (),
                Err(e) => {
                    return Err(e);
                },
            }
            i = i + 1;
        }
        assert(self.mem() =~= loaded(orig, from@, addr as int));
        Ok(())
    }
}

/// The hex rendering of the bytes of `mem` from index `i` on: each 16-bit
/// cell as four hex digits followed by a space. A trailing unpaired byte is
/// not rendered.
pub open spec fn dump_from(mem: Seq<u8>, i: int) -> Seq<char>
    decreases mem.len() - i,
{
    if i < 0 || i + 1 >= mem.len() {
        Seq::empty()
    } else {
        crate::text::hex_byte_str(mem[i]) + crate::text::hex_byte_str(mem[i + 1]) + seq![' ']
            + dump_from(mem, i + 2)
    }
}

/// The hex rendering of a whole memory, word by word.
pub open spec fn dump_str(mem: Seq<u8>) -> Seq<char> {
    dump_from(mem, 0)
}

/// Linear memory of a configurable size, the storage of the machine.
pub struct Linear {
    bytes: Vec<u8>,
    size: usize,
}

impl Linear {
    /// Create linear memory of `n` bytes, zero-filled. Sizes beyond the
    /// 16-bit address range are clamped to 0x10000 bytes.
    pub fn new(n: usize) -> (m: Linear)
        ensures
            m.wf(),
            m.mem() == Seq::new(if n <= 0x10000 {
                n as nat
            } else {
                0x10000 as nat
            }, |i: int| 0u8),
    {
        let size: usize = if n <= 0x10000 {
            n
        } else {
            0x10000
        };
        let mut bytes: Vec<u8> = Vec::new();
        let mut i: usize = 0;
        while i < size
            invariant
                0 <= i <= size,
                bytes@.len() == i,
                forall|j: int| 0 <= j < i ==> bytes@[j] == 0u8,
            decreases size - i,
        {
            bytes.push(0);
            i = i + 1;
        }
        let m = Linear { bytes, size };
        proof {
            assert(m.mem() =~= Seq::new(size as nat, |i: int| 0u8));
        }
        m
    }

    /// A hex rendering of the contents, one four-digit group per 16-bit
    /// cell, for diagnostics.
    pub fn dump(&self) -> (s: String)
        requires
            self.wf(),
        ensures
            s@ == dump_str(self.mem()),
    {
        let n = self.bytes.len();
        let mut s = String::new();
        let mut i: usize = 0;
        while i + 1 < n
            invariant
                n == self.bytes@.len(),
                n <= 0x10000,
                0 <= i <= n + 1,
                s@ + dump_from(self.bytes@, i as int) == dump_from(self.bytes@, 0),
            decreases n - i,
        {
            let lo = crate::text::hex_byte_string(self.bytes[i]);
            let hi = crate::text::hex_byte_string(self.bytes[i + 1]);
            let ghost s0 = s@;
            s.append(lo.as_str());
            s.append(hi.as_str());
            s.append(" ");
            proof {
                reveal_strlit(" ");
                assert(s@ =~= s0 + crate::text::hex_byte_str(self.bytes@[i as int])
                    + crate::text::hex_byte_str(self.bytes@[i as int + 1]) + seq![' ']);
                assert(s@ + dump_from(self.bytes@, i as int + 2) =~= s0 + dump_from(
                    self.bytes@,
                    i as int,
                ));
            }
            i = i + 2;
        }
        proof {
            assert(s@ =~= dump_from(self.bytes@, 0));
        }
        s
    }
}

impl Addressable for Linear {
    closed spec fn mem(&self) -> Seq<u8> {
        self.bytes@
    }

    closed spec fn wf(&self) -> bool {
        self.bytes@.len() == self.size && self.size <= 0x10000
    }

    proof fn lemma_mem_len(&self) {
    }

    fn size(&self) -> usize {
        self.size
    }

    fn read(&self, addr: u16) -> Result<u8, Error> {
        if (addr as usize) < self.size {
            Ok(self.bytes[addr as usize])
        } else {
            Err(Error::OutOfBounds(addr))
        }
    }

    fn write(&mut self, addr: u16, value: u8) -> Result<(), Error> {
        if (addr as usize) < self.size {
            self.bytes.set(addr as usize, value);
            Ok(())
        } else {
            Err(Error::OutOfBounds(addr))
        }
    }
}

/// A small fixed-size memory of 256 bytes.
pub struct Memory {
    memory: Vec<u8>,
}

impl Default for Memory {
    /// A zero-filled 256-byte memory.
    fn default() -> (m: Memory)
        ensures
            m.wf(),
            m.mem() == Seq::new(256, |i: int| 0u8),
    {
        let mut bytes: Vec<u8> = Vec::new();
        let mut i: usize = 0;
        while i < 256
            invariant
                0 <= i <= 256,
                bytes@.len() == i,
                forall|j: int| 0 <= j < i ==> bytes@[j] == 0u8,
            decreases 256 - i,
        {
            bytes.push(0);
            i = i + 1;
        }
        let m = Memory { memory: bytes };
        proof {
            assert(m.mem() =~= Seq::new(256, |i: int| 0u8));
        }
        m
    }
}

impl Addressable for Memory {
    closed spec fn mem(&self) -> Seq<u8> {
        self.memory@
    }

    closed spec fn wf(&self) -> bool {
        self.memory@.len() == 256
    }

    proof fn lemma_mem_len(&self) {
    }

    fn size(&self) -> usize {
        self.memory.len()
    }

    fn read(&self, addr: u16) -> Result<u8, Error> {
        if (addr as usize) < self.memory.len() {
            Ok(self.memory[addr as usize])
        } else {
            Err(Error::OutOfBounds(addr))
        }
    }

    fn write(&mut self, addr: u16, value: u8) -> Result<(), Error> {
        if (addr as usize) < self.memory.len() {
            self.memory.set(addr as usize, value);
            Ok(())
        } else {
            Err(Error::OutOfBounds(addr))
        }
    }
}

} // verus!
