//! The backing store: one contiguous, anonymous memory mapping of a length
//! chosen at construction.

use vstd::prelude::*;

verus! {

/// `memmap2::MmapMut`, a writable memory mapping. Nothing is known of a value
/// but what the functions below state of the bytes that it holds.
#[verifier::external_type_specification]
#[verifier::external_body]
pub struct ExMmapMut(memmap2::MmapMut);

/// `std::io::Error`, with which a mapping request is refused. Nothing is
/// known of a value.
#[verifier::external_type_specification]
#[verifier::external_body]
pub struct ExIoError(std::io::Error);

/// The bytes that a mapping holds, in address order.
pub uninterp spec fn mapped_bytes(map: memmap2::MmapMut) -> Seq<u8>;

/// `n` zero bytes.
pub open spec fn zeros(n: nat) -> Seq<u8> {
    Seq::new(n, |i: int| 0u8)
}

/// Calls `memmap2::MmapMut::map_anon` for `len` bytes. Trusted: a mapping
/// that was granted has exactly `len` bytes and, being anonymous and private,
/// all of them are zero; and no mapping longer than `isize::MAX` is granted.
#[verifier::external_body]
fn map_anon(len: usize) -> (outcome: Result<memmap2::MmapMut, std::io::Error>)
    ensures
        outcome matches Ok(map) ==> mapped_bytes(map) == zeros(len as nat),
        len > isize::MAX ==> outcome is Err,
{
    memmap2::MmapMut::map_anon(len)
}

/// Calls `memmap2::MmapMut::len`. Trusted: it is the number of mapped bytes.
#[verifier::external_body]
fn map_len(map: &memmap2::MmapMut) -> (len: usize)
    ensures
        len == mapped_bytes(*map).len(),
{
    map.len()
}

/// Reads one byte through the mapping's `Deref` to a byte slice. Trusted: it
/// is the byte at that index.
#[verifier::external_body]
fn map_get(map: &memmap2::MmapMut, at: usize) -> (byte: u8)
    requires
        at < mapped_bytes(*map).len(),
    ensures
        byte == mapped_bytes(*map)[at as int],
{
    map[at]
}

/// Writes one byte through the mapping's `DerefMut` to a byte slice. Trusted:
/// that byte changes and no other.
#[verifier::external_body]
fn map_set(map: &mut memmap2::MmapMut, at: usize, value: u8)
    requires
        at < mapped_bytes(*old(map)).len(),
    ensures
        mapped_bytes(*final(map)) == mapped_bytes(*old(map)).update(at as int, value),
{
    map[at] = value;
}

/// Why a memory could not be built.
#[derive(Clone, Copy, Debug, PartialEq, Eq, Structural)]
pub enum MemoryError {
    /// The operating system did not grant the mapping.
    MapFailed,
}

/// A byte array of fixed length.
pub struct Memory {
    pub data: memmap2::MmapMut,
}

impl View for Memory {
    type V = Seq<u8>;

    open spec fn view(&self) -> Seq<u8> {
        mapped_bytes(self.data)
    }
}

impl Memory {
    /// Wraps the outcome of a mapping request: a granted mapping becomes the
    /// memory's store, a refusal becomes `MapFailed`.
    pub fn from_mapping(outcome: Result<memmap2::MmapMut, std::io::Error>) -> (memory: Result<
        Memory,
        MemoryError,
    >)
        ensures
            outcome is Ok <==> memory is Ok,
            outcome matches Ok(map) ==> memory matches Ok(m) && m.data == map,
            outcome is Err ==> memory == Err::<Memory, MemoryError>(MemoryError::MapFailed),
    {
        match outcome {
            Ok(data) => Ok(Memory { data }),
            Err(_) => Err(MemoryError::MapFailed),
        }
    }

    /// Asks the operating system for `size` zeroed bytes. Whether the mapping
    /// is granted is for the system to decide; one longer than `isize::MAX`
    /// never is.
    pub fn empty(size: usize) -> (memory: Result<Memory, MemoryError>)
        ensures
            memory matches Ok(m) ==> m@ == zeros(size as nat),
            memory matches Err(e) ==> e == MemoryError::MapFailed,
            size > isize::MAX ==> memory is Err,
    {
        Memory::from_mapping(map_anon(size))
    }

    /// Copies `rom` to the start of the memory that a mapping request yielded
    /// and leaves the bytes behind it as they are. A refusal is passed on.
    pub fn with_rom(memory: Result<Memory, MemoryError>, rom: &Vec<u8>) -> (loaded: Result<
        Memory,
        MemoryError,
    >)
        requires
            memory matches Ok(m) ==> rom.len() <= m@.len(),
        ensures
            memory matches Ok(m) ==> loaded matches Ok(l) && l@ == rom@ + m@.subrange(
                rom.len() as int,
                m@.len() as int,
            ),
            memory matches Err(e) ==> loaded == Err::<Memory, MemoryError>(e),
    {
        match memory {
            Ok(mut memory) => {
                let ghost before = memory@;
                let mut i: usize = 0;
                while i < rom.len()
                    invariant
                        i <= rom.len() <= before.len(),
                        memory@.len() == before.len(),
                        forall|j: int| 0 <= j < i ==> memory@[j] == rom@[j],
                        forall|j: int| i <= j < before.len() ==> memory@[j] == before[j],
                    decreases rom.len() - i,
                {
                    map_set(&mut memory.data, i, rom[i]);
                    i = i + 1;
                }
                assert(memory@ =~= rom@ + before.subrange(rom.len() as int, before.len() as int));
                Ok(memory)
            },
            Err(e) => Err(e),
        }
    }

    /// Builds a memory of `size` bytes that starts with the bytes of `rom`
    /// and is zero after them, if the operating system grants the bytes.
    pub fn from_rom(rom: &Vec<u8>, size: usize) -> (memory: Result<Memory, MemoryError>)
        requires
            rom.len() <= size,
        ensures
            memory matches Ok(m) ==> m@ == rom@ + zeros((size - rom.len()) as nat),
            memory matches Err(e) ==> e == MemoryError::MapFailed,
            size > isize::MAX ==> memory is Err,
    {
        let loaded = Memory::with_rom(Memory::empty(size), rom);
        assert(zeros(size as nat).subrange(rom.len() as int, size as int) =~= zeros(
            (size - rom.len()) as nat,
        ));
        loaded
    }

    /// The number of bytes.
    pub fn len(&self) -> (len: usize)
        ensures
            len == self@.len(),
    {
        map_len(&self.data)
    }

    /// The byte at `addr`.
    pub fn read8(&self, addr: u32) -> (byte: u8)
        requires
            addr < self@.len(),
        ensures
            byte == self@[addr as int],
    {
        map_get(&self.data, addr as usize)
    }

    /// Stores `value` at `addr` and leaves every other byte as it was.
    pub fn write8(&mut self, addr: u32, value: u8)
        requires
            addr < old(self)@.len(),
        ensures
            final(self)@ == old(self)@.update(addr as int, value),
    {
        map_set(&mut self.data, addr as usize, value);
    }
}

} // verus!
