//! The bus: routes an address to the device whose region covers it, or to
//! the backing memory.

use vstd::prelude::*;

use crate::memory::Memory;
use crate::memory::MemoryError;
use crate::word::byte_of;
use crate::word::to_bytes;

verus! {

/// What every participant of the address space offers: byte reads, byte
/// writes and word writes, each at an address relative to its own base.
///
/// A participant is modelled by its view. The three spec functions say what a
/// read yields in a state and to which state a write leads; the executable
/// methods are held to them.
pub trait AddressSpace: View {
    /// The byte that a read at `addr` yields in `state`.
    spec fn read8_spec(state: Self::V, addr: u32) -> u8;

    /// The state that a byte write leads to.
    spec fn write8_spec(state: Self::V, addr: u32, value: u8) -> Self::V;

    /// The state that a word write leads to.
    spec fn write32_spec(state: Self::V, addr: u32, value: u32) -> Self::V;

    fn read8(&self, addr: u32) -> (byte: u8)
        ensures
            byte == Self::read8_spec(self@, addr),
    ;

    fn write8(&mut self, addr: u32, value: u8)
        ensures
            final(self)@ == Self::write8_spec(old(self)@, addr, value),
    ;

    fn write32(&mut self, addr: u32, value: u32)
        ensures
            final(self)@ == Self::write32_spec(old(self)@, addr, value),
    ;
}

/// A device and the interval `[base, base + size)` of addresses that it owns.
pub struct MmioRegion<D> {
    pub name: String,
    pub base: u32,
    pub size: u32,
    pub device: D,
}

/// The model of a region: its interval and the model of its device.
pub struct RegionView<S> {
    pub name: Seq<char>,
    pub base: u32,
    pub size: u32,
    pub device: S,
}

impl<S> RegionView<S> {
    /// Whether `addr` lies in `[base, base + size)`.
    pub open spec fn covers(self, addr: u32) -> bool {
        self.base <= addr < self.base + self.size
    }
}

impl<D: View> View for MmioRegion<D> {
    type V = RegionView<D::V>;

    open spec fn view(&self) -> RegionView<D::V> {
        RegionView { name: self.name@, base: self.base, size: self.size, device: self.device@ }
    }
}

impl<D: View> MmioRegion<D> {
    /// Whether `addr` lies in this region.
    pub fn covers(&self, addr: u32) -> (inside: bool)
        ensures
            inside == self@.covers(addr),
    {
        addr >= self.base && addr - self.base < self.size
    }
}

/// The model of a bus: the bytes of its memory and its regions in the order
/// in which they were registered.
pub struct BusView<S> {
    pub ram: Seq<u8>,
    pub regions: Seq<RegionView<S>>,
}

/// The index of the first region at or after `from` that covers `addr`.
pub open spec fn first_cover<S>(regions: Seq<RegionView<S>>, addr: u32, from: int) -> Option<int>
    decreases regions.len() - from,
{
    if from < 0 || from >= regions.len() {
        None
    } else if regions[from].covers(addr) {
        Some(from)
    } else {
        first_cover(regions, addr, from + 1)
    }
}

/// Whether the byte at index `at` of `ram` can be addressed.
pub open spec fn backed(ram: Seq<u8>, at: int) -> bool {
    0 <= at < ram.len() && at <= u32::MAX
}

/// `ram` with `value` at index `at`, where that byte can be addressed.
pub open spec fn store(ram: Seq<u8>, at: int, value: u8) -> Seq<u8> {
    if backed(ram, at) {
        ram.update(at, value)
    } else {
        ram
    }
}

/// `ram` with the four bytes of `value` from index `at` on, least significant
/// first.
pub open spec fn store_word(ram: Seq<u8>, at: int, value: u32) -> Seq<u8> {
    store(
        store(
            store(store(ram, at, byte_of(value, 0)), at + 1, byte_of(value, 1)),
            at + 2,
            byte_of(value, 2),
        ),
        at + 3,
        byte_of(value, 3),
    )
}

/// What a byte read at `addr` yields: the byte of the first region that covers
/// `addr`, at the offset from its base; else the byte of memory; else zero,
/// where memory ends before `addr`.
pub open spec fn bus_read8<D: AddressSpace>(bus: BusView<D::V>, addr: u32) -> u8 {
    match first_cover(bus.regions, addr, 0) {
        Some(i) => D::read8_spec(bus.regions[i].device, (addr - bus.regions[i].base) as u32),
        None => if backed(bus.ram, addr as int) {
            bus.ram[addr as int]
        } else {
            0
        },
    }
}

/// Where a byte write at `addr` leads: to a write on the device of the first
/// region that covers `addr`, with memory untouched; else to a write on
/// memory, which is dropped where memory ends before `addr`.
pub open spec fn bus_write8<D: AddressSpace>(bus: BusView<D::V>, addr: u32, value: u8) -> BusView<
    D::V,
> {
    match first_cover(bus.regions, addr, 0) {
        Some(i) => BusView {
            ram: bus.ram,
            regions: bus.regions.update(
                i,
                RegionView {
                    name: bus.regions[i].name,
                    base: bus.regions[i].base,
                    size: bus.regions[i].size,
                    device: D::write8_spec(
                        bus.regions[i].device,
                        (addr - bus.regions[i].base) as u32,
                        value,
                    ),
                },
            ),
        },
        None => BusView { ram: store(bus.ram, addr as int, value), regions: bus.regions },
    }
}

/// Where a word write at `addr` leads: to a word write on the device of the
/// first region that covers `addr`; else to four byte writes on memory from
/// `addr` on, least significant byte first.
pub open spec fn bus_write32<D: AddressSpace>(bus: BusView<D::V>, addr: u32, value: u32) -> BusView<
    D::V,
> {
    match first_cover(bus.regions, addr, 0) {
        Some(i) => BusView {
            ram: bus.ram,
            regions: bus.regions.update(
                i,
                RegionView {
                    name: bus.regions[i].name,
                    base: bus.regions[i].base,
                    size: bus.regions[i].size,
                    device: D::write32_spec(
                        bus.regions[i].device,
                        (addr - bus.regions[i].base) as u32,
                        value,
                    ),
                },
            ),
        },
        None => BusView { ram: store_word(bus.ram, addr as int, value), regions: bus.regions },
    }
}

/// The bus after the first `n` of `words` were written, one word every four
/// bytes from `at` on.
pub open spec fn programmed<D: AddressSpace>(
    bus: BusView<D::V>,
    at: u32,
    words: Seq<u32>,
    n: nat,
) -> BusView<D::V>
    decreases n,
{
    if n == 0 {
        bus
    } else {
        bus_write32::<D>(
            programmed::<D>(bus, at, words, (n - 1) as nat),
            (at + 4 * (n - 1)) as u32,
            words[n - 1],
        )
    }
}

/// Whether `addr` is plain memory: no region covers it and memory reaches it.
pub open spec fn plain<S>(bus: BusView<S>, addr: u32) -> bool {
    first_cover(bus.regions, addr, 0) is None && backed(bus.ram, addr as int)
}

/// One memory and the regions registered over it.
pub struct Bus<D> {
    pub ram: Memory,
    pub regions: Vec<MmioRegion<D>>,
}

impl<D: View> View for Bus<D> {
    type V = BusView<D::V>;

    open spec fn view(&self) -> BusView<D::V> {
        BusView { ram: self.ram@, regions: self.regions@.map_values(|r: MmioRegion<D>| r@) }
    }
}

impl<D: AddressSpace> Bus<D> {
    /// A bus without regions over the memory that a mapping request yielded.
    pub fn over(memory: Result<Memory, MemoryError>) -> (bus: Result<Bus<D>, MemoryError>)
        ensures
            memory matches Ok(m) ==> bus matches Ok(b) && b@.ram == m@ && b@.regions.len() == 0,
            memory matches Err(e) ==> bus == Err::<Bus<D>, MemoryError>(e),
    {
        match memory {
            Ok(ram) => {
                let bus = Bus { ram, regions: Vec::new() };
                assert(bus@.regions =~= Seq::empty());
                Ok(bus)
            },
            Err(e) => Err(e),
        }
    }

    /// A bus without regions over `size` zeroed bytes of memory, if the
    /// operating system grants them.
    pub fn new_empty(size: usize) -> (bus: Result<Bus<D>, MemoryError>)
        ensures
            bus matches Ok(b) ==> b@.ram == crate::memory::zeros(size as nat) && b@.regions.len()
                == 0,
            bus matches Err(e) ==> e == MemoryError::MapFailed,
            size > isize::MAX ==> bus is Err,
    {
        Bus::over(Memory::empty(size))
    }

    /// Registers `device` for `[base, base + size)`, behind every region
    /// registered before.
    pub fn register(&mut self, name: String, base: u32, size: u32, device: D)
        ensures
            final(self)@.ram == old(self)@.ram,
            final(self)@.regions == old(self)@.regions.push(
                RegionView { name: name@, base, size, device: device@ },
            ),
    {
        self.regions.push(MmioRegion { name, base, size, device });
        assert(self@.regions =~= old(self)@.regions.push(
            RegionView { name: name@, base, size, device: device@ },
        ));
    }

    /// Writes `words` to consecutive addresses from `at` on, each as a word
    /// write of its own.
    pub fn load(&mut self, at: u32, words: &Vec<u32>)
        requires
            at + 4 * words.len() <= u32::MAX + 1,
        ensures
            final(self)@ == programmed::<D>(old(self)@, at, words@, words.len() as nat),
    {
        let mut i: usize = 0;
        while i < words.len()
            invariant
                i <= words.len(),
                at + 4 * words.len() <= u32::MAX + 1,
                self@ == programmed::<D>(old(self)@, at, words@, i as nat),
            decreases words.len() - i,
        {
            self.write32(at + 4 * (i as u32), words[i]);
            i = i + 1;
        }
    }

    /// Stores a byte in memory where memory reaches `at`, and drops it where
    /// it does not.
    fn store_byte(&mut self, at: u64, value: u8)
        ensures
            final(self).ram@ == store(old(self).ram@, at as int, value),
            final(self).regions == old(self).regions,
    {
        if at <= 0xFFFF_FFFF && at < self.ram.len() as u64 {
            self.ram.write8(at as u32, value);
        }
    }

    /// The index of the first region that covers `addr`.
    pub fn region_of(&self, addr: u32) -> (found: Option<usize>)
        ensures
            match found {
                Some(i) => first_cover(self@.regions, addr, 0) == Some(i as int) && i
                    < self.regions.len() && self@.regions[i as int].covers(addr),
                None => first_cover(self@.regions, addr, 0) is None,
            },
    {
        let mut i: usize = 0;
        while i < self.regions.len()
            invariant
                i <= self.regions.len(),
                self@.regions.len() == self.regions.len(),
                first_cover(self@.regions, addr, 0) == first_cover(self@.regions, addr, i as int),
            decreases self.regions.len() - i,
        {
            if self.regions[i].covers(addr) {
                return Some(i);
            }
            i = i + 1;
        }
        None
    }
}

impl<D: AddressSpace> AddressSpace for Bus<D> {
    open spec fn read8_spec(state: BusView<D::V>, addr: u32) -> u8 {
        bus_read8::<D>(state, addr)
    }

    open spec fn write8_spec(state: BusView<D::V>, addr: u32, value: u8) -> BusView<D::V> {
        bus_write8::<D>(state, addr, value)
    }

    open spec fn write32_spec(state: BusView<D::V>, addr: u32, value: u32) -> BusView<D::V> {
        bus_write32::<D>(state, addr, value)
    }

    fn read8(&self, addr: u32) -> (byte: u8) {
        match self.region_of(addr) {
            Some(i) => {
                let region = &self.regions[i];
                region.device.read8(addr - region.base)
            },
            None => {
                if (addr as usize) < self.ram.len() {
                    self.ram.read8(addr)
                } else {
                    0
                }
            },
        }
    }

    fn write8(&mut self, addr: u32, value: u8) {
        match self.region_of(addr) {
            Some(i) => {
                let offset: u32 = addr - self.regions[i].base;
                self.regions[i].device.write8(offset, value);
                assert(self@.regions =~= bus_write8::<D>(old(self)@, addr, value).regions);
            },
            None => self.store_byte(addr as u64, value),
        }
    }

    fn write32(&mut self, addr: u32, value: u32) {
        match self.region_of(addr) {
            Some(i) => {
                let offset: u32 = addr - self.regions[i].base;
                self.regions[i].device.write32(offset, value);
                assert(self@.regions =~= bus_write32::<D>(old(self)@, addr, value).regions);
            },
            None => {
                let bytes = to_bytes(value);
                let at = addr as u64;
                self.store_byte(at, bytes[0]);
                self.store_byte(at + 1, bytes[1]);
                self.store_byte(at + 2, bytes[2]);
                self.store_byte(at + 3, bytes[3]);
            },
        }
    }
}

/// The first region that covers an address is the one that `first_cover`
/// finds: it covers the address and no region registered before it does; and
/// where `first_cover` finds none, no region covers the address.
pub proof fn lemma_first_cover<S>(regions: Seq<RegionView<S>>, addr: u32, from: int)
    requires
        0 <= from,
    ensures
        match first_cover(regions, addr, from) {
            Some(i) => from <= i < regions.len() && regions[i].covers(addr) && forall|j: int|
                from <= j < i ==> !regions[j].covers(addr),
            None => forall|j: int| from <= j < regions.len() ==> !regions[j].covers(addr),
        },
    decreases regions.len() - from,
{
    if from < regions.len() && !regions[from].covers(addr) {
        lemma_first_cover(regions, addr, from + 1);
    }
}

/// Routing. An address inside a registered region belongs to the first
/// region that covers it: a read yields what that device yields at the offset
/// from its base, and a write changes that device alone, leaving memory and
/// every other region as they were.
pub proof fn lemma_region_shadows_memory<D: AddressSpace>(
    bus: BusView<D::V>,
    addr: u32,
    value: u8,
    j: int,
)
    requires
        0 <= j < bus.regions.len(),
        bus.regions[j].covers(addr),
    ensures
        first_cover(bus.regions, addr, 0) matches Some(i) && {
            let offset = (addr - bus.regions[i].base) as u32;
            let written = bus_write8::<D>(bus, addr, value);
            &&& 0 <= i <= j
            &&& bus.regions[i].covers(addr)
            &&& forall|k: int| 0 <= k < i ==> !bus.regions[k].covers(addr)
            &&& bus_read8::<D>(bus, addr) == D::read8_spec(bus.regions[i].device, offset)
            &&& written.ram == bus.ram
            &&& written.regions.len() == bus.regions.len()
            &&& written.regions[i].device == D::write8_spec(bus.regions[i].device, offset, value)
            &&& forall|k: int|
                0 <= k < bus.regions.len() && k != i ==> written.regions[k] == bus.regions[k]
        },
{
    lemma_first_cover(bus.regions, addr, 0);
}

/// Plain memory stores. A write to an address that is plain memory changes
/// that byte of memory and nothing else: the byte is read back, every other
/// address reads as before, and every address that was plain memory still is.
pub proof fn lemma_plain_memory_stores<D: AddressSpace>(
    bus: BusView<D::V>,
    addr: u32,
    value: u8,
    other: u32,
)
    requires
        plain(bus, addr),
    ensures
        bus_read8::<D>(bus, addr) == bus.ram[addr as int],
        bus_write8::<D>(bus, addr, value).ram == bus.ram.update(addr as int, value),
        bus_write8::<D>(bus, addr, value).regions == bus.regions,
        bus_read8::<D>(bus_write8::<D>(bus, addr, value), addr) == value,
        other != addr ==> bus_read8::<D>(bus_write8::<D>(bus, addr, value), other) == bus_read8::<D>(
            bus,
            other,
        ),
        plain(bus, other) ==> plain(bus_write8::<D>(bus, addr, value), other),
{
}

/// Whether two buses have the same regions, whatever state their devices
/// and their memory are in.
pub open spec fn same_layout<S>(a: BusView<S>, b: BusView<S>) -> bool {
    &&& a.ram.len() == b.ram.len()
    &&& a.regions.len() == b.regions.len()
    &&& forall|i: int|
        0 <= i < a.regions.len() ==> {
            &&& (#[trigger] a.regions[i]).name == b.regions[i].name
            &&& a.regions[i].base == b.regions[i].base
            &&& a.regions[i].size == b.regions[i].size
        }
}

/// Regions are append-only: no write adds, removes, moves or renames a
/// region, nor changes the length of memory.
pub proof fn lemma_writes_keep_layout<D: AddressSpace>(
    bus: BusView<D::V>,
    addr: u32,
    byte: u8,
    word: u32,
)
    ensures
        same_layout(bus, bus_write8::<D>(bus, addr, byte)),
        same_layout(bus, bus_write32::<D>(bus, addr, word)),
{
    lemma_first_cover(bus.regions, addr, 0);
}

/// Loading words keeps the regions as they are.
pub proof fn lemma_load_keeps_layout<D: AddressSpace>(
    bus: BusView<D::V>,
    at: u32,
    words: Seq<u32>,
    n: nat,
)
    ensures
        same_layout(bus, programmed::<D>(bus, at, words, n)),
    decreases n,
{
    if n > 0 {
        lemma_load_keeps_layout::<D>(bus, at, words, (n - 1) as nat);
        lemma_writes_keep_layout::<D>(
            programmed::<D>(bus, at, words, (n - 1) as nat),
            (at + 4 * (n - 1)) as u32,
            0,
            words[n - 1],
        );
    }
}

/// A word write changes no byte of memory outside the four from its address
/// on, and loading words changes none outside the bytes from `at` up to the
/// end of the last word.
pub proof fn lemma_load_is_local<D: AddressSpace>(
    bus: BusView<D::V>,
    at: u32,
    words: Seq<u32>,
    n: nat,
    j: int,
)
    requires
        at + 4 * n <= u32::MAX + 1,
        0 <= j < bus.ram.len(),
        j < at || j >= at + 4 * n,
    ensures
        programmed::<D>(bus, at, words, n).ram.len() == bus.ram.len(),
        programmed::<D>(bus, at, words, n).ram[j] == bus.ram[j],
    decreases n,
{
    if n > 0 {
        lemma_load_is_local::<D>(bus, at, words, (n - 1) as nat, j);
    }
}

} // verus!
