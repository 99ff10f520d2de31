//! Firmware memory, as something that can be read a byte at a time.
//!
//! The reader is supplied by the platform. Every read is proved to be inside
//! the identity map: this kernel has no IDT, and a read outside the map is a
//! page fault with no handler, which is a dead machine rather than an error.

use vstd::prelude::*;

verus! {

/// The end of the identity map: 512 GiB.
pub const MAPPED_LIMIT: u64 = 0x80_0000_0000;

/// Physical memory, read through the identity map.
pub struct Memory<F: Fn(u64) -> u8> {
    pub read: F,
}

/// Whether `length` bytes at `address` are inside the identity map.
pub open spec fn is_mapped(address: int, length: int) -> bool {
    0 < address && 0 <= length && address + length <= MAPPED_LIMIT && address < MAPPED_LIMIT
}

/// Whether `length` bytes at `address` are inside the identity map.
pub fn mapped(address: u64, length: u64) -> (r: bool)
    ensures
        r == is_mapped(address as int, length as int),
{
    address != 0 && address < MAPPED_LIMIT && length <= MAPPED_LIMIT - address
}

impl<F: Fn(u64) -> u8> Memory<F> {
    /// What a read of an address returns.
    pub open spec fn at(self, address: u64) -> u8 {
        choose|value: u8| call_ensures(self.read, (address,), value)
    }

    /// The byte at an address.
    pub open spec fn byte(self, address: int) -> u8 {
        self.at(address as u64)
    }

    /// Every mapped address can be read, and reads the same each time.
    pub open spec fn wf(self) -> bool {
        &&& forall|a: u64| a < MAPPED_LIMIT ==> #[trigger] call_requires(self.read, (a,))
        &&& forall|a: u64, value: u8|
            a < MAPPED_LIMIT && #[trigger] call_ensures(self.read, (a,), value) ==> value
                == self.at(a)
    }

    /// The little-endian word at an address.
    pub open spec fn half(self, address: int) -> u16 {
        (self.byte(address) + 0x100 * self.byte(address + 1)) as u16
    }

    /// The little-endian double word at an address.
    pub open spec fn word(self, address: int) -> u32 {
        (self.byte(address) + 0x100 * self.byte(address + 1) + 0x1_0000 * self.byte(address + 2)
            + 0x100_0000 * self.byte(address + 3)) as u32
    }

    /// The little-endian quad word at an address.
    pub open spec fn long(self, address: int) -> u64 {
        (self.word(address) + 0x1_0000_0000 * self.word(address + 4)) as u64
    }

    /// Whether the four bytes at an address are these.
    pub open spec fn reads_as(self, address: int, name: Seq<u8>) -> bool {
        forall|i: int| 0 <= i < name.len() ==> #[trigger] self.byte(address + i) == name[i]
    }

    /// The sum of `length` bytes at an address.
    pub open spec fn sum(self, address: int, length: int) -> int
        decreases length,
    {
        if length <= 0 {
            0
        } else {
            self.sum(address, length - 1) + self.byte(address + length - 1)
        }
    }

    /// Whether a structure's bytes are mapped and sum to zero, as an ACPI
    /// structure's are defined to.
    pub open spec fn sums_to_zero(self, address: int, length: int) -> bool {
        is_mapped(address, length) && length > 0 && self.sum(address, length) % 256 == 0
    }

    /// Reads the byte at `base + offset`.
    pub fn read_u8(&self, base: u64, offset: u64) -> (r: u8)
        requires
            self.wf(),
            base + offset < MAPPED_LIMIT,
        ensures
            r == self.byte(base + offset),
    {
        (self.read)(base + offset)
    }

    /// Reads the word at `base + offset`.
    pub fn read_u16(&self, base: u64, offset: u64) -> (r: u16)
        requires
            self.wf(),
            base + offset + 2 <= MAPPED_LIMIT,
        ensures
            r == self.half(base + offset),
    {
        let b0: u16 = self.read_u8(base, offset) as u16;
        let b1: u16 = self.read_u8(base, offset + 1) as u16;
        b0 + 0x100 * b1
    }

    /// Reads the double word at `base + offset`.
    pub fn read_u32(&self, base: u64, offset: u64) -> (r: u32)
        requires
            self.wf(),
            base + offset + 4 <= MAPPED_LIMIT,
        ensures
            r == self.word(base + offset),
    {
        let b0: u32 = self.read_u8(base, offset) as u32;
        let b1: u32 = self.read_u8(base, offset + 1) as u32;
        let b2: u32 = self.read_u8(base, offset + 2) as u32;
        let b3: u32 = self.read_u8(base, offset + 3) as u32;
        b0 + 0x100 * b1 + 0x1_0000 * b2 + 0x100_0000 * b3
    }

    /// Reads the quad word at `base + offset`.
    pub fn read_u64(&self, base: u64, offset: u64) -> (r: u64)
        requires
            self.wf(),
            base + offset + 8 <= MAPPED_LIMIT,
        ensures
            r == self.long(base + offset),
    {
        let low: u64 = self.read_u32(base, offset) as u64;
        let high: u64 = self.read_u32(base, offset + 4) as u64;
        low + 0x1_0000_0000 * high
    }

    /// Whether the bytes at `base + offset` are `name`.
    pub fn reads(&self, base: u64, offset: u64, name: &[u8]) -> (r: bool)
        requires
            self.wf(),
            base + offset + name@.len() <= MAPPED_LIMIT,
        ensures
            r == self.reads_as(base + offset, name@),
    {
        let mut i: usize = 0;
        while i < name.len()
            invariant
                self.wf(),
                i <= name@.len(),
                base + offset + name@.len() <= MAPPED_LIMIT,
                forall|j: int| 0 <= j < i ==> #[trigger] self.byte(base + offset + j) == name@[j],
            decreases name@.len() - i,
        {
            if self.read_u8(base, offset + i as u64) != name[i] {
                assert(self.byte(base + offset + i) != name@[i as int]);
                return false;
            }
            i += 1;
        }
        true
    }

    /// Whether an ACPI structure's bytes sum to zero.
    ///
    /// A short signature scanned across a ROM matches by accident sooner or
    /// later, and a byte sequence that happens to match is not a system
    /// description. Without this a false positive is followed into whatever
    /// it points at.
    pub fn checksum_ok(&self, address: u64, length: u64) -> (r: bool)
        requires
            self.wf(),
        ensures
            r == self.sums_to_zero(address as int, length as int),
    {
        if !mapped(address, length) || length == 0 {
            return false;
        }
        let mut sum: u8 = 0;
        let mut i: u64 = 0;
        while i < length
            invariant
                self.wf(),
                i <= length,
                is_mapped(address as int, length as int),
                sum == self.sum(address as int, i as int) % 256,
            decreases length - i,
        {
            sum = sum.wrapping_add(self.read_u8(address, i));
            i += 1;
        }
        sum == 0
    }
}

/// The map starts above zero and ends at 512 GiB; what is inside it is inside
/// it to its last byte.
pub proof fn the_map_has_its_bounds(address: int, length: int)
    ensures
        is_mapped(address, length) <==> 1 <= address < 549_755_813_888 && 0 <= length <= 549_755_813_888
            - address,
{
}

/// Words are little-endian: the lowest address holds the least significant
/// byte, and nothing of the others is lost.
pub proof fn words_are_little_endian<F: Fn(u64) -> u8>(memory: Memory<F>, a: int)
    ensures
        memory.half(a) % 256 == memory.byte(a),
        memory.half(a) / 256 == memory.byte(a + 1),
        memory.word(a) % 256 == memory.byte(a),
        memory.word(a) / 256 % 256 == memory.byte(a + 1),
        memory.word(a) / 65536 % 256 == memory.byte(a + 2),
        memory.word(a) / 16777216 == memory.byte(a + 3),
        memory.long(a) % 0x1_0000_0000 == memory.word(a),
        memory.long(a) / 0x1_0000_0000 == memory.word(a + 4),
{
}

/// A sum is over every byte and each of them once: one byte's is the byte, and
/// two stretches that meet add up.
pub proof fn sums_add_up<F: Fn(u64) -> u8>(memory: Memory<F>, a: int, m: int, n: int)
    requires
        0 <= m,
        0 <= n,
    ensures
        memory.sum(a, 0) == 0,
        memory.sum(a, 1) == memory.byte(a),
        memory.sum(a, m + n) == memory.sum(a, m) + memory.sum(a + m, n),
    decreases n,
{
    assert(memory.sum(a, 1) == memory.sum(a, 0) + memory.byte(a));
    if n > 0 {
        sums_add_up(memory, a, m, n - 1);
        assert(a + (m + n) - 1 == (a + m) + n - 1);
    }
}

/// A structure verifies exactly where it is in the map, has bytes, and they sum
/// to a multiple of 256; a name is there exactly where each of its bytes is.
pub proof fn what_verifies<F: Fn(u64) -> u8>(memory: Memory<F>, a: int, n: int, name: Seq<u8>)
    ensures
        memory.sums_to_zero(a, n) <==> is_mapped(a, n) && n > 0 && memory.sum(a, n) % 256 == 0,
        name.len() == 4 ==> (memory.reads_as(a, name) <==> memory.byte(a) == name[0]
            && memory.byte(a + 1) == name[1] && memory.byte(a + 2) == name[2] && memory.byte(a + 3)
            == name[3]),
{
    if name.len() == 4 {
        assert(memory.byte(a + 0) == memory.byte(a));
        if memory.byte(a) == name[0] && memory.byte(a + 1) == name[1] && memory.byte(a + 2)
            == name[2] && memory.byte(a + 3) == name[3] {
            assert forall|i: int| 0 <= i < name.len() implies #[trigger] memory.byte(a + i)
                == name[i] by {
                assert(i == 0 || i == 1 || i == 2 || i == 3);
            }
        }
    }
}

} // verus!
