//! Reading what the loader left behind.
//!
//! Only the framebuffer tag is parsed. The rest of the boot information
//! describes resources this kernel does not manage, and parsing tags it will
//! never act on would be code with no way to be wrong loudly.

use crate::framebuffer::Framebuffer;
use crate::memory::{Memory, MAPPED_LIMIT};
use vstd::prelude::*;

verus! {

/// The root table addresses out of the loader's copy of the RSDP.
#[derive(Debug, Clone, Copy, PartialEq, Eq, Structural)]
pub struct Rsdp {
    /// The 64-bit table, from revision 2; zero where there is none.
    pub xsdt: u64,
    /// The 32-bit table; firmware may leave it zero.
    pub rsdt: u32,
}

/// Tag type 8: the framebuffer the loader actually set up.
pub const TAG_FRAMEBUFFER: u32 = 8;

/// Tag type 0 ends the list.
pub const TAG_END: u32 = 0;

/// Framebuffer type 1 is a linear RGB surface. Type 2 is EGA text, which this
/// cannot draw on, and type 0 is indexed colour, which would need the palette
/// programmed first.
pub const FRAMEBUFFER_TYPE_RGB: u8 = 1;

/// The first address a framebuffer is refused at: four gigabytes.
pub const FRAMEBUFFER_LIMIT: u64 = 0x1_0000_0000;

/// A surface, as a framebuffer tag describes one.
#[derive(Debug, Clone, Copy, PartialEq, Eq, Structural)]
pub struct Surface {
    pub address: u64,
    pub pitch: u32,
    pub width: u32,
    pub height: u32,
    pub bits_per_pixel: u8,
}

impl Surface {
    /// Whether pixels can be written to it: it is somewhere, it has a size,
    /// and its pixels take two to four bytes.
    pub open spec fn usable(self) -> bool {
        &&& self.address != 0
        &&& self.width > 0
        &&& self.height > 0
        &&& 2 <= (self.bits_per_pixel + 7) / 8 <= 4
    }
}

/// How far the next tag is: this one's size, to an eight-byte boundary.
pub open spec fn tag_span(size: int) -> int {
    (size + 7) / 8 * 8
}

/// The surface of a framebuffer tag, where it is one this can draw on: linear
/// RGB, below four gigabytes, of a usable size and depth.
pub open spec fn surface_of<F: Fn(u64) -> u8>(memory: Memory<F>, tag: int) -> Option<Surface> {
    let surface = Surface {
        address: memory.long(tag + 8),
        pitch: memory.word(tag + 16),
        width: memory.word(tag + 20),
        height: memory.word(tag + 24),
        bits_per_pixel: memory.byte(tag + 28),
    };
    if memory.byte(tag + 29) != FRAMEBUFFER_TYPE_RGB || surface.address >= FRAMEBUFFER_LIMIT
        || !surface.usable() {
        None
    } else {
        Some(surface)
    }
}

/// What the tags from `offset` on say: the first framebuffer tag long enough
/// to be one, unless the list ends before it.
pub open spec fn tags_from<F: Fn(u64) -> u8>(
    memory: Memory<F>,
    base: int,
    total: int,
    offset: int,
) -> Option<Surface>
    decreases
            if offset < total {
                total - offset
            } else {
                0
            },
{
    if offset < 0 || offset + 8 > total {
        None
    } else {
        let kind = memory.word(base + offset);
        let size = memory.word(base + offset + 4);
        if kind == TAG_END || size < 8 {
            None
        } else if kind == TAG_FRAMEBUFFER && size >= 32 {
            surface_of(memory, base + offset)
        } else {
            tags_from(memory, base, total, offset + tag_span(size as int))
        }
    }
}

/// What the boot information at `info` says of the framebuffer.
pub open spec fn described<F: Fn(u64) -> u8>(memory: Memory<F>, info: int) -> Option<Surface> {
    let total = memory.word(info);
    if info == 0 || info % 8 != 0 || total < 16 || total >= 0x10_0000 {
        None
    } else {
        tags_from(memory, info, total as int, 8)
    }
}

/// Finds the framebuffer the loader set up, if it set one up.
///
/// `info` is the boot information pointer the loader passed, or zero. The
/// structure it names ends at least a tag short of the end of the map.
pub fn framebuffer<F: Fn(u64) -> u8>(memory: &Memory<F>, info: u64) -> (r: Option<Surface>)
    requires
        memory.wf(),
        info + 0x10_0020 <= MAPPED_LIMIT,
    ensures
        r == described(*memory, info as int),
{
    if info == 0 || info % 8 != 0 {
        return None;
    }
    // The structure starts with its total size and a reserved word; tags
    // follow, each eight-byte aligned.
    let total: u32 = memory.read_u32(info, 0);
    if total < 16 || total >= 0x10_0000 {
        return None;
    }
    let mut offset: u64 = 8;
    while offset + 8 <= total as u64
        invariant
            memory.wf(),
            info + 0x10_0020 <= MAPPED_LIMIT,
            total < 0x10_0000,
            offset <= 0x2_0000_0000,
            described(*memory, info as int) == tags_from(
                *memory,
                info as int,
                total as int,
                offset as int,
            ),
        decreases total + 0x2_0000_0000 - offset,
    {
        let kind: u32 = memory.read_u32(info, offset);
        let size: u32 = memory.read_u32(info, offset + 4);
        if kind == TAG_END || size < 8 {
            return None;
        }
        if kind == TAG_FRAMEBUFFER && size >= 32 {
            let tag: u64 = info + offset;
            if memory.read_u8(tag, 29) != FRAMEBUFFER_TYPE_RGB {
                return None;
            }
            let surface = Surface {
                address: memory.read_u64(tag, 8),
                pitch: memory.read_u32(tag, 16),
                width: memory.read_u32(tag, 20),
                height: memory.read_u32(tag, 24),
                bits_per_pixel: memory.read_u8(tag, 28),
            };
            // Anything beyond the first four gigabytes is refused rather than
            // written to: firmware puts framebuffers below.
            if surface.address == 0 || surface.address >= FRAMEBUFFER_LIMIT {
                return None;
            }
            let depth: u32 = (surface.bits_per_pixel as u32 + 7) / 8;
            if surface.width > 0 && surface.height > 0 && depth >= 2 && depth <= 4 {
                return Some(surface);
            }
            return None;
        }
        // Tags are padded to an eight-byte boundary.
        offset = offset + (size as u64 + 7) / 8 * 8;
    }
    None
}

impl Surface {
    /// The surface fits the memory it is drawn in before it is copied out,
    /// and its rows fit their pitch.
    pub open spec fn fits(self, length: int) -> bool {
        &&& self.pitch * self.height <= length
        &&& self.pitch * self.height <= u32::MAX
        &&& self.width * ((self.bits_per_pixel + 7) / 8) <= self.pitch
    }
}

/// Puts memory behind a surface, where it is enough of it.
pub fn attach(surface: &Surface, memory: Vec<u8>) -> (r: Option<Framebuffer>)
    ensures
        r is Some <==> surface.fits(memory@.len() as int),
        r matches Some(fb) ==> {
            &&& fb.wf()
            &&& surface.usable() ==> fb.drawable()
            &&& fb.base == surface.address
            &&& fb.width == surface.width
            &&& fb.height == surface.height
            &&& fb.pitch == surface.pitch
            &&& fb.bytes_per_pixel == (surface.bits_per_pixel + 7) / 8
            &&& fb.store@ == memory@
        },
{
    let depth: u64 = (surface.bits_per_pixel as u64 + 7) / 8;
    proof {
        assert(surface.pitch * surface.height <= 0xFFFF_FFFF * 0xFFFF_FFFF) by (nonlinear_arith)
            requires
                surface.pitch <= 0xFFFF_FFFF,
                surface.height <= 0xFFFF_FFFF,
        ;
        assert(surface.width * depth <= 0xFFFF_FFFF * 32) by (nonlinear_arith)
            requires
                surface.width <= 0xFFFF_FFFF,
                depth <= 32,
        ;
        assert(surface.pitch * surface.height >= 0 && surface.width * depth >= 0)
            by (nonlinear_arith);
    }
    let size: u64 = surface.pitch as u64 * surface.height as u64;
    if size > memory.len() as u64 || size > u32::MAX as u64 || surface.width as u64 * depth
        > surface.pitch as u64 {
        return None;
    }
    Some(
        Framebuffer::new(
            surface.address,
            memory,
            surface.width,
            surface.height,
            surface.pitch,
            surface.bits_per_pixel,
        ),
    )
}

/// Whatever the boot information holds, a surface taken from it is below four
/// gigabytes, has a size, and has a pixel format that can be drawn in.
pub proof fn what_is_described_can_be_drawn_on<F: Fn(u64) -> u8>(memory: Memory<F>, info: int)
    ensures
        described(memory, info) matches Some(s) ==> s.usable() && s.address < FRAMEBUFFER_LIMIT,
{
    let total = memory.word(info);
    tags_are_drawable(memory, info, total as int, 8);
}

proof fn tags_are_drawable<F: Fn(u64) -> u8>(
    memory: Memory<F>,
    base: int,
    total: int,
    offset: int,
)
    ensures
        tags_from(memory, base, total, offset) matches Some(s) ==> s.usable() && s.address
            < FRAMEBUFFER_LIMIT,
    decreases
            if offset < total {
                total - offset
            } else {
                0
            },
{
    if 0 <= offset && offset + 8 <= total {
        let size = memory.word(base + offset + 4);
        if size >= 8 {
            tags_are_drawable(memory, base, total, offset + tag_span(size as int));
        }
    }
}

/// The next tag is at the next eight-byte boundary behind this one, and never
/// at this one.
pub proof fn tags_are_aligned(size: int)
    requires
        size >= 0,
    ensures
        tag_span(size) % 8 == 0,
        size <= tag_span(size) < size + 8,
{
}

/// A framebuffer tag's fields stand at 8, 16, 20, 24, 28 and 29, and it is one
/// to draw on exactly where it is of the direct kind, below four gigabytes and
/// not at zero, has a width and a height, and pixels of two to four bytes.
pub proof fn a_surface_is_what_its_tag_says<F: Fn(u64) -> u8>(memory: Memory<F>, tag: int)
    ensures
        ({
            let address = memory.long(tag + 8);
            let (width, height) = (memory.word(tag + 20), memory.word(tag + 24));
            let depth = memory.byte(tag + 28);
            let sound = memory.byte(tag + 29) == 1 && 0 < address < 4_294_967_296 && width > 0
                && height > 0 && 9 <= depth <= 32;
            &&& sound ==> (surface_of(memory, tag) matches Some(s) && s.address == address && s.pitch
                == memory.word(tag + 16) && s.width == width && s.height == height
                && s.bits_per_pixel == depth)
            &&& !sound ==> surface_of(memory, tag) is None
        }),
{
}

/// The tags are gone through from the first, and the first framebuffer tag that
/// is long enough settles it; a tag of kind zero, one too short to be a tag and
/// the end of the structure end the list before that.
pub proof fn tags_are_gone_through_in_order<F: Fn(u64) -> u8>(
    memory: Memory<F>,
    info: int,
    total: int,
    offset: int,
)
    requires
        0 <= offset,
    ensures
        ({
            let kind = memory.word(info + offset);
            let size = memory.word(info + offset + 4);
            let found = tags_from(memory, info, total, offset);
            &&& offset + 8 > total ==> found is None
            &&& offset + 8 <= total && (kind == 0 || size < 8) ==> found is None
            &&& offset + 8 <= total && kind == 8 && size >= 32 ==> found == surface_of(
                memory,
                info + offset,
            )
            &&& offset + 8 <= total && size >= 8 && kind != 0 && (kind != 8 || size < 32) ==> found
                == tags_from(memory, info, total, offset + (size + 7) / 8 * 8)
        }),
        ({
            let length = memory.word(info);
            let sound = info != 0 && info % 8 == 0 && 16 <= length < 1_048_576;
            &&& sound ==> described(memory, info) == tags_from(memory, info, length as int, 8)
            &&& !sound ==> described(memory, info) is None
        }),
{
}

/// A surface fits its memory where all of its rows do and every row's pixels fit
/// the row.
pub proof fn what_fits(s: Surface, length: int)
    requires
        s.usable(),
    ensures
        s.fits(length) <==> s.pitch * s.height <= length && s.pitch * s.height < 4_294_967_296
            && s.width * ((s.bits_per_pixel + 7) / 8) <= s.pitch,
{
}

} // verus!
