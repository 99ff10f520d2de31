//! What is decided and said between the loader's jump and the interface.

use crate::log::{hex, Log};
use crate::text::{digits, from_nothing, holds, utf8};
use vstd::prelude::*;

verus! {

/// What a multiboot2 loader leaves in `EAX`.
pub const MULTIBOOT2_BOOTLOADER_MAGIC: u64 = 0x36D7_6289;

/// What a multiboot1 loader leaves in `EAX`.
pub const MULTIBOOT1_BOOTLOADER_MAGIC: u64 = 0x2BAD_B002;

/// Who loaded this.
#[derive(Debug, Clone, Copy, PartialEq, Eq, Structural)]
pub enum Loader {
    Multiboot1,
    Multiboot2,
    Unknown,
}

impl Loader {
    /// Who leaves a magic number.
    pub open spec fn of(magic: u64) -> Loader {
        if magic == MULTIBOOT2_BOOTLOADER_MAGIC {
            Loader::Multiboot2
        } else if magic == MULTIBOOT1_BOOTLOADER_MAGIC {
            Loader::Multiboot1
        } else {
            Loader::Unknown
        }
    }

    /// Who leaves a magic number. Checked rather than assumed: booted some
    /// other way, the information pointer is whatever happened to be in the
    /// register.
    pub fn from_magic(magic: u64) -> (r: Loader)
        ensures
            r == Loader::of(magic),
    {
        if magic == MULTIBOOT2_BOOTLOADER_MAGIC {
            Loader::Multiboot2
        } else if magic == MULTIBOOT1_BOOTLOADER_MAGIC {
            Loader::Multiboot1
        } else {
            Loader::Unknown
        }
    }

    pub open spec fn label(self) -> Seq<char> {
        match self {
            Loader::Multiboot2 => "multiboot2"@,
            Loader::Multiboot1 => "multiboot1"@,
            Loader::Unknown => "unknown"@,
        }
    }

    pub fn name(self) -> (r: &'static str)
        ensures
            r@ == self.label(),
    {
        match self {
            Loader::Multiboot2 => "multiboot2",
            Loader::Multiboot1 => "multiboot1",
            Loader::Unknown => "unknown",
        }
    }

    /// The pointer to the boot information, where it means anything.
    pub open spec fn information_at(self, pointer: u64) -> u64 {
        if self == Loader::Unknown {
            0
        } else {
            pointer
        }
    }

    /// The pointer to the boot information, where there is any: zero where the
    /// magic says the pointer means nothing.
    pub fn information(self, pointer: u64) -> (r: u64)
        ensures
            r == self.information_at(pointer),
    {
        match self {
            Loader::Unknown => 0,
            _ => pointer,
        }
    }
}

/// What is said of the loader.
pub open spec fn loader_text(magic: u64) -> Seq<u8> {
    let named = utf8("booted by: ") + vstd::utf8::encode_utf8(Loader::of(magic).label());
    if Loader::of(magic) == Loader::Unknown {
        let warning = (utf8("warning: boot magic is ") + utf8("0x") + hex(magic as nat) + utf8(
            ", neither multiboot1 nor 2",
        )).push(10u8) + utf8("         the boot information structure is not being read");
        (warning.push(10u8) + utf8("booted by: ") + vstd::utf8::encode_utf8(
            Loader::of(magic).label(),
        )).push(10u8)
    } else {
        named.push(10u8)
    }
}

pub fn report_loader(magic: u64) -> (r: Log)
    ensures
        r@ == loader_text(magic),
{
    broadcast use from_nothing;

    let loader: Loader = Loader::from_magic(magic);
    let mut log = Log::new();
    if loader == Loader::Unknown {
        log.str("warning: boot magic is ").hex(magic).str(", neither multiboot1 nor 2").end();
        log.str("         the boot information structure is not being read").end();
    }
    log.str("booted by: ").str(loader.name()).end();
    log
}

/// What is said of a framebuffer that will be drawn on.
pub open spec fn surface_text(width: u32, height: u32) -> Seq<u8> {
    (utf8("framebuffer: ") + digits(width as nat) + utf8("x") + digits(height as nat) + utf8(
        ", drawing the interface",
    )).push(10u8)
}

pub fn report_surface(width: u32, height: u32) -> (r: Log)
    ensures
        r@ == surface_text(width, height),
{
    broadcast use from_nothing;

    let mut log = Log::new();
    log.str("framebuffer: ").num(width as u64).str("x").num(height as u64).str(
        ", drawing the interface",
    ).end();
    log
}

/// What is said where the loader left only a text mode behind. Without it the
/// loader's last message stays on screen, which is indistinguishable from a
/// kernel that never started.
pub open spec fn text_mode_text(version: Seq<u8>) -> Seq<u8> {
    ((seq![10u8] + utf8("NanoChronometer ") + version + utf8(" — freestanding")).push(10u8).push(
        10u8,
    ) + utf8("No linear framebuffer: the loader handed over a text mode.")).push(10u8) + utf8(
        "The graphical interface needs one; the measurements below do not.",
    ).push(10u8).push(10u8)
}

pub fn report_text_mode(version: &str) -> (r: Log)
    ensures
        r@ == text_mode_text(utf8(version)),
{
    let mut log = Log::new();
    log.end();
    assert(log@ =~= seq![10u8]);
    log.str("NanoChronometer ").str(version).str(" — freestanding").end().end();
    log.str("No linear framebuffer: the loader handed over a text mode.").end();
    let ghost before = log@;
    log.str("The graphical interface needs one; the measurements below do not.").end().end();
    assert(log@ =~= before + utf8(
        "The graphical interface needs one; the measurements below do not.",
    ).push(10u8).push(10u8));
    log
}

/// What is said after the measurements in a text mode.
pub open spec fn text_mode_hint() -> Seq<u8> {
    (seq![10u8] + utf8("Boot with gfxpayload=keep for the interface.")).push(10u8)
}

pub fn report_text_mode_hint() -> (r: Log)
    ensures
        r@ == text_mode_hint(),
{
    let mut log = Log::new();
    log.end();
    assert(log@ =~= seq![10u8]);
    log.str("Boot with gfxpayload=keep for the interface.").end();
    log
}

/// What is said where the mode is too large to be composed in memory first.
pub fn direct_drawing() -> (r: &'static str)
    ensures
        r@ == "mode too large for the back buffer; drawing directly"@,
{
    "mode too large for the back buffer; drawing directly"
}

/// What an Arm board says, which has a console and no screen yet.
pub open spec fn no_interface_text(total_memory: u64) -> Seq<u8> {
    (utf8("interface : the AArch64 frame is in progress; halting (") + digits(
        total_memory as nat,
    ) + utf8(" bytes usable)")).push(10u8)
}

pub fn report_no_interface(total_memory: u64) -> (r: Log)
    ensures
        r@ == no_interface_text(total_memory),
{
    broadcast use from_nothing;

    let mut log = Log::new();
    log.str("interface : the AArch64 frame is in progress; halting (").num(total_memory).str(
        " bytes usable)",
    ).end();
    log
}

/// A loader is known by its magic, and only a known one's pointer is followed.
pub proof fn only_a_known_loader_is_believed(magic: u64, pointer: u64)
    ensures
        magic == 0x36D7_6289 ==> Loader::of(magic) == Loader::Multiboot2,
        magic == 0x2BAD_B002 ==> Loader::of(magic) == Loader::Multiboot1,
        magic != 0x36D7_6289 && magic != 0x2BAD_B002 ==> Loader::of(magic) == Loader::Unknown,
        Loader::of(magic).information_at(pointer) == (if magic == 0x36D7_6289 || magic
            == 0x2BAD_B002 {
            pointer
        } else {
            0
        }),
{
}

/// The loader is named, and a magic that is no loader's is told as it is.
pub proof fn the_loader_is_told_of(magic: u64)
    ensures
        holds(
            loader_text(magic),
            utf8("booted by: ") + vstd::utf8::encode_utf8(Loader::of(magic).label()),
        ),
        magic != 0x36D7_6289 && magic != 0x2BAD_B002 ==> holds(
            loader_text(magic),
            utf8("0x") + hex(magic as nat),
        ),
        magic == 0x36D7_6289 || magic == 0x2BAD_B002 ==> loader_text(magic) == (utf8("booted by: ")
            + vstd::utf8::encode_utf8(Loader::of(magic).label())).push(10u8),
{
    broadcast use crate::text::group_holds;

    let name = vstd::utf8::encode_utf8(Loader::of(magic).label());
    assert(utf8("booted by: ") + name =~= Seq::<u8>::empty() + utf8("booted by: ") + name);
}

/// The surface is told of with its width first and its height second, and the
/// memory of a board without a screen in bytes.
pub proof fn the_surface_is_told_of(width: u32, height: u32, total: u64)
    ensures
        holds(surface_text(width, height), utf8("framebuffer: ") + digits(width as nat)),
        holds(surface_text(width, height), utf8("x") + digits(height as nat)),
        holds(
            no_interface_text(total),
            utf8("interface : the AArch64 frame is in progress; halting (") + digits(total as nat),
        ),
{
    broadcast use crate::text::group_holds;

    let start = Seq::<u8>::empty();
    assert(utf8("framebuffer: ") + digits(width as nat) =~= start + utf8("framebuffer: ") + digits(
        width as nat,
    ));
    let label = utf8("interface : the AArch64 frame is in progress; halting (");
    assert(label + digits(total as nat) =~= start + label + digits(total as nat));
}

/// Whatever is said ends its line, and what is said of a text mode names the
/// version and what is missing, each on a line of its own.
pub proof fn every_report_ends_its_line(version: Seq<u8>, width: u32, height: u32, total: u64)
    ensures
        surface_text(width, height).last() == 10,
        no_interface_text(total).last() == 10,
        text_mode_hint().last() == 10 && text_mode_hint()[0] == 10,
        holds(text_mode_hint(), utf8("Boot with gfxpayload=keep for the interface.")),
        ({
            let said = text_mode_text(version);
            let name = utf8("NanoChronometer ") + version + utf8(" — freestanding");
            let missing = utf8("No linear framebuffer: the loader handed over a text mode.");
            let rest = utf8("The graphical interface needs one; the measurements below do not.");
            said == seq![10u8] + name + seq![10u8, 10u8] + missing + seq![10u8] + rest + seq![
                10u8,
                10u8,
            ]
        }),
{
    let said = text_mode_text(version);
    let name = utf8("NanoChronometer ") + version + utf8(" — freestanding");
    let missing = utf8("No linear framebuffer: the loader handed over a text mode.");
    let rest = utf8("The graphical interface needs one; the measurements below do not.");
    assert(said =~= seq![10u8] + name + seq![10u8, 10u8] + missing + seq![10u8] + rest + seq![
        10u8,
        10u8,
    ]);
    let hint = utf8("Boot with gfxpayload=keep for the interface.");
    assert(text_mode_hint() =~= seq![10u8] + hint + seq![10u8]);
    assert(crate::text::splits(text_mode_hint(), seq![10u8], hint, seq![10u8]));
}

} // verus!
