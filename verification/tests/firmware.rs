//! What the loader and the firmware leave in memory.

use std::collections::HashMap;

use nanochrono::acpi::{
    dsdt, find_root, for_each_ssdt, for_each_table_signature, legacy_scan_works, power_registers,
    reboot, root_source, set_root_table, shutdown, ssdt_count, LoaderRoot, PortWrite,
    PowerRegisters, Reboot, RebootAction, RootSource, DRAIN_LOOKS,
};
use nanochrono::memory::{mapped, Memory, MAPPED_LIMIT};
use nanochrono::multiboot::{framebuffer, Rsdp, Surface};
use nanochrono::psci;

/// A machine's memory, mostly zero.
struct Image {
    bytes: HashMap<u64, u8>,
}

impl Image {
    fn new() -> Image {
        Image { bytes: HashMap::new() }
    }

    fn put(&mut self, at: u64, bytes: &[u8]) {
        for (i, b) in bytes.iter().enumerate() {
            self.bytes.insert(at + i as u64, *b);
        }
    }

    fn word(&mut self, at: u64, value: u32) {
        self.put(at, &value.to_le_bytes());
    }

    fn long(&mut self, at: u64, value: u64) {
        self.put(at, &value.to_le_bytes());
    }

    /// Sets the byte at `fix` so that `length` bytes from `at` sum to zero.
    fn seal(&mut self, at: u64, length: u64, fix: u64) {
        self.bytes.insert(at + fix, 0);
        let sum = (0..length)
            .map(|i| *self.bytes.get(&(at + i)).unwrap_or(&0))
            .fold(0u8, |a, b| a.wrapping_add(b));
        self.bytes.insert(at + fix, sum.wrapping_neg());
    }

    /// A table with a header, sealed.
    fn table(&mut self, at: u64, name: &[u8; 4], length: u32) {
        self.put(at, name);
        self.word(at + 4, length);
        self.seal(at, length as u64, 9);
    }

    fn memory(&self) -> Memory<impl Fn(u64) -> u8 + '_> {
        Memory { read: move |a: u64| *self.bytes.get(&a).unwrap_or(&0) }
    }
}

/// An XSDT at 0x10000 that lists a FADT, two SSDTs and a damaged third.
fn machine() -> (Image, LoaderRoot) {
    let mut m = Image::new();
    // The DSDT, with a sleep package in it.
    m.put(0x3_0000 + 40, b"_S5_\x12\x0A\x04\x0A\x05\x0A\x07");
    m.table(0x3_0000, b"DSDT", 64);
    // The FADT.
    m.word(0x2_0000 + 40, 0x3_0000);
    m.word(0x2_0000 + 64, 0x0404);
    m.word(0x2_0000 + 68, 0x0408);
    m.word(0x2_0000 + 112, 0x400);
    m.put(0x2_0000 + 116, &[1]);
    m.word(0x2_0000 + 120, 0xCF9);
    m.put(0x2_0000 + 128, &[6]);
    m.table(0x2_0000, b"FACP", 140);
    m.table(0x4_0000, b"SSDT", 50);
    m.table(0x5_0000, b"SSDT", 60);
    m.table(0x6_0000, b"SSDT", 60);
    m.put(0x6_0000 + 40, &[1]);
    // The root.
    for (i, at) in [0x2_0000u64, 0x4_0000, 0x6_0000, 0x5_0000].iter().enumerate() {
        m.long(0x1_0000 + 36 + 8 * i as u64, *at);
    }
    m.table(0x1_0000, b"XSDT", 36 + 32);
    let mut loader = LoaderRoot::unset();
    set_root_table(&mut loader, Rsdp { xsdt: 0x1_0000, rsdt: 0 });
    (m, loader)
}

#[test]
fn addresses_past_the_map_are_not_followed() {
    assert!(mapped(0x1000, 36));
    assert!(!mapped(0, 36));
    assert!(mapped(MAPPED_LIMIT - 36, 36));
    assert!(!mapped(MAPPED_LIMIT - 35, 36));
    assert!(!mapped(u64::MAX, 1));
}

#[test]
fn words_are_little_endian() {
    let mut m = Image::new();
    m.put(0x100, &[0x78, 0x56, 0x34, 0x12, 0xEF, 0xCD, 0xAB, 0x89]);
    let memory = m.memory();
    assert_eq!(memory.read_u8(0x100, 1), 0x56);
    assert_eq!(memory.read_u16(0x100, 0), 0x5678);
    assert_eq!(memory.read_u32(0x100, 0), 0x1234_5678);
    assert_eq!(memory.read_u64(0x100, 0), 0x89AB_CDEF_1234_5678);
    assert!(memory.reads(0x100, 2, &[0x34, 0x12]));
    assert!(!memory.reads(0x100, 2, &[0x34, 0x13]));
}

#[test]
fn a_structure_sums_to_zero() {
    let mut m = Image::new();
    m.put(0x100, &[1, 2, 3]);
    m.seal(0x100, 4, 3);
    assert!(m.memory().checksum_ok(0x100, 4));
    assert!(!m.memory().checksum_ok(0x100, 3));
    assert!(!m.memory().checksum_ok(0x100, 0));
}

#[test]
fn the_loader_prefers_the_wide_table() {
    let mut root = LoaderRoot::unset();
    set_root_table(&mut root, Rsdp { xsdt: 0, rsdt: 0 });
    assert_eq!(root, LoaderRoot { address: 0, is_xsdt: false });
    set_root_table(&mut root, Rsdp { xsdt: 0, rsdt: 0x500 });
    assert_eq!(root, LoaderRoot { address: 0x500, is_xsdt: false });
    set_root_table(&mut root, Rsdp { xsdt: 0x900, rsdt: 0x500 });
    assert_eq!(root, LoaderRoot { address: 0x900, is_xsdt: true });
}

#[test]
fn the_root_is_the_loaders() {
    let (m, loader) = machine();
    let memory = m.memory();
    let root = find_root(&memory, loader).unwrap();
    assert!(root.is_xsdt());
    assert_eq!(root.address, 0x1_0000);
    let (source, wide) = root_source(&memory, loader);
    assert_eq!((source, wide), (RootSource::Loader, true));
    assert_eq!(source.name(), "loader (multiboot2 tag)");
    assert!(!legacy_scan_works(&memory));
}

#[test]
fn without_a_loader_the_low_megabyte_is_scanned() {
    let mut m = Image::new();
    assert!(find_root(&m.memory(), LoaderRoot::unset()).is_none());
    assert_eq!(root_source(&m.memory(), LoaderRoot::unset()).0, RootSource::NotFound);
    assert_eq!(RootSource::NotFound.name(), "not found");
    m.put(0xE_0010, b"RSD PTR ");
    m.word(0xE_0010 + 16, 0x7_0000);
    m.seal(0xE_0010, 20, 8);
    let root = find_root(&m.memory(), LoaderRoot::unset()).unwrap();
    assert_eq!((root.address, root.entry_bytes), (0x7_0000, 4));
    assert!(legacy_scan_works(&m.memory()));
    assert_eq!(
        root_source(&m.memory(), LoaderRoot::unset()),
        (RootSource::LegacyScan, false)
    );
    // A table the loader passed and that cannot be read is not the one used.
    let beyond = LoaderRoot { address: u64::MAX - 8, is_xsdt: true };
    assert_eq!(find_root(&m.memory(), beyond).unwrap().address, 0x7_0000);
    assert_eq!(root_source(&m.memory(), beyond), (RootSource::LegacyScan, false));
    // One flipped bit and it is not a root pointer at all.
    m.put(0xE_0010 + 16, &[1]);
    assert!(find_root(&m.memory(), LoaderRoot::unset()).is_none());
}

#[test]
fn only_tables_that_verify_are_handed_out() {
    let (m, loader) = machine();
    let memory = m.memory();
    let tables = for_each_ssdt(&memory, loader);
    let found: Vec<(u64, u64)> = tables.iter().map(|t| (t.address, t.length)).collect();
    assert_eq!(found, vec![(0x4_0000, 50), (0x5_0000, 60)]);
    assert_eq!(ssdt_count(&memory, loader), 2);
}

#[test]
fn the_inventory_lists_everything_mapped() {
    let (m, loader) = machine();
    let names: Vec<[u8; 4]> = for_each_table_signature(&m.memory(), loader)
        .into_iter()
        .map(|word| word.to_le_bytes())
        .collect();
    assert_eq!(names, vec![*b"FACP", *b"SSDT", *b"SSDT", *b"SSDT"]);
}

#[test]
fn the_power_registers_come_from_the_tables() {
    let (m, loader) = machine();
    let regs = power_registers(&m.memory(), loader).unwrap();
    assert_eq!(
        regs,
        PowerRegisters {
            pm1a_control: 0x0404,
            pm1b_control: 0x0408,
            slp_typ_a: Some(5),
            slp_typ_b: Some(7),
            reset_port: Some(0xCF9),
            reset_value: 6,
        }
    );
    let table = dsdt(&m.memory(), loader).unwrap();
    assert_eq!((table.address, table.length), (0x3_0000, 64));
}

#[test]
fn no_tables_no_registers() {
    let m = Image::new();
    assert!(power_registers(&m.memory(), LoaderRoot::unset()).is_none());
    assert!(dsdt(&m.memory(), LoaderRoot::unset()).is_none());
    assert_eq!(ssdt_count(&m.memory(), LoaderRoot::unset()), 0);
}

#[test]
fn a_damaged_dsdt_is_refused() {
    let (mut m, loader) = machine();
    m.put(0x3_0000 + 60, &[9]);
    assert!(dsdt(&m.memory(), loader).is_none());
}

#[test]
fn shutting_down_tries_the_sleep_registers_first() {
    let regs = PowerRegisters {
        pm1a_control: 0x404,
        pm1b_control: 0x408,
        slp_typ_a: Some(5),
        slp_typ_b: Some(7),
        reset_port: None,
        reset_value: 0,
    };
    let fallbacks = [(0x604, 0x2000), (0xB004, 0x2000), (0x4004, 0x3400)];
    let writes: Vec<(u16, u16)> =
        shutdown(Some(&regs)).iter().map(|w: &PortWrite| (w.port, w.value)).collect();
    assert_eq!(writes[..2], [(0x404, 0x3400), (0x408, 0x3C00)]);
    assert_eq!(writes[2..], fallbacks);
    let bare: Vec<(u16, u16)> = shutdown(None).iter().map(|w| (w.port, w.value)).collect();
    assert_eq!(bare, fallbacks);
}

#[test]
fn a_restart_runs_out_of_things_to_try() {
    let regs = PowerRegisters {
        reset_port: Some(0xCF9),
        reset_value: 6,
        ..PowerRegisters::default()
    };
    let (state, action) = reboot(Reboot::Start, Some(&regs), 0);
    assert_eq!(action, RebootAction::WriteByte { port: 0xCF9, value: 6 });
    let (state, action) = reboot(state, Some(&regs), 0);
    assert_eq!(action, RebootAction::ReadStatus);
    // The buffer is full, then drains.
    let (state, action) = reboot(state, Some(&regs), 0x02);
    assert_eq!(action, RebootAction::ReadStatus);
    let (state, action) = reboot(state, Some(&regs), 0x00);
    assert_eq!(action, RebootAction::WriteByte { port: 0x64, value: 0xFE });
    let (state, action) = reboot(state, Some(&regs), 0);
    assert_eq!(action, RebootAction::TripleFault);
    assert_eq!(reboot(state, Some(&regs), 0).1, RebootAction::Halt);
}

#[test]
fn a_controller_that_never_drains_is_not_waited_for() {
    let mut state = Reboot::Start;
    let mut steps = 0u32;
    while state != Reboot::Done {
        state = reboot(state, None, 0xFF).0;
        steps += 1;
    }
    assert!(steps <= DRAIN_LOOKS + 4);
}

#[test]
fn arm_boards_are_switched_off_by_call() {
    assert!(psci::power_registers().is_some());
    let off = psci::shutdown(1);
    let on = psci::reboot(1);
    assert_eq!(off.function, 0x8400_0008);
    assert_eq!(on.function, 0x8400_0009);
    assert_eq!(off.conduit, psci::Conduit::Hvc);
    assert_eq!(psci::shutdown(2).conduit, psci::Conduit::Smc);
}

/// Boot information with one framebuffer tag after another tag.
fn boot_info() -> Image {
    let mut m = Image::new();
    m.word(0x8000, 64);
    // A tag of thirteen bytes, padded to sixteen.
    m.word(0x8008, 1);
    m.word(0x800C, 13);
    m.word(0x8018, 8);
    m.word(0x801C, 32);
    m.long(0x8020, 0xE000_0000);
    m.word(0x8028, 4096);
    m.word(0x802C, 1024);
    m.word(0x8030, 768);
    m.put(0x8034, &[32, 1]);
    m
}

#[test]
fn the_framebuffer_tag_is_found() {
    let m = boot_info();
    assert_eq!(
        framebuffer(&m.memory(), 0x8000),
        Some(Surface {
            address: 0xE000_0000,
            pitch: 4096,
            width: 1024,
            height: 768,
            bits_per_pixel: 32,
        })
    );
    assert_eq!(framebuffer(&m.memory(), 0), None);
    assert_eq!(framebuffer(&m.memory(), 0x8004), None);
}

#[test]
fn surfaces_that_cannot_be_drawn_on_are_refused() {
    let mut text_mode = boot_info();
    text_mode.put(0x8035, &[2]);
    assert_eq!(framebuffer(&text_mode.memory(), 0x8000), None);
    let mut high = boot_info();
    high.long(0x8020, 0x1_0000_0000);
    assert_eq!(framebuffer(&high.memory(), 0x8000), None);
    let mut flat = boot_info();
    flat.word(0x8030, 0);
    assert_eq!(framebuffer(&flat.memory(), 0x8000), None);
    let mut short = boot_info();
    short.word(0x8000, 15);
    assert_eq!(framebuffer(&short.memory(), 0x8000), None);
    let mut ended = boot_info();
    ended.word(0x8008, 0);
    assert_eq!(framebuffer(&ended.memory(), 0x8000), None);
}
