//! Turning the machine off and restarting it, without an operating system.
//!
//! There is no kernel to ask, so the firmware tables are read directly: find
//! the root table, follow it to the FADT, and use the registers the FADT
//! names.
//!
//! The sleep type is read out of the DSDT by a pattern match rather than by
//! evaluating AML: the `_S5_` name, a package, and two small constants in it.
//! Where that fails, [`shutdown`] falls through to the ports emulators answer
//! on.
//!
//! Every address that comes out of a table is checked against the identity
//! map before it is followed; that is proved, since a read outside the map
//! has no contract to meet.

use crate::memory::{is_mapped, mapped, Memory};
use crate::multiboot::Rsdp;
use vstd::prelude::*;

verus! {

/// The subset of the FADT this needs.
#[derive(Debug, Clone, Copy, PartialEq, Eq)]
pub struct PowerRegisters {
    /// `PM1a_CNT_BLK`: the control register the sleep request goes into.
    pub pm1a_control: u16,
    /// `PM1b_CNT_BLK`, when the platform splits the register. Often zero.
    pub pm1b_control: u16,
    /// `SLP_TYPa` from `\_S5`, if it was found.
    pub slp_typ_a: Option<u16>,
    pub slp_typ_b: Option<u16>,
    /// The FADT's reset register, when it declares one.
    pub reset_port: Option<u16>,
    pub reset_value: u8,
}

impl Default for PowerRegisters {
    fn default() -> (r: PowerRegisters)
        ensures
            r == (PowerRegisters {
                pm1a_control: 0,
                pm1b_control: 0,
                slp_typ_a: None,
                slp_typ_b: None,
                reset_port: None,
                reset_value: 0,
            }),
    {
        PowerRegisters {
            pm1a_control: 0,
            pm1b_control: 0,
            slp_typ_a: None,
            slp_typ_b: None,
            reset_port: None,
            reset_value: 0,
        }
    }
}

// ---------------------------------------------------------------------------
// The root table
// ---------------------------------------------------------------------------

/// What the loader said of the root table, when it said anything.
#[derive(Debug, Clone, Copy, PartialEq, Eq, Structural)]
pub struct LoaderRoot {
    /// The table's address; zero where the loader said nothing.
    pub address: u64,
    /// Whether that address is an XSDT rather than an RSDT.
    pub is_xsdt: bool,
}

impl LoaderRoot {
    /// Before the loader has said anything.
    pub fn unset() -> (r: LoaderRoot)
        ensures
            r == (LoaderRoot { address: 0, is_xsdt: false }),
    {
        LoaderRoot { address: 0, is_xsdt: false }
    }
}

/// What is recorded once the loader has passed an RSDP.
pub open spec fn recorded(root: LoaderRoot, rsdp: Rsdp) -> LoaderRoot {
    if rsdp.xsdt != 0 {
        LoaderRoot { address: rsdp.xsdt, is_xsdt: true }
    } else if rsdp.rsdt != 0 {
        LoaderRoot { address: rsdp.rsdt as u64, is_xsdt: false }
    } else {
        root
    }
}

/// An XSDT is taken wherever the loader passes one, the RSDT where it passes
/// only that, and nothing is forgotten where it passes neither.
pub proof fn the_wide_table_is_preferred(root: LoaderRoot, rsdp: Rsdp)
    ensures
        rsdp.xsdt != 0 ==> recorded(root, rsdp).address == rsdp.xsdt && recorded(
            root,
            rsdp,
        ).is_xsdt,
        rsdp.xsdt == 0 && rsdp.rsdt != 0 ==> recorded(root, rsdp).address == rsdp.rsdt && !recorded(
            root,
            rsdp,
        ).is_xsdt,
        rsdp.xsdt == 0 && rsdp.rsdt == 0 ==> recorded(root, rsdp) == root,
{
}

/// Records the root table the loader found.
///
/// On UEFI this is the *only* way to find ACPI: the RSDP's address comes from
/// the EFI configuration table, and nothing has put a copy where the legacy
/// scan looks. The XSDT is preferred, and firmware is allowed to leave the
/// 32-bit address zero.
pub fn set_root_table(root: &mut LoaderRoot, rsdp: Rsdp)
    ensures
        *final(root) == recorded(*old(root), rsdp),
{
    if rsdp.xsdt != 0 {
        root.address = rsdp.xsdt;
        root.is_xsdt = true;
    } else if rsdp.rsdt != 0 {
        root.address = rsdp.rsdt as u64;
        root.is_xsdt = false;
    }
}

/// How the root table was found, for reporting.
#[derive(Debug, Clone, Copy, PartialEq, Eq, Structural)]
pub enum RootSource {
    /// The loader copied the RSDP into the boot information. The only way on
    /// a UEFI machine.
    Loader,
    /// Found by scanning the EBDA and the top of the first megabyte.
    LegacyScan,
    /// Neither worked.
    NotFound,
}

impl RootSource {
    /// What the reports call it.
    pub open spec fn label(self) -> Seq<char> {
        match self {
            RootSource::Loader => "loader (multiboot2 tag)"@,
            RootSource::LegacyScan => "legacy scan"@,
            RootSource::NotFound => "not found"@,
        }
    }

    pub fn name(self) -> (r: &'static str)
        ensures
            r@ == self.label(),
    {
        match self {
            RootSource::Loader => "loader (multiboot2 tag)",
            RootSource::LegacyScan => "legacy scan",
            RootSource::NotFound => "not found",
        }
    }
}

/// A root table and how wide its entries are.
#[derive(Debug, Clone, Copy, PartialEq, Eq, Structural)]
pub struct Root {
    pub address: u64,
    /// Eight for an XSDT, four for an RSDT. Reading a 64-bit table with
    /// 32-bit strides finds tables at addresses made of two halves of two
    /// different pointers.
    pub entry_bytes: u64,
}

impl Root {
    /// Its header is mapped and its entries have one of the two widths.
    pub open spec fn wf(self) -> bool {
        is_mapped(self.address as int, 36) && (self.entry_bytes == 4 || self.entry_bytes == 8)
    }

    pub fn is_xsdt(&self) -> (r: bool)
        ensures
            r == (self.entry_bytes == 8),
    {
        self.entry_bytes == 8
    }
}

/// The eight bytes that start a Root System Description Pointer: `RSD PTR `.
pub open spec fn rsdp_signature() -> Seq<u8> {
    seq![0x52u8, 0x53, 0x44, 0x20, 0x50, 0x54, 0x52, 0x20]
}

/// The root table an RSDP at `address` names. From revision 2, with the
/// extended checksum, the XSDT; otherwise, or where that is not usable, the
/// RSDT. `None` where the bytes are not an RSDP or name nothing mapped.
pub open spec fn rsdp_root<F: Fn(u64) -> u8>(memory: Memory<F>, address: int) -> Option<Root> {
    let xsdt = memory.long(address + 24);
    let rsdt = memory.word(address + 16);
    if !memory.reads_as(address, rsdp_signature()) || !memory.sums_to_zero(address, 20) {
        None
    } else if memory.byte(address + 15) >= 2 && memory.sums_to_zero(address, 36) && is_mapped(
        xsdt as int,
        36,
    ) {
        Some(Root { address: xsdt, entry_bytes: 8 })
    } else if is_mapped(rsdt as int, 36) {
        Some(Root { address: rsdt as u64, entry_bytes: 4 })
    } else {
        None
    }
}

/// The first root table named by an RSDP on a sixteen-byte boundary between
/// two addresses.
pub open spec fn scanned<F: Fn(u64) -> u8>(memory: Memory<F>, from: int, to: int) -> Option<Root>
    decreases to + 16 - from,
{
    if from >= to {
        None
    } else {
        match rsdp_root(memory, from) {
            Some(root) => Some(root),
            None => scanned(memory, from + 16, to),
        }
    }
}

/// Where the Extended BIOS Data Area is, by the segment the BIOS left at
/// `0x40E`.
pub open spec fn ebda<F: Fn(u64) -> u8>(memory: Memory<F>) -> int {
    16 * memory.half(0x40E)
}

/// What the legacy scan finds: in the first kilobyte of the EBDA, where there
/// is one, and then in the BIOS read-only region.
pub open spec fn legacy<F: Fn(u64) -> u8>(memory: Memory<F>) -> Option<Root> {
    let area = ebda(memory);
    let first = if area == 0 {
        None
    } else {
        scanned(memory, area, area + 1024)
    };
    match first {
        Some(root) => Some(root),
        None => scanned(memory, 0xE_0000, 0x10_0000),
    }
}

/// The root table: what the loader passed where that is mapped, and what the
/// legacy scan finds otherwise.
pub open spec fn root_of<F: Fn(u64) -> u8>(memory: Memory<F>, loader: LoaderRoot) -> Option<Root> {
    if is_mapped(loader.address as int, 36) {
        Some(Root { address: loader.address, entry_bytes: if loader.is_xsdt { 8 } else { 4 } })
    } else {
        legacy(memory)
    }
}

/// A root pointer is the eight bytes `RSD PTR ` and a checksum over twenty
/// bytes. From revision 2, where all thirty-six verify too, it names the XSDT in
/// its last quad word but one; the RSDT is the double word at sixteen, and stands
/// in wherever the XSDT will not do.
pub proof fn a_pointer_names_its_table<F: Fn(u64) -> u8>(memory: Memory<F>, a: int)
    ensures
        ({
            let named = memory.byte(a) == 0x52 && memory.byte(a + 1)
                == 0x53 && memory.byte(a + 2) == 0x44 && memory.byte(a + 3) == 0x20 && memory.byte(
                a + 4,
            ) == 0x50 && memory.byte(a + 5) == 0x54 && memory.byte(a + 6) == 0x52 && memory.byte(
                a + 7,
            ) == 0x20;
            let wide = memory.byte(a + 15) >= 2 && memory.sums_to_zero(a, 36) && is_mapped(
                memory.long(a + 24) as int,
                36,
            );
            let narrow = is_mapped(memory.word(a + 16) as int, 36);
            &&& !named || !memory.sums_to_zero(a, 20) ==> rsdp_root(memory, a) is None
            &&& named && memory.sums_to_zero(a, 20) && wide ==> (rsdp_root(memory, a) matches Some(
                root,
            ) && root.address == memory.long(a + 24) && root.entry_bytes == 8)
            &&& named && memory.sums_to_zero(a, 20) && !wide && narrow ==> (rsdp_root(
                memory,
                a,
            ) matches Some(root) && root.address == memory.word(a + 16) && root.entry_bytes == 4)
            &&& !wide && !narrow ==> rsdp_root(memory, a) is None
        }),
{
    let name = rsdp_signature();
    assert(memory.byte(a + 0) == memory.byte(a));
    if memory.reads_as(a, name) {
        assert(memory.byte(a + 0) == name[0] && memory.byte(a + 1) == name[1] && memory.byte(a + 2)
            == name[2] && memory.byte(a + 3) == name[3] && memory.byte(a + 4) == name[4]
            && memory.byte(a + 5) == name[5] && memory.byte(a + 6) == name[6] && memory.byte(a + 7)
            == name[7]);
    } else {
        let i = choose|i: int|
            0 <= i < name.len() && #[trigger] memory.byte(a + i) != name[i];
        assert(i == 0 || i == 1 || i == 2 || i == 3 || i == 4 || i == 5 || i == 6 || i == 7);
    }
}

/// A scan takes the first pointer it comes to, on sixteen-byte boundaries and
/// nowhere else, and finds nothing only where there is none.
pub proof fn a_scan_takes_the_first<F: Fn(u64) -> u8>(
    memory: Memory<F>,
    from: int,
    to: int,
    k: int,
)
    requires
        0 <= k,
        forall|j: int| 0 <= j < k ==> #[trigger] rsdp_root(memory, from + 16 * j) is None,
    ensures
        from + 16 * k < to && rsdp_root(memory, from + 16 * k) is Some ==> scanned(memory, from, to)
            == rsdp_root(memory, from + 16 * k),
        from + 16 * k >= to ==> scanned(memory, from, to) is None,
    decreases k,
{
    assert(from + 16 * 0 == from);
    if k > 0 {
        assert(rsdp_root(memory, from + 16 * 0) is None);
        assert forall|j: int| 0 <= j < k - 1 implies #[trigger] rsdp_root(
            memory,
            from + 16 + 16 * j,
        ) is None by {
            assert(from + 16 + 16 * j == from + 16 * (j + 1));
            assert(rsdp_root(memory, from + 16 * (j + 1)) is None);
        }
        a_scan_takes_the_first(memory, from + 16, to, k - 1);
        assert(from + 16 + 16 * (k - 1) == from + 16 * k);
    }
}

/// The scan looks at one kilobyte from the segment that 0x40E holds, where it
/// holds one, and then at 0xE0000 up to the end of the first megabyte.
pub proof fn where_the_scan_looks<F: Fn(u64) -> u8>(memory: Memory<F>)
    ensures
        ({
            let segment = memory.byte(0x40E) + 256 * memory.byte(0x40F);
            let area = scanned(memory, segment * 16, segment * 16 + 1024);
            &&& segment != 0 && area is Some ==> legacy(memory) == area
            &&& segment == 0 || area is None ==> legacy(memory) == scanned(
                memory,
                917_504,
                1_048_576,
            )
        }),
{
}

/// A table the loader passed is used wherever its header is in the map, with
/// entries as wide as the loader says; else what the scan finds is.
pub proof fn the_loader_comes_first<F: Fn(u64) -> u8>(memory: Memory<F>, loader: LoaderRoot)
    ensures
        is_mapped(loader.address as int, 36) ==> (root_of(memory, loader) matches Some(root)
            && root.address == loader.address && root.entry_bytes == (if loader.is_xsdt {
            8u64
        } else {
            4
        })),
        !is_mapped(loader.address as int, 36) ==> root_of(memory, loader) == legacy(memory),
        source_of(memory, loader).0 == RootSource::Loader <==> is_mapped(loader.address as int, 36),
{
}

/// Reads an RSDP.
fn read_rsdp<F: Fn(u64) -> u8>(memory: &Memory<F>, address: u64) -> (r: Option<Root>)
    requires
        memory.wf(),
        0 < address <= 0x10_0400,
    ensures
        r == rsdp_root(*memory, address as int),
        r matches Some(root) ==> root.wf(),
{
    let signature: [u8; 8] = [0x52, 0x53, 0x44, 0x20, 0x50, 0x54, 0x52, 0x20];
    assert(signature@ =~= rsdp_signature());
    if !memory.reads(address, 0, signature.as_slice()) || !memory.checksum_ok(address, 20) {
        return None;
    }
    // From revision 2 the XSDT is authoritative and the 32-bit address may be
    // zero.
    let revision: u8 = memory.read_u8(address, 15);
    if revision >= 2 && memory.checksum_ok(address, 36) {
        let xsdt: u64 = memory.read_u64(address, 24);
        if mapped(xsdt, 36) {
            return Some(Root { address: xsdt, entry_bytes: 8 });
        }
    }
    let rsdt: u64 = memory.read_u32(address, 16) as u64;
    if mapped(rsdt, 36) {
        return Some(Root { address: rsdt, entry_bytes: 4 });
    }
    None
}

/// Scans for an RSDP between two addresses of the first megabyte or so.
fn scan<F: Fn(u64) -> u8>(memory: &Memory<F>, from: u64, to: u64) -> (r: Option<Root>)
    requires
        memory.wf(),
        0 < from <= to <= 0x10_0400,
    ensures
        r == scanned(*memory, from as int, to as int),
        r matches Some(root) ==> root.wf(),
{
    let mut address: u64 = from;
    while address < to
        invariant
            memory.wf(),
            0 < from <= address,
            to <= 0x10_0400,
            scanned(*memory, from as int, to as int) == scanned(*memory, address as int, to as int),
        decreases to + 16 - address,
    {
        let found = read_rsdp(memory, address);
        if found.is_some() {
            return found;
        }
        address += 16;
    }
    None
}

/// The legacy scan, for a machine booted through a BIOS.
fn scan_for_rsdp<F: Fn(u64) -> u8>(memory: &Memory<F>) -> (r: Option<Root>)
    requires
        memory.wf(),
    ensures
        r == legacy(*memory),
        r matches Some(root) ==> root.wf(),
{
    // The EBDA pointer is a word out of low memory, and on a UEFI machine
    // there is no BIOS data area to have written it. A zero one is skipped
    // rather than scanned.
    let area: u64 = 16 * memory.read_u16(0x40E, 0) as u64;
    if area != 0 {
        let found = scan(memory, area, area + 1024);
        if found.is_some() {
            return found;
        }
    }
    scan(memory, 0xE_0000, 0x10_0000)
}

/// Finds the root table: what the loader passed, or a legacy scan.
pub fn find_root<F: Fn(u64) -> u8>(memory: &Memory<F>, loader: LoaderRoot) -> (r: Option<Root>)
    requires
        memory.wf(),
    ensures
        r == root_of(*memory, loader),
        r matches Some(root) ==> root.wf(),
{
    if mapped(loader.address, 36) {
        return Some(
            Root {
                address: loader.address,
                entry_bytes: if loader.is_xsdt {
                    8
                } else {
                    4
                },
            },
        );
    }
    scan_for_rsdp(memory)
}

/// Where the root table came from, and whether it is the 64-bit kind.
pub open spec fn source_of<F: Fn(u64) -> u8>(memory: Memory<F>, loader: LoaderRoot) -> (
    RootSource,
    bool,
) {
    if is_mapped(loader.address as int, 36) {
        (RootSource::Loader, loader.is_xsdt)
    } else {
        match legacy(memory) {
            Some(root) => (RootSource::LegacyScan, root.entry_bytes == 8),
            None => (RootSource::NotFound, false),
        }
    }
}

/// Where the root table came from, and whether it is the 64-bit kind.
pub fn root_source<F: Fn(u64) -> u8>(memory: &Memory<F>, loader: LoaderRoot) -> (r: (
    RootSource,
    bool,
))
    requires
        memory.wf(),
    ensures
        r == source_of(*memory, loader),
{
    if mapped(loader.address, 36) {
        return (RootSource::Loader, loader.is_xsdt);
    }
    match scan_for_rsdp(memory) {
        Some(root) => (RootSource::LegacyScan, root.is_xsdt()),
        None => (RootSource::NotFound, false),
    }
}

/// The source named is the one the root table is taken from: the loader's
/// where the table in use is the one it passed, the scan's where it is what the
/// scan found, and neither exactly where there is no table.
pub proof fn the_source_is_the_one_used<F: Fn(u64) -> u8>(memory: Memory<F>, loader: LoaderRoot)
    ensures
        ({
            let source = source_of(memory, loader);
            let root = root_of(memory, loader);
            &&& root is None <==> source.0 == RootSource::NotFound
            &&& root matches Some(root) ==> source.1 == (root.entry_bytes == 8)
            &&& source.0 == RootSource::Loader ==> (root matches Some(root) && root.address
                == loader.address)
            &&& source.0 == RootSource::LegacyScan ==> root == legacy(memory)
        }),
{
}

/// Whether the legacy scan finds anything, regardless of what was used.
///
/// Reported alongside the source because the difference is the whole point:
/// on a BIOS machine both work, and on a UEFI machine only the loader does.
pub fn legacy_scan_works<F: Fn(u64) -> u8>(memory: &Memory<F>) -> (r: bool)
    requires
        memory.wf(),
    ensures
        r == legacy(*memory).is_some(),
{
    scan_for_rsdp(memory).is_some()
}

// ---------------------------------------------------------------------------
// The tables it lists
// ---------------------------------------------------------------------------

/// How long a table says it is.
pub open spec fn table_length<F: Fn(u64) -> u8>(memory: Memory<F>, table: int) -> int {
    memory.word(table + 4) as int
}

/// Whether a root table can be walked: a believable length, all of it mapped,
/// and a checksum that verifies.
pub open spec fn walks<F: Fn(u64) -> u8>(memory: Memory<F>, root: Root) -> bool {
    let length = table_length(memory, root.address as int);
    36 <= length <= 0x1_0000 && memory.sums_to_zero(root.address as int, length)
}

/// How many tables a root table lists.
pub open spec fn entry_count<F: Fn(u64) -> u8>(memory: Memory<F>, root: Root) -> int {
    if walks(memory, root) {
        (table_length(memory, root.address as int) - 36) / root.entry_bytes as int
    } else {
        0
    }
}

/// The address of the `i`th table a root table lists.
pub open spec fn entry<F: Fn(u64) -> u8>(memory: Memory<F>, root: Root, i: int) -> u64 {
    let at = root.address + 36 + i * root.entry_bytes;
    if root.entry_bytes == 8 {
        memory.long(at)
    } else {
        memory.word(at) as u64
    }
}

/// Whether a table of this name, of at most `limit` bytes, stands whole and
/// verified at an address.
pub open spec fn is_table<F: Fn(u64) -> u8>(
    memory: Memory<F>,
    table: int,
    name: Seq<u8>,
    limit: int,
) -> bool {
    &&& is_mapped(table, 36)
    &&& memory.reads_as(table, name)
    &&& 36 <= table_length(memory, table) <= limit
    &&& memory.sums_to_zero(table, table_length(memory, table))
}

/// The first table of a name from the `i`th entry on.
pub open spec fn table_from<F: Fn(u64) -> u8>(
    memory: Memory<F>,
    root: Root,
    name: Seq<u8>,
    i: int,
) -> Option<u64>
    decreases entry_count(memory, root) - i,
{
    if i >= entry_count(memory, root) {
        None
    } else if is_table(memory, entry(memory, root, i) as int, name, 0x10_0000) {
        Some(entry(memory, root, i))
    } else {
        table_from(memory, root, name, i + 1)
    }
}

/// A root table is all entries behind its thirty-six byte header: they follow
/// one another at their width, there is room for every one that is counted, and
/// none for one more. One that is too short, too long or does not verify lists
/// nothing.
pub proof fn entries_fill_their_table<F: Fn(u64) -> u8>(memory: Memory<F>, root: Root, i: int)
    requires
        root.wf(),
    ensures
        ({
            let length = memory.word(root.address + 4);
            let count = entry_count(memory, root);
            let sound = 36 <= length <= 65536 && memory.sums_to_zero(
                root.address as int,
                length as int,
            );
            &&& sound <==> walks(memory, root)
            &&& !sound ==> count == 0
            &&& sound ==> 36 + count * root.entry_bytes <= length < 36 + (count + 1)
                * root.entry_bytes
        }),
        root.entry_bytes == 8 ==> entry(memory, root, i) == memory.long(root.address + 36 + 8 * i),
        root.entry_bytes == 4 ==> entry(memory, root, i) == memory.word(root.address + 36 + 4 * i),
{
    let length = memory.word(root.address + 4);
    if root.entry_bytes == 8 {
        assert(i * root.entry_bytes == 8 * i) by (nonlinear_arith)
            requires
                root.entry_bytes == 8,
        ;
    } else {
        assert(i * root.entry_bytes == 4 * i) by (nonlinear_arith)
            requires
                root.entry_bytes == 4,
        ;
    }
    let count = entry_count(memory, root);
    assert(count * root.entry_bytes == if root.entry_bytes == 8 {
        8 * count
    } else {
        4 * count
    }) by (nonlinear_arith)
        requires
            root.entry_bytes == 8 || root.entry_bytes == 4,
    ;
    assert((count + 1) * root.entry_bytes == if root.entry_bytes == 8 {
        8 * count + 8
    } else {
        4 * count + 4
    }) by (nonlinear_arith)
        requires
            root.entry_bytes == 8 || root.entry_bytes == 4,
    ;
}

/// A table is looked up by its name: the first listed that has it and stands
/// whole is the one found, and none is only where no such table is listed.
pub proof fn the_first_of_its_name_is_found<F: Fn(u64) -> u8>(
    memory: Memory<F>,
    root: Root,
    name: Seq<u8>,
    i: int,
    k: int,
)
    requires
        0 <= i <= k,
        forall|j: int|
            i <= j < k ==> !is_table(
                memory,
                #[trigger] entry(memory, root, j) as int,
                name,
                1_048_576,
            ),
    ensures
        k < entry_count(memory, root) && is_table(
            memory,
            entry(memory, root, k) as int,
            name,
            1_048_576,
        ) ==> table_from(memory, root, name, i) == Some(entry(memory, root, k)),
        k >= entry_count(memory, root) ==> table_from(memory, root, name, i) is None,
    decreases k - i,
{
    if i < k {
        assert(!is_table(memory, entry(memory, root, i) as int, name, 1_048_576));
        the_first_of_its_name_is_found(memory, root, name, i + 1, k);
    }
}

/// A table stands at an address exactly where its header is in the map, it
/// starts with its name, and all of the length it gives verifies.
pub proof fn what_a_table_is<F: Fn(u64) -> u8>(
    memory: Memory<F>,
    table: int,
    name: Seq<u8>,
    limit: int,
)
    ensures
        is_table(memory, table, name, limit) <==> is_mapped(table, 36) && memory.reads_as(
            table,
            name,
        ) && 36 <= memory.word(table + 4) <= limit && memory.sums_to_zero(
            table,
            memory.word(table + 4) as int,
        ),
        is_whole(memory, table, limit) <==> is_mapped(table, 36) && 36 <= memory.word(table + 4)
            <= limit && memory.sums_to_zero(table, memory.word(table + 4) as int),
{
}

/// Whether a root table's length is believable and its checksum verifies.
fn can_walk<F: Fn(u64) -> u8>(memory: &Memory<F>, root: Root) -> (r: bool)
    requires
        memory.wf(),
        root.wf(),
    ensures
        r == walks(*memory, root),
{
    // A declared length is a number out of firmware, not a fact. An absurd
    // one means the pointer was not a root table: without this bound a
    // garbage length becomes a billion reads of arbitrary addresses.
    let length: u64 = memory.read_u32(root.address, 4) as u64;
    length >= 36 && length <= 0x1_0000 && memory.checksum_ok(root.address, length)
}

/// How many tables a root table that walks lists.
fn count_entries<F: Fn(u64) -> u8>(memory: &Memory<F>, root: Root) -> (r: u64)
    requires
        memory.wf(),
        root.wf(),
    ensures
        r == entry_count(*memory, root),
        r <= 0x1_0000,
        walks(*memory, root) ==> 36 + r * root.entry_bytes <= table_length(
            *memory,
            root.address as int,
        ),
{
    if !can_walk(memory, root) {
        return 0;
    }
    let length: u64 = memory.read_u32(root.address, 4) as u64;
    assert((length - 36) / 4 * 4 <= length - 36 && (length - 36) / 8 * 8 <= length - 36);
    (length - 36) / root.entry_bytes
}

/// Reads the `i`th entry of a root table.
fn read_entry<F: Fn(u64) -> u8>(memory: &Memory<F>, root: Root, i: u64) -> (r: u64)
    requires
        memory.wf(),
        root.wf(),
        i < entry_count(*memory, root),
        36 + entry_count(*memory, root) * root.entry_bytes <= table_length(
            *memory,
            root.address as int,
        ),
    ensures
        r == entry(*memory, root, i as int),
{
    proof {
        let n = entry_count(*memory, root);
        let w = root.entry_bytes as int;
        assert(i * w + w <= n * w) by (nonlinear_arith)
            requires
                i + 1 <= n,
                w >= 0,
        ;
        assert(0 <= i * w) by (nonlinear_arith)
            requires
                0 <= i,
                0 <= w,
        ;
    }
    let at: u64 = 36 + i * root.entry_bytes;
    if root.is_xsdt() {
        memory.read_u64(root.address, at)
    } else {
        memory.read_u32(root.address, at) as u64
    }
}

/// Whether a table of this name stands whole and verified at an address.
fn verify_table<F: Fn(u64) -> u8>(
    memory: &Memory<F>,
    table: u64,
    name: [u8; 4],
    limit: u64,
) -> (r: bool)
    requires
        memory.wf(),
    ensures
        r == is_table(*memory, table as int, name@, limit as int),
{
    if !mapped(table, 36) || !memory.reads(table, 0, name.as_slice()) {
        return false;
    }
    let length: u64 = memory.read_u32(table, 4) as u64;
    length >= 36 && length <= limit && memory.checksum_ok(table, length)
}

/// Finds a table by signature in the root table.
fn find_table<F: Fn(u64) -> u8>(memory: &Memory<F>, root: Root, name: [u8; 4]) -> (r: Option<u64>)
    requires
        memory.wf(),
        root.wf(),
    ensures
        r == table_from(*memory, root, name@, 0),
        r matches Some(table) ==> is_table(*memory, table as int, name@, 0x10_0000),
{
    let count: u64 = count_entries(memory, root);
    let mut i: u64 = 0;
    while i < count
        invariant
            memory.wf(),
            root.wf(),
            i <= count == entry_count(*memory, root),
            count > 0 ==> 36 + count * root.entry_bytes <= table_length(
                *memory,
                root.address as int,
            ),
            table_from(*memory, root, name@, 0) == table_from(*memory, root, name@, i as int),
        decreases count - i,
    {
        let table: u64 = read_entry(memory, root, i);
        if verify_table(memory, table, name, 0x10_0000) {
            return Some(table);
        }
        i += 1;
    }
    None
}

/// A table, whole and verified, in firmware memory.
#[derive(Debug, Clone, Copy, PartialEq, Eq, Structural)]
pub struct Table {
    pub address: u64,
    pub length: u64,
}

/// The four bytes `SSDT`.
pub open spec fn ssdt_name() -> Seq<u8> {
    seq![0x53u8, 0x53, 0x44, 0x54]
}

/// The SSDTs among the first `count` tables a root table lists, in order.
pub open spec fn ssdts<F: Fn(u64) -> u8>(memory: Memory<F>, root: Root, count: int) -> Seq<Table>
    decreases count,
{
    if count <= 0 {
        seq![]
    } else {
        let table = entry(memory, root, count - 1);
        let before = ssdts(memory, root, count - 1);
        if is_table(memory, table as int, ssdt_name(), 0x40_0000) {
            before.push(
                Table { address: table, length: table_length(memory, table as int) as u64 },
            )
        } else {
            before
        }
    }
}

/// Every SSDT, in the order the root table lists them.
pub open spec fn all_ssdts<F: Fn(u64) -> u8>(memory: Memory<F>, loader: LoaderRoot) -> Seq<Table> {
    match root_of(memory, loader) {
        Some(root) => ssdts(memory, root, entry_count(memory, root)),
        None => seq![],
    }
}

/// Every SSDT that stands whole is listed, with its length, and nothing else
/// is: what a further entry adds comes last.
pub proof fn every_ssdt_is_listed<F: Fn(u64) -> u8>(memory: Memory<F>, root: Root, count: int, i: int)
    requires
        0 <= i < count,
    ensures
        ({
            let at = entry(memory, root, i);
            let sound = is_mapped(at as int, 36) && memory.byte(at as int) == 0x53 && memory.byte(
                at + 1,
            ) == 0x53 && memory.byte(at + 2) == 0x44 && memory.byte(at + 3) == 0x54 && 36
                <= memory.word(at + 4) <= 4_194_304 && memory.sums_to_zero(
                at as int,
                memory.word(at + 4) as int,
            );
            let before = ssdts(memory, root, i);
            &&& sound ==> ssdts(memory, root, i + 1) == before.push(
                Table { address: at, length: memory.word(at + 4) as u64 },
            )
            &&& !sound ==> ssdts(memory, root, i + 1) == before
            &&& before.is_prefix_of(ssdts(memory, root, count))
            &&& ssdts(memory, root, i + 1).is_prefix_of(ssdts(memory, root, count))
        }),
        ssdts(memory, root, 0).len() == 0,
{
    let at = entry(memory, root, i);
    crate::memory::what_verifies(memory, at as int, 0, ssdt_name());
    ssdts_are_prefixes(memory, root, i, count);
    ssdts_are_prefixes(memory, root, i + 1, count);
}

proof fn ssdts_are_prefixes<F: Fn(u64) -> u8>(memory: Memory<F>, root: Root, i: int, count: int)
    requires
        0 <= i <= count,
    ensures
        ssdts(memory, root, i).is_prefix_of(ssdts(memory, root, count)),
    decreases count,
{
    if i < count {
        ssdts_are_prefixes(memory, root, i, count - 1);
        let short = ssdts(memory, root, i);
        let middle = ssdts(memory, root, count - 1);
        let long = ssdts(memory, root, count);
        assert(long.take(short.len() as int) =~= middle.take(short.len() as int));
    }
}

/// Every SSDT the root table lists, in order.
///
/// The ACPI namespace is not the DSDT. It is the DSDT *plus* every SSDT,
/// loaded in the order the root table lists them, all sharing one name space,
/// and firmware uses that: a touchpad may be declared in the DSDT and the
/// controller it hangs off in an SSDT.
///
/// A table is offered only once its own checksum verifies, so a caller gets
/// bytes it can walk rather than bytes it has to validate.
pub fn for_each_ssdt<F: Fn(u64) -> u8>(memory: &Memory<F>, loader: LoaderRoot) -> (r: Vec<Table>)
    requires
        memory.wf(),
    ensures
        r@ == all_ssdts(*memory, loader),
{
    let mut out: Vec<Table> = Vec::new();
    let Some(root) = find_root(memory, loader) else {
        return out;
    };
    let name: [u8; 4] = [0x53, 0x53, 0x44, 0x54];
    assert(name@ =~= ssdt_name());
    let count: u64 = count_entries(memory, root);
    let mut i: u64 = 0;
    while i < count
        invariant
            memory.wf(),
            root.wf(),
            name@ == ssdt_name(),
            i <= count == entry_count(*memory, root),
            count > 0 ==> 36 + count * root.entry_bytes <= table_length(
                *memory,
                root.address as int,
            ),
            out@ == ssdts(*memory, root, i as int),
        decreases count - i,
    {
        let table: u64 = read_entry(memory, root, i);
        if verify_table(memory, table, name, 0x40_0000) {
            let length: u64 = memory.read_u32(table, 4) as u64;
            out.push(Table { address: table, length });
        }
        i += 1;
    }
    out
}

/// How many SSDTs the root table lists and this can read.
pub fn ssdt_count<F: Fn(u64) -> u8>(memory: &Memory<F>, loader: LoaderRoot) -> (r: usize)
    requires
        memory.wf(),
    ensures
        r == all_ssdts(*memory, loader).len(),
{
    for_each_ssdt(memory, loader).len()
}

/// The signatures of the mapped tables among the first `count` that a root
/// table lists, in order.
pub open spec fn signatures<F: Fn(u64) -> u8>(memory: Memory<F>, root: Root, count: int) -> Seq<
    u32,
>
    decreases count,
{
    if count <= 0 {
        seq![]
    } else {
        let table = entry(memory, root, count - 1);
        let before = signatures(memory, root, count - 1);
        if is_mapped(table as int, 36) {
            before.push(memory.word(table as int))
        } else {
            before
        }
    }
}

/// The inventory names every table that can be read, in the order the root
/// table lists them: its first four bytes, as they stand.
pub proof fn the_inventory_is_complete<F: Fn(u64) -> u8>(memory: Memory<F>, root: Root, i: int)
    requires
        0 <= i,
    ensures
        ({
            let at = entry(memory, root, i);
            let after = signatures(memory, root, i + 1);
            &&& is_mapped(at as int, 36) ==> after.len() == signatures(memory, root, i).len() + 1
                && after.drop_last() == signatures(memory, root, i) && after.last()
                == memory.byte(at as int) + 0x100 * memory.byte(at + 1) + 0x1_0000 * memory.byte(
                at + 2,
            ) + 0x100_0000 * memory.byte(at + 3)
            &&& !is_mapped(at as int, 36) ==> after == signatures(memory, root, i)
        }),
        signatures(memory, root, 0).len() == 0,
{
    let at = entry(memory, root, i);
    if is_mapped(at as int, 36) {
        assert(signatures(memory, root, i + 1).drop_last() =~= signatures(memory, root, i));
    }
}

/// The signature of every table the root table lists, as a little-endian
/// word, in order.
///
/// A plain inventory, and the first thing worth knowing when a device is not
/// where it was expected: it says whether the SSDTs are there at all, and
/// whether the root table walks.
pub fn for_each_table_signature<F: Fn(u64) -> u8>(
    memory: &Memory<F>,
    loader: LoaderRoot,
) -> (r: Vec<u32>)
    requires
        memory.wf(),
    ensures
        r@ == match root_of(*memory, loader) {
            Some(root) => signatures(*memory, root, entry_count(*memory, root)),
            None => seq![],
        },
{
    let mut out: Vec<u32> = Vec::new();
    let Some(root) = find_root(memory, loader) else {
        return out;
    };
    let count: u64 = count_entries(memory, root);
    let mut i: u64 = 0;
    while i < count
        invariant
            memory.wf(),
            root.wf(),
            i <= count == entry_count(*memory, root),
            count > 0 ==> 36 + count * root.entry_bytes <= table_length(
                *memory,
                root.address as int,
            ),
            out@ == signatures(*memory, root, i as int),
        decreases count - i,
    {
        let table: u64 = read_entry(memory, root, i);
        if mapped(table, 36) {
            out.push(memory.read_u32(table, 0));
        }
        i += 1;
    }
    out
}

// ---------------------------------------------------------------------------
// What the FADT says
// ---------------------------------------------------------------------------

/// The four bytes `FACP`, which name the FADT.
pub open spec fn fadt_name() -> Seq<u8> {
    seq![0x46u8, 0x41, 0x43, 0x50]
}

/// The four bytes `_S5_`.
pub open spec fn s5_name() -> Seq<u8> {
    seq![0x5Fu8, 0x53, 0x35, 0x5F]
}

/// The FADT, where the root table lists one.
pub open spec fn fadt_of<F: Fn(u64) -> u8>(memory: Memory<F>, loader: LoaderRoot) -> Option<u64> {
    match root_of(memory, loader) {
        Some(root) => table_from(memory, root, fadt_name(), 0),
        None => None,
    }
}

/// The AML integer constant at an offset, and the offset after it: a byte
/// constant (`0x0A`, value) or a zero or one opcode standing for that value.
pub open spec fn constant<F: Fn(u64) -> u8>(memory: Memory<F>, base: int, at: int) -> (
    Option<u16>,
    int,
) {
    if !is_mapped(base, at + 1) {
        (None, at)
    } else if memory.byte(base + at) == 0x00 {
        (Some(0), at + 1)
    } else if memory.byte(base + at) == 0x01 {
        (Some(1), at + 1)
    } else if memory.byte(base + at) == 0x0A && is_mapped(base, at + 2) {
        (Some(memory.byte(base + at + 1) as u16), at + 2)
    } else {
        (None, at)
    }
}

/// Whether the `_S5_` name stands at an offset with a package after it.
pub open spec fn is_s5<F: Fn(u64) -> u8>(memory: Memory<F>, dsdt: int, at: int) -> bool {
    memory.reads_as(dsdt + at, s5_name()) && memory.byte(dsdt + at + 4) == 0x12
}

/// The two sleep types of the first `_S5_` package from an offset on. The
/// package's length takes as many bytes more as its first byte's high bits
/// say, and its element count one.
pub open spec fn s5_from<F: Fn(u64) -> u8>(
    memory: Memory<F>,
    dsdt: int,
    length: int,
    at: int,
) -> (Option<u16>, Option<u16>)
    decreases length - at,
{
    if at + 8 >= length {
        (None, None)
    } else if is_s5(memory, dsdt, at) {
        let first = constant(memory, dsdt, at + 7 + memory.byte(dsdt + at + 5) / 64);
        (first.0, constant(memory, dsdt, first.1).0)
    } else {
        s5_from(memory, dsdt, length, at + 1)
    }
}

/// The two sleep types a DSDT at an address holds.
pub open spec fn s5_of<F: Fn(u64) -> u8>(memory: Memory<F>, dsdt: int) -> (
    Option<u16>,
    Option<u16>,
) {
    let length = table_length(memory, dsdt);
    if is_mapped(dsdt, 36) && 36 <= length <= 0x10_0000 && is_mapped(dsdt, length) {
        s5_from(memory, dsdt, length, 36)
    } else {
        (None, None)
    }
}

/// Whether a FADT declares a reset register in I/O space: it is long enough,
/// its flags say so, and the address space of the register is I/O.
pub open spec fn has_reset<F: Fn(u64) -> u8>(memory: Memory<F>, fadt: int) -> bool {
    table_length(memory, fadt) > 128 && memory.word(fadt + 112) & 0x400 != 0 && memory.byte(
        fadt + 116,
    ) == 1
}

/// The registers a FADT names.
pub open spec fn registers_of<F: Fn(u64) -> u8>(memory: Memory<F>, fadt: int) -> PowerRegisters {
    let types = s5_of(memory, memory.word(fadt + 40) as int);
    PowerRegisters {
        pm1a_control: memory.word(fadt + 64) as u16,
        pm1b_control: memory.word(fadt + 68) as u16,
        slp_typ_a: types.0,
        slp_typ_b: types.1,
        reset_port: if has_reset(memory, fadt) {
            Some(memory.word(fadt + 120) as u16)
        } else {
            None
        },
        reset_value: if has_reset(memory, fadt) {
            memory.byte(fadt + 128)
        } else {
            0
        },
    }
}

/// The FADT is the first table named `FACP`, and there is none without a root
/// table.
pub proof fn the_fadt_is_the_facp<F: Fn(u64) -> u8>(memory: Memory<F>, loader: LoaderRoot)
    ensures
        root_of(memory, loader) is None ==> fadt_of(memory, loader) is None,
        root_of(memory, loader) matches Some(root) ==> fadt_of(memory, loader) == table_from(
            memory,
            root,
            seq![0x46u8, 0x41, 0x43, 0x50],
            0,
        ),
{
}

/// The constant read is the value the bytes encode: zero and one stand for
/// themselves in one byte, any other value is the byte behind 0x0A, and no other
/// byte encodes one. What was read is what the next one starts after.
pub proof fn a_constant_is_what_its_bytes_encode<F: Fn(u64) -> u8>(
    memory: Memory<F>,
    base: int,
    at: int,
)
    requires
        is_mapped(base, at + 2),
        0 <= at,
    ensures
        ({
            let byte = memory.byte(base + at);
            let (value, after) = constant(memory, base, at);
            &&& byte <= 1 ==> value == Some(byte as u16) && after == at + 1
            &&& byte == 0x0A ==> value == Some(memory.byte(base + at + 1) as u16) && after == at
                + 2
            &&& byte > 1 && byte != 0x0A ==> value is None && after == at
        }),
{
}

/// The sleep types are the first two constants of the first `_S5_` package, and
/// there are none without one. A package's length takes one byte and as many
/// more as the two top bits of that byte say; the element count takes one.
pub proof fn the_sleep_types_are_in_the_package<F: Fn(u64) -> u8>(
    memory: Memory<F>,
    dsdt: int,
    at: int,
)
    requires
        36 <= memory.word(dsdt + 4) <= 1_048_576,
        is_mapped(dsdt, memory.word(dsdt + 4) as int),
        36 <= at,
        forall|k: int| 36 <= k < at ==> !#[trigger] holds_s5(memory, dsdt, k),
    ensures
        at + 8 >= memory.word(dsdt + 4) ==> s5_of(memory, dsdt) == (None::<u16>, None::<u16>),
        at + 8 < memory.word(dsdt + 4) && holds_s5(memory, dsdt, at) ==> {
            let first = at + 7 + memory.byte(dsdt + at + 5) / 64;
            let a = memory.byte(dsdt + first);
            let b = memory.byte(dsdt + first + 1);
            let c = memory.byte(dsdt + first + 2);
            let d = memory.byte(dsdt + first + 3);
            is_mapped(dsdt, first + 4) ==> {
                &&& a <= 1 && b <= 1 ==> s5_of(memory, dsdt) == (Some(a as u16), Some(b as u16))
                &&& a <= 1 && b == 0x0A ==> s5_of(memory, dsdt) == (
                    Some(a as u16),
                    Some(c as u16),
                )
                &&& a == 0x0A && c <= 1 ==> s5_of(memory, dsdt) == (
                    Some(b as u16),
                    Some(c as u16),
                )
                &&& a == 0x0A && c == 0x0A ==> s5_of(memory, dsdt) == (
                    Some(b as u16),
                    Some(d as u16),
                )
                &&& a > 1 && a != 0x0A ==> s5_of(memory, dsdt).0 is None
            }
        },
{
    the_first_package_is_found(memory, dsdt, memory.word(dsdt + 4) as int, 36, at);
    s5_is_named(memory, dsdt, at);
}

/// The bytes `_S5_` and a package opcode stand at an offset.
pub open spec fn holds_s5<F: Fn(u64) -> u8>(memory: Memory<F>, dsdt: int, at: int) -> bool {
    memory.byte(dsdt + at) == 0x5F && memory.byte(dsdt + at + 1) == 0x53 && memory.byte(
        dsdt + at + 2,
    ) == 0x35 && memory.byte(dsdt + at + 3) == 0x5F && memory.byte(dsdt + at + 4) == 0x12
}

proof fn s5_is_named<F: Fn(u64) -> u8>(memory: Memory<F>, dsdt: int, at: int)
    ensures
        holds_s5(memory, dsdt, at) == is_s5(memory, dsdt, at),
{
    crate::memory::what_verifies(memory, dsdt + at, 0, s5_name());
}

proof fn the_first_package_is_found<F: Fn(u64) -> u8>(
    memory: Memory<F>,
    dsdt: int,
    length: int,
    from: int,
    at: int,
)
    requires
        from <= at,
        forall|k: int| from <= k < at ==> !#[trigger] holds_s5(memory, dsdt, k),
    ensures
        at + 8 >= length ==> s5_from(memory, dsdt, length, from) == (None::<u16>, None::<u16>),
        at + 8 < length && holds_s5(memory, dsdt, at) ==> s5_from(memory, dsdt, length, from)
            == s5_from(memory, dsdt, length, at),
    decreases at - from,
{
    if from < at {
        assert(!holds_s5(memory, dsdt, from));
        s5_is_named(memory, dsdt, from);
        the_first_package_is_found(memory, dsdt, length, from + 1, at);
    }
}

/// The registers stand where a FADT has them: the control ports at 64 and 68,
/// the DSDT at 40, the flags at 112 and the reset register at 116, of which the
/// address space comes first, the port four bytes on and the value behind it. A
/// reset register counts only where the table reaches to its value, flag 10 is
/// set and the space is I/O.
pub proof fn the_registers_are_in_their_places<F: Fn(u64) -> u8>(memory: Memory<F>, fadt: int)
    ensures
        ({
            let r = registers_of(memory, fadt);
            let resets = memory.word(fadt + 4) > 128 && memory.word(fadt + 112) & 0x400 != 0
                && memory.byte(fadt + 116) == 1;
            &&& r.pm1a_control == memory.half(fadt + 64)
            &&& r.pm1b_control == memory.half(fadt + 68)
            &&& (r.slp_typ_a, r.slp_typ_b) == s5_of(memory, memory.word(fadt + 40) as int)
            &&& resets ==> r.reset_port == Some(memory.half(fadt + 120)) && r.reset_value
                == memory.byte(fadt + 128)
            &&& !resets ==> r.reset_port is None && r.reset_value == 0
        }),
{
    low_half(memory, fadt + 64);
    low_half(memory, fadt + 68);
    low_half(memory, fadt + 120);
}

proof fn low_half<F: Fn(u64) -> u8>(memory: Memory<F>, a: int)
    ensures
        memory.word(a) as u16 == memory.half(a),
{
    let word = memory.word(a);
    assert(word as u16 == word % 65536) by (bit_vector);
    crate::memory::words_are_little_endian(memory, a);
}

/// Finds the FADT.
fn find_fadt<F: Fn(u64) -> u8>(memory: &Memory<F>, loader: LoaderRoot) -> (r: Option<u64>)
    requires
        memory.wf(),
    ensures
        r == fadt_of(*memory, loader),
        r matches Some(fadt) ==> is_table(*memory, fadt as int, fadt_name(), 0x10_0000),
{
    let name: [u8; 4] = [0x46, 0x41, 0x43, 0x50];
    assert(name@ =~= fadt_name());
    match find_root(memory, loader) {
        Some(root) => find_table(memory, root, name),
        None => None,
    }
}

/// Reads one AML integer constant, advancing `at`.
fn read_constant<F: Fn(u64) -> u8>(memory: &Memory<F>, base: u64, at: &mut u64) -> (r: Option<u16>)
    requires
        memory.wf(),
        is_mapped(base as int, 0),
        *old(at) < 0x1000_0000,
    ensures
        r == constant(*memory, base as int, *old(at) as int).0,
        *final(at) == constant(*memory, base as int, *old(at) as int).1,
{
    let p: u64 = *at;
    if !mapped(base, p + 1) {
        return None;
    }
    let opcode: u8 = memory.read_u8(base, p);
    if opcode == 0x00 {
        *at = p + 1;
        Some(0)
    } else if opcode == 0x01 {
        *at = p + 1;
        Some(1)
    } else if opcode == 0x0A && mapped(base, p + 2) {
        *at = p + 2;
        Some(memory.read_u8(base, p + 1) as u16)
    } else {
        None
    }
}

/// Scans the DSDT for `\_S5` and reads the sleep types out of it.
///
/// A pattern match, not an AML evaluation. The shape searched for is the one
/// every firmware emits: the `_S5_` name, a package opcode, its length and
/// element count, then the two sleep types as byte constants.
fn find_s5<F: Fn(u64) -> u8>(memory: &Memory<F>, dsdt: u64) -> (r: (Option<u16>, Option<u16>))
    requires
        memory.wf(),
    ensures
        r == s5_of(*memory, dsdt as int),
{
    if !mapped(dsdt, 36) {
        return (None, None);
    }
    let length: u64 = memory.read_u32(dsdt, 4) as u64;
    if length < 36 || length > 0x10_0000 || !mapped(dsdt, length) {
        return (None, None);
    }
    let name: [u8; 4] = [0x5F, 0x53, 0x35, 0x5F];
    assert(name@ =~= s5_name());
    let mut i: u64 = 36;
    while i + 8 < length
        invariant
            memory.wf(),
            name@ == s5_name(),
            36 <= i <= 0x10_0000,
            length <= 0x10_0000,
            is_mapped(dsdt as int, length as int),
            s5_of(*memory, dsdt as int) == s5_from(*memory, dsdt as int, length as int, i as int),
        decreases length - i,
    {
        if memory.reads(dsdt, i, name.as_slice()) && memory.read_u8(dsdt, i + 4) == 0x12 {
            let lead: u8 = memory.read_u8(dsdt, i + 5);
            let mut p: u64 = i + 7 + (lead / 64) as u64;
            let a = read_constant(memory, dsdt, &mut p);
            let b = read_constant(memory, dsdt, &mut p);
            return (a, b);
        }
        i += 1;
    }
    (None, None)
}

/// The registers of the FADT, where there is one with room for them.
pub open spec fn power_of<F: Fn(u64) -> u8>(memory: Memory<F>, loader: LoaderRoot) -> Option<
    PowerRegisters,
> {
    match fadt_of(memory, loader) {
        Some(fadt) => if is_mapped(fadt as int, 72) {
            Some(registers_of(memory, fadt as int))
        } else {
            None
        },
        None => None,
    }
}

/// The registers are known exactly where there is a FADT whose fixed fields lie
/// in the map.
pub proof fn the_registers_are_the_fadts<F: Fn(u64) -> u8>(memory: Memory<F>, loader: LoaderRoot)
    ensures
        power_of(memory, loader) is Some <==> (fadt_of(memory, loader) matches Some(fadt)
            && is_mapped(fadt as int, 72)),
        power_of(memory, loader) matches Some(r) ==> r == registers_of(
            memory,
            fadt_of(memory, loader)->0 as int,
        ),
{
}

/// Reads the firmware tables. `None` where no FADT is listed, or where the
/// fields it is fixed to have would lie past the map.
pub fn power_registers<F: Fn(u64) -> u8>(memory: &Memory<F>, loader: LoaderRoot) -> (r: Option<
    PowerRegisters,
>)
    requires
        memory.wf(),
    ensures
        r == power_of(*memory, loader),
{
    let Some(fadt) = find_fadt(memory, loader) else {
        return None;
    };
    if !mapped(fadt, 72) {
        return None;
    }
    let mut regs = PowerRegisters::default();
    regs.pm1a_control = #[verifier::truncate] (memory.read_u32(fadt, 64) as u16);
    regs.pm1b_control = #[verifier::truncate] (memory.read_u32(fadt, 68) as u16);
    // The reset register is only there where the table is long enough and its
    // flags say so; it is a Generic Address Structure whose first byte is the
    // address space, and 1 means system I/O.
    let length: u32 = memory.read_u32(fadt, 4);
    if length > 128 && memory.read_u32(fadt, 112) & 0x400 != 0 && memory.read_u8(fadt, 116) == 1 {
        regs.reset_port = Some(#[verifier::truncate] (memory.read_u32(fadt, 120) as u16));
        regs.reset_value = memory.read_u8(fadt, 128);
    }
    let types = find_s5(memory, memory.read_u32(fadt, 40) as u64);
    regs.slp_typ_a = types.0;
    regs.slp_typ_b = types.1;
    Some(regs)
}

/// Where a FADT says the DSDT is: the 64-bit pointer where the table is long
/// enough to have one and firmware filled it, the 32-bit one otherwise.
pub open spec fn dsdt_address<F: Fn(u64) -> u8>(memory: Memory<F>, fadt: int) -> u64 {
    if table_length(memory, fadt) >= 148 && memory.long(fadt + 140) != 0 {
        memory.long(fadt + 140)
    } else {
        memory.word(fadt + 40) as u64
    }
}

/// Whether a table stands whole and verified at an address, whatever its
/// name.
pub open spec fn is_whole<F: Fn(u64) -> u8>(memory: Memory<F>, table: int, limit: int) -> bool {
    &&& is_mapped(table, 36)
    &&& 36 <= table_length(memory, table) <= limit
    &&& memory.sums_to_zero(table, table_length(memory, table))
}

/// The DSDT, where the FADT names one that stands whole.
pub open spec fn dsdt_of<F: Fn(u64) -> u8>(memory: Memory<F>, loader: LoaderRoot) -> Option<Table> {
    match fadt_of(memory, loader) {
        Some(fadt) => {
            let address = dsdt_address(memory, fadt as int);
            if is_mapped(fadt as int, 44) && is_whole(memory, address as int, 0x40_0000) {
                Some(Table { address, length: table_length(memory, address as int) as u64 })
            } else {
                None
            }
        },
        None => None,
    }
}

/// The wide pointer is taken wherever the FADT reaches to it and it is filled,
/// the narrow one otherwise; the table there is the DSDT where all of it
/// verifies, and its length is the one it gives.
pub proof fn the_dsdt_is_where_the_fadt_says<F: Fn(u64) -> u8>(
    memory: Memory<F>,
    loader: LoaderRoot,
)
    ensures
        fadt_of(memory, loader) is None ==> dsdt_of(memory, loader) is None,
        fadt_of(memory, loader) matches Some(fadt) ==> {
            let wide = memory.word(fadt + 4) >= 148 && memory.long(fadt + 140) != 0;
            let at = if wide {
                memory.long(fadt + 140)
            } else {
                memory.word(fadt + 40) as u64
            };
            let sound = is_mapped(fadt as int, 44) && is_mapped(at as int, 36) && 36 <= memory.word(
                at + 4,
            ) <= 4_194_304 && memory.sums_to_zero(at as int, memory.word(at + 4) as int);
            &&& sound ==> (dsdt_of(memory, loader) matches Some(table) && table.address == at
                && table.length == memory.word(at + 4))
            &&& !sound ==> dsdt_of(memory, loader) is None
        },
{
}

/// The DSDT, for something that can read AML properly.
///
/// A DSDT is tens of kilobytes and a large one is a megabyte. A length
/// outside that is one this should not follow.
pub fn dsdt<F: Fn(u64) -> u8>(memory: &Memory<F>, loader: LoaderRoot) -> (r: Option<Table>)
    requires
        memory.wf(),
    ensures
        r == dsdt_of(*memory, loader),
{
    let Some(fadt) = find_fadt(memory, loader) else {
        return None;
    };
    if !mapped(fadt, 44) {
        return None;
    }
    let length: u32 = memory.read_u32(fadt, 4);
    let wide: u64 = if length >= 148 {
        memory.read_u64(fadt, 140)
    } else {
        0
    };
    let address: u64 = if wide != 0 {
        wide
    } else {
        memory.read_u32(fadt, 40) as u64
    };
    if !mapped(address, 36) {
        return None;
    }
    let table_length: u64 = memory.read_u32(address, 4) as u64;
    if table_length < 36 || table_length > 0x40_0000 || !memory.checksum_ok(address, table_length) {
        return None;
    }
    Some(Table { address, length: table_length })
}

/// Whatever the firmware holds, a table handed out lies wholly inside the map
/// and its bytes sum to zero.
pub proof fn tables_are_verified<F: Fn(u64) -> u8>(memory: Memory<F>, root: Root, count: int, i: int)
    requires
        0 <= i < ssdts(memory, root, count).len(),
    ensures
        ({
            let table = ssdts(memory, root, count)[i];
            memory.sums_to_zero(table.address as int, table.length as int) && table.length
                >= 36
        }),
    decreases count,
{
    let last = entry(memory, root, count - 1);
    if count > 0 && i < ssdts(memory, root, count - 1).len() {
        tables_are_verified(memory, root, count - 1, i);
    }
}

// ---------------------------------------------------------------------------
// Off and on again
// ---------------------------------------------------------------------------

/// A sixteen-bit write to an I/O port.
#[derive(Debug, Clone, Copy, PartialEq, Eq, Structural)]
pub struct PortWrite {
    pub port: u16,
    pub value: u16,
}

/// The value that asks a control register for a sleep type: the type in bits
/// 12:10 and the enable in bit 13.
pub open spec fn sleep_request(kind: u16) -> u16 {
    (kind << 10) | 0x2000
}

/// The writes to the platform's own control registers.
pub open spec fn sleep_writes(regs: Option<PowerRegisters>) -> Seq<PortWrite> {
    match regs {
        Some(r) => match r.slp_typ_a {
            Some(a) => if r.pm1a_control == 0 {
                seq![]
            } else {
                let first = PortWrite { port: r.pm1a_control, value: sleep_request(a) };
                match r.slp_typ_b {
                    Some(b) => if r.pm1b_control == 0 {
                        seq![first]
                    } else {
                        seq![
                            first,
                            PortWrite { port: r.pm1b_control, value: sleep_request(b) },
                        ]
                    },
                    None => seq![first],
                }
            },
            None => seq![],
        },
        None => seq![],
    }
}

/// The emulator fallbacks, in the order they appeared historically. On real
/// hardware these are unassigned and the writes do nothing.
pub open spec fn emulator_writes() -> Seq<PortWrite> {
    seq![
        PortWrite { port: 0x604, value: 0x2000 },
        PortWrite { port: 0xB004, value: 0x2000 },
        PortWrite { port: 0x4004, value: 0x3400 },
    ]
}

/// What to write to power the machine off.
pub open spec fn shutdown_writes(regs: Option<PowerRegisters>) -> Seq<PortWrite> {
    sleep_writes(regs) + emulator_writes()
}

/// The machine is asked for soft off the way its firmware says to: the type of
/// the package goes into bits 12 to 10 of each control register there is, with
/// the enable bit above it, the first register first. Without a first register or
/// a type for it nothing of that is written. The emulators' ports come after, in
/// every case.
pub proof fn a_shutdown_asks_for_soft_off(regs: Option<PowerRegisters>)
    ensures
        ({
            let writes = shutdown_writes(regs);
            let n = writes.len() - 3;
            let asks = regs matches Some(r) && r.slp_typ_a is Some && r.pm1a_control != 0;
            let both = asks && regs->0.slp_typ_b is Some && regs->0.pm1b_control != 0;
            &&& n == if both {
                2int
            } else if asks {
                1
            } else {
                0
            }
            &&& asks ==> {
                let kind = regs->0.slp_typ_a->0;
                &&& writes[0].port == regs->0.pm1a_control
                &&& kind < 8 ==> writes[0].value == 8192 + 1024 * kind
            }
            &&& both ==> {
                let kind = regs->0.slp_typ_b->0;
                &&& writes[1].port == regs->0.pm1b_control
                &&& kind < 8 ==> writes[1].value == 8192 + 1024 * kind
            }
            &&& writes[n] == (PortWrite { port: 0x604, value: 0x2000 })
            &&& writes[n + 1] == (PortWrite { port: 0xB004, value: 0x2000 })
            &&& writes[n + 2] == (PortWrite { port: 0x4004, value: 0x3400 })
        }),
{
    assert(forall|kind: u16| kind < 8 ==> #[trigger] sleep_request(kind) == 8192 + 1024 * kind) by {
        assert forall|kind: u16| kind < 8 implies #[trigger] sleep_request(kind) == 8192 + 1024
            * kind by {
            assert(kind < 8 ==> (kind << 10) | 0x2000 == 8192 + 1024 * kind) by (bit_vector);
        }
    }
}

/// A sleep type wider than its field still sets the enable bit, and no two that
/// fit ask for the same.
pub proof fn sleep_requests_differ(a: u16, b: u16)
    ensures
        sleep_request(a) & 0x2000 != 0,
        a < 8 && b < 8 && a != b ==> sleep_request(a) != sleep_request(b),
{
    assert(((a << 10) | 0x2000) & 0x2000 != 0) by (bit_vector);
    assert(a < 8 && b < 8 && a != b ==> (a << 10) | 0x2000 != (b << 10) | 0x2000) by (bit_vector);
}

/// What to write to power the machine off, in order: the ACPI sleep register
/// with the type from `\_S5`, then the ports emulators answer on.
///
/// A machine that is still running after the last of them answers none.
pub fn shutdown(regs: Option<&PowerRegisters>) -> (r: Vec<PortWrite>)
    ensures
        r@ == shutdown_writes(
            match regs {
                Some(regs) => Some(*regs),
                None => None,
            },
        ),
{
    let mut out: Vec<PortWrite> = Vec::new();
    if let Some(r) = regs {
        if let Some(kind) = r.slp_typ_a {
            if r.pm1a_control != 0 {
                out.push(PortWrite { port: r.pm1a_control, value: (kind << 10) | 0x2000 });
                if let Some(kind_b) = r.slp_typ_b {
                    if r.pm1b_control != 0 {
                        out.push(
                            PortWrite { port: r.pm1b_control, value: (kind_b << 10) | 0x2000 },
                        );
                    }
                }
            }
        }
    }
    out.push(PortWrite { port: 0x604, value: 0x2000 });
    out.push(PortWrite { port: 0xB004, value: 0x2000 });
    out.push(PortWrite { port: 0x4004, value: 0x3400 });
    out
}

/// How far a restart has got.
#[derive(Debug, Clone, Copy, PartialEq, Eq, Structural)]
pub enum Reboot {
    /// Nothing tried yet.
    Start,
    /// Waiting for the keyboard controller's input buffer to drain, with this
    /// many more looks to take.
    Draining { looks: u32 },
    /// The controller has been asked.
    Pulsed,
    /// Nothing is left to try.
    Done,
}

/// What a restart does next.
#[derive(Debug, Clone, Copy, PartialEq, Eq, Structural)]
pub enum RebootAction {
    /// Write a byte to a port.
    WriteByte { port: u16, value: u8 },
    /// Read the keyboard controller's status from port `0x64`.
    ReadStatus,
    /// Load a null interrupt table and trap: the processor cannot deliver the
    /// fault, cannot deliver the double fault either, and resets.
    TripleFault,
    /// Stop: nothing is left.
    Halt,
}

/// How many looks the keyboard controller gets.
pub const DRAIN_LOOKS: u32 = 0x1_0000;

/// What a restart does next, and where that leaves it. `status` is what the
/// last [`RebootAction::ReadStatus`] returned.
pub open spec fn reboot_step(state: Reboot, regs: Option<PowerRegisters>, status: u8) -> (
    Reboot,
    RebootAction,
) {
    let look = (Reboot::Draining { looks: (DRAIN_LOOKS - 1) as u32 }, RebootAction::ReadStatus);
    match state {
        Reboot::Start => match regs {
            Some(r) => match r.reset_port {
                Some(port) => (
                    Reboot::Draining { looks: DRAIN_LOOKS },
                    RebootAction::WriteByte { port, value: r.reset_value },
                ),
                None => look,
            },
            None => look,
        },
        Reboot::Draining { looks } => if looks == DRAIN_LOOKS {
            look
        } else if status & 0x02 == 0 || looks == 0 {
            (Reboot::Pulsed, RebootAction::WriteByte { port: 0x64, value: 0xFE })
        } else {
            (Reboot::Draining { looks: (looks - 1) as u32 }, RebootAction::ReadStatus)
        },
        Reboot::Pulsed => (Reboot::Done, RebootAction::TripleFault),
        Reboot::Done => (Reboot::Done, RebootAction::Halt),
    }
}

/// How many steps a restart can still take before nothing is left to try.
pub open spec fn reboot_steps_left(state: Reboot) -> int {
    match state {
        Reboot::Start => DRAIN_LOOKS + 4,
        Reboot::Draining { looks } => looks + 2,
        Reboot::Pulsed => 1,
        Reboot::Done => 0,
    }
}

/// Restarts the machine, one action at a time.
///
/// Tries the FADT's reset register, then the keyboard controller's pulse line,
/// which has reset PCs since the AT, then a triple fault. Waiting for the
/// controller's input buffer to drain first is what keeps the command from
/// being dropped.
pub fn reboot(state: Reboot, regs: Option<&PowerRegisters>, status: u8) -> (r: (
    Reboot,
    RebootAction,
))
    ensures
        r == reboot_step(
            state,
            match regs {
                Some(regs) => Some(*regs),
                None => None,
            },
            status,
        ),
{
    let look = (Reboot::Draining { looks: DRAIN_LOOKS - 1 }, RebootAction::ReadStatus);
    match state {
        Reboot::Start => {
            if let Some(r) = regs {
                if let Some(port) = r.reset_port {
                    return (
                        Reboot::Draining { looks: DRAIN_LOOKS },
                        RebootAction::WriteByte { port, value: r.reset_value },
                    );
                }
            }
            look
        },
        Reboot::Draining { looks } => {
            if looks == DRAIN_LOOKS {
                look
            } else if status & 0x02 == 0 || looks == 0 {
                (Reboot::Pulsed, RebootAction::WriteByte { port: 0x64, value: 0xFE })
            } else {
                (Reboot::Draining { looks: looks - 1 }, RebootAction::ReadStatus)
            }
        },
        Reboot::Pulsed => (Reboot::Done, RebootAction::TripleFault),
        Reboot::Done => (Reboot::Done, RebootAction::Halt),
    }
}

/// Every step of a restart brings its end nearer, whatever the hardware
/// answers; and the only way to the end is through the controller's pulse and
/// the triple fault.
pub proof fn reboot_ends(state: Reboot, regs: Option<PowerRegisters>, status: u8)
    requires
        state != Reboot::Done,
        state matches Reboot::Draining { looks } ==> looks <= DRAIN_LOOKS,
    ensures
        ({
            let (next, action) = reboot_step(state, regs, status);
            &&& reboot_steps_left(next) < reboot_steps_left(state)
            &&& next matches Reboot::Draining { looks } ==> looks <= DRAIN_LOOKS
            &&& next == Reboot::Pulsed ==> action == (RebootAction::WriteByte {
                port: 0x64,
                value: 0xFE,
            })
            &&& next == Reboot::Done ==> state == Reboot::Pulsed && action
                == RebootAction::TripleFault
        }),
{
}

/// What a restart tries, in order: the reset register with its value where the
/// firmware declares one, then the keyboard controller's pulse line once its
/// input buffer has drained or has had 65536 looks, then a triple fault; and
/// then it stops.
pub proof fn what_a_restart_tries(regs: Option<PowerRegisters>, status: u8, looks: u32)
    ensures
        (regs matches Some(r) && r.reset_port is Some) ==> reboot_step(Reboot::Start, regs, status)
            == (
            Reboot::Draining { looks: 65536 },
            RebootAction::WriteByte { port: regs->0.reset_port->0, value: regs->0.reset_value },
        ),
        !(regs matches Some(r) && r.reset_port is Some) ==> reboot_step(Reboot::Start, regs, status)
            == (Reboot::Draining { looks: 65535 }, RebootAction::ReadStatus),
        reboot_step(Reboot::Draining { looks: 65536 }, regs, status) == (
            Reboot::Draining { looks: 65535 },
            RebootAction::ReadStatus,
        ),
        0 < looks < 65536 && status & 0x02 != 0 ==> reboot_step(
            Reboot::Draining { looks },
            regs,
            status,
        ) == (Reboot::Draining { looks: (looks - 1) as u32 }, RebootAction::ReadStatus),
        looks < 65536 && (looks == 0 || status & 0x02 == 0) ==> reboot_step(
            Reboot::Draining { looks },
            regs,
            status,
        ) == (Reboot::Pulsed, RebootAction::WriteByte { port: 0x64, value: 0xFE }),
        reboot_step(Reboot::Pulsed, regs, status) == (Reboot::Done, RebootAction::TripleFault),
        reboot_step(Reboot::Done, regs, status) == (Reboot::Done, RebootAction::Halt),
{
}

} // verus!
