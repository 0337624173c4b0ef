//! PCI Express: the table of configuration windows, the configuration space of a
//! function, and the scan of the buses for functions.
use vstd::prelude::*;
use crate::acpi::{SDTHeader, RSDT};
use crate::bytes::{le16, le32, le64, read_u16, read_u32, read_u64};

verus! {

/// Bytes of a configuration space that hold the fields read here.
pub const CONFIG_SPACE_SIZE: usize = 64;

/// Bytes of an entry of the table of configuration windows.
pub const MCFG_ENTRY_SIZE: usize = 16;

/// Offset of the first entry in that table: behind the header and eight reserved
/// bytes.
pub const MCFG_ENTRIES_AT: usize = 44;

/// The vendor number that a function that is not there answers with.
pub const NO_VENDOR: u16 = 0xFFFF;

/// One configuration window: the buses from `start_bus` to `end_bus` of a segment
/// group, with the configuration spaces of their functions from `config_space` on.
#[derive(Debug, Clone, Copy, PartialEq, Eq, Structural)]
pub struct MCFGEntry {
    pub config_space: u64,
    pub segment_group: u16,
    pub start_bus: u8,
    pub end_bus: u8,
    pub reserved: u32,
}

impl MCFGEntry {
    /// The entry that the 16 bytes at `at` spell.
    pub open spec fn spec_parse(b: Seq<u8>, at: int) -> MCFGEntry {
        MCFGEntry {
            config_space: le64(b, at) as u64,
            segment_group: le16(b, at + 8) as u16,
            start_bus: b[at + 10],
            end_bus: b[at + 11],
            reserved: le32(b, at + 12) as u32,
        }
    }

    /// Reads the entry at `at`.
    pub fn from_bytes(b: &[u8], at: usize) -> (r: MCFGEntry)
        requires
            at + 16 <= b@.len(),
        ensures
            r == Self::spec_parse(b@, at as int),
    {
        let _len = b.len();
        MCFGEntry {
            config_space: read_u64(b, at),
            segment_group: read_u16(b, at + 8),
            start_bus: b[at + 10],
            end_bus: b[at + 11],
            reserved: read_u32(b, at + 12),
        }
    }

    /// Offset of the configuration space of a function from the start of the
    /// window of its bus's entry.
    pub open spec fn spec_function_offset(bus: u8, device: u8, function: u8) -> int {
        bus * 0x10_0000 + device * 0x8000 + function * 0x1000
    }

    /// The address of the configuration space of a function, with physical
    /// memory mapped from `phys_offset` on.
    pub open spec fn spec_config_address(
        self,
        phys_offset: u64,
        bus: u8,
        device: u8,
        function: u8,
    ) -> int {
        phys_offset + self.config_space + Self::spec_function_offset(bus, device, function)
    }

    /// The address of the configuration space of a function; `None` where it
    /// lies above the address space.
    pub fn config_address(&self, phys_offset: u64, bus: u8, device: u8, function: u8) -> (r:
        Option<u64>)
        requires
            device < 32,
            function < 8,
        ensures
            r == if self.spec_config_address(phys_offset, bus, device, function) <= u64::MAX {
                Some(self.spec_config_address(phys_offset, bus, device, function) as u64)
            } else {
                None
            },
    {
        let within: u64 = bus as u64 * 0x10_0000 + device as u64 * 0x8000 + function as u64
            * 0x1000;
        match phys_offset.checked_add(self.config_space) {
            Some(base) => base.checked_add(within),
            None => None,
        }
    }
}

/// Why the PCI functions could not be found.
#[derive(Debug, Clone, Copy, PartialEq, Eq, Structural)]
pub enum PciError {
    /// The root table points to no table of configuration windows.
    NoMcfg,
    /// The table of configuration windows is shorter than it says, or than its
    /// header and reserved bytes.
    TableTooShort,
    /// A configuration space has a header type that stands for nothing known;
    /// holds the header type.
    InvalidHeaderType(u8),
    /// A configuration space was handed over with fewer than 64 bytes.
    ShortRead,
    /// The configuration space of a function lies above the address space.
    AddressOverflow,
}

/// The table of configuration windows.
pub struct MCFGTable {
    pub header: SDTHeader,
    pub entries: Vec<MCFGEntry>,
}

/// Number of entries in a table of configuration windows of `length` bytes.
pub open spec fn spec_entry_count(length: u32) -> int {
    (length - 44) / 16
}

impl MCFGTable {
    /// Reads the table: its header and, behind eight reserved bytes, its entries.
    ///
    /// Fails, with `TableTooShort`, exactly when the header gives a length below
    /// 44 or the bytes are fewer than that length.
    pub fn from_header(table: &[u8]) -> (r: Result<MCFGTable, PciError>)
        ensures
            match r {
                Ok(t) => table@.len() >= 44 && t.header == SDTHeader::spec_parse(table@, 0)
                    && 44 <= t.header.length <= table@.len() && t.entries@.len()
                    == spec_entry_count(t.header.length) && forall|k: int|
                    0 <= k < t.entries@.len() ==> #[trigger] t.entries@[k]
                        == MCFGEntry::spec_parse(table@, 44 + 16 * k),
                Err(e) => e == PciError::TableTooShort && (table@.len() < 44 || le32(table@, 4) < 44
                    || le32(table@, 4) > table@.len()),
            },
    {
        if table.len() < MCFG_ENTRIES_AT {
            return Err(PciError::TableTooShort);
        }
        let header = SDTHeader::from_bytes(table, 0);
        if header.length < 44 || header.length as usize > table.len() {
            return Err(PciError::TableTooShort);
        }
        let count = ((header.length - 44) / 16) as usize;
        let mut entries: Vec<MCFGEntry> = Vec::new();
        let mut k: usize = 0;
        while k < count
            invariant
                k <= count,
                count == spec_entry_count(header.length),
                44 <= header.length <= table@.len(),
                entries@.len() == k,
                forall|j: int|
                    0 <= j < k ==> #[trigger] entries@[j] == MCFGEntry::spec_parse(
                        table@,
                        44 + 16 * j,
                    ),
            decreases count - k,
        {
            entries.push(MCFGEntry::from_bytes(table, 44 + 16 * k));
            k += 1;
        }
        Ok(MCFGTable { header, entries })
    }

    /// The entries of the table.
    pub fn get_entries(&self) -> (r: &Vec<MCFGEntry>)
        ensures
            r == &self.entries,
    {
        &self.entries
    }
}

/// The signature of the table of configuration windows: `MCFG`.
pub open spec fn spec_mcfg_signature() -> Seq<u8> {
    seq![0x4Du8, 0x43u8, 0x46u8, 0x47u8]
}

/// The index of the first header among `tables` from `from` on with the
/// signature `MCFG`.
pub open spec fn spec_find_mcfg(tables: Seq<SDTHeader>, from: int) -> Option<usize>
    decreases tables.len() - from,
{
    if from < 0 || from >= tables.len() {
        None
    } else if tables[from].signature@ == spec_mcfg_signature() {
        Some(from as usize)
    } else {
        spec_find_mcfg(tables, from + 1)
    }
}

/// Finds the table of configuration windows among the tables of the root table:
/// the index of the first with the signature `MCFG`; `NoMcfg` where none has it.
pub fn get_mcfg(rsdt: &RSDT) -> (r: Result<usize, PciError>)
    ensures
        match r {
            Ok(i) => spec_find_mcfg(rsdt.tables@, 0) == Some(i) && i < rsdt.tables@.len(),
            Err(e) => e == PciError::NoMcfg && spec_find_mcfg(rsdt.tables@, 0) is None,
        },
{
    let signature: [u8; 4] = [0x4D, 0x43, 0x46, 0x47];
    assert(signature@ =~= spec_mcfg_signature());
    let tables = rsdt.get_tables();
    let mut i: usize = 0;
    while i < tables.len()
        invariant
            i <= tables@.len(),
            tables@ == rsdt.tables@,
            signature@ == spec_mcfg_signature(),
            spec_find_mcfg(rsdt.tables@, 0) == spec_find_mcfg(rsdt.tables@, i as int),
        decreases tables@.len() - i,
    {
        if tables[i].has_signature(&signature) {
            return Ok(i);
        }
        i += 1;
    }
    Err(PciError::NoMcfg)
}

/// The command register of a function.
#[derive(Debug, Clone, Copy, PartialEq, Eq, Structural)]
pub struct CommandRegister(pub u16);

/// Bit `k` of `bits`, as 0 or 1.
pub open spec fn spec_bit(bits: u16, k: u16) -> u16 {
    (bits >> k) & 1
}

/// `bits` with bit `k` set to `v`.
pub open spec fn spec_with_bit(bits: u16, k: u16, v: u16) -> u16 {
    (bits & !(1u16 << k)) | (v << k)
}

/// A bit that was set reads back as it was set, and setting it changes no other.
pub proof fn lemma_with_bit(bits: u16, k: u16, v: u16, j: u16)
    requires
        k < 16,
        j < 16,
        v <= 1,
    ensures
        spec_bit(spec_with_bit(bits, k, v), k) == v,
        j != k ==> spec_bit(spec_with_bit(bits, k, v), j) == spec_bit(bits, j),
{
    assert(((((bits & !(1u16 << k)) | (v << k)) >> k) & 1) == v) by (bit_vector)
        requires
            k < 16,
            v <= 1,
    ;
    assert(j != k ==> ((((bits & !(1u16 << k)) | (v << k)) >> j) & 1) == ((bits >> j) & 1))
        by (bit_vector)
        requires
            k < 16,
            j < 16,
            v <= 1,
    ;
}

impl CommandRegister {
    pub const IO_SPACE: u16 = 0;

    pub const MEMORY_SPACE: u16 = 1;

    pub const BUS_MASTER: u16 = 2;

    pub const SPECIAL_CYCLES: u16 = 3;

    pub const MEMORY_WRITE: u16 = 4;

    pub const VGA_SNOOP: u16 = 5;

    pub const PARITY_ERROR_RESPONSE: u16 = 6;

    pub const SERR_ENABLE: u16 = 8;

    pub const FAST_B2B_ENABLE: u16 = 9;

    pub const INTERRUPT_DISABLE: u16 = 10;

    /// The register that the 16 bits spell.
    pub fn from_bits(bits: u16) -> (r: CommandRegister)
        ensures
            r.0 == bits,
    {
        CommandRegister(bits)
    }

    /// The 16 bits of the register.
    pub fn into_bits(self) -> (r: u16)
        ensures
            r == self.0,
    {
        self.0
    }

    /// The flag at bit `k`, as 0 or 1.
    pub fn get(&self, k: u16) -> (r: u16)
        requires
            k < 16,
        ensures
            r == spec_bit(self.0, k),
    {
        (self.0 >> k) & 1
    }

    /// Sets the flag at bit `k` to `v`; no other flag changes.
    pub fn set(&mut self, k: u16, v: u16)
        requires
            k < 16,
            v <= 1,
        ensures
            final(self).0 == spec_with_bit(old(self).0, k, v),
            spec_bit(final(self).0, k) == v,
            forall|j: u16| j < 16 && j != k ==> spec_bit(final(self).0, j) == spec_bit(old(self).0, j),
    {
        proof {
            assert forall|j: u16| j < 16 && j != k implies spec_bit(
                spec_with_bit(self.0, k, v),
                j,
            ) == spec_bit(self.0, j) by {
                lemma_with_bit(self.0, k, v, j);
            }
            lemma_with_bit(self.0, k, v, 0);
        }
        self.0 = (self.0 & !(1u16 << k)) | (v << k);
    }

    pub fn io_space(&self) -> (r: u16)
        ensures
            r == spec_bit(self.0, Self::IO_SPACE),
    {
        self.get(Self::IO_SPACE)
    }

    pub fn memory_space(&self) -> (r: u16)
        ensures
            r == spec_bit(self.0, Self::MEMORY_SPACE),
    {
        self.get(Self::MEMORY_SPACE)
    }

    pub fn bus_master(&self) -> (r: u16)
        ensures
            r == spec_bit(self.0, Self::BUS_MASTER),
    {
        self.get(Self::BUS_MASTER)
    }

    pub fn special_cycles(&self) -> (r: u16)
        ensures
            r == spec_bit(self.0, Self::SPECIAL_CYCLES),
    {
        self.get(Self::SPECIAL_CYCLES)
    }

    pub fn memory_write(&self) -> (r: u16)
        ensures
            r == spec_bit(self.0, Self::MEMORY_WRITE),
    {
        self.get(Self::MEMORY_WRITE)
    }

    pub fn vga_snoop(&self) -> (r: u16)
        ensures
            r == spec_bit(self.0, Self::VGA_SNOOP),
    {
        self.get(Self::VGA_SNOOP)
    }

    pub fn parity_error_response(&self) -> (r: u16)
        ensures
            r == spec_bit(self.0, Self::PARITY_ERROR_RESPONSE),
    {
        self.get(Self::PARITY_ERROR_RESPONSE)
    }

    pub fn serr_enable(&self) -> (r: u16)
        ensures
            r == spec_bit(self.0, Self::SERR_ENABLE),
    {
        self.get(Self::SERR_ENABLE)
    }

    pub fn fast_b2b_enable(&self) -> (r: u16)
        ensures
            r == spec_bit(self.0, Self::FAST_B2B_ENABLE),
    {
        self.get(Self::FAST_B2B_ENABLE)
    }

    pub fn interrupt_disable(&self) -> (r: u16)
        ensures
            r == spec_bit(self.0, Self::INTERRUPT_DISABLE),
    {
        self.get(Self::INTERRUPT_DISABLE)
    }
}

/// The configuration space of a function that is a device.
#[derive(Debug, Clone, Copy, PartialEq, Eq, Structural)]
pub struct DeviceConfigurationSpace {
    pub vendor_id: u16,
    pub device_id: u16,
    pub command: CommandRegister,
    pub status: u16,
    pub revision_id: u8,
    pub prog_if: u8,
    pub subclass: u8,
    pub class_code: u8,
    pub cache_line_size: u8,
    pub latency_timer: u8,
    pub header_type: u8,
    pub bist: u8,
    pub bar_0: u32,
    pub bar_1: u32,
    pub bar_2: u32,
    pub bar_3: u32,
    pub bar_4: u32,
    pub bar_5: u32,
    pub cis_ptr: u32,
    pub subsystem_vendor_id: u16,
    pub subsystem_id: u16,
    pub expansion_rom_base: u32,
    pub capabilities_ptr: u8,
    pub interrupt_line: u8,
    pub interrupt_pin: u8,
    pub min_grant: u8,
    pub max_latency: u8,
}

/// What kind of function a device is: its class, its subclass and its
/// programming interface.
#[derive(Debug, Clone, Copy, PartialEq, Eq, Structural)]
pub struct DeviceIdentification {
    pub class: u8,
    pub subclass: u8,
    pub interface: u8,
}

impl DeviceConfigurationSpace {
    /// The configuration space that the first 64 bytes of `b` spell.
    pub open spec fn spec_parse(b: Seq<u8>) -> DeviceConfigurationSpace {
        DeviceConfigurationSpace {
            vendor_id: le16(b, 0) as u16,
            device_id: le16(b, 2) as u16,
            command: CommandRegister(le16(b, 4) as u16),
            status: le16(b, 6) as u16,
            revision_id: b[8],
            prog_if: b[9],
            subclass: b[10],
            class_code: b[11],
            cache_line_size: b[12],
            latency_timer: b[13],
            header_type: b[14],
            bist: b[15],
            bar_0: le32(b, 16) as u32,
            bar_1: le32(b, 20) as u32,
            bar_2: le32(b, 24) as u32,
            bar_3: le32(b, 28) as u32,
            bar_4: le32(b, 32) as u32,
            bar_5: le32(b, 36) as u32,
            cis_ptr: le32(b, 40) as u32,
            subsystem_vendor_id: le16(b, 44) as u16,
            subsystem_id: le16(b, 46) as u16,
            expansion_rom_base: le32(b, 48) as u32,
            capabilities_ptr: b[52],
            interrupt_line: b[60],
            interrupt_pin: b[61],
            min_grant: b[62],
            max_latency: b[63],
        }
    }

    /// The configuration space at an address, from the 64 bytes that were read
    /// there.
    pub fn from_addr(b: &[u8]) -> (r: DeviceConfigurationSpace)
        requires
            b@.len() >= 64,
        ensures
            r == Self::spec_parse(b@),
    {
        DeviceConfigurationSpace {
            vendor_id: read_u16(b, 0),
            device_id: read_u16(b, 2),
            command: CommandRegister(read_u16(b, 4)),
            status: read_u16(b, 6),
            revision_id: b[8],
            prog_if: b[9],
            subclass: b[10],
            class_code: b[11],
            cache_line_size: b[12],
            latency_timer: b[13],
            header_type: b[14],
            bist: b[15],
            bar_0: read_u32(b, 16),
            bar_1: read_u32(b, 20),
            bar_2: read_u32(b, 24),
            bar_3: read_u32(b, 28),
            bar_4: read_u32(b, 32),
            bar_5: read_u32(b, 36),
            cis_ptr: read_u32(b, 40),
            subsystem_vendor_id: read_u16(b, 44),
            subsystem_id: read_u16(b, 46),
            expansion_rom_base: read_u32(b, 48),
            capabilities_ptr: b[52],
            interrupt_line: b[60],
            interrupt_pin: b[61],
            min_grant: b[62],
            max_latency: b[63],
        }
    }

    /// Class, subclass and programming interface of the device.
    pub fn get_identification(&self) -> (r: DeviceIdentification)
        ensures
            r == (DeviceIdentification {
                class: self.class_code,
                subclass: self.subclass,
                interface: self.prog_if,
            }),
    {
        DeviceIdentification {
            class: self.class_code,
            subclass: self.subclass,
            interface: self.prog_if,
        }
    }

    /// The command register, to be changed in place.
    pub fn get_command_reg_mut(&mut self) -> (r: &mut CommandRegister)
        ensures
            *r == old(self).command,
            *final(self) == (DeviceConfigurationSpace { command: *final(r), ..*old(self) }),
    {
        &mut self.command
    }

    /// The six base address registers.
    pub fn get_bars(&self) -> (r: [u32; 6])
        ensures
            r@ == seq![self.bar_0, self.bar_1, self.bar_2, self.bar_3, self.bar_4, self.bar_5],
    {
        let r = [self.bar_0, self.bar_1, self.bar_2, self.bar_3, self.bar_4, self.bar_5];
        assert(r@ =~= seq![self.bar_0, self.bar_1, self.bar_2, self.bar_3, self.bar_4, self.bar_5]);
        r
    }

    /// Whether the device has more than one function.
    pub open spec fn spec_multifunction(self) -> bool {
        self.header_type >= 0x80
    }
}

/// What a function is, by the layout of its configuration space.
#[derive(Debug, Clone, Copy, PartialEq, Eq)]
pub enum DeviceType {
    Device(DeviceConfigurationSpace),
    PCIBridge(()),
    CardBusBridge(()),
}

impl DeviceType {
    /// What the function with this configuration space is. The header type
    /// without its top bit decides: 0 is a device, 1 a bridge to another PCI bus,
    /// 2 a bridge to a CardBus, 0x7F no function at all; any other is an error.
    pub open spec fn spec_from(b: Seq<u8>) -> Result<Option<DeviceType>, PciError> {
        let kind = b[14] % 0x80;
        if kind == 0 {
            Ok(Some(DeviceType::Device(DeviceConfigurationSpace::spec_parse(b))))
        } else if kind == 1 {
            Ok(Some(DeviceType::PCIBridge(())))
        } else if kind == 2 {
            Ok(Some(DeviceType::CardBusBridge(())))
        } else if kind == 0x7F {
            Ok(None)
        } else {
            Err(PciError::InvalidHeaderType(b[14]))
        }
    }

    /// What the function with this configuration space is.
    pub fn from(header: &[u8]) -> (r: Result<Option<DeviceType>, PciError>)
        requires
            header@.len() >= 64,
        ensures
            r == Self::spec_from(header@),
    {
        let kind = header[14] % 0x80;
        if kind == 0 {
            Ok(Some(DeviceType::Device(DeviceConfigurationSpace::from_addr(header))))
        } else if kind == 1 {
            Ok(Some(DeviceType::PCIBridge(())))
        } else if kind == 2 {
            Ok(Some(DeviceType::CardBusBridge(())))
        } else if kind == 0x7F {
            Ok(None)
        } else {
            Err(PciError::InvalidHeaderType(header[14]))
        }
    }

    /// The configuration space, where the function is a device.
    pub fn as_device(&self) -> (r: Option<&DeviceConfigurationSpace>)
        ensures
            match *self {
                DeviceType::Device(config_space) => r == Some(&config_space),
                _ => r is None,
            },
    {
        match self {
            DeviceType::Device(config_space) => Some(config_space),
            _ => None,
        }
    }

    /// The bridge, where the function is a bridge to another PCI bus.
    pub fn as_pci_bridge(&self) -> (r: Option<&()>)
        ensures
            r is Some <==> *self is PCIBridge,
    {
        match self {
            DeviceType::PCIBridge(config_space) => Some(config_space),
            _ => None,
        }
    }

    /// The bridge, where the function is a bridge to a CardBus.
    pub fn as_cardbus_bridge(&self) -> (r: Option<&()>)
        ensures
            r is Some <==> *self is CardBusBridge,
    {
        match self {
            DeviceType::CardBusBridge(config_space) => Some(config_space),
            _ => None,
        }
    }
}

/// Records a function.
pub fn check_function(
    devices: &mut Vec<DeviceConfigurationSpace>,
    config_space: DeviceConfigurationSpace,
)
    ensures
        final(devices)@ == old(devices)@.push(config_space),
{
    devices.push(config_space);
}

/// Where the scan of the buses stands: at one function of one device of one bus
/// of one configuration window.
#[derive(Debug, Clone, Copy, PartialEq, Eq, Structural)]
pub struct Cursor {
    pub entry: usize,
    pub bus: u8,
    pub device: u8,
    pub function: u8,
}

/// The index of the first entry from `from` on that has a bus: one whose first bus
/// is not above its last. The number of entries where there is none.
pub open spec fn spec_first_entry(entries: Seq<MCFGEntry>, from: int) -> int
    decreases entries.len() - from,
{
    if from < 0 || from >= entries.len() {
        entries.len() as int
    } else if entries[from].start_bus <= entries[from].end_bus {
        from
    } else {
        spec_first_entry(entries, from + 1)
    }
}

/// The cursor at the first function of the first bus of the first entry from `from`
/// on that has a bus.
pub open spec fn spec_cursor_at(entries: Seq<MCFGEntry>, from: int) -> Cursor {
    let entry = spec_first_entry(entries, from);
    Cursor {
        entry: entry as usize,
        bus: if entry < entries.len() {
            entries[entry].start_bus
        } else {
            0
        },
        device: 0,
        function: 0,
    }
}

/// The cursor at the first function of the device after the cursor's: the next
/// device of the bus, then the next bus of the window, then the next window.
pub open spec fn spec_next_device(entries: Seq<MCFGEntry>, c: Cursor) -> Cursor {
    if c.device < 31 {
        Cursor { entry: c.entry, bus: c.bus, device: (c.device + 1) as u8, function: 0 }
    } else if c.bus < entries[c.entry as int].end_bus {
        Cursor { entry: c.entry, bus: (c.bus + 1) as u8, device: 0, function: 0 }
    } else {
        spec_cursor_at(entries, c.entry + 1)
    }
}

/// A scan as plain values.
pub struct ScanView {
    pub phys_offset: u64,
    pub entries: Seq<MCFGEntry>,
    pub cursor: Cursor,
    pub devices: Seq<DeviceConfigurationSpace>,
    pub failed: Option<PciError>,
}

/// What the driver of a scan does next.
#[derive(Debug, Clone, Copy, PartialEq, Eq, Structural)]
pub enum ScanAction {
    /// Read the first 64 bytes of the configuration space at the address and hand
    /// them to `feed`.
    Read(u64),
    /// Stop: every function was looked at.
    Done,
    /// Stop: the scan cannot go on.
    Failed(PciError),
}

impl ScanView {
    /// The cursor stands at a function of a bus of an entry, or behind the last
    /// entry.
    pub open spec fn wf(self) -> bool {
        &&& self.cursor.entry <= self.entries.len()
        &&& self.cursor.device < 32
        &&& self.cursor.function < 8
        &&& self.cursor.entry < self.entries.len() ==> self.entries[self.cursor.entry as int].start_bus
            <= self.cursor.bus <= self.entries[self.cursor.entry as int].end_bus
    }

    /// Whether the scan has come to an end, one way or the other.
    pub open spec fn spec_stopped(self) -> bool {
        self.failed is Some || self.cursor.entry >= self.entries.len()
    }

    /// What the driver does next.
    pub open spec fn spec_action(self) -> ScanAction {
        if self.failed is Some {
            ScanAction::Failed(self.failed.unwrap())
        } else if self.cursor.entry >= self.entries.len() {
            ScanAction::Done
        } else {
            let a = self.entries[self.cursor.entry as int].spec_config_address(
                self.phys_offset,
                self.cursor.bus,
                self.cursor.device,
                self.cursor.function,
            );
            if a <= u64::MAX {
                ScanAction::Read(a as u64)
            } else {
                ScanAction::Failed(PciError::AddressOverflow)
            }
        }
    }

    /// The scan with another cursor and other devices.
    pub open spec fn spec_moved(
        self,
        cursor: Cursor,
        devices: Seq<DeviceConfigurationSpace>,
    ) -> ScanView {
        ScanView {
            phys_offset: self.phys_offset,
            entries: self.entries,
            cursor,
            devices,
            failed: self.failed,
        }
    }

    /// The scan after the configuration space at the cursor was handed over.
    ///
    /// At function 0 the header type decides. No function there, a bridge, or a
    /// device without a vendor: the scan goes on with the next device. A device:
    /// it is recorded, and the scan goes on with its function 1 if its header type
    /// has the multifunction bit, with the next device if not. At the functions
    /// from 1 on, a function with a vendor is recorded, and the scan goes on with
    /// the next function, after function 7 with the next device.
    pub open spec fn spec_feed(self, header: Seq<u8>) -> ScanView {
        let c = self.cursor;
        if self.spec_stopped() {
            self
        } else if header.len() < 64 {
            ScanView { failed: Some(PciError::ShortRead), ..self }
        } else if c.function == 0 {
            match DeviceType::spec_from(header) {
                Err(e) => ScanView { failed: Some(e), ..self },
                Ok(Some(DeviceType::Device(space))) => if space.vendor_id == NO_VENDOR {
                    self.spec_moved(spec_next_device(self.entries, c), self.devices)
                } else if space.spec_multifunction() {
                    self.spec_moved(
                        Cursor { entry: c.entry, bus: c.bus, device: c.device, function: 1 },
                        self.devices.push(space),
                    )
                } else {
                    self.spec_moved(spec_next_device(self.entries, c), self.devices.push(space))
                },
                Ok(_) => self.spec_moved(spec_next_device(self.entries, c), self.devices),
            }
        } else {
            let space = DeviceConfigurationSpace::spec_parse(header);
            let devices = if space.vendor_id != NO_VENDOR {
                self.devices.push(space)
            } else {
                self.devices
            };
            if c.function < 7 {
                self.spec_moved(
                    Cursor {
                        entry: c.entry,
                        bus: c.bus,
                        device: c.device,
                        function: (c.function + 1) as u8,
                    },
                    devices,
                )
            } else {
                self.spec_moved(spec_next_device(self.entries, c), devices)
            }
        }
    }
}

/// The scan of the buses of the configuration windows for functions.
pub struct BusScan {
    pub phys_offset: u64,
    pub entries: Vec<MCFGEntry>,
    pub cursor: Cursor,
    pub devices: Vec<DeviceConfigurationSpace>,
    pub failed: Option<PciError>,
}

/// The cursor at the first function of the first bus of the first entry from `from`
/// on that has a bus.
fn cursor_at(entries: &Vec<MCFGEntry>, from: usize) -> (r: Cursor)
    requires
        from <= entries@.len(),
    ensures
        r == spec_cursor_at(entries@, from as int),
        r.entry <= entries@.len(),
        r.entry < entries@.len() ==> entries@[r.entry as int].start_bus == r.bus && r.bus
            <= entries@[r.entry as int].end_bus,
{
    let mut i = from;
    while i < entries.len()
        invariant
            from <= i <= entries@.len(),
            spec_first_entry(entries@, from as int) == spec_first_entry(entries@, i as int),
        decreases entries@.len() - i,
    {
        if entries[i].start_bus <= entries[i].end_bus {
            return Cursor { entry: i, bus: entries[i].start_bus, device: 0, function: 0 };
        }
        i += 1;
    }
    Cursor { entry: i, bus: 0, device: 0, function: 0 }
}

impl BusScan {
    /// The scan as plain values.
    pub open spec fn model(self) -> ScanView {
        ScanView {
            phys_offset: self.phys_offset,
            entries: self.entries@,
            cursor: self.cursor,
            devices: self.devices@,
            failed: self.failed,
        }
    }

    /// The scan of the windows of `entries`, about to look at the first function.
    pub fn new(entries: Vec<MCFGEntry>, phys_offset: u64) -> (r: BusScan)
        ensures
            r.model().wf(),
            r.model() == (ScanView {
                phys_offset,
                entries: entries@,
                cursor: spec_cursor_at(entries@, 0),
                devices: Seq::empty(),
                failed: None,
            }),
    {
        let cursor = cursor_at(&entries, 0);
        BusScan { phys_offset, entries, cursor, devices: Vec::new(), failed: None }
    }

    /// What the driver does next.
    pub fn action(&self) -> (r: ScanAction)
        requires
            self.model().wf(),
        ensures
            r == self.model().spec_action(),
    {
        if let Some(e) = self.failed {
            return ScanAction::Failed(e);
        }
        if self.cursor.entry >= self.entries.len() {
            return ScanAction::Done;
        }
        match self.entries[self.cursor.entry].config_address(
            self.phys_offset,
            self.cursor.bus,
            self.cursor.device,
            self.cursor.function,
        ) {
            Some(a) => ScanAction::Read(a),
            None => ScanAction::Failed(PciError::AddressOverflow),
        }
    }

    /// Moves the cursor to the first function of the next device.
    fn next_device(&mut self)
        requires
            old(self).model().wf(),
            old(self).cursor.entry < old(self).entries@.len(),
        ensures
            final(self).model().wf(),
            final(self).model() == old(self).model().spec_moved(
                spec_next_device(old(self).entries@, old(self).cursor),
                old(self).devices@,
            ),
    {
        let c = self.cursor;
        let _n = self.entries.len();
        if c.device < 31 {
            self.cursor = Cursor { entry: c.entry, bus: c.bus, device: c.device + 1, function: 0 };
        } else if c.bus < self.entries[c.entry].end_bus {
            self.cursor = Cursor { entry: c.entry, bus: c.bus + 1, device: 0, function: 0 };
        } else {
            self.cursor = cursor_at(&self.entries, c.entry + 1);
        }
    }

    /// Looks at the functions of one device: takes the configuration space of the
    /// function at the cursor, records the function where there is one, and moves
    /// the cursor on.
    pub fn check_device(&mut self, header: &[u8])
        requires
            old(self).model().wf(),
        ensures
            final(self).model().wf(),
            final(self).model() == old(self).model().spec_feed(header@),
    {
        if self.failed.is_some() || self.cursor.entry >= self.entries.len() {
            return;
        }
        if header.len() < CONFIG_SPACE_SIZE {
            self.failed = Some(PciError::ShortRead);
            return;
        }
        let c = self.cursor;
        if c.function == 0 {
            match DeviceType::from(header) {
                Err(e) => {
                    self.failed = Some(e);
                },
                Ok(Some(DeviceType::Device(space))) => {
                    if space.vendor_id == NO_VENDOR {
                        self.next_device();
                    } else {
                        check_function(&mut self.devices, space);
                        if space.header_type >= 0x80 {
                            self.cursor = Cursor {
                                entry: c.entry,
                                bus: c.bus,
                                device: c.device,
                                function: 1,
                            };
                        } else {
                            self.next_device();
                        }
                    }
                },
                Ok(_) => {
                    self.next_device();
                },
            }
        } else {
            let space = DeviceConfigurationSpace::from_addr(header);
            if space.vendor_id != NO_VENDOR {
                check_function(&mut self.devices, space);
            }
            if c.function < 7 {
                self.cursor = Cursor {
                    entry: c.entry,
                    bus: c.bus,
                    device: c.device,
                    function: c.function + 1,
                };
            } else {
                self.next_device();
            }
        }
    }

    /// The functions found so far, in the order in which they were found.
    pub fn enumerate_bus(&self) -> (r: &Vec<DeviceConfigurationSpace>)
        ensures
            r == &self.devices,
    {
        &self.devices
    }
}

/// Begins the scan for functions in the windows of the table.
pub fn init(mcfg: &MCFGTable, phys_offset: u64) -> (r: BusScan)
    ensures
        r.model().wf(),
        r.model() == (ScanView {
            phys_offset,
            entries: mcfg.entries@,
            cursor: spec_cursor_at(mcfg.entries@, 0),
            devices: Seq::empty(),
            failed: None,
        }),
{
    BusScan::new(mcfg.entries.clone(), phys_offset)
}

/// The scan records a function exactly when it has a vendor and, at function 0,
/// a header of the device kind; it records the configuration space as the bytes
/// spell it; and it never takes a function off the record.
pub proof fn lemma_scan_records(v: ScanView, header: Seq<u8>)
    requires
        v.wf(),
        !v.spec_stopped(),
        header.len() >= 64,
    ensures
        ({
            let after = v.spec_feed(header);
            let space = DeviceConfigurationSpace::spec_parse(header);
            let recorded = space.vendor_id != NO_VENDOR && (v.cursor.function != 0 || header[14]
                % 0x80 == 0);
            &&& recorded ==> after.devices == v.devices.push(space)
            &&& !recorded ==> after.devices == v.devices
            &&& after.entries == v.entries
            &&& after.phys_offset == v.phys_offset
        }),
{
}

} // verus!
