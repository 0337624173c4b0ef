//! AHCI: the wire formats of a command, the choice of a command slot, and the
//! protocols that bring a port up and move sectors, as machines that say which
//! register access comes next and take what it returned.
use vstd::prelude::*;
use crate::bytes::{le_bytes, u16_to_le, u32_to_le, u64_to_le};
use crate::pci::DeviceConfigurationSpace;

verus! {

/// Bytes in one sector.
pub const SECTOR_SIZE: usize = 512;

/// Bytes in the command list of a port: 32 headers of 32 bytes.
pub const COMMAND_LIST_SIZE: usize = 1024;

/// Bytes in the area for received frames of a port.
pub const FIS_AREA_SIZE: usize = 256;

/// Bytes in a command table: the command frame in the first 64, an ATAPI command
/// in the next 16, 48 that are reserved, and the scatter-gather entries behind.
pub const COMMAND_TABLE_SIZE: usize = 32 * 256;

/// Offset of the first scatter-gather entry in a command table.
pub const PRDT_AT: usize = 0x80;

/// Scatter-gather entries announced in every command header.
pub const PRDT_ENTRIES: u16 = 8;

/// Most sectors one scatter-gather entry can describe (its count field has 22 bits).
pub const MAX_SECTORS: u16 = 8192;

/// ATA command READ DMA EXT.
pub const ATA_READ_DMA_EXT: u8 = 0x25;

/// ATA command WRITE DMA EXT.
pub const ATA_WRITE_DMA_EXT: u8 = 0x35;

/// Length of a host-to-device register FIS in 32-bit words.
pub const REG_H2D_DWORDS: u8 = 5;

/// Kinds of frame on the SATA link, keyed by the first byte of the frame.
#[derive(Debug, Clone, Copy, PartialEq, Eq, Structural)]
pub enum FISType {
    RegH2D,
    RegD2H,
    DMAActivate,
    DMASetup,
    Data,
    BIST,
    PIOSetup,
    DeviceBits,
}

impl FISType {
    /// The tag byte of this kind of frame.
    pub open spec fn spec_tag(self) -> u8 {
        match self {
            FISType::RegH2D => 0x27,
            FISType::RegD2H => 0x34,
            FISType::DMAActivate => 0x39,
            FISType::DMASetup => 0x41,
            FISType::Data => 0x46,
            FISType::BIST => 0x58,
            FISType::PIOSetup => 0x5F,
            FISType::DeviceBits => 0xA1,
        }
    }

    /// The kind of frame that starts with `tag`, if there is one.
    pub open spec fn spec_from_tag(tag: u8) -> Option<FISType> {
        if tag == 0x27 {
            Some(FISType::RegH2D)
        } else if tag == 0x34 {
            Some(FISType::RegD2H)
        } else if tag == 0x39 {
            Some(FISType::DMAActivate)
        } else if tag == 0x41 {
            Some(FISType::DMASetup)
        } else if tag == 0x46 {
            Some(FISType::Data)
        } else if tag == 0x58 {
            Some(FISType::BIST)
        } else if tag == 0x5F {
            Some(FISType::PIOSetup)
        } else if tag == 0xA1 {
            Some(FISType::DeviceBits)
        } else {
            None
        }
    }

    /// The tag byte of this kind of frame.
    pub fn tag(self) -> (r: u8)
        ensures
            r == self.spec_tag(),
    {
        match self {
            FISType::RegH2D => 0x27,
            FISType::RegD2H => 0x34,
            FISType::DMAActivate => 0x39,
            FISType::DMASetup => 0x41,
            FISType::Data => 0x46,
            FISType::BIST => 0x58,
            FISType::PIOSetup => 0x5F,
            FISType::DeviceBits => 0xA1,
        }
    }

    /// The kind of frame that starts with `tag`; `None` for a byte that tags no frame.
    pub fn from_tag(tag: u8) -> (r: Option<FISType>)
        ensures
            r == Self::spec_from_tag(tag),
            r is Some ==> r.unwrap().spec_tag() == tag,
    {
        if tag == 0x27 {
            Some(FISType::RegH2D)
        } else if tag == 0x34 {
            Some(FISType::RegD2H)
        } else if tag == 0x39 {
            Some(FISType::DMAActivate)
        } else if tag == 0x41 {
            Some(FISType::DMASetup)
        } else if tag == 0x46 {
            Some(FISType::Data)
        } else if tag == 0x58 {
            Some(FISType::BIST)
        } else if tag == 0x5F {
            Some(FISType::PIOSetup)
        } else if tag == 0xA1 {
            Some(FISType::DeviceBits)
        } else {
            None
        }
    }
}

/// Every kind of frame is found again from its tag byte.
pub proof fn lemma_fis_tag_round_trip(kind: FISType)
    ensures
        FISType::spec_from_tag(kind.spec_tag()) == Some(kind),
{
}

/// A host-to-device register frame: the packet that carries an ATA command.
#[derive(Debug, Clone, Copy, PartialEq, Eq)]
pub struct FISRegH2D {
    pub fis_type: FISType,
    /// Port multiplier port, four bits.
    pub pmport: u8,
    /// Set for a command, clear for a control update.
    pub c: bool,
    pub command: u8,
    pub feature_low: u8,
    pub lba0: u8,
    pub lba1: u8,
    pub lba2: u8,
    pub device: u8,
    pub lba3: u8,
    pub lba4: u8,
    pub lba5: u8,
    pub feature_high: u8,
    pub count: u16,
    pub icc: u8,
    pub control: u8,
}

impl FISRegH2D {
    /// The port-multiplier field fits its four bits.
    pub open spec fn wf(self) -> bool {
        self.pmport < 16
    }

    /// The frame as it lies in the command table: twenty bytes.
    pub open spec fn spec_bytes(self) -> Seq<u8> {
        seq![
            self.fis_type.spec_tag(),
            (self.pmport + if self.c { 0x80int } else { 0 }) as u8,
            self.command,
            self.feature_low,
            self.lba0,
            self.lba1,
            self.lba2,
            self.device,
            self.lba3,
            self.lba4,
            self.lba5,
            self.feature_high,
        ] + le_bytes(self.count as int, 2) + seq![self.icc, self.control, 0u8, 0u8, 0u8, 0u8]
    }

    /// The 48-bit block address that the six address bytes spell.
    pub open spec fn spec_lba(self) -> int {
        self.lba0 as int + 0x100 * (self.lba1 as int) + 0x1_0000 * (self.lba2 as int) + 0x100_0000
            * (self.lba3 as int) + 0x1_0000_0000 * (self.lba4 as int) + 0x100_0000_0000 * (
        self.lba5 as int)
    }

    /// The frame as it lies in the command table.
    pub fn to_bytes(&self) -> (r: [u8; 20])
        requires
            self.wf(),
        ensures
            r@ == self.spec_bytes(),
    {
        let count = u16_to_le(self.count);
        let flags: u8 = if self.c {
            self.pmport + 0x80
        } else {
            self.pmport
        };
        let r = [
            self.fis_type.tag(),
            flags,
            self.command,
            self.feature_low,
            self.lba0,
            self.lba1,
            self.lba2,
            self.device,
            self.lba3,
            self.lba4,
            self.lba5,
            self.feature_high,
            count[0],
            count[1],
            self.icc,
            self.control,
            0,
            0,
            0,
            0,
        ];
        assert(r@ =~= self.spec_bytes());
        r
    }
}

/// One of the 32 entries of a port's command list.
#[derive(Debug, Clone, Copy, PartialEq, Eq)]
pub struct HBACommandHeader {
    /// Length of the command frame in 32-bit words, five bits.
    pub command_fis_length: u8,
    pub atapi: bool,
    /// Set when the device is written to.
    pub write: bool,
    pub prefetchable: bool,
    pub reset: bool,
    pub bist: bool,
    pub clear: bool,
    /// Port multiplier port, four bits.
    pub pmp: u8,
    pub prdt_length: u16,
    pub prd_byte_count: u32,
    pub command_table_descriptor_base: u64,
}

/// 1 for a set flag, 0 for a clear one.
pub open spec fn flag(b: bool) -> int {
    if b {
        1
    } else {
        0
    }
}

impl HBACommandHeader {
    /// Both narrow fields fit their bits.
    pub open spec fn wf(self) -> bool {
        self.command_fis_length < 32 && self.pmp < 16
    }

    /// The header as it lies in the command list: 32 bytes.
    pub open spec fn spec_bytes(self) -> Seq<u8> {
        seq![
            (self.command_fis_length + 0x20 * flag(self.atapi) + 0x40 * flag(self.write) + 0x80
                * flag(self.prefetchable)) as u8,
            (flag(self.reset) + 2 * flag(self.bist) + 4 * flag(self.clear) + 0x10 * self.pmp) as u8,
        ] + le_bytes(self.prdt_length as int, 2) + le_bytes(self.prd_byte_count as int, 4)
            + le_bytes(self.command_table_descriptor_base as int, 8) + Seq::new(16, |i: int| 0u8)
    }

    /// The header as it lies in the command list.
    pub fn to_bytes(&self) -> (r: [u8; 32])
        requires
            self.wf(),
        ensures
            r@ == self.spec_bytes(),
    {
        let mut b0: u8 = self.command_fis_length;
        if self.atapi {
            b0 += 0x20;
        }
        if self.write {
            b0 += 0x40;
        }
        if self.prefetchable {
            b0 += 0x80;
        }
        let mut b1: u8 = self.pmp * 0x10;
        if self.reset {
            b1 += 1;
        }
        if self.bist {
            b1 += 2;
        }
        if self.clear {
            b1 += 4;
        }
        let l = u16_to_le(self.prdt_length);
        let c = u32_to_le(self.prd_byte_count);
        let t = u64_to_le(self.command_table_descriptor_base);
        let r = [
            b0, b1, l[0], l[1], c[0], c[1], c[2], c[3], t[0], t[1], t[2], t[3], t[4], t[5], t[6],
            t[7], 0, 0, 0, 0, 0, 0, 0, 0, 0, 0, 0, 0, 0, 0, 0, 0,
        ];
        assert(r@ =~= self.spec_bytes());
        r
    }
}

/// One scatter-gather entry of a command table.
#[derive(Debug, Clone, Copy, PartialEq, Eq)]
pub struct HBAPRDTEntry {
    /// Physical address of the data.
    pub data_base: u64,
    /// Bytes to move, less one; 22 bits.
    pub byte_count: u32,
    /// Raise an interrupt when the entry is done.
    pub interrupt: bool,
}

impl HBAPRDTEntry {
    /// The count fits its 22 bits.
    pub open spec fn wf(self) -> bool {
        self.byte_count < 0x40_0000
    }

    /// The entry as it lies in the command table: 16 bytes.
    pub open spec fn spec_bytes(self) -> Seq<u8> {
        le_bytes(self.data_base as int, 8) + seq![0u8, 0u8, 0u8, 0u8] + le_bytes(
            self.byte_count + 0x8000_0000 * flag(self.interrupt),
            4,
        )
    }

    /// The entry as it lies in the command table.
    pub fn to_bytes(&self) -> (r: [u8; 16])
        requires
            self.wf(),
        ensures
            r@ == self.spec_bytes(),
    {
        let d = u64_to_le(self.data_base);
        let word: u32 = if self.interrupt {
            self.byte_count + 0x8000_0000
        } else {
            self.byte_count
        };
        let w = u32_to_le(word);
        let r = [
            d[0], d[1], d[2], d[3], d[4], d[5], d[6], d[7], 0, 0, 0, 0, w[0], w[1], w[2], w[3],
        ];
        assert(r@ =~= self.spec_bytes());
        r
    }
}

/// Why a transfer did not take place.
#[derive(Debug, Clone, Copy, PartialEq, Eq, Structural)]
pub enum DiskAccessError {
    /// Every command slot of the port is busy.
    NoCommandSlots,
    /// The device reported a task-file error.
    TaskFileError,
}

impl DiskAccessError {
    /// The error in words.
    pub fn message(&self) -> (r: &'static str)
        ensures
            r@ == match *self {
                DiskAccessError::NoCommandSlots => "no command slots"@,
                DiskAccessError::TaskFileError => "task file error"@,
            },
    {
        match self {
            DiskAccessError::NoCommandSlots => "no command slots",
            DiskAccessError::TaskFileError => "task file error",
        }
    }
}

/// The registers of one port, by their place in the port's register block.
#[derive(Debug, Clone, Copy, PartialEq, Eq, Structural)]
pub enum PortRegister {
    CommandListBase,
    CommandListBaseUpper,
    FisBase,
    FisBaseUpper,
    InterruptStatus,
    InterruptEnable,
    CommandStatus,
    TaskFileData,
    Signature,
    SataStatus,
    SataControl,
    SataError,
    SataActive,
    CommandIssue,
}

impl PortRegister {
    /// Byte offset of the register inside the port's register block.
    pub open spec fn spec_offset(self) -> u32 {
        match self {
            PortRegister::CommandListBase => 0x00,
            PortRegister::CommandListBaseUpper => 0x04,
            PortRegister::FisBase => 0x08,
            PortRegister::FisBaseUpper => 0x0C,
            PortRegister::InterruptStatus => 0x10,
            PortRegister::InterruptEnable => 0x14,
            PortRegister::CommandStatus => 0x18,
            PortRegister::TaskFileData => 0x20,
            PortRegister::Signature => 0x24,
            PortRegister::SataStatus => 0x28,
            PortRegister::SataControl => 0x2C,
            PortRegister::SataError => 0x30,
            PortRegister::SataActive => 0x34,
            PortRegister::CommandIssue => 0x38,
        }
    }

    /// Byte offset of the register inside the port's register block.
    pub fn offset(self) -> (r: u32)
        ensures
            r == self.spec_offset(),
    {
        match self {
            PortRegister::CommandListBase => 0x00,
            PortRegister::CommandListBaseUpper => 0x04,
            PortRegister::FisBase => 0x08,
            PortRegister::FisBaseUpper => 0x0C,
            PortRegister::InterruptStatus => 0x10,
            PortRegister::InterruptEnable => 0x14,
            PortRegister::CommandStatus => 0x18,
            PortRegister::TaskFileData => 0x20,
            PortRegister::Signature => 0x24,
            PortRegister::SataStatus => 0x28,
            PortRegister::SataControl => 0x2C,
            PortRegister::SataError => 0x30,
            PortRegister::SataActive => 0x34,
            PortRegister::CommandIssue => 0x38,
        }
    }
}

/// Byte offset, from the controller's base, of the register block of port `port`.
pub fn port_block_offset(port: usize) -> (r: u32)
    requires
        port < 32,
    ensures
        r == 0x100 + 0x80 * port,
{
    0x100 + 0x80 * (port as u32)
}

/// Byte offset of the host capability register from the controller's base.
pub const HOST_CAPABILITY: u32 = 0x00;

/// Byte offset of the ports-implemented register from the controller's base.
pub const PORTS_IMPLEMENTED: u32 = 0x0C;

/// Start bit of the port command register.
pub const CMD_START: u32 = 0x0001;

/// FIS-receive-enable bit of the port command register.
pub const CMD_FIS_RECEIVE_ENABLE: u32 = 0x0010;

/// FIS-receive-running bit of the port command register.
pub const CMD_FIS_RECEIVE_RUNNING: u32 = 0x4000;

/// Command-list-running bit of the port command register.
pub const CMD_LIST_RUNNING: u32 = 0x8000;

/// Busy and data-request bits of the task file.
pub const TFD_BUSY_OR_REQUEST: u32 = 0x88;

/// Number of the task-file-error bit in the interrupt status register.
pub const IS_TASK_FILE_ERROR_BIT: u32 = 30;

/// Whether slot `i` is free: neither active nor issued.
pub open spec fn slot_free(sata_active: u32, command_issue: u32, i: u32) -> bool {
    (((sata_active | command_issue) >> i) & 1) == 0
}

/// Number of the highest command slot that the controller reports.
pub open spec fn last_slot(host_capability: u32) -> u32 {
    (host_capability >> 8) & 0x1F
}

/// The lowest free slot from `i` up to `last`, if there is one.
pub open spec fn first_free_slot(sata_active: u32, command_issue: u32, last: u32, i: u32) -> Option<
    usize,
>
    decreases last + 1 - i,
{
    if i > last || i >= 32 {
        None
    } else if slot_free(sata_active, command_issue, i) {
        Some(i as usize)
    } else {
        first_free_slot(sata_active, command_issue, last, (i + 1) as u32)
    }
}

/// The lowest free command slot among those the controller reports.
pub open spec fn spec_find_command_slot(
    sata_active: u32,
    command_issue: u32,
    host_capability: u32,
) -> Option<usize> {
    first_free_slot(sata_active, command_issue, last_slot(host_capability), 0)
}

/// What `first_free_slot` finds is free, in range and the lowest such slot; it finds
/// nothing only where every slot in range is busy.
pub proof fn lemma_first_free_slot(sata_active: u32, command_issue: u32, last: u32, i: u32)
    requires
        last < 32,
        i <= last + 1,
    ensures
        match first_free_slot(sata_active, command_issue, last, i) {
            Some(k) => i <= k <= last && slot_free(sata_active, command_issue, k as u32)
                && forall|j: u32| i <= j < k ==> !slot_free(sata_active, command_issue, j),
            None => forall|j: u32| i <= j <= last ==> !slot_free(sata_active, command_issue, j),
        },
    decreases last + 1 - i,
{
    if i <= last && !slot_free(sata_active, command_issue, i) {
        lemma_first_free_slot(sata_active, command_issue, last, (i + 1) as u32);
    }
}

/// The number of the last reported slot is below 32.
pub proof fn lemma_last_slot_bound(host_capability: u32)
    ensures
        last_slot(host_capability) < 32,
{
    assert((host_capability >> 8) & 0x1F < 32) by (bit_vector);
}

/// The lowest free command slot among those the controller reports.
///
/// `Some(i)` exactly when slot `i` is free, is reported and no lower slot is free;
/// `None` exactly when every reported slot is busy.
pub fn find_command_slot(sata_active: u32, command_issue: u32, host_capability: u32) -> (r: Option<
    usize,
>)
    ensures
        r == spec_find_command_slot(sata_active, command_issue, host_capability),
        match r {
            Some(i) => i <= last_slot(host_capability) && i < 32 && slot_free(
                sata_active,
                command_issue,
                i as u32,
            ) && forall|j: u32| j < i ==> !slot_free(sata_active, command_issue, j),
            None => forall|j: u32|
                j <= last_slot(host_capability) ==> !slot_free(sata_active, command_issue, j),
        },
{
    let slots = sata_active | command_issue;
    let last = (host_capability >> 8) & 0x1F;
    proof {
        lemma_last_slot_bound(host_capability);
        lemma_first_free_slot(sata_active, command_issue, last, 0);
    }
    let mut i: u32 = 0;
    while i <= last
        invariant
            i <= last + 1,
            last < 32,
            last == last_slot(host_capability),
            slots == sata_active | command_issue,
            match first_free_slot(sata_active, command_issue, last, 0) {
                Some(k) => k <= last && slot_free(sata_active, command_issue, k as u32)
                    && forall|j: u32| j < k ==> !slot_free(sata_active, command_issue, j),
                None => forall|j: u32| j <= last ==> !slot_free(sata_active, command_issue, j),
            },
            first_free_slot(sata_active, command_issue, last, 0) == first_free_slot(
                sata_active,
                command_issue,
                last,
                i,
            ),
        decreases last + 1 - i,
    {
        if ((slots >> i) & 1) == 0 {
            return Some(i as usize);
        }
        i += 1;
    }
    None
}

/// The ATA command, block address, sector count and data address of one transfer.
#[derive(Debug, Clone, Copy, PartialEq, Eq)]
pub struct SectorRequest {
    /// Set to write the buffer to the device, clear to fill it from the device.
    pub write: bool,
    /// First sector.
    pub lba: u64,
    /// Number of sectors.
    pub sector_count: u16,
    /// Physical address of the buffer of `512 * sector_count` bytes.
    pub buffer: u64,
}

impl SectorRequest {
    /// The request moves at least one sector and no more than one entry can describe.
    pub open spec fn wf(self) -> bool {
        1 <= self.sector_count <= MAX_SECTORS
    }

    /// Bytes that the request moves.
    pub open spec fn spec_byte_len(self) -> int {
        SECTOR_SIZE * self.sector_count
    }
}

/// What is written into a command slot before the command is issued.
#[derive(Debug, Clone, Copy, PartialEq, Eq)]
pub struct SectorCommand {
    /// Frame length for the slot's header, in 32-bit words.
    pub command_fis_length: u8,
    /// Write flag for the slot's header.
    pub write: bool,
    /// First scatter-gather entry of the slot's table.
    pub prdt: HBAPRDTEntry,
    /// Command frame of the slot's table.
    pub fis: FISRegH2D,
}

/// The command that carries out `request`.
pub open spec fn spec_build_command(request: SectorRequest) -> SectorCommand {
    SectorCommand {
        command_fis_length: REG_H2D_DWORDS,
        write: request.write,
        prdt: HBAPRDTEntry {
            data_base: request.buffer,
            byte_count: (512 * request.sector_count - 1) as u32,
            interrupt: true,
        },
        fis: FISRegH2D {
            fis_type: FISType::RegH2D,
            pmport: 0,
            c: true,
            command: if request.write {
                ATA_WRITE_DMA_EXT
            } else {
                ATA_READ_DMA_EXT
            },
            feature_low: 0,
            lba0: crate::bytes::byte_of(request.lba as int, 0),
            lba1: crate::bytes::byte_of(request.lba as int, 1),
            lba2: crate::bytes::byte_of(request.lba as int, 2),
            device: 0x40,
            lba3: crate::bytes::byte_of(request.lba as int, 3),
            lba4: crate::bytes::byte_of(request.lba as int, 4),
            lba5: crate::bytes::byte_of(request.lba as int, 5),
            feature_high: 0,
            count: request.sector_count,
            icc: 0,
            control: 0,
        },
    }
}

/// The command that carries out `request`.
///
/// The one scatter-gather entry points at the buffer, counts `512 * n - 1` bytes and
/// asks for an interrupt; the frame is a command frame with READ DMA EXT or WRITE
/// DMA EXT, the low 48 bits of the block address, device byte 0x40 and count `n`.
pub fn build_command(request: &SectorRequest) -> (r: SectorCommand)
    requires
        request.wf(),
    ensures
        r == spec_build_command(*request),
        r.command_fis_length == REG_H2D_DWORDS,
        r.write == request.write,
        r.prdt.data_base == request.buffer,
        r.prdt.byte_count == request.spec_byte_len() - 1,
        r.prdt.byte_count == 512 * request.sector_count - 1,
        r.prdt.interrupt,
        r.prdt.wf(),
        r.fis.wf(),
        r.fis.fis_type == FISType::RegH2D,
        r.fis.pmport == 0,
        r.fis.c,
        r.fis.command == if request.write {
            ATA_WRITE_DMA_EXT
        } else {
            ATA_READ_DMA_EXT
        },
        r.fis.spec_lba() == request.lba % 0x1_0000_0000_0000,
        r.fis.device == 0x40,
        r.fis.count == request.sector_count,
        r.fis.feature_low == 0 && r.fis.feature_high == 0 && r.fis.icc == 0 && r.fis.control == 0,
{
    let l = u64_to_le(request.lba);
    proof {
        reveal_with_fuel(crate::bytes::byte_of, 9);
    }
    SectorCommand {
        command_fis_length: REG_H2D_DWORDS,
        write: request.write,
        prdt: HBAPRDTEntry {
            data_base: request.buffer,
            byte_count: 512 * (request.sector_count as u32) - 1,
            interrupt: true,
        },
        fis: FISRegH2D {
            fis_type: FISType::RegH2D,
            pmport: 0,
            c: true,
            command: if request.write {
                ATA_WRITE_DMA_EXT
            } else {
                ATA_READ_DMA_EXT
            },
            feature_low: 0,
            lba0: l[0],
            lba1: l[1],
            lba2: l[2],
            device: 0x40,
            lba3: l[3],
            lba4: l[4],
            lba5: l[5],
            feature_high: 0,
            count: request.sector_count,
            icc: 0,
            control: 0,
        },
    }
}

/// The header of the slot that holds `command`, with the command table at
/// physical address `table`: the command's frame length and direction, eight
/// scatter-gather entries announced, everything else clear.
pub fn command_header(command: &SectorCommand, table: u64) -> (r: HBACommandHeader)
    ensures
        r == (HBACommandHeader {
            command_fis_length: command.command_fis_length,
            atapi: false,
            write: command.write,
            prefetchable: false,
            reset: false,
            bist: false,
            clear: false,
            pmp: 0,
            prdt_length: PRDT_ENTRIES,
            prd_byte_count: 0,
            command_table_descriptor_base: table,
        }),
        command.command_fis_length < 32 ==> r.wf(),
{
    HBACommandHeader {
        command_fis_length: command.command_fis_length,
        atapi: false,
        write: command.write,
        prefetchable: false,
        reset: false,
        bist: false,
        clear: false,
        pmp: 0,
        prdt_length: PRDT_ENTRIES,
        prd_byte_count: 0,
        command_table_descriptor_base: table,
    }
}

/// Whether the task file shows the device neither busy nor asking for data.
pub open spec fn spec_port_ready(task_file_data: u32) -> bool {
    task_file_data & TFD_BUSY_OR_REQUEST == 0
}

/// Whether the interrupt status shows a task-file error.
pub open spec fn spec_task_file_error(interrupt_status: u32) -> bool {
    (interrupt_status >> IS_TASK_FILE_ERROR_BIT) & 1 == 1
}

/// Whether the command in `slot` is still outstanding.
pub open spec fn spec_slot_issued(command_issue: u32, slot: usize) -> bool {
    command_issue & (1u32 << slot) != 0
}

/// Where a transfer stands.
#[derive(Debug, Clone, Copy, PartialEq, Eq)]
pub enum TransferStage {
    /// The interrupt status is to be cleared.
    ClearStatus,
    /// The active-slots register is to be read.
    ReadActive,
    /// The issued-slots register is to be read.
    ReadIssued { sata_active: u32 },
    /// The host capability register is to be read.
    ReadCapability { sata_active: u32, command_issue: u32 },
    /// The chosen slot is to be filled with the command.
    FillSlot { slot: usize },
    /// The task file is polled until the device is ready.
    PollTaskFile { slot: usize },
    /// The issued-slots register is to be read before the slot's bit is set.
    ReadIssue { slot: usize },
    /// The slot's bit is to be set in the issued-slots register.
    SetIssue { slot: usize, command_issue: u32 },
    /// The issued-slots register is polled.
    PollIssue { slot: usize },
    /// The interrupt status is polled.
    PollStatus { slot: usize, command_issue: u32 },
    /// The transfer is over.
    Finished(Result<(), DiskAccessError>),
}

/// What the driver of a transfer does next.
#[derive(Debug, Clone, Copy, PartialEq, Eq)]
pub enum TransferAction {
    /// Read the port register and hand its value to `advance`.
    Read(PortRegister),
    /// Read the controller's host capability register and hand its value to `advance`.
    ReadHostCapability,
    /// Write the value to the port register.
    Write(PortRegister, u32),
    /// Put the command into the slot: frame length and write flag into the slot's
    /// header, the entry and the frame into the slot's table.
    WriteCommand { slot: usize, command: SectorCommand },
    /// Stop: the transfer ended with this result.
    Done(Result<(), DiskAccessError>),
}

/// One transfer of sectors on one port, from the clearing of the interrupt status to
/// the completion of the command.
#[derive(Debug, Clone, Copy, PartialEq, Eq)]
pub struct Transfer {
    pub request: SectorRequest,
    pub stage: TransferStage,
}

impl TransferStage {
    /// The slot that the stage works on, where one is chosen.
    pub open spec fn spec_slot(self) -> Option<usize> {
        match self {
            TransferStage::FillSlot { slot } => Some(slot),
            TransferStage::PollTaskFile { slot } => Some(slot),
            TransferStage::ReadIssue { slot } => Some(slot),
            TransferStage::SetIssue { slot, .. } => Some(slot),
            TransferStage::PollIssue { slot } => Some(slot),
            TransferStage::PollStatus { slot, .. } => Some(slot),
            _ => None,
        }
    }

    /// How far the protocol has come; a transfer never goes back.
    pub open spec fn spec_rank(self) -> nat {
        match self {
            TransferStage::ClearStatus => 0,
            TransferStage::ReadActive => 1,
            TransferStage::ReadIssued { .. } => 2,
            TransferStage::ReadCapability { .. } => 3,
            TransferStage::FillSlot { .. } => 4,
            TransferStage::PollTaskFile { .. } => 5,
            TransferStage::ReadIssue { .. } => 6,
            TransferStage::SetIssue { .. } => 7,
            TransferStage::PollIssue { .. } => 8,
            TransferStage::PollStatus { .. } => 8,
            TransferStage::Finished(_) => 9,
        }
    }
}

impl Transfer {
    /// The request is well formed and a chosen slot is one of the 32.
    pub open spec fn wf(self) -> bool {
        self.request.wf() && match self.stage.spec_slot() {
            Some(slot) => slot < 32,
            None => true,
        }
    }

    /// What the driver does next.
    pub open spec fn spec_action(self) -> TransferAction {
        match self.stage {
            TransferStage::ClearStatus => TransferAction::Write(
                PortRegister::InterruptStatus,
                0xFFFF_FFFF,
            ),
            TransferStage::ReadActive => TransferAction::Read(PortRegister::SataActive),
            TransferStage::ReadIssued { .. } => TransferAction::Read(PortRegister::CommandIssue),
            TransferStage::ReadCapability { .. } => TransferAction::ReadHostCapability,
            TransferStage::FillSlot { slot } => TransferAction::WriteCommand {
                slot,
                command: spec_build_command(self.request),
            },
            TransferStage::PollTaskFile { .. } => TransferAction::Read(PortRegister::TaskFileData),
            TransferStage::ReadIssue { .. } => TransferAction::Read(PortRegister::CommandIssue),
            TransferStage::SetIssue { slot, command_issue } => TransferAction::Write(
                PortRegister::CommandIssue,
                command_issue | (1u32 << slot),
            ),
            TransferStage::PollIssue { .. } => TransferAction::Read(PortRegister::CommandIssue),
            TransferStage::PollStatus { .. } => TransferAction::Read(PortRegister::InterruptStatus),
            TransferStage::Finished(r) => TransferAction::Done(r),
        }
    }

    /// The stage after the pending action was carried out and, where it was a read,
    /// returned `value`.
    pub open spec fn spec_next_stage(self, value: u32) -> TransferStage {
        match self.stage {
            TransferStage::ClearStatus => TransferStage::ReadActive,
            TransferStage::ReadActive => TransferStage::ReadIssued { sata_active: value },
            TransferStage::ReadIssued { sata_active } => TransferStage::ReadCapability {
                sata_active,
                command_issue: value,
            },
            TransferStage::ReadCapability { sata_active, command_issue } => {
                match spec_find_command_slot(sata_active, command_issue, value) {
                    Some(slot) => TransferStage::FillSlot { slot },
                    None => TransferStage::Finished(Err(DiskAccessError::NoCommandSlots)),
                }
            },
            TransferStage::FillSlot { slot } => TransferStage::PollTaskFile { slot },
            TransferStage::PollTaskFile { slot } => if spec_port_ready(value) {
                TransferStage::ReadIssue { slot }
            } else {
                TransferStage::PollTaskFile { slot }
            },
            TransferStage::ReadIssue { slot } => TransferStage::SetIssue {
                slot,
                command_issue: value,
            },
            TransferStage::SetIssue { slot, .. } => TransferStage::PollIssue { slot },
            TransferStage::PollIssue { slot } => TransferStage::PollStatus {
                slot,
                command_issue: value,
            },
            TransferStage::PollStatus { slot, command_issue } => if spec_task_file_error(value) {
                TransferStage::Finished(Err(DiskAccessError::TaskFileError))
            } else if !spec_slot_issued(command_issue, slot) {
                TransferStage::Finished(Ok(()))
            } else {
                TransferStage::PollIssue { slot }
            },
            TransferStage::Finished(r) => TransferStage::Finished(r),
        }
    }

    /// The transfer after one step.
    pub open spec fn spec_advance(self, value: u32) -> Transfer {
        Transfer { request: self.request, stage: self.spec_next_stage(value) }
    }

    /// Whether the transfer is over.
    pub open spec fn spec_finished(self) -> bool {
        self.stage is Finished
    }

    /// A transfer that has not begun.
    pub fn new(request: SectorRequest) -> (r: Transfer)
        requires
            request.wf(),
        ensures
            r.request == request,
            r.stage == TransferStage::ClearStatus,
            r.wf(),
    {
        Transfer { request, stage: TransferStage::ClearStatus }
    }

    /// What the driver does next.
    pub fn action(&self) -> (r: TransferAction)
        requires
            self.wf(),
        ensures
            r == self.spec_action(),
    {
        match self.stage {
            TransferStage::ClearStatus => TransferAction::Write(
                PortRegister::InterruptStatus,
                0xFFFF_FFFF,
            ),
            TransferStage::ReadActive => TransferAction::Read(PortRegister::SataActive),
            TransferStage::ReadIssued { .. } => TransferAction::Read(PortRegister::CommandIssue),
            TransferStage::ReadCapability { .. } => TransferAction::ReadHostCapability,
            TransferStage::FillSlot { slot } => {
                let command = build_command(&self.request);
                TransferAction::WriteCommand { slot, command }
            },
            TransferStage::PollTaskFile { .. } => TransferAction::Read(PortRegister::TaskFileData),
            TransferStage::ReadIssue { .. } => TransferAction::Read(PortRegister::CommandIssue),
            TransferStage::SetIssue { slot, command_issue } => TransferAction::Write(
                PortRegister::CommandIssue,
                command_issue | (1u32 << slot),
            ),
            TransferStage::PollIssue { .. } => TransferAction::Read(PortRegister::CommandIssue),
            TransferStage::PollStatus { .. } => TransferAction::Read(PortRegister::InterruptStatus),
            TransferStage::Finished(r) => TransferAction::Done(r),
        }
    }

    /// Takes the step: the pending action was carried out and, where it was a read,
    /// returned `value` (after a write the value is not looked at).
    pub fn advance(&mut self, value: u32)
        requires
            old(self).wf(),
        ensures
            *final(self) == old(self).spec_advance(value),
            final(self).wf(),
    {
        let next = match self.stage {
            TransferStage::ClearStatus => TransferStage::ReadActive,
            TransferStage::ReadActive => TransferStage::ReadIssued { sata_active: value },
            TransferStage::ReadIssued { sata_active } => TransferStage::ReadCapability {
                sata_active,
                command_issue: value,
            },
            TransferStage::ReadCapability { sata_active, command_issue } => {
                match find_command_slot(sata_active, command_issue, value) {
                    Some(slot) => TransferStage::FillSlot { slot },
                    None => TransferStage::Finished(Err(DiskAccessError::NoCommandSlots)),
                }
            },
            TransferStage::FillSlot { slot } => TransferStage::PollTaskFile { slot },
            TransferStage::PollTaskFile { slot } => if value & TFD_BUSY_OR_REQUEST == 0 {
                TransferStage::ReadIssue { slot }
            } else {
                TransferStage::PollTaskFile { slot }
            },
            TransferStage::ReadIssue { slot } => TransferStage::SetIssue {
                slot,
                command_issue: value,
            },
            TransferStage::SetIssue { slot, .. } => TransferStage::PollIssue { slot },
            TransferStage::PollIssue { slot } => TransferStage::PollStatus {
                slot,
                command_issue: value,
            },
            TransferStage::PollStatus { slot, command_issue } => if (value
                >> IS_TASK_FILE_ERROR_BIT) & 1 == 1 {
                TransferStage::Finished(Err(DiskAccessError::TaskFileError))
            } else if command_issue & (1u32 << slot) == 0 {
                TransferStage::Finished(Ok(()))
            } else {
                TransferStage::PollIssue { slot }
            },
            TransferStage::Finished(r) => TransferStage::Finished(r),
        };
        self.stage = next;
    }

    /// Whether the transfer is over.
    pub fn finished(&self) -> (r: bool)
        ensures
            r == self.spec_finished(),
    {
        match self.stage {
            TransferStage::Finished(_) => true,
            _ => false,
        }
    }
}

/// The transfer after the steps that return `values`, one after another.
pub open spec fn spec_run(t: Transfer, values: Seq<u32>) -> Transfer
    decreases values.len(),
{
    if values.len() == 0 {
        t
    } else {
        spec_run(t.spec_advance(values[0]), values.drop_first())
    }
}

/// How often the issued-slots register is written in the steps that return `values`.
pub open spec fn spec_issues(t: Transfer, values: Seq<u32>) -> nat
    decreases values.len(),
{
    if values.len() == 0 {
        0
    } else {
        (if t.stage is SetIssue {
            1nat
        } else {
            0nat
        }) + spec_issues(t.spec_advance(values[0]), values.drop_first())
    }
}

/// A step never takes a transfer back, and the step that issues the command takes
/// it forward.
pub proof fn lemma_transfer_progress(t: Transfer, value: u32)
    ensures
        t.spec_advance(value).stage.spec_rank() >= t.stage.spec_rank(),
        t.stage is SetIssue ==> t.spec_advance(value).stage.spec_rank() > t.stage.spec_rank(),
        t.spec_advance(value).request == t.request,
{
}

/// A transfer issues at most one command, whatever the registers return: the
/// issued-slots register is written at most once, with the bit of the chosen slot
/// added to what was read from it.
pub proof fn lemma_one_command_per_transfer(t: Transfer, values: Seq<u32>)
    ensures
        spec_issues(t, values) <= 1,
        t.stage.spec_rank() > 7 ==> spec_issues(t, values) == 0,
        match t.spec_action() {
            TransferAction::Write(PortRegister::CommandIssue, v) => t.stage matches TransferStage::SetIssue {
                slot,
                command_issue,
            } && v == command_issue | (1u32 << slot),
            _ => !(t.stage is SetIssue),
        },
    decreases values.len(),
{
    if values.len() > 0 {
        lemma_transfer_progress(t, values[0]);
        lemma_one_command_per_transfer(t.spec_advance(values[0]), values.drop_first());
    }
}

/// A transfer ends in one of three ways: without a free slot, before anything was
/// issued; with a task-file error, when the interrupt status shows one; with success,
/// when the slot's bit has cleared and the interrupt status shows no such error.
/// While the bit is set and no error is shown, it goes on polling.
pub proof fn lemma_transfer_end(t: Transfer, value: u32)
    requires
        !t.spec_finished(),
    ensures
        match t.spec_advance(value).stage {
            TransferStage::Finished(Ok(())) => t.stage matches TransferStage::PollStatus {
                slot,
                command_issue,
            } && !spec_task_file_error(value) && !spec_slot_issued(command_issue, slot),
            TransferStage::Finished(Err(DiskAccessError::TaskFileError)) => t.stage is PollStatus
                && spec_task_file_error(value),
            TransferStage::Finished(Err(DiskAccessError::NoCommandSlots)) => t.stage matches TransferStage::ReadCapability {
                sata_active,
                command_issue,
            } && spec_find_command_slot(sata_active, command_issue, value) is None,
            _ => t.stage matches TransferStage::PollStatus { slot, command_issue }
                ==> !spec_task_file_error(value) && spec_slot_issued(command_issue, slot),
        },
{
}

/// Every command that a transfer puts into a slot counts `512 * n - 1` bytes in its
/// one scatter-gather entry, points it at the request's buffer and names the
/// request's direction.
pub proof fn lemma_command_byte_count(t: Transfer)
    requires
        t.wf(),
    ensures
        match t.spec_action() {
            TransferAction::WriteCommand { slot, command } => command.prdt.byte_count == 512
                * t.request.sector_count - 1 && command.prdt.data_base == t.request.buffer
                && command.write == t.request.write && command.fis.count
                == t.request.sector_count && slot < 32,
            _ => true,
        },
{
}

/// A transfer that fills the buffer at physical address `buffer` with `sector_count`
/// sectors, starting at sector `lba`.
pub fn read_sectors(lba: u64, sector_count: u16, buffer: u64) -> (r: Transfer)
    requires
        1 <= sector_count <= MAX_SECTORS,
    ensures
        r.request == (SectorRequest { write: false, lba, sector_count, buffer }),
        r.stage == TransferStage::ClearStatus,
        r.wf(),
{
    Transfer::new(SectorRequest { write: false, lba, sector_count, buffer })
}

/// A transfer that writes the `sector_count` sectors in the buffer at physical
/// address `buffer` to the device, starting at sector `lba`.
pub fn write_sectors(lba: u64, sector_count: u16, buffer: u64) -> (r: Transfer)
    requires
        1 <= sector_count <= MAX_SECTORS,
    ensures
        r.request == (SectorRequest { write: true, lba, sector_count, buffer }),
        r.stage == TransferStage::ClearStatus,
        r.wf(),
{
    Transfer::new(SectorRequest { write: true, lba, sector_count, buffer })
}

/// Physical addresses of the memory that a port works in.
#[derive(Debug, Clone, Copy, PartialEq, Eq)]
pub struct PortBuffers {
    /// The command list: 1 KiB, aligned to 1 KiB.
    pub command_list: u64,
    /// The area for received frames: 256 bytes, aligned to 256.
    pub fis: u64,
    /// The command tables, one for each slot, each aligned to 128.
    pub command_tables: [u64; 32],
}

impl PortBuffers {
    /// Every address has the alignment that the controller asks for.
    pub open spec fn spec_aligned(self) -> bool {
        &&& self.command_list % 1024 == 0
        &&& self.fis % 256 == 0
        &&& forall|k: int| 0 <= k < 32 ==> #[trigger] self.command_tables@[k] % 128 == 0
    }

    /// Whether every address has the alignment that the controller asks for.
    pub fn aligned(&self) -> (r: bool)
        ensures
            r == self.spec_aligned(),
    {
        if self.command_list % 1024 != 0 || self.fis % 256 != 0 {
            return false;
        }
        let mut k: usize = 0;
        while k < 32
            invariant
                k <= 32,
                forall|j: int| 0 <= j < k ==> #[trigger] self.command_tables@[j] % 128 == 0,
            decreases 32 - k,
        {
            if self.command_tables[k] % 128 != 0 {
                return false;
            }
            k += 1;
        }
        true
    }

    /// The header that slot `k` starts out with: eight scatter-gather entries
    /// announced, the slot's table as its command table, everything else clear.
    pub open spec fn spec_header(self, k: int) -> HBACommandHeader {
        HBACommandHeader {
            command_fis_length: 0,
            atapi: false,
            write: false,
            prefetchable: false,
            reset: false,
            bist: false,
            clear: false,
            pmp: 0,
            prdt_length: PRDT_ENTRIES,
            prd_byte_count: 0,
            command_table_descriptor_base: self.command_tables@[k],
        }
    }

    /// The 32 headers that the command list starts out with.
    pub fn initial_headers(&self) -> (r: Vec<HBACommandHeader>)
        ensures
            r@.len() == 32,
            forall|k: int| 0 <= k < 32 ==> #[trigger] r@[k] == self.spec_header(k),
            forall|k: int| 0 <= k < 32 ==> (#[trigger] r@[k]).wf(),
    {
        let mut r: Vec<HBACommandHeader> = Vec::new();
        let mut k: usize = 0;
        while k < 32
            invariant
                k <= 32,
                r@.len() == k,
                forall|j: int| 0 <= j < k ==> #[trigger] r@[j] == self.spec_header(j),
            decreases 32 - k,
        {
            r.push(
                HBACommandHeader {
                    command_fis_length: 0,
                    atapi: false,
                    write: false,
                    prefetchable: false,
                    reset: false,
                    bist: false,
                    clear: false,
                    pmp: 0,
                    prdt_length: PRDT_ENTRIES,
                    prd_byte_count: 0,
                    command_table_descriptor_base: self.command_tables[k],
                },
            );
            k += 1;
        }
        r
    }
}

/// A port that was brought up: its number on the controller and its memory.
#[derive(Debug, Clone, Copy, PartialEq, Eq)]
pub struct AHCIPort {
    pub port: usize,
    pub buffers: PortBuffers,
}

/// Whether the SATA status shows a device with an established link.
pub open spec fn spec_device_attached(sata_status: u32) -> bool {
    sata_status & 0x101 == 0x101
}

/// Whether neither the command list nor the FIS receiver is running.
pub open spec fn spec_engine_stopped(command: u32) -> bool {
    command & CMD_FIS_RECEIVE_RUNNING == 0 && command & CMD_LIST_RUNNING == 0
}

/// Whether the command list is not running.
pub open spec fn spec_list_idle(command: u32) -> bool {
    command & CMD_LIST_RUNNING == 0
}

/// Where the bring-up of a port stands.
#[derive(Debug, Clone, Copy, PartialEq, Eq)]
pub enum SetupStage {
    /// The SATA status is to be read.
    ReadSataStatus,
    /// The command register is to be read before the engine is stopped.
    ReadCommand,
    /// Start and FIS-receive-enable are to be cleared.
    StopEngine { command: u32 },
    /// The command register is polled until the engine has stopped.
    PollStopped,
    /// The port's memory is to be allocated.
    Allocate,
    /// The base registers and the command headers are to be written.
    Program { buffers: PortBuffers },
    /// The command register is polled until the command list is idle.
    PollListIdle { buffers: PortBuffers },
    /// The command register is to be read before the engine is started.
    ReadStart { buffers: PortBuffers },
    /// Start and FIS-receive-enable are to be set.
    StartEngine { buffers: PortBuffers, command: u32 },
    /// The bring-up is over: with the port, or without one where no device is attached.
    Finished(Option<AHCIPort>),
}

/// What the driver of a bring-up does next.
#[derive(Debug, Clone, Copy, PartialEq, Eq)]
pub enum SetupAction {
    /// Read the port register and hand its value over.
    Read(PortRegister),
    /// Write the value to the port register.
    Write(PortRegister, u32),
    /// Allocate the command list (`COMMAND_LIST_SIZE` bytes, aligned to as many),
    /// the FIS area (`FIS_AREA_SIZE` bytes, aligned to as many) and one zeroed
    /// command table for each slot (`COMMAND_TABLE_SIZE` bytes, aligned to 128), and
    /// hand their physical addresses over.
    Allocate,
    /// Write the four base registers, then the initial headers into the command list.
    Program {
        command_list_base: u32,
        command_list_base_upper: u32,
        fis_base: u32,
        fis_base_upper: u32,
        buffers: PortBuffers,
    },
    /// Stop: the bring-up ended with this port, or with none.
    Done(Option<AHCIPort>),
}

/// What the driver of a bring-up hands back.
#[derive(Debug, Clone, Copy, PartialEq, Eq)]
pub enum SetupEvent {
    /// A write was carried out.
    Written,
    /// A read returned this value.
    Value(u32),
    /// The memory was allocated at these addresses.
    Buffers(PortBuffers),
}

/// The bring-up of one port.
#[derive(Debug, Clone, Copy, PartialEq, Eq)]
pub struct PortSetup {
    /// Number of the port on its controller.
    pub port: usize,
    pub stage: SetupStage,
}

impl PortSetup {
    /// The memory that the stage holds, where it holds any.
    pub open spec fn spec_buffers(self) -> Option<PortBuffers> {
        match self.stage {
            SetupStage::Program { buffers } => Some(buffers),
            SetupStage::PollListIdle { buffers } => Some(buffers),
            SetupStage::ReadStart { buffers } => Some(buffers),
            SetupStage::StartEngine { buffers, .. } => Some(buffers),
            SetupStage::Finished(Some(port)) => Some(port.buffers),
            _ => None,
        }
    }

    /// The memory that the bring-up works with is aligned as the controller asks,
    /// and a finished bring-up names its own port.
    pub open spec fn wf(self) -> bool {
        &&& match self.spec_buffers() {
            Some(buffers) => buffers.spec_aligned(),
            None => true,
        }
        &&& match self.stage {
            SetupStage::Finished(Some(port)) => port.port == self.port,
            _ => true,
        }
    }

    /// What the driver does next.
    pub open spec fn spec_action(self) -> SetupAction {
        match self.stage {
            SetupStage::ReadSataStatus => SetupAction::Read(PortRegister::SataStatus),
            SetupStage::ReadCommand => SetupAction::Read(PortRegister::CommandStatus),
            SetupStage::StopEngine { command } => SetupAction::Write(
                PortRegister::CommandStatus,
                command & !CMD_START & !CMD_FIS_RECEIVE_ENABLE,
            ),
            SetupStage::PollStopped => SetupAction::Read(PortRegister::CommandStatus),
            SetupStage::Allocate => SetupAction::Allocate,
            SetupStage::Program { buffers } => SetupAction::Program {
                command_list_base: (buffers.command_list % 0x1_0000_0000) as u32,
                command_list_base_upper: (buffers.command_list / 0x1_0000_0000) as u32,
                fis_base: (buffers.fis % 0x1_0000_0000) as u32,
                fis_base_upper: (buffers.fis / 0x1_0000_0000) as u32,
                buffers,
            },
            SetupStage::PollListIdle { .. } => SetupAction::Read(PortRegister::CommandStatus),
            SetupStage::ReadStart { .. } => SetupAction::Read(PortRegister::CommandStatus),
            SetupStage::StartEngine { command, .. } => SetupAction::Write(
                PortRegister::CommandStatus,
                command | CMD_START | CMD_FIS_RECEIVE_ENABLE,
            ),
            SetupStage::Finished(r) => SetupAction::Done(r),
        }
    }

    /// The stage after `event`. An event that does not answer the pending action
    /// leaves the stage as it is.
    pub open spec fn spec_next_stage(self, event: SetupEvent) -> SetupStage {
        match (self.stage, event) {
            (SetupStage::ReadSataStatus, SetupEvent::Value(v)) => if spec_device_attached(v) {
                SetupStage::ReadCommand
            } else {
                SetupStage::Finished(None)
            },
            (SetupStage::ReadCommand, SetupEvent::Value(v)) => SetupStage::StopEngine {
                command: v,
            },
            (SetupStage::StopEngine { .. }, SetupEvent::Written) => SetupStage::PollStopped,
            (SetupStage::PollStopped, SetupEvent::Value(v)) => if spec_engine_stopped(v) {
                SetupStage::Allocate
            } else {
                SetupStage::PollStopped
            },
            (SetupStage::Allocate, SetupEvent::Buffers(buffers)) => if buffers.spec_aligned() {
                SetupStage::Program { buffers }
            } else {
                SetupStage::Allocate
            },
            (SetupStage::Program { buffers }, SetupEvent::Written) => SetupStage::PollListIdle {
                buffers,
            },
            (SetupStage::PollListIdle { buffers }, SetupEvent::Value(v)) => if spec_list_idle(v) {
                SetupStage::ReadStart { buffers }
            } else {
                SetupStage::PollListIdle { buffers }
            },
            (SetupStage::ReadStart { buffers }, SetupEvent::Value(v)) => SetupStage::StartEngine {
                buffers,
                command: v,
            },
            (SetupStage::StartEngine { buffers, .. }, SetupEvent::Written) => SetupStage::Finished(
                Some(AHCIPort { port: self.port, buffers }),
            ),
            (stage, _) => stage,
        }
    }

    /// The bring-up after `event`.
    pub open spec fn spec_advance(self, event: SetupEvent) -> PortSetup {
        PortSetup { port: self.port, stage: self.spec_next_stage(event) }
    }

    /// The bring-up of port `port`, not yet begun.
    pub fn new(port: usize) -> (r: PortSetup)
        ensures
            r == (PortSetup { port, stage: SetupStage::ReadSataStatus }),
            r.wf(),
    {
        PortSetup { port, stage: SetupStage::ReadSataStatus }
    }

    /// What the driver does next.
    pub fn action(&self) -> (r: SetupAction)
        ensures
            r == self.spec_action(),
    {
        match self.stage {
            SetupStage::ReadSataStatus => SetupAction::Read(PortRegister::SataStatus),
            SetupStage::ReadCommand => SetupAction::Read(PortRegister::CommandStatus),
            SetupStage::StopEngine { command } => SetupAction::Write(
                PortRegister::CommandStatus,
                command & !CMD_START & !CMD_FIS_RECEIVE_ENABLE,
            ),
            SetupStage::PollStopped => SetupAction::Read(PortRegister::CommandStatus),
            SetupStage::Allocate => SetupAction::Allocate,
            SetupStage::Program { buffers } => SetupAction::Program {
                command_list_base: (buffers.command_list % 0x1_0000_0000) as u32,
                command_list_base_upper: (buffers.command_list / 0x1_0000_0000) as u32,
                fis_base: (buffers.fis % 0x1_0000_0000) as u32,
                fis_base_upper: (buffers.fis / 0x1_0000_0000) as u32,
                buffers,
            },
            SetupStage::PollListIdle { .. } => SetupAction::Read(PortRegister::CommandStatus),
            SetupStage::ReadStart { .. } => SetupAction::Read(PortRegister::CommandStatus),
            SetupStage::StartEngine { command, .. } => SetupAction::Write(
                PortRegister::CommandStatus,
                command | CMD_START | CMD_FIS_RECEIVE_ENABLE,
            ),
            SetupStage::Finished(r) => SetupAction::Done(r),
        }
    }

    /// Takes the step that `event` answers.
    pub fn advance(&mut self, event: SetupEvent)
        ensures
            *final(self) == old(self).spec_advance(event),
            old(self).wf() ==> final(self).wf(),
    {
        let next = match (self.stage, event) {
            (SetupStage::ReadSataStatus, SetupEvent::Value(v)) => if v & 0x101 == 0x101 {
                SetupStage::ReadCommand
            } else {
                SetupStage::Finished(None)
            },
            (SetupStage::ReadCommand, SetupEvent::Value(v)) => SetupStage::StopEngine {
                command: v,
            },
            (SetupStage::StopEngine { .. }, SetupEvent::Written) => SetupStage::PollStopped,
            (SetupStage::PollStopped, SetupEvent::Value(v)) => if v & CMD_FIS_RECEIVE_RUNNING == 0
                && v & CMD_LIST_RUNNING == 0 {
                SetupStage::Allocate
            } else {
                SetupStage::PollStopped
            },
            (SetupStage::Allocate, SetupEvent::Buffers(buffers)) => if buffers.aligned() {
                SetupStage::Program { buffers }
            } else {
                SetupStage::Allocate
            },
            (SetupStage::Program { buffers }, SetupEvent::Written) => SetupStage::PollListIdle {
                buffers,
            },
            (SetupStage::PollListIdle { buffers }, SetupEvent::Value(v)) => if v & CMD_LIST_RUNNING
                == 0 {
                SetupStage::ReadStart { buffers }
            } else {
                SetupStage::PollListIdle { buffers }
            },
            (SetupStage::ReadStart { buffers }, SetupEvent::Value(v)) => SetupStage::StartEngine {
                buffers,
                command: v,
            },
            (SetupStage::StartEngine { buffers, .. }, SetupEvent::Written) => SetupStage::Finished(
                Some(AHCIPort { port: self.port, buffers }),
            ),
            (stage, _) => stage,
        };
        self.stage = next;
    }

    /// Whether the bring-up is over.
    pub fn finished(&self) -> (r: bool)
        ensures
            r == (self.stage is Finished),
    {
        match self.stage {
            SetupStage::Finished(_) => true,
            _ => false,
        }
    }
}

/// A bring-up ends without a port only where the SATA status shows no attached
/// device, and with a port only by the write that starts the engine; the port it
/// then names is its own, with the memory that was allocated for it.
pub proof fn lemma_setup_end(s: PortSetup, event: SetupEvent)
    requires
        !(s.stage is Finished),
    ensures
        match s.spec_advance(event).stage {
            SetupStage::Finished(None) => s.stage is ReadSataStatus && (event matches SetupEvent::Value(
                v,
            ) && !spec_device_attached(v)),
            SetupStage::Finished(Some(port)) => event is Written && (
            s.stage matches SetupStage::StartEngine { buffers, .. } && port == (AHCIPort {
                port: s.port,
                buffers,
            })),
            _ => true,
        },
        s.wf() ==> s.spec_advance(event).wf(),
{
}

/// Whether the controller implements port `i`.
pub open spec fn spec_port_implemented(ports_implemented: u32, i: u32) -> bool {
    ports_implemented & (1u32 << i) != 0
}

/// The numbers below `n` of the ports that the controller implements, ascending.
pub open spec fn implemented_ports(ports_implemented: u32, n: nat) -> Seq<usize>
    decreases n,
{
    if n == 0 {
        Seq::empty()
    } else if spec_port_implemented(ports_implemented, (n - 1) as u32) {
        implemented_ports(ports_implemented, (n - 1) as nat).push((n - 1) as usize)
    } else {
        implemented_ports(ports_implemented, (n - 1) as nat)
    }
}

/// The bring-ups that a controller's ports need: one for each port that the
/// ports-implemented register names, in ascending order of their numbers.
pub fn init_device(ports_implemented: u32) -> (r: Vec<PortSetup>)
    ensures
        r@ == implemented_ports(ports_implemented, 32).map_values(
            |p: usize| PortSetup { port: p, stage: SetupStage::ReadSataStatus },
        ),
{
    let mut r: Vec<PortSetup> = Vec::new();
    let mut i: u32 = 0;
    while i < 32
        invariant
            i <= 32,
            r@ == implemented_ports(ports_implemented, i as nat).map_values(
                |p: usize| PortSetup { port: p, stage: SetupStage::ReadSataStatus },
            ),
        decreases 32 - i,
    {
        if ports_implemented & (1u32 << i) != 0 {
            r.push(PortSetup::new(i as usize));
        }
        i += 1;
        assert(r@ =~= implemented_ports(ports_implemented, i as nat).map_values(
            |p: usize| PortSetup { port: p, stage: SetupStage::ReadSataStatus },
        ));
    }
    r
}

/// Number of disks: the ports that were brought up.
pub fn get_disk_count(ports: &Vec<AHCIPort>) -> (r: usize)
    ensures
        r == ports@.len(),
{
    ports.len()
}

/// Whether the device is an AHCI controller: mass storage, serial ATA, AHCI.
pub open spec fn spec_is_ahci(d: DeviceConfigurationSpace) -> bool {
    d.class_code == 0x1 && d.subclass == 0x6 && d.prog_if == 0x1
}

/// The sixth base address register of each AHCI controller among the first `n`
/// devices, in their order.
pub open spec fn spec_controllers(devices: Seq<DeviceConfigurationSpace>, n: nat) -> Seq<u32>
    decreases n,
{
    if n == 0 {
        Seq::empty()
    } else if spec_is_ahci(devices[n - 1]) {
        spec_controllers(devices, (n - 1) as nat).push(devices[n - 1].bar_5)
    } else {
        spec_controllers(devices, (n - 1) as nat)
    }
}

/// The AHCI controllers among the devices, each by the physical address of its
/// registers: its sixth base address register.
pub fn init(devices: &Vec<DeviceConfigurationSpace>) -> (r: Vec<u32>)
    ensures
        r@ == spec_controllers(devices@, devices@.len()),
{
    let mut r: Vec<u32> = Vec::new();
    let mut i: usize = 0;
    while i < devices.len()
        invariant
            i <= devices@.len(),
            r@ == spec_controllers(devices@, i as nat),
        decreases devices@.len() - i,
    {
        let device = devices[i].get_identification();
        if device.class == 0x1 && device.subclass == 0x6 && device.interface == 0x1 {
            r.push(devices[i].get_bars()[5]);
        }
        i += 1;
    }
    r
}

} // verus!
