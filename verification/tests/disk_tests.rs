use lobster::disk::{
    build_command, command_header, find_command_slot, get_disk_count, init, init_device, read_sectors,
    write_sectors, AHCIPort, DiskAccessError, FISRegH2D, FISType, HBACommandHeader, HBAPRDTEntry,
    PortBuffers, PortRegister, PortSetup, SectorRequest, SetupAction, SetupEvent, SetupStage,
    Transfer, TransferAction, TransferStage, port_block_offset,
};
use lobster::pci::DeviceConfigurationSpace;

#[test]
fn fis_tags_round_trip() {
    let all = [
        (FISType::RegH2D, 0x27),
        (FISType::RegD2H, 0x34),
        (FISType::DMAActivate, 0x39),
        (FISType::DMASetup, 0x41),
        (FISType::Data, 0x46),
        (FISType::BIST, 0x58),
        (FISType::PIOSetup, 0x5F),
        (FISType::DeviceBits, 0xA1),
    ];
    for (kind, tag) in all {
        assert_eq!(kind.tag(), tag);
        assert_eq!(FISType::from_tag(tag), Some(kind));
    }
    assert_eq!(FISType::from_tag(0x00), None);
    assert_eq!(FISType::from_tag(0x28), None);
}

#[test]
fn port_register_offsets() {
    assert_eq!(PortRegister::CommandListBase.offset(), 0x00);
    assert_eq!(PortRegister::CommandListBaseUpper.offset(), 0x04);
    assert_eq!(PortRegister::FisBase.offset(), 0x08);
    assert_eq!(PortRegister::FisBaseUpper.offset(), 0x0C);
    assert_eq!(PortRegister::InterruptStatus.offset(), 0x10);
    assert_eq!(PortRegister::InterruptEnable.offset(), 0x14);
    assert_eq!(PortRegister::CommandStatus.offset(), 0x18);
    assert_eq!(PortRegister::TaskFileData.offset(), 0x20);
    assert_eq!(PortRegister::Signature.offset(), 0x24);
    assert_eq!(PortRegister::SataStatus.offset(), 0x28);
    assert_eq!(PortRegister::SataControl.offset(), 0x2C);
    assert_eq!(PortRegister::SataError.offset(), 0x30);
    assert_eq!(PortRegister::SataActive.offset(), 0x34);
    assert_eq!(PortRegister::CommandIssue.offset(), 0x38);
    assert_eq!(port_block_offset(0), 0x100);
    assert_eq!(port_block_offset(31), 0x100 + 31 * 0x80);
}

#[test]
fn lowest_free_slot_is_chosen() {
    assert_eq!(find_command_slot(0, 0, 0x1F00), Some(0));
    assert_eq!(find_command_slot(0b0101, 0b0010, 0x1F00), Some(3));
    assert_eq!(find_command_slot(0x0000_FFFF, 0xFFFF_0000, 0x1F00), None);
    assert_eq!(find_command_slot(0x7FFF_FFFF, 0, 0x1F00), Some(31));
}

#[test]
fn only_reported_slots_are_chosen() {
    assert_eq!(find_command_slot(0b1, 0, 0x0000), None);
    assert_eq!(find_command_slot(0b1, 0, 0x0100), Some(1));
    assert_eq!(find_command_slot(0b0111, 0, 0x0200), None);
    assert_eq!(find_command_slot(0b0111, 0, 0x0300), Some(3));
    assert_eq!(find_command_slot(0, 0, 0xFFFF_E0FF), Some(0));
}

#[test]
fn read_command_is_built_as_the_protocol_says() {
    let request = SectorRequest { write: false, lba: 34, sector_count: 1, buffer: 0x12_3000 };
    let c = build_command(&request);
    assert_eq!(c.command_fis_length, 5);
    assert!(!c.write);
    assert_eq!(
        c.prdt,
        HBAPRDTEntry { data_base: 0x12_3000, byte_count: 511, interrupt: true }
    );
    assert_eq!(c.fis.fis_type, FISType::RegH2D);
    assert!(c.fis.c);
    assert_eq!(c.fis.command, 0x25);
    assert_eq!(c.fis.device, 0x40);
    assert_eq!(c.fis.count, 1);
    assert_eq!(
        (c.fis.lba0, c.fis.lba1, c.fis.lba2, c.fis.lba3, c.fis.lba4, c.fis.lba5),
        (34, 0, 0, 0, 0, 0)
    );
}

#[test]
fn write_command_splits_the_block_address() {
    let request =
        SectorRequest { write: true, lba: 0xAABB_1122_3344_5566, sector_count: 8192, buffer: 0 };
    let c = build_command(&request);
    assert!(c.write);
    assert_eq!(c.fis.command, 0x35);
    assert_eq!(c.prdt.byte_count, 512 * 8192 - 1);
    assert_eq!(
        (c.fis.lba0, c.fis.lba1, c.fis.lba2, c.fis.lba3, c.fis.lba4, c.fis.lba5),
        (0x66, 0x55, 0x44, 0x33, 0x22, 0x11)
    );
    assert_eq!(c.fis.count, 8192);
}

#[test]
fn register_fis_bytes() {
    let c = build_command(&SectorRequest {
        write: false,
        lba: 0x0605_0403_0201,
        sector_count: 0x0102,
        buffer: 0,
    });
    assert_eq!(
        c.fis.to_bytes(),
        [0x27, 0x80, 0x25, 0, 1, 2, 3, 0x40, 4, 5, 6, 0, 0x02, 0x01, 0, 0, 0, 0, 0, 0]
    );
    let other = FISRegH2D { pmport: 5, c: false, feature_low: 9, icc: 7, control: 8, ..c.fis };
    let b = other.to_bytes();
    assert_eq!((b[1], b[3], b[14], b[15]), (0x05, 9, 7, 8));
}

#[test]
fn command_header_bytes() {
    let h = HBACommandHeader {
        command_fis_length: 5,
        atapi: false,
        write: true,
        prefetchable: false,
        reset: false,
        bist: false,
        clear: true,
        pmp: 3,
        prdt_length: 8,
        prd_byte_count: 0x0403_0201,
        command_table_descriptor_base: 0x1122_3344_5566_7780,
    };
    let b = h.to_bytes();
    assert_eq!(b[0], 0x45);
    assert_eq!(b[1], 0x34);
    assert_eq!(&b[2..4], &[8, 0]);
    assert_eq!(&b[4..8], &[1, 2, 3, 4]);
    assert_eq!(&b[8..16], &[0x80, 0x77, 0x66, 0x55, 0x44, 0x33, 0x22, 0x11]);
    assert_eq!(&b[16..], &[0u8; 16]);
    let all = HBACommandHeader { atapi: true, prefetchable: true, reset: true, bist: true, ..h };
    assert_eq!((all.to_bytes()[0], all.to_bytes()[1]), (0xE5, 0x37));
}

#[test]
fn prdt_entry_bytes() {
    let e = HBAPRDTEntry { data_base: 0x1_0000_2000, byte_count: 511, interrupt: true };
    assert_eq!(
        e.to_bytes(),
        [0x00, 0x20, 0x00, 0x00, 0x01, 0, 0, 0, 0, 0, 0, 0, 0xFF, 0x01, 0x00, 0x80]
    );
    let quiet = HBAPRDTEntry { interrupt: false, byte_count: 0x3F_FFFF, ..e };
    assert_eq!(&quiet.to_bytes()[12..], &[0xFF, 0xFF, 0x3F, 0x00]);
}

#[test]
fn error_messages() {
    assert_eq!(DiskAccessError::NoCommandSlots.message(), "no command slots");
    assert_eq!(DiskAccessError::TaskFileError.message(), "task file error");
}

/// A port with a disk behind it, as far as a transfer can tell.
struct FakePort {
    image: Vec<u8>,
    memory: Vec<u8>,
    sata_active: u32,
    command_issue: u32,
    interrupt_status: u32,
    task_file_data: u32,
    capability: u32,
    busy_polls: u32,
    fail: bool,
    stuck: bool,
    slots: Vec<(usize, lobster::disk::SectorCommand)>,
    issue_writes: u32,
    status_clears: u32,
}

impl FakePort {
    fn new(image: Vec<u8>) -> Self {
        FakePort {
            image,
            memory: vec![0xEE; 0x4000],
            sata_active: 0,
            command_issue: 0,
            interrupt_status: 0x0000_0001,
            task_file_data: 0,
            capability: 0x1F00,
            busy_polls: 0,
            fail: false,
            stuck: false,
            slots: Vec::new(),
            issue_writes: 0,
            status_clears: 0,
        }
    }

    fn read(&mut self, register: PortRegister) -> u32 {
        match register {
            PortRegister::SataActive => self.sata_active,
            PortRegister::CommandIssue => self.command_issue,
            PortRegister::InterruptStatus => self.interrupt_status,
            PortRegister::TaskFileData => {
                if self.busy_polls > 0 {
                    self.busy_polls -= 1;
                    0x80
                } else {
                    self.task_file_data
                }
            }
            _ => 0,
        }
    }

    fn write(&mut self, register: PortRegister, value: u32) {
        match register {
            PortRegister::InterruptStatus => {
                self.interrupt_status &= !value;
                self.status_clears += 1;
            }
            PortRegister::CommandIssue => {
                self.issue_writes += 1;
                let started = value & !self.command_issue;
                self.command_issue = value;
                if self.stuck {
                    return;
                }
                for (slot, command) in self.slots.clone() {
                    if started & (1 << slot) != 0 {
                        self.execute(&command);
                        self.command_issue &= !(1 << slot);
                    }
                }
            }
            _ => {}
        }
    }

    fn execute(&mut self, command: &lobster::disk::SectorCommand) {
        if self.fail {
            self.interrupt_status |= 1 << 30;
            return;
        }
        let f = &command.fis;
        let lba = u64::from_le_bytes([f.lba0, f.lba1, f.lba2, f.lba3, f.lba4, f.lba5, 0, 0]);
        let len = command.prdt.byte_count as usize + 1;
        assert_eq!(len, 512 * f.count as usize);
        let at = lba as usize * 512;
        let base = command.prdt.data_base as usize;
        if command.write {
            self.image[at..at + len].copy_from_slice(&self.memory[base..base + len]);
        } else {
            self.memory[base..base + len].copy_from_slice(&self.image[at..at + len]);
        }
    }

    fn run(&mut self, mut transfer: Transfer) -> Result<(), DiskAccessError> {
        for _ in 0..1000 {
            match transfer.action() {
                TransferAction::Read(register) => {
                    let v = self.read(register);
                    transfer.advance(v);
                }
                TransferAction::ReadHostCapability => transfer.advance(self.capability),
                TransferAction::Write(register, value) => {
                    self.write(register, value);
                    transfer.advance(0);
                }
                TransferAction::WriteCommand { slot, command } => {
                    self.slots.retain(|(s, _)| *s != slot);
                    self.slots.push((slot, command));
                    transfer.advance(0);
                }
                TransferAction::Done(result) => {
                    assert!(transfer.finished());
                    return result;
                }
            }
        }
        panic!("the transfer did not end");
    }
}

fn image_with_hello() -> Vec<u8> {
    let mut image = vec![0u8; 64 * 512];
    image[34 * 512..34 * 512 + 6].copy_from_slice(b"HELLO\0");
    for (i, b) in image[35 * 512..37 * 512].iter_mut().enumerate() {
        *b = (i % 251) as u8;
    }
    image
}

#[test]
fn ahci_single_sector_read() {
    let mut port = FakePort::new(image_with_hello());
    let result = port.run(read_sectors(34, 1, 0x1000));
    assert_eq!(result, Ok(()));
    let buffer = &port.memory[0x1000..0x1000 + 512];
    assert_eq!(buffer.len(), 512);
    assert_eq!(&buffer[..6], &[0x48, 0x45, 0x4C, 0x4C, 0x4F, 0x00]);
    assert_eq!(buffer, &port.image[34 * 512..35 * 512]);
    assert_eq!(port.memory[0x1000 + 512], 0xEE);
    assert_eq!(port.memory[0x0FFF], 0xEE);
    assert_eq!(port.issue_writes, 1);
    assert_eq!(port.status_clears, 1);
    assert_eq!(port.slots[0].1.prdt.byte_count, 511);
}

#[test]
fn ahci_read_of_several_sectors_uses_the_lowest_free_slot() {
    let mut port = FakePort::new(image_with_hello());
    port.sata_active = 0b0001;
    port.command_issue = 0b0010;
    port.busy_polls = 3;
    assert_eq!(port.run(read_sectors(35, 2, 0x2000)), Ok(()));
    assert_eq!(&port.memory[0x2000..0x2400], &port.image[35 * 512..37 * 512]);
    assert_eq!(port.slots[0].0, 2);
    assert_eq!(port.slots[0].1.prdt.byte_count, 1023);
    assert_eq!(port.command_issue, 0b0010);
}

#[test]
fn ahci_write_reaches_the_disk() {
    let mut port = FakePort::new(image_with_hello());
    for (i, b) in port.memory[0x3000..0x3200].iter_mut().enumerate() {
        *b = (i % 7) as u8;
    }
    assert_eq!(port.run(write_sectors(3, 1, 0x3000)), Ok(()));
    assert_eq!(&port.image[3 * 512..4 * 512], &port.memory[0x3000..0x3200]);
    assert!(port.slots[0].1.write);
    assert_eq!(port.slots[0].1.fis.command, 0x35);
}

#[test]
fn task_file_error_is_reported() {
    let mut port = FakePort::new(image_with_hello());
    port.fail = true;
    assert_eq!(port.run(read_sectors(34, 1, 0x1000)), Err(DiskAccessError::TaskFileError));
    assert_eq!(port.memory[0x1000], 0xEE);
}

#[test]
fn task_file_error_ends_a_command_that_never_completes() {
    let mut t = read_sectors(34, 1, 0x1000);
    t.stage = TransferStage::PollStatus { slot: 4, command_issue: 1 << 4 };
    t.advance(1 << 30);
    assert_eq!(t.stage, TransferStage::Finished(Err(DiskAccessError::TaskFileError)));
}

#[test]
fn transfer_polls_while_the_command_is_outstanding() {
    let mut t = read_sectors(34, 1, 0x1000);
    t.stage = TransferStage::PollStatus { slot: 4, command_issue: 1 << 4 };
    t.advance(0);
    assert_eq!(t.stage, TransferStage::PollIssue { slot: 4 });
    assert_eq!(t.action(), TransferAction::Read(PortRegister::CommandIssue));
    t.advance(0b0100);
    assert_eq!(t.stage, TransferStage::PollStatus { slot: 4, command_issue: 0b0100 });
    t.advance(0);
    assert_eq!(t.stage, TransferStage::Finished(Ok(())));
    t.advance(7);
    assert_eq!(t.action(), TransferAction::Done(Ok(())));
}

#[test]
fn no_command_slots_is_reported_before_anything_is_issued() {
    let mut port = FakePort::new(image_with_hello());
    port.sata_active = u32::MAX;
    assert_eq!(port.run(read_sectors(34, 1, 0x1000)), Err(DiskAccessError::NoCommandSlots));
    assert_eq!(port.issue_writes, 0);
    assert!(port.slots.is_empty());
}

#[test]
fn transfer_waits_for_the_device_to_be_ready() {
    let mut t = Transfer::new(SectorRequest { write: false, lba: 0, sector_count: 1, buffer: 0 });
    assert_eq!(t.action(), TransferAction::Write(PortRegister::InterruptStatus, u32::MAX));
    t.advance(0);
    t.advance(0);
    t.advance(0);
    assert_eq!(t.action(), TransferAction::ReadHostCapability);
    t.advance(0x1F00);
    assert!(matches!(t.action(), TransferAction::WriteCommand { slot: 0, .. }));
    t.advance(0);
    assert_eq!(t.action(), TransferAction::Read(PortRegister::TaskFileData));
    t.advance(0x80);
    assert_eq!(t.stage, TransferStage::PollTaskFile { slot: 0 });
    t.advance(0x08);
    assert_eq!(t.stage, TransferStage::PollTaskFile { slot: 0 });
    t.advance(0x41);
    assert_eq!(t.stage, TransferStage::ReadIssue { slot: 0 });
    t.advance(0b1000);
    assert_eq!(t.action(), TransferAction::Write(PortRegister::CommandIssue, 0b1001));
}

fn buffers() -> PortBuffers {
    let mut command_tables = [0u64; 32];
    for (k, t) in command_tables.iter_mut().enumerate() {
        *t = 0x20_0000 + 0x2000 * k as u64;
    }
    PortBuffers { command_list: 0x1_0000_0400, fis: 0x10_0100, command_tables }
}

#[test]
fn ports_are_set_up_for_the_implemented_bits() {
    let setups = init_device(0b1000_0000_0000_0000_0000_0000_0010_0101);
    let ports: Vec<_> = setups.iter().map(|s| s.port).collect();
    assert_eq!(ports, vec![0, 2, 5, 31]);
    assert!(setups.iter().all(|s| s.stage == SetupStage::ReadSataStatus));
    assert!(init_device(0).is_empty());
    assert_eq!(init_device(u32::MAX).len(), 32);
}

#[test]
fn port_without_device_is_skipped() {
    for status in [0x000, 0x001, 0x100, 0x003, 0x123 & !0x100] {
        let mut s = PortSetup::new(3);
        assert_eq!(s.action(), SetupAction::Read(PortRegister::SataStatus));
        s.advance(SetupEvent::Value(status));
        assert_eq!(s.action(), SetupAction::Done(None));
        assert!(s.finished());
    }
}

#[test]
fn port_bring_up_follows_the_protocol() {
    let mut s = PortSetup::new(5);
    s.advance(SetupEvent::Value(0x123));
    assert_eq!(s.action(), SetupAction::Read(PortRegister::CommandStatus));
    s.advance(SetupEvent::Value(0x0000_C017));
    assert_eq!(s.action(), SetupAction::Write(PortRegister::CommandStatus, 0x0000_C006));
    s.advance(SetupEvent::Written);
    assert_eq!(s.action(), SetupAction::Read(PortRegister::CommandStatus));
    s.advance(SetupEvent::Value(0x4006));
    assert_eq!(s.stage, SetupStage::PollStopped);
    s.advance(SetupEvent::Value(0x8006));
    assert_eq!(s.stage, SetupStage::PollStopped);
    s.advance(SetupEvent::Value(0x0006));
    assert_eq!(s.action(), SetupAction::Allocate);
    s.advance(SetupEvent::Buffers(buffers()));
    assert_eq!(
        s.action(),
        SetupAction::Program {
            command_list_base: 0x0000_0400,
            command_list_base_upper: 1,
            fis_base: 0x10_0100,
            fis_base_upper: 0,
            buffers: buffers(),
        }
    );
    s.advance(SetupEvent::Written);
    assert_eq!(s.action(), SetupAction::Read(PortRegister::CommandStatus));
    s.advance(SetupEvent::Value(0x8006));
    assert_eq!(s.stage, SetupStage::PollListIdle { buffers: buffers() });
    s.advance(SetupEvent::Value(0x4006));
    assert_eq!(s.action(), SetupAction::Read(PortRegister::CommandStatus));
    s.advance(SetupEvent::Value(0x0006));
    assert_eq!(s.action(), SetupAction::Write(PortRegister::CommandStatus, 0x0017));
    assert!(!s.finished());
    s.advance(SetupEvent::Written);
    assert_eq!(s.action(), SetupAction::Done(Some(AHCIPort { port: 5, buffers: buffers() })));
    s.advance(SetupEvent::Value(1));
    assert!(s.finished());
}

#[test]
fn bring_up_ignores_events_that_answer_nothing() {
    let mut s = PortSetup::new(0);
    s.advance(SetupEvent::Written);
    s.advance(SetupEvent::Buffers(buffers()));
    assert_eq!(s.stage, SetupStage::ReadSataStatus);
    s.advance(SetupEvent::Value(0x101));
    s.advance(SetupEvent::Written);
    assert_eq!(s.stage, SetupStage::ReadCommand);
}

#[test]
fn bring_up_asks_again_for_misaligned_memory() {
    let mut s = PortSetup { port: 0, stage: SetupStage::Allocate };
    for wrong in [
        PortBuffers { command_list: 0x1_0000_0200, ..buffers() },
        PortBuffers { fis: 0x10_0080, ..buffers() },
        {
            let mut b = buffers();
            b.command_tables[31] += 64;
            b
        },
    ] {
        assert!(!wrong.aligned());
        s.advance(SetupEvent::Buffers(wrong));
        assert_eq!(s.action(), SetupAction::Allocate);
    }
    assert!(buffers().aligned());
}

#[test]
fn initial_command_headers() {
    let headers = buffers().initial_headers();
    assert_eq!(headers.len(), 32);
    for (k, h) in headers.iter().enumerate() {
        assert_eq!(h.prdt_length, 8);
        assert_eq!(h.command_table_descriptor_base, 0x20_0000 + 0x2000 * k as u64);
        assert_eq!(h.command_fis_length, 0);
        assert!(!h.write);
        assert_eq!(&h.to_bytes()[2..4], &[8, 0]);
    }
}

#[test]
fn controllers_are_the_ahci_devices() {
    let device = |class: u8, subclass: u8, prog_if: u8, bar_5: u32| {
        let mut b = [0u8; 64];
        b[9] = prog_if;
        b[10] = subclass;
        b[11] = class;
        b[36..40].copy_from_slice(&bar_5.to_le_bytes());
        DeviceConfigurationSpace::from_addr(&b)
    };
    let devices = vec![
        device(6, 0, 0, 1),
        device(1, 6, 1, 0xFEBF_1000),
        device(1, 6, 0, 3),
        device(1, 1, 1, 4),
        device(2, 6, 1, 5),
        device(1, 6, 1, 0xFEBF_2000),
    ];
    assert_eq!(init(&devices), vec![0xFEBF_1000, 0xFEBF_2000]);
    assert!(init(&Vec::new()).is_empty());
}

#[test]
fn disk_count_is_the_number_of_ports() {
    assert_eq!(get_disk_count(&Vec::new()), 0);
    let ports = vec![AHCIPort { port: 0, buffers: buffers() }, AHCIPort { port: 4, buffers: buffers() }];
    assert_eq!(get_disk_count(&ports), 2);
}

#[test]
fn slot_header_of_a_command() {
    let command = build_command(&SectorRequest { write: true, lba: 9, sector_count: 2, buffer: 0 });
    let header = command_header(&command, 0x20_4000);
    assert_eq!(
        header,
        HBACommandHeader {
            command_fis_length: 5,
            atapi: false,
            write: true,
            prefetchable: false,
            reset: false,
            bist: false,
            clear: false,
            pmp: 0,
            prdt_length: 8,
            prd_byte_count: 0,
            command_table_descriptor_base: 0x20_4000,
        }
    );
    assert_eq!(header.to_bytes()[0], 0x45);
    let read = build_command(&SectorRequest { write: false, lba: 9, sector_count: 2, buffer: 0 });
    assert_eq!(command_header(&read, 0).to_bytes()[0], 0x05);
}
