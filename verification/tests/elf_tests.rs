use lobster::elf::{
    do_stuff, page_addresses, page_start, program_headers, ElfHeader, ElfLoadError,
    ElfVerifyError, ProgramHeader, ProgramHeaderType,
};

fn elf_header(entry: u64, phoff: u64, phnum: u16) -> Vec<u8> {
    let mut b = vec![0u8; 64];
    b[0..4].copy_from_slice(&[0x7F, 0x45, 0x4C, 0x46]);
    b[4] = 2;
    b[5] = 1;
    b[6] = 1;
    b[16..18].copy_from_slice(&2u16.to_le_bytes());
    b[18..20].copy_from_slice(&0x3Eu16.to_le_bytes());
    b[20..24].copy_from_slice(&1u32.to_le_bytes());
    b[24..32].copy_from_slice(&entry.to_le_bytes());
    b[32..40].copy_from_slice(&phoff.to_le_bytes());
    b[52..54].copy_from_slice(&64u16.to_le_bytes());
    b[54..56].copy_from_slice(&56u16.to_le_bytes());
    b[56..58].copy_from_slice(&phnum.to_le_bytes());
    b
}

fn program_header(kind: u32, offset: u64, vaddr: u64, filesz: u64, memsz: u64) -> Vec<u8> {
    let mut b = vec![0u8; 56];
    b[0..4].copy_from_slice(&kind.to_le_bytes());
    b[4..8].copy_from_slice(&5u32.to_le_bytes());
    b[8..16].copy_from_slice(&offset.to_le_bytes());
    b[16..24].copy_from_slice(&vaddr.to_le_bytes());
    b[24..32].copy_from_slice(&vaddr.to_le_bytes());
    b[32..40].copy_from_slice(&filesz.to_le_bytes());
    b[40..48].copy_from_slice(&memsz.to_le_bytes());
    b[48..56].copy_from_slice(&0x1000u64.to_le_bytes());
    b
}

/// A file with the given segments; its bytes from 0x200 on count up from 1.
fn file(segments: &[(u32, u64, u64, u64, u64)], len: usize) -> Vec<u8> {
    let mut f = elf_header(0x40_1000, 64, segments.len() as u16);
    for (kind, offset, vaddr, filesz, memsz) in segments {
        f.extend_from_slice(&program_header(*kind, *offset, *vaddr, *filesz, *memsz));
    }
    assert!(f.len() <= 0x200);
    f.resize(len, 0);
    for (i, b) in f[0x200..].iter_mut().enumerate() {
        *b = (i % 255 + 1) as u8;
    }
    f
}

#[test]
fn header_is_read_field_by_field() {
    let h = ElfHeader::from_slice(&elf_header(0x40_1000, 64, 3)).unwrap();
    assert_eq!(h.magic_num, [0x7F, 0x45, 0x4C, 0x46]);
    assert_eq!((h.bits, h.endianness, h.elf_header_version, h.os_abi), (2, 1, 1, 0));
    assert_eq!((h.elf_type, h.instruction_set, h.elf_version), (2, 0x3E, 1));
    assert_eq!(h.program_entry, 0x40_1000);
    assert_eq!(h.program_header_table, 64);
    assert_eq!(h.section_header_table, 0);
    assert_eq!((h.header_size, h.program_entry_size, h.program_entry_count), (64, 56, 3));
}

#[test]
fn header_errors_come_in_order() {
    let good = elf_header(0, 64, 0);
    assert_eq!(ElfHeader::from_slice(&good[..63]).err(), Some(ElfVerifyError::BadSliceSize(63)));
    let mut longer = good.clone();
    longer.push(0);
    assert_eq!(ElfHeader::from_slice(&longer).err(), Some(ElfVerifyError::BadSliceSize(65)));
    let mut all_wrong = good.clone();
    all_wrong[3] = 0x47;
    all_wrong[4] = 1;
    all_wrong[5] = 2;
    all_wrong[18] = 0x28;
    assert_eq!(ElfHeader::from_slice(&all_wrong).err(), Some(ElfVerifyError::BadMagicNum));
    all_wrong[3] = 0x46;
    assert_eq!(ElfHeader::from_slice(&all_wrong).err(), Some(ElfVerifyError::Elf32Bit));
    all_wrong[4] = 2;
    assert_eq!(ElfHeader::from_slice(&all_wrong).err(), Some(ElfVerifyError::BadEndianness));
    all_wrong[5] = 1;
    assert_eq!(ElfHeader::from_slice(&all_wrong).err(), Some(ElfVerifyError::BadArch));
    all_wrong[18] = 0x3E;
    assert!(ElfHeader::from_slice(&all_wrong).is_ok());
    let mut high = good.clone();
    high[19] = 1;
    assert_eq!(ElfHeader::from_slice(&high).err(), Some(ElfVerifyError::BadArch));
    for k in 0..4 {
        let mut bad = good.clone();
        bad[k] ^= 1;
        assert_eq!(ElfHeader::from_slice(&bad).err(), Some(ElfVerifyError::BadMagicNum));
    }
}

#[test]
fn header_error_messages() {
    assert_eq!(ElfVerifyError::BadSliceSize(3).message(), "incorrect slice size provided");
    assert_eq!(ElfVerifyError::BadMagicNum.message(), "incorrect ELF magic num");
    assert_eq!(ElfVerifyError::Elf32Bit.message(), "only 64-bit elf is supported");
    assert_eq!(ElfVerifyError::BadEndianness.message(), "ELF is not little endian");
    assert_eq!(ElfVerifyError::BadArch.message(), "ELF is not x64");
}

#[test]
fn program_header_types() {
    let all = [
        (ProgramHeaderType::Null, 0),
        (ProgramHeaderType::Load, 1),
        (ProgramHeaderType::Dynamic, 2),
        (ProgramHeaderType::Interp, 3),
        (ProgramHeaderType::Note, 4),
        (ProgramHeaderType::SHLib, 5),
        (ProgramHeaderType::PHDR, 6),
        (ProgramHeaderType::LoProc, 0x70000000),
        (ProgramHeaderType::HiProc, 0x7FFFFFFF),
    ];
    for (kind, value) in all {
        assert_eq!(kind.value(), value);
        assert_eq!(ProgramHeaderType::from_value(value), Some(kind));
    }
    assert_eq!(ProgramHeaderType::from_value(7), None);
    assert_eq!(ProgramHeaderType::from_value(0x6474_E551), None);
}

#[test]
fn program_headers_are_read_from_the_table() {
    let f = file(&[(1, 0x200, 0x40_0000, 0x10, 0x20), (0x6474_E551, 0, 0, 0, 0)], 0x300);
    let header = ElfHeader::from_slice(&f[..64]).unwrap();
    let headers = program_headers(&f, &header).unwrap();
    assert_eq!(
        headers,
        vec![
            ProgramHeader {
                header_type: 1,
                flags: 5,
                offset: 0x200,
                virt_addr: 0x40_0000,
                file_size: 0x10,
                mem_size: 0x20,
                align: 0x1000
            },
            ProgramHeader {
                header_type: 0x6474_E551,
                flags: 5,
                offset: 0,
                virt_addr: 0,
                file_size: 0,
                mem_size: 0,
                align: 0x1000
            },
        ]
    );
    assert!(headers[0].is_load());
    assert_eq!(headers[0].get_type(), Some(ProgramHeaderType::Load));
    assert!(!headers[1].is_load());
    assert_eq!(headers[1].get_type(), None);
    assert_eq!(ProgramHeader::from_slice(&f, 64), headers[0]);
}

#[test]
fn page_starts() {
    assert_eq!(page_start(0), 0);
    assert_eq!(page_start(0xFFF), 0);
    assert_eq!(page_start(0x1000), 0x1000);
    assert_eq!(page_start(0x40_1234), 0x40_1000);
    assert_eq!(page_start(u64::MAX), 0xFFFF_FFFF_FFFF_F000);
}

#[test]
fn segment_is_copied_to_its_offset_in_the_page_and_the_rest_is_zero() {
    let f = file(&[(1, 0x200, 0x40_0100, 0x30, 0x1000)], 0x400);
    let (regions, entry) = do_stuff(&f).unwrap();
    assert_eq!(entry, 0x40_1000);
    assert_eq!(page_addresses(&regions), vec![0x40_0000, 0x40_1000]);
    let first = regions[&0x40_0000];
    assert_eq!(&first[..0x100], &[0u8; 0x100]);
    assert_eq!(&first[0x100..0x130], &f[0x200..0x230]);
    assert_eq!(first[0x100], 1);
    assert!(first[0x130..].iter().all(|b| *b == 0));
    assert_eq!(regions[&0x40_1000], [0u8; 4096]);
}

#[test]
fn segment_over_several_pages() {
    let f = file(&[(1, 0x200, 0x40_0F00, 0x2200, 0x2200)], 0x2400);
    let (regions, _) = do_stuff(&f).unwrap();
    assert_eq!(page_addresses(&regions), vec![0x40_0000, 0x40_1000, 0x40_2000, 0x40_3000]);
    let mut memory = Vec::new();
    for page in page_addresses(&regions) {
        memory.extend_from_slice(&regions[&page]);
    }
    assert!(memory[..0xF00].iter().all(|b| *b == 0));
    assert_eq!(&memory[0xF00..0xF00 + 0x2200], &f[0x200..0x2400]);
    assert!(memory[0xF00 + 0x2200..].iter().all(|b| *b == 0));
}

#[test]
fn later_segment_is_on_top_and_bss_does_not_clear() {
    let f = file(
        &[
            (1, 0x200, 0x40_0000, 0x100, 0x100),
            (1, 0x280, 0x40_0080, 0x40, 0x2000),
            (1, 0x300, 0x40_00F0, 0x0, 0x10),
        ],
        0x400,
    );
    let (regions, _) = do_stuff(&f).unwrap();
    assert_eq!(page_addresses(&regions), vec![0x40_0000, 0x40_1000, 0x40_2000]);
    let page = regions[&0x40_0000];
    assert_eq!(&page[..0x80], &f[0x200..0x280]);
    assert_eq!(&page[0x80..0xC0], &f[0x280..0x2C0]);
    assert_eq!(&page[0xC0..0x100], &f[0x2C0..0x300]);
    assert!(page[0x100..].iter().all(|b| *b == 0));
}

#[test]
fn segments_that_are_not_loaded_leave_no_pages() {
    let f = file(&[(2, 0x200, 0x40_0000, 0x100, 0x100), (1, 0x200, 0x50_0000, 0, 0)], 0x400);
    let (regions, entry) = do_stuff(&f).unwrap();
    assert!(regions.is_empty());
    assert_eq!(entry, 0x40_1000);
    let (regions, _) = do_stuff(&elf_header(7, 0, 0)).unwrap();
    assert!(regions.is_empty());
}

#[test]
fn segment_that_ends_at_a_page_boundary() {
    let f = file(&[(1, 0x200, 0x40_0800, 0x800, 0x800)], 0xA00);
    let (regions, _) = do_stuff(&f).unwrap();
    assert_eq!(page_addresses(&regions), vec![0x40_0000]);
    assert_eq!(&regions[&0x40_0000][0x800..], &f[0x200..0xA00]);
}

#[test]
fn load_errors() {
    assert_eq!(
        do_stuff(&[0x7F, 0x45]).err(),
        Some(ElfLoadError::Header(ElfVerifyError::BadSliceSize(2)))
    );
    let mut bad_magic = file(&[], 0x200);
    bad_magic[0] = 0;
    assert_eq!(do_stuff(&bad_magic).err(), Some(ElfLoadError::Header(ElfVerifyError::BadMagicNum)));
    let mut wrong_machine = file(&[], 0x200);
    wrong_machine[18] = 0xB7;
    assert_eq!(do_stuff(&wrong_machine).err(), Some(ElfLoadError::Header(ElfVerifyError::BadArch)));
    assert_eq!(do_stuff(&elf_header(0, 64, 1)).err(), Some(ElfLoadError::ProgramHeaderTable));
    assert_eq!(do_stuff(&elf_header(0, u64::MAX, 1)).err(), Some(ElfLoadError::ProgramHeaderTable));
    assert_eq!(do_stuff(&elf_header(0, 9, 0xFFFF)).err(), Some(ElfLoadError::ProgramHeaderTable));
}

#[test]
fn segment_errors_name_the_first_bad_segment() {
    let leaves_file = file(&[(1, 0x200, 0x40_0000, 8, 8), (1, 0x3F9, 0x50_0000, 8, 8)], 0x400);
    assert_eq!(do_stuff(&leaves_file).err(), Some(ElfLoadError::Segment(1)));
    let longer_in_file = file(&[(1, 0x200, 0x40_0000, 9, 8), (1, 0x3F9, 0x50_0000, 8, 8)], 0x400);
    assert_eq!(do_stuff(&longer_in_file).err(), Some(ElfLoadError::Segment(0)));
    let too_high = file(&[(4, u64::MAX, 0, u64::MAX, 0), (1, 0x200, u64::MAX - 0x1000, 1, 2)], 0x400);
    assert_eq!(do_stuff(&too_high).err(), Some(ElfLoadError::Segment(1)));
    let offset_overflow = file(&[(1, u64::MAX, 0x40_0000, 2, 2)], 0x400);
    assert_eq!(do_stuff(&offset_overflow).err(), Some(ElfLoadError::Segment(0)));
    let at_the_end = file(&[(1, 0x3F8, 0x40_0000, 8, 8)], 0x400);
    assert!(do_stuff(&at_the_end).is_ok());
}
