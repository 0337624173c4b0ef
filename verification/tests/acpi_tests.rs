use lobster::acpi::{
    find_rsdp, get_rsdt, init, scan_rsdp, AcpiError, RSDPDescriptor, SDTHeader, RSDT,
    RSDP_REGION_SIZE,
};

fn rsdp_bytes(revision: u8, rsdt_address: u32) -> [u8; 20] {
    let mut b = [0u8; 20];
    b[..8].copy_from_slice(b"RSD PTR ");
    b[9..15].copy_from_slice(b"BOCHS ");
    b[15] = revision;
    b[16..20].copy_from_slice(&rsdt_address.to_le_bytes());
    let sum: u32 = b.iter().map(|x| *x as u32).sum();
    b[8] = ((256 - (sum % 256)) % 256) as u8;
    b
}

fn window_with(offset: usize, rsdp: &[u8; 20]) -> Vec<u8> {
    let mut region = vec![0u8; RSDP_REGION_SIZE + 20];
    region[offset..offset + 20].copy_from_slice(rsdp);
    region
}

fn sdt_header(signature: &[u8; 4], length: u32) -> [u8; 36] {
    let mut b = [0u8; 36];
    b[..4].copy_from_slice(signature);
    b[4..8].copy_from_slice(&length.to_le_bytes());
    b[8] = 1;
    b[10..16].copy_from_slice(b"OEMID ");
    b[16..24].copy_from_slice(b"TABLEID ");
    b[24..28].copy_from_slice(&7u32.to_le_bytes());
    b[28..32].copy_from_slice(&8u32.to_le_bytes());
    b[32..36].copy_from_slice(&9u32.to_le_bytes());
    b
}

#[test]
fn rsdp_scan_finds_planted_signature() {
    let region = window_with(0xF0, &rsdp_bytes(0, 0x7FE_1000));
    let (addr, rsdp) = find_rsdp(&region).unwrap();
    assert_eq!(addr, 0x800F0);
    assert_eq!(&rsdp.signature, b"RSD PTR ");
    assert_eq!(rsdp.revision, 0);
    assert_eq!(rsdp.rsdt_address, 0x7FE_1000);
    assert!(rsdp.verify_checksum());
    assert_eq!(scan_rsdp(&region), Some((addr, rsdp)));
    assert_eq!(init(&region, 0x1000_0000_0000), (rsdp, 0x1000_07FE_1000));
    assert_eq!(init(&region, 0), (rsdp, 0x7FE_1000));
}

#[test]
fn rsdp_scan_rejects_corrupt_checksum() {
    let mut region = window_with(0xF0, &rsdp_bytes(0, 0x7FE_1000));
    region[0xF0 + 8] = region[0xF0 + 8].wrapping_add(1);
    assert_eq!(find_rsdp(&region), None);
    assert_eq!(scan_rsdp(&region), None);
}

#[test]
fn rsdp_scan_takes_the_first_of_two() {
    let mut region = window_with(0x100, &rsdp_bytes(0, 0x1000));
    region[0x4000..0x4014].copy_from_slice(&rsdp_bytes(0, 0x2000));
    let (addr, rsdp) = find_rsdp(&region).unwrap();
    assert_eq!(addr, 0x80100);
    assert_eq!(rsdp.rsdt_address, 0x1000);
}

#[test]
fn rsdp_scan_looks_only_at_strides_of_16() {
    let region = window_with(0xF8, &rsdp_bytes(0, 0x1000));
    assert_eq!(find_rsdp(&region), None);
    assert_eq!(scan_rsdp(&region), None);
}

#[test]
fn rsdp_scan_passes_a_bad_checksum_and_goes_on() {
    let mut region = window_with(0x100, &rsdp_bytes(0, 0x1000));
    region[0x100 + 8] ^= 0x55;
    region[0x200..0x214].copy_from_slice(&rsdp_bytes(0, 0x2000));
    let (addr, rsdp) = find_rsdp(&region).unwrap();
    assert_eq!(addr, 0x80200);
    assert_eq!(rsdp.rsdt_address, 0x2000);
}

#[test]
fn scan_tells_the_revision_of_what_it_finds() {
    let region = window_with(0x10, &rsdp_bytes(2, 0x1000));
    let (addr, rsdp) = scan_rsdp(&region).unwrap();
    assert_eq!(addr, 0x80010);
    assert_eq!(rsdp.revision, 2);
}

#[test]
fn rsdp_in_empty_window_is_not_found() {
    assert_eq!(find_rsdp(&[]), None);
    assert_eq!(find_rsdp(&vec![0u8; RSDP_REGION_SIZE]), None);
    assert_eq!(scan_rsdp(&[0x52, 0x53, 0x44]), None);
}

#[test]
fn rsdp_at_the_last_stride_is_found() {
    let region = window_with(0x7FFF0, &rsdp_bytes(0, 0x3000));
    assert_eq!(find_rsdp(&region).unwrap().0, 0xFFFF0);
}

#[test]
fn rsdp_round_trips_through_bytes() {
    let bytes = rsdp_bytes(0, 0xDEAD_BEEF);
    let rsdp = RSDPDescriptor::from_bytes(&bytes, 0);
    assert_eq!(rsdp.to_bytes(), bytes);
    assert_eq!(rsdp.oem_id, *b"BOCHS ");
}

#[test]
fn rsdt_address_is_moved_by_the_offset() {
    let rsdp = RSDPDescriptor::from_bytes(&rsdp_bytes(0, 0x7FE_1000), 0);
    assert_eq!(get_rsdt(&rsdp, 0x1000_0000_0000), Some(0x1000_07FE_1000));
    assert_eq!(get_rsdt(&rsdp, u64::MAX), None);
}

#[test]
fn sdt_header_fields() {
    let h = SDTHeader::from_bytes(&sdt_header(b"MCFG", 60), 0);
    assert!(h.signature_valid());
    assert_eq!(h.get_signature_str(), "MCFG");
    assert_eq!(h.get_signature_str().len(), 4);
    assert_eq!(h.get_length(), 60);
    assert_eq!(h.revision, 1);
    assert_eq!(&h.oem_id, b"OEMID ");
    assert_eq!(&h.oem_table_id, b"TABLEID ");
    assert_eq!((h.oem_revision, h.creator_id, h.creator_revision), (7, 8, 9));
    assert!(h.has_signature(b"MCFG"));
    assert!(!h.has_signature(b"APIC"));
}

#[test]
fn sdt_signature_that_is_not_utf8() {
    let h = SDTHeader::from_bytes(&sdt_header(&[0xFF, 0xFE, 0x41, 0x42], 36), 0);
    assert!(!h.signature_valid());
    assert!(SDTHeader::from_bytes(&sdt_header(b"APIC", 36), 0).signature_valid());
}

#[test]
fn rsdt_lists_its_tables() {
    let mut table = sdt_header(b"RSDT", 36 + 12).to_vec();
    for p in [0x1000u32, 0x2000, 0xFFFF_F000] {
        table.extend_from_slice(&p.to_le_bytes());
    }
    let mut rsdt = RSDT::from_header(&table, 0x8000_0000).unwrap();
    assert_eq!(rsdt.addresses, vec![0x8000_1000, 0x8000_2000, 0x1_7FFF_F000]);
    assert_eq!(rsdt.get_tables().len(), 0);
    assert_eq!(rsdt.next_table(), Some(0x8000_1000));
    assert!(rsdt.add_table(&sdt_header(b"FACP", 100)));
    assert_eq!(rsdt.next_table(), Some(0x8000_2000));
    assert!(!rsdt.add_table(&[0u8; 10]));
    assert!(rsdt.add_table(&sdt_header(b"APIC", 100)));
    assert!(rsdt.add_table(&sdt_header(b"MCFG", 60)));
    assert_eq!(rsdt.next_table(), None);
    assert!(!rsdt.add_table(&sdt_header(b"HPET", 60)));
    let names: Vec<_> = rsdt.get_tables().iter().map(|t| t.get_signature_str()).collect();
    assert_eq!(names, ["FACP", "APIC", "MCFG"]);
}

#[test]
fn rsdt_that_is_too_short() {
    assert_eq!(RSDT::from_header(&[0u8; 35], 0).err(), Some(AcpiError::TableTooShort));
    let short = sdt_header(b"RSDT", 20);
    assert_eq!(RSDT::from_header(&short, 0).err(), Some(AcpiError::TableTooShort));
    let long = sdt_header(b"RSDT", 48);
    assert_eq!(RSDT::from_header(&long, 0).err(), Some(AcpiError::TableTooShort));
    let mut table = sdt_header(b"RSDT", 40).to_vec();
    table.extend_from_slice(&0x10u32.to_le_bytes());
    assert_eq!(RSDT::from_header(&table, u64::MAX).err(), Some(AcpiError::AddressOverflow));
}

#[test]
fn rsdt_ignores_a_ragged_end() {
    let mut table = sdt_header(b"RSDT", 36 + 7).to_vec();
    table.extend_from_slice(&[0x00, 0x10, 0, 0, 9, 9, 9]);
    let rsdt = RSDT::from_header(&table, 0).unwrap();
    assert_eq!(rsdt.addresses, vec![0x1000]);
}
