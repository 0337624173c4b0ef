use lobster::fs::{
    classify, cluster_admitted, init, DataRequest, DirectoryWalk, EntryKind, FatBootSector, File,
    FileAttributes, FileDate, FileSystem, FileTime, FsError, Volume, WalkAction,
};

const RESERVED: usize = 32;
const FAT_SECTORS: usize = 8;
const FIRST_DATA: usize = RESERVED + 2 * FAT_SECTORS;

fn boot_sector(bytes_per_sector: u16, sectors_per_cluster: u8) -> Vec<u8> {
    let mut b = vec![0u8; 512];
    b[0..3].copy_from_slice(&[0xEB, 0x58, 0x90]);
    b[3..11].copy_from_slice(b"mkfs.fat");
    b[11..13].copy_from_slice(&bytes_per_sector.to_le_bytes());
    b[13] = sectors_per_cluster;
    b[14..16].copy_from_slice(&(RESERVED as u16).to_le_bytes());
    b[16] = 2;
    b[21] = 0xF8;
    b[32..36].copy_from_slice(&131072u32.to_le_bytes());
    b[36..40].copy_from_slice(&(FAT_SECTORS as u32).to_le_bytes());
    b[44..48].copy_from_slice(&2u32.to_le_bytes());
    b[48..50].copy_from_slice(&1u16.to_le_bytes());
    b[50..52].copy_from_slice(&6u16.to_le_bytes());
    b[64] = 0x80;
    b[66] = 0x29;
    b[67..71].copy_from_slice(&0xCAFE_F00Du32.to_le_bytes());
    b[71..82].copy_from_slice(b"LOBSTER    ");
    b[82..90].copy_from_slice(b"FAT32   ");
    b[510] = 0x55;
    b[511] = 0xAA;
    b
}

fn entry(name: &[u8; 11], attributes: u8, cluster: u32, size: u32) -> [u8; 32] {
    let mut e = [0u8; 32];
    e[..11].copy_from_slice(name);
    e[11] = attributes;
    e[13] = 100;
    e[14..16].copy_from_slice(&0x6B2Cu16.to_le_bytes());
    e[16..18].copy_from_slice(&0x5A21u16.to_le_bytes());
    e[20..22].copy_from_slice(&((cluster >> 16) as u16).to_le_bytes());
    e[26..28].copy_from_slice(&(cluster as u16).to_le_bytes());
    e[28..32].copy_from_slice(&size.to_le_bytes());
    e
}

fn put(image: &mut Vec<u8>, cluster: usize, entries: &[[u8; 32]]) {
    let at = (FIRST_DATA + cluster - 2) * 512;
    for (k, e) in entries.iter().enumerate() {
        image[at + 32 * k..at + 32 * k + 32].copy_from_slice(e);
    }
}

fn set_fat(image: &mut Vec<u8>, cluster: usize, next: u32) {
    let at = RESERVED * 512 + 4 * cluster;
    image[at..at + 4].copy_from_slice(&next.to_le_bytes());
}

fn bash_contents() -> Vec<u8> {
    (0..8192u32).map(|i| (i * 7 % 253) as u8).collect()
}

/// A volume with `/BIN/BASH`, `/BIN/EMPTY` and `/README.TXT`.
fn image() -> Vec<u8> {
    let mut image = vec![0u8; (FIRST_DATA + 64) * 512];
    image[..512].copy_from_slice(&boot_sector(512, 1));
    put(
        &mut image,
        2,
        &[
            entry(b"BIN        ", 0x10, 3, 0),
            entry(b"\xE5LD     TXT", 0x20, 30, 11),
            entry(b"README  TXT", 0x20, 20, 700),
        ],
    );
    put(
        &mut image,
        3,
        &[
            entry(b".          ", 0x10, 3, 0),
            entry(b"..         ", 0x10, 0, 0),
            entry(b"BASH       ", 0x20, 4, 8192),
            entry(b"EMPTY      ", 0x10, 25, 0),
        ],
    );
    let at = (FIRST_DATA + 4 - 2) * 512;
    image[at..at + 8192].copy_from_slice(&bash_contents());
    let at = (FIRST_DATA + 20 - 2) * 512;
    for b in image[at..at + 700].iter_mut() {
        *b = b'r';
    }
    for cluster in [2, 3, 25] {
        set_fat(&mut image, cluster, 0x0FFF_FFFF);
    }
    image
}

fn read(image: &[u8], first_sector: u64, sector_count: u32) -> Vec<u8> {
    let at = first_sector as usize * 512;
    image[at..at + sector_count as usize * 512].to_vec()
}

fn walk(image: &[u8]) -> (DirectoryWalk, Vec<u64>) {
    let mut walk = init(1, &image[..512]).unwrap();
    let mut reads = Vec::new();
    for _ in 0..100_000 {
        match walk.action() {
            WalkAction::Read { drive_num, first_sector, sector_count } => {
                assert_eq!(drive_num, 1);
                reads.push(first_sector);
                let data = read(image, first_sector, sector_count as u32);
                assert!(cluster_admitted(&data));
                walk.feed(data);
            }
            WalkAction::ReadFat { drive_num, sector } => {
                assert_eq!(drive_num, 1);
                walk.feed(read(image, sector, 1));
            }
            WalkAction::Step => walk.step(),
            WalkAction::Done | WalkAction::Failed(_) => return (walk, reads),
        }
    }
    panic!("the walk did not end");
}

fn names(node: &trees::Node<File>) -> Vec<String> {
    node.iter().map(|n| n.data().get_name()).collect()
}

#[test]
fn boot_sector_fields_and_layout() {
    let b = FatBootSector::from_bytes(&boot_sector(512, 8));
    assert_eq!(&b.oem_name, b"mkfs.fat");
    assert_eq!(b.bytes_per_sector, 512);
    assert_eq!(b.sectors_per_cluster, 8);
    assert_eq!(b.reserved_sector_count, 32);
    assert_eq!(b.table_count, 2);
    assert_eq!(b.table_size_16, 0);
    assert_eq!(b.total_sectors_32, 131072);
    assert_eq!(b.extended_section.table_size_32, 8);
    assert_eq!(b.extended_section.root_cluster, 2);
    assert_eq!(b.extended_section.drive_number, 0x80);
    assert_eq!(b.extended_section.volume_id, 0xCAFE_F00D);
    assert_eq!(&b.extended_section.volume_label, b"LOBSTER    ");
    assert_eq!(&b.extended_section.fat_type_label, b"FAT32   ");
    assert!(b.usable());
    assert_eq!(b.fat_size(), 8);
    assert_eq!(b.root_dir_sectors(), 0);
    assert_eq!(b.first_data_sector(), 48);
    assert_eq!(b.first_sector_of(2), 48);
    assert_eq!(b.first_sector_of(5), 48 + 3 * 8);
}

#[test]
fn layout_with_a_fixed_root_directory() {
    let mut bytes = boot_sector(512, 4);
    bytes[17..19].copy_from_slice(&513u16.to_le_bytes());
    bytes[22..24].copy_from_slice(&9u16.to_le_bytes());
    let b = FatBootSector::from_bytes(&bytes);
    assert_eq!(b.fat_size(), 9);
    assert_eq!(b.root_dir_sectors(), (513 * 32 + 511) / 512);
    assert_eq!(b.root_dir_sectors(), 33);
    assert_eq!(b.first_data_sector(), 32 + 2 * 9 + 33);
    assert_eq!(b.first_sector_of(10), 8 * 4 + 83);
}

#[test]
fn layout_at_the_limits_does_not_overflow() {
    let mut bytes = boot_sector(1, 255);
    bytes[14..16].copy_from_slice(&u16::MAX.to_le_bytes());
    bytes[16] = 255;
    bytes[17..19].copy_from_slice(&u16::MAX.to_le_bytes());
    bytes[36..40].copy_from_slice(&u32::MAX.to_le_bytes());
    let b = FatBootSector::from_bytes(&bytes);
    let first = 65535u64 + 255 * 0xFFFF_FFFF + 65535 * 32;
    assert_eq!(b.first_data_sector(), first);
    assert_eq!(b.first_sector_of(u32::MAX), (u32::MAX as u64 - 2) * 255 + first);
}

#[test]
fn directory_entry_fields() {
    let e = entry(b"BASH       ", 0x21, 0x0012_0004, 8192);
    let f = File::from_bytes(&e, 0);
    assert_eq!(&f.name, b"BASH       ");
    assert!(f.name_valid());
    assert_eq!(f.get_name(), "BASH       ");
    assert_eq!(f.get_data_addr(), 0x0012_0004);
    assert_eq!((f.cluster_h, f.cluster_l), (0x12, 4));
    assert_eq!(f.file_size, 8192);
    assert_eq!(f.creation_duration, 100);
    assert!(!f.is_directory());
    assert_eq!(f.attributes, FileAttributes(0x21));
    assert_eq!(f.attributes.read_only(), 1);
    assert_eq!(f.attributes.hidden(), 0);
    assert_eq!(f.attributes.system(), 0);
    assert_eq!(f.attributes.volume_id(), 0);
    assert_eq!(f.attributes.directory(), 0);
    assert_eq!(f.attributes.archive(), 1);
    assert_eq!(f.creation_time, FileTime(0x6B2C));
    assert_eq!(
        (f.creation_time.hours(), f.creation_time.minutes(), f.creation_time.seconds()),
        (13, 25, 12)
    );
    assert_eq!(f.creation_date, FileDate(0x5A21));
    assert_eq!((f.creation_date.year(), f.creation_date.month(), f.creation_date.day()), (45, 1, 1));
}

#[test]
fn bit_fields_round_trip() {
    assert_eq!(FileAttributes::from_bits(0x37).into_bits(), 0x37);
    assert_eq!(FileTime::from_bits(0xFFFF).into_bits(), 0xFFFF);
    assert_eq!(FileDate::from_bits(0x1234).into_bits(), 0x1234);
    let t = FileTime::from_bits(0xFFFF);
    assert_eq!((t.hours(), t.minutes(), t.seconds()), (31, 63, 31));
    let d = FileDate::from_bits(0xFFFF);
    assert_eq!((d.year(), d.month(), d.day()), (127, 15, 31));
    assert_eq!(FileAttributes::from_bits(0x10).directory(), 1);
    assert_eq!(FileAttributes::from_bits(0x02).hidden(), 1);
    assert_eq!(FileAttributes::from_bits(0x04).system(), 1);
    assert_eq!(FileAttributes::from_bits(0x08).volume_id(), 1);
}

#[test]
fn root_entry_is_named_slash() {
    assert!(File::root().name_valid());
    assert_eq!(File::root().get_name(), "/");
    assert_eq!(File::default(), File::root());
    assert_eq!(File::root().file_size, 0);
    assert_eq!(File::root().get_data_addr(), 0);
}

#[test]
fn name_that_is_not_utf8() {
    let f = File::from_bytes(&entry(b"BAD\xFF       ", 0x20, 4, 1), 0);
    assert!(!f.name_valid());
    let accented = File::from_bytes(&entry(b"CAF\xC3\xA9      ", 0x20, 4, 1), 0);
    assert!(accented.name_valid());
    assert_eq!(accented.get_name(), "CAF\u{e9}      ");
}

#[test]
fn entries_are_classified_in_order() {
    let mut data = Vec::new();
    for e in [
        entry(b"FILE    TXT", 0x20, 4, 1),
        entry(b"DIR        ", 0x10, 5, 0),
        entry(b".          ", 0x10, 5, 0),
        entry(b"..         ", 0x10, 0, 0),
        entry(b"\xE5ONE    TXT", 0x0F, 0, 0),
        entry(b"Al\0o\0n\0g\0 \0", 0x0F, 0, 0),
        entry(b"X\xFF         ", 0x20, 0, 0),
        entry(b"\0O LONGER  ", 0x0F, 0, 0),
        entry(b".  x       ", 0x20, 0, 0),
    ] {
        data.extend_from_slice(&e);
    }
    let kinds: Vec<_> = (0..9).map(|k| classify(&data, 32 * k)).collect();
    assert_eq!(
        kinds,
        vec![
            EntryKind::Plain,
            EntryKind::Directory,
            EntryKind::Dot,
            EntryKind::Dot,
            EntryKind::Deleted,
            EntryKind::LongName,
            EntryKind::BadName,
            EntryKind::End,
            EntryKind::Plain,
        ]
    );
}

#[test]
fn fat32_walk() {
    let image = image();
    let (walk, reads) = walk(&image);
    assert_eq!(walk.action(), WalkAction::Done);
    assert_eq!(reads, vec![48, 49, 48 + 23]);
    let fs: FileSystem = walk.into_file_system().unwrap();
    let root = fs.as_tree().root();
    assert_eq!(root.data().get_name(), "/");
    assert_eq!(names(root), vec!["BIN        ", "README  TXT"]);
    let bin = root.iter().find(|n| n.data().get_name() == "BIN        ").unwrap();
    assert_eq!(names(bin), vec!["BASH       ", "EMPTY      "]);
    let bash = bin.iter().find(|n| n.data().get_name() == "BASH       ").unwrap();
    assert_eq!(bash.data().file_size, 8192);
    assert!(bash.has_no_child());
    let empty = bin.iter().nth(1).unwrap();
    assert!(empty.data().is_directory());
    assert!(empty.has_no_child());
    assert_eq!(root.node_count(), 5);

    let volume = Volume { drive_num: 1, boot_sector: FatBootSector::from_bytes(&image[..512]) };
    let request = bash.data().data_request(&volume).unwrap();
    assert_eq!(request, DataRequest { drive_num: 1, first_sector: 50, sector_count: 16 });
    let sectors = read(&image, request.first_sector, request.sector_count);
    let data = bash.data().get_data(sectors).unwrap();
    assert_eq!(data.len(), 8192);
    assert_eq!(data, bash_contents());
}

#[test]
fn recorded_entry_is_the_first_32_bytes_of_the_cluster() {
    let image = image();
    let (walk, _) = walk(&image);
    let fs = walk.into_file_system().unwrap();
    let recorded = *fs.as_tree().root().front().unwrap().data();
    let cluster = read(&image, 48, 1);
    assert_eq!(recorded, File::from_bytes(&cluster[..32], 0));
    assert_eq!(&recorded.name[..], &cluster[..11]);
    assert_eq!(recorded.attributes.into_bits(), cluster[11]);
    assert_eq!(recorded.get_data_addr(), 3);
}

#[test]
fn file_data_is_cut_to_the_file_size() {
    let image = image();
    let volume = Volume { drive_num: 1, boot_sector: FatBootSector::from_bytes(&image[..512]) };
    let readme = File::from_bytes(&entry(b"README  TXT", 0x20, 20, 700), 0);
    let request = readme.data_request(&volume).unwrap();
    assert_eq!(request.sector_count, 2);
    assert_eq!(request.first_sector, 48 + 18);
    let data = readme.get_data(read(&image, request.first_sector, 2)).unwrap();
    assert_eq!(data, vec![b'r'; 700]);
    assert_eq!(readme.get_data(vec![0u8; 699]), None);
    assert_eq!(readme.get_data(vec![7u8; 700]), Some(vec![7u8; 700]));
}

#[test]
fn sector_counts_are_rounded_up() {
    let volume = Volume { drive_num: 0, boot_sector: FatBootSector::from_bytes(&boot_sector(512, 1)) };
    let count = |size: u32| {
        File::from_bytes(&entry(b"F          ", 0x20, 2, size), 0)
            .data_request(&volume)
            .unwrap()
            .sector_count
    };
    assert_eq!(count(0), 0);
    assert_eq!(count(1), 1);
    assert_eq!(count(512), 1);
    assert_eq!(count(513), 2);
    assert_eq!(count(8192), 16);
    assert_eq!(count(u32::MAX), 8_388_608);
}

#[test]
fn data_of_a_file_without_cluster_is_an_error() {
    let volume = Volume { drive_num: 0, boot_sector: FatBootSector::from_bytes(&boot_sector(512, 1)) };
    for cluster in [0, 1] {
        let f = File::from_bytes(&entry(b"F          ", 0x20, cluster, 10), 0);
        assert_eq!(f.data_request(&volume), Err(FsError::InvalidCluster));
    }
}

#[test]
fn walk_needs_a_usable_boot_sector() {
    assert_eq!(init(0, &[0u8; 89]).err(), Some(FsError::BootSector));
    assert_eq!(init(0, &boot_sector(0, 1)).err(), Some(FsError::BootSector));
    assert_eq!(init(0, &boot_sector(512, 0)).err(), Some(FsError::BootSector));
    assert!(init(0, &boot_sector(512, 1)[..90]).is_ok());
}

#[test]
fn clusters_with_long_file_names_are_not_admitted() {
    let mut image = image();
    assert!(cluster_admitted(&read(&image, 49, 1)));
    put(&mut image, 3, &[entry(b"Al\0o\0n\0g\0 \0", 0x0F, 0, 0)]);
    assert!(!cluster_admitted(&read(&image, 49, 1)));
    let mut later = Vec::new();
    later.extend_from_slice(&entry(b"FILE    TXT", 0x20, 4, 1));
    later.extend_from_slice(&entry(b"\xE5LD     TXT", 0x0F, 0, 0));
    later.extend_from_slice(&entry(b"DIR        ", 0x10, 5, 0));
    later.extend_from_slice(&entry(b"Al\0o\0n\0g\0 \0", 0x0F, 0, 0));
    assert!(!cluster_admitted(&later));
    assert!(cluster_admitted(&later[..96]));
    assert!(cluster_admitted(&later[..127]));
}

#[test]
fn clusters_with_names_that_are_not_utf8_are_not_admitted() {
    let mut cluster = Vec::new();
    cluster.extend_from_slice(&entry(b"\xC0\xAF         ", 0x20, 9, 0));
    assert!(!cluster_admitted(&cluster));
    assert!(cluster_admitted(&[]));
    assert!(cluster_admitted(&[0xFF; 31]));
}

#[test]
fn entries_behind_the_end_marker_do_not_count() {
    let mut cluster = Vec::new();
    cluster.extend_from_slice(&entry(b"FILE    TXT", 0x20, 4, 1));
    cluster.extend_from_slice(&[0u8; 32]);
    cluster.extend_from_slice(&entry(b"Al\0o\0n\0g\0 \0", 0x0F, 0, 0));
    assert!(cluster_admitted(&cluster));
}

#[test]
fn walk_fails_on_clusters_below_2() {
    let mut image = image();
    put(&mut image, 2, &[entry(b"BROKEN     ", 0x10, 1, 0)]);
    let (walk, _) = walk(&image);
    assert_eq!(walk.action(), WalkAction::Failed(FsError::InvalidCluster));
}

#[test]
fn walk_fails_on_a_short_read() {
    let mut walk = init(0, &boot_sector(512, 1)).unwrap();
    walk.feed(vec![0u8; 31]);
    assert_eq!(walk.action(), WalkAction::Failed(FsError::ShortRead));
}

fn full_root(image: &mut Vec<u8>) {
    let full: Vec<[u8; 32]> =
        (0..16).map(|k| entry(&[b'A' + k as u8; 11], 0x20, 40, 1)).collect();
    put(image, 2, &full);
}

#[test]
fn walk_follows_the_chain_of_clusters() {
    let mut image = image();
    full_root(&mut image);
    set_fat(&mut image, 2, 0xF000_0009);
    put(&mut image, 9, &[entry(b"LAST       ", 0x20, 41, 1), [0u8; 32]]);
    put(&mut image, 3, &[entry(b"WRONG      ", 0x20, 41, 1), [0u8; 32]]);
    let (walk, reads) = walk(&image);
    assert_eq!(walk.action(), WalkAction::Done);
    assert_eq!(reads, vec![48, 48 + 7]);
    let fs = walk.into_file_system().unwrap();
    assert_eq!(fs.as_tree().root().degree(), 17);
    assert_eq!(names(fs.as_tree().root())[16], "LAST       ");
}

#[test]
fn walk_asks_for_the_sector_of_the_table_that_holds_the_entry() {
    let mut image = image();
    full_root(&mut image);
    let mut walk = init(1, &image[..512]).unwrap();
    walk.parse_directory(read(&image, 48, 1));
    assert_eq!(walk.action(), WalkAction::ReadFat { drive_num: 1, sector: 32 });
    assert!(walk.stack[0].chain);
    walk.stack[0].cluster = 129;
    assert_eq!(walk.action(), WalkAction::ReadFat { drive_num: 1, sector: 33 });
    let boot = FatBootSector::from_bytes(&image[..512]);
    assert_eq!((boot.fat_sector_of(2), boot.fat_offset_of(2)), (32, 8));
    assert_eq!((boot.fat_sector_of(127), boot.fat_offset_of(127)), (32, 508));
    assert_eq!((boot.fat_sector_of(128), boot.fat_offset_of(128)), (33, 0));
    assert_eq!((boot.fat_sector_of(u32::MAX), boot.fat_offset_of(u32::MAX)), (32 + 33554431, 508));
}

#[test]
fn directory_closes_at_the_end_of_its_chain() {
    for mark in [0x0FFF_FFF8u32, 0x0FFF_FFFF, 0xFFFF_FFFF] {
        let mut image = image();
        full_root(&mut image);
        set_fat(&mut image, 2, mark);
        let (walk, reads) = walk(&image);
        assert_eq!(walk.action(), WalkAction::Done);
        assert_eq!(reads, vec![48]);
        assert_eq!(walk.into_file_system().unwrap().as_tree().root().degree(), 16);
    }
}

#[test]
fn chain_of_a_directory_below_the_root() {
    let mut image = image();
    let full: Vec<[u8; 32]> =
        (0..16).map(|k| entry(&[b'a' + k as u8; 11], 0x20, 40, 1)).collect();
    put(&mut image, 3, &full);
    set_fat(&mut image, 3, 30);
    put(&mut image, 30, &[entry(b"MORE       ", 0x20, 41, 1), [0u8; 32]]);
    let (walk, reads) = walk(&image);
    assert_eq!(walk.action(), WalkAction::Done);
    assert_eq!(reads, vec![48, 49, 48 + 28]);
    let fs = walk.into_file_system().unwrap();
    let root = fs.as_tree().root();
    assert_eq!(names(root), vec!["BIN        ", "README  TXT"]);
    assert_eq!(root.front().unwrap().degree(), 17);
    assert_eq!(names(root.front().unwrap())[16], "MORE       ");
}

#[test]
fn chain_that_names_no_cluster_fails_the_walk() {
    for next in [0u32, 1, 0x1000_0001] {
        let mut image = image();
        full_root(&mut image);
        set_fat(&mut image, 2, next);
        let (walk, _) = walk(&image);
        assert_eq!(walk.action(), WalkAction::Failed(FsError::InvalidCluster));
    }
}

#[test]
fn table_sector_that_is_too_short_fails_the_walk() {
    let mut image = image();
    full_root(&mut image);
    let mut walk = init(1, &image[..512]).unwrap();
    walk.parse_directory(read(&image, 48, 1));
    walk.feed(vec![0u8; 11]);
    assert_eq!(walk.action(), WalkAction::Failed(FsError::ShortRead));
    let mut other = init(1, &image[..512]).unwrap();
    other.parse_directory(read(&image, 48, 1));
    other.feed(vec![0xFFu8; 12]);
    assert_eq!(other.action(), WalkAction::Done);
}

#[test]
fn reads_of_file_data_come_in_transfers() {
    let request = DataRequest { drive_num: 0, first_sector: 100, sector_count: 20_000 };
    assert_eq!(request.next_read(0), Some((100, 8192)));
    assert_eq!(request.next_read(8192), Some((8292, 8192)));
    assert_eq!(request.next_read(16_384), Some((16_484, 3616)));
    assert_eq!(request.next_read(19_999), Some((20_099, 1)));
    assert_eq!(request.next_read(20_000), None);
    assert_eq!(request.next_read(u32::MAX), None);
    let empty = DataRequest { drive_num: 0, first_sector: 100, sector_count: 0 };
    assert_eq!(empty.next_read(0), None);
    let high = DataRequest { drive_num: 0, first_sector: u64::MAX, sector_count: 2 };
    assert_eq!(high.next_read(0), Some((u64::MAX, 2)));
    assert_eq!(high.next_read(1), None);
}

#[test]
fn walk_of_an_empty_root() {
    let mut image = vec![0u8; (FIRST_DATA + 4) * 512];
    image[..512].copy_from_slice(&boot_sector(512, 2));
    let mut walk = init(3, &image[..512]).unwrap();
    assert_eq!(
        walk.action(),
        WalkAction::Read { drive_num: 3, first_sector: 48, sector_count: 2 }
    );
    walk.step();
    assert_eq!(walk.stack.len(), 1);
    walk.feed(vec![0u8; 1024]);
    walk.feed(vec![1u8; 1024]);
    assert_eq!(walk.action(), WalkAction::Step);
    walk.step();
    assert_eq!(walk.action(), WalkAction::Done);
    walk.step();
    walk.feed(vec![1u8; 1024]);
    let fs = walk.into_file_system().unwrap();
    assert!(fs.as_tree().root().has_no_child());
}

#[test]
fn unfinished_walk_gives_no_file_system() {
    let walk = init(0, &boot_sector(512, 1)).unwrap();
    assert!(walk.into_file_system().is_none());
}

#[test]
fn directory_is_parsed_cluster_by_cluster() {
    let image = image();
    let mut walk = init(1, &image[..512]).unwrap();
    let mut reads = Vec::new();
    loop {
        match walk.action() {
            WalkAction::Read { first_sector, sector_count, .. } => {
                reads.push(first_sector);
                walk.parse_directory(read(&image, first_sector, sector_count as u32));
                assert!(walk.action() != WalkAction::Step);
            }
            WalkAction::ReadFat { sector, .. } => {
                walk.parse_directory(read(&image, sector, 1));
                assert!(walk.action() != WalkAction::Step);
            }
            WalkAction::Done => break,
            other => panic!("unexpected {:?}", other),
        }
    }
    assert_eq!(reads, vec![48, 49, 48 + 23]);
    let fs = walk.into_file_system().unwrap();
    assert_eq!(names(fs.as_tree().root()), vec!["BIN        ", "README  TXT"]);
    assert_eq!(fs.as_tree().root().node_count(), 5);
}

#[test]
fn parsing_stops_at_the_entry_that_opens_a_directory() {
    let image = image();
    let mut walk = init(1, &image[..512]).unwrap();
    walk.parse_directory(read(&image, 48, 1));
    assert_eq!(walk.stack.len(), 2);
    assert_eq!(walk.stack[0].at, 32);
    assert_eq!(walk.stack[1].cluster, 3);
    assert_eq!(
        walk.action(),
        WalkAction::Read { drive_num: 1, first_sector: 49, sector_count: 1 }
    );
    walk.parse_directory(vec![0u8; 5]);
    assert_eq!(walk.action(), WalkAction::Failed(FsError::ShortRead));
}

#[test]
fn entries_are_found_by_name() {
    let bin = File::from_bytes(&entry(b"BIN        ", 0x10, 3, 0), 0);
    assert!(bin.is_named("BIN        "));
    assert!(!bin.is_named("BIN"));
    assert!(!bin.is_named("BIN         "));
    assert!(!bin.is_named("bin        "));
    assert!(!bin.is_named("/"));
    assert!(File::root().is_named("/"));
    assert!(!File::root().is_named(""));
    assert!(!File::root().is_named("\0\0\0\0\0\0\0\0\0\0\0"));
    let accented = File::from_bytes(&entry(b"CAF\xC3\xA9      ", 0x20, 4, 1), 0);
    assert!(accented.is_named("CAF\u{e9}      "));
}
