use lobster::bytes::{read_array, read_u16, read_u32, read_u64, u16_to_le, u32_to_le, u64_to_le};
use lobster::QemuExitCode;

#[test]
fn little_endian_reads() {
    let b = [0x34u8, 0x12, 0x78, 0x56, 0xBC, 0x9A, 0xF0, 0xDE, 0xFF];
    assert_eq!(read_u16(&b, 0), 0x1234);
    assert_eq!(read_u16(&b, 1), 0x7812);
    assert_eq!(read_u32(&b, 0), 0x5678_1234);
    assert_eq!(read_u64(&b, 0), 0xDEF0_9ABC_5678_1234);
    assert_eq!(read_u64(&b, 1), 0xFFDE_F09A_BC56_7812);
}

#[test]
fn little_endian_writes() {
    assert_eq!(u16_to_le(0x1234), [0x34, 0x12]);
    assert_eq!(u32_to_le(0x5678_1234), [0x34, 0x12, 0x78, 0x56]);
    assert_eq!(
        u64_to_le(0xDEF0_9ABC_5678_1234),
        [0x34, 0x12, 0x78, 0x56, 0xBC, 0x9A, 0xF0, 0xDE]
    );
    assert_eq!(u64_to_le(u64::MAX), [0xFF; 8]);
    assert_eq!(u16_to_le(0), [0, 0]);
}

#[test]
fn written_values_read_back() {
    for v in [0u64, 1, 0xFF, 0x100, 0x1234_5678_9ABC_DEF0, u64::MAX] {
        assert_eq!(read_u64(&u64_to_le(v), 0), v);
        assert_eq!(read_u32(&u32_to_le(v as u32), 0), v as u32);
        assert_eq!(read_u16(&u16_to_le(v as u16), 0), v as u16);
    }
}

#[test]
fn arrays_are_copied_from_their_offset() {
    let b = [1u8, 2, 3, 4, 5, 6];
    let a: [u8; 3] = read_array(&b, 2);
    assert_eq!(a, [3, 4, 5]);
    let whole: [u8; 6] = read_array(&b, 0);
    assert_eq!(whole, b);
}

#[test]
fn exit_codes() {
    assert_eq!(QemuExitCode::Success.code(), 0x10);
    assert_eq!(QemuExitCode::Failed.code(), 0x11);
}
