use lobster::display::vga_text::{
    Color, ColorCode, ScreenChar, Writer, BUFFER_CELLS, BUFFER_HEIGHT, BUFFER_WIDTH,
};
use lobster::syscall::display::print_vga_text;
use lobster::syscall::{
    default_syscall, delete_syscall_stack, init, setup_syscall_stack, star_value, syscall_handler,
    MsrWrite, Syscall,
};
use lobster::gdt::Selectors;

fn blank() -> ScreenChar {
    ScreenChar { char: 0, color: ColorCode(0) }
}

fn writer() -> Writer {
    Writer::new(vec![blank(); BUFFER_CELLS])
}

fn row(w: &Writer, row: usize) -> String {
    w.buffer[row * BUFFER_WIDTH..(row + 1) * BUFFER_WIDTH]
        .iter()
        .map(|c| if c.get_char() == 0 { '.' } else { c.get_char() as char })
        .collect::<String>()
        .trim_end_matches(|c| c == '.' || c == ' ')
        .to_string()
}

#[test]
fn color_codes() {
    assert_eq!(ColorCode::new(Color::White, Color::Black, false), ColorCode(0x0F));
    assert_eq!(ColorCode::new(Color::Yellow, Color::Blue, false), ColorCode(0x1E));
    assert_eq!(ColorCode::new(Color::Black, Color::LightGray, true), ColorCode(0xF0));
    assert_eq!(ColorCode::new(Color::Green, Color::Red, true), ColorCode(0xC2));
    assert_eq!(ColorCode::new(Color::Black, Color::DarkGray, false), ColorCode(0x80));
    assert_eq!(Color::Black.value(), 0);
    assert_eq!(Color::Pink.value(), 13);
    assert_eq!(Color::White.value(), 15);
}

#[test]
fn screen_char_getters() {
    let c = ScreenChar { char: b'x', color: ColorCode(0x1E) };
    assert_eq!(c.get_char(), b'x');
    assert_eq!(c.get_color(), ColorCode(0x1E));
}

#[test]
fn writer_starts_at_the_top_left_in_white_on_black() {
    let w = writer();
    assert_eq!((w.row, w.col), (0, 0));
    assert_eq!(w.default_color, ColorCode(0x0F));
    assert_eq!(w.buffer, vec![blank(); 2000]);
}

#[test]
fn syscall_echo() {
    let mut w = writer();
    w.set_color(ColorCode::new(Color::LightGreen, Color::Blue, false));
    let call = syscall_handler(0, 0xDEAD_0000, 2, 0, 0);
    assert_eq!(call, Syscall::PrintVgaText { text_addr: 0xDEAD_0000, length: 2 });
    let rax = print_vga_text(&mut w, b"hi");
    assert_eq!(rax, 0);
    assert_eq!(w.buffer[0], ScreenChar { char: b'h', color: ColorCode(0x1A) });
    assert_eq!(w.buffer[1], ScreenChar { char: b'i', color: ColorCode(0x1A) });
    assert_eq!(w.buffer[2], blank());
    assert_eq!((w.row, w.col), (0, 2));
}

#[test]
fn print_rejects_invalid_utf8() {
    let mut w = writer();
    assert_eq!(print_vga_text(&mut w, &[b'o', b'k', 0xFF]), -1);
    assert_eq!(print_vga_text(&mut w, &[0xC3]), -1);
    assert_eq!(print_vga_text(&mut w, &[0xED, 0xA0, 0x80]), -1);
    assert_eq!(w.buffer, vec![blank(); 2000]);
    assert_eq!((w.row, w.col), (0, 0));
    assert_eq!(print_vga_text(&mut w, b""), 0);
    assert_eq!(print_vga_text(&mut w, "\u{e9}".as_bytes()), 0);
    assert_eq!(row(&w, 0), "??");
}

#[test]
fn syscalls_by_number() {
    assert_eq!(syscall_handler(1, 3, 9, 9, 9), Syscall::Exit { exit_code: 3 });
    assert_eq!(syscall_handler(2, 3, 9, 9, 9), Syscall::Unknown { syscall_id: 2 });
    assert_eq!(syscall_handler(u64::MAX, 0, 0, 0, 0), Syscall::Unknown { syscall_id: u64::MAX });
    assert_eq!(default_syscall(2), 0);
    assert_eq!(default_syscall(u64::MAX), 0);
}

#[test]
fn syscall_registers() {
    assert_eq!(
        init(0x500, 0xFFFF_8000_0010_0000, &Selectors::layout()),
        Some([
            MsrWrite { register: 0xC000_0080, value: 0x501 },
            MsrWrite { register: 0xC000_0084, value: 0x200 },
            MsrWrite { register: 0xC000_0082, value: 0xFFFF_8000_0010_0000 },
            MsrWrite { register: 0xC000_0081, value: 0x0023_0008_0000_0000 },
        ])
    );
    assert_eq!(init(0x501, 0, &Selectors::layout()).unwrap()[0].value, 0x501);
}

#[test]
fn selector_register_follows_the_descriptor_table() {
    let layout = Selectors::layout();
    assert_eq!(
        layout,
        Selectors {
            code_selector: 0x08,
            data_selector: 0x10,
            tss_selector: 0x18,
            user_data_selector: 0x2B,
            user_code_selector: 0x33,
        }
    );
    assert_eq!(star_value(&layout), Some(0x0023_0008_0000_0000));
    let moved = Selectors {
        code_selector: 0x10,
        data_selector: 0x18,
        user_data_selector: 0x43,
        user_code_selector: 0x4B,
        ..layout
    };
    assert_eq!(star_value(&moved), Some(0x003B_0010_0000_0000));
    for wrong in [
        Selectors { data_selector: 0x18, ..layout },
        Selectors { user_code_selector: 0x3B, ..layout },
        Selectors { user_data_selector: 0x33, user_code_selector: 0x2B, ..layout },
        Selectors { user_data_selector: 3, user_code_selector: 11, ..layout },
        Selectors { code_selector: 0xFFF8, data_selector: 0, ..layout },
    ] {
        assert_eq!(star_value(&wrong), None);
        assert_eq!(init(0, 0, &wrong), None);
    }
}

#[test]
fn syscall_stacks() {
    assert_eq!(setup_syscall_stack(0x4444_4444_0000), Some(0x4444_4444_1000));
    assert_eq!(setup_syscall_stack(u64::MAX - 0xFFF), None);
    assert_eq!(setup_syscall_stack(u64::MAX - 0x1000), Some(u64::MAX));
    assert_eq!(delete_syscall_stack(0x4444_4444_1000), Some(0x4444_4444_0000));
    assert_eq!(delete_syscall_stack(0xFFF), None);
    assert_eq!(delete_syscall_stack(0x1000), Some(0));
}

#[test]
fn strings_wrap_and_break() {
    let mut w = writer();
    w.write_string("testing\ntesting");
    assert_eq!(row(&w, 0), "testing");
    assert_eq!(row(&w, 1), "testing");
    assert_eq!((w.row, w.col), (1, 7));
    w.write_string(&"x".repeat(73));
    assert_eq!((w.row, w.col), (2, 0));
    assert_eq!(row(&w, 1), format!("testing{}", "x".repeat(73)));
    w.write_byte(b'y');
    assert_eq!(row(&w, 2), "y");
    assert_eq!((w.row, w.col), (2, 1));
}

#[test]
fn bytes_that_cannot_be_shown_become_question_marks() {
    let mut w = writer();
    w.write_string("\x00\x12\x7F");
    assert_eq!(row(&w, 0), "???");
    w.write_string(" ~\t\u{fc}");
    assert_eq!(row(&w, 0), "??? ~???");
    w.write_bytes(&[0x1F, 0x20, 0x7E, 0x7F, 0x80, 0xFF]);
    assert_eq!(row(&w, 0), "??? ~???? ~???");
    w.write_byte(0x00);
    assert_eq!(w.buffer[14].get_char(), 0);
}

#[test]
fn screen_scrolls_from_the_last_row() {
    let mut w = writer();
    for i in 0..24 {
        w.write_string(&format!("line {}\n", i));
    }
    assert_eq!((w.row, w.col), (24, 0));
    assert_eq!(row(&w, 0), "line 0");
    w.write_string("line 24");
    assert_eq!(row(&w, 24), "line 24");
    w.write_byte(b'\n');
    assert_eq!((w.row, w.col), (24, 0));
    assert_eq!(row(&w, 0), "line 1");
    assert_eq!(row(&w, 23), "line 24");
    assert_eq!(
        &w.buffer[24 * 80..],
        &vec![ScreenChar { char: b' ', color: ColorCode(0x0F) }; 80][..]
    );
    for _ in 0..150 {
        w.write_string("testing\n");
    }
    assert_eq!(row(&w, 0), "testing");
    assert_eq!(row(&w, 23), "testing");
    assert_eq!((w.row, w.col), (24, 0));
}

#[test]
fn last_column_of_the_last_row_scrolls() {
    let mut w = writer();
    w.row = BUFFER_HEIGHT - 1;
    w.col = BUFFER_WIDTH - 1;
    w.buffer[0] = ScreenChar { char: b'a', color: ColorCode(1) };
    w.buffer[80] = ScreenChar { char: b'b', color: ColorCode(2) };
    w.write_byte(b'z');
    assert_eq!((w.row, w.col), (24, 0));
    assert_eq!(w.buffer[0], ScreenChar { char: b'b', color: ColorCode(2) });
    assert_eq!(w.buffer[23 * 80 + 79], ScreenChar { char: b'z', color: ColorCode(0x0F) });
    assert_eq!(w.buffer[24 * 80 + 79], ScreenChar { char: b' ', color: ColorCode(0x0F) });
}

#[test]
fn rows_and_screen_are_cleared_in_the_current_color() {
    let mut w = writer();
    w.write_string("one\ntwo\nthree");
    w.set_color(ColorCode(0x4E));
    w.clear_row(1);
    assert_eq!(row(&w, 0), "one");
    assert_eq!(
        &w.buffer[80..160],
        &vec![ScreenChar { char: b' ', color: ColorCode(0x4E) }; 80][..]
    );
    assert_eq!(row(&w, 2), "three");
    assert_eq!((w.row, w.col), (2, 5));
    w.clear_screen();
    assert_eq!(w.buffer, vec![ScreenChar { char: b' ', color: ColorCode(0x4E) }; 2000]);
    assert_eq!((w.row, w.col), (2, 5));
    w.write_byte(b'!');
    assert_eq!(w.buffer[2 * 80 + 5], ScreenChar { char: b'!', color: ColorCode(0x4E) });
}

#[test]
fn test_println_simple() {
    let mut w = writer();
    w.write_string("testing\ntesting\n");
    assert_eq!(row(&w, 0), "testing");
    assert_eq!(row(&w, 1), "testing");
    assert_eq!((w.row, w.col), (2, 0));
}

#[test]
fn test_println_many() {
    let mut w = writer();
    for _ in 0..150 {
        w.write_string("testing\n");
    }
    for r in 0..24 {
        assert_eq!(row(&w, r), "testing");
    }
    assert_eq!(row(&w, 24), "");
    assert_eq!((w.row, w.col), (24, 0));
}

#[test]
fn test_println_non_ascii() {
    let mut w = writer();
    w.write_string("\x00\x12\x7F\n");
    assert_eq!(row(&w, 0), "???");
    assert_eq!((w.row, w.col), (1, 0));
}
