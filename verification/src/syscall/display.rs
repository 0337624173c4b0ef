//! The system call that writes text to the screen.
use vstd::prelude::*;
use vstd::utf8::valid_utf8;
use crate::bytes::utf8_to_string;
use crate::display::vga_text::Writer;

verus! {

/// Writes the text to the screen, where its bytes are valid UTF-8.
///
/// Returns 0 after writing, and -1, with the screen as it was, for bytes that are
/// not valid UTF-8.
pub fn print_vga_text(writer: &mut Writer, text: &[u8]) -> (r: i64)
    requires
        old(writer).wf(),
    ensures
        final(writer).wf(),
        valid_utf8(text@) ==> r == 0 && final(writer).model() == old(writer).model().spec_write_bytes(
            text@,
        ),
        !valid_utf8(text@) ==> r == -1 && final(writer).model() == old(writer).model(),
{
    match utf8_to_string(text) {
        Some(string) => {
            writer.write_string(string.as_str());
            0
        },
        None => -1,
    }
}

} // verus!
