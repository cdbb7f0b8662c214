//! The panic screen: a readable message instead of a silent hang or a
//! restart without warning.

use crate::vga_buffer::{after_chars, lemma_after_chars_concat, Writer};
use crate::VERSION;
use vstd::prelude::*;

verus! {

/// The header of the panic screen, which the panic message follows.
pub open spec fn panic_header() -> Seq<char> {
    "\n[PANIC] "@ + VERSION@ + " parou: "@
}

/// Writes the header of the panic screen; the program writes the panic
/// message after it.
pub fn write_panic_header(writer: &mut Writer)
    requires
        old(writer).wf(),
    ensures
        final(writer).wf(),
        final(writer)@ == after_chars(old(writer)@, panic_header()),
{
    let ghost s0 = writer@;
    writer.write_string("\n[PANIC] ");
    writer.write_string(VERSION);
    writer.write_string(" parou: ");
    proof {
        lemma_after_chars_concat(s0, "\n[PANIC] "@, VERSION@);
        lemma_after_chars_concat(s0, "\n[PANIC] "@ + VERSION@, " parou: "@);
    }
}

} // verus!
