//! proto-os: the logic of a small educational x86_64 kernel, verified.
//!
//! The library holds what the kernel decides and computes: the VGA text
//! screen model, the scancode queue and keyboard translation, the line
//! buffer and command prompt, the physical frame allocator over the boot
//! memory map, and the fatal-event latch. The hardware edge (ports,
//! memory-mapped video memory, page tables, interrupt tables) stays in the
//! program around it.

pub mod allocator;
pub mod interrupts;
pub mod keyboard;
pub mod memory;
pub mod panic;
pub mod shell;
pub mod text;
pub mod vga_buffer;

use crate::vga_buffer::{after_chars, lemma_after_chars_concat, Writer};
use vstd::prelude::*;

verus! {

/// The system's name and version, `proto-os vX.Y.Z`; the one source of
/// the version in the whole system.
pub const VERSION: &'static str = "proto-os v0.3.0";

/// The welcome message: the version, then three lines about the system.
pub open spec fn welcome_text() -> Seq<char> {
    VERSION@ + "\n"@ + "proto-os - sem sistema operacional embaixo\n"@
        + "Este texto foi escrito direto no buffer de video VGA,\n"@
        + "por este mesmo binario Rust, sem nenhum SO por baixo.\n"@
}

/// Writes the welcome message, the version on its first line.
pub fn print_welcome(writer: &mut Writer)
    requires
        old(writer).wf(),
    ensures
        final(writer).wf(),
        final(writer)@ == after_chars(old(writer)@, welcome_text()),
{
    let ghost s0 = writer@;
    let a = "\n";
    let b = "proto-os - sem sistema operacional embaixo\n";
    let c = "Este texto foi escrito direto no buffer de video VGA,\n";
    let d = "por este mesmo binario Rust, sem nenhum SO por baixo.\n";
    writer.write_string(VERSION);
    writer.write_string(a);
    writer.write_string(b);
    writer.write_string(c);
    writer.write_string(d);
    proof {
        lemma_after_chars_concat(s0, VERSION@, a@);
        lemma_after_chars_concat(s0, VERSION@ + a@, b@);
        lemma_after_chars_concat(s0, VERSION@ + a@ + b@, c@);
        lemma_after_chars_concat(s0, VERSION@ + a@ + b@ + c@, d@);
    }
}

/// Values written to QEMU's `isa-debug-exit` device to report the outcome
/// of a test run to the host.
#[derive(Debug, Clone, Copy, PartialEq, Eq, Structural)]
pub enum QemuExitCode {
    Success,
    Failed,
}

impl QemuExitCode {
    /// The value written to the device: 0x10 for success, 0x11 for failure.
    pub open spec fn number(self) -> u32 {
        match self {
            QemuExitCode::Success => 0x10,
            QemuExitCode::Failed => 0x11,
        }
    }

    /// The value written to the device.
    pub fn code(self) -> (r: u32)
        ensures
            r == self.number(),
    {
        match self {
            QemuExitCode::Success => 0x10,
            QemuExitCode::Failed => 0x11,
        }
    }
}

} // verus!
