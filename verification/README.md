# proto-os, verified

The logic of proto-os, a small educational x86_64 kernel, as a Verus
library whose contracts are proved.

- `src/vga_buffer.rs`: the 80x25 text screen model (writing at the
  current row, line feed with scrolling, backspace, clearing, searching, the
  hardware cursor position).
- `src/keyboard.rs`: Scan Code Set 1 to ASCII, US QWERTY, with both Shift keys.
- `src/interrupts.rs`: the queue of pending scancodes and the text of the
  exception screens.
- `src/shell.rs`: the line buffer, the command prompt and its commands.
- `src/memory.rs`, `src/allocator.rs`: the frame allocator over the boot
  memory map, the memory summary and the heap's page range.
- `src/text.rs`: numbers as decimal and hexadecimal text.
- `src/panic.rs`, `src/lib.rs`: the panic screen header, the welcome
  message, the QEMU exit codes.
- `app/`: the kernel around the library (boot entry, video memory, ports,
  descriptor tables, page tables, heap, panic handler); it builds with a
  nightly toolchain for a bare-metal x86_64 target.
