# Kentos, verified core

Kentos is a small x86_64 hobby kernel with a VGA text console and a bash-like
shell (prompt `>`; commands `greet`, `echo`, `reboot`, `clear`).

`src/` is the verified library:

- `kentos_stdio` – colours, the 25x80 text buffer and the cursor-driven
  writer (`write_char`, `add_newline`, `write_str`, `clear_row`, `k_puts`),
  specified over a model of the screen (`WriterModel`, `write_bytes`).
- `kentos_interrupts` – interrupt vectors and the keyboard scancode table.
- `kentos_gdt` – task state segment constants.
- `kentos_memory` – the boot frame allocator over the usable regions of the
  memory map.
- `kentos_alloc` – the heap's location and the page-by-page mapping plan.
- `kentos_console` – the four writers sharing the screen, the keyboard and
  timer interrupt steps, and the shell: one turn of the kernel's main loop is
  `Console::poll`, specified by `poll_step`.

`app/` is the kernel around it (boot entry, IDT, PICs, port I/O, page tables,
the global allocator, copying the screen model to video memory). It needs a
nightly toolchain for the `x86-interrupt` calling convention.
