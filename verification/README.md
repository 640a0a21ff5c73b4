# libkernel

The logic of a small Raspberry Pi 3/4 kernel, verified with Verus.

- `src/` is the verified library: ANSI colour codes and colour names (`colorize`, `colors`),
  decimal and padded text (`text`), the console's byte stream and its count (`console`), log
  lines, print payloads and panic reports (`print`, `panic`), the VGA text writer (`vga`),
  framebuffer requests and the pixel stores of drawing (`framebuffer`, `kernel_framebuffer`,
  `grid`), the mailbox message and the mailbox call protocol (`mail`), data cache maintenance
  operands and line ranges (`dcache`), the board's memory map (`memory`), and the driver and
  timer interfaces (`driver`, `time`).
- `app/` is the kernel program around it: volatile device access, the mailbox and cache
  instructions, the heap allocator, the panic path and the boot sequence. It performs what the
  library computes.
- `tests/` exercise the library on concrete values.
