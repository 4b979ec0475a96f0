# rxinu

The logic of a small x86 kernel, in Verus: everything it computes is a verified function
with a contract, and `app/` is the thin layer that touches the hardware.

## Layout

- `src/paging/`: page table entries and flags, pages, the four-level mapper over a model of
  the frames that hold the tables (`physical`, `mapper`), the active and inactive
  hierarchies and the remapping of the kernel (`active`), and the two-level 32-bit mapper
  (`directory`).
- `src/memory/`: frames, the frame allocators, the stack allocator and the memory
  controller that maps the heap.
- `src/gdt/`, `src/interrupts/`: descriptor tables and the bits of their descriptors (as
  the `x86` crate builds them), exceptions and their reports, stack frame texts, gates,
  the interrupt flag and controller masks, the timer's decision.
- `src/vga.rs`, `src/serial.rs`, `src/console.rs`, `src/pic.rs`, `src/device/`: the text
  console, the serial ports and the interrupt controllers, as screen contents, queued bytes
  and port writes.
- `src/context/`: saved register state of tasks.
- `app/`: the kernel entry point; port I/O, control registers, descriptor loads, the heap
  allocator, context switches and interrupt handlers.
