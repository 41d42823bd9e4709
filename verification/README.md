# crafty_os

The logic of the CraftyOS hobby kernel, written in Verus with its
behaviour stated in contracts and proved.

`src/` is the verified library:

- `vga_buffer` – colour codes and the VGA text-screen writer (newlines,
  backspace, wrapping, scrolling, the status line, the highlighted mouse
  cell, screen dumps).
- `keyboard` – the Alt-command console driven by key presses, the byte
  queue between the keyboard interrupt and its task, and the `pc_keyboard`
  decoder behind it.
- `mouse` – the mouse cursor cell.
- `bitmap`, `page_frame` – the page bitmap and the page-frame allocator of
  the UEFI kernel.
- `allocator` – the linked-list and fixed-size-block heap allocators.
- `memory` – the boot frame allocator.
- `executor` – the cooperative executor's queues and steps.
- `multitasking` – the preemptive round-robin thread scheduler.
- `disk`, `pci` – ATA command plans, the identify status protocol, PCI
  configuration-space decoding and the PCI bus scan as a step function.
- `boot`, `gop` – ELF and PSF1 parsing for the boot loader, graphics mode
  choice, and the framebuffer text console.
- `interrupts`, `qemu` – interrupt numbers and QEMU exit codes.
- `image_build` – picking a package's executable from `cargo build`'s
  messages.

`app/` holds what the library leaves to the machine: port and memory I/O,
interrupt handler bodies, the future-polling run loop, the UEFI boot loader
and the image builder.

`tests/` exercises the library on concrete values.
