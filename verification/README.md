# fullerene

The verified core of the Fullerene kernel: the decisions, decoders and
state machines of its PCI, VT-d, ACPI/DMAR, DMA, VDSO, device-file, Linux
system-call and media-player code, each with a contract proved by Verus.

Layout:

- `src/` — the library, one module per subsystem; every function carries
  its contract, and the `lemma_*` proof functions state the laws that
  relate several functions (a word written to configuration space reads
  back, duplicating and closing a descriptor restores the table, a
  capability walk always ends, the VDSO image maps each entry at its slot,
  and so on).
- `tests/` — tests of the library on concrete values.
- `app/` — the kernel-side glue: port I/O and MMIO, physical memory, the
  global registries, the C DMA entry points and the loops that run the
  library's state machines against the kernel's services.

The outside crates used are `goblin` (ELF parsing) and `x86_64`
(page-table flag bits) in the library, and `spin`, `log` and `x86_64` in
the glue.
