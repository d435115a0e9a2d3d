# fluxfox

A verified library for reading floppy disk image formats, written in Verus.

- `src/file_parsers/` — readers (and an 86F writer) for 86F, HFE, IMD, IPF, KryoFlux,
  MFI, MFM, MOOF, PCE (PRI, PSI, PFI), raw, SCP, TransCopy and TeleDisk images, with the
  LZHUF ring buffer and node pool. Each reader is stated against a specification of the
  format's byte layout.
- `src/file_system/` — the file tree of a disk's file system and FAT date/time values.
- `src/flux/` — flux transition classes and the bit emission of the PLL decoder.
- `src/types.rs` — descriptive types shared by the parsers.
- `app/` — the parts that need the operating system or floating point: directory walking,
  clocks, error types with `Display`, and conversion of flux sample counts to times.
- `tests/` — tests of the library on concrete images.
