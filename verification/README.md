# jk_bms

A verified library for talking to JIKONG (JK) battery management systems, and the
`jktool` command-line program around it.

The library (`src/`) holds the protocol: byte and word access, checksums, the frame
scanner that finds and decodes info, cell info and settings frames (JK02 24S/32S and
JK04 layouts), the BLE frame assembler, the settings register map with its lookups and
write frames, the request commands, transport target parsing, and the decisions of the
reading procedures. Every function carries a contract proved by Verus; `src/laws.rs`
states and proves properties that relate several functions (checksums catch any single
changed byte, write frames read back, frames are reassembled exactly from chunks, the
register map has no two settings on one register or name, reads always come to an end).

Measurements are kept as the raw integer words of the frames; `app/` turns them into
floating-point readings for display, runs the transports (serial, CAN, Bluetooth) and the
I/O loops, and formats output as text, CSV or JSON.

Layout:

- `src/protocol.rs`: frame scanner (`getdata`), cell info and settings decoders, commands
- `src/assembler.rs`: BLE frame reassembly
- `src/settings.rs`: settings register map, lookups, write frames
- `src/pack.rs`, `src/jk_info.rs`: pack state and device information
- `src/module.rs`, `src/polling.rs`, `src/session.rs`: modules, sessions, read procedures
- `src/target.rs`, `src/cli.rs`: transport targets, runtime text, hex dumps
- `src/text.rs`: text helpers over `std`
- `src/laws.rs`: properties across functions
- `tests/`: tests of the library
- `app/`: the `jktool` program
