# device_driver

A verified library for describing the registers, commands and buffers of a device and
for generating the Rust code of a driver for it. The logic is written in Verus and every
function in `src/` carries a contract that the verifier checks.

## What it does

- **Descriptions.** A device is read from KDL text (`kdl`, `kdl_tree`) or from the
  register macro's input (`macro_input`, `dsl_hir`, `dsl_transform`) into the
  mid-level description (`mir`).
- **Macro devices.** `dsl_device` reads a whole device written in the macro (its
  settings, blocks, registers, commands, buffers and refs with their overrides) into
  the mid-level description, and `pipeline` carries a description on to the code of its
  driver, or to the compile error of the first fault.
- **Checks.** The passes in `passes` check and complete the description: unique and
  normalized names, bit ranges that fit and don't overlap, enum values, references,
  reset values, byte and bit orders, and conditions. Each pass states exactly which
  error it reports first.
- **Layout.** `lir::transform` lays the description out as blocks with methods, field
  sets and enums; `lir::passes` checks that addresses don't overlap.
- **Code.** `lir::block_generation`, `lir::field_set_generation`,
  `lir::enum_generation` and `lir::device_generation` turn the layout into the text of
  the driver; `register_generation` does the same for registers of the register
  macro. Each generator's contract is the exact text it produces, written as spec
  functions over the input.
- **Runtime pieces.** `register_field` reads and writes fields of register bytes, with
  the laws that a read gives back what a write wrote and that a write leaves every
  other field alone; `bit`, `bits`, `endian`, `ll`, `hl` and `utils` hold the other
  pieces the generated code relies on: bit values, bit numbering, byte orders and the
  low- and high-level interfaces of a device.
- **Round trips.** `kdl_transform` writes a description back to KDL, and
  `kdl_round_trip` and `kdl_device_round_trip` prove that reading the written nodes
  again gives the same description. `reporting` holds the diagnostics that reading
  gives.

## Layout

- `src/` – the verified library.
- `tests/` – tests of the library on concrete values.
- `app/` – the thin program around it: reading and writing files, formatting code and
  printing reports.
