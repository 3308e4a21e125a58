# probe-run

Runs a program on an ARM Cortex-M microcontroller as if it were a program of the host:

```
probe-run --chip nRF52840_xxAA program.elf
```

The program is loaded onto the target through a debug probe, its RTT log messages are printed until
it halts or the user presses Ctrl-C, and then a stack backtrace is printed. A program that ends in a
hard fault gives the exit code 134, any other one the exit code 0. `probe-run --list-chips` lists the
supported chips.

## Layout

- `src/` is the library. It decides what is done; Verus proves that its functions keep their
  contracts, and the laws (`law_*`) state what holds of several of them together.
- `app/` is the program around it: arguments, files, the probe and the terminal. It performs what
  `probe_run::session::Session` asks for.
- `tests/` runs the library, together with the crates that it calls.

The library calls `gimli` for call frame information, `xmas-elf` for ELF files and `rustc-demangle`
for the names of functions. What it relies on of them is not proved: it stands in the contracts of the
functions that are marked `#[verifier::external_body]`, as does what it relies on of the standard
library, but for `String::push`, whose contract is an `assume_specification`.

`xmas-elf` refers to the records of a file in place. What the library says of a file holds on
little-endian hosts with 64-bit addresses, for a file that starts at a multiple of eight in memory.
