//! The verified core of `probe-run`, a tool that runs a program on an ARM Cortex-M microcontroller as
//! if it were a program of the host.
//!
//! The program comes as an ELF file. It is loaded onto the target through a debug probe, its log
//! messages are printed until it halts or the user interrupts it, and then a stack backtrace is
//! printed. A program that ends in a hard fault gives the exit code of an abort.
//!
//! - [`layout`] says where an ELF file keeps what is read of it, and [`elf`] reads it.
//! - [`symbols`] says which function lives at which addresses.
//! - [`program`] gathers what is loaded, and what is known of the program.
//! - [`loading`] says how the program gets onto the target and is started there.
//! - [`logging`] says how the channel of the log messages is found.
//! - [`cfi`], [`registers`] and [`stacked`] are what the unwinder works on.
//! - [`backtrace`] walks the stack, and [`walk`] says what it recovers.
//! - [`session`] is a whole run, from the list of probes to the exit code.
//! - [`chips`] lists the supported chips, and [`text`] formats what is printed.
//!
//! The library does no input and output. [`session::Session`] and [`backtrace::Backtrace`] are
//! machines: a step takes what was read last, and gives the lines to print and what to do next.

pub mod backtrace;
pub mod cfi;
pub mod chips;
pub mod elf;
pub mod layout;
pub mod loading;
pub mod logging;
pub mod program;
pub mod registers;
pub mod session;
pub mod stacked;
pub mod symbols;
pub mod text;
pub mod walk;
