//! A verified core of the YSOS teaching kernel and its user library: the
//! FAT16 file system, the process manager, system-call decoding, the console
//! and its input, the setup order of the APIC and the UART, heap growth by
//! `brk`, and the logic of the user programs, each stated with a contract
//! and proved. The hardware and system-call glue around it is ordinary code.

use vstd::prelude::*;

pub mod error;
pub mod time;
pub mod text;
pub mod fat16;
pub mod input;
pub mod io;
pub mod keyboard;
pub mod uart;
pub mod apic;
pub mod vga;
pub mod memory;
pub mod logger;
pub mod sync;
pub mod semaphores;
pub mod syscall;
pub mod proc;
pub mod sched;
pub mod shell;
pub mod apps;
