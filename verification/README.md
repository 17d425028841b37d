# ysos

A verified core of the YSOS teaching kernel, written in Verus.

- `src/` is the library, every function of it verified:
  - `fat16/`: the FAT16 directory-entry format and a read-only FAT16 file
    system over any block device (`BlockDevice`), with a RAM disk;
  - `sched`: the process manager (process table, ready queue, waiters) and
    its laws: a killed process answers every waiter with its exit code, a
    switch runs the first ready process;
  - `syscall`, `proc`, `sync`, `semaphores`, `io`: decoding system calls and
    encoding their replies, semaphore calls and the kernel's set of
    semaphores, the standard streams;
  - `input`, `keyboard`, `uart`, `apic`, `vga`: the input buffer and line
    editing, scancodes decoded by pc-keyboard into the keys of the input
    buffer, the setup order of the UART and the APIC, the console's output
    queue, text cursor, clock layout and the reading of the CMOS clock;
  - `memory`, `time`, `logger`, `shell`, `apps/`: heap growth by `brk`,
    timestamps, the log level, the shell's command line and the user
    programs' logic.
- `tests/` exercises the library on concrete values.
- `app/` is the ordinary Rust around it: port and register I/O, interrupt
  and system-call glue, the user programs' loops, and the floating-point
  parts (sizes in KiB, the analogue clock).
