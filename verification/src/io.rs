//! The standard streams of a user program.

use vstd::prelude::*;

use crate::input::{is_erase_key, Echo};
use vstd::string::StringSliceAdditionalSpecFns;

verus! {

/// The standard input stream.
pub struct Stdin;

/// The standard output stream.
pub struct Stdout;

/// The standard error stream.
pub struct Stderr;

/// A `write` system call: the bytes to write to a file descriptor.
pub struct WriteRequest<'a> {
    pub fd: u8,
    pub bytes: &'a [u8],
}

impl Stdin {
    fn new() -> (r: Stdin) {
        Stdin
    }

    /// The file descriptor of the stream.
    pub fn fd(&self) -> (r: u8)
        ensures
            r == 0,
    {
        0
    }

    /// One byte of a line read by a user program, where `\n` or `\r` ends the
    /// line. Erase keys remove the last character, if any; other bytes are added
    /// as the character of the same code and shown where they are ASCII (a single
    /// byte from 0x80 on is no UTF-8 text).
    pub fn read_line_step(&self, line: &mut Vec<char>, byte: u8) -> (r: (bool, Echo))
        ensures
            (byte == 0x0a || byte == 0x0d) ==> r == (true, Echo::Newline) && final(line)@ == old(line)@,
            is_erase_key(byte) && old(line)@.len() > 0 ==> r == (false, Echo::Erase) && final(line)@
                == old(line)@.drop_last(),
            is_erase_key(byte) && old(line)@.len() == 0 ==> r == (false, Echo::Nothing) && final(line)@
                == old(line)@,
            byte != 0x0a && byte != 0x0d && !is_erase_key(byte) ==> final(line)@ == old(line)@.push(
                byte as char,
            ) && r == (false, if byte < 0x80 {
                Echo::Show(byte as char)
            } else {
                Echo::Nothing
            }),
    {
        if byte == 0x0a || byte == 0x0d {
            (true, Echo::Newline)
        } else if byte == 0x08 || byte == 0x7f {
            match line.pop() {
                Some(_) => (false, Echo::Erase),
                None => (false, Echo::Nothing),
            }
        } else {
            let c = byte as char;
            line.push(c);
            if byte < 0x80 {
                (false, Echo::Show(c))
            } else {
                (false, Echo::Nothing)
            }
        }
    }
}

impl Stdout {
    fn new() -> (r: Stdout) {
        Stdout
    }

    /// The call that writes the text `s` to the stream, descriptor 1.
    pub fn write<'a>(&self, s: &'a str) -> (r: WriteRequest<'a>)
        ensures
            r.fd == 1,
            r.bytes@ == s.spec_bytes(),
    {
        WriteRequest { fd: 1, bytes: s.as_bytes() }
    }
}

impl Stderr {
    fn new() -> (r: Stderr) {
        Stderr
    }

    /// The call that writes the text `s` to the stream, descriptor 2.
    pub fn write<'a>(&self, s: &'a str) -> (r: WriteRequest<'a>)
        ensures
            r.fd == 2,
            r.bytes@ == s.spec_bytes(),
    {
        WriteRequest { fd: 2, bytes: s.as_bytes() }
    }
}

/// The standard input stream.
pub fn stdin() -> (r: Stdin) {
    Stdin::new()
}

/// The standard output stream.
pub fn stdout() -> (r: Stdout) {
    Stdout::new()
}

/// The standard error stream.
pub fn stderr() -> (r: Stderr) {
    Stderr::new()
}

} // verus!
