//! The VGA console's text logic: the queue of bytes waiting to be drawn, the
//! CMOS clock's encoding and the placement of pixels in the frame buffer.

use vstd::prelude::*;

verus! {

/// The number of bytes the output queue holds.
pub const OUTPUT_QUEUE_SIZE: usize = 65535;

/// The slot of the `i`-th oldest byte of a ring whose oldest byte is at `head`.
pub open spec fn slot(head: int, i: int) -> int {
    if head + i < OUTPUT_QUEUE_SIZE {
        head + i
    } else {
        head + i - OUTPUT_QUEUE_SIZE
    }
}

/// The bytes written to the console and not yet drawn, in a ring that, when
/// full, drops its oldest byte for a new one.
pub struct OutputQueue {
    buf: Vec<u8>,
    head: usize,
    tail: usize,
    full: bool,
}

impl OutputQueue {
    /// The ring's own invariant.
    pub closed spec fn wf(&self) -> bool {
        &&& self.buf@.len() == OUTPUT_QUEUE_SIZE
        &&& self.head < OUTPUT_QUEUE_SIZE
        &&& self.tail < OUTPUT_QUEUE_SIZE
        &&& self.full ==> self.head == self.tail
    }

    /// The number of bytes held.
    pub closed spec fn count(&self) -> int {
        if self.full {
            OUTPUT_QUEUE_SIZE as int
        } else if self.tail >= self.head {
            self.tail - self.head
        } else {
            self.tail + OUTPUT_QUEUE_SIZE - self.head
        }
    }

    /// The bytes held, oldest first.
    pub closed spec fn view(&self) -> Seq<u8> {
        Seq::new(self.count() as nat, |i: int| self.buf@[slot(self.head as int, i)])
    }

    /// An empty queue.
    pub fn new() -> (r: OutputQueue)
        ensures
            r.wf(),
            r.view() == Seq::<u8>::empty(),
    {
        let q = OutputQueue { buf: vec![0u8; OUTPUT_QUEUE_SIZE], head: 0, tail: 0, full: false };
        assert(q.view() =~= Seq::<u8>::empty());
        q
    }

    /// Appends `byte`; where the queue is full its oldest byte is dropped to
    /// make room. Always accepts the byte.
    pub fn push(&mut self, byte: u8) -> (r: bool)
        requires
            old(self).wf(),
        ensures
            r,
            final(self).wf(),
            old(self).view().len() < OUTPUT_QUEUE_SIZE ==> final(self).view() == old(self).view().push(byte),
            old(self).view().len() == OUTPUT_QUEUE_SIZE ==> final(self).view() == old(self).view().drop_first().push(byte),
    {
        let ghost v0 = self.view();
        if self.full {
            self.head = (self.head + 1) % OUTPUT_QUEUE_SIZE;
            self.full = false;
            assert(self.view() =~= v0.drop_first());
        }
        let ghost v1 = self.view();
        let ghost h = self.head as int;
        let ghost n = self.count();
        assert(n < OUTPUT_QUEUE_SIZE);
        assert(slot(h, n) == self.tail);
        let t = self.tail;
        self.buf.set(t, byte);
        self.tail = (self.tail + 1) % OUTPUT_QUEUE_SIZE;
        self.full = self.tail == self.head;
        assert forall|i: int| 0 <= i < n implies slot(h, i) != t by {}
        assert(self.view() =~= v1.push(byte));
        true
    }

    /// Takes the oldest byte out, if there is one.
    pub fn pop(&mut self) -> (r: Option<u8>)
        requires
            old(self).wf(),
        ensures
            final(self).wf(),
            old(self).view().len() == 0 ==> r is None && final(self).view() == old(self).view(),
            old(self).view().len() > 0 ==> r == Some(old(self).view()[0]) && final(self).view()
                == old(self).view().drop_first(),
    {
        if !self.full && self.head == self.tail {
            return None;
        }
        let ghost v0 = self.view();
        let byte = self.buf[self.head];
        self.head = (self.head + 1) % OUTPUT_QUEUE_SIZE;
        self.full = false;
        assert(self.view() =~= v0.drop_first());
        Some(byte)
    }

    /// Appends the bytes of `s`, one by one.
    pub fn write_bytes(&mut self, s: &[u8])
        requires
            old(self).wf(),
        ensures
            final(self).wf(),
            final(self).view() == push_all(old(self).view(), s@),
    {
        let mut i: usize = 0;
        while i < s.len()
            invariant
                self.wf(),
                i <= s.len(),
                self.view() == push_all(old(self).view(), s@.take(i as int)),
            decreases s.len() - i,
        {
            let ghost before = self.view();
            self.push(s[i]);
            assert(s@.take(i + 1).drop_last() =~= s@.take(i as int));
            i = i + 1;
        }
        assert(s@.take(s.len() as int) =~= s@);
    }
}

/// The contents of an output queue after `bytes` are pushed onto `q` one by
/// one.
pub open spec fn push_all(q: Seq<u8>, bytes: Seq<u8>) -> Seq<u8>
    decreases bytes.len(),
{
    if bytes.len() == 0 {
        q
    } else {
        let before = push_all(q, bytes.drop_last());
        if before.len() < OUTPUT_QUEUE_SIZE {
            before.push(bytes.last())
        } else {
            before.drop_first().push(bytes.last())
        }
    }
}

/// The output queue keeps the last bytes written: after `bytes` are pushed
/// onto the contents `q` it holds `q` followed by `bytes`, less as many of
/// the oldest as exceed its size.
pub proof fn lemma_push_all_keeps_last(q: Seq<u8>, bytes: Seq<u8>)
    requires
        q.len() <= OUTPUT_QUEUE_SIZE,
    ensures
        push_all(q, bytes) == (q + bytes).skip(
            if q.len() + bytes.len() > OUTPUT_QUEUE_SIZE {
                q.len() + bytes.len() - OUTPUT_QUEUE_SIZE
            } else {
                0
            },
        ),
    decreases bytes.len(),
{
    if bytes.len() == 0 {
        assert(q + bytes =~= q);
        assert(q.skip(0) =~= q);
    } else {
        let b0 = bytes.drop_last();
        lemma_push_all_keeps_last(q, b0);
        let k0: int = if q.len() + b0.len() > OUTPUT_QUEUE_SIZE {
            q.len() + b0.len() - OUTPUT_QUEUE_SIZE
        } else {
            0
        };
        let before = push_all(q, b0);
        assert(before == (q + b0).skip(k0));
        assert((q + bytes) =~= (q + b0).push(bytes.last()));
        if before.len() < OUTPUT_QUEUE_SIZE {
            assert(k0 == 0);
            assert(push_all(q, bytes) =~= (q + bytes).skip(0));
        } else {
            assert(push_all(q, bytes) =~= (q + bytes).skip(k0 + 1));
        }
    }
}

/// A clock reading: hour, minute and second.
#[derive(Clone, Copy, Debug, PartialEq, Eq, Structural)]
pub struct ClockTime {
    pub hour: usize,
    pub minute: usize,
    pub second: usize,
}

/// A CMOS clock register as a number: as it is where the clock counts in
/// binary, else read as two decimal digits (BCD).
pub fn cmos_value(value: u8, binary: bool) -> (r: u8)
    ensures
        binary ==> r == value,
        !binary ==> r == (value % 16) + (value / 16) * 10,
{
    if binary {
        value
    } else {
        let lo = value & 0x0F;
        let hi = value >> 4u8;
        assert(lo == value % 16 && hi == value / 16) by (bit_vector)
            requires
                lo == value & 0x0F,
                hi == value >> 4u8,
        ;
        lo + hi * 10
    }
}

/// The time in UTC+8 that the CMOS registers hold: `status_b` bit 2 says the
/// clock counts in binary, bit 1 that it counts 24 hours; on a 12-hour clock
/// bit 7 of the hour marks the afternoon.
pub open spec fn spec_cmos_clock_time(second: u8, minute: u8, hour: u8, status_b: u8) -> ClockTime {
    let binary = status_b & 0x04 != 0;
    let hour_24 = status_b & 0x02 != 0;
    let pm = !hour_24 && hour & 0x80 != 0;
    let h0 = cmos_decode(hour & 0x7F, binary);
    let h = if hour_24 {
        h0 as int
    } else if pm {
        (h0 % 12) + 12
    } else {
        (h0 % 12) as int
    };
    ClockTime {
        hour: ((h + 8) % 24) as usize,
        minute: cmos_decode(minute, binary) as usize,
        second: cmos_decode(second, binary) as usize,
    }
}

/// The time in UTC+8 that the CMOS registers hold.
pub fn cmos_clock_time(second: u8, minute: u8, hour: u8, status_b: u8) -> (r: ClockTime)
    ensures
        r == spec_cmos_clock_time(second, minute, hour, status_b),
{
    let binary = status_b & 0x04 != 0;
    let hour_24 = status_b & 0x02 != 0;
    let pm = !hour_24 && hour & 0x80 != 0;
    let h7 = hour & 0x7F;
    assert(h7 / 16 <= 7) by (bit_vector)
        requires
            h7 == hour & 0x7F,
    ;
    let second = cmos_byte(second, binary);
    let minute = cmos_byte(minute, binary);
    let mut h = cmos_value(h7, binary);
    if !hour_24 {
        h = h % 12;
        if pm {
            h = h + 12;
        }
    }
    ClockTime { hour: (h as usize + 8) % 24, minute: minute as usize, second: second as usize }
}

/// A reading of the CMOS clock's second, minute and hour registers.
#[derive(Clone, Copy, Debug, PartialEq, Eq, Structural)]
pub struct CmosReading {
    pub second: u8,
    pub minute: u8,
    pub hour: u8,
}

/// What the clock reader does after reading the registers twice.
#[derive(Clone, Copy, Debug, PartialEq, Eq, Structural)]
pub enum CmosStep {
    /// The readings agree: the time they show.
    Time(ClockTime),
    /// They differ: read again.
    Retry,
    /// They differed in every attempt: there is no time.
    GiveUp,
}

/// The number of times the clock reader reads the registers twice.
pub const CMOS_ATTEMPTS: u32 = 10;

/// The step of the clock reader after attempt `attempt` (counting from 0)
/// read the registers as `first` and then as `again`: where both readings
/// agree, the time they show (the clock did not tick in between); else
/// another attempt, or none after the last.
pub fn cmos_poll_step(attempt: u32, first: CmosReading, again: CmosReading, status_b: u8) -> (r:
    CmosStep)
    ensures
        first == again ==> r == CmosStep::Time(
            spec_cmos_clock_time(first.second, first.minute, first.hour, status_b),
        ),
        first != again && attempt + 1 < CMOS_ATTEMPTS ==> r == CmosStep::Retry,
        first != again && attempt + 1 >= CMOS_ATTEMPTS ==> r == CmosStep::GiveUp,
{
    if first == again {
        CmosStep::Time(cmos_clock_time(first.second, first.minute, first.hour, status_b))
    } else if attempt < CMOS_ATTEMPTS - 1 {
        CmosStep::Retry
    } else {
        CmosStep::GiveUp
    }
}

/// A CMOS register as a number, as `cmos_value` computes it, for every byte:
/// a BCD byte's digits are taken as they stand.
pub open spec fn cmos_decode(value: u8, binary: bool) -> int {
    if binary {
        value as int
    } else {
        (value % 16) + (value / 16) * 10
    }
}

/// A CMOS register as a number; any byte, the high digit being at most 15.
fn cmos_byte(value: u8, binary: bool) -> (r: u16)
    ensures
        r == cmos_decode(value, binary),
{
    if binary {
        value as u16
    } else {
        let lo = (value & 0x0F) as u16;
        let hi = (value >> 4u8) as u16;
        assert((value & 0x0F) == value % 16 && (value >> 4u8) == value / 16) by (bit_vector);
        lo + hi * 10
    }
}

/// The time in UTC+8 from a firmware clock's reading in UTC.
pub fn utc8_from_utc(hour: u8, minute: u8, second: u8) -> (r: ClockTime)
    ensures
        r == (ClockTime {
            hour: ((hour + 8) % 24) as usize,
            minute: minute as usize,
            second: second as usize,
        }),
{
    ClockTime { hour: (hour as usize + 8) % 24, minute: minute as usize, second: second as usize }
}

/// The bytes a pixel takes in the frame buffer.
pub const BYTES_PER_PIXEL: usize = 4;

/// The offset of pixel (`x`, `y`) in a frame buffer of `size` bytes whose rows
/// are `stride` pixels apart; `None` where the pixel is outside the
/// `width` x `height` screen or its bytes outside the buffer.
pub fn pixel_offset(width: usize, height: usize, stride: usize, size: usize, x: usize, y: usize) -> (r:
    Option<usize>)
    requires
        x < width && y < height ==> (y * stride + x) * BYTES_PER_PIXEL + BYTES_PER_PIXEL
            <= usize::MAX,
    ensures
        (x >= width || y >= height) ==> r is None,
        x < width && y < height && (y * stride + x) * BYTES_PER_PIXEL + BYTES_PER_PIXEL <= size
            ==> r == Some(((y * stride + x) * BYTES_PER_PIXEL) as usize),
        x < width && y < height && (y * stride + x) * BYTES_PER_PIXEL + BYTES_PER_PIXEL > size
            ==> r is None,
{
    if x >= width || y >= height {
        return None;
    }
    assert(0 <= y * stride) by (nonlinear_arith);
    let offset = (y * stride + x) * BYTES_PER_PIXEL;
    if offset + BYTES_PER_PIXEL <= size {
        Some(offset)
    } else {
        None
    }
}

/// The order in which a frame buffer stores a pixel's colours.
#[derive(Clone, Copy, Debug, PartialEq, Eq, Structural)]
pub enum PixelFormat {
    Rgb,
    Bgr,
}

/// The 32-bit word of a pixel of colour (`r`, `g`, `b`): the first colour in
/// the buffer's order in the low byte, green in the next, the last in the
/// third.
pub fn pixel_value(format: PixelFormat, r: u8, g: u8, b: u8) -> (v: u32)
    ensures
        format == PixelFormat::Rgb ==> v == r + g * 0x100 + b * 0x10000,
        format == PixelFormat::Bgr ==> v == b + g * 0x100 + r * 0x10000,
{
    let (first, last) = match format {
        PixelFormat::Rgb => (r, b),
        PixelFormat::Bgr => (b, r),
    };
    let v = (first as u32) | ((g as u32) << 8u32) | ((last as u32) << 16u32);
    assert(v == first + g * 0x100 + last * 0x10000) by (bit_vector)
        requires
            v == (first as u32) | ((g as u32) << 8u32) | ((last as u32) << 16u32),
    ;
    v
}

/// The width of a character cell of the console font.
pub const CHAR_WIDTH: usize = 6;
/// The height of a character cell of the console font.
pub const CHAR_HEIGHT: usize = 10;
/// The margin around the console's text.
pub const TERM_PADDING: usize = 4;
/// The largest screen side that the console handles.
pub const MAX_SCREEN_SIDE: usize = 0x10000;

/// A drawing step of the console, in pixels.
#[derive(Clone, Copy, Debug, PartialEq, Eq, Structural)]
pub enum TermOp {
    /// Fill a rectangle with the background colour.
    Fill { x: usize, y: usize, width: usize, height: usize },
    /// Draw a character with its top left corner at (`x`, `y`).
    Draw { ch: char, x: usize, y: usize },
    /// Move the text one line up and clear the bottom line.
    Scroll,
}

/// Whether a character is a control character (categories Cc): U+0000 to
/// U+001F and U+007F to U+009F, as `char::is_control` says.
pub open spec fn is_control_char(c: char) -> bool {
    (c as u32) < 0x20 || (0x7f <= (c as u32) && (c as u32) < 0xa0)
}

/// Whether a character is an ASCII letter.
pub open spec fn is_ascii_letter(c: char) -> bool {
    (0x41 <= (c as u32) && (c as u32) <= 0x5a) || (0x61 <= (c as u32) && (c as u32) <= 0x7a)
}

/// Whether a new line from row `y` scrolls the text of a screen `height`
/// pixels high: the next line would not fit.
pub open spec fn newline_scrolls(y: int, height: int) -> bool {
    y + 2 * CHAR_HEIGHT >= height
}

/// The row of the cursor after a new line from row `y`: one line down, or
/// the last line where the text scrolls.
pub open spec fn newline_y(y: int, height: int) -> int {
    if !newline_scrolls(y, height) {
        y + CHAR_HEIGHT
    } else if height >= TERM_PADDING + CHAR_HEIGHT {
        height - (TERM_PADDING + CHAR_HEIGHT)
    } else {
        0
    }
}

/// The drawing steps of a new line from row `y`: a scroll where it scrolls.
pub open spec fn newline_ops(y: int, height: int) -> Seq<TermOp> {
    if newline_scrolls(y, height) {
        seq![TermOp::Scroll]
    } else {
        Seq::empty()
    }
}

/// The console's text area: its size, where the text starts, the cursor and
/// whether an escape sequence is being skipped.
pub struct Terminal {
    pub width: usize,
    pub height: usize,
    pub term_top: usize,
    pub cursor_x: usize,
    pub cursor_y: usize,
    pub escape_active: bool,
}

impl Terminal {
    /// The console's invariant: a screen of a bounded size, the text area
    /// inside it and the cursor on it.
    pub open spec fn wf(&self) -> bool {
        &&& self.width <= MAX_SCREEN_SIDE
        &&& self.height <= MAX_SCREEN_SIDE
        &&& self.term_top <= self.height
        &&& self.cursor_x <= self.width + CHAR_WIDTH + TERM_PADDING
        &&& self.cursor_y <= self.height + CHAR_HEIGHT + TERM_PADDING
    }

    /// Whether `other` is the same screen and text area.
    pub open spec fn same_screen(&self, other: Terminal) -> bool {
        &&& other.width == self.width
        &&& other.height == self.height
        &&& other.term_top == self.term_top
    }

    /// A console on a `width` x `height` screen whose text starts at line
    /// `term_top`, cleared: the cursor at the top left of the text area.
    pub fn new(width: usize, height: usize, term_top: usize) -> (r: Terminal)
        requires
            width <= MAX_SCREEN_SIDE,
            height <= MAX_SCREEN_SIDE,
            term_top <= height,
        ensures
            r.wf(),
            r.width == width && r.height == height && r.term_top == term_top,
            r.cursor_x == TERM_PADDING,
            r.cursor_y == term_top + TERM_PADDING,
            !r.escape_active,
    {
        Terminal {
            width,
            height,
            term_top,
            cursor_x: TERM_PADDING,
            cursor_y: term_top + TERM_PADDING,
            escape_active: false,
        }
    }

    /// Moves to the next line; where it would leave the screen the text
    /// scrolls and the cursor goes to the last line.
    pub fn newline(&mut self, ops: &mut Vec<TermOp>)
        requires
            old(self).wf(),
        ensures
            final(self).wf(),
            old(self).same_screen(*final(self)),
            final(self).escape_active == old(self).escape_active,
            final(self).cursor_x == TERM_PADDING,
            final(self).cursor_y == newline_y(old(self).cursor_y as int, old(self).height as int),
            final(ops)@ == old(ops)@ + newline_ops(old(self).cursor_y as int, old(self).height as int),
    {
        self.cursor_x = TERM_PADDING;
        self.cursor_y = self.cursor_y + CHAR_HEIGHT;
        if self.cursor_y + CHAR_HEIGHT >= self.height {
            ops.push(TermOp::Scroll);
            self.cursor_y = self.height.saturating_sub(TERM_PADDING + CHAR_HEIGHT);
        }
    }

    /// Erases the character before the cursor, where there is one on the line.
    pub fn backspace(&mut self, ops: &mut Vec<TermOp>)
        requires
            old(self).wf(),
        ensures
            final(self).wf(),
            old(self).same_screen(*final(self)),
            final(self).escape_active == old(self).escape_active,
            final(self).cursor_y == old(self).cursor_y,
            old(self).cursor_x >= TERM_PADDING + CHAR_WIDTH ==> final(self).cursor_x == old(self).cursor_x - CHAR_WIDTH && final(ops)@ == old(ops)@.push(
                TermOp::Fill {
                    x: (old(self).cursor_x - CHAR_WIDTH) as usize,
                    y: old(self).cursor_y,
                    width: CHAR_WIDTH,
                    height: CHAR_HEIGHT,
                },
            ),
            old(self).cursor_x < TERM_PADDING + CHAR_WIDTH ==> final(self).cursor_x == old(self).cursor_x && final(ops)@ == old(ops)@,
    {
        if self.cursor_x >= TERM_PADDING + CHAR_WIDTH {
            self.cursor_x = self.cursor_x - CHAR_WIDTH;
            ops.push(
                TermOp::Fill { x: self.cursor_x, y: self.cursor_y, width: CHAR_WIDTH, height: CHAR_HEIGHT },
            );
        }
    }

    /// Clears the text area and puts the cursor at its top left.
    pub fn terminal_clear(&mut self, ops: &mut Vec<TermOp>)
        requires
            old(self).wf(),
        ensures
            final(self).wf(),
            old(self).same_screen(*final(self)),
            final(self).escape_active == old(self).escape_active,
            final(self).cursor_x == TERM_PADDING,
            final(self).cursor_y == old(self).term_top + TERM_PADDING,
            final(ops)@ == old(ops)@.push(
                TermOp::Fill {
                    x: 0,
                    y: old(self).term_top,
                    width: old(self).width,
                    height: (old(self).height - old(self).term_top) as usize,
                },
            ),
    {
        ops.push(
            TermOp::Fill {
                x: 0,
                y: self.term_top,
                width: self.width,
                height: self.height - self.term_top,
            },
        );
        self.cursor_x = TERM_PADDING;
        self.cursor_y = self.term_top + TERM_PADDING;
    }

    /// Writes a character that is no control character: on a new line where
    /// it would not fit on this one, then the cursor moves one cell right.
    pub fn write_visible_char(&mut self, ch: char, ops: &mut Vec<TermOp>)
        requires
            old(self).wf(),
        ensures
            final(self).wf(),
            old(self).same_screen(*final(self)),
            final(self).escape_active == old(self).escape_active,
            old(self).cursor_x + CHAR_WIDTH < old(self).width ==> final(self).cursor_x == old(self).cursor_x + CHAR_WIDTH && final(self).cursor_y == old(self).cursor_y && final(ops)@
                == old(ops)@.push(TermOp::Draw { ch, x: old(self).cursor_x, y: old(self).cursor_y }),
            old(self).cursor_x + CHAR_WIDTH >= old(self).width ==> final(self).cursor_x
                == TERM_PADDING + CHAR_WIDTH && final(self).cursor_y == newline_y(
                old(self).cursor_y as int,
                old(self).height as int,
            ) && final(ops)@ == (old(ops)@ + newline_ops(
                old(self).cursor_y as int,
                old(self).height as int,
            )).push(TermOp::Draw { ch, x: TERM_PADDING, y: final(self).cursor_y }),
    {
        if self.cursor_x + CHAR_WIDTH >= self.width {
            self.newline(ops);
        }
        ops.push(TermOp::Draw { ch, x: self.cursor_x, y: self.cursor_y });
        self.cursor_x = self.cursor_x + CHAR_WIDTH;
    }

    /// Writes one character to the console: while an escape sequence is
    /// skipped, only an ASCII letter (its end) has an effect; an escape clears
    /// the text area and starts skipping; a new line, a carriage return and
    /// the erase keys move the cursor; other control characters are ignored;
    /// the rest are drawn.
    pub fn write_char_to_terminal(&mut self, ch: char, ops: &mut Vec<TermOp>)
        requires
            old(self).wf(),
        ensures
            final(self).wf(),
            old(self).same_screen(*final(self)),
            old(self).escape_active ==> final(self).escape_active == !is_ascii_letter(ch)
                && final(self).cursor_x == old(self).cursor_x && final(self).cursor_y == old(self).cursor_y && final(ops)@ == old(ops)@,
            !old(self).escape_active && ch == '\x1b' ==> final(self).escape_active
                && final(self).cursor_x == TERM_PADDING && final(self).cursor_y == old(self).term_top
                + TERM_PADDING && final(ops)@ == old(ops)@.push(
                TermOp::Fill {
                    x: 0,
                    y: old(self).term_top,
                    width: old(self).width,
                    height: (old(self).height - old(self).term_top) as usize,
                },
            ),
            !old(self).escape_active && ch == '\n' ==> !final(self).escape_active
                && final(self).cursor_x == TERM_PADDING && final(self).cursor_y == newline_y(
                old(self).cursor_y as int,
                old(self).height as int,
            ) && final(ops)@ == old(ops)@ + newline_ops(
                old(self).cursor_y as int,
                old(self).height as int,
            ),
            !old(self).escape_active && ch == '\r' ==> final(self).cursor_x == TERM_PADDING
                && final(self).cursor_y == old(self).cursor_y && final(ops)@ == old(ops)@
                && !final(self).escape_active,
            !old(self).escape_active && (ch == '\x08' || ch == '\x7f') ==> !final(self).escape_active && final(self).cursor_y == old(self).cursor_y && (if old(self).cursor_x
                >= TERM_PADDING + CHAR_WIDTH {
                final(self).cursor_x == old(self).cursor_x - CHAR_WIDTH && final(ops)@ == old(ops)@.push(
                    TermOp::Fill {
                        x: (old(self).cursor_x - CHAR_WIDTH) as usize,
                        y: old(self).cursor_y,
                        width: CHAR_WIDTH,
                        height: CHAR_HEIGHT,
                    },
                )
            } else {
                final(self).cursor_x == old(self).cursor_x && final(ops)@ == old(ops)@
            }),
            !old(self).escape_active && is_control_char(ch) && ch != '\x1b' && ch != '\n' && ch
                != '\r' && ch != '\x08' && ch != '\x7f' ==> final(self).cursor_x == old(self).cursor_x && final(self).cursor_y == old(self).cursor_y && final(ops)@ == old(ops)@
                && !final(self).escape_active,
            !old(self).escape_active && !is_control_char(ch) ==> !final(self).escape_active && (
            if old(self).cursor_x + CHAR_WIDTH < old(self).width {
                final(self).cursor_x == old(self).cursor_x + CHAR_WIDTH && final(self).cursor_y
                    == old(self).cursor_y && final(ops)@ == old(ops)@.push(
                    TermOp::Draw { ch, x: old(self).cursor_x, y: old(self).cursor_y },
                )
            } else {
                final(self).cursor_x == TERM_PADDING + CHAR_WIDTH && final(self).cursor_y
                    == newline_y(old(self).cursor_y as int, old(self).height as int) && final(ops)@ == (old(ops)@ + newline_ops(
                    old(self).cursor_y as int,
                    old(self).height as int,
                )).push(TermOp::Draw { ch, x: TERM_PADDING, y: final(self).cursor_y })
            }),
    {
        if self.escape_active {
            let v = ch as u32;
            if (0x41 <= v && v <= 0x5a) || (0x61 <= v && v <= 0x7a) {
                self.escape_active = false;
            }
            return;
        }
        let v = ch as u32;
        if ch == '\x1b' {
            self.terminal_clear(ops);
            self.escape_active = true;
        } else if ch == '\n' {
            self.newline(ops);
        } else if ch == '\r' {
            self.cursor_x = TERM_PADDING;
        } else if ch == '\x08' || ch == '\x7f' {
            self.backspace(ops);
        } else if !(v < 0x20 || (0x7f <= v && v < 0xa0)) {
            self.write_visible_char(ch, ops);
        }
    }
}

/// The smaller of two integers.
pub open spec fn min_int(a: int, b: int) -> int {
    if a < b {
        a
    } else {
        b
    }
}

/// The pixels that a rectangle fills on a `width` x `height` screen: columns
/// from `x` up to the returned first bound, rows from `y` up to the second;
/// the rectangle is cut at the screen's edges.
pub fn clip_rect(x: usize, y: usize, w: usize, h: usize, width: usize, height: usize) -> (r: (
    usize,
    usize,
))
    ensures
        r.0 == min_int(if x + w > usize::MAX { usize::MAX as int } else { x + w }, width as int),
        r.1 == min_int(if y + h > usize::MAX { usize::MAX as int } else { y + h }, height as int),
{
    let max_y_raw = y.saturating_add(h);
    let max_x_raw = x.saturating_add(w);
    let max_y = if max_y_raw < height {
        max_y_raw
    } else {
        height
    };
    let max_x = if max_x_raw < width {
        max_x_raw
    } else {
        width
    };
    (max_x, max_y)
}

/// How the console scrolls its text one line up, on a frame buffer of `size`
/// bytes with rows `stride` pixels apart: the copy of the rows below the
/// first text line onto it (source offset, destination offset, byte count),
/// where it stays inside the buffer; and the clearing of the bottom line.
pub fn scroll_plan(width: usize, height: usize, stride: usize, size: usize, term_top: usize) -> (r: (
    Option<(usize, usize, usize)>,
    TermOp,
))
    requires
        height <= MAX_SCREEN_SIDE,
        stride <= MAX_SCREEN_SIDE,
        term_top <= height,
        usize::MAX >= 0x10_0000_0000,
    ensures
        ({
            let src_start = term_top + TERM_PADDING + CHAR_HEIGHT;
            let dst_start = term_top + TERM_PADDING;
            let copy_height = if height >= src_start + TERM_PADDING {
                height - (src_start + TERM_PADDING)
            } else {
                0
            };
            let row = stride * BYTES_PER_PIXEL;
            let src = src_start * row;
            let dst = dst_start * row;
            let bytes = copy_height * row;
            &&& (src + bytes <= size && dst + bytes <= size) ==> r.0 == Some(
                (src as usize, dst as usize, bytes as usize),
            )
            &&& !(src + bytes <= size && dst + bytes <= size) ==> r.0 is None
            &&& r.1 == TermOp::Fill {
                x: 0,
                y: (if height >= TERM_PADDING + CHAR_HEIGHT {
                    height - (TERM_PADDING + CHAR_HEIGHT)
                } else {
                    0
                }) as usize,
                width,
                height: (TERM_PADDING + CHAR_HEIGHT) as usize,
            }
        }),
{
    let src_start = term_top + TERM_PADDING + CHAR_HEIGHT;
    let dst_start = term_top + TERM_PADDING;
    let copy_height = height.saturating_sub(src_start + TERM_PADDING);
    assert(stride * BYTES_PER_PIXEL <= 0x40000) by (nonlinear_arith)
        requires
            stride <= 0x10000,
    ;
    let row_bytes = stride * BYTES_PER_PIXEL;
    assert(src_start * row_bytes <= 0x20000 * 0x40000) by (nonlinear_arith)
        requires
            src_start <= 0x20000,
            row_bytes <= 0x40000,
    ;
    assert(dst_start * row_bytes <= 0x20000 * 0x40000) by (nonlinear_arith)
        requires
            dst_start <= 0x20000,
            row_bytes <= 0x40000,
    ;
    assert(copy_height * row_bytes <= 0x20000 * 0x40000) by (nonlinear_arith)
        requires
            copy_height <= 0x20000,
            row_bytes <= 0x40000,
    ;
    let src = src_start * row_bytes;
    let dst = dst_start * row_bytes;
    let copy_bytes = copy_height * row_bytes;
    let copy = if src + copy_bytes <= size && dst + copy_bytes <= size {
        Some((src, dst, copy_bytes))
    } else {
        None
    };
    let fill = TermOp::Fill {
        x: 0,
        y: height.saturating_sub(TERM_PADDING + CHAR_HEIGHT),
        width,
        height: TERM_PADDING + CHAR_HEIGHT,
    };
    (copy, fill)
}

/// Where the analogue clock above the console's text goes.
#[derive(Clone, Copy, Debug, PartialEq, Eq, Structural)]
pub struct ClockLayout {
    /// The height of the area above the text.
    pub graph_height: usize,
    /// The clock face's radius.
    pub radius: usize,
    /// The clock face's centre.
    pub center_x: usize,
    pub center_y: usize,
    /// The square cleared before the clock is drawn: its top left corner
    /// and side.
    pub clear_x: usize,
    pub clear_y: usize,
    pub clear_size: usize,
    /// The row of the digital time's label, and the top of the strip cleared
    /// for it.
    pub label_y: usize,
    pub label_clear_y: usize,
}

/// The saturating difference of two numbers.
pub open spec fn sat_sub(a: int, b: int) -> int {
    if a >= b {
        a - b
    } else {
        0
    }
}

/// Where the clock goes on a screen `width` pixels wide whose text starts at
/// row `term_top`: a face of radius half the smaller of the width and the
/// area's height, less 26, but at least 20, centred horizontally 10 pixels
/// below the middle of the area; the label 18 pixels above the area's foot.
pub fn clock_layout(width: usize, term_top: usize) -> (r: ClockLayout)
    requires
        width <= MAX_SCREEN_SIDE,
        term_top <= MAX_SCREEN_SIDE,
    ensures
        r.graph_height == sat_sub(term_top as int, 2),
        r.radius == (if sat_sub(min_int(r.graph_height as int, width as int) / 2, 26) >= 20 {
            sat_sub(min_int(r.graph_height as int, width as int) / 2, 26)
        } else {
            20
        }),
        r.center_x == width / 2,
        r.center_y == r.graph_height / 2 + 10,
        r.clear_x == sat_sub(r.center_x as int, r.radius + 18),
        r.clear_y == sat_sub(r.center_y as int, r.radius + 18),
        r.clear_size == 2 * (r.radius + 18),
        r.label_y == sat_sub(r.graph_height as int, 18),
        r.label_clear_y == sat_sub(r.graph_height as int, 22),
{
    let graph_height = term_top.saturating_sub(2);
    let smaller = if graph_height < width {
        graph_height
    } else {
        width
    };
    let half = (smaller / 2).saturating_sub(26);
    let radius = if half >= 20 {
        half
    } else {
        20
    };
    let center_x = width / 2;
    let center_y = graph_height / 2 + 10;
    let margin = radius + 18;
    ClockLayout {
        graph_height,
        radius,
        center_x,
        center_y,
        clear_x: center_x.saturating_sub(margin),
        clear_y: center_y.saturating_sub(margin),
        clear_size: margin * 2,
        label_y: graph_height.saturating_sub(18),
        label_clear_y: graph_height.saturating_sub(22),
    }
}

/// The hour shown by a clock's hand: on a 12-hour face.
pub fn hand_hour(hour: usize) -> (r: usize)
    ensures
        r == hour % 12,
{
    hour % 12
}

} // verus!
