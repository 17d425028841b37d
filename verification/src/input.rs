//! The kernel's keyboard and serial input buffer, and the editing of a typed
//! line.

use vstd::prelude::*;

use crossbeam_queue::ArrayQueue;

verus! {

/// A key as the input buffer holds it: one byte.
pub type Key = u8;

/// The number of keys that the input buffer holds.
pub const INPUT_CAPACITY: usize = 128;

/// crossbeam's bounded queue `ArrayQueue`, whose contents the names below
/// describe.
#[verifier::external_type_specification]
#[verifier::external_body]
#[verifier::reject_recursive_types(T)]
pub struct ExArrayQueue<T>(ArrayQueue<T>);

/// The keys that a queue holds, oldest first.
pub uninterp spec fn queue_keys(q: ArrayQueue<u8>) -> Seq<u8>;

/// The number of keys that a queue was made to hold.
pub uninterp spec fn queue_capacity(q: ArrayQueue<u8>) -> nat;

/// Calls `ArrayQueue::new`, which makes an empty queue for `cap` items and
/// panics where `cap` is 0.
#[verifier::external_body]
fn array_queue_new(cap: usize) -> (r: ArrayQueue<u8>)
    requires
        cap > 0,
    ensures
        queue_keys(r) == Seq::<u8>::empty(),
        queue_capacity(r) == cap,
{
    ArrayQueue::new(cap)
}

/// Calls `ArrayQueue::push`, which appends `key` unless the queue is full, and
/// then hands `key` back as an error.
#[verifier::external_body]
fn array_queue_push(q: &mut ArrayQueue<u8>, key: u8) -> (r: Result<(), u8>)
    ensures
        r == (if queue_keys(*old(q)).len() < queue_capacity(*old(q)) {
            Ok::<(), u8>(())
        } else {
            Err::<(), u8>(key)
        }),
        queue_keys(*final(q)) == (if r is Ok {
            queue_keys(*old(q)).push(key)
        } else {
            queue_keys(*old(q))
        }),
        queue_capacity(*final(q)) == queue_capacity(*old(q)),
{
    q.push(key)
}

/// Calls `ArrayQueue::pop`, which takes the oldest key out, or yields nothing
/// from an empty queue.
#[verifier::external_body]
fn array_queue_pop(q: &mut ArrayQueue<u8>) -> (r: Option<u8>)
    ensures
        queue_capacity(*final(q)) == queue_capacity(*old(q)),
        queue_keys(*old(q)).len() == 0 ==> r is None,
        queue_keys(*old(q)).len() == 0 ==> queue_keys(*final(q)) == queue_keys(*old(q)),
        queue_keys(*old(q)).len() > 0 ==> r == Some(queue_keys(*old(q))[0]),
        queue_keys(*old(q)).len() > 0 ==> queue_keys(*final(q)) == queue_keys(*old(q)).drop_first(),
{
    q.pop()
}

/// The buffer of keys typed but not yet read.
pub struct InputBuffer {
    queue: ArrayQueue<u8>,
}

impl InputBuffer {
    /// The keys held, oldest first.
    pub closed spec fn keys(&self) -> Seq<u8> {
        queue_keys(self.queue)
    }

    /// The number of keys the buffer holds at most.
    pub closed spec fn capacity(&self) -> nat {
        queue_capacity(self.queue)
    }

    /// An empty buffer for 128 keys.
    pub fn new() -> (r: InputBuffer)
        ensures
            r.keys() == Seq::<u8>::empty(),
            r.capacity() == INPUT_CAPACITY,
    {
        InputBuffer { queue: array_queue_new(INPUT_CAPACITY) }
    }
}

/// Appends `key` to the buffer; a key that finds the buffer full is dropped.
pub fn push_key(buf: &mut InputBuffer, key: Key)
    ensures
        final(buf).capacity() == old(buf).capacity(),
        old(buf).keys().len() < old(buf).capacity() ==> final(buf).keys() == old(buf).keys().push(key),
        old(buf).keys().len() >= old(buf).capacity() ==> final(buf).keys() == old(buf).keys(),
{
    let _ = array_queue_push(&mut buf.queue, key);
}

/// Takes the oldest key out of the buffer, if there is one.
pub fn try_pop_key(buf: &mut InputBuffer) -> (r: Option<Key>)
    ensures
        final(buf).capacity() == old(buf).capacity(),
        old(buf).keys().len() == 0 ==> r is None && final(buf).keys() == old(buf).keys(),
        old(buf).keys().len() > 0 ==> r == Some(old(buf).keys()[0]) && final(buf).keys() == old(
            buf,
        ).keys().drop_first(),
{
    array_queue_pop(&mut buf.queue)
}

/// Takes the oldest key out of the buffer, which must hold one: nothing else
/// can fill a buffer that is borrowed for this call.
pub fn pop_key(buf: &mut InputBuffer) -> (r: Key)
    requires
        old(buf).keys().len() > 0,
    ensures
        r == old(buf).keys()[0],
        final(buf).keys() == old(buf).keys().drop_first(),
        final(buf).capacity() == old(buf).capacity(),
{
    match try_pop_key(buf) {
        Some(k) => k,
        None => 0,
    }
}

/// Puts the byte that the serial port received, if it received one, into
/// the input buffer.
pub fn receive(buf: &mut InputBuffer, received: Option<u8>)
    ensures
        final(buf).capacity() == old(buf).capacity(),
        received is None ==> final(buf).keys() == old(buf).keys(),
        received is Some && old(buf).keys().len() < old(buf).capacity() ==> final(buf).keys()
            == old(buf).keys().push(received->0),
        received is Some && old(buf).keys().len() >= old(buf).capacity() ==> final(buf).keys()
            == old(buf).keys(),
{
    match received {
        Some(key) => push_key(buf, key),
        None => {},
    }
}

/// What the console shows after a key of a line being typed.
#[derive(Clone, Copy, Debug, PartialEq, Eq, Structural)]
pub enum Echo {
    /// The line ends: a new line is shown.
    Newline,
    /// The last character is erased from the screen.
    Erase,
    /// The typed character is shown.
    Show(char),
    /// Nothing is shown.
    Nothing,
}

/// Whether a key erases the last character: backspace or delete.
pub open spec fn is_erase_key(key: u8) -> bool {
    key == 0x08 || key == 0x7f
}

/// One key of a line typed at the kernel console, where `\n` ends the line.
/// Erase keys remove the last character, if any; other keys are added as the
/// character of the same code and shown.
pub fn kernel_line_step(line: &mut Vec<char>, key: Key) -> (r: (bool, Echo))
    ensures
        key == 0x0a ==> r == (true, Echo::Newline) && final(line)@ == old(line)@,
        is_erase_key(key) && old(line)@.len() > 0 ==> r == (false, Echo::Erase) && final(line)@
            == old(line)@.drop_last(),
        is_erase_key(key) && old(line)@.len() == 0 ==> r == (false, Echo::Nothing) && final(line)@
            == old(line)@,
        key != 0x0a && !is_erase_key(key) ==> r == (false, Echo::Show(key as char)) && final(line)@
            == old(line)@.push(key as char),
{
    if key == 0x0a {
        (true, Echo::Newline)
    } else if key == 0x08 || key == 0x7f {
        match line.pop() {
            Some(_) => (false, Echo::Erase),
            None => (false, Echo::Nothing),
        }
    } else {
        let c = key as char;
        line.push(c);
        (false, Echo::Show(c))
    }
}

/// Typing a character and then erasing it leaves a line as it was.
pub proof fn lemma_type_then_erase(line: Seq<char>, c: char)
    ensures
        line.push(c).drop_last() == line,
{
    assert(line.push(c).drop_last() =~= line);
}

} // verus!
