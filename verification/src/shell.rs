//! The user shell's command line: its words and the command they name.

use vstd::prelude::*;

use crate::text::is_unicode_whitespace;

verus! {

/// The state of splitting text into words from left to right: the words
/// completed so far and the one being read.
pub open spec fn split_words(s: Seq<char>) -> (Seq<Seq<char>>, Seq<char>)
    decreases s.len(),
{
    if s.len() == 0 {
        (Seq::empty(), Seq::empty())
    } else {
        let (done, cur) = split_words(s.drop_last());
        if is_unicode_whitespace(s.last()) {
            if cur.len() > 0 {
                (done.push(cur), Seq::empty())
            } else {
                (done, Seq::empty())
            }
        } else {
            (done, cur.push(s.last()))
        }
    }
}

/// The words of a text: its non-empty runs of characters that are not white
/// space, as `str::split_whitespace` yields them.
pub open spec fn spec_words(s: Seq<char>) -> Seq<Seq<char>> {
    let (done, cur) = split_words(s);
    if cur.len() > 0 {
        done.push(cur)
    } else {
        done
    }
}

/// The words being split hold no white space and are not empty.
proof fn lemma_split_words(s: Seq<char>)
    ensures
        forall|i: int| 0 <= i < split_words(s).0.len() ==> (#[trigger] split_words(s).0[i]).len() > 0,
        forall|i: int, j: int|
            0 <= i < split_words(s).0.len() && 0 <= j < split_words(s).0[i].len()
                ==> !is_unicode_whitespace(#[trigger] split_words(s).0[i][j]),
        forall|j: int|
            0 <= j < split_words(s).1.len() ==> !is_unicode_whitespace(#[trigger] split_words(s).1[j]),
    decreases s.len(),
{
    if s.len() > 0 {
        lemma_split_words(s.drop_last());
        let (done, cur) = split_words(s.drop_last());
        if !is_unicode_whitespace(s.last()) {
            assert forall|j: int| 0 <= j < cur.push(s.last()).len() implies !is_unicode_whitespace(
                #[trigger] cur.push(s.last())[j],
            ) by {
                if j < cur.len() {
                    assert(cur.push(s.last())[j] == cur[j]);
                }
            }
        }
    }
}

/// Every word of a text is non-empty and holds no white space.
pub proof fn lemma_words_are_words(s: Seq<char>)
    ensures
        forall|i: int| 0 <= i < spec_words(s).len() ==> (#[trigger] spec_words(s)[i]).len() > 0,
        forall|i: int, j: int|
            0 <= i < spec_words(s).len() && 0 <= j < spec_words(s)[i].len()
                ==> !is_unicode_whitespace(#[trigger] spec_words(s)[i][j]),
{
    lemma_split_words(s);
    let (done, cur) = split_words(s);
    if cur.len() > 0 {
        let w = done.push(cur);
        assert forall|i: int| 0 <= i < w.len() implies (#[trigger] w[i]).len() > 0 by {
            if i < done.len() {
                assert(w[i] == done[i]);
            }
        }
        assert forall|i: int, j: int| 0 <= i < w.len() && 0 <= j < w[i].len() implies !is_unicode_whitespace(
            #[trigger] w[i][j],
        ) by {
            if i < done.len() {
                assert(w[i] == done[i]);
            } else {
                assert(w[i] == cur);
            }
        }
    }
}

/// Whether a character is white space, as `char::is_whitespace` says.
fn is_whitespace(c: char) -> (r: bool)
    ensures
        r == is_unicode_whitespace(c),
{
    let v = c as u32;
    (0x09 <= v && v <= 0x0D) || v == 0x20 || v == 0x85 || v == 0xA0 || v == 0x1680 || (0x2000 <= v
        && v <= 0x200A) || v == 0x2028 || v == 0x2029 || v == 0x202F || v == 0x205F || v == 0x3000
}

/// The words of `line`.
pub fn words<'a>(line: &'a str) -> (r: Vec<&'a str>)
    ensures
        r@.len() == spec_words(line@).len(),
        forall|i: int| 0 <= i < r@.len() ==> (#[trigger] r@[i])@ == spec_words(line@)[i],
{
    let len = line.unicode_len();
    let mut parts: Vec<&'a str> = Vec::new();
    let mut start: usize = 0;
    let mut i: usize = 0;
    while i < len
        invariant
            len == line@.len(),
            start <= i <= len,
            split_words(line@.take(i as int)).1 == line@.subrange(start as int, i as int),
            parts@.len() == split_words(line@.take(i as int)).0.len(),
            forall|j: int|
                0 <= j < parts@.len() ==> (#[trigger] parts@[j])@ == split_words(
                    line@.take(i as int),
                ).0[j],
        decreases len - i,
    {
        let c = line.get_char(i);
        assert(line@.take(i + 1).drop_last() =~= line@.take(i as int));
        assert(line@.take(i + 1).last() == c);
        if is_whitespace(c) {
            if start < i {
                let part = line.substring_char(start, i);
                let ghost prev_parts = parts@;
                parts.push(part);
                proof {
                    assert forall|j: int|
                        0 <= j < parts@.len() implies (#[trigger] parts@[j])@ == split_words(
                        line@.take(i + 1),
                    ).0[j] by {
                        if j < parts@.len() - 1 {
                            assert(parts@[j] == prev_parts[j]);
                        }
                    }
                }
            }
            start = i + 1;
            assert(line@.subrange(start as int, i + 1) =~= Seq::<char>::empty());
        } else {
            assert(line@.subrange(start as int, i + 1) =~= line@.subrange(start as int, i as int).push(
                c,
            ));
        }
        i = i + 1;
    }
    assert(line@.take(len as int) =~= line@);
    if start < len {
        let part = line.substring_char(start, len);
        parts.push(part);
    }
    parts
}

/// Whether two texts are equal.
pub fn text_eq(a: &str, b: &str) -> (r: bool)
    ensures
        r == (a@ == b@),
{
    let n = a.unicode_len();
    if n != b.unicode_len() {
        return false;
    }
    let mut i: usize = 0;
    while i < n
        invariant
            n == a@.len(),
            n == b@.len(),
            i <= n,
            forall|j: int| 0 <= j < i ==> a@[j] == b@[j],
        decreases n - i,
    {
        if a.get_char(i) != b.get_char(i) {
            return false;
        }
        i = i + 1;
    }
    assert(a@ =~= b@);
    true
}

/// A command of the shell.
#[derive(Clone, Copy, Debug)]
pub enum Command<'a> {
    /// A blank line.
    Empty,
    /// `help`: show the commands.
    Help,
    /// `list`: list the programs.
    List,
    /// `ls [path]`: list a directory, `/` by default.
    Ls(&'a str),
    /// `cat <path>`: print a file; `None` where the path is missing.
    Cat(Option<&'a str>),
    /// `ps` or `stat`: show the processes.
    Stat,
    /// `run <path>`: run a program and wait for it; `None` where the path is
    /// missing.
    Run(Option<&'a str>),
    /// `exit`: leave the shell.
    Exit,
    /// Any other first word.
    Unknown(&'a str),
}

/// The command that a line of the shell names: by its first word, with the
/// second word as its argument; words after those are ignored.
pub fn parse_command<'a>(line: &'a str) -> (r: Command<'a>)
    ensures
        spec_words(line@).len() == 0 ==> r == Command::Empty,
        spec_words(line@).len() > 0 ==> ({
            let w = spec_words(line@);
            let cmd = w[0];
            &&& cmd == "help"@ ==> r == Command::Help
            &&& cmd == "list"@ ==> r == Command::List
            &&& cmd == "ls"@ ==> (r matches Command::Ls(p) && (if w.len() > 1 {
                p@ == w[1]
            } else {
                p@ == "/"@
            }))
            &&& cmd == "cat"@ ==> (r matches Command::Cat(p) && (if w.len() > 1 {
                p matches Some(q) && q@ == w[1]
            } else {
                p is None
            }))
            &&& (cmd == "ps"@ || cmd == "stat"@) ==> r == Command::Stat
            &&& cmd == "run"@ ==> (r matches Command::Run(p) && (if w.len() > 1 {
                p matches Some(q) && q@ == w[1]
            } else {
                p is None
            }))
            &&& cmd == "exit"@ ==> r == Command::Exit
            &&& (cmd != "help"@ && cmd != "list"@ && cmd != "ls"@ && cmd != "cat"@ && cmd != "ps"@
                && cmd != "stat"@ && cmd != "run"@ && cmd != "exit"@) ==> (r matches Command::Unknown(
                c,
            ) && c@ == cmd)
        }),
{
    proof {
        reveal_strlit("help");
        reveal_strlit("list");
        reveal_strlit("ls");
        reveal_strlit("cat");
        reveal_strlit("ps");
        reveal_strlit("stat");
        reveal_strlit("run");
        reveal_strlit("exit");
        assert("help"@[0] == 'h' && "list"@[0] == 'l' && "ls"@[0] == 'l' && "cat"@[0] == 'c');
        assert("ps"@[0] == 'p' && "stat"@[0] == 's' && "run"@[0] == 'r' && "exit"@[0] == 'e');
        assert("list"@.len() == 4 && "ls"@.len() == 2);
    }
    let w = words(line);
    if w.len() == 0 {
        return Command::Empty;
    }
    let cmd = w[0];
    let arg: Option<&'a str> = if w.len() > 1 {
        Some(w[1])
    } else {
        None
    };
    if text_eq(cmd, "help") {
        Command::Help
    } else if text_eq(cmd, "list") {
        Command::List
    } else if text_eq(cmd, "ls") {
        match arg {
            Some(p) => Command::Ls(p),
            None => Command::Ls("/"),
        }
    } else if text_eq(cmd, "cat") {
        Command::Cat(arg)
    } else if text_eq(cmd, "ps") || text_eq(cmd, "stat") {
        Command::Stat
    } else if text_eq(cmd, "run") {
        Command::Run(arg)
    } else if text_eq(cmd, "exit") {
        Command::Exit
    } else {
        Command::Unknown(cmd)
    }
}

} // verus!
