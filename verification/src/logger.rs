//! The kernel logger's level, read from the boot configuration.

use vstd::prelude::*;

verus! {

/// The most detailed level of log records that are shown.
#[derive(Clone, Copy, Debug, PartialEq, Eq, Structural)]
pub enum LogLevel {
    Off,
    Error,
    Warn,
    Info,
    Debug,
    Trace,
}

/// The ASCII lower case of a byte; other bytes stay as they are.
pub open spec fn ascii_lower(b: u8) -> u8 {
    if 0x41 <= b <= 0x5A {
        (b + 0x20) as u8
    } else {
        b
    }
}

/// Whether two byte strings are equal but for ASCII case.
pub open spec fn eq_ignore_ascii_case(a: Seq<u8>, b: Seq<u8>) -> bool {
    &&& a.len() == b.len()
    &&& forall|i: int| 0 <= i < a.len() ==> ascii_lower(#[trigger] a[i]) == ascii_lower(b[i])
}

/// The length of the text in a zero-padded field: up to its first zero byte.
pub open spec fn field_text_len(raw: Seq<u8>) -> int
    decreases raw.len(),
{
    if raw.len() == 0 {
        0
    } else if raw[0] == 0 {
        0
    } else {
        1 + field_text_len(raw.drop_first())
    }
}

/// The level that a name stands for, ignoring ASCII case: "off", "error",
/// "warn", "debug" and "trace" name theirs; anything else means `Info`.
pub open spec fn spec_level_of_name(name: Seq<u8>) -> LogLevel {
    if eq_ignore_ascii_case(name, seq![0x6fu8, 0x66, 0x66]) {
        LogLevel::Off
    } else if eq_ignore_ascii_case(name, seq![0x65u8, 0x72, 0x72, 0x6f, 0x72]) {
        LogLevel::Error
    } else if eq_ignore_ascii_case(name, seq![0x77u8, 0x61, 0x72, 0x6e]) {
        LogLevel::Warn
    } else if eq_ignore_ascii_case(name, seq![0x64u8, 0x65, 0x62, 0x75, 0x67]) {
        LogLevel::Debug
    } else if eq_ignore_ascii_case(name, seq![0x74u8, 0x72, 0x61, 0x63, 0x65]) {
        LogLevel::Trace
    } else {
        LogLevel::Info
    }
}

/// The ASCII lower case of a byte.
fn to_ascii_lower(b: u8) -> (r: u8)
    ensures
        r == ascii_lower(b),
{
    if 0x41 <= b && b <= 0x5A {
        b + 0x20
    } else {
        b
    }
}

/// Whether `text[..len]` equals `word` but for ASCII case.
fn text_eq_ignore_case(text: &[u8], len: usize, word: &[u8]) -> (r: bool)
    requires
        len <= text@.len(),
    ensures
        r == eq_ignore_ascii_case(text@.take(len as int), word@),
{
    if len != word.len() {
        return false;
    }
    let mut i: usize = 0;
    while i < len
        invariant
            len <= text@.len(),
            len == word@.len(),
            i <= len,
            forall|j: int| 0 <= j < i ==> ascii_lower(#[trigger] text@[j]) == ascii_lower(word@[j]),
        decreases len - i,
    {
        if to_ascii_lower(text[i]) != to_ascii_lower(word[i]) {
            assert(text@.take(len as int)[i as int] == text@[i as int]);
            return false;
        }
        i = i + 1;
    }
    assert forall|j: int| 0 <= j < len implies ascii_lower(#[trigger] text@.take(len as int)[j])
        == ascii_lower(word@[j]) by {
        assert(text@.take(len as int)[j] == text@[j]);
    }
    true
}

/// Where a field's text ends: its first zero byte, or its end.
fn field_len(raw: &[u8]) -> (r: usize)
    ensures
        r == field_text_len(raw@),
{
    let mut i: usize = 0;
    assert(raw@.skip(0) =~= raw@);
    while i < raw.len()
        invariant
            i <= raw@.len(),
            forall|j: int| 0 <= j < i ==> raw@[j] != 0,
            field_text_len(raw@) == i + field_text_len(raw@.skip(i as int)),
        decreases raw.len() - i,
    {
        assert(raw@.skip(i as int).drop_first() =~= raw@.skip(i + 1));
        if raw[i] == 0 {
            return i;
        }
        i = i + 1;
    }
    assert(raw@.skip(i as int).len() == 0);
    i
}

/// The level named by the zero-padded field `raw` of the boot configuration.
pub fn parse_level_filter(raw: &[u8; 16]) -> (r: LogLevel)
    ensures
        r == spec_level_of_name(raw@.take(field_text_len(raw@))),
{
    let text = raw.as_slice();
    let len = field_len(text);
    assert(len <= 16) by {
        lemma_field_text_len_bound(raw@);
    }
    if text_eq_ignore_case(text, len, &[0x6fu8, 0x66, 0x66]) {
        LogLevel::Off
    } else if text_eq_ignore_case(text, len, &[0x65u8, 0x72, 0x72, 0x6f, 0x72]) {
        LogLevel::Error
    } else if text_eq_ignore_case(text, len, &[0x77u8, 0x61, 0x72, 0x6e]) {
        LogLevel::Warn
    } else if text_eq_ignore_case(text, len, &[0x64u8, 0x65, 0x62, 0x75, 0x67]) {
        LogLevel::Debug
    } else if text_eq_ignore_case(text, len, &[0x74u8, 0x72, 0x61, 0x63, 0x65]) {
        LogLevel::Trace
    } else {
        LogLevel::Info
    }
}

/// A field's text is no longer than the field.
pub proof fn lemma_field_text_len_bound(raw: Seq<u8>)
    ensures
        0 <= field_text_len(raw) <= raw.len(),
    decreases raw.len(),
{
    if raw.len() > 0 && raw[0] != 0 {
        lemma_field_text_len_bound(raw.drop_first());
    }
}

/// The bytes of a name, ASCII lower-cased.
pub open spec fn lower_bytes(name: Seq<u8>) -> Seq<u8> {
    Seq::new(name.len(), |i: int| ascii_lower(name[i]))
}

/// Level names ignore ASCII case: a name stands for the level that its
/// lower-cased form stands for.
pub proof fn lemma_level_name_ignores_case(name: Seq<u8>)
    ensures
        spec_level_of_name(lower_bytes(name)) == spec_level_of_name(name),
{
    let l = lower_bytes(name);
    assert forall|w: Seq<u8>| eq_ignore_ascii_case(l, w) == eq_ignore_ascii_case(name, w) by {
        if l.len() == w.len() {
            assert forall|i: int| 0 <= i < l.len() implies ascii_lower(#[trigger] l[i]) == ascii_lower(
                name[i],
            ) by {
                assert(l[i] == ascii_lower(name[i]));
            }
            if eq_ignore_ascii_case(l, w) {
                assert forall|i: int| 0 <= i < name.len() implies ascii_lower(#[trigger] name[i])
                    == ascii_lower(w[i]) by {
                    assert(ascii_lower(l[i]) == ascii_lower(w[i]));
                    assert(l[i] == ascii_lower(name[i]));
                }
            }
            if eq_ignore_ascii_case(name, w) {
                assert forall|i: int| 0 <= i < l.len() implies ascii_lower(#[trigger] l[i])
                    == ascii_lower(w[i]) by {
                    assert(ascii_lower(name[i]) == ascii_lower(w[i]));
                    assert(l[i] == ascii_lower(name[i]));
                }
            }
        }
    }
}

} // verus!
