//! Directory entries of FAT16 in the standard 8.3 format.

use vstd::prelude::*;

use crate::error::{FilenameError, FsError, FsResult};
use crate::time::{parse_datetime, spec_parse_datetime, FsTime};
use crate::text::{is_unicode_whitespace, spec_trim_end, str_from_utf8, trim_end};
use vstd::utf8::{
    decode_utf8, encode_utf8, encode_utf8_decode_utf8, encode_utf8_valid_utf8, is_ascii_chars, is_ascii_chars_encode_utf8,
    valid_utf8,
};
use vstd::string::StringSliceAdditionalSpecFns;

verus! {

/// The length in bytes of one directory entry.
pub const DIR_ENTRY_LEN: usize = 0x20;

/// Magic cluster value: an invalid cluster.
pub const CLUSTER_INVALID: u32 = 0xFFFF_FFF6;

/// Magic cluster value: a bad cluster.
pub const CLUSTER_BAD: u32 = 0xFFFF_FFF7;

/// Magic cluster value: an empty (free) cluster.
pub const CLUSTER_EMPTY: u32 = 0x0000_0000;

/// Magic cluster value: the cluster holding the root directory, which has no
/// number in FAT16 as it lives in a reserved region.
pub const CLUSTER_ROOT_DIR: u32 = 0xFFFF_FFFC;

/// Magic cluster value: the final cluster of a file.
pub const CLUSTER_END_OF_FILE: u32 = 0xFFFF_FFFF;

/// A cluster number.
#[derive(Clone, Copy, PartialEq, Eq, Debug, Structural)]
pub struct Cluster(pub u32);

impl Cluster {
    /// The cluster `rhs` clusters after this one.
    pub fn add(self, rhs: u32) -> (r: Cluster)
        requires
            self.0 + rhs <= u32::MAX,
        ensures
            r.0 == self.0 + rhs,
    {
        Cluster(self.0 + rhs)
    }

    /// Moves this cluster `rhs` clusters forward.
    pub fn add_assign(&mut self, rhs: u32)
        requires
            old(self).0 + rhs <= u32::MAX,
        ensures
            final(self).0 == old(self).0 + rhs,
    {
        self.0 = self.0 + rhs;
    }

    /// The cluster number in the form `0x` followed by eight upper-case hex digits.
    pub fn to_hex_string(&self) -> (r: String)
        ensures
            r@ == seq!['0', 'x'] + spec_hex8(self.0),
    {
        let mut bytes: Vec<u8> = Vec::new();
        bytes.push(0x30);
        bytes.push(0x78);
        let mut i: u32 = 0;
        while i < 8
            invariant
                i <= 8,
                bytes@.len() == 2 + i,
                bytes@[0] == 0x30u8,
                bytes@[1] == 0x78u8,
                forall|k: int| 0 <= k < bytes@.len() ==> bytes@[k] < 0x80,
                forall|k: int| 0 <= k < i ==> bytes@[2 + k] == hex_digit_byte(nibble(self.0, k)),
            decreases 8 - i,
        {
            let shift = (7 - i) * 4;
            let nib: u32 = (self.0 >> shift) & 0xF;
            assert(nib == nibble(self.0, i as int));
            let v = self.0;
            assert(((v >> shift) & 0xFu32) <= 15u32) by (bit_vector);
            let b: u8 = if nib < 10 {
                (0x30 + nib) as u8
            } else {
                (0x41 + nib - 10) as u8
            };
            bytes.push(b);
            i = i + 1;
        }
        proof {
            ascii_bytes_decode(bytes@);
        }
        let s = str_from_utf8(bytes.as_slice()).unwrap();
        let r = String::from_str(s);
        assert(r@ =~= seq!['0', 'x'] + spec_hex8(self.0));
        r
    }
}

/// The value of the hex digit at position `k` (0 the most significant) of `v`.
pub open spec fn nibble(v: u32, k: int) -> u32 {
    (v >> (((7 - k) * 4) as u32)) & 0xF
}

/// The ASCII byte of a hex digit, upper case.
pub open spec fn hex_digit_byte(d: u32) -> u8 {
    if d < 10 {
        (0x30 + d) as u8
    } else {
        (0x41 + d - 10) as u8
    }
}

/// The eight upper-case hex digits of `v`.
pub open spec fn spec_hex8(v: u32) -> Seq<char> {
    Seq::new(8, |k: int| hex_digit_byte(nibble(v, k)) as char)
}

/// ASCII bytes decode as UTF-8 to the characters of the same codes.
pub proof fn ascii_bytes_decode(bytes: Seq<u8>)
    requires
        forall|i: int| 0 <= i < bytes.len() ==> bytes[i] < 0x80,
    ensures
        valid_utf8(bytes),
        decode_utf8(bytes) =~= Seq::new(bytes.len(), |i: int| bytes[i] as char),
{
    let chars = Seq::new(bytes.len(), |i: int| bytes[i] as char);
    assert(vstd::utf8::is_ascii_chars(chars));
    vstd::utf8::is_ascii_chars_encode_utf8(chars);
    assert(vstd::utf8::encode_utf8(chars) =~= bytes);
    vstd::utf8::encode_utf8_valid_utf8(chars);
    vstd::utf8::encode_utf8_decode_utf8(chars);
}

/// File attributes of a directory entry.
#[derive(Clone, Copy, PartialEq, Eq, Debug, Hash, Structural)]
pub struct Attributes {
    bits: u8,
}

/// Attribute bit: read only.
pub const ATTR_READ_ONLY: u8 = 0x01;

/// Attribute bit: hidden.
pub const ATTR_HIDDEN: u8 = 0x02;

/// Attribute bit: system file.
pub const ATTR_SYSTEM: u8 = 0x04;

/// Attribute bit: volume label.
pub const ATTR_VOLUME_ID: u8 = 0x08;

/// Attribute bit: directory.
pub const ATTR_DIRECTORY: u8 = 0x10;

/// Attribute bit: archive.
pub const ATTR_ARCHIVE: u8 = 0x20;

/// Attribute value of a long-file-name entry.
pub const ATTR_LFN: u8 = 0x0f;

/// The union of all known attribute bits.
pub const ATTR_ALL: u8 = 0x3f;

impl Attributes {
    /// The attribute bits.
    pub closed spec fn spec_bits(&self) -> u8 {
        self.bits
    }

    /// The attributes of `bits`, with the bits that name no attribute dropped.
    pub fn from_bits_truncate(bits: u8) -> (r: Attributes)
        ensures
            r.spec_bits() == bits & ATTR_ALL,
    {
        Attributes { bits: bits & ATTR_ALL }
    }

    /// The attributes whose bits are exactly `bits`, where all of them are known.
    pub fn from_bits(bits: u8) -> (r: Option<Attributes>)
        ensures
            r is Some <==> bits & ATTR_ALL == bits,
            r is Some ==> r->0.spec_bits() == bits,
    {
        if bits & ATTR_ALL == bits {
            Some(Attributes { bits })
        } else {
            None
        }
    }

    /// The attribute bits.
    pub fn bits(&self) -> (r: u8)
        ensures
            r == self.spec_bits(),
    {
        self.bits
    }

    /// Whether every bit of `mask` is set.
    pub fn contains(&self, mask: u8) -> (r: bool)
        ensures
            r == (self.spec_bits() & mask == mask),
    {
        self.bits & mask == mask
    }
}

/// A short file name: an 8-byte base and a 3-byte extension, padded with spaces.
#[derive(Clone, Copy, Debug)]
pub struct ShortFileName {
    pub name: [u8; 8],
    pub ext: [u8; 3],
}

/// Whether a byte may not stand in a short file name.
pub open spec fn spec_is_invalid_sfn_char(byte: u8) -> bool {
    byte <= 0x20 || byte == 0x22 || byte == 0x2A || byte == 0x2B || byte == 0x2C || byte == 0x2F
        || byte == 0x3A || byte == 0x3B || byte == 0x3C || byte == 0x3D || byte == 0x3E || byte
        == 0x3F || byte == 0x5B || byte == 0x5C || byte == 0x5D || byte == 0x7C
}

/// The ASCII upper case of a byte; other bytes are kept.
pub open spec fn spec_ascii_upper(byte: u8) -> u8 {
    if 0x61 <= byte <= 0x7a {
        (byte - 32) as u8
    } else {
        byte
    }
}

/// Whether a byte may not stand in a short file name.
pub fn is_invalid_sfn_char(byte: u8) -> (r: bool)
    ensures
        r == spec_is_invalid_sfn_char(byte),
{
    byte <= 0x20 || byte == 0x22 || byte == 0x2A || byte == 0x2B || byte == 0x2C || byte == 0x2F
        || byte == 0x3A || byte == 0x3B || byte == 0x3C || byte == 0x3D || byte == 0x3E || byte
        == 0x3F || byte == 0x5B || byte == 0x5C || byte == 0x5D || byte == 0x7C
}

fn ascii_upper(byte: u8) -> (r: u8)
    ensures
        r == spec_ascii_upper(byte),
{
    if 0x61 <= byte && byte <= 0x7a {
        byte - 32
    } else {
        byte
    }
}

/// The state of reading a short file name from left to right: whether the
/// period was seen, and the base and extension bytes read so far.
pub struct SfnScan {
    pub in_ext: bool,
    pub base: Seq<u8>,
    pub ext: Seq<u8>,
}

/// One byte of a name given to [`ShortFileName::parse`].
pub open spec fn sfn_step(st: SfnScan, byte: u8) -> Result<SfnScan, FilenameError> {
    if byte == 0x2e {
        if st.in_ext || st.base.len() == 0 || st.base.len() > 8 {
            Err(FilenameError::MisplacedPeriod)
        } else {
            Ok(SfnScan { in_ext: true, ..st })
        }
    } else if spec_is_invalid_sfn_char(byte) {
        Err(FilenameError::InvalidCharacter)
    } else if st.in_ext {
        if st.ext.len() >= 3 {
            Err(FilenameError::NameTooLong)
        } else {
            Ok(SfnScan { ext: st.ext.push(spec_ascii_upper(byte)), ..st })
        }
    } else if st.base.len() >= 8 {
        Err(FilenameError::NameTooLong)
    } else {
        Ok(SfnScan { base: st.base.push(spec_ascii_upper(byte)), ..st })
    }
}

/// The scan state after all of `bytes`, or the first error met.
pub open spec fn sfn_scan(bytes: Seq<u8>) -> Result<SfnScan, FilenameError>
    decreases bytes.len(),
{
    if bytes.len() == 0 {
        Ok(SfnScan { in_ext: false, base: Seq::empty(), ext: Seq::empty() })
    } else {
        match sfn_scan(bytes.drop_last()) {
            Ok(st) => sfn_step(st, bytes.last()),
            Err(e) => Err(e),
        }
    }
}

/// `s` followed by spaces up to `n` bytes.
pub open spec fn pad_spaces(s: Seq<u8>, n: nat) -> Seq<u8> {
    Seq::new(n, |i: int| if i < s.len() { s[i] } else { 0x20u8 })
}

/// The result of [`ShortFileName::parse`] on the bytes of a name: each byte is
/// upper-cased (ASCII), the base (up to 8 bytes) and the extension after a
/// period (up to 3 bytes) are padded with spaces.
pub open spec fn spec_parse_sfn(bytes: Seq<u8>) -> Result<(Seq<u8>, Seq<u8>), FilenameError> {
    if bytes.len() == 0 {
        Err(FilenameError::FilenameEmpty)
    } else {
        match sfn_scan(bytes) {
            Err(e) => Err(e),
            Ok(st) => if st.base.len() == 0 {
                Err(FilenameError::FilenameEmpty)
            } else {
                Ok((pad_spaces(st.base, 8), pad_spaces(st.ext, 3)))
            },
        }
    }
}

/// The displayed form of a short file name whose parts decode as UTF-8: the
/// base without trailing white space, then, where the extension does not
/// start with a space, a period and the extension without trailing white space.
pub open spec fn spec_display_sfn(name: Seq<u8>, ext: Seq<u8>) -> Seq<char> {
    if ext[0] == 0x20 {
        spec_trim_end(decode_utf8(name))
    } else {
        spec_trim_end(decode_utf8(name)) + seq!['.'] + spec_trim_end(decode_utf8(ext))
    }
}

proof fn lemma_sfn_scan_bounds(bytes: Seq<u8>)
    ensures
        sfn_scan(bytes) matches Ok(st) ==> st.base.len() <= 8 && st.ext.len() <= 3 && (
        st.ext.len() > 0 ==> st.in_ext),
    decreases bytes.len(),
{
    if bytes.len() > 0 {
        lemma_sfn_scan_bounds(bytes.drop_last());
    }
}

proof fn lemma_sfn_scan_err_extends(bytes: Seq<u8>, k: int)
    requires
        0 <= k <= bytes.len(),
        sfn_scan(bytes.take(k)) is Err,
    ensures
        sfn_scan(bytes) == sfn_scan(bytes.take(k)),
    decreases bytes.len() - k,
{
    if k < bytes.len() {
        assert(bytes.take(k + 1).drop_last() =~= bytes.take(k));
        lemma_sfn_scan_err_extends(bytes, k + 1);
    } else {
        assert(bytes.take(k) =~= bytes);
    }
}

/// The bytes of a name, ASCII upper-cased.
pub open spec fn upper_bytes(bytes: Seq<u8>) -> Seq<u8> {
    Seq::new(bytes.len(), |i: int| spec_ascii_upper(bytes[i]))
}

/// Upper-casing a byte first changes nothing of a scan step.
proof fn lemma_sfn_step_ignores_case(st: SfnScan, byte: u8)
    ensures
        sfn_step(st, spec_ascii_upper(byte)) == sfn_step(st, byte),
{
    assert(spec_ascii_upper(spec_ascii_upper(byte)) == spec_ascii_upper(byte));
}

/// Upper-casing a name first changes nothing of its scan.
proof fn lemma_sfn_scan_ignores_case(bytes: Seq<u8>)
    ensures
        sfn_scan(upper_bytes(bytes)) == sfn_scan(bytes),
    decreases bytes.len(),
{
    if bytes.len() > 0 {
        let u = upper_bytes(bytes);
        assert(u.drop_last() =~= upper_bytes(bytes.drop_last()));
        lemma_sfn_scan_ignores_case(bytes.drop_last());
        match sfn_scan(bytes.drop_last()) {
            Ok(st) => {
                lemma_sfn_step_ignores_case(st, bytes.last());
            },
            Err(_) => {},
        }
    }
}

/// Short file names ignore ASCII case: a name parses as its upper-cased form
/// does, to the same name or the same error.
pub proof fn lemma_parse_sfn_ignores_case(bytes: Seq<u8>)
    ensures
        spec_parse_sfn(upper_bytes(bytes)) == spec_parse_sfn(bytes),
{
    lemma_sfn_scan_ignores_case(bytes);
}

/// A byte that a short name may hold, as the 8.3 format lists them: an ASCII
/// letter or digit, one of `! # $ % & ' ( ) - @ ^ _ ` { } ~`, DEL, or any
/// byte above 0x7F.
pub open spec fn sfn_allowed_byte(b: u8) -> bool {
    ||| 0x41 <= b <= 0x5A
    ||| 0x61 <= b <= 0x7A
    ||| 0x30 <= b <= 0x39
    ||| b == 0x21 || b == 0x23 || b == 0x24 || b == 0x25 || b == 0x26 || b == 0x27
    ||| b == 0x28 || b == 0x29 || b == 0x2D || b == 0x40 || b == 0x5E || b == 0x5F
    ||| b == 0x60 || b == 0x7B || b == 0x7D || b == 0x7E
    ||| b >= 0x7F
}

/// Every byte of `b` may stand in a short name.
pub open spec fn all_sfn_allowed(b: Seq<u8>) -> bool {
    forall|i: int| 0 <= i < b.len() ==> sfn_allowed_byte(#[trigger] b[i])
}

proof fn lemma_scan_base(b: Seq<u8>)
    requires
        b.len() <= 8,
        all_sfn_allowed(b),
    ensures
        sfn_scan(b) matches Ok(st) && !st.in_ext && st.base == upper_bytes(b) && st.ext.len() == 0,
    decreases b.len(),
{
    if b.len() == 0 {
        assert(upper_bytes(b) =~= Seq::<u8>::empty());
    } else {
        let p = b.drop_last();
        assert forall|i: int| 0 <= i < p.len() implies sfn_allowed_byte(#[trigger] p[i]) by {
            assert(p[i] == b[i]);
        }
        lemma_scan_base(p);
        assert(sfn_allowed_byte(b[b.len() - 1]));
        assert(upper_bytes(b) =~= upper_bytes(p).push(spec_ascii_upper(b.last())));
    }
}

proof fn lemma_scan_ext(base: Seq<u8>, ext: Seq<u8>)
    requires
        1 <= base.len() <= 8,
        ext.len() <= 3,
        all_sfn_allowed(base),
        all_sfn_allowed(ext),
    ensures
        sfn_scan(base + seq![0x2eu8] + ext) matches Ok(st) && st.in_ext && st.base == upper_bytes(
            base,
        ) && st.ext == upper_bytes(ext),
    decreases ext.len(),
{
    let w = base + seq![0x2eu8] + ext;
    if ext.len() == 0 {
        lemma_scan_base(base);
        assert(w.drop_last() =~= base);
        assert(w.last() == 0x2eu8);
        assert(upper_bytes(ext) =~= Seq::<u8>::empty());
    } else {
        let e = ext.drop_last();
        assert forall|i: int| 0 <= i < e.len() implies sfn_allowed_byte(#[trigger] e[i]) by {
            assert(e[i] == ext[i]);
        }
        lemma_scan_ext(base, e);
        assert(w.drop_last() =~= base + seq![0x2eu8] + e);
        assert(w.last() == ext.last());
        assert(sfn_allowed_byte(ext[ext.len() - 1]));
        assert(upper_bytes(ext) =~= upper_bytes(e).push(spec_ascii_upper(ext.last())));
    }
}

/// Which names parse: a base of 1 to 8 bytes that a short name may hold, with
/// no extension or with a period and an extension of at most 3 such bytes,
/// parses to its bytes upper-cased and padded with spaces; a byte that a short
/// name may not hold (other than the period) is refused as an invalid
/// character.
pub proof fn lemma_sfn_accepts_allowed_bytes(base: Seq<u8>, ext: Seq<u8>, bad: u8)
    requires
        1 <= base.len() <= 8,
        ext.len() <= 3,
        all_sfn_allowed(base),
        all_sfn_allowed(ext),
    ensures
        spec_parse_sfn(base) == Ok::<(Seq<u8>, Seq<u8>), FilenameError>(
            (pad_spaces(upper_bytes(base), 8), pad_spaces(Seq::empty(), 3)),
        ),
        spec_parse_sfn(base + seq![0x2eu8] + ext) == Ok::<(Seq<u8>, Seq<u8>), FilenameError>(
            (pad_spaces(upper_bytes(base), 8), pad_spaces(upper_bytes(ext), 3)),
        ),
        !sfn_allowed_byte(bad) && bad != 0x2e ==> spec_parse_sfn(seq![bad])
            == Err::<(Seq<u8>, Seq<u8>), FilenameError>(FilenameError::InvalidCharacter),
{
    lemma_scan_base(base);
    lemma_scan_ext(base, ext);
    let one = seq![bad];
    assert(one.drop_last() =~= Seq::<u8>::empty());
    assert(one.last() == bad);
    if !sfn_allowed_byte(bad) && bad != 0x2e {
        assert(spec_is_invalid_sfn_char(bad));
        assert(sfn_scan(one.drop_last()) matches Ok(st0) && !st0.in_ext && st0.base.len() == 0);
        assert(sfn_scan(one) == Err::<SfnScan, FilenameError>(FilenameError::InvalidCharacter));
    }
    let st = sfn_scan(base)->Ok_0;
    assert(st.ext =~= Seq::<u8>::empty());
    assert(upper_bytes(base).len() == base.len());
}

/// The ASCII upper case of a character; other characters are kept.
pub open spec fn spec_char_upper(c: char) -> char {
    if 'a' <= c && c <= 'z' {
        ((c as u32) - 32) as char
    } else {
        c
    }
}

/// A text, ASCII upper-cased.
pub open spec fn upper_chars(s: Seq<char>) -> Seq<char> {
    Seq::new(s.len(), |i: int| spec_char_upper(s[i]))
}

/// The characters of ASCII bytes.
spec fn ascii_text(b: Seq<u8>) -> Seq<char> {
    Seq::new(b.len(), |i: int| b[i] as char)
}

/// `k` spaces.
spec fn spaces(k: nat) -> Seq<char> {
    Seq::new(k, |i: int| ' ')
}

/// Bytes that a scan keeps in a base or an extension of an ASCII name: ASCII,
/// above the space and no period.
spec fn kept_name_bytes(b: Seq<u8>) -> bool {
    forall|i: int| 0 <= i < b.len() ==> 0x20 < #[trigger] b[i] < 0x80 && b[i] != 0x2e
}

/// What a successful scan of ASCII bytes keeps: the upper-cased bytes are the
/// base, then a period and the extension where a period was read.
proof fn lemma_sfn_scan_shape(b: Seq<u8>)
    requires
        forall|i: int| 0 <= i < b.len() ==> #[trigger] b[i] < 0x80,
    ensures
        sfn_scan(b) matches Ok(st) ==> {
            &&& upper_bytes(b) == (if st.in_ext {
                st.base + seq![0x2eu8] + st.ext
            } else {
                st.base
            })
            &&& kept_name_bytes(st.base)
            &&& kept_name_bytes(st.ext)
            &&& (!st.in_ext ==> st.ext.len() == 0)
        },
    decreases b.len(),
{
    if b.len() == 0 {
        assert(upper_bytes(b) =~= Seq::<u8>::empty());
    } else {
        let p = b.drop_last();
        let x = b.last();
        assert forall|i: int| 0 <= i < p.len() implies #[trigger] p[i] < 0x80 by {
            assert(p[i] == b[i]);
        }
        lemma_sfn_scan_shape(p);
        assert(upper_bytes(b) =~= upper_bytes(p).push(spec_ascii_upper(x)));
        if let Ok(st) = sfn_scan(p) {
            if let Ok(st2) = sfn_step(st, x) {
                let y = spec_ascii_upper(x);
                if x == 0x2e {
                    assert(st.base + seq![0x2eu8] + st2.ext =~= st.base.push(0x2eu8));
                } else if st.in_ext {
                    assert(st2.ext =~= st.ext.push(y));
                    assert(st.base + seq![0x2eu8] + st2.ext =~= (st.base + seq![0x2eu8]
                        + st.ext).push(y));
                    assert forall|i: int| 0 <= i < st2.ext.len() implies 0x20 < #[trigger] st2.ext[i]
                        < 0x80 && st2.ext[i] != 0x2e by {
                        if i < st.ext.len() {
                            assert(st2.ext[i] == st.ext[i]);
                        }
                    }
                } else {
                    assert(st2.base =~= st.base.push(y));
                    assert forall|i: int| 0 <= i < st2.base.len() implies 0x20 < #[trigger] st2.base[i]
                        < 0x80 && st2.base[i] != 0x2e by {
                        if i < st.base.len() {
                            assert(st2.base[i] == st.base[i]);
                        }
                    }
                }
            }
        }
    }
}

/// Trailing spaces after a text that does not end in white space are trimmed
/// away to that text.
proof fn lemma_trim_spaces(x: Seq<char>, k: nat)
    requires
        x.len() > 0,
        !is_unicode_whitespace(x.last()),
    ensures
        spec_trim_end(x + spaces(k)) == x,
    decreases k,
{
    let s = x + spaces(k);
    if k > 0 {
        assert(s.last() == ' ');
        assert(s.drop_last() =~= x + spaces((k - 1) as nat));
        lemma_trim_spaces(x, (k - 1) as nat);
    } else {
        assert(s =~= x);
    }
}

/// ASCII bytes padded with spaces decode to their characters and the spaces.
proof fn lemma_decode_padded(t: Seq<u8>, n: nat)
    requires
        t.len() <= n,
        forall|i: int| 0 <= i < t.len() ==> #[trigger] t[i] < 0x80,
    ensures
        decode_utf8(pad_spaces(t, n)) == ascii_text(t) + spaces((n - t.len()) as nat),
        valid_utf8(pad_spaces(t, n)),
{
    let c = ascii_text(t) + spaces((n - t.len()) as nat);
    assert(is_ascii_chars(c)) by {
        assert forall|i: int| 0 <= i < c.len() implies '\0' <= #[trigger] c[i] <= '\u{7f}' by {
            if i < t.len() {
                assert(c[i] == t[i] as char);
            }
        }
    }
    is_ascii_chars_encode_utf8(c);
    assert forall|i: int| 0 <= i < n implies #[trigger] encode_utf8(c)[i] == pad_spaces(t, n)[i] by {
        assert(c[i] as u8 == encode_utf8(c)[i]);
        if i < t.len() {
            assert(c[i] == t[i] as char);
        }
    }
    assert(encode_utf8(c) =~= pad_spaces(t, n));
    encode_utf8_decode_utf8(c);
    encode_utf8_valid_utf8(c);
}

/// Displaying a parsed short name gives the name back, upper-cased: for an
/// ASCII name that does not end with a period, the space padding of the base
/// and of the extension is trimmed, and a period and the extension show
/// exactly where the name has an extension.
pub proof fn lemma_display_parsed_name(name: Seq<char>)
    requires
        is_ascii_chars(name),
        name.len() == 0 || name.last() != '.',
        spec_parse_sfn(encode_utf8(name)) is Ok,
    ensures
        spec_display_sfn(
            spec_parse_sfn(encode_utf8(name))->Ok_0.0,
            spec_parse_sfn(encode_utf8(name))->Ok_0.1,
        ) == upper_chars(name),
        valid_utf8(spec_parse_sfn(encode_utf8(name))->Ok_0.0),
        valid_utf8(spec_parse_sfn(encode_utf8(name))->Ok_0.1),
{
    let b = encode_utf8(name);
    is_ascii_chars_encode_utf8(name);
    assert forall|i: int| 0 <= i < b.len() implies #[trigger] b[i] < 0x80 by {
        assert(name[i] as u8 == b[i]);
    }
    lemma_sfn_scan_shape(b);
    lemma_sfn_scan_bounds(b);
    let st = sfn_scan(b)->Ok_0;
    let u = upper_bytes(b);
    assert(upper_chars(name) =~= ascii_text(u)) by {
        assert forall|i: int| 0 <= i < name.len() implies #[trigger] upper_chars(name)[i] == ascii_text(u)[i] by {
            assert(name[i] as u8 == b[i]);
        }
    }
    let (n, e) = spec_parse_sfn(b)->Ok_0;
    assert(n == pad_spaces(st.base, 8) && e == pad_spaces(st.ext, 3));
    let bt = ascii_text(st.base);
    assert(bt.last() == st.base.last() as char);
    lemma_decode_padded(st.base, 8);
    lemma_trim_spaces(bt, (8 - st.base.len()) as nat);
    if st.in_ext {
        if st.ext.len() == 0 {
            assert(u.last() == 0x2e);
            assert(name.last() as u8 == b.last());
            assert(false);
        }
        let et = ascii_text(st.ext);
        assert(et.last() == st.ext.last() as char);
        lemma_decode_padded(st.ext, 3);
        lemma_trim_spaces(et, (3 - st.ext.len()) as nat);
        assert(e[0] == st.ext[0]);
        assert(ascii_text(u) =~= bt + seq!['.'] + et);
    } else {
        assert(e[0] == 0x20);
        assert(ascii_text(u) =~= bt);
        lemma_decode_padded(st.ext, 3);
    }
}

impl ShortFileName {
    /// A short file name from the first 11 bytes of `buf`: 8 of base, 3 of extension.
    pub fn new(buf: &[u8]) -> (r: ShortFileName)
        requires
            buf@.len() >= 11,
        ensures
            r.name@ == buf@.subrange(0, 8),
            r.ext@ == buf@.subrange(8, 11),
    {
        let r = ShortFileName {
            name: [buf[0], buf[1], buf[2], buf[3], buf[4], buf[5], buf[6], buf[7]],
            ext: [buf[8], buf[9], buf[10]],
        };
        assert(r.name@ =~= buf@.subrange(0, 8));
        assert(r.ext@ =~= buf@.subrange(8, 11));
        r
    }

    /// The base as text.
    pub fn basename(&self) -> (r: &str)
        requires
            valid_utf8(self.name@),
        ensures
            r@ == decode_utf8(self.name@),
    {
        str_from_utf8(&self.name).unwrap()
    }

    /// The extension as text.
    pub fn extension(&self) -> (r: &str)
        requires
            valid_utf8(self.ext@),
        ensures
            r@ == decode_utf8(self.ext@),
    {
        str_from_utf8(&self.ext).unwrap()
    }

    /// Whether this entry marks the end of a directory.
    pub fn is_eod(&self) -> (r: bool)
        ensures
            r == (self.name@[0] == 0 && self.ext@[0] == 0),
    {
        self.name[0] == 0x00 && self.ext[0] == 0x00
    }

    /// Whether this entry is unused (deleted).
    pub fn is_unused(&self) -> (r: bool)
        ensures
            r == (self.name@[0] == 0xE5),
    {
        self.name[0] == 0xE5
    }

    /// Whether both names hold the same bytes.
    pub fn matches(&self, sfn: &ShortFileName) -> (r: bool)
        ensures
            r == (self.name@ == sfn.name@ && self.ext@ == sfn.ext@),
    {
        let mut i: usize = 0;
        while i < 8
            invariant
                i <= 8,
                forall|k: int| 0 <= k < i ==> self.name@[k] == sfn.name@[k],
            decreases 8 - i,
        {
            if self.name[i] != sfn.name[i] {
                return false;
            }
            i = i + 1;
        }
        let mut j: usize = 0;
        while j < 3
            invariant
                j <= 3,
                self.name@ =~= sfn.name@,
                forall|k: int| 0 <= k < j ==> self.ext@[k] == sfn.ext@[k],
            decreases 3 - j,
        {
            if self.ext[j] != sfn.ext[j] {
                return false;
            }
            j = j + 1;
        }
        assert(self.ext@ =~= sfn.ext@);
        true
    }

    /// Parses a short file name from a string such as `kernel.elf`.
    pub fn parse(name: &str) -> (r: FsResult<ShortFileName>)
        ensures
            match spec_parse_sfn(name.spec_bytes()) {
                Ok((n, e)) => r matches Ok(sfn) && sfn.name@ == n && sfn.ext@ == e,
                Err(e) => r == Err::<ShortFileName, FsError>(FsError::FilenameError(e)),
            },
    {
        let bytes = name.as_bytes();
        if bytes.len() == 0 {
            return Err(FilenameError::FilenameEmpty.into_fs_error());
        }
        let mut base: [u8; 8] = [0x20u8; 8];
        let mut ext: [u8; 3] = [0x20u8; 3];
        let mut in_ext = false;
        let mut base_len: usize = 0;
        let mut ext_len: usize = 0;
        let mut i: usize = 0;
        while i < bytes.len()
            invariant
                i <= bytes@.len(),
                bytes@ == name.spec_bytes(),
                base_len <= 8,
                ext_len <= 3,
                sfn_scan(bytes@.take(i as int)) matches Ok(st) && st.in_ext == in_ext
                    && st.base.len() == base_len && st.ext.len() == ext_len
                    && base@ == pad_spaces(st.base, 8) && ext@ == pad_spaces(st.ext, 3),
            decreases bytes@.len() - i,
        {
            let byte = bytes[i];
            let ghost prev = bytes@.take(i as int);
            assert(bytes@.take(i + 1).drop_last() =~= prev);
            assert(bytes@.take(i + 1).last() == byte);
            let ghost st = sfn_scan(prev)->Ok_0;
            if byte == 0x2e {
                if in_ext || base_len == 0 || base_len > 8 {
                    proof { lemma_sfn_scan_err_extends(bytes@, i + 1); }
                    return Err(FilenameError::MisplacedPeriod.into_fs_error());
                }
                in_ext = true;
            } else if is_invalid_sfn_char(byte) {
                proof { lemma_sfn_scan_err_extends(bytes@, i + 1); }
                return Err(FilenameError::InvalidCharacter.into_fs_error());
            } else {
                let up = ascii_upper(byte);
                if in_ext {
                    if ext_len >= 3 {
                        proof { lemma_sfn_scan_err_extends(bytes@, i + 1); }
                        return Err(FilenameError::NameTooLong.into_fs_error());
                    }
                    ext[ext_len] = up;
                    ext_len = ext_len + 1;
                    assert(ext@ =~= pad_spaces(st.ext.push(up), 3));
                } else {
                    if base_len >= 8 {
                        proof { lemma_sfn_scan_err_extends(bytes@, i + 1); }
                        return Err(FilenameError::NameTooLong.into_fs_error());
                    }
                    base[base_len] = up;
                    base_len = base_len + 1;
                    assert(base@ =~= pad_spaces(st.base.push(up), 8));
                }
            }
            i = i + 1;
        }
        assert(bytes@.take(i as int) =~= bytes@);
        if base_len == 0 {
            return Err(FilenameError::FilenameEmpty.into_fs_error());
        }
        Ok(ShortFileName { name: base, ext })
    }

    /// The name as displayed: base and extension, each without trailing white
    /// space, joined by a period where the extension does not start with a space.
    pub fn to_display_string(&self) -> (r: String)
        requires
            valid_utf8(self.name@),
            valid_utf8(self.ext@),
        ensures
            r@ == spec_display_sfn(self.name@, self.ext@),
    {
        let base = trim_end(self.basename());
        if self.ext[0] == 0x20 {
            String::from_str(base)
        } else {
            let mut s = String::from_str(base);
            let dot = ".";
            proof {
                reveal_strlit(".");
            }
            s.append(dot);
            s.append(trim_end(self.extension()));
            s
        }
    }
}

/// The kind of a file-system node.
#[derive(Clone, Copy, Debug, PartialEq, Eq, Structural)]
pub enum FileType {
    File,
    Directory,
}

/// What the file system tells of a node.
#[derive(Clone, Debug)]
pub struct Metadata {
    pub entry_type: FileType,
    pub name: String,
    pub len: usize,
    pub created: Option<FsTime>,
    pub accessed: Option<FsTime>,
    pub modified: Option<FsTime>,
}

impl Metadata {
    /// Metadata from its parts.
    pub fn new(
        name: String,
        entry_type: FileType,
        len: usize,
        created: Option<FsTime>,
        accessed: Option<FsTime>,
        modified: Option<FsTime>,
    ) -> (r: Metadata)
        ensures
            r.name@ == name@,
            r.entry_type == entry_type,
            r.len == len,
            r.created == created,
            r.accessed == accessed,
            r.modified == modified,
    {
        Metadata { entry_type, name, len, created, accessed, modified }
    }

    /// Whether the node is a directory.
    pub fn is_dir(&self) -> (r: bool)
        ensures
            r == (self.entry_type == FileType::Directory),
    {
        match self.entry_type {
            FileType::Directory => true,
            FileType::File => false,
        }
    }

    /// The name that a listing shows: a directory's name is followed by `/`.
    pub fn listed_name(&self) -> (r: String)
        ensures
            r@ == (if self.entry_type == FileType::Directory {
                self.name@ + seq!['/']
            } else {
                self.name@
            }),
    {
        let mut s = String::from_str(self.name.as_str());
        if self.is_dir() {
            let slash = "/";
            proof {
                reveal_strlit("/");
            }
            s.append(slash);
        }
        s
    }

    /// The kind that a listing shows: `dir` or `file`.
    pub fn listed_kind(&self) -> (r: &'static str)
        ensures
            r@ == (if self.entry_type == FileType::Directory {
                seq!['d', 'i', 'r']
            } else {
                seq!['f', 'i', 'l', 'e']
            }),
    {
        if self.is_dir() {
            let k = "dir";
            proof {
                reveal_strlit("dir");
            }
            k
        } else {
            let k = "file";
            proof {
                reveal_strlit("file");
            }
            k
        }
    }

    /// Whether the node is a file.
    pub fn is_file(&self) -> (r: bool)
        ensures
            r == (self.entry_type == FileType::File),
    {
        match self.entry_type {
            FileType::Directory => false,
            FileType::File => true,
        }
    }
}

/// A directory entry.
#[derive(Clone, Copy, Debug)]
pub struct DirEntry {
    pub filename: ShortFileName,
    pub modified_time: FsTime,
    pub created_time: FsTime,
    pub accessed_time: FsTime,
    pub cluster: Cluster,
    pub attributes: Attributes,
    pub size: u32,
}

/// The little-endian 16-bit value at `raw[i]`, `raw[i + 1]`.
pub open spec fn le16(raw: Seq<u8>, i: int) -> int {
    raw[i] + 256 * raw[i + 1]
}

/// The little-endian 32-bit value at `raw[i]` to `raw[i + 3]`.
pub open spec fn le32(raw: Seq<u8>, i: int) -> int {
    le16(raw, i) + 0x10000 * le16(raw, i + 2)
}

/// Whether a 32-byte raw record marks the end of a directory.
pub open spec fn raw_is_eod(raw: Seq<u8>) -> bool {
    raw[0] == 0 && raw[8] == 0
}

/// Whether a raw record is unused (deleted).
pub open spec fn raw_is_unused(raw: Seq<u8>) -> bool {
    raw[0] == 0xE5
}

/// Whether `e` is what [`DirEntry::parse`] reads from the raw record `raw`:
/// name at bytes 0-10, attributes at 11, creation time at 14-17, access date
/// at 18-19, the high half of the cluster at 20-21, modification time at
/// 22-25, the low half of the cluster at 26-27 and the size at 28-31.
pub open spec fn entry_of_raw(e: DirEntry, raw: Seq<u8>) -> bool {
    &&& raw.len() >= 32
    &&& e.filename.name@ == raw.subrange(0, 8)
    &&& e.filename.ext@ == raw.subrange(8, 11)
    &&& e.attributes.spec_bits() == raw[11] & ATTR_ALL
    &&& e.created_time == spec_parse_datetime((le16(raw, 16) * 0x10000 + le16(raw, 14)) as u32)
    &&& e.accessed_time == spec_parse_datetime((le16(raw, 18) * 0x10000) as u32)
    &&& e.modified_time == spec_parse_datetime((le16(raw, 24) * 0x10000 + le16(raw, 22)) as u32)
    &&& e.cluster.0 == le16(raw, 20) * 0x10000 + le16(raw, 26)
    &&& e.size == le32(raw, 28)
}

fn read_le16(data: &[u8], i: usize) -> (r: u32)
    requires
        i + 1 < data@.len(),
    ensures
        r == le16(data@, i as int),
        r < 0x10000,
{
    data[i] as u32 + 256 * (data[i + 1] as u32)
}

impl DirEntry {
    /// Whether the name marks neither the end of the directory nor an unused entry.
    pub open spec fn spec_is_valid(&self) -> bool {
        !(self.filename.name@[0] == 0 && self.filename.ext@[0] == 0) && !(self.filename.name@[0]
            == 0xE5)
    }

    /// Whether this entry is part of a long file name.
    pub open spec fn spec_is_long_name(&self) -> bool {
        self.attributes.spec_bits() == ATTR_LFN
    }

    /// Whether this entry names a directory.
    pub open spec fn spec_is_directory(&self) -> bool {
        self.attributes.spec_bits() & ATTR_DIRECTORY == ATTR_DIRECTORY
    }

    /// Whether this entry names a volume label.
    pub open spec fn spec_is_volume_id(&self) -> bool {
        self.attributes.spec_bits() & ATTR_VOLUME_ID == ATTR_VOLUME_ID
    }

    /// Whether this entry names a regular file.
    pub open spec fn spec_is_file(&self) -> bool {
        self.spec_is_valid() && !self.spec_is_directory() && !self.spec_is_long_name()
            && !self.spec_is_volume_id()
    }

    /// Whether the name of this entry can be shown: both parts are UTF-8.
    pub open spec fn name_is_text(&self) -> bool {
        valid_utf8(self.filename.name@) && valid_utf8(self.filename.ext@)
    }

    /// The name that [`DirEntry::filename`] gives.
    pub open spec fn spec_filename(&self) -> Seq<char> {
        if self.spec_is_valid() && !self.spec_is_long_name() {
            spec_display_sfn(self.filename.name@, self.filename.ext@)
        } else {
            seq!['u', 'n', 'k', 'n', 'o', 'w', 'n']
        }
    }

    /// Whether [`DirEntry::filename`] can display this entry's name.
    pub open spec fn filename_is_displayable(&self) -> bool {
        self.spec_is_valid() && !self.spec_is_long_name() ==> self.name_is_text()
    }

    /// The displayed name of the entry, or `unknown` for an invalid or long-name entry.
    pub fn filename(&self) -> (r: String)
        requires
            self.filename_is_displayable(),
        ensures
            r@ == self.spec_filename(),
    {
        if self.is_valid() && !self.is_long_name() {
            self.filename.to_display_string()
        } else {
            let s = "unknown";
            proof {
                reveal_strlit("unknown");
            }
            String::from_str(s)
        }
    }

    /// Parses a directory entry in the standard 8.3 format from its first 32 bytes.
    pub fn parse(data: &[u8]) -> (r: FsResult<DirEntry>)
        ensures
            data@.len() < DIR_ENTRY_LEN ==> r == Err::<DirEntry, FsError>(
                FsError::FilenameError(FilenameError::UnableToParse),
            ),
            data@.len() >= DIR_ENTRY_LEN ==> (r matches Ok(e) && entry_of_raw(e, data@)),
    {
        if data.len() < DIR_ENTRY_LEN {
            return Err(FilenameError::UnableToParse.into_fs_error());
        }
        let filename = ShortFileName::new(data);
        let attributes = Attributes::from_bits_truncate(data[11]);
        let created_time = parse_datetime(read_le16(data, 16) * 0x10000 + read_le16(data, 14));
        let accessed_time = parse_datetime(read_le16(data, 18) * 0x10000);
        let modified_time = parse_datetime(read_le16(data, 24) * 0x10000 + read_le16(data, 22));
        let cluster_hi = read_le16(data, 20);
        let cluster_lo = read_le16(data, 26);
        let cluster = cluster_hi * 0x10000 + cluster_lo;
        let size = read_le16(data, 28) + 0x10000 * read_le16(data, 30);
        Ok(
            DirEntry {
                filename,
                modified_time,
                created_time,
                accessed_time,
                cluster: Cluster(cluster),
                attributes,
                size,
            },
        )
    }

    /// What the file system tells of this entry.
    pub fn as_meta(&self) -> (r: Metadata)
        requires
            self.filename_is_displayable(),
        ensures
            r.entry_type == (if self.spec_is_directory() {
                FileType::Directory
            } else {
                FileType::File
            }),
            r.name@ == self.spec_filename(),
            r.len == self.size,
            r.created == Some(self.created_time),
            r.accessed == Some(self.accessed_time),
            r.modified == Some(self.modified_time),
    {
        Metadata {
            entry_type: if self.is_directory() {
                FileType::Directory
            } else {
                FileType::File
            },
            name: self.filename(),
            len: self.size as usize,
            created: Some(self.created_time),
            accessed: Some(self.accessed_time),
            modified: Some(self.modified_time),
        }
    }

    /// Whether the name marks neither the end of the directory nor an unused entry.
    pub fn is_valid(&self) -> (r: bool)
        ensures
            r == self.spec_is_valid(),
    {
        !self.filename.is_eod() && !self.filename.is_unused()
    }

    /// Whether this entry is part of a long file name.
    pub fn is_long_name(&self) -> (r: bool)
        ensures
            r == self.spec_is_long_name(),
    {
        self.attributes.bits() == ATTR_LFN
    }

    /// Whether this entry names a directory.
    pub fn is_directory(&self) -> (r: bool)
        ensures
            r == self.spec_is_directory(),
    {
        self.attributes.contains(ATTR_DIRECTORY)
    }

    /// Whether both parts of this entry's name decode as UTF-8.
    pub fn has_text_name(&self) -> (r: bool)
        ensures
            r == self.name_is_text(),
    {
        str_from_utf8(&self.filename.name).is_some() && str_from_utf8(&self.filename.ext).is_some()
    }

    /// Whether this entry names a regular file.
    pub fn is_file(&self) -> (r: bool)
        ensures
            r == self.spec_is_file(),
    {
        self.is_valid() && !self.is_directory() && !self.is_long_name() && !self.attributes.contains(
            ATTR_VOLUME_ID,
        )
    }
}

} // verus!
