//! The FAT16 file system as its users see it: listing directories, opening
//! files and asking for metadata by path.

use vstd::prelude::*;

use std::sync::Arc;

use crate::error::{FsError, FsResult};
use crate::fat16::bpb::{bpb_of_data, spec_bpb_accepted};
use crate::fat16::device::BlockDevice;
use crate::fat16::direntry::{
    entry_of_raw, le16, le32, raw_is_eod, raw_is_unused, spec_display_sfn, Cluster, DirEntry, FileType,
    Metadata, ATTR_ALL, ATTR_LFN, ATTR_VOLUME_ID, CLUSTER_ROOT_DIR,
};
use crate::fat16::file::{read_prefix_matches, walk_ok, File};
use crate::fat16::impls::{
    first_part_error,
    all_listed, entries_match, listed_entry, raw_is_directory, spec_path_components, Fat16Impl,
};
use crate::time::{spec_parse_datetime, FsTime};
use vstd::utf8::valid_utf8;

verus! {

/// An open file together with its metadata.
pub struct FileHandle<D: BlockDevice> {
    pub meta: Metadata,
    pub file: File<D>,
}

/// Whether both parts of the short name of a raw record decode as UTF-8.
pub open spec fn raw_name_is_text(raw: Seq<u8>) -> bool {
    valid_utf8(raw.subrange(0, 8)) && valid_utf8(raw.subrange(8, 11))
}

/// Whether a raw record names a regular file: a valid entry that is no
/// directory, no part of a long name and no volume label.
pub open spec fn raw_is_file(raw: Seq<u8>) -> bool {
    let attr = raw[11] & ATTR_ALL;
    &&& !raw_is_eod(raw)
    &&& !raw_is_unused(raw)
    &&& !raw_is_directory(raw)
    &&& attr != ATTR_LFN
    &&& attr & ATTR_VOLUME_ID != ATTR_VOLUME_ID
}

/// Whether `m` is the metadata of the listed raw record `raw`.
pub open spec fn meta_of_raw(m: Metadata, raw: Seq<u8>) -> bool {
    &&& m.entry_type == (if raw_is_directory(raw) {
        FileType::Directory
    } else {
        FileType::File
    })
    &&& m.name@ == spec_display_sfn(raw.subrange(0, 8), raw.subrange(8, 11))
    &&& m.len == le32(raw, 28)
    &&& m.created == Some(spec_parse_datetime((le16(raw, 16) * 0x10000 + le16(raw, 14)) as u32))
    &&& m.accessed == Some(spec_parse_datetime((le16(raw, 18) * 0x10000) as u32))
    &&& m.modified == Some(spec_parse_datetime((le16(raw, 24) * 0x10000 + le16(raw, 22)) as u32))
}

/// Calls `Arc::clone`, which hands out another pointer to the same value.
#[verifier::external_body]
fn clone_handle<D: BlockDevice>(handle: &Arc<Fat16Impl<D>>) -> (r: Arc<Fat16Impl<D>>)
    ensures
        *r == **handle,
{
    handle.clone()
}

/// A mounted FAT16 file system.
pub struct Fat16<D: BlockDevice> {
    pub handle: Arc<Fat16Impl<D>>,
}

/// The metadata of a listed entry whose name is text, read through
/// [`DirEntry::as_meta`].
fn meta_of_listed(entry: &DirEntry, Ghost(raw): Ghost<Seq<u8>>) -> (m: Metadata)
    requires
        entry_of_raw(*entry, raw),
        listed_entry(*entry),
        raw_name_is_text(raw),
    ensures
        meta_of_raw(m, raw),
{
    entry.as_meta()
}

impl<D: BlockDevice> Fat16<D> {
    /// The volume, as the contracts speak of it.
    pub open spec fn fs(&self) -> Fat16Impl<D> {
        *self.handle
    }

    /// The raw records that the directory at `path` lists.
    pub open spec fn spec_read_dir(&self, path: Seq<char>) -> Result<Seq<Seq<u8>>, FsError> {
        match self.fs().spec_open_dir(path) {
            Ok(c) => self.fs().spec_read_directory(c),
            Err(e) => Err(e),
        }
    }

    /// The raw record of the file at `path`.
    pub open spec fn spec_open_file(&self, path: Seq<char>) -> Result<Seq<u8>, FsError> {
        match self.fs().spec_find_entry(path) {
            Err(e) => Err(e),
            Ok(None) => Err(FsError::FileNotFound),
            Ok(Some(raw)) => if raw_is_file(raw) {
                Ok(raw)
            } else {
                Err(FsError::NotAFile)
            },
        }
    }

    /// Mounts the FAT16 volume on `inner`.
    pub fn new(inner: D) -> (r: FsResult<Self>)
        ensures
            r matches Ok(fs) ==> fs.fs().wf() && fs.fs().inner == inner && spec_bpb_accepted(
                inner.block_at(0),
            ) && bpb_of_data(fs.fs().bpb, inner.block_at(0)),
            r matches Err(e) ==> (e == FsError::BlockDeviceError || (e == FsError::InvalidBpb
                && !spec_bpb_accepted(inner.block_at(0)))),
    {
        match Fat16Impl::new(inner) {
            Ok(fs) => Ok(Fat16 { handle: Arc::new(fs) }),
            Err(e) => Err(e),
        }
    }

    /// Whether `path` names the root directory: it has no component.
    pub fn handle_path_is_root(path: &str) -> (r: bool)
        ensures
            r == (spec_path_components(path@).len() == 0),
    {
        Fat16Impl::<D>::path_components(path).len() == 0
    }

    /// What [`Fat16::read_dir`] answers for `path`: the metadata of the
    /// records that the directory lists, in order, or the error met.
    pub open spec fn read_dir_result(&self, path: Seq<char>, r: FsResult<Vec<Metadata>>) -> bool {
        &&& (r matches Ok(ms) ==> (self.spec_read_dir(path) matches Ok(raws) && ms@.len()
            == raws.len() && forall|i: int|
            0 <= i < ms@.len() ==> meta_of_raw(#[trigger] ms@[i], raws[i])))
        &&& (r matches Err(e) ==> (e == FsError::BlockDeviceError || self.spec_read_dir(path)
            == Err::<Seq<Seq<u8>>, FsError>(e)))
        &&& (first_part_error(path) matches Some(e) ==> r == Err::<Vec<Metadata>, FsError>(
            FsError::FilenameError(e),
        ))
    }

    /// Every name that the directory at `path` lists is text.
    pub open spec fn dir_names_are_text(&self, path: Seq<char>) -> bool {
        match self.spec_read_dir(path) {
            Ok(raws) => forall|i: int| 0 <= i < raws.len() ==> raw_name_is_text(#[trigger] raws[i]),
            Err(_) => true,
        }
    }

    /// Lists the directory at `path` as [`Fat16::read_dir`] does, after
    /// testing that every name it lists is text: `None` where one is not.
    pub fn try_read_dir(&self, path: &str) -> (r: Option<FsResult<Vec<Metadata>>>)
        requires
            self.fs().wf(),
        ensures
            r matches Some(res) ==> self.read_dir_result(path@, res),
            r is None ==> !self.dir_names_are_text(path@),
    {
        let dir = match self.handle.open_dir(path) {
            Ok(d) => d,
            Err(e) => {
                return Some(Err(e));
            },
        };
        let entries = match self.handle.read_directory(&dir) {
            Ok(es) => es,
            Err(e) => {
                return Some(Err(e));
            },
        };
        let ghost raws = self.fs().spec_read_directory(dir.cluster)->Ok_0;
        let mut j: usize = 0;
        while j < entries.len()
            invariant
                j <= entries@.len(),
                entries_match(entries@, raws),
                self.spec_read_dir(path@) == Ok::<Seq<Seq<u8>>, FsError>(raws),
                forall|k: int| 0 <= k < j ==> raw_name_is_text(#[trigger] raws[k]),
            decreases entries@.len() - j,
        {
            assert(entry_of_raw(entries@[j as int], raws[j as int]));
            if !entries[j].has_text_name() {
                assert(!raw_name_is_text(raws[j as int]));
                assert(j < raws.len());
                assert(self.spec_read_dir(path@) is Ok);
                assert(self.spec_read_dir(path@)->Ok_0 == raws);
                assert(self.dir_names_are_text(path@) ==> (forall|i: int| 0 <= i < raws.len() ==> raw_name_is_text(#[trigger] raws[i])));
                return None;
            }
            j = j + 1;
        }
        let mut metas: Vec<Metadata> = Vec::new();
        let mut i: usize = 0;
        while i < entries.len()
            invariant
                i <= entries@.len(),
                entries_match(entries@, raws),
                all_listed(entries@),
                forall|k: int| 0 <= k < raws.len() ==> raw_name_is_text(#[trigger] raws[k]),
                metas@.len() == i,
                forall|k: int| 0 <= k < i ==> meta_of_raw(#[trigger] metas@[k], raws[k]),
            decreases entries@.len() - i,
        {
            assert(entry_of_raw(entries@[i as int], raws[i as int]));
            assert(listed_entry(entries@[i as int]));
            assert(raw_name_is_text(raws[i as int]));
            let m = meta_of_listed(&entries[i], Ghost(raws[i as int]));
            metas.push(m);
            i = i + 1;
        }
        Some(Ok(metas))
    }

    /// The metadata of the nodes that the directory at `path` lists.
    pub fn read_dir(&self, path: &str) -> (r: FsResult<Vec<Metadata>>)
        requires
            self.fs().wf(),
            self.spec_read_dir(path@) matches Ok(raws) ==> forall|i: int|
                0 <= i < raws.len() ==> raw_name_is_text(#[trigger] raws[i]),
        ensures
            r matches Ok(ms) ==> (self.spec_read_dir(path@) matches Ok(raws) && ms@.len()
                == raws.len() && forall|i: int|
                0 <= i < ms@.len() ==> meta_of_raw(#[trigger] ms@[i], raws[i])),
            r matches Err(e) ==> (e == FsError::BlockDeviceError || self.spec_read_dir(path@)
                == Err::<Seq<Seq<u8>>, FsError>(e)),
            first_part_error(path@) matches Some(e) ==> r == Err::<Vec<Metadata>, FsError>(
                FsError::FilenameError(e),
            ),
    {
        // The names are text, so the test passes.
        self.try_read_dir(path).unwrap()
    }

    /// What [`Fat16::open_file`] answers for `path`.
    pub open spec fn open_file_result(&self, path: Seq<char>, r: FsResult<FileHandle<D>>) -> bool {
        &&& (r matches Ok(h) ==> (self.spec_open_file(path) matches Ok(raw) && meta_of_raw(h.meta, raw)
            && entry_of_raw(h.file.spec_entry(), raw) && h.file.spec_offset() == 0
            && h.file.spec_fs() == self.fs()))
        &&& (r matches Err(e) ==> (e == FsError::BlockDeviceError || self.spec_open_file(path)
            == Err::<Seq<u8>, FsError>(e)))
        &&& (spec_path_components(path).len() == 0 ==> r == Err::<FileHandle<D>, FsError>(
            FsError::FileNotFound,
        ))
        &&& (first_part_error(path) matches Some(e) ==> r == Err::<FileHandle<D>, FsError>(
            FsError::FilenameError(e),
        ))
    }

    /// The name of the file at `path`, where there is one, is text.
    pub open spec fn file_name_is_text(&self, path: Seq<char>) -> bool {
        match self.spec_open_file(path) {
            Ok(raw) => raw_name_is_text(raw),
            Err(_) => true,
        }
    }

    /// Opens the file at `path` as [`Fat16::open_file`] does, after testing
    /// that its name is text: `None` where it is not.
    pub fn try_open_file(&self, path: &str) -> (r: Option<FsResult<FileHandle<D>>>)
        requires
            self.fs().wf(),
        ensures
            r matches Some(res) ==> self.open_file_result(path@, res),
            r is None ==> !self.file_name_is_text(path@),
    {
        let found = match self.handle.find_entry(path) {
            Ok(f) => f,
            Err(e) => {
                return Some(Err(e));
            },
        };
        let entry = match found {
            Some(en) => en,
            None => {
                return Some(Err(FsError::FileNotFound));
            },
        };
        if !entry.is_file() {
            return Some(Err(FsError::NotAFile));
        }
        let ghost raw = self.fs().spec_find_entry(path@)->Ok_0->Some_0;
        if !entry.has_text_name() {
            proof {
                assert(raw_is_file(raw));
                assert(self.spec_open_file(path@) == Ok::<Seq<u8>, FsError>(raw));
            }
            return None;
        }
        proof {
            assert(entry.filename.name@[0] == raw.subrange(0, 8)[0]);
            assert(entry.filename.ext@[0] == raw.subrange(8, 11)[0]);
            assert(raw_is_file(raw));
            assert(self.spec_open_file(path@) == Ok::<Seq<u8>, FsError>(raw));
        }
        let meta = meta_of_listed(&entry, Ghost(raw));
        let file = File::new(clone_handle(&self.handle), entry);
        Some(Ok(FileHandle { meta, file }))
    }

    /// Opens the file at `path`.
    pub fn open_file(&self, path: &str) -> (r: FsResult<FileHandle<D>>)
        requires
            self.fs().wf(),
            self.spec_open_file(path@) matches Ok(raw) ==> raw_name_is_text(raw),
        ensures
            r matches Ok(h) ==> (self.spec_open_file(path@) matches Ok(raw) && meta_of_raw(h.meta, raw)
                && entry_of_raw(h.file.spec_entry(), raw) && h.file.spec_offset() == 0
                && h.file.spec_fs() == self.fs()),
            r matches Err(e) ==> (e == FsError::BlockDeviceError || self.spec_open_file(path@)
                == Err::<Seq<u8>, FsError>(e)),
            spec_path_components(path@).len() == 0 ==> r == Err::<FileHandle<D>, FsError>(
                FsError::FileNotFound,
            ),
            first_part_error(path@) matches Some(e) ==> r == Err::<FileHandle<D>, FsError>(
                FsError::FilenameError(e),
            ),
    {
        // The names are text, so the test passes.
        self.try_open_file(path).unwrap()
    }

    /// The metadata of the node that `path` names: a directory named `/` for
    /// the root.
    pub open spec fn spec_metadata_ok(&self, path: Seq<char>) -> bool {
        spec_path_components(path).len() == 0 || self.fs().spec_find_entry(path) matches Ok(Some(_))
    }

    /// What [`Fat16::metadata`] answers for `path`.
    pub open spec fn metadata_result(&self, path: Seq<char>, r: FsResult<Metadata>) -> bool {
        &&& (spec_path_components(path).len() == 0 ==> (r matches Ok(m) && m.name@ == seq!['/']
            && m.entry_type == FileType::Directory && m.len == 0 && m.created is None
            && m.accessed is None && m.modified is None))
        &&& (spec_path_components(path).len() > 0 ==> {
            &&& r matches Ok(m) ==> (self.fs().spec_find_entry(path) matches Ok(Some(raw))
                && meta_of_raw(m, raw))
            &&& r matches Err(e) ==> (e == FsError::BlockDeviceError || self.fs().spec_find_entry(
                path,
            ) == Err::<Option<Seq<u8>>, FsError>(e) || (e == FsError::FileNotFound
                && self.fs().spec_find_entry(path) == Ok::<Option<Seq<u8>>, FsError>(None)))
        })
        &&& (first_part_error(path) matches Some(e) ==> r == Err::<Metadata, FsError>(
            FsError::FilenameError(e),
        ))
    }

    /// The name of the node at `path`, where its directory lists one, is text.
    pub open spec fn node_name_is_text(&self, path: Seq<char>) -> bool {
        match self.fs().spec_find_entry(path) {
            Ok(Some(raw)) => raw_name_is_text(raw),
            _ => true,
        }
    }

    /// The metadata of the node at `path`, as [`Fat16::metadata`] gives it,
    /// after testing that its name is text: `None` where it is not.
    pub fn try_metadata(&self, path: &str) -> (r: Option<FsResult<Metadata>>)
        requires
            self.fs().wf(),
        ensures
            r matches Some(res) ==> self.metadata_result(path@, res),
            r is None ==> !self.node_name_is_text(path@),
    {
        if Self::handle_path_is_root(path) {
            let slash = "/";
            proof {
                reveal_strlit("/");
            }
            let m = Metadata::new(String::from_str(slash), FileType::Directory, 0, None, None, None);
            assert(first_part_error(path@) is None);
            assert(m.name@ =~= seq!['/']);
            return Some(Ok(m));
        }
        let found = match self.handle.find_entry(path) {
            Ok(f) => f,
            Err(e) => {
                return Some(Err(e));
            },
        };
        match found {
            Some(entry) => {
                let ghost raw = self.fs().spec_find_entry(path@)->Ok_0->Some_0;
                if !entry.has_text_name() {
                    return None;
                }
                Some(Ok(meta_of_listed(&entry, Ghost(raw))))
            },
            None => Some(Err(FsError::FileNotFound)),
        }
    }

    /// The metadata of the node that `path` names.
    pub fn metadata(&self, path: &str) -> (r: FsResult<Metadata>)
        requires
            self.fs().wf(),
            self.fs().spec_find_entry(path@) matches Ok(Some(raw)) ==> raw_name_is_text(raw),
        ensures
            spec_path_components(path@).len() == 0 ==> (r matches Ok(m) && m.name@ == seq!['/']
                && m.entry_type == FileType::Directory && m.len == 0 && m.created is None
                && m.accessed is None && m.modified is None),
            spec_path_components(path@).len() > 0 ==> {
                &&& r matches Ok(m) ==> (self.fs().spec_find_entry(path@) matches Ok(Some(raw))
                    && meta_of_raw(m, raw))
                &&& r matches Err(e) ==> (e == FsError::BlockDeviceError || self.fs().spec_find_entry(
                    path@,
                ) == Err::<Option<Seq<u8>>, FsError>(e) || (e == FsError::FileNotFound
                    && self.fs().spec_find_entry(path@) == Ok::<Option<Seq<u8>>, FsError>(None)))
            },
            first_part_error(path@) matches Some(e) ==> r == Err::<Metadata, FsError>(
                FsError::FilenameError(e),
            ),
    {
        // The names are text, so the test passes.
        self.try_metadata(path).unwrap()
    }

    /// Whether [`Fat16::metadata`] finds the node that `path` names: always
    /// for the root, which needs no read; otherwise only where the path's
    /// directory lists it, and then unless the device fails a read.
    pub fn exists_path(&self, path: &str) -> (r: FsResult<bool>)
        requires
            self.fs().wf(),
            self.fs().spec_find_entry(path@) matches Ok(Some(raw)) ==> raw_name_is_text(raw),
        ensures
            r matches Ok(b) && (b ==> self.spec_metadata_ok(path@)) && (!self.spec_metadata_ok(
                path@,
            ) ==> !b),
            spec_path_components(path@).len() == 0 ==> r == Ok::<bool, FsError>(true),
    {
        // The names are text, so the test passes.
        self.try_exists_path(path).unwrap()
    }

    /// Whether [`Fat16::metadata`] finds the node that `path` names, as
    /// [`Fat16::exists_path`] answers, after testing that its name is text:
    /// `None` where it is not.
    pub fn try_exists_path(&self, path: &str) -> (r: Option<FsResult<bool>>)
        requires
            self.fs().wf(),
        ensures
            r matches Some(res) ==> (res matches Ok(b) && (b ==> self.spec_metadata_ok(path@)) && (
            !self.spec_metadata_ok(path@) ==> !b)),
            r matches Some(res) ==> (spec_path_components(path@).len() == 0 ==> res == Ok::<
                bool,
                FsError,
            >(true)),
            r is None ==> !self.node_name_is_text(path@),
    {
        match self.try_metadata(path) {
            Some(m) => Some(Ok(m.is_ok())),
            None => None,
        }
    }
}

/// Reading a file in two pieces gives what one read of both would give: the
/// bytes of a read at `off0` followed by those of the next read, at
/// `off0 + n`, are the file's bytes from `off0` on.
pub proof fn lemma_reads_concatenate<D: BlockDevice>(
    fs: Fat16Impl<D>,
    start: Cluster,
    off0: int,
    a: Seq<u8>,
    n: int,
    b: Seq<u8>,
    m: int,
)
    requires
        0 <= n <= a.len(),
        0 <= m <= b.len(),
        read_prefix_matches(fs, start, off0, a, n),
        read_prefix_matches(fs, start, off0 + n, b, m),
    ensures
        read_prefix_matches(fs, start, off0, a.take(n) + b.take(m), n + m),
{
    let c = a.take(n) + b.take(m);
    assert forall|i: int|
        #![trigger c[i]]
        0 <= i < n + m implies (c[i] == fs.spec_file_byte(start, off0 + i) && walk_ok(
            fs,
            start,
            off0 + i,
        )) by {
        if i < n {
            assert(c[i] == a[i]);
        } else {
            assert(c[i] == b[i - n]);
            assert(off0 + n + (i - n) == off0 + i);
        }
    }
}

} // verus!
