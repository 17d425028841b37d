//! Reading a FAT16 volume: clusters, the FAT, directories and paths.

use vstd::prelude::*;

use crate::error::{FsError, FsResult};
use crate::fat16::bpb::{bpb_of_data, spec_bpb_accepted, Fat16Bpb};
use vstd::utf8::encode_utf8;
use vstd::string::StringSliceAdditionalSpecFns;
use crate::fat16::device::{Block512, BlockDevice, BLOCK_SIZE};
use crate::error::FilenameError;
use crate::fat16::direntry::{
    spec_parse_sfn, ATTR_DIRECTORY,
    entry_of_raw, le16, raw_is_eod, raw_is_unused, Attributes, Cluster, DirEntry, ShortFileName,
    ATTR_ALL, ATTR_LFN, ATTR_VOLUME_ID, CLUSTER_BAD, CLUSTER_EMPTY, CLUSTER_END_OF_FILE, CLUSTER_INVALID,
    CLUSTER_ROOT_DIR, DIR_ENTRY_LEN,
};

verus! {

/// A mounted FAT16 volume on the block device `D`.
pub struct Fat16Impl<D: BlockDevice> {
    pub bpb: Fat16Bpb,
    pub inner: D,
    pub fat_start: usize,
    pub first_data_sector: usize,
    pub first_root_dir_sector: usize,
}

/// The longest cluster chain that a directory is followed along: a FAT16
/// volume has fewer data clusters than this, so a longer chain loops.
pub const MAX_CHAIN: u32 = 0x10000;

/// The error that the first part of `path` gives where it is no valid short
/// name: a walk from the root stops there, before it reads anything.
pub open spec fn first_part_error(path: Seq<char>) -> Option<FilenameError> {
    let comps = spec_path_components(path);
    if comps.len() > 0 {
        match spec_parse_sfn(encode_utf8(comps[0])) {
            Err(e) => Some(e),
            Ok(_) => None,
        }
    } else {
        None
    }
}

/// A directory of the volume, named by its first cluster.
#[derive(Clone, Copy, Debug)]
pub struct Directory {
    pub cluster: Cluster,
    pub entry: Option<DirEntry>,
}

impl Directory {
    /// The root directory.
    pub fn root() -> (r: Directory)
        ensures
            r.cluster.0 == CLUSTER_ROOT_DIR,
            r.entry is None,
    {
        Directory { cluster: Cluster(CLUSTER_ROOT_DIR), entry: None }
    }

    /// The directory that `entry` names.
    pub fn from_entry(entry: DirEntry) -> (r: Directory)
        ensures
            r.cluster == entry.cluster,
            r.entry == Some(entry),
    {
        Directory { cluster: entry.cluster, entry: Some(entry) }
    }
}

/// Whether a raw record, neither the end mark nor unused, is listed: it is no
/// part of a long file name and no volume label.
pub open spec fn raw_is_listed(raw: Seq<u8>) -> bool {
    let attr = raw[11] & ATTR_ALL;
    !raw_is_unused(raw) && attr != ATTR_LFN && attr & ATTR_VOLUME_ID != ATTR_VOLUME_ID
}

/// Whether `es` are the entries read from the raw records `raws`, one by one.
pub open spec fn entries_match(es: Seq<DirEntry>, raws: Seq<Seq<u8>>) -> bool {
    &&& es.len() == raws.len()
    &&& forall|j: int| 0 <= j < es.len() ==> entry_of_raw(#[trigger] es[j], raws[j])
}

/// Whether an entry is one that a directory listing shows: valid, no part of
/// a long name and no volume label.
pub open spec fn listed_entry(e: DirEntry) -> bool {
    e.spec_is_valid() && !e.spec_is_long_name() && !e.spec_is_volume_id()
}

/// Whether every entry of `es` is one that a listing shows.
pub open spec fn all_listed(es: Seq<DirEntry>) -> bool {
    forall|j: int| 0 <= j < es.len() ==> listed_entry(#[trigger] es[j])
}

/// Entries read from two runs of records, one after the other, match the
/// records of both runs.
pub proof fn lemma_entries_match_concat(es: Seq<DirEntry>, n: int, a: Seq<Seq<u8>>, b: Seq<Seq<u8>>)
    requires
        0 <= n <= es.len(),
        entries_match(es.take(n), a),
        entries_match(es.skip(n), b),
    ensures
        entries_match(es, a + b),
        all_listed(es.take(n)) && all_listed(es.skip(n)) ==> all_listed(es),
{
    if all_listed(es.take(n)) && all_listed(es.skip(n)) {
        assert forall|j: int| 0 <= j < es.len() implies listed_entry(#[trigger] es[j]) by {
            if j < n {
                assert(es.take(n)[j] == es[j]);
            } else {
                assert(es.skip(n)[j - n] == es[j]);
            }
        }
    }
    assert forall|j: int| 0 <= j < es.len() implies entry_of_raw(#[trigger] es[j], (a + b)[j]) by {
        if j < n {
            assert(es.take(n)[j] == es[j]);
        } else {
            assert(es.skip(n)[j - n] == es[j]);
        }
    }
}

/// The state of splitting a path from left to right: the components
/// completed so far and the one being read.
pub open spec fn split_path(s: Seq<char>) -> (Seq<Seq<char>>, Seq<char>)
    decreases s.len(),
{
    if s.len() == 0 {
        (Seq::empty(), Seq::empty())
    } else {
        let (done, cur) = split_path(s.drop_last());
        if s.last() == '/' {
            if cur.len() > 0 {
                (done.push(cur), Seq::empty())
            } else {
                (done, Seq::empty())
            }
        } else {
            (done, cur.push(s.last()))
        }
    }
}

/// The components being split hold no `/` and are not empty.
proof fn lemma_split_path(s: Seq<char>)
    ensures
        forall|i: int| 0 <= i < split_path(s).0.len() ==> (#[trigger] split_path(s).0[i]).len() > 0,
        forall|i: int, j: int|
            0 <= i < split_path(s).0.len() && 0 <= j < split_path(s).0[i].len()
                ==> #[trigger] split_path(s).0[i][j] != '/',
        forall|j: int| 0 <= j < split_path(s).1.len() ==> #[trigger] split_path(s).1[j] != '/',
    decreases s.len(),
{
    if s.len() > 0 {
        lemma_split_path(s.drop_last());
        let (done, cur) = split_path(s.drop_last());
        if s.last() != '/' {
            assert forall|j: int| 0 <= j < cur.push(s.last()).len() implies #[trigger] cur.push(
                s.last(),
            )[j] != '/' by {
                if j < cur.len() {
                    assert(cur.push(s.last())[j] == cur[j]);
                }
            }
        }
    }
}

/// Every component of a path is non-empty and holds no `/`.
pub proof fn lemma_path_components(s: Seq<char>)
    ensures
        forall|i: int|
            0 <= i < spec_path_components(s).len() ==> (#[trigger] spec_path_components(s)[i]).len()
                > 0,
        forall|i: int, j: int|
            0 <= i < spec_path_components(s).len() && 0 <= j < spec_path_components(s)[i].len()
                ==> #[trigger] spec_path_components(s)[i][j] != '/',
{
    lemma_split_path(s);
    let (done, cur) = split_path(s);
    if cur.len() > 0 {
        let w = done.push(cur);
        assert forall|i: int| 0 <= i < w.len() implies (#[trigger] w[i]).len() > 0 by {
            if i < done.len() {
                assert(w[i] == done[i]);
            }
        }
        assert forall|i: int, j: int| 0 <= i < w.len() && 0 <= j < w[i].len() implies #[trigger] w[i][j]
            != '/' by {
            if i < done.len() {
                assert(w[i] == done[i]);
            } else {
                assert(w[i] == cur);
            }
        }
    }
}

/// The non-empty parts of a path between the separators `/`.
pub open spec fn spec_path_components(s: Seq<char>) -> Seq<Seq<char>> {
    let (done, cur) = split_path(s);
    if cur.len() > 0 {
        done.push(cur)
    } else {
        done
    }
}

/// The non-empty parts of `path` between the separators `/`.
pub fn split_components<'a>(path: &'a str) -> (r: Vec<&'a str>)
    ensures
        r@.len() == spec_path_components(path@).len(),
        forall|i: int| 0 <= i < r@.len() ==> (#[trigger] r@[i])@ == spec_path_components(path@)[i],
{
    let len = path.unicode_len();
    let mut parts: Vec<&'a str> = Vec::new();
    let mut start: usize = 0;
    let mut i: usize = 0;
    while i < len
        invariant
            len == path@.len(),
            start <= i <= len,
            split_path(path@.take(i as int)).1 == path@.subrange(start as int, i as int),
            parts@.len() == split_path(path@.take(i as int)).0.len(),
            forall|j: int|
                0 <= j < parts@.len() ==> (#[trigger] parts@[j])@ == split_path(
                    path@.take(i as int),
                ).0[j],
        decreases len - i,
    {
        let c = path.get_char(i);
        let ghost prev = split_path(path@.take(i as int));
        assert(path@.take(i + 1).drop_last() =~= path@.take(i as int));
        assert(path@.take(i + 1).last() == c);
        if c == '/' {
            if start < i {
                let part = path.substring_char(start, i);
                let ghost prev_parts = parts@;
                parts.push(part);
                proof {
                    assert forall|j: int|
                        0 <= j < parts@.len() implies (#[trigger] parts@[j])@ == split_path(
                        path@.take(i + 1),
                    ).0[j] by {
                        if j < parts@.len() - 1 {
                            assert(parts@[j] == prev_parts[j]);
                        }
                    }
                }
            }
            start = i + 1;
            assert(path@.subrange(start as int, i + 1) =~= Seq::<char>::empty());
        } else {
            assert(path@.subrange(start as int, i + 1) =~= path@.subrange(start as int, i as int).push(c));
        }
        i = i + 1;
    }
    assert(path@.take(len as int) =~= path@);
    if start < len {
        let part = path.substring_char(start, len);
        parts.push(part);
    }
    parts
}

/// Whether a raw record names a directory.
pub open spec fn raw_is_directory(raw: Seq<u8>) -> bool {
    (raw[11] & ATTR_ALL) & ATTR_DIRECTORY == ATTR_DIRECTORY
}

/// The first cluster that a raw record names.
pub open spec fn raw_cluster(raw: Seq<u8>) -> int {
    le16(raw, 20) * 0x10000 + le16(raw, 26)
}

/// The first of `raws[i..]` whose short name is `name` and extension `ext`.
pub open spec fn find_raw(raws: Seq<Seq<u8>>, name: Seq<u8>, ext: Seq<u8>, i: int) -> Option<Seq<u8>>
    decreases raws.len() - i,
{
    if i < 0 || i >= raws.len() {
        None
    } else if raws[i].subrange(0, 8) == name && raws[i].subrange(8, 11) == ext {
        Some(raws[i])
    } else {
        find_raw(raws, name, ext, i + 1)
    }
}

/// The texts of a list of path components.
pub open spec fn texts(parts: Seq<&str>) -> Seq<Seq<char>> {
    Seq::new(parts.len(), |i: int| parts[i]@)
}

/// `a / b` rounded up.
pub open spec fn div_ceil(a: int, b: int) -> int {
    (a + b - 1) / b
}

/// What a FAT entry of value `v` says of the cluster that follows: 0 is
/// empty, 1 is invalid, 2 to 0xFFF6 name the next cluster, 0xFFF7 marks a bad
/// cluster and larger values the end of the file.
pub open spec fn classify_fat_entry(v: int) -> Cluster {
    if v == 0 {
        Cluster(CLUSTER_EMPTY)
    } else if v == 1 {
        Cluster(CLUSTER_INVALID)
    } else if v <= 0xFFF6 {
        Cluster(v as u32)
    } else if v == 0xFFF7 {
        Cluster(CLUSTER_BAD)
    } else {
        Cluster(CLUSTER_END_OF_FILE)
    }
}

/// The error that following a cluster chain to `next` meets, if any: the end
/// of the file, a bad cluster, or an empty or invalid cluster.
pub open spec fn chain_error(next: Cluster) -> Option<FsError> {
    if next.0 == CLUSTER_END_OF_FILE {
        Some(FsError::EndOfFile)
    } else if next.0 == CLUSTER_BAD {
        Some(FsError::BadCluster)
    } else if next.0 == CLUSTER_EMPTY || next.0 == CLUSTER_INVALID {
        Some(FsError::InvalidOperation)
    } else {
        None
    }
}

/// What a FAT16 entry value means to a chain, for every 16-bit value: 0 (a
/// free cluster) and 1 are invalid links, 2 to 0xFFF6 link to that cluster,
/// 0xFFF7 marks a bad cluster, and every value from 0xFFF8 to 0xFFFF ends the
/// chain.
pub proof fn lemma_fat_entry_meaning(v: int)
    requires
        0 <= v <= 0xFFFF,
    ensures
        v <= 1 ==> chain_error(classify_fat_entry(v)) == Some(FsError::InvalidOperation),
        2 <= v <= 0xFFF6 ==> classify_fat_entry(v).0 == v && chain_error(classify_fat_entry(v))
            is None,
        v == 0xFFF7 ==> chain_error(classify_fat_entry(v)) == Some(FsError::BadCluster),
        0xFFF8 <= v ==> classify_fat_entry(v).0 == 0xFFFF_FFFF && chain_error(classify_fat_entry(v))
            == Some(FsError::EndOfFile),
{
}

impl<D: BlockDevice> Fat16Impl<D> {
    /// The number of sectors per cluster.
    pub open spec fn spc(&self) -> int {
        self.bpb.sectors_per_cluster as int
    }

    /// The number of sectors of the root directory.
    pub open spec fn spec_root_dir_sectors(&self) -> int {
        div_ceil(self.bpb.root_entries_count as int * DIR_ENTRY_LEN as int, BLOCK_SIZE as int)
    }

    /// The layout of the volume follows from its parameter block.
    pub open spec fn wf(&self) -> bool {
        &&& self.spc() > 0
        &&& self.fat_start == self.bpb.reserved_sector_count
        &&& self.first_root_dir_sector == self.fat_start + self.bpb.fat_count as int
            * self.bpb.sectors_per_fat as int
        &&& self.first_data_sector == self.first_root_dir_sector + self.spec_root_dir_sectors()
    }

    /// The first sector of cluster `c`.
    pub open spec fn spec_cluster_to_sector(&self, c: Cluster) -> int {
        if c.0 == CLUSTER_ROOT_DIR {
            self.first_root_dir_sector as int
        } else {
            (c.0 - 2) * self.spc() + self.first_data_sector
        }
    }

    /// A chain ends at a cluster whose FAT entry is any of the end marks
    /// 0xFFF8 to 0xFFFF: one step from it meets the end of the file.
    pub proof fn lemma_end_marks_end_the_chain(&self, c: Cluster)
        requires
            0xFFF8 <= self.fat_value(c),
        ensures
            self.spec_walk(c, 1) == Err::<Cluster, FsError>(FsError::EndOfFile),
    {
        lemma_fat_entry_meaning(self.fat_value(c));
    }

    /// Clusters lie one after another: the root directory starts right after
    /// the reserved sectors and the FATs, cluster 2 right after the root
    /// directory, and each data cluster `spc` sectors after the one before it.
    pub proof fn lemma_cluster_layout(&self, c: u32)
        requires
            self.wf(),
            2 <= c,
            c + 1 < CLUSTER_ROOT_DIR,
        ensures
            self.spec_cluster_to_sector(Cluster(CLUSTER_ROOT_DIR)) == self.bpb.reserved_sector_count
                + self.bpb.fat_count * self.bpb.sectors_per_fat,
            self.spec_cluster_to_sector(Cluster(2)) == self.spec_cluster_to_sector(
                Cluster(CLUSTER_ROOT_DIR),
            ) + self.spec_root_dir_sectors(),
            self.spec_cluster_to_sector(Cluster(c)) == self.spec_cluster_to_sector(Cluster(2)) + (c
                - 2) * self.spc(),
            self.spec_cluster_to_sector(Cluster((c + 1) as u32)) == self.spec_cluster_to_sector(
                Cluster(c),
            ) + self.spc(),
    {
        let spc = self.spc();
        assert((2 - 2) * spc == 0);
        assert((c + 1 - 2) * spc == (c - 2) * spc + spc) by (nonlinear_arith);
        assert(self.spec_cluster_to_sector(Cluster(2)) == self.first_data_sector);
        assert(self.spec_cluster_to_sector(Cluster(c)) == (c - 2) * spc + self.first_data_sector);
    }

    /// Every sector of cluster `c` has a number that fits in `usize`.
    pub open spec fn sector_fits(&self, c: Cluster) -> bool {
        self.spec_cluster_to_sector(c) + self.spc() <= usize::MAX
    }

    /// The raw value of the FAT entry of cluster `c`.
    pub open spec fn fat_value(&self, c: Cluster) -> int {
        let offset = c.0 * 2;
        le16(self.inner.block_at(self.fat_start + offset / 512), offset % 512)
    }

    /// The cluster that follows `c` in its chain, as the FAT says.
    pub open spec fn spec_next_cluster(&self, c: Cluster) -> Cluster {
        classify_fat_entry(self.fat_value(c))
    }

    /// The cluster `n` steps along the chain from `start`, or the error met on the way.
    pub open spec fn spec_walk(&self, start: Cluster, n: nat) -> Result<Cluster, FsError>
        decreases n,
    {
        if n == 0 {
            Ok(start)
        } else {
            let next = self.spec_next_cluster(start);
            match chain_error(next) {
                Some(e) => Err(e),
                None => self.spec_walk(next, (n - 1) as nat),
            }
        }
    }

    /// Mounts the volume whose boot sector is block 0 of `inner`.
    pub fn new(inner: D) -> (r: FsResult<Self>)
        ensures
            match r {
                Ok(fs) => {
                    &&& fs.wf()
                    &&& fs.inner == inner
                    &&& spec_bpb_accepted(inner.block_at(0))
                    &&& bpb_of_data(fs.bpb, inner.block_at(0))
                },
                Err(e) => e == FsError::BlockDeviceError || (e == FsError::InvalidBpb
                    && !spec_bpb_accepted(inner.block_at(0))),
            },
    {
        let mut block = Block512::new();
        let block_size = Block512::size();
        match inner.read_block(0, &mut block) {
            Ok(()) => {},
            Err(e) => {
                return Err(e);
            },
        }
        let bpb = match Fat16Bpb::new(block.data.as_slice()) {
            Some(bpb) => bpb,
            None => {
                return Err(FsError::InvalidBpb);
            },
        };
        let fat_start = bpb.reserved_sector_count() as usize;
        let root_dir_bytes = bpb.root_entries_count() as usize * DIR_ENTRY_LEN;
        let root_dir_size = (root_dir_bytes + block_size - 1) / block_size;
        let fat_count = bpb.fat_count() as usize;
        let sectors_per_fat = bpb.sectors_per_fat() as usize;
        assert(fat_count * sectors_per_fat <= 255 * 65535) by (nonlinear_arith)
            requires
                fat_count <= 255,
                sectors_per_fat <= 65535,
        ;
        let first_root_dir_sector = fat_start + fat_count * sectors_per_fat;
        let first_data_sector = first_root_dir_sector + root_dir_size;
        Ok(Fat16Impl { bpb, inner, fat_start, first_data_sector, first_root_dir_sector })
    }

    /// The first sector of cluster `cluster`.
    pub fn cluster_to_sector(&self, cluster: &Cluster) -> (r: usize)
        requires
            self.wf(),
            cluster.0 >= 2,
            self.sector_fits(*cluster),
        ensures
            r == self.spec_cluster_to_sector(*cluster),
    {
        if cluster.0 == CLUSTER_ROOT_DIR {
            self.first_root_dir_sector
        } else {
            (cluster.0 as usize - 2) * self.bpb.sectors_per_cluster() as usize
                + self.first_data_sector
        }
    }

    /// The number of sectors of the root directory.
    pub fn root_dir_sector_count(&self) -> (r: usize)
        ensures
            r == self.spec_root_dir_sectors(),
    {
        (self.bpb.root_entries_count() as usize * DIR_ENTRY_LEN + BLOCK_SIZE - 1) / BLOCK_SIZE
    }

    /// The size of a cluster in bytes.
    pub fn cluster_size(&self) -> (r: usize)
        ensures
            r == self.spc() * BLOCK_SIZE,
    {
        self.bpb.sectors_per_cluster() as usize * BLOCK_SIZE
    }

    /// Reads sector `sector` of the volume.
    pub fn read_sector(&self, sector: usize, block: &mut Block512) -> (r: FsResult<()>)
        ensures
            r is Ok ==> final(block)@ == self.inner.block_at(sector as int),
            r is Err ==> r == Err::<(), FsError>(FsError::BlockDeviceError),
    {
        self.inner.read_block(sector, block)
    }

    /// The cluster that follows `cluster`, read from the FAT.
    pub fn next_cluster(&self, cluster: Cluster) -> (r: FsResult<Cluster>)
        requires
            self.wf(),
        ensures
            r is Ok ==> r == Ok::<Cluster, FsError>(self.spec_next_cluster(cluster)),
            r is Err ==> r == Err::<Cluster, FsError>(FsError::BlockDeviceError),
    {
        let fat_offset: u64 = cluster.0 as u64 * 2;
        let fat_sector: usize = self.fat_start + (fat_offset / 512) as usize;
        let entry_offset: usize = (fat_offset % 512) as usize;
        let mut block = Block512::new();
        match self.read_sector(fat_sector, &mut block) {
            Ok(()) => {},
            Err(e) => {
                return Err(e);
            },
        }
        let next: u32 = block.data[entry_offset] as u32 + 256 * (block.data[entry_offset + 1] as u32);
        if next == 0 {
            Ok(Cluster(CLUSTER_EMPTY))
        } else if next == 1 {
            Ok(Cluster(CLUSTER_INVALID))
        } else if next <= 0xFFF6 {
            Ok(Cluster(next))
        } else if next == 0xFFF7 {
            Ok(Cluster(CLUSTER_BAD))
        } else {
            Ok(Cluster(CLUSTER_END_OF_FILE))
        }
    }

    /// The cluster that holds byte `offset` of the chain that starts at `start`.
    pub fn cluster_for_offset(&self, start: Cluster, offset: usize) -> (r: FsResult<Cluster>)
        requires
            self.wf(),
        ensures
            r == self.spec_walk(start, (offset as int / (self.spc() * 512)) as nat) || r == Err::<
                Cluster,
                FsError,
            >(FsError::BlockDeviceError),
            offset < self.spc() * 512 ==> r == Ok::<Cluster, FsError>(start),
    {
        let n = offset / self.cluster_size();
        proof {
            if offset < self.spc() * 512 {
                assert(n == 0) by (nonlinear_arith)
                    requires
                        n == offset as int / (self.spc() * 512),
                        0 <= offset < self.spc() * 512,
                ;
            }
        }
        let mut cluster = start;
        let mut k: usize = 0;
        while k < n
            invariant
                self.wf(),
                k <= n,
                k == 0 ==> cluster == start,
                offset < self.spc() * 512 ==> n == 0,
                n == offset as int / (self.spc() * 512),
                self.spec_walk(start, n as nat) == self.spec_walk(cluster, (n - k) as nat),
            decreases n - k,
        {
            cluster = match self.next_cluster(cluster) {
                Ok(c) => c,
                Err(e) => {
                    return Err(e);
                },
            };
            if cluster.0 == CLUSTER_END_OF_FILE {
                return Err(FsError::EndOfFile);
            } else if cluster.0 == CLUSTER_BAD {
                return Err(FsError::BadCluster);
            } else if cluster.0 == CLUSTER_EMPTY || cluster.0 == CLUSTER_INVALID {
                return Err(FsError::InvalidOperation);
            }
            k = k + 1;
        }
        Ok(cluster)
    }

    /// Raw record `i` (counting 16 per sector) of the sectors from `first` on.
    pub open spec fn raw_record(&self, first: int, i: int) -> Seq<u8> {
        self.inner.block_at(first + i / 16).subrange((i % 16) * 32, (i % 16) * 32 + 32)
    }

    /// The raw records listed in `count` sectors from `first`, from record `i`
    /// on, up to the end mark.
    pub open spec fn spec_scan(&self, first: int, count: nat, i: nat) -> Seq<Seq<u8>>
        decreases count * 16 - i,
    {
        if i >= count * 16 {
            Seq::empty()
        } else {
            let raw = self.raw_record(first, i as int);
            if raw_is_eod(raw) {
                Seq::empty()
            } else if raw_is_listed(raw) {
                seq![raw] + self.spec_scan(first, count, i + 1)
            } else {
                self.spec_scan(first, count, i + 1)
            }
        }
    }

    /// The raw records listed in the clusters of the chain from `c`, each
    /// cluster read up to its own end mark; at most `fuel` more clusters are
    /// followed.
    pub open spec fn spec_dir_chain(&self, c: Cluster, fuel: nat) -> Result<Seq<Seq<u8>>, FsError>
        decreases fuel,
    {
        let here = self.spec_scan(self.spec_cluster_to_sector(c), self.spc() as nat, 0);
        let next = self.spec_next_cluster(c);
        if next.0 == CLUSTER_END_OF_FILE {
            Ok(here)
        } else if chain_error(next) is Some {
            Err(chain_error(next)->0)
        } else if fuel == 0 {
            Err(FsError::InvalidOperation)
        } else {
            match self.spec_dir_chain(next, (fuel - 1) as nat) {
                Ok(rest) => Ok(here + rest),
                Err(e) => Err(e),
            }
        }
    }

    /// The raw records that the directory starting at cluster `c` lists.
    pub open spec fn spec_read_directory(&self, c: Cluster) -> Result<Seq<Seq<u8>>, FsError> {
        if c.0 == CLUSTER_ROOT_DIR {
            Ok(self.spec_scan(self.first_root_dir_sector as int, self.spec_root_dir_sectors() as nat, 0))
        } else {
            self.spec_dir_chain(c, (MAX_CHAIN - 1) as nat)
        }
    }

    /// The sectors of every cluster that a FAT entry can name have numbers that fit.
    pub proof fn lemma_data_cluster_fits(&self, c: Cluster)
        requires
            self.wf(),
            2 <= c.0 <= 0xFFF6,
        ensures
            self.sector_fits(c),
    {
        let spc = self.spc();
        let fc = self.bpb.fat_count as int;
        let spf = self.bpb.sectors_per_fat as int;
        assert((c.0 - 2) * spc <= 0xFFF4 * 255) by (nonlinear_arith)
            requires
                0 <= c.0 - 2 <= 0xFFF4,
                0 <= spc <= 255,
        ;
        assert(fc * spf <= 255 * 65535) by (nonlinear_arith)
            requires
                0 <= fc <= 255,
                0 <= spf <= 65535,
        ;
    }

    /// Reads the entries listed in `sectors` sectors from `first_sector` into
    /// `entries`, stopping at the end mark.
    pub fn read_dir_sectors(&self, first_sector: usize, sectors: usize, entries: &mut Vec<DirEntry>) -> (r:
        FsResult<()>)
        requires
            first_sector + sectors <= usize::MAX,
        ensures
            r is Ok ==> {
                let listed = self.spec_scan(first_sector as int, sectors as nat, 0);
                &&& final(entries)@.len() == old(entries)@.len() + listed.len()
                &&& final(entries)@.take(old(entries)@.len() as int) == old(entries)@
                &&& entries_match(final(entries)@.skip(old(entries)@.len() as int), listed)
                &&& all_listed(final(entries)@.skip(old(entries)@.len() as int))
            },
            r is Err ==> r == Err::<(), FsError>(FsError::BlockDeviceError),
            final(entries)@.len() >= old(entries)@.len(),
            final(entries)@.take(old(entries)@.len() as int) == old(entries)@,
            sectors == 0 ==> (r is Ok && final(entries)@ == old(entries)@),
    {
        let mut block = Block512::new();
        let ghost old_entries = entries@;
        let ghost mut acc: Seq<Seq<u8>> = Seq::empty();
        let ghost first = first_sector as int;
        let mut s: usize = 0;
        while s < sectors
            invariant
                s <= sectors,
                first == first_sector as int,
                old_entries == old(entries)@,
                first_sector + sectors <= usize::MAX,
                entries@.len() == old_entries.len() + acc.len(),
                entries@.take(old_entries.len() as int) == old_entries,
                entries_match(entries@.skip(old_entries.len() as int), acc),
                all_listed(entries@.skip(old_entries.len() as int)),
                self.spec_scan(first, sectors as nat, 0) == acc + self.spec_scan(
                    first,
                    sectors as nat,
                    (s * 16) as nat,
                ),
            decreases sectors - s,
        {
            let sector = first_sector + s;
            let res = self.read_sector(sector, &mut block);
            if res.is_err() {
                return Err(FsError::BlockDeviceError);
            }
            assert(block@ == self.inner.block_at(first + s));
            let mut k: usize = 0;
            while k < 16
                invariant
                    k <= 16,
                    s < sectors,
                    first == first_sector as int,
                    old_entries == old(entries)@,
                    block@ == self.inner.block_at(first + s),
                    entries@.len() == old_entries.len() + acc.len(),
                    entries@.take(old_entries.len() as int) == old_entries,
                    entries_match(entries@.skip(old_entries.len() as int), acc),
                    all_listed(entries@.skip(old_entries.len() as int)),
                    self.spec_scan(first, sectors as nat, 0) == acc + self.spec_scan(
                        first,
                        sectors as nat,
                        (s * 16 + k) as nat,
                    ),
                decreases 16 - k,
            {
                let ghost i = s * 16 + k;
                let off = k * 32;
                let raw: &[u8] = &block.data.as_slice()[off..off + 32];
                assert(raw@ == self.raw_record(first, i as int)) by {
                    assert(i / 16 == s as int);
                    assert(i % 16 == k as int);
                }
                let filename = ShortFileName::new(raw);
                if filename.is_eod() {
                    assert(self.spec_scan(first, sectors as nat, i as nat) == Seq::<Seq<u8>>::empty());
                    assert(acc + Seq::<Seq<u8>>::empty() =~= acc);
                    assert(entries@.skip(old_entries.len() as int).len() == acc.len());
                    return Ok(());
                }
                if !filename.is_unused() {
                    let entry = match DirEntry::parse(raw) {
                        Ok(e) => e,
                        Err(e) => {
                            return Err(e);
                        },
                    };
                    if entry.is_valid() && !entry.is_long_name() && !entry.attributes.contains(
                        ATTR_VOLUME_ID,
                    ) {
                        let ghost prev = entries@;
                        entries.push(entry);
                        proof {
                            assert(entries@.take(old_entries.len() as int) =~= old_entries);
                            assert(entries@.skip(old_entries.len() as int) =~= prev.skip(
                                old_entries.len() as int,
                            ).push(entry));
                            assert((acc + seq![raw@]) + self.spec_scan(
                                first,
                                sectors as nat,
                                (i + 1) as nat,
                            ) =~= acc + (seq![raw@] + self.spec_scan(
                                first,
                                sectors as nat,
                                (i + 1) as nat,
                            )));
                            acc = acc.push(raw@);
                            assert forall|j: int|
                                0 <= j < entries@.skip(
                                    old_entries.len() as int,
                                ).len() implies listed_entry(
                                #[trigger] entries@.skip(old_entries.len() as int)[j],
                            ) by {
                                if j < acc.len() - 1 {
                                    assert(entries@.skip(old_entries.len() as int)[j] == prev.skip(
                                        old_entries.len() as int,
                                    )[j]);
                                }
                            }
                            assert forall|j: int|
                                0 <= j < entries@.skip(
                                    old_entries.len() as int,
                                ).len() implies entry_of_raw(
                                #[trigger] entries@.skip(old_entries.len() as int)[j],
                                acc[j],
                            ) by {
                                if j < acc.len() - 1 {
                                    assert(entries@.skip(old_entries.len() as int)[j] == prev.skip(
                                        old_entries.len() as int,
                                    )[j]);
                                }
                            }
                        }
                    }
                }
                k = k + 1;
            }
            s = s + 1;
        }
        proof {
            assert(self.spec_scan(first, sectors as nat, (s * 16) as nat) == Seq::<Seq<u8>>::empty());
            assert(acc + Seq::<Seq<u8>>::empty() =~= acc);
        }
        Ok(())
    }

    /// The entries that directory `dir` lists: for the root directory, those
    /// of its reserved sectors; otherwise those of each cluster of its chain,
    /// each cluster read up to its own end mark.
    pub fn read_directory(&self, dir: &Directory) -> (r: FsResult<Vec<DirEntry>>)
        requires
            self.wf(),
            dir.cluster.0 >= 2,
            self.sector_fits(dir.cluster),
        ensures
            r matches Ok(es) ==> (self.spec_read_directory(dir.cluster) matches Ok(raws)
                && entries_match(es@, raws)),
            r matches Ok(es) ==> all_listed(es@),
            r matches Err(e) ==> (e == FsError::BlockDeviceError || self.spec_read_directory(
                dir.cluster,
            ) == Err::<Seq<Seq<u8>>, FsError>(e)),
            dir.cluster.0 == CLUSTER_ROOT_DIR && self.spec_root_dir_sectors() == 0 ==> (r matches Ok(
                es,
            ) && es@.len() == 0),
    {
        let mut entries: Vec<DirEntry> = Vec::new();
        if dir.cluster.0 == CLUSTER_ROOT_DIR {
            let count = self.root_dir_sector_count();
            match self.read_dir_sectors(self.first_root_dir_sector, count, &mut entries) {
                Ok(()) => {},
                Err(e) => {
                    return Err(e);
                },
            }
            assert(entries@.skip(0) =~= entries@);
            return Ok(entries);
        }
        let ghost start = dir.cluster;
        let ghost whole = self.spec_dir_chain(start, (MAX_CHAIN - 1) as nat);
        let ghost mut acc: Seq<Seq<u8>> = Seq::empty();
        let mut cluster = dir.cluster;
        let mut fuel: u32 = MAX_CHAIN - 1;
        let spc = self.bpb.sectors_per_cluster() as usize;
        loop
            invariant
                self.wf(),
                spc == self.spc(),
                cluster.0 >= 2,
                cluster.0 != CLUSTER_ROOT_DIR,
                dir.cluster.0 != CLUSTER_ROOT_DIR,
                self.sector_fits(cluster),
                whole == self.spec_read_directory(dir.cluster),
                entries_match(entries@, acc),
                all_listed(entries@),
                match self.spec_dir_chain(cluster, fuel as nat) {
                    Ok(rest) => whole == Ok::<Seq<Seq<u8>>, FsError>(acc + rest),
                    Err(e) => whole == Err::<Seq<Seq<u8>>, FsError>(e),
                },
            decreases fuel,
        {
            let first = self.cluster_to_sector(&cluster);
            let ghost here = self.spec_scan(first as int, spc as nat, 0);
            let ghost prev = entries@;
            match self.read_dir_sectors(first, spc, &mut entries) {
                Ok(()) => {},
                Err(e) => {
                    return Err(e);
                },
            }
            proof {
                lemma_entries_match_concat(entries@, prev.len() as int, acc, here);
            }
            let next = match self.next_cluster(cluster) {
                Ok(c) => c,
                Err(e) => {
                    return Err(e);
                },
            };
            if next.0 == CLUSTER_END_OF_FILE {
                return Ok(entries);
            } else if next.0 == CLUSTER_BAD {
                return Err(FsError::BadCluster);
            } else if next.0 == CLUSTER_EMPTY || next.0 == CLUSTER_INVALID {
                return Err(FsError::InvalidOperation);
            }
            if fuel == 0 {
                return Err(FsError::InvalidOperation);
            }
            proof {
                self.lemma_data_cluster_fits(next);
                assert((acc + here) + self.spec_dir_chain(next, (fuel - 1) as nat)->Ok_0 =~= acc + (here
                    + self.spec_dir_chain(next, (fuel - 1) as nat)->Ok_0));
                acc = acc + here;
            }
            fuel = fuel - 1;
            cluster = next;
        }
    }

    /// The non-empty parts of `path` between the separators `/`.
    pub fn path_components<'a>(path: &'a str) -> (r: Vec<&'a str>)
        ensures
            r@.len() == spec_path_components(path@).len(),
            forall|i: int| 0 <= i < r@.len() ==> (#[trigger] r@[i])@ == spec_path_components(path@)[i],
    {
        split_components(path)
    }

    /// A directory may be read at cluster `c`: it is at least 2 and its sectors
    /// have numbers that fit.
    pub open spec fn dir_cluster_ok(&self, c: Cluster) -> bool {
        c.0 >= 2 && self.sector_fits(c)
    }

    /// The layout of a volume stays far below 2^32 sectors before its data.
    pub proof fn lemma_layout_bounds(&self)
        requires
            self.wf(),
        ensures
            self.first_data_sector <= 0x1000_0000,
            self.first_root_dir_sector <= self.first_data_sector,
            self.spc() <= 255,
    {
        let fc = self.bpb.fat_count as int;
        let spf = self.bpb.sectors_per_fat as int;
        assert(fc * spf <= 255 * 65535) by (nonlinear_arith)
            requires
                0 <= fc <= 255,
                0 <= spf <= 65535,
        ;
    }

    /// Whether a directory may be read at cluster `c`.
    pub fn cluster_fits(&self, c: Cluster) -> (r: bool)
        requires
            self.wf(),
        ensures
            r == self.dir_cluster_ok(c),
    {
        proof {
            self.lemma_layout_bounds();
        }
        if c.0 < 2 {
            return false;
        }
        let spc = self.bpb.sectors_per_cluster() as u64;
        let last: u64 = if c.0 == CLUSTER_ROOT_DIR {
            self.first_root_dir_sector as u64 + spc
        } else {
            let k = (c.0 - 2) as u64;
            assert(k * spc <= 0xFFFF_FFFF * 255) by (nonlinear_arith)
                requires
                    k <= 0xFFFF_FFFF,
                    spc <= 255,
            ;
            k * spc + self.first_data_sector as u64 + spc
        };
        last <= usize::MAX as u64
    }

    /// The directory reached from `dir` by the components `comps[i..end]`, or
    /// the first error met: each component must be a valid short name that the
    /// current directory lists, as a directory that may be read.
    pub open spec fn spec_walk_dirs(&self, dir: Cluster, comps: Seq<Seq<char>>, i: int, end: int) -> Result<
        Cluster,
        FsError,
    >
        decreases end - i,
    {
        if i >= end {
            Ok(dir)
        } else {
            match spec_parse_sfn(encode_utf8(comps[i])) {
                Err(e) => Err(FsError::FilenameError(e)),
                Ok((n, e)) => match self.spec_read_directory(dir) {
                    Err(err) => Err(err),
                    Ok(raws) => match find_raw(raws, n, e, 0) {
                        None => Err(FsError::FileNotFound),
                        Some(raw) => if !raw_is_directory(raw) {
                            Err(FsError::NotADirectory)
                        } else if !self.dir_cluster_ok(Cluster(raw_cluster(raw) as u32)) {
                            Err(FsError::InvalidOperation)
                        } else {
                            self.spec_walk_dirs(
                                Cluster(raw_cluster(raw) as u32),
                                comps,
                                i + 1,
                                end,
                            )
                        },
                    },
                },
            }
        }
    }

    /// The directory that `path` names.
    #[verifier::opaque]
    pub open spec fn spec_open_dir(&self, path: Seq<char>) -> Result<Cluster, FsError> {
        let comps = spec_path_components(path);
        self.spec_walk_dirs(Cluster(CLUSTER_ROOT_DIR), comps, 0, comps.len() as int)
    }

    /// The raw record of the node that `path` names, `None` where its
    /// directory does not list it or the path is empty.
    pub open spec fn spec_find_entry(&self, path: Seq<char>) -> Result<Option<Seq<u8>>, FsError> {
        let comps = spec_path_components(path);
        if comps.len() == 0 {
            Ok(None)
        } else {
            match self.spec_walk_dirs(Cluster(CLUSTER_ROOT_DIR), comps, 0, comps.len() - 1) {
                Err(e) => Err(e),
                Ok(parent) => match spec_parse_sfn(encode_utf8(comps.last())) {
                    Err(e) => Err(FsError::FilenameError(e)),
                    Ok((n, e)) => match self.spec_read_directory(parent) {
                        Err(err) => Err(err),
                        Ok(raws) => Ok(find_raw(raws, n, e, 0)),
                    },
                },
            }
        }
    }

    /// The first of `entries` named `filename`.
    fn find_named(entries: &Vec<DirEntry>, filename: &ShortFileName, Ghost(raws): Ghost<
        Seq<Seq<u8>>,
    >) -> (r: Option<DirEntry>)
        requires
            entries_match(entries@, raws),
            all_listed(entries@),
        ensures
            r matches Some(en) ==> listed_entry(en),
            match find_raw(raws, filename.name@, filename.ext@, 0) {
                Some(raw) => r matches Some(en) && entry_of_raw(en, raw),
                None => r is None,
            },
    {
        let mut j: usize = 0;
        while j < entries.len()
            invariant
                entries_match(entries@, raws),
                all_listed(entries@),
                j <= entries@.len(),
                find_raw(raws, filename.name@, filename.ext@, 0) == find_raw(
                    raws,
                    filename.name@,
                    filename.ext@,
                    j as int,
                ),
            decreases entries@.len() - j,
        {
            let en = entries[j];
            assert(entry_of_raw(entries@[j as int], raws[j as int]));
            if en.filename.matches(filename) {
                return Some(en);
            }
            j = j + 1;
        }
        None
    }

    /// Opens the directory reached by the first `end` components of `comps`.
    fn open_dir_components(&self, comps: &Vec<&str>, end: usize) -> (r: FsResult<Directory>)
        requires
            self.wf(),
            end <= comps@.len(),
        ensures
            r matches Ok(d) ==> (self.spec_walk_dirs(
                Cluster(CLUSTER_ROOT_DIR),
                texts(comps@),
                0,
                end as int,
            ) == Ok::<Cluster, FsError>(d.cluster) && self.dir_cluster_ok(d.cluster)),
            r matches Err(e) ==> (e == FsError::BlockDeviceError || self.spec_walk_dirs(
                Cluster(CLUSTER_ROOT_DIR),
                texts(comps@),
                0,
                end as int,
            ) == Err::<Cluster, FsError>(e)),
            end == 0 ==> (r matches Ok(d) && d.cluster.0 == CLUSTER_ROOT_DIR),
            end > 0 ==> (spec_parse_sfn(encode_utf8(texts(comps@)[0])) matches Err(e) ==> r == Err::<
                Directory,
                FsError,
            >(FsError::FilenameError(e))),
    {
        proof {
            self.lemma_layout_bounds();
        }
        let ghost whole = self.spec_walk_dirs(Cluster(CLUSTER_ROOT_DIR), texts(comps@), 0, end as int);
        let mut dir = Directory::root();
        let mut i: usize = 0;
        while i < end
            invariant
                self.wf(),
                i <= end <= comps@.len(),
                self.dir_cluster_ok(dir.cluster),
                whole == self.spec_walk_dirs(Cluster(CLUSTER_ROOT_DIR), texts(comps@), 0, end as int),
                whole == self.spec_walk_dirs(dir.cluster, texts(comps@), i as int, end as int),
                i == 0 ==> dir.cluster.0 == CLUSTER_ROOT_DIR,
                i > 0 ==> spec_parse_sfn(encode_utf8(texts(comps@)[0])) is Ok,
            decreases end - i,
        {
            assert(texts(comps@)[i as int] == comps@[i as int]@);
            let filename = match ShortFileName::parse(comps[i]) {
                Ok(f) => f,
                Err(e) => {
                    return Err(e);
                },
            };
            let entries = match self.read_directory(&dir) {
                Ok(es) => es,
                Err(e) => {
                    return Err(e);
                },
            };
            let ghost raws = self.spec_read_directory(dir.cluster)->Ok_0;
            let entry = match Self::find_named(&entries, &filename, Ghost(raws)) {
                Some(en) => en,
                None => {
                    return Err(FsError::FileNotFound);
                },
            };
            if !entry.is_directory() {
                return Err(FsError::NotADirectory);
            }
            if !self.cluster_fits(entry.cluster) {
                return Err(FsError::InvalidOperation);
            }
            dir = Directory::from_entry(entry);
            i = i + 1;
        }
        Ok(dir)
    }

    /// Opens the directory that `path` names.
    pub fn open_dir(&self, path: &str) -> (r: FsResult<Directory>)
        requires
            self.wf(),
        ensures
            r matches Ok(d) ==> (self.spec_open_dir(path@) == Ok::<Cluster, FsError>(d.cluster)
                && self.dir_cluster_ok(d.cluster)),
            r matches Err(e) ==> (e == FsError::BlockDeviceError || self.spec_open_dir(path@)
                == Err::<Cluster, FsError>(e)),
            spec_path_components(path@).len() == 0 ==> (r matches Ok(d) && d.cluster.0
                == CLUSTER_ROOT_DIR),
            first_part_error(path@) matches Some(e) ==> r == Err::<Directory, FsError>(
                FsError::FilenameError(e),
            ),
    {
        let comps = Self::path_components(path);
        assert(texts(comps@) =~= spec_path_components(path@));
        proof {
            reveal(Fat16Impl::spec_open_dir);
        }
        self.open_dir_components(&comps, comps.len())
    }

    /// The entry of the node that `path` names, `None` where its directory does
    /// not list it or the path is empty.
    pub fn find_entry(&self, path: &str) -> (r: FsResult<Option<DirEntry>>)
        requires
            self.wf(),
        ensures
            r matches Ok(Some(en)) ==> (self.spec_find_entry(path@) matches Ok(Some(raw))
                && entry_of_raw(en, raw)),
            r matches Ok(Some(en)) ==> listed_entry(en),
            r matches Ok(None) ==> self.spec_find_entry(path@) == Ok::<Option<Seq<u8>>, FsError>(None),
            r matches Err(e) ==> (e == FsError::BlockDeviceError || self.spec_find_entry(path@)
                == Err::<Option<Seq<u8>>, FsError>(e)),
            spec_path_components(path@).len() == 0 ==> r == Ok::<Option<DirEntry>, FsError>(None),
            first_part_error(path@) matches Some(e) ==> r == Err::<Option<DirEntry>, FsError>(
                FsError::FilenameError(e),
            ),
    {
        let comps = Self::path_components(path);
        assert(texts(comps@) =~= spec_path_components(path@));
        proof {
            reveal(Fat16Impl::spec_find_entry);
        }
        if comps.len() == 0 {
            return Ok(None);
        }
        let last_index = comps.len() - 1;
        let parent = match self.open_dir_components(&comps, last_index) {
            Ok(d) => d,
            Err(e) => {
                return Err(e);
            },
        };
        assert(texts(comps@)[last_index as int] == comps@[last_index as int]@);
        let filename = match ShortFileName::parse(comps[last_index]) {
            Ok(f) => f,
            Err(e) => {
                return Err(e);
            },
        };
        let entries = match self.read_directory(&parent) {
            Ok(es) => es,
            Err(e) => {
                return Err(e);
            },
        };
        let ghost raws = self.spec_read_directory(parent.cluster)->Ok_0;
        Ok(Self::find_named(&entries, &filename, Ghost(raws)))
    }

    /// Byte `p` of the chain of clusters that starts at `start`.
    pub open spec fn spec_file_byte(&self, start: Cluster, p: int) -> u8 {
        let cs = self.spc() * 512;
        let c = self.spec_walk(start, (p / cs) as nat)->Ok_0;
        self.inner.block_at(self.spec_cluster_to_sector(c) + (p % cs) / 512)[(p % cs) % 512]
    }

    /// One more step along a chain follows the FAT from where `q` steps led.
    pub proof fn lemma_walk_step(&self, start: Cluster, q: nat)
        ensures
            self.spec_walk(start, q + 1) == match self.spec_walk(start, q) {
                Ok(c) => match chain_error(self.spec_next_cluster(c)) {
                    Some(e) => Err(e),
                    None => Ok(self.spec_next_cluster(c)),
                },
                Err(e) => Err(e),
            },
        decreases q,
    {
        let next = self.spec_next_cluster(start);
        if q == 0 {
            assert(self.spec_walk(start, 0) == Ok::<Cluster, FsError>(start));
            if chain_error(next) is None {
                assert(self.spec_walk(next, 0) == Ok::<Cluster, FsError>(next));
            }
        } else {
            if chain_error(next) is None {
                self.lemma_walk_step(next, (q - 1) as nat);
                assert(self.spec_walk(start, q) == self.spec_walk(next, (q - 1) as nat));
                assert(self.spec_walk(start, q + 1) == self.spec_walk(next, q));
            }
        }
    }

    /// The clusters that a walk reaches are its start or clusters that a FAT
    /// entry names.
    pub proof fn lemma_walk_range(&self, start: Cluster, q: nat)
        ensures
            self.spec_walk(start, q) matches Ok(c) ==> (c == start || 2 <= c.0 <= 0xFFF6),
        decreases q,
    {
        if q > 0 {
            let next = self.spec_next_cluster(start);
            if chain_error(next) is None {
                self.lemma_walk_range(next, (q - 1) as nat);
            }
        }
    }
}

} // verus!
