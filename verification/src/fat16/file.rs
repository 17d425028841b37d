//! Files of a FAT16 volume, read from their cluster chains.

use vstd::prelude::*;

use std::sync::Arc;

use crate::error::{FsError, FsResult};
use crate::fat16::device::{Block512, BlockDevice};
use crate::fat16::direntry::{Cluster, DirEntry, CLUSTER_BAD, CLUSTER_EMPTY, CLUSTER_END_OF_FILE, CLUSTER_INVALID};
use crate::fat16::impls::{chain_error, Fat16Impl};
use vstd::arithmetic::div_mod::{lemma_fundamental_div_mod, lemma_fundamental_div_mod_converse};

verus! {

/// The number of bytes that a read at `offset` of a file of `size` bytes into
/// a buffer of `buf_len` bytes asks for.
pub open spec fn spec_readable(offset: int, size: int, buf_len: int) -> int {
    if offset >= size || buf_len == 0 {
        0
    } else if buf_len < size - offset {
        buf_len
    } else {
        size - offset
    }
}

/// Whether the chain from `start` reaches the cluster of byte `p`.
pub open spec fn walk_ok<D: BlockDevice>(fs: Fat16Impl<D>, start: Cluster, p: int) -> bool {
    fs.spec_walk(start, (p / (fs.spc() * 512)) as nat) is Ok
}

/// Whether the first `n` bytes of `data` are the bytes of the chain from
/// `start` at positions `off0`, `off0 + 1`, ...
pub open spec fn read_prefix_matches<D: BlockDevice>(
    fs: Fat16Impl<D>,
    start: Cluster,
    off0: int,
    data: Seq<u8>,
    n: int,
) -> bool {
    forall|i: int|
        #![trigger data[i]]
        0 <= i < n ==> (data[i] == fs.spec_file_byte(start, off0 + i) && walk_ok(fs, start, off0 + i))
}

proof fn lemma_prefix_kept<D: BlockDevice>(
    fs: Fat16Impl<D>,
    start: Cluster,
    off0: int,
    a: Seq<u8>,
    b: Seq<u8>,
    n: int,
)
    requires
        read_prefix_matches(fs, start, off0, a, n),
        forall|i: int| 0 <= i < n ==> a[i] == b[i],
    ensures
        read_prefix_matches(fs, start, off0, b, n),
{
    assert forall|i: int|
        #![trigger b[i]]
        0 <= i < n implies (b[i] == fs.spec_file_byte(start, off0 + i) && walk_ok(fs, start, off0 + i)) by {
        assert(a[i] == b[i]);
    }
}

/// Step `i` of a run of files is a read as `File::read` ensures it: the entry
/// and the volume are kept and the position does not move back.
pub open spec fn read_step<D: BlockDevice>(run: Seq<File<D>>, i: int) -> bool {
    &&& run[i + 1].spec_entry() == run[i].spec_entry()
    &&& run[i + 1].spec_fs() == run[i].spec_fs()
    &&& run[i + 1].spec_offset() >= run[i].spec_offset()
}

/// Reads never change a file's length: along a run of reads from a file opened
/// on `entry`, the length, which is the entry's size, stays `entry.size`.
pub proof fn lemma_reads_keep_length<D: BlockDevice>(run: Seq<File<D>>, entry: DirEntry)
    requires
        run.len() > 0,
        run[0].spec_entry() == entry,
        forall|i: int| 0 <= i < run.len() - 1 ==> #[trigger] read_step(run, i),
    ensures
        forall|i: int| 0 <= i < run.len() ==> (#[trigger] run[i]).spec_entry().size == entry.size,
    decreases run.len(),
{
    if run.len() > 1 {
        let front = run.drop_last();
        assert forall|i: int| 0 <= i < front.len() - 1 implies #[trigger] read_step(front, i) by {
            assert(read_step(run, i));
            assert(front[i] == run[i] && front[i + 1] == run[i + 1]);
        }
        lemma_reads_keep_length(front, entry);
        assert forall|i: int| 0 <= i < run.len() implies (#[trigger] run[i]).spec_entry().size
            == entry.size by {
            if i < run.len() - 1 {
                assert(run[i] == front[i]);
            } else {
                assert(read_step(run, i - 1));
                assert(run[i - 1] == front[i - 1]);
            }
        }
    }
}

/// An open file: its directory entry, the volume that holds it and the
/// position of the next read.
pub struct File<D: BlockDevice> {
    offset: usize,
    current_cluster: Cluster,
    entry: DirEntry,
    handle: Arc<Fat16Impl<D>>,
}

impl<D: BlockDevice> File<D> {
    /// The position of the next read.
    pub closed spec fn spec_offset(&self) -> usize {
        self.offset
    }

    /// The directory entry of the file.
    pub closed spec fn spec_entry(&self) -> DirEntry {
        self.entry
    }

    /// The volume that holds the file.
    pub closed spec fn spec_fs(&self) -> Fat16Impl<D> {
        *self.handle
    }

    /// The cluster of the last read position.
    pub closed spec fn spec_current_cluster(&self) -> Cluster {
        self.current_cluster
    }

    /// The file of `entry` on the volume `handle`, to be read from its start.
    pub fn new(handle: Arc<Fat16Impl<D>>, entry: DirEntry) -> (r: Self)
        ensures
            r.spec_offset() == 0,
            r.spec_entry() == entry,
            r.spec_fs() == *handle,
            r.spec_current_cluster() == entry.cluster,
    {
        File { offset: 0, current_cluster: entry.cluster, entry, handle }
    }

    /// The length of the file in bytes.
    pub fn length(&self) -> (r: usize)
        ensures
            r == self.spec_entry().size,
    {
        self.entry.size as usize
    }

    /// Reads from the current position into `buf`, as many bytes as fit and
    /// remain, and moves the position past them. The read stops early where
    /// the cluster chain ends before the file does. At the end of the file, or
    /// into an empty buffer, it reads nothing and gives 0.
    #[verifier::spinoff_prover]
    pub fn read(&mut self, buf: &mut [u8]) -> (r: FsResult<usize>)
        requires
            old(self).spec_fs().wf(),
            old(self).spec_offset() < old(self).spec_entry().size && old(buf)@.len() > 0
                ==> old(self).spec_fs().dir_cluster_ok(old(self).spec_entry().cluster),
        ensures
            final(self).spec_entry() == old(self).spec_entry(),
            final(self).spec_fs() == old(self).spec_fs(),
            final(self).spec_offset() >= old(self).spec_offset(),
            final(buf)@.len() == old(buf)@.len(),
            old(self).spec_offset() >= old(self).spec_entry().size || old(buf)@.len() == 0
                ==> (r == Ok::<usize, FsError>(0) && final(buf)@ == old(buf)@
                && final(self).spec_offset() == old(self).spec_offset()),
            r matches Ok(n) ==> {
                let fs = old(self).spec_fs();
                let start = old(self).spec_entry().cluster;
                let off0 = old(self).spec_offset() as int;
                let cs = fs.spc() * 512;
                let readable = spec_readable(
                    off0,
                    old(self).spec_entry().size as int,
                    old(buf)@.len() as int,
                );
                &&& n <= readable
                &&& final(self).spec_offset() == off0 + n
                &&& read_prefix_matches(fs, start, off0, final(buf)@, n as int)
                &&& forall|i: int|
                    n <= i < old(buf)@.len() ==> #[trigger] final(buf)@[i] == old(buf)@[i]
                &&& n < readable ==> fs.spec_walk(start, ((off0 + n) / cs) as nat) == Err::<
                    Cluster,
                    FsError,
                >(FsError::EndOfFile)
            },
            r matches Err(e) ==> (e == FsError::BlockDeviceError || old(self).spec_fs().spec_walk(
                old(self).spec_entry().cluster,
                (final(self).spec_offset() as int / (old(self).spec_fs().spc() * 512)) as nat,
            ) == Err::<Cluster, FsError>(e)),
    {
        let size = self.length();
        if self.offset >= size || buf.len() == 0 {
            return Ok(0);
        }
        let readable = if buf.len() < size - self.offset {
            buf.len()
        } else {
            size - self.offset
        };
        let cs = self.handle.cluster_size();
        let ghost fs = self.spec_fs();
        let ghost start = self.entry.cluster;
        let ghost off0 = self.offset as int;
        let ghost old_buf = buf@;
        let mut copied: usize = 0;
        let mut block = Block512::new();
        self.current_cluster = match self.handle.cluster_for_offset(self.entry.cluster, self.offset) {
            Ok(c) => c,
            Err(e) => {
                return Err(e);
            },
        };
        proof {
            fs.lemma_walk_range(start, (off0 / cs as int) as nat);
            if self.current_cluster != start {
                fs.lemma_data_cluster_fits(self.current_cluster);
            }
        }
        while copied < readable
            invariant
                fs == self.spec_fs(),
                fs == old(self).spec_fs(),
                self.spec_entry() == old(self).spec_entry(),
                off0 == old(self).spec_offset(),
                old_buf == old(buf)@,
                fs.wf(),
                start == self.entry.cluster,
                size == self.entry.size,
                cs == fs.spc() * 512,
                off0 + readable <= size,
                readable <= buf@.len(),
                buf@.len() == old_buf.len(),
                copied <= readable,
                self.offset == off0 + copied,
                copied < readable ==> (fs.spec_walk(start, (self.offset as int / cs as int) as nat)
                    == Ok::<Cluster, FsError>(self.current_cluster) && fs.dir_cluster_ok(
                    self.current_cluster,
                )),
                read_prefix_matches(fs, start, off0, buf@, copied as int),
                forall|i: int| copied <= i < buf@.len() ==> #[trigger] buf@[i] == old_buf[i],
            decreases readable - copied,
        {
            let ghost q = self.offset as int / cs as int;
            let cluster_offset = self.offset % cs;
            let sector_offset = cluster_offset / 512;
            let byte_offset = cluster_offset % 512;
            proof {
                lemma_fundamental_div_mod(self.offset as int, cs as int);
                assert(self.offset == q * cs + cluster_offset) by (nonlinear_arith)
                    requires
                        self.offset == cs * q + cluster_offset,
                ;
                assert(sector_offset + 1 <= fs.spc()) by (nonlinear_arith)
                    requires
                        cluster_offset < cs,
                        cs == fs.spc() * 512,
                        sector_offset == cluster_offset / 512,
                ;
            }
            let sector = self.handle.cluster_to_sector(&self.current_cluster) + sector_offset;
            if self.handle.read_sector(sector, &mut block).is_err() {
                return Err(FsError::BlockDeviceError);
            }
            let available = 512 - byte_offset;
            let chunk = if available < readable - copied {
                available
            } else {
                readable - copied
            };
            assert(cluster_offset + chunk <= cs) by (nonlinear_arith)
                requires
                    cluster_offset == 512 * sector_offset + byte_offset,
                    chunk <= 512 - byte_offset,
                    sector_offset + 1 <= fs.spc(),
                    cs == fs.spc() * 512,
            ;
            let mut t: usize = 0;
            while t < chunk
                invariant
                    t <= chunk,
                    copied + chunk <= readable,
                    fs == self.spec_fs(),
                    block@ == fs.inner.block_at(sector as int),
                    readable <= buf@.len(),
                    byte_offset + chunk <= 512,
                    buf@.len() == old_buf.len(),
                    read_prefix_matches(fs, start, off0, buf@, copied as int),
                    forall|i: int|
                        copied <= i < copied + t ==> #[trigger] buf@[i] == block@[byte_offset + i
                            - copied],
                    forall|i: int| copied + t <= i < buf@.len() ==> #[trigger] buf@[i] == old_buf[i],
                decreases chunk - t,
            {
                let ghost prev_buf = buf@;
                buf[copied + t] = block.data[byte_offset + t];
                proof {
                    lemma_prefix_kept(fs, start, off0, prev_buf, buf@, copied as int);
                }
                t = t + 1;
            }
            assert(read_prefix_matches(fs, start, off0, buf@, (copied + chunk) as int)) by {
                assert forall|i: int|
                    #![trigger buf@[i]]
                    0 <= i < copied + chunk implies (buf@[i] == fs.spec_file_byte(start, off0 + i)
                        && walk_ok(fs, start, off0 + i)) by {
                    if i < copied {
                        assert(read_prefix_matches(fs, start, off0, buf@, copied as int));
                    } else {
                        let p = off0 + i;
                        assert(cs == fs.spc() * 512);
                        let u = i - copied;
                        assert(p == q * cs + (cluster_offset + u));
                        lemma_fundamental_div_mod_converse(p, cs as int, q, cluster_offset + u);
                        assert(cluster_offset == sector_offset * 512 + byte_offset);
                        lemma_fundamental_div_mod_converse(
                            cluster_offset + u,
                            512,
                            sector_offset as int,
                            byte_offset + u,
                        );
                        assert(fs.spec_walk(start, (p / cs as int) as nat) == Ok::<Cluster, FsError>(
                            self.current_cluster,
                        ));
                        assert(buf@[i] == block@[byte_offset + u]);
                        assert(fs.spec_file_byte(start, p) == fs.inner.block_at(
                            fs.spec_cluster_to_sector(self.current_cluster) + sector_offset,
                        )[byte_offset + u]);
                    }
                }
            }
            copied = copied + chunk;
            self.offset = self.offset + chunk;
            if self.offset < size && self.offset % cs == 0 {
                proof {
                    if cluster_offset + chunk < cs {
                        lemma_fundamental_div_mod_converse(
                            self.offset as int,
                            cs as int,
                            q,
                            cluster_offset + chunk,
                        );
                    }
                    assert(self.offset == (q + 1) * cs + 0) by (nonlinear_arith)
                        requires
                            self.offset == q * cs + cluster_offset + chunk,
                            cluster_offset + chunk == cs,
                    ;
                    lemma_fundamental_div_mod_converse(self.offset as int, cs as int, q + 1, 0);
                    fs.lemma_walk_step(start, q as nat);
                }
                let next = match self.handle.next_cluster(self.current_cluster) {
                    Ok(c) => c,
                    Err(e) => {
                        return Err(e);
                    },
                };
                self.current_cluster = next;
                if next.0 == CLUSTER_END_OF_FILE {
                    return Ok(copied);
                } else if next.0 == CLUSTER_BAD {
                    return Err(FsError::BadCluster);
                } else if next.0 == CLUSTER_EMPTY || next.0 == CLUSTER_INVALID {
                    return Err(FsError::InvalidOperation);
                }
                proof {
                    fs.lemma_data_cluster_fits(next);
                }
            } else {
                proof {
                    if copied < readable {
                        if cluster_offset + chunk == cs {
                            assert(self.offset == (q + 1) * cs + 0) by (nonlinear_arith)
                                requires
                                    self.offset == q * cs + cluster_offset + chunk,
                                    cluster_offset + chunk == cs,
                            ;
                            lemma_fundamental_div_mod_converse(self.offset as int, cs as int, q + 1, 0);
                        } else {
                            lemma_fundamental_div_mod_converse(
                                self.offset as int,
                                cs as int,
                                q,
                                cluster_offset + chunk,
                            );
                        }
                    }
                }
            }
        }
        Ok(copied)
    }
}

} // verus!
