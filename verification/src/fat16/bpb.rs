//! The BIOS parameter block of a FAT16 volume.

use vstd::prelude::*;

use crate::fat16::direntry::le16;

verus! {

/// The fields of the BIOS parameter block that the file system reads.
#[derive(Clone, Copy, Debug)]
pub struct Fat16Bpb {
    pub bytes_per_sector: u16,
    pub sectors_per_cluster: u8,
    pub reserved_sector_count: u16,
    pub fat_count: u8,
    pub root_entries_count: u16,
    pub sectors_per_fat: u16,
}

/// Whether the 512-byte boot sector `data` holds a parameter block that this
/// library reads: the boot signature 0x55 0xAA at bytes 510-511, 512 bytes per
/// sector and at least one sector per cluster.
pub open spec fn spec_bpb_accepted(data: Seq<u8>) -> bool {
    &&& data.len() == 512
    &&& data[510] == 0x55
    &&& data[511] == 0xAA
    &&& le16(data, 11) == 512
    &&& data[13] != 0
}

/// Whether `bpb` holds the fields at their offsets in `data`: bytes per sector
/// at 11, sectors per cluster at 13, reserved sectors at 14, FAT count at 16,
/// root entries at 17 and sectors per FAT at 22.
pub open spec fn bpb_of_data(bpb: Fat16Bpb, data: Seq<u8>) -> bool {
    &&& bpb.bytes_per_sector == le16(data, 11)
    &&& bpb.sectors_per_cluster == data[13]
    &&& bpb.reserved_sector_count == le16(data, 14)
    &&& bpb.fat_count == data[16]
    &&& bpb.root_entries_count == le16(data, 17)
    &&& bpb.sectors_per_fat == le16(data, 22)
}

fn field16(data: &[u8], i: usize) -> (r: u16)
    requires
        i + 1 < data@.len(),
    ensures
        r == le16(data@, i as int),
{
    data[i] as u16 + 256 * (data[i + 1] as u16)
}

impl Fat16Bpb {
    /// Reads the parameter block from a boot sector.
    pub fn new(data: &[u8]) -> (r: Option<Fat16Bpb>)
        ensures
            r is Some <==> spec_bpb_accepted(data@),
            r matches Some(bpb) ==> bpb_of_data(bpb, data@),
    {
        if data.len() != 512 {
            return None;
        }
        if data[510] != 0x55 || data[511] != 0xAA {
            return None;
        }
        let bytes_per_sector = field16(data, 11);
        if bytes_per_sector != 512 || data[13] == 0 {
            return None;
        }
        Some(
            Fat16Bpb {
                bytes_per_sector,
                sectors_per_cluster: data[13],
                reserved_sector_count: field16(data, 14),
                fat_count: data[16],
                root_entries_count: field16(data, 17),
                sectors_per_fat: field16(data, 22),
            },
        )
    }

    /// The number of sectors reserved before the first FAT.
    pub fn reserved_sector_count(&self) -> (r: u16)
        ensures
            r == self.reserved_sector_count,
    {
        self.reserved_sector_count
    }

    /// The number of sectors per cluster.
    pub fn sectors_per_cluster(&self) -> (r: u8)
        ensures
            r == self.sectors_per_cluster,
    {
        self.sectors_per_cluster
    }

    /// The number of FATs.
    pub fn fat_count(&self) -> (r: u8)
        ensures
            r == self.fat_count,
    {
        self.fat_count
    }

    /// The number of entries of the root directory.
    pub fn root_entries_count(&self) -> (r: u16)
        ensures
            r == self.root_entries_count,
    {
        self.root_entries_count
    }

    /// The number of sectors of one FAT.
    pub fn sectors_per_fat(&self) -> (r: u16)
        ensures
            r == self.sectors_per_fat,
    {
        self.sectors_per_fat
    }
}

} // verus!
