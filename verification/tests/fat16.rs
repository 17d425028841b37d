use chrono::{Datelike, TimeZone, Timelike, Utc};
use ysos::error::{FilenameError, FsError};
use ysos::fat16::device::RamDisk;
use ysos::fat16::direntry::{
    Attributes, Cluster, DirEntry, FileType, ShortFileName, ATTR_ARCHIVE, ATTR_DIRECTORY,
};
use ysos::fat16::fs::Fat16;
use ysos::fat16::impls::Fat16Impl;
use ysos::text::trim_end;
use ysos::time::FsTime;

fn hex(s: &str) -> Vec<u8> {
    s.split_whitespace()
        .map(|b| u8::from_str_radix(b, 16).unwrap())
        .collect()
}

fn same_time(t: &FsTime, y: i32, mo: u32, d: u32, h: u32, mi: u32, s: u32) -> bool {
    let c = Utc.with_ymd_and_hms(y, mo, d, h, mi, s).unwrap();
    t.year == c.year()
        && t.month == c.month()
        && t.day == c.day()
        && t.hour == c.hour()
        && t.minute == c.minute()
        && t.second == c.second()
}

#[test]
fn test_dir_entry() {
    let data = hex(
        "4b 45 52 4e 45 4c 20 20 45 4c 46 20 00 00 0f be
         d0 50 d0 50 00 00 0f be d0 50 02 00 f0 e4 0e 00",
    );

    let res = DirEntry::parse(&data).unwrap();

    assert_eq!(&res.filename.name, b"KERNEL  ");
    assert_eq!(&res.filename.ext, b"ELF");
    assert_eq!(res.attributes, Attributes::from_bits_truncate(ATTR_ARCHIVE));
    assert_eq!(res.cluster.0, Cluster(2).0);
    assert_eq!(res.size, 0xee4f0);
    assert!(same_time(&res.created_time, 2020, 6, 16, 23, 48, 30));
    assert!(same_time(&res.modified_time, 2020, 6, 16, 23, 48, 30));
    assert!(same_time(&res.accessed_time, 2020, 6, 16, 0, 0, 0));

    println!("{:#?}", res);
}

#[test]
fn dir_entry_too_short_is_refused() {
    let data = [0u8; 31];
    assert_eq!(
        DirEntry::parse(&data).unwrap_err(),
        FsError::FilenameError(FilenameError::UnableToParse)
    );
}

#[test]
fn dir_entry_kinds_and_name() {
    let data = hex(
        "4b 45 52 4e 45 4c 20 20 45 4c 46 20 00 00 0f be
         d0 50 d0 50 00 00 0f be d0 50 02 00 f0 e4 0e 00",
    );
    let e = DirEntry::parse(&data).unwrap();
    assert!(e.is_valid());
    assert!(!e.is_long_name());
    assert!(e.is_file());
    assert!(!e.is_directory());
    assert_eq!(e.filename(), "KERNEL.ELF");
    let m = e.as_meta();
    assert_eq!(m.name, "KERNEL.ELF");
    assert_eq!(m.len, 0xee4f0);
    assert_eq!(m.entry_type, FileType::File);
}

#[test]
fn bad_packed_date_reads_as_the_epoch() {
    // Month 0 in the date field is no real date.
    let mut data = [0x20u8; 32];
    data[0] = b'A';
    data[11] = 0;
    for b in data[12..].iter_mut() {
        *b = 0;
    }
    let e = DirEntry::parse(&data).unwrap();
    assert!(same_time(&e.accessed_time, 1970, 1, 1, 0, 0, 0));
}

#[test]
fn short_file_name_parse_upper_cases_and_pads() {
    let sfn = ShortFileName::parse("hello.txt").unwrap();
    assert_eq!(&sfn.name, b"HELLO   ");
    assert_eq!(&sfn.ext, b"TXT");
    assert_eq!(sfn.basename(), "HELLO   ");
    assert_eq!(sfn.extension(), "TXT");
    assert_eq!(sfn.to_display_string(), "HELLO.TXT");
    let same = ShortFileName::parse("HeLLo.TxT").unwrap();
    assert!(sfn.matches(&same));
}

#[test]
fn short_file_name_errors() {
    assert_eq!(
        ShortFileName::parse("").unwrap_err(),
        FsError::FilenameError(FilenameError::FilenameEmpty)
    );
    assert_eq!(
        ShortFileName::parse(".txt").unwrap_err(),
        FsError::FilenameError(FilenameError::MisplacedPeriod)
    );
    assert_eq!(
        ShortFileName::parse("a.b.c").unwrap_err(),
        FsError::FilenameError(FilenameError::MisplacedPeriod)
    );
    assert_eq!(
        ShortFileName::parse("a*b").unwrap_err(),
        FsError::FilenameError(FilenameError::InvalidCharacter)
    );
    assert_eq!(
        ShortFileName::parse("abcdefghi").unwrap_err(),
        FsError::FilenameError(FilenameError::NameTooLong)
    );
    assert_eq!(
        ShortFileName::parse("a.abcd").unwrap_err(),
        FsError::FilenameError(FilenameError::NameTooLong)
    );
}

#[test]
fn cluster_arithmetic_and_display() {
    let c = Cluster(2).add(3);
    assert_eq!(c.0, 5);
    let mut d = Cluster(7);
    d.add_assign(1);
    assert_eq!(d.0, 8);
    assert_eq!(Cluster(0x2a).to_hex_string(), "0x0000002A");
}

#[test]
fn attributes_bits() {
    let a = Attributes::from_bits_truncate(0xff);
    assert_eq!(a.bits(), 0x3f);
    assert!(Attributes::from_bits(0x40).is_none());
    assert!(Attributes::from_bits(ATTR_DIRECTORY).unwrap().contains(ATTR_DIRECTORY));
}

fn put_entry(block: &mut [u8; 512], slot: usize, name: &[u8; 11], attr: u8, cluster: u16, size: u32) {
    let e = &mut block[slot * 32..slot * 32 + 32];
    e[..11].copy_from_slice(name);
    e[11] = attr;
    // 2020-06-16 23:48:30
    e[14..16].copy_from_slice(&[0x0f, 0xbe]);
    e[16..18].copy_from_slice(&[0xd0, 0x50]);
    e[18..20].copy_from_slice(&[0xd0, 0x50]);
    e[22..24].copy_from_slice(&[0x0f, 0xbe]);
    e[24..26].copy_from_slice(&[0xd0, 0x50]);
    e[26..28].copy_from_slice(&cluster.to_le_bytes());
    e[28..32].copy_from_slice(&size.to_le_bytes());
}

/// A small FAT16 volume: one reserved sector, two FATs of one sector, a root
/// directory of 16 entries, one sector per cluster. The root holds
/// HELLO.TXT (600 bytes in clusters 2 and 3), the directory APP (cluster 4)
/// and LOOP.BIN, whose chain loops. APP holds SHELL.BIN (11 bytes in
/// cluster 5).
fn volume() -> RamDisk {
    let mut blocks = vec![[0u8; 512]; 14];
    let boot = &mut blocks[0];
    boot[11..13].copy_from_slice(&512u16.to_le_bytes());
    boot[13] = 1;
    boot[14..16].copy_from_slice(&1u16.to_le_bytes());
    boot[16] = 2;
    boot[17..19].copy_from_slice(&16u16.to_le_bytes());
    boot[22..24].copy_from_slice(&1u16.to_le_bytes());
    boot[510] = 0x55;
    boot[511] = 0xAA;
    for fat in 1..=2 {
        let f = &mut blocks[fat];
        let entries: [u16; 12] =
            [0xfff8, 0xffff, 3, 0xffff, 0xffff, 0xffff, 6, 6, 0xffff, 0xfff7, 0, 11];
        for (i, v) in entries.iter().enumerate() {
            f[i * 2..i * 2 + 2].copy_from_slice(&v.to_le_bytes());
        }
    }
    let mut root = [0u8; 512];
    put_entry(&mut root, 0, b"HELLO   TXT", ATTR_ARCHIVE, 2, 600);
    put_entry(&mut root, 1, b"APP        ", ATTR_DIRECTORY, 4, 0);
    put_entry(&mut root, 2, b"LOOP    BIN", ATTR_ARCHIVE, 6, 2000);
    put_entry(&mut root, 3, b"SHORT   BIN", ATTR_ARCHIVE, 8, 1000);
    put_entry(&mut root, 4, b"BAD     BIN", ATTR_ARCHIVE, 9, 1000);
    put_entry(&mut root, 5, b"HOLE    BIN", ATTR_ARCHIVE, 10, 1000);
    put_entry(&mut root, 6, b"LOOPDIR    ", ATTR_DIRECTORY, 11, 0);
    blocks[3] = root;
    // Clusters 8 to 10 (sectors 10 to 12) hold one cluster of each file.
    blocks[10] = [b's'; 512];
    blocks[11] = [b'x'; 512];
    blocks[12] = [b'h'; 512];
    // Cluster 11 (sector 13) is a directory of unused entries whose chain loops.
    let mut unused = [0x20u8; 512];
    for slot in 0..16 {
        unused[slot * 32] = 0xE5;
    }
    blocks[13] = unused;
    // Data starts at sector 4: cluster n is sector n + 2.
    blocks[4] = [b'a'; 512];
    let mut c3 = [0u8; 512];
    c3[..88].copy_from_slice(&[b'b'; 88]);
    blocks[5] = c3;
    let mut app = [0u8; 512];
    put_entry(&mut app, 0, b"SHELL   BIN", ATTR_ARCHIVE, 5, 11);
    blocks[6] = app;
    let mut c5 = [0u8; 512];
    c5[..11].copy_from_slice(b"hello shell");
    blocks[7] = c5;
    blocks[8] = [b'z'; 512];
    RamDisk { blocks }
}

#[test]
fn mount_reads_the_layout() {
    let fs = Fat16Impl::new(volume()).unwrap();
    assert_eq!(fs.fat_start, 1);
    assert_eq!(fs.first_root_dir_sector, 3);
    assert_eq!(fs.first_data_sector, 4);
    assert_eq!(fs.cluster_size(), 512);
    assert_eq!(fs.root_dir_sector_count(), 1);
    assert_eq!(fs.cluster_to_sector(&Cluster(2)), 4);
    assert_eq!(fs.cluster_to_sector(&Cluster(5)), 7);
}

#[test]
fn mount_refuses_a_disk_without_signature() {
    let mut disk = volume();
    disk.blocks[0][510] = 0;
    assert_eq!(Fat16Impl::new(disk).err(), Some(FsError::InvalidBpb));
}

#[test]
fn mount_reports_a_failing_device() {
    let disk = RamDisk { blocks: vec![] };
    assert_eq!(Fat16Impl::new(disk).err(), Some(FsError::BlockDeviceError));
}

#[test]
fn next_cluster_follows_the_fat() {
    let fs = Fat16Impl::new(volume()).unwrap();
    assert_eq!(fs.next_cluster(Cluster(2)).unwrap().0, 3);
    assert_eq!(fs.next_cluster(Cluster(3)).unwrap().0, 0xFFFF_FFFF);
}

#[test]
fn read_dir_lists_the_root() {
    let fs = Fat16::new(volume()).unwrap();
    let metas = fs.read_dir("/").unwrap();
    let names: Vec<&str> = metas.iter().map(|m| m.name.as_str()).collect();
    assert_eq!(
        names,
        vec!["HELLO.TXT", "APP", "LOOP.BIN", "SHORT.BIN", "BAD.BIN", "HOLE.BIN", "LOOPDIR"]
    );
    assert!(metas[0].is_file());
    assert_eq!(metas[0].len, 600);
    assert!(metas[1].is_dir());
}

#[test]
fn read_dir_lists_a_subdirectory() {
    let fs = Fat16::new(volume()).unwrap();
    let metas = fs.read_dir("/app").unwrap();
    assert_eq!(metas.len(), 1);
    assert_eq!(metas[0].name, "SHELL.BIN");
    assert_eq!(metas[0].len, 11);
}

#[test]
fn read_dir_of_a_file_is_refused() {
    let fs = Fat16::new(volume()).unwrap();
    assert_eq!(fs.read_dir("/HELLO.TXT").unwrap_err(), FsError::NotADirectory);
    assert_eq!(fs.read_dir("/NOPE").unwrap_err(), FsError::FileNotFound);
}

#[test]
fn open_file_reads_across_clusters() {
    let fs = Fat16::new(volume()).unwrap();
    let mut h = fs.open_file("/HELLO.TXT").unwrap();
    assert_eq!(h.meta.len, 600);
    assert_eq!(h.file.length(), 600);
    let mut buf = vec![0u8; 1024];
    let n = h.file.read(&mut buf).unwrap();
    assert_eq!(n, 600);
    assert!(buf[..512].iter().all(|&b| b == b'a'));
    assert!(buf[512..600].iter().all(|&b| b == b'b'));
    // At the end of the file a read gives nothing more.
    let again = h.file.read(&mut buf);
    assert!(matches!(again, Ok(0) | Err(FsError::EndOfFile)));
}

#[test]
fn open_file_in_small_reads() {
    let fs = Fat16::new(volume()).unwrap();
    let mut h = fs.open_file("/app/shell.bin").unwrap();
    let mut buf = [0u8; 5];
    let mut out = Vec::new();
    loop {
        match h.file.read(&mut buf) {
            Ok(0) | Err(FsError::EndOfFile) => break,
            Ok(n) => out.extend_from_slice(&buf[..n]),
            Err(e) => panic!("{:?}", e),
        }
    }
    assert_eq!(out, b"hello shell");
}

#[test]
fn open_file_errors() {
    let fs = Fat16::new(volume()).unwrap();
    assert_eq!(fs.open_file("/APP").err().unwrap(), FsError::NotAFile);
    assert_eq!(fs.open_file("/MISSING.TXT").err().unwrap(), FsError::FileNotFound);
    assert_eq!(
        fs.open_file("/BAD*NAME").err().unwrap(),
        FsError::FilenameError(FilenameError::InvalidCharacter)
    );
}

#[test]
fn a_looping_chain_is_an_error_not_a_hang() {
    let fs = Fat16::new(volume()).unwrap();
    let mut h = fs.open_file("/LOOP.BIN").unwrap();
    let mut buf = vec![0u8; 4096];
    // The chain 6 -> 6 -> ... never ends, but the file's size bounds the read.
    let n = h.file.read(&mut buf).unwrap();
    assert_eq!(n, 2000);
    assert!(buf[..2000].iter().all(|&b| b == b'z'));
}

#[test]
fn metadata_of_root_and_files() {
    let fs = Fat16::new(volume()).unwrap();
    let root = fs.metadata("/").unwrap();
    assert_eq!(root.name, "/");
    assert!(root.is_dir());
    let m = fs.metadata("/APP/SHELL.BIN").unwrap();
    assert_eq!(m.name, "SHELL.BIN");
    assert_eq!(fs.metadata("/APP/NONE").unwrap_err(), FsError::FileNotFound);
    assert_eq!(fs.exists_path("/APP").unwrap(), true);
    assert_eq!(fs.exists_path("/").unwrap(), true);
    assert_eq!(fs.exists_path("/NONE").unwrap(), false);
    assert!(Fat16::<RamDisk>::handle_path_is_root("//"));
    assert!(!Fat16::<RamDisk>::handle_path_is_root("/a"));
}

#[test]
fn path_components_split_on_slashes() {
    let parts = Fat16Impl::<RamDisk>::path_components("//app///sh.bin/");
    assert_eq!(parts, vec!["app", "sh.bin"]);
}

#[test]
fn a_chain_that_ends_early_stops_the_read() {
    let fs = Fat16::new(volume()).unwrap();
    let mut h = fs.open_file("/SHORT.BIN").unwrap();
    let mut buf = vec![0u8; 1000];
    let n = h.file.read(&mut buf).unwrap();
    assert_eq!(n, 512);
    assert!(buf[..512].iter().all(|&b| b == b's'));
    assert_eq!(h.file.read(&mut buf).unwrap_err(), FsError::EndOfFile);
}

#[test]
fn a_bad_cluster_is_reported() {
    let fs = Fat16::new(volume()).unwrap();
    let mut h = fs.open_file("/BAD.BIN").unwrap();
    let mut buf = vec![0u8; 1000];
    assert_eq!(h.file.read(&mut buf).unwrap_err(), FsError::BadCluster);
}

#[test]
fn an_empty_cluster_in_a_chain_is_an_invalid_operation() {
    let fs = Fat16::new(volume()).unwrap();
    let mut h = fs.open_file("/HOLE.BIN").unwrap();
    let mut buf = vec![0u8; 1000];
    assert_eq!(h.file.read(&mut buf).unwrap_err(), FsError::InvalidOperation);
}

#[test]
fn a_directory_whose_chain_loops_is_refused() {
    let fs = Fat16::new(volume()).unwrap();
    assert_eq!(fs.read_dir("/LOOPDIR").unwrap_err(), FsError::InvalidOperation);
}

#[test]
fn app_names_are_the_files_of_a_listing() {
    let fs = Fat16::new(volume()).unwrap();
    let metas = fs.read_dir("/").unwrap();
    let names = ysos::proc::app_names(&metas);
    assert_eq!(names, vec!["HELLO.TXT", "LOOP.BIN", "SHORT.BIN", "BAD.BIN", "HOLE.BIN"]);
}

#[test]
fn reads_at_the_end_give_nothing_and_keep_the_length() {
    let fs = Fat16::new(volume()).unwrap();
    let mut h = fs.open_file("/HELLO.TXT").unwrap();
    let mut buf = vec![7u8; 1024];
    assert_eq!(h.file.read(&mut buf).unwrap(), 600);
    assert_eq!(h.file.length(), 600);
    let before = buf.clone();
    assert_eq!(h.file.read(&mut buf).unwrap(), 0);
    assert_eq!(h.file.read(&mut buf).unwrap(), 0);
    assert_eq!(buf, before);
    assert_eq!(h.file.length(), 600);
}

#[test]
fn an_empty_buffer_reads_nothing() {
    let fs = Fat16::new(volume()).unwrap();
    let mut h = fs.open_file("/app/shell.bin").unwrap();
    let mut empty: [u8; 0] = [];
    assert_eq!(h.file.read(&mut empty).unwrap(), 0);
    let mut buf = [0u8; 5];
    assert_eq!(h.file.read(&mut buf).unwrap(), 5);
    assert_eq!(&buf, b"hello");
    assert_eq!(h.file.length(), 11);
}

#[test]
fn the_root_and_a_bad_first_part_need_no_read() {
    let mut fs = Fat16Impl::new(volume()).unwrap();
    // Only the boot sector is left: any read past it fails.
    fs.inner.blocks.truncate(1);
    assert_eq!(fs.open_dir("/").unwrap().cluster.0, 0xFFFF_FFFC);
    assert_eq!(fs.open_dir("//").unwrap().cluster.0, 0xFFFF_FFFC);
    assert_eq!(
        fs.open_dir("/a*b/app").unwrap_err(),
        FsError::FilenameError(FilenameError::InvalidCharacter)
    );
    assert_eq!(fs.open_dir("/app").unwrap_err(), FsError::BlockDeviceError);
    assert!(fs.find_entry("/").unwrap().is_none());
    assert_eq!(
        fs.find_entry("/.x").unwrap_err(),
        FsError::FilenameError(FilenameError::MisplacedPeriod)
    );
    assert_eq!(fs.cluster_for_offset(Cluster(2), 0).unwrap().0, 2);
    assert_eq!(fs.cluster_for_offset(Cluster(2), 511).unwrap().0, 2);
    assert_eq!(fs.cluster_for_offset(Cluster(2), 512).unwrap_err(), FsError::BlockDeviceError);
}

#[test]
fn open_file_on_the_root_or_a_bad_first_part() {
    let fs = Fat16::new(volume()).unwrap();
    assert_eq!(fs.open_file("/").err().unwrap(), FsError::FileNotFound);
    assert_eq!(
        fs.open_file("/toolongname.txt/x").err().unwrap(),
        FsError::FilenameError(FilenameError::NameTooLong)
    );
}

#[test]
fn cluster_for_offset_walks_the_chain() {
    let fs = Fat16Impl::new(volume()).unwrap();
    assert_eq!(fs.cluster_for_offset(Cluster(2), 100).unwrap().0, 2);
    assert_eq!(fs.cluster_for_offset(Cluster(2), 600).unwrap().0, 3);
    assert_eq!(fs.cluster_for_offset(Cluster(2), 1024).unwrap_err(), FsError::EndOfFile);
}

#[test]
fn clusters_lie_one_after_another() {
    let fs = Fat16Impl::new(volume()).unwrap();
    assert_eq!(fs.cluster_to_sector(&Cluster(0xFFFF_FFFC)), 3);
    assert_eq!(fs.cluster_to_sector(&Cluster(2)), 3 + fs.root_dir_sector_count());
    for c in 2..11u32 {
        assert_eq!(fs.cluster_to_sector(&Cluster(c + 1)), fs.cluster_to_sector(&Cluster(c)) + 1);
    }
}

#[test]
fn display_of_a_parsed_name_is_the_name_upper_cased() {
    for (name, shown) in [
        ("kernel.elf", "KERNEL.ELF"),
        ("readme", "README"),
        ("a.b", "A.B"),
        ("Shell.Bi", "SHELL.BI"),
        ("12345678.abc", "12345678.ABC"),
    ] {
        assert_eq!(ShortFileName::parse(name).unwrap().to_display_string(), shown);
    }
}

#[test]
fn trim_end_drops_trailing_white_space() {
    assert_eq!(trim_end("KERNEL  "), "KERNEL");
    assert_eq!(trim_end("a b\t\n\u{3000}"), "a b");
    assert_eq!(trim_end("   "), "");
    assert_eq!(trim_end(""), "");
    assert_eq!(trim_end(" x"), " x");
}

#[test]
fn a_listing_marks_directories() {
    let fs = Fat16::new(volume()).unwrap();
    let metas = fs.read_dir("/").unwrap();
    assert_eq!(metas[0].listed_name(), "HELLO.TXT");
    assert_eq!(metas[0].listed_kind(), "file");
    assert_eq!(metas[1].listed_name(), "APP/");
    assert_eq!(metas[1].listed_kind(), "dir");
}

#[test]
fn a_bad_first_part_fails_a_listing_and_a_lookup() {
    let fs = Fat16::new(volume()).unwrap();
    assert_eq!(
        fs.read_dir("/a*b").unwrap_err(),
        FsError::FilenameError(FilenameError::InvalidCharacter)
    );
    assert_eq!(
        fs.metadata("/a*b/c").unwrap_err(),
        FsError::FilenameError(FilenameError::InvalidCharacter)
    );
}

#[test]
fn a_listing_with_a_name_that_is_not_text_is_told_apart() {
    let mut disk = volume();
    put_entry(&mut disk.blocks[3], 7, b"\xFFODD    TXT", ATTR_ARCHIVE, 8, 10);
    let fs = Fat16::new(disk).unwrap();
    assert!(fs.try_read_dir("/").is_none());
    let app = fs.try_read_dir("/app").unwrap().unwrap();
    assert_eq!(app[0].name, "SHELL.BIN");
    assert_eq!(
        fs.try_read_dir("/a*b").unwrap().unwrap_err(),
        FsError::FilenameError(FilenameError::InvalidCharacter)
    );
    assert_eq!(fs.try_metadata("/HELLO.TXT").unwrap().unwrap().len, 600);
    assert!(fs.try_open_file("/HELLO.TXT").unwrap().is_ok());
    assert_eq!(fs.try_exists_path("/NOPE").unwrap(), Ok(false));
    assert_eq!(fs.try_exists_path("/").unwrap(), Ok(true));
}
