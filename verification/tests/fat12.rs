//! FAT12 directory entries: names, attributes, iteration.

use kernel_core::{
    name_character_matches, Directory, DirectoryEntry, DirectoryEntryIterator, FileDate, FileTime,
    FileType,
};

fn entry(name: &[u8; 8], ext: &[u8; 3], attributes: u8, size: u32) -> DirectoryEntry {
    DirectoryEntry {
        file_name: *name,
        ext: *ext,
        attributes,
        nonstandard_attributes: 0,
        fine_create_time: 0,
        creation_time: FileTime { raw: 0 },
        creation_date: FileDate { raw: 0 },
        access_date: FileDate { raw: 0 },
        extended_attributes: 0,
        last_modify_time: FileTime { raw: 0 },
        last_modify_date: FileDate { raw: 0 },
        first_file_cluster: 3,
        byte_size: size,
    }
}

#[test]
fn file_type_follows_the_attribute_bits() {
    let plain = entry(b"README  ", b"TXT", 0x00, 100);
    assert_eq!(plain.get_file_type(), FileType::File);
    let dir = entry(b"SUBDIR  ", b"   ", 0x10, 0);
    assert_eq!(dir.get_file_type(), FileType::Directory);
    let label = entry(b"VOLUME  ", b"   ", 0x08, 0);
    assert_eq!(label.get_file_type(), FileType::VolumeLabel);
}

#[test]
fn names_and_sizes_copy_out() {
    let e = entry(b"KERNEL  ", b"BIN", 0x00, 4096);
    assert_eq!(e.get_name(), b"KERNEL  ");
    assert_eq!(e.get_ext(), b"BIN");
    assert_eq!(e.get_byte_size(), 4096);
    assert_eq!(e.get_first_cluster().cluster, 3);
    let mut name = [0u8; 8];
    e.copy_name(&mut name);
    assert_eq!(&name, b"KERNEL  ");
    let mut ext = [0u8; 3];
    e.copy_ext(&mut ext);
    assert_eq!(&ext, b"BIN");
    let mut full = [0u8; 11];
    e.get_full_name(&mut full);
    assert_eq!(&full, b"KERNEL  BIN");
}

#[test]
fn search_matches_without_regard_to_case() {
    let e = entry(b"Kernel  ", b"bin", 0x00, 1);
    assert!(e.name_matches_search(b"KERNEL  ", b"BIN"));
    assert!(e.name_matches_search(b"kernel  ", b"Bin"));
    assert!(!e.name_matches_search(b"KERNAL  ", b"BIN"));
    assert!(!e.name_matches_search(b"KERNEL  ", b"TXT"));
    assert!(name_character_matches(b'a', b'A'));
    assert!(!name_character_matches(b'a', b'B'));
}

#[test]
fn iterator_stops_at_the_end_marker() {
    let mut end = entry(b"        ", b"   ", 0, 0);
    end.file_name[0] = 0;
    let entries = vec![
        entry(b"ONE     ", b"TXT", 0, 1),
        entry(b"TWO     ", b"TXT", 0, 2),
        end,
        entry(b"GONE    ", b"TXT", 0, 3),
    ];
    let mut it = DirectoryEntryIterator::new(entries, 16);
    assert_eq!(it.next().unwrap().get_name(), b"ONE     ");
    assert_eq!(it.next().unwrap().get_name(), b"TWO     ");
    assert!(it.next().is_none());
    assert!(it.next().is_none());
}

#[test]
fn iterator_respects_the_count_limit() {
    let entries = vec![
        entry(b"ONE     ", b"TXT", 0, 1),
        entry(b"TWO     ", b"TXT", 0, 2),
        entry(b"THREE   ", b"TXT", 0, 3),
    ];
    let mut it = DirectoryEntryIterator::new(entries, 2);
    assert!(it.next().is_some());
    assert!(it.next().is_some());
    assert!(it.next().is_none());
}

#[test]
fn empty_directory_has_no_clusters() {
    let d = Directory::empty();
    assert_eq!(d.clusters.clusters.len(), 0);
}
