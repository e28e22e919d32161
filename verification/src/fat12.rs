//! FAT12 directory entries.
//!
//! The on-disk shape of a file or subdirectory entry: an 8-byte short name,
//! a 3-byte extension, attribute bits, timestamps, the first data cluster
//! and the byte size. Directories are chains of clusters, walked entry by
//! entry.

use vstd::prelude::*;

use crate::vfs::spec_upper_byte;

verus! {

/// A timestamp in the on-disk packed format.
#[derive(Clone, Copy, Debug, PartialEq, Eq, Structural)]
pub struct FileTime {
    pub raw: u16,
}

/// A date in the on-disk packed format.
#[derive(Clone, Copy, Debug, PartialEq, Eq, Structural)]
pub struct FileDate {
    pub raw: u16,
}

/// What a directory entry names.
#[derive(Clone, Copy, Debug, PartialEq, Eq, Structural)]
pub enum FileType {
    File,
    Directory,
    VolumeLabel,
}

/// One cluster of the file allocation table.
#[derive(Clone, Copy, Debug, PartialEq, Eq, Structural)]
pub struct Cluster {
    pub cluster: usize,
}

impl Cluster {
    pub fn new(cluster: usize) -> (c: Cluster)
        ensures
            c.cluster == cluster,
    {
        Cluster { cluster }
    }
}

/// The clusters a directory occupies, in order.
pub struct ClusterChain {
    pub clusters: Vec<Cluster>,
}

impl ClusterChain {
    pub fn empty() -> (c: ClusterChain)
        ensures
            c.clusters@.len() == 0,
    {
        ClusterChain { clusters: Vec::new() }
    }
}

/// Directories are handled internally as chains of clusters, so the driver
/// can walk their sections on disk one by one.
pub struct Directory {
    pub clusters: ClusterChain,
}

impl Directory {
    pub fn empty() -> (d: Directory)
        ensures
            d.clusters.clusters@.len() == 0,
    {
        Directory { clusters: ClusterChain::empty() }
    }
}

/// Two short-name bytes match when they are the same letter, read without
/// regard to case.
pub open spec fn spec_name_character_matches(a: u8, b: u8) -> bool {
    spec_upper_byte(a) == spec_upper_byte(b)
}

/// Case-insensitive match of two short-name bytes.
pub fn name_character_matches(a: u8, b: u8) -> (r: bool)
    ensures
        r == spec_name_character_matches(a, b),
{
    let ua: u8 = if 0x61 <= a && a <= 0x7a {
        a - 0x20
    } else {
        a
    };
    let ub: u8 = if 0x61 <= b && b <= 0x7a {
        b - 0x20
    } else {
        b
    };
    ua == ub
}

/// On-disk representation of a file or subdirectory.
#[derive(Clone, Copy, Debug)]
pub struct DirectoryEntry {
    /// Short filename.
    pub file_name: [u8; 8],
    /// File extension.
    pub ext: [u8; 3],
    /// File attributes.
    pub attributes: u8,
    /// Reserved byte used for various nonstandard things.
    pub nonstandard_attributes: u8,
    /// Fine resolution of the creation time, in 10 ms units.
    pub fine_create_time: u8,
    /// File creation time.
    pub creation_time: FileTime,
    /// File creation date.
    pub creation_date: FileDate,
    /// Last access date.
    pub access_date: FileDate,
    /// Extended attributes.
    pub extended_attributes: u16,
    /// Last modified time.
    pub last_modify_time: FileTime,
    /// Last modified date.
    pub last_modify_date: FileDate,
    /// First cluster of file data.
    pub first_file_cluster: u16,
    /// File size in bytes.
    pub byte_size: u32,
}

impl DirectoryEntry {
    pub fn get_name(&self) -> (r: &[u8])
        ensures
            r@ == self.file_name@,
    {
        self.file_name.as_slice()
    }

    pub fn get_ext(&self) -> (r: &[u8])
        ensures
            r@ == self.ext@,
    {
        self.ext.as_slice()
    }

    /// A volume label or a subdirectory is told apart by its attribute
    /// bits; everything else is a plain file.
    pub fn get_file_type(&self) -> (r: FileType)
        ensures
            r == (if self.attributes & 0x08 == 0x08 {
                FileType::VolumeLabel
            } else if self.attributes & 0x10 == 0x10 {
                FileType::Directory
            } else {
                FileType::File
            }),
    {
        if self.attributes & 0x08 == 0x08 {
            FileType::VolumeLabel
        } else if self.attributes & 0x10 == 0x10 {
            FileType::Directory
        } else {
            FileType::File
        }
    }

    pub fn get_first_cluster(&self) -> (c: Cluster)
        ensures
            c.cluster == self.first_file_cluster,
    {
        Cluster::new(self.first_file_cluster as usize)
    }

    /// An entry whose name starts with a zero byte marks the end of the
    /// directory.
    pub fn is_empty(&self) -> (r: bool)
        ensures
            r == (self.file_name@[0] == 0),
    {
        self.file_name[0] == 0
    }

    /// Copy the short name into the caller's buffer.
    pub fn copy_name(&self, buffer: &mut [u8; 8])
        ensures
            final(buffer)@ == self.file_name@,
    {
        let mut i: usize = 0;
        while i < 8
            invariant
                i <= 8,
                forall|j: int| 0 <= j < i ==> buffer@[j] == self.file_name@[j],
            decreases 8 - i,
        {
            buffer[i] = self.file_name[i];
            i += 1;
        }
        proof {
            assert(buffer@ =~= self.file_name@);
        }
    }

    /// Copy the extension into the caller's buffer.
    pub fn copy_ext(&self, buffer: &mut [u8; 3])
        ensures
            final(buffer)@ == self.ext@,
    {
        let mut i: usize = 0;
        while i < 3
            invariant
                i <= 3,
                forall|j: int| 0 <= j < i ==> buffer@[j] == self.ext@[j],
            decreases 3 - i,
        {
            buffer[i] = self.ext[i];
            i += 1;
        }
        proof {
            assert(buffer@ =~= self.ext@);
        }
    }

    /// The name and the extension side by side: eleven bytes.
    pub fn get_full_name(&self, buffer: &mut [u8; 11])
        ensures
            final(buffer)@ == self.file_name@ + self.ext@,
    {
        let mut i: usize = 0;
        while i < 8
            invariant
                i <= 8,
                forall|j: int| 0 <= j < i ==> buffer@[j] == self.file_name@[j],
            decreases 8 - i,
        {
            buffer[i] = self.file_name[i];
            i += 1;
        }
        let mut j: usize = 0;
        while j < 3
            invariant
                j <= 3,
                forall|m: int| 0 <= m < 8 ==> buffer@[m] == self.file_name@[m],
                forall|m: int| 0 <= m < j ==> buffer@[8 + m] == self.ext@[m],
            decreases 3 - j,
        {
            buffer[8 + j] = self.ext[j];
            j += 1;
        }
        proof {
            assert(buffer@ =~= self.file_name@ + self.ext@);
        }
    }

    pub fn get_byte_size(&self) -> (n: usize)
        ensures
            n == self.byte_size,
    {
        self.byte_size as usize
    }

    /// Whether a search name and extension match this entry's, letter by
    /// letter without regard to case.
    pub fn name_matches_search(&self, name: &[u8; 8], ext: &[u8; 3]) -> (r: bool)
        ensures
            r == ((forall|i: int|
                0 <= i < 8 ==> spec_name_character_matches(self.file_name@[i], name@[i])) && (
            forall|i: int| 0 <= i < 3 ==> spec_name_character_matches(self.ext@[i], ext@[i]))),
    {
        let mut i: usize = 0;
        while i < 8
            invariant
                i <= 8,
                forall|j: int|
                    0 <= j < i ==> spec_name_character_matches(self.file_name@[j], name@[j]),
            decreases 8 - i,
        {
            if !name_character_matches(self.file_name[i], name[i]) {
                proof {
                    assert(!spec_name_character_matches(self.file_name@[i as int], name@[i as int]));
                }
                return false;
            }
            i += 1;
        }
        let mut j: usize = 0;
        while j < 3
            invariant
                j <= 3,
                forall|m: int| 0 <= m < 8 ==> spec_name_character_matches(self.file_name@[m], name@[m]),
                forall|m: int| 0 <= m < j ==> spec_name_character_matches(self.ext@[m], ext@[m]),
            decreases 3 - j,
        {
            if !name_character_matches(self.ext[j], ext[j]) {
                proof {
                    assert(!spec_name_character_matches(self.ext@[j as int], ext@[j as int]));
                }
                return false;
            }
            j += 1;
        }
        true
    }
}

/// Walks the entries of a directory section, stopping at the first empty
/// entry or after `max_count` entries.
pub struct DirectoryEntryIterator {
    pub entries: Vec<DirectoryEntry>,
    pub max_count: usize,
    pub current: usize,
}

impl DirectoryEntryIterator {
    /// Walk the given entries, up to `max_count` of them.
    pub fn new(entries: Vec<DirectoryEntry>, max_count: usize) -> (it: DirectoryEntryIterator)
        ensures
            it.entries == entries,
            it.max_count == max_count,
            it.current == 0,
    {
        DirectoryEntryIterator { entries, max_count, current: 0 }
    }

    /// The next live entry, or nothing at the count limit, past the last
    /// entry, or at the end marker.
    pub fn next(&mut self) -> (r: Option<DirectoryEntry>)
        ensures
            final(self).entries == old(self).entries,
            final(self).max_count == old(self).max_count,
            match r {
                Some(entry) => {
                    &&& old(self).current < old(self).max_count
                    &&& old(self).current < old(self).entries@.len()
                    &&& entry == old(self).entries@[old(self).current as int]
                    &&& entry.file_name@[0] != 0
                    &&& final(self).current == old(self).current + 1
                },
                None => {
                    &&& final(self).current == old(self).current
                    &&& (old(self).current >= old(self).max_count || old(self).current >= old(
                        self,
                    ).entries@.len() || old(self).entries@[old(self).current as int].file_name@[0]
                        == 0)
                },
            },
    {
        if self.current >= self.max_count {
            return None;
        }
        if self.current >= self.entries.len() {
            return None;
        }
        let entry: DirectoryEntry = self.entries[self.current];
        if entry.is_empty() {
            return None;
        }
        self.current = self.current + 1;
        Some(entry)
    }
}

/// Reference to an open file or directory on disk.
pub struct FileReference {
    pub dir_entry: DirectoryEntry,
}

} // verus!
