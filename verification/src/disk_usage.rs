//! Disk usage as reported for a path, before and after it is measured.
use crate::text::owned;
use crate::types::{DiskUsage, DiskUsageStatus, PathInfo, PathKind};
use std::collections::HashSet;
use vstd::prelude::*;

verus! {

/// The usage of a path that has not been measured yet.
pub fn pending_disk_usage() -> (r: DiskUsage)
    ensures
        r.status == DiskUsageStatus::Pending,
        r.bytes is None,
        r.human is None,
        r.files == 0 && r.directories == 0 && r.skipped == 0,
        r.message matches Some(m) && m@ == "Size scan pending"@,
{
    DiskUsage {
        status: DiskUsageStatus::Pending,
        bytes: None,
        human: None,
        files: 0,
        directories: 0,
        skipped: 0,
        message: Some(owned("Size scan pending")),
    }
}

/// A labelled path whose size is still to be measured.
pub fn path_info(label: &str, kind: PathKind, path: String) -> (r: PathInfo)
    ensures
        r.label@ == label@,
        r.kind == kind,
        r.path == path,
        r.size.status == DiskUsageStatus::Pending,
{
    PathInfo { label: owned(label), kind, path, size: pending_disk_usage() }
}

/// What a walk over a path has counted: bytes on disk, files (each
/// physical file once), directories and entries passed over, and the
/// physical files already met, by device and inode.
pub struct UsageStats {
    pub bytes: u64,
    pub files: u64,
    pub directories: u64,
    pub skipped: u64,
    pub seen: HashSet<u128>,
}

/// A physical file's key: its device and inode, together.
pub open spec fn file_key_spec(dev: u64, ino: u64) -> u128 {
    (dev as int * 0x1_0000_0000_0000_0000 + ino as int) as u128
}

/// The bytes a file takes on disk: its 512-byte blocks, saturating.
pub open spec fn block_bytes(blocks: u64) -> u64 {
    if blocks as int * 512 > u64::MAX {
        u64::MAX
    } else {
        (blocks * 512) as u64
    }
}

/// The counts after a file is met: a physical file not met before adds
/// itself and its bytes, one met before counts as passed over.
pub open spec fn with_file(s: (u64, u64, u64, u64, Set<u128>), dev: u64, ino: u64, blocks: u64) -> (
    int,
    int,
    int,
    int,
    Set<u128>,
) {
    let key = file_key_spec(dev, ino);
    if s.4.contains(key) {
        (s.0 as int, s.1 as int, s.2 as int, s.3 + 1, s.4)
    } else {
        (s.0 + block_bytes(blocks), s.1 + 1, s.2 as int, s.3 as int, s.4.insert(key))
    }
}

pub open spec fn stats_view(s: UsageStats) -> (u64, u64, u64, u64, Set<u128>) {
    (s.bytes, s.files, s.directories, s.skipped, s.seen@)
}

impl UsageStats {
    /// Nothing counted yet.
    pub fn new() -> (r: UsageStats)
        ensures
            r.bytes == 0 && r.files == 0 && r.directories == 0 && r.skipped == 0,
            r.seen@ == Set::<u128>::empty(),
    {
        UsageStats { bytes: 0, files: 0, directories: 0, skipped: 0, seen: HashSet::new() }
    }

    /// A directory is entered.
    pub fn enter_directory(&mut self)
        requires
            old(self).directories < u64::MAX,
        ensures
            final(self).directories == old(self).directories + 1,
            final(self).bytes == old(self).bytes && final(self).files == old(self).files
                && final(self).skipped == old(self).skipped && final(self).seen@ == old(self).seen@,
    {
        self.directories = self.directories + 1;
    }

    /// An entry is passed over: unreadable, or a symbolic link.
    pub fn skip(&mut self)
        requires
            old(self).skipped < u64::MAX,
        ensures
            final(self).skipped == old(self).skipped + 1,
            final(self).bytes == old(self).bytes && final(self).files == old(self).files
                && final(self).directories == old(self).directories && final(self).seen@ == old(self).seen@,
    {
        self.skipped = self.skipped + 1;
    }

    /// A regular file is met, by device, inode and 512-byte blocks: each
    /// physical file counts once, so hard links are not counted twice.
    pub fn add_file(&mut self, dev: u64, ino: u64, blocks: u64)
        requires
            old(self).bytes + block_bytes(blocks) <= u64::MAX,
            old(self).files < u64::MAX,
            old(self).skipped < u64::MAX,
        ensures
            ({
                let w = with_file(stats_view(*old(self)), dev, ino, blocks);
                &&& final(self).bytes == w.0
                &&& final(self).files == w.1
                &&& final(self).directories == w.2
                &&& final(self).skipped == w.3
                &&& final(self).seen@ == w.4
            }),
    {
        broadcast use vstd::std_specs::hash::group_hash_axioms;

        let key = file_key(dev, ino);
        if self.seen.insert(key) {
            self.files = self.files + 1;
            let size: u64 = if blocks > 36028797018963967 {
                18446744073709551615
            } else {
                blocks * 512
            };
            self.bytes = self.bytes + size;
        } else {
            self.skipped = self.skipped + 1;
        }
    }
}

/// A physical file's key.
pub fn file_key(dev: u64, ino: u64) -> (r: u128)
    ensures
        r == file_key_spec(dev, ino),
{
    assert(dev as int * 0x1_0000_0000_0000_0000 + ino as int <= u128::MAX) by (nonlinear_arith);
    (dev as u128) * 0x1_0000_0000_0000_0000 + (ino as u128)
}

/// Distinct physical files are never taken for one another: files with
/// the same key have the same device and inode.
pub proof fn law_distinct_files_have_distinct_keys(d1: u64, i1: u64, d2: u64, i2: u64)
    requires
        file_key_spec(d1, i1) == file_key_spec(d2, i2),
    ensures
        d1 == d2 && i1 == i2,
{
    assert(d1 as int * 0x1_0000_0000_0000_0000 + i1 as int <= u128::MAX) by (nonlinear_arith)
        requires
            d1 < 0x1_0000_0000_0000_0000,
            i1 < 0x1_0000_0000_0000_0000,
    ;
    assert(d2 as int * 0x1_0000_0000_0000_0000 + i2 as int <= u128::MAX) by (nonlinear_arith)
        requires
            d2 < 0x1_0000_0000_0000_0000,
            i2 < 0x1_0000_0000_0000_0000,
    ;
    assert(d1 == d2 && i1 == i2) by (nonlinear_arith)
        requires
            d1 as int * 0x1_0000_0000_0000_0000 + i1 as int == d2 as int * 0x1_0000_0000_0000_0000 + i2 as int,
            0 <= i1 < 0x1_0000_0000_0000_0000,
            0 <= i2 < 0x1_0000_0000_0000_0000,
    ;
}

/// Once a physical file is met it is remembered, and meeting it again,
/// through another hard link, adds no bytes and no file, only a
/// passed-over entry.
pub proof fn law_hard_links_count_once(s: (u64, u64, u64, u64, Set<u128>), dev: u64, ino: u64, blocks: u64)
    ensures
        with_file(s, dev, ino, blocks).4.contains(file_key_spec(dev, ino)),
        s.4.contains(file_key_spec(dev, ino)) ==> ({
            let again = with_file(s, dev, ino, blocks);
            again.0 == s.0 && again.1 == s.1 && again.3 == s.3 + 1
        }),
{
}

/// The usage of a measured path; `human` is how its bytes read.
pub fn usage_report(stats: &UsageStats, human: String) -> (r: DiskUsage)
    ensures
        r.status == DiskUsageStatus::Ready,
        r.bytes == Some(stats.bytes),
        r.human == Some(human),
        r.files == stats.files && r.directories == stats.directories && r.skipped == stats.skipped,
        r.message is None,
{
    DiskUsage {
        status: DiskUsageStatus::Ready,
        bytes: Some(stats.bytes),
        human: Some(human),
        files: stats.files,
        directories: stats.directories,
        skipped: stats.skipped,
        message: None,
    }
}

/// Why a path could not be measured.
#[derive(Debug, Clone, Copy, PartialEq, Eq, Structural)]
pub enum UsageError {
    NotFound,
    PermissionDenied,
    Other,
}

/// The usage of a path that could not be read: missing, not permitted, or
/// another error, with the error's text.
pub fn unreadable_usage(kind: UsageError, error: String) -> (r: DiskUsage)
    ensures
        r.status == match kind {
            UsageError::NotFound => DiskUsageStatus::Missing,
            UsageError::PermissionDenied => DiskUsageStatus::PermissionDenied,
            UsageError::Other => DiskUsageStatus::Error,
        },
        r.bytes is None && r.human is None,
        r.files == 0 && r.directories == 0 && r.skipped == 0,
        kind == UsageError::NotFound ==> (r.message matches Some(m) && m@ == "Path does not exist"@),
        kind != UsageError::NotFound ==> r.message == Some(error),
{
    let (status, message) = match kind {
        UsageError::NotFound => (DiskUsageStatus::Missing, owned("Path does not exist")),
        UsageError::PermissionDenied => (DiskUsageStatus::PermissionDenied, error),
        UsageError::Other => (DiskUsageStatus::Error, error),
    };
    DiskUsage { status, bytes: None, human: None, files: 0, directories: 0, skipped: 0, message: Some(message) }
}

} // verus!
