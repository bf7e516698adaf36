use vstd::prelude::*;
use crate::listing::ListItem;

verus! {

/// What the local filesystem says of a regular file at the expected path.
#[derive(PartialEq, Eq, Structural, Clone, Copy, Debug)]
pub struct LocalFile {
    /// Length in bytes.
    pub size: u64,
    /// Modification time in whole seconds since the Unix epoch, rounded down.
    pub mtime: i64,
}

/// The absolute instant, in seconds since the Unix epoch, of a wall-clock
/// time read in a zone `tz` seconds east of UTC (UTC when absent).
pub open spec fn to_instant(naive: int, tz: Option<i32>) -> int {
    match tz {
        Some(off) => naive - off,
        None => naive,
    }
}

/// Freshness decision from a listing entry. `local` is `None` when the path
/// is missing or is not a regular file.
pub open spec fn download_by_list(
    local: Option<LocalFile>,
    item: ListItem,
    tz: Option<i32>,
    skip_if_exists: bool,
) -> bool {
    match local {
        None => true,
        Some(f) => {
            if skip_if_exists || item.skip_check {
                false
            } else if item.size is Some && !item.size->0.admits(f.size as nat) {
                true
            } else {
                f.mtime < to_instant(item.mtime as int, tz)
            }
        },
    }
}

/// Freshness decision from a `HEAD` response's `Content-Length` and
/// `Last-Modified` (seconds since the Unix epoch).
pub open spec fn download_by_head(
    local: Option<LocalFile>,
    content_length: Option<u64>,
    last_modified: Option<i64>,
    compare_size_only: bool,
) -> bool {
    match local {
        None => true,
        Some(f) => {
            if content_length is Some && content_length->0 != f.size {
                true
            } else if compare_size_only {
                false
            } else {
                match last_modified {
                    None => true,
                    Some(t) => f.mtime < t,
                }
            }
        },
    }
}

/// Converts a wall-clock time read in zone `tz` to an absolute instant.
pub fn naive_to_utc(naive: i64, tz: Option<i32>) -> (r: i128)
    ensures
        r == to_instant(naive as int, tz),
{
    match tz {
        Some(off) => naive as i128 - off as i128,
        None => naive as i128,
    }
}

/// Whether the file described by `item` must be downloaded over `local`.
pub fn should_download_by_list(
    local: Option<LocalFile>,
    item: &ListItem,
    tz: Option<i32>,
    skip_if_exists: bool,
) -> (r: bool)
    requires
        item.wf(),
    ensures
        r == download_by_list(local, *item, tz, skip_if_exists),
{
    match local {
        None => true,
        Some(f) => {
            if skip_if_exists || item.skip_check {
                return false;
            }
            if let Some(s) = item.size {
                if !s.matches_local(f.size) {
                    return true;
                }
            }
            (f.mtime as i128) < naive_to_utc(item.mtime, tz)
        },
    }
}

/// Whether the file must be downloaded over `local`, judged from a `HEAD`
/// response.
pub fn should_download_by_head(
    local: Option<LocalFile>,
    content_length: Option<u64>,
    last_modified: Option<i64>,
    compare_size_only: bool,
) -> (r: bool)
    ensures
        r == download_by_head(local, content_length, last_modified, compare_size_only),
{
    match local {
        None => true,
        Some(f) => {
            if let Some(n) = content_length {
                if n != f.size {
                    return true;
                }
            }
            if compare_size_only {
                return false;
            }
            match last_modified {
                None => true,
                Some(t) => f.mtime < t,
            }
        },
    }
}

/// Freshness monotonicity: a local file whose size agrees with the listing
/// and whose modification time is not older than the listed instant is never
/// fetched again, however often the same listing is compared with it.
pub proof fn fresh_file_stays_fresh(f: LocalFile, item: ListItem, tz: Option<i32>, skip_if_exists: bool)
    requires
        item.size is Some ==> item.size->0.admits(f.size as nat),
        f.mtime >= to_instant(item.mtime as int, tz),
    ensures
        !download_by_list(Some(f), item, tz, skip_if_exists),
{
}

/// The same for a `HEAD` response: a matching length and a modification time
/// not older than `Last-Modified` mean no fetch.
pub proof fn fresh_file_stays_fresh_by_head(f: LocalFile, content_length: Option<u64>, last_modified: i64, compare_size_only: bool)
    requires
        content_length is Some ==> content_length->0 == f.size,
        f.mtime >= last_modified,
    ensures
        !download_by_head(Some(f), content_length, Some(last_modified), compare_size_only),
{
}

} // verus!
