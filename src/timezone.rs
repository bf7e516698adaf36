use vstd::prelude::*;
use crate::listing::{FileType, ListItem};
use crate::text::str_eq;

verus! {

/// Seconds in an hour.
pub const HOUR: i32 = 3600;

/// A zone given in whole hours east of UTC, as an offset in seconds; `None`
/// unless the offset lies strictly within one day.
pub fn timezone_from_hours(hours: i32) -> (r: Option<i32>)
    ensures
        r == if -24 < hours < 24 { Some((hours * 3600) as i32) } else { None::<i32> },
{
    if -24 < hours && hours < 24 {
        Some(hours * HOUR)
    } else {
        None
    }
}

/// `d` seconds in whole hours, rounded to the nearest, halves away from zero.
pub open spec fn rounded_hours(d: int) -> int {
    if d >= 0 {
        (d + 1800) / 3600
    } else {
        -((-d + 1800) / 3600)
    }
}

/// The zone offset, in seconds, that turns the instant `utc` into the
/// wall-clock time `naive` a listing showed for the same file, rounded to the
/// nearest whole hour; `None` outside UTC-12 to UTC+14.
pub fn guess_offset(naive: i64, utc: i64) -> (r: Option<i32>)
    ensures
        r == if -12 <= rounded_hours(naive - utc) <= 14 {
            Some((rounded_hours(naive - utc) * 3600) as i32)
        } else {
            None::<i32>
        },
{
    let d: i128 = naive as i128 - utc as i128;
    let h: i128 = if d >= 0 {
        (d + 1800) / 3600
    } else {
        -((-d + 1800) / 3600)
    };
    if -12 <= h && h <= 14 {
        Some((h as i32) * HOUR)
    } else {
        None
    }
}


/// URL of the first file of a root listing, the default probe for the zone.
pub fn first_file_url(items: &Vec<ListItem>) -> (r: Option<String>)
    ensures
        match r {
            Some(u) => exists|i: int| 0 <= i < items@.len() && items@[i].type_ == FileType::File
                && (forall|j: int| 0 <= j < i ==> items@[j].type_ != FileType::File)
                && u@ == items@[i].url@,
            None => forall|i: int| 0 <= i < items@.len() ==> items@[i].type_ != FileType::File,
        },
{
    let mut i: usize = 0;
    while i < items.len()
        invariant
            0 <= i <= items.len(),
            forall|j: int| 0 <= j < i ==> items@[j].type_ != FileType::File,
        decreases items.len() - i,
    {
        if items[i].type_ == FileType::File {
            return Some(items[i].url.clone());
        }
        i = i + 1;
    }
    None
}

/// The listed time of the first entry of `items` whose URL is `url`: where
/// the probe file's wall-clock time is read from its directory's listing.
pub fn listed_mtime(items: &Vec<ListItem>, url: &str) -> (r: Option<i64>)
    ensures
        match r {
            Some(m) => exists|i: int| 0 <= i < items@.len() && items@[i].url@ == url@
                && (forall|j: int| 0 <= j < i ==> items@[j].url@ != url@)
                && m == items@[i].mtime,
            None => forall|i: int| 0 <= i < items@.len() ==> items@[i].url@ != url@,
        },
{
    let mut i: usize = 0;
    while i < items.len()
        invariant
            0 <= i <= items.len(),
            forall|j: int| 0 <= j < i ==> items@[j].url@ != url@,
        decreases items.len() - i,
    {
        if str_eq(items[i].url.as_str(), url) {
            return Some(items[i].mtime);
        }
        i = i + 1;
    }
    None
}

/// Where the zone offset comes from, one step of the chain at a time.
pub enum TimezoneStep {
    /// An explicit offset, in seconds east of UTC.
    Fixed(i32),
    /// The explicit offset lies outside one day: a configuration error.
    OutOfRange,
    /// Compare the listed and the served time of the file at this URL.
    Probe(String),
    /// List the upstream root and probe its first file.
    ListRoot,
    /// Go on without a zone (UTC).
    Disabled,
}

/// The first step: an explicit offset in hours wins; else the probe file
/// when one was given (`Some(None)` when it was not a valid URL); else the
/// root listing.
pub fn timezone_first_step(explicit_hours: Option<i32>, probe_file: Option<Option<String>>) -> (r: TimezoneStep)
    ensures
        match explicit_hours {
            Some(h) => if -24 < h < 24 {
                r matches TimezoneStep::Fixed(o) && o == h * 3600
            } else {
                r is OutOfRange
            },
            None => match probe_file {
                Some(Some(u)) => r matches TimezoneStep::Probe(p) && p@ == u@,
                Some(None) => r is Disabled,
                None => r is ListRoot,
            },
        },
{
    match explicit_hours {
        Some(h) => match timezone_from_hours(h) {
            Some(o) => TimezoneStep::Fixed(o),
            None => TimezoneStep::OutOfRange,
        },
        None => match probe_file {
            Some(Some(u)) => TimezoneStep::Probe(u),
            Some(None) => TimezoneStep::Disabled,
            None => TimezoneStep::ListRoot,
        },
    }
}

/// The step after listing the root: probe its first file, or go on without a
/// zone when the listing failed, was a redirect, or holds no file.
pub fn timezone_from_root(root_items: Option<&Vec<ListItem>>) -> (r: TimezoneStep)
    ensures
        match root_items {
            None => r is Disabled,
            Some(items) => match r {
                TimezoneStep::Probe(u) => exists|i: int| 0 <= i < items@.len() && items@[i].type_ == FileType::File
                    && (forall|j: int| 0 <= j < i ==> items@[j].type_ != FileType::File)
                    && u@ == items@[i].url@,
                TimezoneStep::Disabled => forall|i: int| 0 <= i < items@.len() ==> items@[i].type_ != FileType::File,
                _ => false,
            },
        },
{
    match root_items {
        None => TimezoneStep::Disabled,
        Some(items) => match first_file_url(items) {
            Some(u) => TimezoneStep::Probe(u),
            None => TimezoneStep::Disabled,
        },
    }
}

} // verus!
