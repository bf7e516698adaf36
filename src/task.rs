use vstd::prelude::*;
use crate::compare::{
    download_by_head, download_by_list, naive_to_utc, should_download_by_head, should_download_by_list,
    to_instant, LocalFile,
};
use crate::exclusion::Comparison;
use crate::listing::{FileType, ItemView, ListItem};
use crate::shadow::ShadowSet;

verus! {

/// What a task does.
pub enum TaskType {
    /// List the directory at the task's URL.
    Listing,
    /// Fetch the file this entry describes.
    Download(ListItem),
}

/// A unit of work: its kind, its path segments below the local root, and its URL.
pub struct Task {
    pub task: TaskType,
    pub relative: Vec<String>,
    pub url: String,
}

/// A task as plain values; `download` is `None` for a listing.
pub struct TaskView {
    pub download: Option<ItemView>,
    pub relative: Seq<Seq<char>>,
    pub url: Seq<char>,
}

impl View for Task {
    type V = TaskView;

    open spec fn view(&self) -> TaskView {
        TaskView {
            download: match self.task {
                TaskType::Listing => None,
                TaskType::Download(item) => Some(item@),
            },
            relative: self.relative.deep_view(),
            url: self.url@,
        }
    }
}

/// Path segments joined with `/`.
pub open spec fn joined(segs: Seq<Seq<char>>) -> Seq<char>
    decreases segs.len(),
{
    if segs.len() == 0 {
        Seq::empty()
    } else if segs.len() == 1 {
        segs[0]
    } else {
        joined(segs.drop_last()) + seq!['/'] + segs.last()
    }
}

/// The relative path of a task: its segments joined with `/`.
pub fn join_relative(segs: &Vec<String>) -> (r: String)
    ensures
        r@ == joined(segs.deep_view()),
{
    let mut r = String::new();
    let mut i: usize = 0;
    while i < segs.len()
        invariant
            0 <= i <= segs.len(),
            r@ == joined(segs.deep_view().take(i as int)),
        decreases segs.len() - i,
    {
        proof {
            reveal_strlit("/");
            assert(segs.deep_view().take(i + 1).drop_last() =~= segs.deep_view().take(i as int));
        }
        if i > 0 {
            r.append("/");
        }
        r.append(segs[i].as_str());
        i = i + 1;
    }
    assert(segs.deep_view().take(i as int) =~= segs.deep_view());
    r
}

/// The tasks a listing pushes, in listing order: one listing per directory,
/// and one download per file unless the directory is list-only.
pub open spec fn child_tasks(rel: Seq<Seq<char>>, list_only: bool, items: Seq<ItemView>) -> Seq<TaskView>
    decreases items.len(),
{
    if items.len() == 0 {
        Seq::empty()
    } else {
        let prev = child_tasks(rel, list_only, items.drop_last());
        let it = items.last();
        if it.type_ == FileType::Directory {
            prev.push(TaskView { download: None, relative: rel.push(it.name), url: it.url })
        } else if list_only {
            prev
        } else {
            prev.push(TaskView { download: Some(it), relative: rel, url: it.url })
        }
    }
}

/// Sum of the estimated sizes of the entries whose size is known.
pub open spec fn known_bytes(items: Seq<ItemView>) -> nat
    decreases items.len(),
{
    if items.len() == 0 {
        0
    } else {
        known_bytes(items.drop_last()) + match items.last().size {
            Some(s) => s.estimated(),
            None => 0,
        }
    }
}

pub open spec fn item_views(items: Seq<ListItem>) -> Seq<ItemView> {
    items.map_values(|i: ListItem| i@)
}

pub open spec fn all_wf(items: Seq<ListItem>) -> bool {
    forall|i: int| 0 <= i < items.len() ==> (#[trigger] items[i]).wf()
}

/// What one listing adds: the tasks to push and the statistics to add.
pub struct Expansion {
    pub tasks: Vec<Task>,
    /// Entries seen.
    pub objects: u64,
    /// Estimated bytes of the entries of known size, saturated at `u64::MAX`.
    pub bytes: u64,
}

fn copy_segments(segs: &Vec<String>) -> (r: Vec<String>)
    ensures
        r.deep_view() == segs.deep_view(),
{
    let r = segs.clone();
    proof {
        vstd::std_specs::vec::vec_clone_deep_view_proof(*segs, r);
    }
    r
}

/// Turns the entries of a listing at `relative` into tasks and statistics.
pub fn expand_listing(relative: &Vec<String>, verdict: Comparison, items: &Vec<ListItem>) -> (r: Expansion)
    requires
        all_wf(items@),
    ensures
        r.tasks@.map_values(|t: Task| t@)
            == child_tasks(relative.deep_view(), verdict == Comparison::ListOnly, item_views(items@)),
        r.objects == items@.len(),
        r.bytes == if known_bytes(item_views(items@)) > u64::MAX {
            u64::MAX as nat
        } else {
            known_bytes(item_views(items@))
        },
{
    let list_only = verdict == Comparison::ListOnly;
    let ghost rel = relative.deep_view();
    let mut tasks: Vec<Task> = Vec::new();
    let mut bytes: u64 = 0;
    let mut i: usize = 0;
    while i < items.len()
        invariant
            0 <= i <= items.len(),
            all_wf(items@),
            rel == relative.deep_view(),
            tasks@.map_values(|t: Task| t@) == child_tasks(rel, list_only, item_views(items@.take(i as int))),
            bytes == if known_bytes(item_views(items@.take(i as int))) > u64::MAX {
                u64::MAX as nat
            } else {
                known_bytes(item_views(items@.take(i as int)))
            },
        decreases items.len() - i,
    {
        let it = &items[i];
        let ghost before = tasks@.map_values(|t: Task| t@);
        assert(item_views(items@.take(i + 1)).drop_last() =~= item_views(items@.take(i as int)));
        assert(item_views(items@.take(i + 1)).last() == it@);
        assert(it.wf());
        if it.type_ == FileType::Directory {
            let mut child = copy_segments(relative);
            child.push(it.name.clone());
            assert(child.deep_view() =~= rel.push(it.name@));
            tasks.push(Task { task: TaskType::Listing, relative: child, url: it.url.clone() });
            assert(tasks@.map_values(|t: Task| t@) =~= before.push(
                TaskView { download: None, relative: rel.push(it@.name), url: it@.url },
            ));
        } else if !list_only {
            let rel_copy = copy_segments(relative);
            tasks.push(Task { task: TaskType::Download(it.duplicate()), relative: rel_copy, url: it.url.clone() });
            assert(tasks@.map_values(|t: Task| t@) =~= before.push(
                TaskView { download: Some(it@), relative: rel, url: it@.url },
            ));
        }
        match it.size {
            Some(s) => {
                let e = s.get_estimated();
                bytes = bytes.saturating_add(e);
            },
            None => {},
        }
        i = i + 1;
    }
    assert(items@.take(i as int) =~= items@);
    Expansion { tasks, objects: items.len() as u64, bytes }
}

/// Starts a listing task at local path `cwd` under the verdict on its
/// relative path: unless the verdict is `Stop`, the directory is recorded in
/// the shadow set and the listing goes on.
pub fn enter_listing(shadow: &mut ShadowSet, cwd: String, verdict: Comparison) -> (r: bool)
    ensures
        r == (verdict != Comparison::Stop),
        final(shadow)@ == if r { old(shadow)@.insert(cwd@) } else { old(shadow)@ },
{
    if verdict == Comparison::Stop {
        return false;
    }
    shadow.insert(cwd);
    true
}

/// What a download task does next.
#[derive(PartialEq, Eq, Structural, Clone, Copy, Debug)]
pub enum DownloadAction {
    /// Nothing more: the path was claimed elsewhere, is excluded, or this is a dry run.
    Skip,
    /// Record a download failure and stop.
    Fail,
    /// Ask the server with `HEAD` whether the file changed.
    Head,
    /// Fetch the file and publish it.
    Get,
    /// The local file is complete: run the package expansion on it.
    Expand,
}

/// What a `HEAD` response says of a file.
#[derive(PartialEq, Eq, Structural, Clone, Copy, Debug)]
pub struct HeadInfo {
    pub content_length: Option<u64>,
    /// `Last-Modified`, in seconds since the Unix epoch.
    pub last_modified: Option<i64>,
}

/// The end of a task whose file needs no transfer: expansion, unless dry run.
pub open spec fn settled(dry_run: bool) -> DownloadAction {
    if dry_run { DownloadAction::Skip } else { DownloadAction::Expand }
}

/// The transfer step, unless dry run.
pub open spec fn transfer(dry_run: bool) -> DownloadAction {
    if dry_run { DownloadAction::Skip } else { DownloadAction::Get }
}

/// The first step of a download task, once its claim on the expected path,
/// the verdict on the file's relative path and the local file are known.
pub fn download_first_action(
    claimed: bool,
    file_verdict: Comparison,
    local: Option<LocalFile>,
    item: &ListItem,
    tz: Option<i32>,
    skip_if_exists: bool,
    head_before_get: bool,
    dry_run: bool,
) -> (r: DownloadAction)
    requires
        item.wf(),
    ensures
        r == if !claimed || file_verdict == Comparison::Stop {
            DownloadAction::Skip
        } else if !download_by_list(local, *item, tz, skip_if_exists) {
            settled(dry_run)
        } else if head_before_get {
            DownloadAction::Head
        } else {
            transfer(dry_run)
        },
{
    if !claimed || file_verdict == Comparison::Stop {
        DownloadAction::Skip
    } else if !should_download_by_list(local, item, tz, skip_if_exists) {
        if dry_run { DownloadAction::Skip } else { DownloadAction::Expand }
    } else if head_before_get {
        DownloadAction::Head
    } else if dry_run {
        DownloadAction::Skip
    } else {
        DownloadAction::Get
    }
}

/// The step after a `HEAD` probe; `head` is `None` when it failed.
pub fn download_after_head(head: Option<HeadInfo>, local: Option<LocalFile>, compare_size_only: bool, dry_run: bool) -> (r: DownloadAction)
    ensures
        r == match head {
            None => DownloadAction::Fail,
            Some(h) => if download_by_head(local, h.content_length, h.last_modified, compare_size_only) {
                transfer(dry_run)
            } else {
                settled(dry_run)
            },
        },
{
    match head {
        None => DownloadAction::Fail,
        Some(h) => {
            if should_download_by_head(local, h.content_length, h.last_modified, compare_size_only) {
                if dry_run { DownloadAction::Skip } else { DownloadAction::Get }
            } else if dry_run {
                DownloadAction::Skip
            } else {
                DownloadAction::Expand
            }
        },
    }
}

/// The step after a fetch: expansion once the file is published, else failure.
pub fn download_after_get(published: bool) -> (r: DownloadAction)
    ensures
        r == if published { DownloadAction::Expand } else { DownloadAction::Fail },
{
    if published { DownloadAction::Expand } else { DownloadAction::Fail }
}

/// The relative path of file `name` in the directory with segments `relative`.
pub fn relative_file_path(relative: &Vec<String>, name: &str) -> (r: String)
    ensures
        r@ == joined(relative.deep_view().push(name@)),
{
    let mut segs = copy_segments(relative);
    segs.push(name.to_string());
    assert(segs.deep_view() =~= relative.deep_view().push(name@));
    join_relative(&segs)
}

/// The modification time to give a downloaded file: the response's
/// `Last-Modified`, else, when allowed, the listing's time read in zone `tz`;
/// `None` when neither is available.
pub fn choose_mtime(last_modified: Option<i64>, allow_from_parser: bool, listed: i64, tz: Option<i32>) -> (r: Option<i128>)
    ensures
        r == match last_modified {
            Some(t) => Some(t as i128),
            None => if allow_from_parser { Some(to_instant(listed as int, tz) as i128) } else { None },
        },
{
    match last_modified {
        Some(t) => Some(t as i128),
        None => {
            if allow_from_parser {
                Some(naive_to_utc(listed, tz))
            } else {
                None
            }
        },
    }
}

/// Index just past the last character of `s` other than `/`, or 0.
pub open spec fn last_segment_end(s: Seq<char>) -> int
    decreases s.len(),
{
    if s.len() == 0 {
        0
    } else if s.last() != '/' {
        s.len() as int
    } else {
        last_segment_end(s.drop_last())
    }
}

/// Index of the first character of the segment that ends at `end`.
pub open spec fn segment_start(s: Seq<char>, end: int) -> int
    decreases end,
{
    if end <= 0 {
        0
    } else if s[end - 1] == '/' {
        end
    } else {
        segment_start(s, end - 1)
    }
}

/// The last non-empty `/`-separated segment of `s`, if any.
pub open spec fn last_segment(s: Seq<char>) -> Option<Seq<char>> {
    let end = last_segment_end(s);
    if end == 0 {
        None
    } else {
        Some(s.subrange(segment_start(s, end), end))
    }
}

/// The last non-empty `/`-separated segment of `target_url`, if any.
pub fn last_path_segment(target_url: &str) -> (r: Option<String>)
    ensures
        match r {
            Some(t) => last_segment(target_url@) == Some(t@),
            None => last_segment(target_url@) is None,
        },
{
    let n = target_url.unicode_len();
    let mut end: usize = n;
    assert(target_url@.take(n as int) =~= target_url@);
    while end > 0 && target_url.get_char(end - 1) == '/'
        invariant
            n == target_url@.len(),
            0 <= end <= n,
            last_segment_end(target_url@) == last_segment_end(target_url@.take(end as int)),
        decreases end,
    {
        assert(target_url@.take(end as int).drop_last() =~= target_url@.take(end - 1));
        end = end - 1;
    }
    proof {
        if end > 0 {
            assert(target_url@.take(end as int).last() == target_url@[end - 1]);
        }
    }
    if end == 0 {
        return None;
    }
    let mut start: usize = end;
    while start > 0 && target_url.get_char(start - 1) != '/'
        invariant
            n == target_url@.len(),
            0 <= start <= end <= n,
            segment_start(target_url@, end as int) == segment_start(target_url@, start as int),
        decreases start,
    {
        start = start - 1;
    }
    Some(target_url.substring_char(start, end).to_string())
}

/// The target of the symbolic link that stands for a directory redirected to
/// `target_url`: the URL's last non-empty segment. `None` when the local path
/// already exists or the URL has no such segment.
pub fn symlink_target(cwd_exists: bool, target_url: &str) -> (r: Option<String>)
    ensures
        cwd_exists ==> r is None,
        !cwd_exists ==> match r {
            Some(t) => last_segment(target_url@) == Some(t@),
            None => last_segment(target_url@) is None,
        },
{
    if cwd_exists {
        None
    } else {
        last_path_segment(target_url)
    }
}

/// Name of the sibling file a download is written to before it is renamed
/// over `name`.
pub fn temp_file_name(name: &str) -> (r: String)
    ensures
        r@ == seq!['.', 't', 'm', 'p', '.'] + name@,
{
    let mut r = String::from_str(".tmp.");
    proof {
        reveal_strlit(".tmp.");
    }
    r.append(name);
    r
}

/// Whether a worker that has run out of tasks leaves the pool for good: when
/// the active count it decremented was 1, no other worker was active.
pub fn pool_is_quiescent(active_before_decrement: usize) -> (r: bool)
    ensures
        r == (active_before_decrement == 1),
{
    active_before_decrement == 1
}

/// The value a parked worker tries to swap in for the wake tickets it read:
/// one ticket fewer, or `None` when there is none to take.
pub fn take_wake_ticket(observed: usize) -> (r: Option<usize>)
    ensures
        r == if observed > 0 { Some((observed - 1) as usize) } else { None::<usize> },
{
    if observed > 0 {
        Some(observed - 1)
    } else {
        None
    }
}

} // verus!
