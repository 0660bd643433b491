//! The directory scanner: a depth-first walk with an explicit stack. The host
//! lists the directories; the scanner puts each listing in order, records
//! what it finds, and says which directory comes next.

use crate::listing::{
    join_relative, listing_views, order_listing, ordered_listing, relative_path_of, DirEntryInfo,
    EntryInfoView, EntryKind,
};
use vstd::prelude::*;
use vstd::string::StringExecFns;

verus! {

/// One file or folder that a scan found.
#[derive(Debug, Clone)]
pub struct FolderScanItem {
    /// Path from the root of the scan, with forward slashes.
    pub relative_path: String,
    /// Name of the file or folder.
    pub name: String,
    /// Whether it is a folder.
    pub is_folder: bool,
    /// Size in bytes; 0 for a folder.
    pub size: u64,
    /// Absolute path.
    pub absolute_path: String,
}

/// What a scan found.
#[derive(Debug, Clone)]
pub struct FolderScanResult {
    /// The folder that was scanned.
    pub root_path: String,
    /// All files and folders, in the order in which they were found.
    pub items: Vec<FolderScanItem>,
    /// Size of all files together, in bytes.
    pub total_size: u64,
    /// Number of files.
    pub file_count: u64,
    /// Number of folders.
    pub folder_count: u64,
    /// How long the scan took, in milliseconds.
    pub scan_duration_ms: u64,
}

/// Why a scan failed.
#[derive(Debug, Clone)]
pub struct FolderScanError {
    pub error_message: String,
    pub item_path: Option<String>,
}

/// What an item says, as plain values.
pub struct ItemView {
    pub relative_path: Seq<char>,
    pub name: Seq<char>,
    pub is_folder: bool,
    pub size: u64,
    pub absolute_path: Seq<char>,
}

impl View for FolderScanItem {
    type V = ItemView;

    open spec fn view(&self) -> ItemView {
        ItemView {
            relative_path: self.relative_path@,
            name: self.name@,
            is_folder: self.is_folder,
            size: self.size,
            absolute_path: self.absolute_path@,
        }
    }
}

/// The views of the items, in order.
pub open spec fn item_views(items: Seq<FolderScanItem>) -> Seq<ItemView> {
    Seq::new(items.len(), |i: int| items[i]@)
}

/// The outcome of a scan: a result or an error message, or neither yet.
pub struct FolderScanContext {
    result: Option<FolderScanResult>,
    error: Option<String>,
}

impl FolderScanContext {
    /// The result, if one was set.
    pub closed spec fn result_view(&self) -> Option<FolderScanResult> {
        self.result
    }

    /// The error message, if one was set.
    pub closed spec fn error_view(&self) -> Option<Seq<char>> {
        match self.error {
            Some(message) => Some(message@),
            None => None,
        }
    }

    /// A context without an outcome.
    pub fn new() -> (context: Self)
        ensures
            context.result_view() is None,
            context.error_view() is None,
    {
        FolderScanContext { result: None, error: None }
    }

    /// Records the result of the scan.
    pub fn set_result(&mut self, result: FolderScanResult)
        ensures
            final(self).result_view() == Some(result),
            final(self).error_view() == old(self).error_view(),
    {
        self.result = Some(result);
    }

    /// Records why the scan failed.
    pub fn set_error(&mut self, error: String)
        ensures
            final(self).error_view() == Some(error@),
            final(self).result_view() == old(self).result_view(),
    {
        self.error = Some(error);
    }

    /// The result of the scan, if there is one.
    pub fn get_result(&self) -> (result: Option<&FolderScanResult>)
        ensures
            result is Some <==> self.result_view() is Some,
            result is Some ==> *result->0 == self.result_view()->0,
    {
        match &self.result {
            Some(result) => Some(result),
            None => None,
        }
    }

    /// The error message of the scan, if there is one.
    pub fn get_error(&self) -> (error: Option<&str>)
        ensures
            error is Some <==> self.error_view() is Some,
            error is Some ==> error->0@ == self.error_view()->0,
    {
        match &self.error {
            Some(message) => Some(message.as_str()),
            None => None,
        }
    }

    /// Whether the scan has a result.
    pub fn scan_folder_is_success(&self) -> (success: bool)
        ensures
            success == self.result_view() is Some,
    {
        self.result.is_some()
    }

    /// Number of files that the scan found; 0 without a result.
    pub fn scan_folder_get_file_count(&self) -> (count: u64)
        ensures
            count == match self.result_view() {
                Some(result) => result.file_count,
                None => 0,
            },
    {
        match &self.result {
            Some(result) => result.file_count,
            None => 0,
        }
    }

    /// Number of folders that the scan found; 0 without a result.
    pub fn scan_folder_get_folder_count(&self) -> (count: u64)
        ensures
            count == match self.result_view() {
                Some(result) => result.folder_count,
                None => 0,
            },
    {
        match &self.result {
            Some(result) => result.folder_count,
            None => 0,
        }
    }

    /// Size of all files that the scan found; 0 without a result.
    pub fn scan_folder_get_total_size(&self) -> (size: u64)
        ensures
            size == match self.result_view() {
                Some(result) => result.total_size,
                None => 0,
            },
    {
        match &self.result {
            Some(result) => result.total_size,
            None => 0,
        }
    }

    /// How long the scan took, in milliseconds; 0 without a result.
    pub fn scan_folder_get_duration_ms(&self) -> (millis: u64)
        ensures
            millis == match self.result_view() {
                Some(result) => result.scan_duration_ms,
                None => 0,
            },
    {
        match &self.result {
            Some(result) => result.scan_duration_ms,
            None => 0,
        }
    }
}

/// A directory that waits to be listed.
#[derive(Debug, Clone)]
pub struct PendingDirectory {
    /// Absolute path, for the host to list.
    pub absolute_path: String,
    /// Path from the root of the scan; empty for the root itself.
    pub relative_path: String,
    /// Depth below the root; 0 for the root.
    pub depth: u64,
}

/// What a pending directory says, as plain values.
pub struct PendingView {
    pub absolute_path: Seq<char>,
    pub relative_path: Seq<char>,
    pub depth: u64,
}

impl View for PendingDirectory {
    type V = PendingView;

    open spec fn view(&self) -> PendingView {
        PendingView {
            absolute_path: self.absolute_path@,
            relative_path: self.relative_path@,
            depth: self.depth,
        }
    }
}

/// The views of the pending directories, in order.
pub open spec fn pending_views(dirs: Seq<PendingDirectory>) -> Seq<PendingView> {
    Seq::new(dirs.len(), |i: int| dirs[i]@)
}

/// A count with `more` on top, held at the largest count there is.
pub open spec fn count_after(count: u64, more: u64) -> u64 {
    if count + more > u64::MAX {
        u64::MAX
    } else {
        (count + more) as u64
    }
}

/// What a scan holds, as plain values: the depth to which it goes, the
/// directories that wait, the last of them next, and what was found so far.
pub struct ScanView {
    pub max_depth: u64,
    pub stack: Seq<PendingView>,
    pub items: Seq<ItemView>,
    pub total_size: u64,
    pub file_count: u64,
    pub folder_count: u64,
}

impl ScanView {
    /// The scan after one entry of the directory `dir` is taken in. A link
    /// is passed over, and so is a file whose size is not known. A folder is
    /// recorded, counted, and put on the stack one level deeper. A file is
    /// recorded and counted, and its size is added.
    pub open spec fn with_entry(self, dir: PendingView, entry: EntryInfoView) -> ScanView {
        match entry.kind {
            EntryKind::Symlink => self,
            EntryKind::Directory => ScanView {
                stack: self.stack.push(
                    PendingView {
                        absolute_path: entry.absolute_path,
                        relative_path: relative_path_of(dir.relative_path, entry.name),
                        depth: count_after(dir.depth, 1),
                    },
                ),
                items: self.items.push(
                    ItemView {
                        relative_path: relative_path_of(dir.relative_path, entry.name),
                        name: entry.name,
                        is_folder: true,
                        size: 0,
                        absolute_path: entry.absolute_path,
                    },
                ),
                folder_count: count_after(self.folder_count, 1),
                ..self
            },
            EntryKind::File => match entry.size {
                None => self,
                Some(size) => ScanView {
                    items: self.items.push(
                        ItemView {
                            relative_path: relative_path_of(dir.relative_path, entry.name),
                            name: entry.name,
                            is_folder: false,
                            size,
                            absolute_path: entry.absolute_path,
                        },
                    ),
                    total_size: count_after(self.total_size, size),
                    file_count: count_after(self.file_count, 1),
                    ..self
                },
            },
        }
    }

    /// The scan after each of `entries` is taken in, in order.
    pub open spec fn with_entries(self, dir: PendingView, entries: Seq<EntryInfoView>) -> ScanView
        decreases entries.len(),
    {
        if entries.len() == 0 {
            self
        } else {
            self.with_entries(dir, entries.drop_last()).with_entry(dir, entries.last())
        }
    }

    /// The scan after the listing of `dir` is taken in: the entries are put
    /// in order, folders first, names ascending, and taken in one by one.
    pub open spec fn with_listing(self, dir: PendingView, entries: Seq<EntryInfoView>) -> ScanView {
        self.with_entries(dir, ordered_listing(entries, true))
    }

    /// The directories that are left on the stack once those on top that lie
    /// deeper than the scan goes are dropped.
    pub open spec fn stack_in_depth(self) -> Seq<PendingView>
        decreases self.stack.len(),
    {
        if self.stack.len() == 0 || self.stack.last().depth <= self.max_depth {
            self.stack
        } else {
            (ScanView { stack: self.stack.drop_last(), ..self }).stack_in_depth()
        }
    }
}

/// A scan of a folder in progress.
pub struct FolderScanner {
    root_path: String,
    max_depth: u64,
    stack: Vec<PendingDirectory>,
    items: Vec<FolderScanItem>,
    total_size: u64,
    file_count: u64,
    folder_count: u64,
}

impl FolderScanner {
    /// What the scan holds.
    pub closed spec fn view(&self) -> ScanView {
        ScanView {
            max_depth: self.max_depth,
            stack: pending_views(self.stack@),
            items: item_views(self.items@),
            total_size: self.total_size,
            file_count: self.file_count,
            folder_count: self.folder_count,
        }
    }

    /// The folder that is scanned.
    pub closed spec fn root_view(&self) -> Seq<char> {
        self.root_path@
    }

    /// A scan of `root_path` that goes `max_depth` levels below the root, or
    /// all the way down where no depth is given. The root waits to be listed.
    pub fn new(root_path: &str, max_depth: Option<u64>) -> (scanner: Self)
        ensures
            scanner.root_view() == root_path@,
            scanner@ == (ScanView {
                max_depth: match max_depth {
                    Some(depth) => depth,
                    None => u64::MAX,
                },
                stack: seq![
                    PendingView {
                        absolute_path: root_path@,
                        relative_path: Seq::empty(),
                        depth: 0,
                    },
                ],
                items: Seq::empty(),
                total_size: 0,
                file_count: 0,
                folder_count: 0,
            }),
    {
        let mut stack: Vec<PendingDirectory> = Vec::new();
        stack.push(
            PendingDirectory {
                absolute_path: root_path.to_owned(),
                relative_path: String::new(),
                depth: 0,
            },
        );
        let scanner = FolderScanner {
            root_path: root_path.to_owned(),
            max_depth: match max_depth {
                Some(depth) => depth,
                None => u64::MAX,
            },
            stack,
            items: Vec::new(),
            total_size: 0,
            file_count: 0,
            folder_count: 0,
        };
        proof {
            assert(scanner@.stack =~= seq![
                PendingView {
                    absolute_path: root_path@,
                    relative_path: Seq::<char>::empty(),
                    depth: 0,
                },
            ]);
            assert(scanner@.items =~= Seq::<ItemView>::empty());
        }
        scanner
    }

    /// The directory to list next: the one on top of the stack that does not
    /// lie deeper than the scan goes. Nothing where the scan is through.
    pub fn next_directory(&mut self) -> (next: Option<PendingDirectory>)
        ensures
            final(self).root_view() == old(self).root_view(),
            match next {
                Some(dir) => old(self)@.stack_in_depth().len() > 0
                    && dir@ == old(self)@.stack_in_depth().last() && final(self)@ == (ScanView {
                    stack: old(self)@.stack_in_depth().drop_last(),
                    ..old(self)@
                }),
                None => old(self)@.stack_in_depth().len() == 0 && final(self)@ == (ScanView {
                    stack: Seq::empty(),
                    ..old(self)@
                }),
            },
    {
        loop
            invariant
                self.root_view() == old(self).root_view(),
                self@.stack_in_depth() == old(self)@.stack_in_depth(),
                self@ == (ScanView { stack: self@.stack, ..old(self)@ }),
            decreases self.stack@.len(),
        {
            let ghost before = self@;
            match self.stack.pop() {
                Some(dir) => {
                    assert(self@.stack =~= before.stack.drop_last());
                    assert(dir@ == before.stack.last());
                    if dir.depth <= self.max_depth {
                        return Some(dir);
                    }
                },
                None => {
                    assert(self@.stack =~= Seq::<PendingView>::empty());
                    return None;
                },
            }
        }
    }

    /// Takes in one entry of the directory `dir`.
    fn take_entry(&mut self, dir: &PendingDirectory, entry: &DirEntryInfo)
        ensures
            final(self).root_view() == old(self).root_view(),
            final(self)@ == old(self)@.with_entry(dir@, entry@),
    {
        let ghost before = self@;
        match entry.kind {
            EntryKind::Symlink => {},
            EntryKind::Directory => {
                let relative_path = join_relative(dir.relative_path.as_str(), entry.name.as_str());
                self.folder_count = self.folder_count.saturating_add(1);
                let item = FolderScanItem {
                    relative_path: relative_path.clone(),
                    name: entry.name.clone(),
                    is_folder: true,
                    size: 0,
                    absolute_path: entry.absolute_path.clone(),
                };
                let pending = PendingDirectory {
                    absolute_path: entry.absolute_path.clone(),
                    relative_path,
                    depth: dir.depth.saturating_add(1),
                };
                self.items.push(item);
                self.stack.push(pending);
                proof {
                    assert(self@.items =~= before.items.push(item@));
                    assert(self@.stack =~= before.stack.push(pending@));
                }
            },
            EntryKind::File => {
                match entry.size {
                    None => {},
                    Some(size) => {
                        self.total_size = self.total_size.saturating_add(size);
                        self.file_count = self.file_count.saturating_add(1);
                        let item = FolderScanItem {
                            relative_path: join_relative(
                                dir.relative_path.as_str(),
                                entry.name.as_str(),
                            ),
                            name: entry.name.clone(),
                            is_folder: false,
                            size,
                            absolute_path: entry.absolute_path.clone(),
                        };
                        self.items.push(item);
                        proof {
                            assert(self@.items =~= before.items.push(item@));
                        }
                    },
                }
            },
        }
    }

    /// Takes in the listing of the directory `dir`: puts the entries in order,
    /// folders first, names ascending; records folders and files; passes over
    /// links and files whose size is not known; and puts the folders on the
    /// stack. A directory that the host could not list is simply not handed
    /// in.
    pub fn add_listing(&mut self, dir: &PendingDirectory, entries: &Vec<DirEntryInfo>)
        ensures
            final(self).root_view() == old(self).root_view(),
            final(self)@ == old(self)@.with_listing(dir@, listing_views(entries@)),
    {
        let ordered = order_listing(entries, true);
        let n = ordered.len();
        let mut i: usize = 0;
        let ghost views = listing_views(ordered@);
        assert(views.take(0) =~= Seq::<EntryInfoView>::empty());
        while i < n
            invariant
                n == ordered@.len(),
                i <= n,
                views == listing_views(ordered@),
                self.root_view() == old(self).root_view(),
                self@ == old(self)@.with_entries(dir@, views.take(i as int)),
            decreases n - i,
        {
            let ghost prefix = views.take(i + 1);
            assert(prefix.drop_last() =~= views.take(i as int));
            assert(prefix.last() == ordered@[i as int]@);
            self.take_entry(dir, &ordered[i]);
            i += 1;
        }
        assert(views.take(n as int) =~= views);
    }

    /// Ends the scan and hands out what it found, with the time that it took.
    pub fn finish(self, scan_duration_ms: u64) -> (result: FolderScanResult)
        ensures
            result.root_path@ == self.root_view(),
            item_views(result.items@) == self@.items,
            result.total_size == self@.total_size,
            result.file_count == self@.file_count,
            result.folder_count == self@.folder_count,
            result.scan_duration_ms == scan_duration_ms,
    {
        FolderScanResult {
            root_path: self.root_path,
            items: self.items,
            total_size: self.total_size,
            file_count: self.file_count,
            folder_count: self.folder_count,
            scan_duration_ms,
        }
    }
}

/// Why a scan cannot start, if it cannot: the path must exist and be a
/// directory.
pub fn check_scan_root(root_path: &str, exists: bool, is_directory: bool) -> (refusal: Option<
    String,
>)
    ensures
        refusal is None <==> exists && is_directory,
        !exists ==> refusal is Some && refusal->0@ == "Path does not exist: "@ + root_path@,
        exists && !is_directory ==> refusal is Some && refusal->0@
            == "Path is not a directory: "@ + root_path@,
{
    if !exists {
        let mut message = "Path does not exist: ".to_owned();
        message.append(root_path);
        Some(message)
    } else if !is_directory {
        let mut message = "Path is not a directory: ".to_owned();
        message.append(root_path);
        Some(message)
    } else {
        None
    }
}

/// The depth to which a scan goes, from the number that the host gives: 0
/// stands for no limit.
pub fn scan_depth(max_depth: u32) -> (depth: Option<u64>)
    ensures
        depth == if max_depth == 0 {
            None
        } else {
            Some(max_depth as u64)
        },
{
    if max_depth == 0 {
        None
    } else {
        Some(max_depth as u64)
    }
}

} // verus!
