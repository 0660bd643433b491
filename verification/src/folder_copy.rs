//! The copy of a folder: a walk that hands out one file per call, files of a
//! directory before its subdirectories, names ascending.

use crate::cancel::{is_cancelled, CancellationToken};
use crate::copy::{bytes_after, CopyProgress};
use crate::listing::{
    join_relative, listing_views, order_listing, ordered_listing, relative_path_of, DirEntryInfo,
    EntryInfoView, EntryKind,
};
use crate::progress::{update_due, ProgressThrottler, ThrottlerView, PROGRESS_UPDATE_INTERVAL_MS};
use crate::pump::CODE_CANCELLED;
use crate::text::views_of;
use vstd::prelude::*;

verus! {

/// What the walk tells the host to do.
#[derive(Debug, Clone)]
pub enum FolderStep {
    /// Copy the file at this path, relative to the two roots, then report
    /// its size with [`FolderCopyContext::file_copied`].
    CopyFile { relative_path: String },
    /// List the directory at this path, relative to the source root, and
    /// hand the listing to [`FolderCopyContext::directory_listed`].
    ListDirectory { relative_path: String },
    /// Every file is copied.
    Done,
    /// The copy is over with this code.
    Stop { code: isize },
}

/// What a step says, as plain values.
pub enum FolderStepView {
    CopyFile { relative_path: Seq<char> },
    ListDirectory { relative_path: Seq<char> },
    Done,
    Stop { code: isize },
}

impl View for FolderStep {
    type V = FolderStepView;

    open spec fn view(&self) -> FolderStepView {
        match self {
            FolderStep::CopyFile { relative_path } => FolderStepView::CopyFile {
                relative_path: relative_path@,
            },
            FolderStep::ListDirectory { relative_path } => FolderStepView::ListDirectory {
                relative_path: relative_path@,
            },
            FolderStep::Done => FolderStepView::Done,
            FolderStep::Stop { code } => FolderStepView::Stop { code: *code },
        }
    }
}

/// The relative paths of the files among `entries`, in order.
pub open spec fn listed_files(dir: Seq<char>, entries: Seq<EntryInfoView>) -> Seq<Seq<char>>
    decreases entries.len(),
{
    if entries.len() == 0 {
        Seq::empty()
    } else if entries.last().kind == EntryKind::File {
        listed_files(dir, entries.drop_last()).push(relative_path_of(dir, entries.last().name))
    } else {
        listed_files(dir, entries.drop_last())
    }
}

/// The relative paths of the directories among `entries`, in order.
pub open spec fn listed_dirs(dir: Seq<char>, entries: Seq<EntryInfoView>) -> Seq<Seq<char>>
    decreases entries.len(),
{
    if entries.len() == 0 {
        Seq::empty()
    } else if entries.last().kind == EntryKind::Directory {
        listed_dirs(dir, entries.drop_last()).push(relative_path_of(dir, entries.last().name))
    } else {
        listed_dirs(dir, entries.drop_last())
    }
}

/// What a folder copy holds, as plain values: the two roots, the counts, the
/// files that wait to be copied and the directories that wait to be listed,
/// each with the next one first.
pub struct FolderCopyView {
    pub source_root: Seq<char>,
    pub dest_root: Seq<char>,
    pub bytes_copied: usize,
    pub total_bytes: usize,
    pub files_processed: usize,
    pub total_files: usize,
    pub pending_files: Seq<Seq<char>>,
    pub pending_dirs: Seq<Seq<char>>,
    pub throttler: ThrottlerView,
}

impl FolderCopyView {
    /// The progress of the copy.
    pub open spec fn progress(self) -> CopyProgress {
        CopyProgress {
            bytes_copied: self.bytes_copied,
            total_bytes: self.total_bytes,
            files_processed: self.files_processed,
            total_files: self.total_files,
        }
    }

    /// What comes next. A token that is set stops the copy; else the next
    /// file that waits is copied; else the next directory that waits is
    /// listed; else the copy is done.
    pub open spec fn next_step(self, cancelled: bool) -> FolderStepView {
        if cancelled {
            FolderStepView::Stop { code: CODE_CANCELLED }
        } else if self.pending_files.len() > 0 {
            FolderStepView::CopyFile { relative_path: self.pending_files[0] }
        } else if self.pending_dirs.len() > 0 {
            FolderStepView::ListDirectory { relative_path: self.pending_dirs[0] }
        } else {
            FolderStepView::Done
        }
    }

    /// The copy after the next step is handed out.
    pub open spec fn after_next_step(self, cancelled: bool) -> FolderCopyView {
        if cancelled {
            self
        } else if self.pending_files.len() > 0 {
            FolderCopyView { pending_files: self.pending_files.drop_first(), ..self }
        } else if self.pending_dirs.len() > 0 {
            FolderCopyView { pending_dirs: self.pending_dirs.drop_first(), ..self }
        } else {
            self
        }
    }

    /// The copy after the listing of `dir` is taken in: its files wait behind
    /// the files that wait already, in the order of their names; its
    /// subdirectories wait before the directories that wait already, in the
    /// order of their names. Links are passed over.
    pub open spec fn with_listing(self, dir: Seq<char>, entries: Seq<EntryInfoView>) -> FolderCopyView {
        let ordered = ordered_listing(entries, false);
        FolderCopyView {
            pending_files: self.pending_files + listed_files(dir, ordered),
            pending_dirs: listed_dirs(dir, ordered) + self.pending_dirs,
            ..self
        }
    }
}

/// A copy of a folder in progress.
pub struct FolderCopyContext {
    source_root: String,
    dest_root: String,
    bytes_copied: usize,
    total_bytes: usize,
    files_processed: usize,
    total_files: usize,
    cancel_flag: Option<CancellationToken>,
    progress_throttler: ProgressThrottler,
    pending_files: Vec<String>,
    pending_dirs: Vec<String>,
}

impl FolderCopyContext {
    /// What the copy holds.
    pub closed spec fn view(&self) -> FolderCopyView {
        FolderCopyView {
            source_root: self.source_root@,
            dest_root: self.dest_root@,
            bytes_copied: self.bytes_copied,
            total_bytes: self.total_bytes,
            files_processed: self.files_processed,
            total_files: self.total_files,
            pending_files: views_of(self.pending_files@),
            pending_dirs: views_of(self.pending_dirs@),
            throttler: self.progress_throttler@,
        }
    }

    /// A copy from `source_root` to `dest_root` that has copied nothing yet;
    /// the totals come from the scan of the source. The root waits to be
    /// listed.
    pub fn new(
        source_root: String,
        dest_root: String,
        total_bytes: usize,
        total_files: usize,
        cancel_flag: Option<CancellationToken>,
    ) -> (context: Self)
        ensures
            context.cancellable() == (cancel_flag is Some),
            context@ == (FolderCopyView {
                source_root: source_root@,
                dest_root: dest_root@,
                bytes_copied: 0,
                total_bytes,
                files_processed: 0,
                total_files,
                pending_files: Seq::empty(),
                pending_dirs: seq![Seq::<char>::empty()],
                throttler: ThrottlerView {
                    last_update_ms: 0,
                    update_interval_ms: PROGRESS_UPDATE_INTERVAL_MS,
                    last_bytes_processed: 0,
                    last_bytes_transferred: 0,
                },
            }),
    {
        let mut pending_dirs: Vec<String> = Vec::new();
        pending_dirs.push(String::new());
        let context = FolderCopyContext {
            source_root,
            dest_root,
            bytes_copied: 0,
            total_bytes,
            files_processed: 0,
            total_files,
            cancel_flag,
            progress_throttler: ProgressThrottler::new(PROGRESS_UPDATE_INTERVAL_MS),
            pending_files: Vec::new(),
            pending_dirs,
        };
        proof {
            assert(context@.pending_files =~= Seq::<Seq<char>>::empty());
            assert(context@.pending_dirs =~= seq![Seq::<char>::empty()]);
        }
        context
    }

    /// Whether the session has a token, so that it can be cancelled at all.
    pub closed spec fn cancellable(&self) -> bool {
        self.cancel_flag is Some
    }

    /// Whether the copy's token is set at this moment; never, where it has
    /// none.
    pub fn is_cancelled(&self) -> (cancelled: bool)
        ensures
            !self.cancellable() ==> !cancelled,
    {
        is_cancelled(&self.cancel_flag)
    }

    /// The path of a file or directory below the source root.
    pub fn source_path(&self, relative_path: &str) -> (path: String)
        ensures
            path@ == if relative_path@.len() == 0 {
                self@.source_root
            } else {
                relative_path_of(self@.source_root, relative_path@)
            },
    {
        if relative_path.is_empty() {
            self.source_root.clone()
        } else {
            join_relative(self.source_root.as_str(), relative_path)
        }
    }

    /// The path of a file or directory below the destination root.
    pub fn dest_path(&self, relative_path: &str) -> (path: String)
        ensures
            path@ == if relative_path@.len() == 0 {
                self@.dest_root
            } else {
                relative_path_of(self@.dest_root, relative_path@)
            },
    {
        if relative_path.is_empty() {
            self.dest_root.clone()
        } else {
            join_relative(self.dest_root.as_str(), relative_path)
        }
    }

    /// Says what comes next, given what the poll of the token gave. A token
    /// that is set stops the copy before anything is touched.
    pub fn next_step_polled(&mut self, cancelled: bool) -> (step: FolderStep)
        ensures
            final(self).cancellable() == old(self).cancellable(),
            step@ == old(self)@.next_step(cancelled),
            final(self)@ == old(self)@.after_next_step(cancelled),
    {
        let ghost before = self@;
        if cancelled {
            FolderStep::Stop { code: CODE_CANCELLED }
        } else if self.pending_files.len() > 0 {
            let relative_path = self.pending_files.remove(0);
            assert(self@.pending_files =~= before.pending_files.drop_first());
            FolderStep::CopyFile { relative_path }
        } else if self.pending_dirs.len() > 0 {
            let relative_path = self.pending_dirs.remove(0);
            assert(self@.pending_dirs =~= before.pending_dirs.drop_first());
            FolderStep::ListDirectory { relative_path }
        } else {
            FolderStep::Done
        }
    }

    /// Polls the token and says what comes next: as [`Self::next_step_polled`]
    /// does with what the poll gave. A copy without a token is never
    /// cancelled.
    pub fn folder_copy_next_file(&mut self) -> (step: FolderStep)
        ensures
            final(self).cancellable() == old(self).cancellable(),
            exists|cancelled: bool|
                (!old(self).cancellable() ==> !cancelled) && step@ == old(self)@.next_step(
                    cancelled,
                ) && final(self)@ == old(self)@.after_next_step(cancelled),
            !old(self).cancellable() ==> step@ == old(self)@.next_step(false) && final(self)@
                == old(self)@.after_next_step(false),
    {
        let cancelled = self.is_cancelled();
        self.next_step_polled(cancelled)
    }

    /// Takes in the listing of the directory at `relative_path`, and hands
    /// back the subdirectories, which the host creates at the destination at
    /// once, so that a directory without files is kept.
    pub fn directory_listed(&mut self, relative_path: &str, entries: &Vec<DirEntryInfo>) -> (created:
        Vec<String>)
        ensures
            final(self).cancellable() == old(self).cancellable(),
            final(self)@ == old(self)@.with_listing(relative_path@, listing_views(entries@)),
            views_of(created@) == listed_dirs(
                relative_path@,
                ordered_listing(listing_views(entries@), false),
            ),
    {
        let ghost before = self@;
        let ordered = order_listing(entries, false);
        let ghost views = listing_views(ordered@);
        let mut created: Vec<String> = Vec::new();
        let mut dirs: Vec<String> = Vec::new();
        let n = ordered.len();
        let mut i: usize = 0;
        proof {
            assert(views.take(0) =~= Seq::<EntryInfoView>::empty());
            assert(views_of(created@) =~= Seq::<Seq<char>>::empty());
            assert(views_of(dirs@) =~= Seq::<Seq<char>>::empty());
            assert(before.pending_files + Seq::<Seq<char>>::empty() =~= before.pending_files);
        }
        while i < n
            invariant
                n == ordered@.len(),
                i <= n,
                views == listing_views(ordered@),
                self.cancellable() == old(self).cancellable(),
                self@ == (FolderCopyView {
                    pending_files: before.pending_files + listed_files(
                        relative_path@,
                        views.take(i as int),
                    ),
                    ..before
                }),
                views_of(created@) == listed_dirs(relative_path@, views.take(i as int)),
                views_of(dirs@) == views_of(created@),
            decreases n - i,
        {
            let ghost prefix = views.take(i + 1);
            assert(prefix.drop_last() =~= views.take(i as int));
            assert(prefix.last() == ordered@[i as int]@);
            let ghost files = views_of(self.pending_files@);
            let ghost made = views_of(created@);
            match ordered[i].kind {
                EntryKind::File => {
                    let path = join_relative(relative_path, ordered[i].name.as_str());
                    self.pending_files.push(path);
                    proof {
                        assert(views_of(self.pending_files@) =~= files.push(path@));
                        assert(before.pending_files + listed_files(
                            relative_path@,
                            views.take(i as int),
                        ).push(path@) =~= files.push(path@));
                    }
                },
                EntryKind::Directory => {
                    let path = join_relative(relative_path, ordered[i].name.as_str());
                    dirs.push(path.clone());
                    created.push(path);
                    proof {
                        assert(views_of(created@) =~= made.push(path@));
                        assert(views_of(dirs@) =~= made.push(path@));
                    }
                },
                EntryKind::Symlink => {},
            }
            i += 1;
        }
        assert(views.take(n as int) =~= views);
        let ghost waiting = views_of(self.pending_dirs@);
        let ghost new_dirs = views_of(dirs@);
        dirs.append(&mut self.pending_dirs);
        assert(views_of(dirs@) =~= new_dirs + waiting);
        self.pending_dirs = dirs;
        created
    }

    /// Records, at the moment `now_ms` of the throttler's clock, that a file
    /// of `size` bytes is copied. Hands back the progress where it is to be
    /// reported: when the interval has passed since the last report, or all
    /// bytes are copied.
    pub fn file_copied_at(&mut self, size: usize, now_ms: u64) -> (report: Option<CopyProgress>)
        ensures
            final(self).cancellable() == old(self).cancellable(),
            final(self)@.bytes_copied == bytes_after(old(self)@.bytes_copied, size),
            final(self)@.files_processed == bytes_after(old(self)@.files_processed, 1),
            final(self)@.bytes_copied >= old(self)@.bytes_copied,
            final(self)@.total_bytes == old(self)@.total_bytes,
            final(self)@.total_files == old(self)@.total_files,
            final(self)@.pending_files == old(self)@.pending_files,
            final(self)@.pending_dirs == old(self)@.pending_dirs,
            final(self)@.source_root == old(self)@.source_root,
            final(self)@.dest_root == old(self)@.dest_root,
            report is Some <==> update_due(
                old(self)@.throttler,
                now_ms,
                final(self)@.bytes_copied,
                old(self)@.total_bytes,
            ),
            report is Some ==> report->0 == final(self)@.progress(),
    {
        self.bytes_copied = if size > usize::MAX - self.bytes_copied {
            usize::MAX
        } else {
            self.bytes_copied + size
        };
        self.files_processed = if self.files_processed == usize::MAX {
            usize::MAX
        } else {
            self.files_processed + 1
        };
        if self.progress_throttler.should_update_at(now_ms, self.bytes_copied, self.total_bytes) {
            Some(self.copy_get_progress())
        } else {
            None
        }
    }

    /// Records now that a file of `size` bytes is copied: as
    /// [`Self::file_copied_at`] at the moment that the throttler's clock
    /// shows. The file that completes the copy is always reported.
    pub fn file_copied(&mut self, size: usize) -> (report: Option<CopyProgress>)
        ensures
            final(self).cancellable() == old(self).cancellable(),
            final(self)@.bytes_copied == bytes_after(old(self)@.bytes_copied, size),
            final(self)@.files_processed == bytes_after(old(self)@.files_processed, 1),
            final(self)@.total_bytes == old(self)@.total_bytes,
            final(self)@.total_files == old(self)@.total_files,
            final(self)@.pending_files == old(self)@.pending_files,
            final(self)@.pending_dirs == old(self)@.pending_dirs,
            final(self)@.source_root == old(self)@.source_root,
            final(self)@.dest_root == old(self)@.dest_root,
            report is Some ==> report->0 == final(self)@.progress(),
            final(self)@.bytes_copied == final(self)@.total_bytes ==> report is Some,
    {
        let now_ms = self.progress_throttler.clock_ms();
        self.file_copied_at(size, now_ms)
    }

    /// How far the copy is.
    pub fn copy_get_progress(&self) -> (progress: CopyProgress)
        ensures
            progress == self@.progress(),
    {
        CopyProgress {
            bytes_copied: self.bytes_copied,
            total_bytes: self.total_bytes,
            files_processed: self.files_processed,
            total_files: self.total_files,
        }
    }

    /// The progress to report at the end of the copy.
    pub fn folder_copy_finalize(&self) -> (progress: CopyProgress)
        ensures
            progress == self@.progress(),
    {
        self.copy_get_progress()
    }
}

} // verus!
