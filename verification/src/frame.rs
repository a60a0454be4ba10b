//! The program from start to end: what it starts with, what it keeps, the settings, and what
//! happens around it while it runs.

use crate::app::{
    CopyBox, DeleteBox, EditorBox, FileManagerApp, MaskBox, NewItemBox, PackBox, PendingBox,
    RenameSingleBox,
};
use crate::bookmark::{Bookmark, BookmarkBox, BookmarkBoxView};
use crate::entry::{DirSort, EntryView, RawEntry, SortColumn, SortDir};
use crate::file_op::{OpKind, OpProgress, ProgressView};
use crate::hash::{HashBox, HashBoxView};
use crate::jobs::{Command, CommandView};
use crate::panel::{self, ActivePanel, Listing, Panel};
use crate::path::{DirPath, PathView};
use crate::rename::{RenameBox, RenameCase, RenamePlan};
use crate::search::{SearchBox, SearchBoxView};
use crate::state_file::{self, ProbeView, Saved, SavedView, State, StateView};
use crate::state_laws;
use crate::text;
use crate::update::{UpdateBox, UpdateBoxView, UpdateReply, UpdateStateView};
use crate::view::{StatusMsg, StatusView};
use vstd::prelude::*;

verus! {

broadcast use vstd::string::group_string_axioms;

// ---------------------------------------------------------------------------
// The start
// ---------------------------------------------------------------------------

/// What a panel is given at the start.
#[derive(Debug)]
pub struct PanelStart {
    pub path: DirPath,
    pub drives: Vec<String>,
    pub items: Option<Vec<RawEntry>>,
}

impl PanelStart {
    /// Whether the listing is short enough to number its rows.
    pub open spec fn fits(&self) -> bool {
        self.items matches Some(items) ==> items.len() < isize::MAX
    }
}

/// The directories of the two panels at the start: those that were kept, else the home
/// directory.
pub open spec fn first_paths(saved: SavedView, home: PathView) -> (PathView, PathView) {
    (
        match saved.left {
            Some(p) => p,
            None => home,
        },
        match saved.right {
            Some(p) => p,
            None => home,
        },
    )
}

/// The directories of the two panels at the start.
pub fn start_paths(saved: &Saved, home: &DirPath) -> (r: (DirPath, DirPath))
    ensures
        (r.0@, r.1@) == first_paths(saved@, home@),
{
    let left = match &saved.left {
        Some(p) => p.clone(),
        None => home.clone(),
    };
    let right = match &saved.right {
        Some(p) => p.clone(),
        None => home.clone(),
    };
    (left, right)
}

/// Whether `p` is a panel at the start, with the order and the settings that were kept.
pub open spec fn panel_started(
    p: Panel,
    start: PanelStart,
    col: Option<SortColumn>,
    dir: Option<SortDir>,
    dir_sort: DirSort,
    show_hidden: bool,
) -> bool {
    &&& p.current_path == start.path
    &&& p.drives == start.drives
    &&& p.sort_col == match col {
        Some(c) => c,
        None => SortColumn::Name,
    }
    &&& p.sort_dir == match dir {
        Some(d) => d,
        None => SortDir::Asc,
    }
    &&& p.dir_sort == dir_sort
    &&& p.show_hidden == show_hidden
    &&& p.archive_location is None
    &&& p.rows() == p.rows_listed(Listing::Directory(start.items))
    &&& p.selected@.len() == 0
    &&& p.cursor == 0
    &&& p.path_input@ == p.address()
    &&& !p.path_focused
    &&& !p.dir_size_needed
    &&& !p.cursor_moved
    &&& p.inline_rename_idx is None
    &&& p.inline_rename_buf@.len() == 0
    &&& p.error is None
    &&& p.wf()
}

fn start_panel(
    start: PanelStart,
    col: Option<SortColumn>,
    dir: Option<SortDir>,
    dir_sort: DirSort,
    show_hidden: bool,
) -> (r: Panel)
    requires
        start.fits(),
    ensures
        panel_started(r, start, col, dir, dir_sort, show_hidden),
{
    let mut p = Panel::new(start.path, start.drives, None);
    if let Some(c) = col {
        p.sort_col = c;
    }
    if let Some(d) = dir {
        p.sort_dir = d;
    }
    p.dir_sort = dir_sort;
    p.show_hidden = show_hidden;
    p.refresh(Listing::Directory(start.items));
    p
}

impl FileManagerApp {
    /// Whether no window is open and nothing runs or waits, with every window as it is before
    /// its first use.
    pub open spec fn at_rest(&self) -> bool {
        &&& self.op@ == ProgressView::idle()
        &&& self.op_status is None
        &&& !self.delete.show
        &&& self.delete.targets@.len() == 0
        &&& self.delete.focus == 0
        &&& !self.copy.show
        &&& self.copy.kind == OpKind::Copy
        &&& self.copy.targets@.len() == 0
        &&& self.copy.focus == 0
        &&& self.copy.new_name@.len() == 0
        &&& !self.pack.show
        &&& self.pack.files@.len() == 0
        &&& self.pack.name@.len() == 0
        &&& self.pack.focus == 0
        &&& self.pending.action is None
        &&& self.pending.conflicts@.len() == 0
        &&& self.pending.focus == 0
        &&& !self.rename.show
        &&& self.rename.error is None
        &&& self.rename.plan() == (RenamePlan {
            pattern: seq![],
            replacement: seq![],
            use_regex: false,
            mask: seq![],
            counter_start: 1,
            counter_step: 1,
            counter_width: 2,
            case: RenameCase::Unchanged,
        })
        &&& !self.rename_single.show
        &&& self.rename_single.old_name@.len() == 0
        &&& self.rename_single.new_name@.len() == 0
        &&& self.rename_single.error is None
        &&& !self.mask.show
        &&& self.mask.mask@ == "*."@
        &&& self.mask.adding
        &&& !self.new_dir.show
        &&& self.new_dir.name@.len() == 0
        &&& self.new_dir.error is None
        &&& !self.new_file.show
        &&& self.new_file.name@.len() == 0
        &&& self.new_file.error is None
        &&& self.drag_src is None
        &&& !self.editor.show
        &&& self.editor.content@.len() == 0
        &&& !self.editor.modified
        &&& !self.editor.jump_start
        &&& self.update@ == (UpdateBoxView {
            state: UpdateStateView::Idle,
            show: false,
            awaited: false,
            auto_checked: false,
        })
        &&& !self.show_about
        &&& !self.show_settings
        &&& !self.sizes_awaited
        &&& !self.maximize_on_start
        &&& !self.icon_set_on_start
    }

    /// Whether the program is one at the start.
    pub open spec fn started(
        &self,
        home: PathView,
        saved: SavedView,
        left: PanelStart,
        right: PanelStart,
    ) -> bool {
        &&& panel_started(
            self.left,
            left,
            saved.sort_l_col,
            saved.sort_l_dir,
            saved.dir_sort,
            saved.show_hidden,
        )
        &&& panel_started(
            self.right,
            right,
            saved.sort_r_col,
            saved.sort_r_dir,
            saved.dir_sort,
            saved.show_hidden,
        )
        &&& self.active == ActivePanel::Left
        &&& self.at_rest()
        &&& self.dark_mode == saved.dark_mode
        &&& self.show_hidden == saved.show_hidden
        &&& self.external_editor@ == saved.external_editor
        &&& self.dir_sort == saved.dir_sort
        &&& self.search@ == (SearchBoxView {
            show: false,
            root: home,
            name: seq![],
            content: seq![],
            awaited: false,
            results: seq![],
            scanned: 0,
            running: false,
        })
        &&& self.hash@ == (HashBoxView {
            show: false,
            awaited: false,
            stoppable: false,
            results: seq![],
            errors: seq![],
            running: false,
            done: 0,
            total: 0,
            current: seq![],
        })
        &&& self.bookmarks@ == (BookmarkBoxView {
            list: saved.bookmarks,
            show: false,
            target: ActivePanel::Left,
            edit_idx: None,
            edit_name: seq![],
            edit_left: seq![],
            edit_right: seq![],
        })
        &&& self.last_saved_left@ == left.path@
        &&& self.last_saved_right@ == right.path@
        &&& self.watched_left@ == (PathView { root: seq![], parts: seq![], sep: home.sep })
        &&& self.watched_right@ == (PathView { root: seq![], parts: seq![], sep: home.sep })
    }

    /// The program at the start: the kept settings, and the panels at their directories.
    pub fn new(home: DirPath, saved: Saved, left: PanelStart, right: PanelStart) -> (r:
        FileManagerApp)
        requires
            left.fits(),
            right.fits(),
        ensures
            r.started(home@, saved@, left, right),
    {
        let sep = home.sep;
        let last_saved_left = left.path.clone();
        let last_saved_right = right.path.clone();
        let left = start_panel(
            left,
            saved.sort_l_col,
            saved.sort_l_dir,
            saved.dir_sort,
            saved.show_hidden,
        );
        let right = start_panel(
            right,
            saved.sort_r_col,
            saved.sort_r_dir,
            saved.dir_sort,
            saved.show_hidden,
        );
        FileManagerApp {
            left,
            right,
            active: ActivePanel::Left,
            op: OpProgress::new(),
            op_status: None,
            delete: DeleteBox { show: false, targets: Vec::new(), focus: 0 },
            copy: CopyBox {
                show: false,
                kind: OpKind::Copy,
                targets: Vec::new(),
                dst: DirPath::empty(sep),
                focus: 0,
                new_name: String::new(),
            },
            pack: PackBox {
                show: false,
                files: Vec::new(),
                dst: DirPath::empty(sep),
                name: String::new(),
                focus: 0,
            },
            pending: PendingBox { action: None, conflicts: Vec::new(), focus: 0 },
            rename: RenameBox::new(),
            rename_single: RenameSingleBox {
                show: false,
                old_name: String::new(),
                new_name: String::new(),
                error: None,
            },
            mask: MaskBox { show: false, mask: "*.".to_owned(), adding: true },
            new_dir: NewItemBox::new(),
            new_file: NewItemBox::new(),
            drag_src: None,
            editor: EditorBox {
                show: false,
                path: DirPath::empty(sep),
                content: String::new(),
                modified: false,
                jump_start: false,
            },
            dark_mode: saved.dark_mode,
            show_hidden: saved.show_hidden,
            external_editor: saved.external_editor,
            dir_sort: saved.dir_sort,
            update: UpdateBox::new(),
            maximize_on_start: false,
            icon_set_on_start: false,
            search: SearchBox::new(home),
            hash: HashBox::new(),
            show_about: false,
            show_settings: false,
            bookmarks: BookmarkBox::new(saved.bookmarks),
            last_saved_left,
            last_saved_right,
            watched_left: DirPath::empty(sep),
            watched_right: DirPath::empty(sep),
            sizes_awaited: false,
        }
    }
}

// ---------------------------------------------------------------------------
// What is kept
// ---------------------------------------------------------------------------

fn copy_bookmarks(list: &Vec<Bookmark>) -> (r: Vec<Bookmark>)
    ensures
        r.deep_view() == list.deep_view(),
{
    let mut out: Vec<Bookmark> = Vec::new();
    let mut i: usize = 0;
    while i < list.len()
        invariant
            i <= list.len(),
            out.len() == i,
            forall|k: int| 0 <= k < i ==> (#[trigger] out[k])@ == list[k]@,
        decreases list.len() - i,
    {
        out.push(list[i].clone());
        i += 1;
    }
    assert(out.deep_view() =~= list.deep_view());
    out
}

impl FileManagerApp {
    /// What is kept of the program.
    pub open spec fn kept(&self) -> StateView {
        StateView {
            left: self.left.current_path@,
            right: self.right.current_path@,
            sort_l_col: self.left.sort_col,
            sort_l_dir: self.left.sort_dir,
            sort_r_col: self.right.sort_col,
            sort_r_dir: self.right.sort_dir,
            dark_mode: self.dark_mode,
            show_hidden: self.show_hidden,
            external_editor: self.external_editor@,
            dir_sort: self.dir_sort,
            bookmarks: self.bookmarks@.list,
        }
    }

    /// The text that keeps the state of the program.
    pub fn save_state(&self) -> (r: String)
        ensures
            r@ == self.kept().text(),
    {
        let state = State {
            left: self.left.current_path.clone(),
            right: self.right.current_path.clone(),
            sort_l_col: self.left.sort_col,
            sort_l_dir: self.left.sort_dir,
            sort_r_col: self.right.sort_col,
            sort_r_dir: self.right.sort_dir,
            dark_mode: self.dark_mode,
            show_hidden: self.show_hidden,
            external_editor: self.external_editor.clone(),
            dir_sort: self.dir_sort,
            bookmarks: copy_bookmarks(&self.bookmarks.list),
        };
        assert(state@ =~= self.kept());
        state_file::save_state(&state)
    }

    /// Whether the directory of a panel has changed since the state was last kept. The state
    /// is then to be kept, and the directories count as kept.
    pub fn paths_changed(&mut self) -> (r: bool)
        ensures
            r == (old(self).left.current_path@ != old(self).last_saved_left@
                || old(self).right.current_path@ != old(self).last_saved_right@),
            !r ==> *final(self) == *old(self),
            r ==> *final(self) == (FileManagerApp {
                last_saved_left: final(self).last_saved_left,
                last_saved_right: final(self).last_saved_right,
                ..*old(self)
            }),
            final(self).last_saved_left@ == old(self).left.current_path@,
            final(self).last_saved_right@ == old(self).right.current_path@,
    {
        if self.left.current_path.same(&self.last_saved_left) && self.right.current_path.same(
            &self.last_saved_right,
        ) {
            return false;
        }
        self.last_saved_left = self.left.current_path.clone();
        self.last_saved_right = self.right.current_path.clone();
        true
    }
}

/// The program goes on where it ended: started with the state that was kept of it, it has the
/// same directories, orders, settings and bookmarks, as long as the paths and names hold no line
/// breaks and no white space at their ends, the editor holds no line break, and the directories
/// are still there. Only white space at the ends of the editor is lost.
pub proof fn goes_on_where_it_ended(
    before: FileManagerApp,
    after: FileManagerApp,
    probes: Seq<Option<ProbeView>>,
    resolve: spec_fn(Seq<char>) -> PathView,
    home: PathView,
    left: PanelStart,
    right: PanelStart,
)
    requires
        state_laws::state_kept(before.kept(), resolve),
        state_laws::directories_there(text::lines_of(before.kept().text()), probes, resolve),
        ({
            let saved = state_file::saved_in(text::lines_of(before.kept().text()), probes);
            &&& after.started(home, saved, left, right)
            &&& (left.path@, right.path@) == first_paths(saved, home)
        }),
    ensures
        after.kept() == (StateView {
            external_editor: text::trimmed(before.kept().external_editor),
            ..before.kept()
        }),
        state_laws::is_clean(before.kept().external_editor) ==> after.kept() == before.kept(),
{
    state_laws::saved_then_loaded(before.kept(), probes, resolve);
    let editor = before.kept().external_editor;
    assert(after.kept() =~= (StateView {
        external_editor: text::trimmed(editor),
        ..before.kept()
    }));
    if state_laws::is_clean(editor) {
        assert(after.kept() =~= before.kept());
    }
}

// ---------------------------------------------------------------------------
// Changes on disk
// ---------------------------------------------------------------------------

/// What kind of change the file system tells of.
#[derive(Clone, Copy, Debug, PartialEq, Eq, Structural)]
pub enum ChangeKind {
    Create,
    Remove,
    Rename,
    Other,
}

/// A change that the file system tells of.
#[derive(Debug)]
pub struct FsEvent {
    pub kind: ChangeKind,
    pub paths: Vec<DirPath>,
}

impl FsEvent {
    /// Whether the change is one of the listing of a directory: something in it came, went or
    /// got another name.
    pub open spec fn touches(&self, dir: PathView) -> bool {
        self.kind != ChangeKind::Other && exists|i: int|
            0 <= i < self.paths@.len() && (#[trigger] self.paths@[i])@.parent() == Some(dir)
    }

    fn touching(&self, dir: &DirPath) -> (r: bool)
        ensures
            r == self.touches(dir@),
    {
        if self.kind == ChangeKind::Other {
            return false;
        }
        let mut i: usize = 0;
        while i < self.paths.len()
            invariant
                i <= self.paths.len(),
                self.kind != ChangeKind::Other,
                forall|k: int| 0 <= k < i ==> (#[trigger] self.paths@[k])@.parent() != Some(dir@),
            decreases self.paths.len() - i,
        {
            if let Some(parent) = self.paths[i].parent() {
                if parent.same(dir) {
                    assert(self.paths@[i as int]@.parent() == Some(dir@));
                    return true;
                }
            }
            i += 1;
        }
        false
    }
}

/// Whether one of the changes is one of the listing of a directory.
pub open spec fn touched(events: Seq<FsEvent>, dir: PathView) -> bool {
    exists|i: int| 0 <= i < events.len() && (#[trigger] events[i]).touches(dir)
}

fn any_touching(events: &Vec<FsEvent>, dir: &DirPath) -> (r: bool)
    ensures
        r == touched(events@, dir@),
{
    let mut i: usize = 0;
    while i < events.len()
        invariant
            i <= events.len(),
            forall|k: int| 0 <= k < i ==> !(#[trigger] events@[k]).touches(dir@),
        decreases events.len() - i,
    {
        if events[i].touching(dir) {
            assert(events@[i as int].touches(dir@));
            return true;
        }
        i += 1;
    }
    false
}

impl FileManagerApp {
    /// Whether other directories than those of the panels are watched.
    pub fn update_watcher(&self) -> (r: bool)
        ensures
            r == !(self.left.current_path@ == self.watched_left@ && self.right.current_path@
                == self.watched_right@),
    {
        !(self.left.current_path.same(&self.watched_left) && self.right.current_path.same(
            &self.watched_right,
        ))
    }

    /// Whether the right panel needs a watch of its own beside that of the left one.
    pub fn two_directories(&self) -> (r: bool)
        ensures
            r == (self.left.current_path@ != self.right.current_path@),
    {
        !self.left.current_path.same(&self.right.current_path)
    }

    /// The directories of the panels are watched now.
    pub fn watcher_set(&mut self)
        ensures
            *final(self) == (FileManagerApp {
                watched_left: final(self).watched_left,
                watched_right: final(self).watched_right,
                ..*old(self)
            }),
            final(self).watched_left@ == old(self).left.current_path@,
            final(self).watched_right@ == old(self).right.current_path@,
    {
        self.watched_left = self.left.current_path.clone();
        self.watched_right = self.right.current_path.clone();
    }

    /// Which listings are to be read again after changes on disk: that of the left panel and
    /// that of the right one.
    pub fn poll_fs_events(&self, events: &Vec<FsEvent>) -> (r: (bool, bool))
        ensures
            r.0 == touched(events@, self.left.current_path@),
            r.1 == touched(events@, self.right.current_path@),
    {
        (
            any_touching(events, &self.left.current_path),
            any_touching(events, &self.right.current_path),
        )
    }
}

// ---------------------------------------------------------------------------
// Sizes of directories
// ---------------------------------------------------------------------------

/// The rows of a panel once sizes of directories have been counted.
pub open spec fn all_counted(
    dir: PathView,
    rows: Seq<EntryView>,
    results: Seq<(PathView, u64)>,
) -> Seq<EntryView>
    decreases results.len(),
{
    if results.len() == 0 {
        rows
    } else {
        panel::counted(
            dir,
            all_counted(dir, rows, results.drop_last()),
            results.last().0,
            results.last().1,
        )
    }
}

/// A size that was counted stands in the row of its directory, and nothing else of the rows
/// changes. Where a directory was counted more than once, the last count stands.
pub proof fn counted_sizes_stand(
    dir: PathView,
    rows: Seq<EntryView>,
    results: Seq<(PathView, u64)>,
    i: int,
    k: int,
)
    requires
        0 <= i < rows.len(),
        0 <= k < results.len(),
        rows[i].is_dir,
        results[k].0 == dir.child(rows[i].name),
        forall|j: int| k < j < results.len() ==> (#[trigger] results[j]).0 != results[k].0,
    ensures
        all_counted(dir, rows, results).len() == rows.len(),
        all_counted(dir, rows, results)[i] == (EntryView {
            dir_size: Some(results[k].1),
            ..rows[i]
        }),
    decreases results.len(),
{
    counting_keeps_rows(dir, rows, results.drop_last(), i);
    if k == results.len() - 1 {
    } else {
        let front = results.drop_last();
        assert(front[k] == results[k]);
        assert(results[results.len() - 1].0 != results[k].0);
        assert forall|j: int| k < j < front.len() implies (#[trigger] front[j]).0 != front[k].0 by {
            assert(results[j].0 != results[k].0);
        }
        counted_sizes_stand(dir, rows, front, i, k);
    }
}

/// Counting sizes changes nothing of a row but its size as a directory.
pub proof fn counting_keeps_rows(
    dir: PathView,
    rows: Seq<EntryView>,
    results: Seq<(PathView, u64)>,
    i: int,
)
    requires
        0 <= i < rows.len(),
    ensures
        all_counted(dir, rows, results).len() == rows.len(),
        all_counted(dir, rows, results)[i] == (EntryView {
            dir_size: all_counted(dir, rows, results)[i].dir_size,
            ..rows[i]
        }),
        !rows[i].is_dir ==> all_counted(dir, rows, results)[i] == rows[i],
    decreases results.len(),
{
    if results.len() > 0 {
        counting_keeps_rows(dir, rows, results.drop_last(), i);
    }
}

fn take_sizes(p: &mut Panel, results: &Vec<(DirPath, u64)>)
    ensures
        *final(p) == (Panel { entries: final(p).entries, ..*old(p) }),
        final(p).rows() == all_counted(
            old(p).current_path@,
            old(p).rows(),
            results.deep_view(),
        ),
{
    let ghost told = results.deep_view();
    let mut i: usize = 0;
    assert(told.take(0) =~= seq![]);
    while i < results.len()
        invariant
            i <= results.len(),
            told == results.deep_view(),
            *p == (Panel { entries: p.entries, ..*old(p) }),
            p.rows() == all_counted(old(p).current_path@, old(p).rows(), told.take(i as int)),
        decreases results.len() - i,
    {
        proof {
            assert(told.take(i + 1).drop_last() =~= told.take(i as int));
            assert(told.take(i + 1).last() == (results[i as int].0@, results[i as int].1));
        }
        p.set_dir_size(&results[i].0, results[i].1);
        i += 1;
    }
    assert(told.take(told.len() as int) =~= told);
}

impl FileManagerApp {
    /// The selected directories of both panels whose size has not been counted.
    pub open spec fn uncounted(&self) -> Seq<PathView> {
        panel::uncounted(
            self.left.current_path@,
            panel::picked(self.left.rows(), self.left.selected@),
        ) + panel::uncounted(
            self.right.current_path@,
            panel::picked(self.right.rows(), self.right.selected@),
        )
    }

    /// Whether `after` is the program once sizes were asked for, and `cmd` what is to be
    /// counted.
    pub open spec fn sizes_asked(&self, after: &FileManagerApp, cmd: CommandView) -> bool {
        if self.uncounted().len() == 0 {
            *after == *self && cmd == CommandView::Nothing
        } else {
            &&& *after == (FileManagerApp { sizes_awaited: true, ..*self })
            &&& cmd == CommandView::CountSizes(self.uncounted())
        }
    }

    /// Has the sizes of the selected directories counted, as far as they are not known.
    pub fn start_dir_size_calc(&mut self) -> (r: Command)
        ensures
            old(self).sizes_asked(final(self), r@),
    {
        let mut dirs = self.left.uncounted_dirs();
        let mut more = self.right.uncounted_dirs();
        let ghost first = dirs.deep_view();
        let ghost second = more.deep_view();
        dirs.append(&mut more);
        assert(dirs.deep_view() =~= first + second);
        if dirs.len() == 0 {
            assert(self.uncounted().len() == 0);
            return Command::Nothing;
        }
        self.sizes_awaited = true;
        Command::CountSizes(dirs)
    }

    /// The sizes that a panel has asked for, if any.
    pub fn start_requested_sizes(&mut self) -> (r: Command)
        ensures
            if old(self).left.dir_size_needed || old(self).right.dir_size_needed {
                (FileManagerApp {
                    left: Panel { dir_size_needed: false, ..old(self).left },
                    right: Panel { dir_size_needed: false, ..old(self).right },
                    ..*old(self)
                }).sizes_asked(final(self), r@)
            } else {
                *final(self) == *old(self) && r@ == CommandView::Nothing
            },
    {
        if self.left.dir_size_needed || self.right.dir_size_needed {
            self.left.dir_size_needed = false;
            self.right.dir_size_needed = false;
            self.start_dir_size_calc()
        } else {
            Command::Nothing
        }
    }

    /// Takes in sizes of directories that have come; `ended` tells whether they were the
    /// last.
    pub fn poll_dir_sizes(&mut self, results: &Vec<(DirPath, u64)>, ended: bool)
        ensures
            !old(self).sizes_awaited ==> *final(self) == *old(self),
            old(self).sizes_awaited ==> {
                let told = results.deep_view();
                let left = old(self).left;
                let right = old(self).right;
                &&& *final(self) == (FileManagerApp {
                    left: Panel { entries: final(self).left.entries, ..left },
                    right: Panel { entries: final(self).right.entries, ..right },
                    sizes_awaited: !ended,
                    ..*old(self)
                })
                &&& final(self).left.rows() == all_counted(left.current_path@, left.rows(), told)
                &&& final(self).right.rows() == all_counted(
                    right.current_path@,
                    right.rows(),
                    told,
                )
            },
    {
        if !self.sizes_awaited {
            return;
        }
        take_sizes(&mut self.left, results);
        take_sizes(&mut self.right, results);
        self.sizes_awaited = !ended;
    }
}

// ---------------------------------------------------------------------------
// Settings
// ---------------------------------------------------------------------------

impl FileManagerApp {
    /// Takes the dark or the light colours; tells whether that is a change, after which the
    /// state is to be kept.
    pub fn change_theme(&mut self, dark: bool) -> (r: bool)
        ensures
            *final(self) == (FileManagerApp { dark_mode: dark, ..*old(self) }),
            r == (old(self).dark_mode != dark),
    {
        let changed = self.dark_mode != dark;
        self.dark_mode = dark;
        changed
    }

    /// Orders directories otherwise in both panels; tells whether that is a change, after
    /// which both listings are to be read again and the state is to be kept.
    pub fn change_dir_sort(&mut self, dir_sort: DirSort) -> (r: bool)
        ensures
            r == (old(self).dir_sort != dir_sort),
            !r ==> *final(self) == *old(self),
            r ==> *final(self) == (FileManagerApp {
                dir_sort,
                left: Panel { dir_sort, ..old(self).left },
                right: Panel { dir_sort, ..old(self).right },
                ..*old(self)
            }),
    {
        if self.dir_sort == dir_sort {
            return false;
        }
        self.dir_sort = dir_sort;
        self.left.dir_sort = dir_sort;
        self.right.dir_sort = dir_sort;
        true
    }

    /// Shows hidden files in both panels or leaves them out; tells whether that is a change,
    /// after which both listings are to be read again and the state is to be kept.
    pub fn change_show_hidden(&mut self, show_hidden: bool) -> (r: bool)
        ensures
            r == (old(self).show_hidden != show_hidden),
            !r ==> *final(self) == *old(self),
            r ==> *final(self) == (FileManagerApp {
                show_hidden,
                left: Panel { show_hidden, ..old(self).left },
                right: Panel { show_hidden, ..old(self).right },
                ..*old(self)
            }),
    {
        if self.show_hidden == show_hidden {
            return false;
        }
        self.show_hidden = show_hidden;
        self.left.show_hidden = show_hidden;
        self.right.show_hidden = show_hidden;
        true
    }

    /// Takes in the external editor that was picked in a window of the system; none where
    /// there is no such window. Tells whether the state is to be kept.
    pub fn editor_picked(&mut self, picked: Option<String>) -> (r: bool)
        ensures
            match picked {
                Some(typed) => {
                    let path = text::trimmed(typed@);
                    &&& r == (path.len() > 0)
                    &&& *final(self) == (FileManagerApp {
                        external_editor: final(self).external_editor,
                        ..*old(self)
                    })
                    &&& final(self).external_editor@ == if path.len() > 0 {
                        path
                    } else {
                        old(self).external_editor@
                    }
                },
                None => !r && old(self).reported(
                    final(self),
                    StatusView::Error(
                        "Nepodařilo se otevřít dialog pro výběr souboru (chybí zenity nebo kdialog)."@,
                    ),
                ),
            },
    {
        match picked {
            Some(typed) => {
                let path = text::trim(typed.as_str());
                if path.as_str().unicode_len() > 0 {
                    self.external_editor = path;
                    true
                } else {
                    false
                }
            },
            None => {
                self.report(
                    StatusMsg::Error(
                        "Nepodařilo se otevřít dialog pro výběr souboru (chybí zenity nebo kdialog).".to_owned(),
                    ),
                );
                false
            },
        }
    }
}

// ---------------------------------------------------------------------------
// The context menu
// ---------------------------------------------------------------------------

/// What the context menu of a row asks for.
#[derive(Debug)]
pub enum ContextAction {
    Copy,
    Move,
    Rename,
    Delete,
    NewDir,
    NewFile,
    Open(DirPath),
    Edit(DirPath),
    SelectAll,
    DeselectAll,
    Hash,
}

impl FileManagerApp {
    /// Whether `after` is the program after a choice of the context menu, and `cmd` what
    /// follows.
    pub open spec fn menu_chosen(
        &self,
        after: &FileManagerApp,
        action: ContextAction,
        cmd: CommandView,
    ) -> bool {
        match action {
            ContextAction::Copy => self.copy_started(after, cmd),
            ContextAction::Move => self.move_started(after) && cmd == CommandView::Nothing,
            ContextAction::Rename => {
                &&& *after == self.with_panel(self.active, after.here())
                &&& self.here().rename_begun(&after.here())
                &&& cmd == CommandView::Nothing
            },
            ContextAction::Delete => self.delete_asked(after) && cmd == CommandView::Nothing,
            ContextAction::NewDir => self.new_dir_opened(after) && cmd == CommandView::Nothing,
            ContextAction::NewFile => self.new_file_opened(after) && cmd == CommandView::Nothing,
            ContextAction::Open(path) => *after == *self && cmd == CommandView::OpenSystem(path@),
            ContextAction::Edit(path) => *after == *self && cmd == CommandView::ReadText {
                path: path@,
                from_menu: true,
            },
            ContextAction::SelectAll => self.all_selected_and_counted(after, cmd),
            ContextAction::DeselectAll => self.none_selected(after) && cmd == CommandView::Nothing,
            ContextAction::Hash => *after == *self && cmd == CommandView::ProbeHash(
                self.chosen_files(),
            ),
        }
    }

    /// Whether `after` is the program with every row of the active panel selected.
    pub open spec fn all_selected(&self, after: &FileManagerApp) -> bool {
        &&& *after == self.with_panel(self.active, after.here())
        &&& after.here() == (Panel { selected: after.here().selected, ..self.here() })
        &&& after.here().selected@ == panel::all_positions(self.here().entries@.len())
    }

    /// Whether `after` is the program with no row of the active panel selected.
    pub open spec fn none_selected(&self, after: &FileManagerApp) -> bool {
        &&& *after == self.with_panel(self.active, after.here())
        &&& after.here() == (Panel { selected: after.here().selected, ..self.here() })
        &&& after.here().selected@.len() == 0
    }

    /// Whether `after` is the program with every row of the active panel selected and the
    /// sizes of directories asked for.
    pub open spec fn all_selected_and_counted(
        &self,
        after: &FileManagerApp,
        cmd: CommandView,
    ) -> bool {
        exists|m: FileManagerApp| #[trigger] self.all_selected(&m) && m.sizes_asked(after, cmd)
    }

    fn select_all_and_count(&mut self) -> (r: Command)
        ensures
            old(self).all_selected_and_counted(final(self), r@),
    {
        self.active_panel_mut().select_all();
        let ghost m = *self;
        assert(old(self).all_selected(&m));
        self.start_dir_size_calc()
    }

    fn select_none(&mut self)
        ensures
            old(self).none_selected(final(self)),
    {
        self.active_panel_mut().deselect_all();
    }

    /// Does what the context menu asks for.
    pub fn context_action(&mut self, action: ContextAction) -> (r: Command)
        requires
            old(self).here().sized(),
        ensures
            old(self).menu_chosen(final(self), action, r@),
    {
        match action {
            ContextAction::Copy => {
                return self.start_copy();
            },
            ContextAction::Move => {
                self.start_move();
            },
            ContextAction::Rename => {
                self.open_rename_single();
            },
            ContextAction::Delete => {
                self.request_delete();
            },
            ContextAction::NewDir => {
                self.open_new_dir();
            },
            ContextAction::NewFile => {
                self.open_new_file();
            },
            ContextAction::Open(path) => {
                return Command::OpenSystem(path);
            },
            ContextAction::Edit(path) => {
                return Command::ReadText { path, from_menu: true };
            },
            ContextAction::SelectAll => {
                return self.select_all_and_count();
            },
            ContextAction::DeselectAll => {
                self.select_none();
            },
            ContextAction::Hash => {
                return self.open_hash_dialog();
            },
        }
        Command::Nothing
    }
}

// ---------------------------------------------------------------------------
// A newer version
// ---------------------------------------------------------------------------

impl FileManagerApp {
    /// Looks for a newer version once, at the start; tells whether the reply has to be
    /// fetched.
    pub fn check_at_start(&mut self) -> (r: bool)
        ensures
            *final(self) == (FileManagerApp { update: final(self).update, ..*old(self) }),
            if old(self).update.auto_checked {
                final(self).update == old(self).update && !r
            } else {
                &&& final(self).update@ == (UpdateBoxView {
                    auto_checked: true,
                    ..old(self).update@
                }).checking(false)
                &&& r == !old(self).update@.busy()
            },
    {
        if self.update.auto_checked {
            return false;
        }
        self.update.auto_checked = true;
        self.update.check_for_update_silent()
    }

    /// Takes in what a look for the reply on a newer version found.
    pub fn poll_update_check(&mut self, reply: UpdateReply, current: &str)
        ensures
            *final(self) == (FileManagerApp {
                update: final(self).update,
                op_status: final(self).op_status,
                ..*old(self)
            }),
            final(self).update@ == old(self).update@.polled(reply, current@),
            match reply {
                UpdateReply::Came(Err(e)) if old(self).update.awaited => {
                    final(self).op_status.deep_view() == Some(
                        StatusView::Error("Update selhal: "@ + e@),
                    )
                },
                _ => final(self).op_status == old(self).op_status,
            },
    {
        if let Some(message) = self.update.poll_update_check(reply, current) {
            self.report(StatusMsg::Error(message));
        }
    }
}

// ---------------------------------------------------------------------------
// One picture
// ---------------------------------------------------------------------------

impl FileManagerApp {
    /// Whether a window is open, or a row is being renamed in place.
    pub open spec fn some_window(&self) -> bool {
        ||| self.editor.show
        ||| self.bookmarks.show
        ||| self.show_settings
        ||| self.show_about
        ||| self.update.show
        ||| self.rename_single.show
        ||| self.rename.show
        ||| self.search.show
        ||| self.hash.show
        ||| self.new_dir.show
        ||| self.new_file.show
        ||| self.mask.show
        ||| self.delete.show
        ||| self.copy.show
        ||| self.pack.show
        ||| self.op.show
        ||| self.pending.action is Some
        ||| self.left.inline_rename_idx is Some
        ||| self.right.inline_rename_idx is Some
    }

    /// Whether a window is open, or a row is being renamed in place.
    pub fn any_dialog_open(&self) -> (r: bool)
        ensures
            r == self.some_window(),
    {
        self.editor.show || self.bookmarks.show || self.show_settings || self.show_about
            || self.update.show || self.rename_single.show || self.rename.show || self.search.show
            || self.hash.show || self.new_dir.show || self.new_file.show || self.mask.show
            || self.delete.show || self.copy.show || self.pack.show || self.op.show
            || self.pending.action.is_some() || self.left.inline_rename_idx.is_some()
            || self.right.inline_rename_idx.is_some()
    }

    /// The tabulator key: the other panel gets the keyboard, unless the editor is open. Tells
    /// whether it did.
    pub fn switch_panel(&mut self) -> (r: bool)
        ensures
            r == !old(self).editor.show,
            *final(self) == (FileManagerApp {
                active: if r {
                    old(self).active.opposite()
                } else {
                    old(self).active
                },
                ..*old(self)
            }),
    {
        if self.editor.show {
            return false;
        }
        self.active = self.active.other();
        true
    }

    /// Whether the picture is to be drawn again at once: while something is awaited.
    pub fn needs_repaint(&self) -> (r: bool)
        ensures
            r == (self.op.running || self.search.awaited || self.sizes_awaited),
    {
        self.op.running || self.search.awaited || self.sizes_awaited
    }

    /// The end of a picture: the cursors count as shown.
    pub fn end_frame(&mut self)
        ensures
            *final(self) == (FileManagerApp {
                left: Panel { cursor_moved: false, ..old(self).left },
                right: Panel { cursor_moved: false, ..old(self).right },
                ..*old(self)
            }),
    {
        self.left.cursor_moved = false;
        self.right.cursor_moved = false;
    }
}

/// The tabulator key pressed twice changes nothing.
pub proof fn switching_twice(side: ActivePanel)
    ensures
        side.opposite().opposite() == side,
        side.opposite() != side,
{
}

/// The menu does what the keys do.
pub proof fn menu_does_what_keys_do(
    before: FileManagerApp,
    after: FileManagerApp,
    cmd: CommandView,
)
    ensures
        before.menu_chosen(&after, ContextAction::Copy, cmd) <==> before.pressed(
            &after,
            crate::shortcuts::FnKey::Copy,
            cmd,
        ),
        before.menu_chosen(&after, ContextAction::Move, cmd) <==> before.pressed(
            &after,
            crate::shortcuts::FnKey::Move,
            cmd,
        ),
        before.menu_chosen(&after, ContextAction::Rename, cmd) <==> before.pressed(
            &after,
            crate::shortcuts::FnKey::Rename,
            cmd,
        ),
        before.menu_chosen(&after, ContextAction::Delete, cmd) <==> before.pressed(
            &after,
            crate::shortcuts::FnKey::Delete,
            cmd,
        ),
        before.menu_chosen(&after, ContextAction::NewDir, cmd) <==> before.pressed(
            &after,
            crate::shortcuts::FnKey::NewDir,
            cmd,
        ),
        before.menu_chosen(&after, ContextAction::NewFile, cmd) <==> before.pressed(
            &after,
            crate::shortcuts::FnKey::NewFile,
            cmd,
        ),
        before.menu_chosen(&after, ContextAction::Hash, cmd) <==> before.pressed(
            &after,
            crate::shortcuts::FnKey::Hash,
            cmd,
        ),
{
}

/// Choosing everything by the menu means every row, and none means none.
pub proof fn menu_chooses_all_or_none(
    before: FileManagerApp,
    all: FileManagerApp,
    none: FileManagerApp,
)
    requires
        before.wf(),
        before.all_selected(&all),
        before.none_selected(&none),
        before.here().entries@.len() > 0,
    ensures
        all.here().effective_rows() == before.here().rows(),
        none.here().selected@.len() == 0,
        all.here().rows() == before.here().rows(),
        none.here().rows() == before.here().rows(),
{
    panel::choosing_all_picks_all(before.here().rows());
}

/// A change on the disk concerns a directory exactly where something that lies directly in it
/// was made, changed or removed.
pub proof fn changes_directly_below(events: Seq<FsEvent>, dir: PathView, i: int, k: int)
    requires
        0 <= i < events.len(),
    ensures
        0 <= k < events[i].paths@.len() && events[i].kind != ChangeKind::Other
            && events[i].paths@[k]@.parent() == Some(dir) ==> touched(events, dir),
        touched(events, dir) ==> exists|e: int, p: int|
            0 <= e < events.len() && 0 <= p < events[e].paths@.len() && events[e].kind
                != ChangeKind::Other && (#[trigger] events[e].paths@[p])@.parent() == Some(dir),
{
    if 0 <= k < events[i].paths@.len() && events[i].kind != ChangeKind::Other
        && events[i].paths@[k]@.parent() == Some(dir) {
        assert(events[i].touches(dir));
    }
    if touched(events, dir) {
        let e = choose|e: int| 0 <= e < events.len() && (#[trigger] events[e]).touches(dir);
        let p = choose|p: int|
            0 <= p < events[e].paths@.len() && (#[trigger] events[e].paths@[p])@.parent() == Some(
                dir,
            );
        assert(events[e].paths@[p]@.parent() == Some(dir));
    }
}

/// The panels start where they ended, and at home where that is not known.
pub proof fn panels_start_where_known(saved: SavedView, home: PathView)
    ensures
        saved.left is Some ==> first_paths(saved, home).0 == saved.left->0,
        saved.left is None ==> first_paths(saved, home).0 == home,
        saved.right is Some ==> first_paths(saved, home).1 == saved.right->0,
        saved.right is None ==> first_paths(saved, home).1 == home,
{
}

/// The sizes asked for are those of the chosen directories that were not counted yet, of the
/// left panel and then of the right one; where there are none, nothing is asked.
pub proof fn sizes_of_chosen_directories(
    before: FileManagerApp,
    after: FileManagerApp,
    cmd: CommandView,
)
    requires
        before.sizes_asked(&after, cmd),
    ensures
        before.uncounted().len() == 0 ==> after == before && cmd == CommandView::Nothing,
        before.uncounted().len() > 0 ==> after.sizes_awaited && cmd == CommandView::CountSizes(
            before.uncounted(),
        ),
        before.left.selected@.len() == 0 && before.right.selected@.len() == 0 ==> cmd
            == CommandView::Nothing,
{
}

/// A window that the keys go to counts as an open one, but for the question after an error.
pub proof fn shown_windows_are_windows(app: FileManagerApp, d: crate::shortcuts::Dialog)
    requires
        app.shows(d),
        d != crate::shortcuts::Dialog::OpError,
    ensures
        app.some_window(),
{
}

/// Choosing everything asks for the sizes of the directories that were not counted yet.
pub proof fn choosing_all_counts(before: FileManagerApp, after: FileManagerApp, cmd: CommandView)
    requires
        before.wf(),
        before.all_selected_and_counted(&after, cmd),
        before.here().entries@.len() > 0,
    ensures
        after.here().selected@ == panel::all_positions(before.here().entries@.len()),
        after.here().rows() == before.here().rows(),
        cmd == CommandView::Nothing || cmd is CountSizes,
{
    let m = choose|m: FileManagerApp| #[trigger]
        before.all_selected(&m) && m.sizes_asked(&after, cmd);
    assert(after.here() == m.here());
}

} // verus!
