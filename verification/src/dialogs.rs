//! The windows of the program: what opening, confirming and closing them does.

use crate::app::{EditorBox, FileManagerApp, MaskBox, NewItemBox, RenameSingleBox};
use crate::bookmark::{Bookmark, BookmarkBoxView, BookmarkView};
use crate::hash::{HashBoxView, HashMsg, HashMsgView};
use crate::jobs::{Command, CommandView};
use crate::panel::{self, Focus, FocusView, Panel, RenameRequest};
use crate::path::{DirPath, PathView};
use crate::rename::{self, RenameBox};
use crate::search::{SearchBox, SearchBoxView, SearchMsg, SearchMsgView};
use crate::text;
use crate::view::{StatusMsg, StatusView};
use vstd::prelude::*;

verus! {

broadcast use vstd::string::group_string_axioms;

// ---------------------------------------------------------------------------
// Searching
// ---------------------------------------------------------------------------

/// The search window after some messages.
pub open spec fn search_told(b: SearchBoxView, msgs: Seq<SearchMsg>) -> SearchBoxView
    decreases msgs.len(),
{
    if msgs.len() == 0 {
        b
    } else {
        search_told(b, msgs.drop_last()).after(msgs.last()@)
    }
}

/// Whether the end of the search is among some messages.
pub open spec fn search_over(msgs: Seq<SearchMsg>) -> bool {
    exists|i: int| 0 <= i < msgs.len() && (#[trigger] msgs[i])@ == SearchMsgView::Finished
}

/// The files that are found are shown in the order in which they were found, behind those
/// that were shown before.
pub proof fn results_in_order(b: SearchBoxView, msgs: Seq<SearchMsg>)
    ensures
        search_told(b, msgs).results.len() >= b.results.len(),
        search_told(b, msgs).results.take(b.results.len() as int) == b.results,
    decreases msgs.len(),
{
    if msgs.len() > 0 {
        results_in_order(b, msgs.drop_last());
        let before = search_told(b, msgs.drop_last()).results;
        let after = search_told(b, msgs).results;
        assert(after.take(b.results.len() as int) =~= before.take(b.results.len() as int));
    } else {
        assert(b.results.take(b.results.len() as int) =~= b.results);
    }
}

impl FileManagerApp {
    /// Whether `after` is the program once a search was asked for.
    pub open spec fn search_opened(&self, after: &FileManagerApp) -> bool {
        &&& *after == (FileManagerApp { search: after.search, ..*self })
        &&& after.search@ == (SearchBoxView {
            show: true,
            root: self.here().current_path@,
            name: seq![],
            content: seq![],
            results: seq![],
            running: false,
            ..self.search@
        })
    }

    /// Opens the search window for the directory of the active panel.
    pub fn open_search_dialog(&mut self)
        ensures
            old(self).search_opened(final(self)),
    {
        let root = self.active_panel().current_path.clone();
        self.search.open(&root);
    }

    /// Starts the search that the window asks for; tells whether it is to be run. It is not
    /// where the directory is none.
    pub fn start_search(&mut self, root_is_dir: bool) -> (r: bool)
        ensures
            r == root_is_dir,
            !root_is_dir ==> old(self).reported(
                final(self),
                StatusView::Error("Zadaný adresář pro hledání neexistuje."@),
            ),
            root_is_dir ==> *final(self) == (FileManagerApp {
                search: final(self).search,
                ..*old(self)
            }) && final(self).search@ == (SearchBoxView {
                results: seq![],
                scanned: 0,
                running: true,
                awaited: true,
                ..old(self).search@
            }),
    {
        if !root_is_dir {
            self.report(StatusMsg::Error("Zadaný adresář pro hledání neexistuje.".to_owned()));
            return false;
        }
        self.search.start();
        true
    }

    /// Takes in the messages of the search that have come.
    pub fn poll_search(&mut self, msgs: Vec<SearchMsg>)
        ensures
            !old(self).search.awaited ==> *final(self) == *old(self),
            old(self).search.awaited ==> {
                let told = search_told(old(self).search@, msgs@);
                &&& *final(self) == (FileManagerApp { search: final(self).search, ..*old(self) })
                &&& final(self).search@ == (SearchBoxView {
                    awaited: !search_over(msgs@),
                    running: !search_over(msgs@) && told.running,
                    ..told
                })
            },
    {
        if !self.search.awaited {
            return;
        }
        let ghost all = msgs@;
        let ghost start = self.search@;
        let mut rest = msgs;
        let mut still_running = true;
        let ghost mut n: int = 0;
        assert(all.take(0) =~= seq![]);
        assert(all.skip(0) =~= all);
        while rest.len() > 0
            invariant
                0 <= n <= all.len(),
                rest@ == all.skip(n),
                *self == (FileManagerApp { search: self.search, ..*old(self) }),
                self.search@ == search_told(start, all.take(n)),
                still_running == !search_over(all.take(n)),
            decreases rest.len(),
        {
            let ghost seen = all.take(n);
            let msg = rest.remove(0);
            proof {
                assert(msg == all[n]);
                assert(all.take(n + 1) =~= seen.push(msg));
                assert(all.take(n + 1).drop_last() =~= seen);
                assert(rest@ =~= all.skip(n + 1));
                let next = all.take(n + 1);
                if search_over(seen) {
                    let i = choose|i: int|
                        0 <= i < seen.len() && (#[trigger] seen[i])@ == SearchMsgView::Finished;
                    assert(next[i]@ == SearchMsgView::Finished);
                }
                if msg@ == SearchMsgView::Finished {
                    assert(next[n]@ == SearchMsgView::Finished);
                }
                if search_over(next) {
                    let i = choose|i: int|
                        0 <= i < next.len() && (#[trigger] next[i])@ == SearchMsgView::Finished;
                    if i < n {
                        assert(seen[i]@ == SearchMsgView::Finished);
                    }
                }
            }
            if self.search.apply(msg) {
                still_running = false;
            }
            proof {
                n = n + 1;
            }
        }
        assert(all.take(n) =~= all);
        self.search.end_poll(still_running);
    }

    /// Goes to a file that was found: its directory is shown in the active panel, the file is
    /// selected, and the search window is closed. `cmd` is what follows.
    pub open spec fn result_picked(
        &self,
        after: &FileManagerApp,
        path: PathView,
        cmd: CommandView,
    ) -> bool {
        let closed = FileManagerApp {
            search: SearchBox { show: false, ..self.search },
            ..*self
        };
        match path.parent() {
            None => *after == closed && cmd == CommandView::Nothing,
            Some(dir) => {
                &&& *after == closed.with_panel(self.active, after.here())
                &&& self.here().moved_to(&after.here(), dir)
                &&& cmd == CommandView::Reload {
                    side: self.active,
                    focus: match path.name() {
                        Some(name) => FocusView::Select(name),
                        None => FocusView::Keep,
                    },
                }
            },
        }
    }

    /// Goes to a file that was found.
    pub fn jump_to_search_result(&mut self, path: &DirPath) -> (r: Command)
        ensures
            old(self).result_picked(final(self), path@, r@),
    {
        self.search.show = false;
        let dir = match path.parent() {
            Some(dir) => dir,
            None => {
                return Command::Nothing;
            },
        };
        let side = self.active;
        let p = self.panel_mut(side);
        let _ = p.go_to(&dir);
        let focus = match path.file_name() {
            Some(name) => Focus::Select(name),
            None => Focus::Keep,
        };
        Command::Reload { side, focus }
    }
}

// ---------------------------------------------------------------------------
// Checksums
// ---------------------------------------------------------------------------

/// The checksum window after some messages.
pub open spec fn hash_told(b: HashBoxView, msgs: Seq<HashMsg>) -> HashBoxView
    decreases msgs.len(),
{
    if msgs.len() == 0 {
        b
    } else {
        hash_told(b, msgs.drop_last()).after(msgs.last()@)
    }
}

/// Whether the end of the count is among some messages.
pub open spec fn hash_over(msgs: Seq<HashMsg>) -> bool {
    exists|i: int| 0 <= i < msgs.len() && (#[trigger] msgs[i])@ == HashMsgView::Finished
}

/// The paths that are files, where `is_file[i]` tells it of path `i`.
pub open spec fn files_among(paths: Seq<PathView>, is_file: Seq<bool>) -> Seq<PathView>
    decreases paths.len(),
{
    if paths.len() == 0 {
        seq![]
    } else {
        let front = files_among(paths.drop_last(), is_file);
        if is_file[paths.len() - 1] {
            front.push(paths.last())
        } else {
            front
        }
    }
}

impl FileManagerApp {
    /// Checksums: finds out first which of the chosen items are files.
    pub fn open_hash_dialog(&self) -> (r: Command)
        requires
            self.here().sized(),
        ensures
            r@ == CommandView::ProbeHash(self.chosen_files()),
    {
        Command::ProbeHash(self.active_panel().effective_paths())
    }

    /// Starts to count the checksums of the files among the paths; gives the files. Without
    /// any there is only a message.
    pub fn begin_hash(&mut self, paths: &Vec<DirPath>, is_file: &Vec<bool>) -> (r: Option<
        Vec<DirPath>,
    >)
        requires
            is_file.len() == paths.len(),
        ensures
            ({
                let files = files_among(paths.deep_view(), is_file@);
                if files.len() == 0 {
                    &&& old(self).reported(
                        final(self),
                        StatusView::Warn(
                            "Vyber alespoň jeden soubor pro výpočet kontrolního součtu."@,
                        ),
                    )
                    &&& r is None
                } else {
                    &&& *final(self) == (FileManagerApp { hash: final(self).hash, ..*old(self) })
                    &&& final(self).hash@ == (HashBoxView {
                        show: true,
                        awaited: true,
                        stoppable: true,
                        results: seq![],
                        errors: seq![],
                        running: true,
                        done: 0,
                        total: files.len() as usize,
                        current: seq![],
                    })
                    &&& r.deep_view() == Some(files)
                }
            }),
    {
        let ghost all = paths.deep_view();
        let mut files: Vec<DirPath> = Vec::new();
        let mut i: usize = 0;
        assert(all.take(0) =~= seq![]);
        assert(files.deep_view() =~= files_among(all.take(0), is_file@));
        while i < paths.len()
            invariant
                i <= paths.len(),
                is_file.len() == paths.len(),
                all == paths.deep_view(),
                files.deep_view() == files_among(all.take(i as int), is_file@),
            decreases paths.len() - i,
        {
            let ghost before = files.deep_view();
            proof {
                assert(all.take(i + 1).drop_last() == all.take(i as int));
                assert(all.take(i + 1).last() == paths[i as int]@);
            }
            if is_file[i] {
                files.push(paths[i].clone());
                assert(files.deep_view() =~= before.push(paths[i as int]@));
            }
            i += 1;
        }
        assert(all.take(all.len() as int) == all);
        assert(files.deep_view().len() == files.len());
        if files.len() == 0 {
            self.report(
                StatusMsg::Warn(
                    "Vyber alespoň jeden soubor pro výpočet kontrolního součtu.".to_owned(),
                ),
            );
            return None;
        }
        self.hash.start(files.len());
        Some(files)
    }

    /// Takes in the messages on checksums that have come.
    pub fn poll_hash(&mut self, msgs: Vec<HashMsg>)
        ensures
            !old(self).hash.awaited ==> *final(self) == *old(self),
            old(self).hash.awaited ==> {
                let told = hash_told(old(self).hash@, msgs@);
                &&& *final(self) == (FileManagerApp { hash: final(self).hash, ..*old(self) })
                &&& final(self).hash@ == (HashBoxView {
                    awaited: !hash_over(msgs@),
                    running: !hash_over(msgs@) && told.running,
                    ..told
                })
            },
    {
        if !self.hash.awaited {
            return;
        }
        let ghost all = msgs@;
        let ghost start = self.hash@;
        let mut rest = msgs;
        let mut still_running = true;
        let ghost mut n: int = 0;
        assert(all.take(0) =~= seq![]);
        assert(all.skip(0) =~= all);
        while rest.len() > 0
            invariant
                0 <= n <= all.len(),
                rest@ == all.skip(n),
                *self == (FileManagerApp { hash: self.hash, ..*old(self) }),
                self.hash@ == hash_told(start, all.take(n)),
                still_running == !hash_over(all.take(n)),
            decreases rest.len(),
        {
            let ghost seen = all.take(n);
            let msg = rest.remove(0);
            proof {
                assert(msg == all[n]);
                assert(all.take(n + 1) =~= seen.push(msg));
                assert(all.take(n + 1).drop_last() =~= seen);
                assert(rest@ =~= all.skip(n + 1));
                let next = all.take(n + 1);
                if hash_over(seen) {
                    let i = choose|i: int|
                        0 <= i < seen.len() && (#[trigger] seen[i])@ == HashMsgView::Finished;
                    assert(next[i]@ == HashMsgView::Finished);
                }
                if msg@ == HashMsgView::Finished {
                    assert(next[n]@ == HashMsgView::Finished);
                }
                if hash_over(next) {
                    let i = choose|i: int|
                        0 <= i < next.len() && (#[trigger] next[i])@ == HashMsgView::Finished;
                    if i < n {
                        assert(seen[i]@ == HashMsgView::Finished);
                    }
                }
            }
            if self.hash.apply(msg) {
                still_running = false;
            }
            proof {
                n = n + 1;
            }
        }
        assert(all.take(n) =~= all);
        self.hash.end_poll(still_running);
    }

    /// A checksum was put on the clipboard.
    pub fn hash_copied(&mut self)
        ensures
            old(self).reported(
                final(self),
                StatusView::Info("Hash zkopírován do schránky."@),
            ),
    {
        self.report(StatusMsg::Info("Hash zkopírován do schránky.".to_owned()));
    }
}

// ---------------------------------------------------------------------------
// Bookmarks
// ---------------------------------------------------------------------------

/// Shows the directories of a bookmark in two panels; tells whether there is a second one.
fn visit(first: &mut Panel, second: &mut Panel, bm: &Bookmark) -> (r: bool)
    ensures
        old(first).moved_to(final(first), bm@.left),
        match bm@.right {
            Some(p) => old(second).moved_to(final(second), p),
            None => *final(second) == *old(second),
        },
        r == bm@.right is Some,
{
    let _ = first.go_to(&bm.left);
    match &bm.right {
        Some(path) => {
            let _ = second.go_to(path);
            true
        },
        None => false,
    }
}

impl FileManagerApp {
    /// Adds a bookmark of the directories of both panels; that of the panel from which the
    /// window was opened comes first.
    pub fn add_bookmark_current(&mut self)
        ensures
            *final(self) == (FileManagerApp { bookmarks: final(self).bookmarks, ..*old(self) }),
            final(self).bookmarks@ == (BookmarkBoxView {
                list: old(self).bookmarks@.list.push(
                    BookmarkView {
                        name: old(self).panel_of(
                            old(self).bookmarks.target,
                        ).current_path@.name_or_empty(),
                        left: old(self).panel_of(old(self).bookmarks.target).current_path@,
                        right: Some(
                            old(self).panel_of(
                                old(self).bookmarks.target.opposite(),
                            ).current_path@,
                        ),
                    },
                ),
                ..old(self).bookmarks@
            }),
    {
        let target = self.bookmarks.target;
        let first = self.panel(target).current_path.clone();
        let second = self.panel(target.other()).current_path.clone();
        self.bookmarks.add_path(&first, Some(&second));
    }

    /// Adds a bookmark of the directory of the panel from which the window was opened.
    pub fn add_bookmark_single(&mut self)
        ensures
            *final(self) == (FileManagerApp { bookmarks: final(self).bookmarks, ..*old(self) }),
            final(self).bookmarks@ == (BookmarkBoxView {
                list: old(self).bookmarks@.list.push(
                    BookmarkView {
                        name: old(self).panel_of(
                            old(self).bookmarks.target,
                        ).current_path@.name_or_empty(),
                        left: old(self).panel_of(old(self).bookmarks.target).current_path@,
                        right: None,
                    },
                ),
                ..old(self).bookmarks@
            }),
    {
        let target = self.bookmarks.target;
        let first = self.panel(target).current_path.clone();
        self.bookmarks.add_path(&first, None);
    }

    /// Whether `after` is the program once a bookmark was gone to: the panel from which the
    /// window was opened shows its first directory and becomes the active one, the other
    /// panel shows the second directory, where there is one.
    pub open spec fn bookmark_visited(&self, after: &FileManagerApp, bm: BookmarkView) -> bool {
        let target = self.bookmarks.target;
        let other = target.opposite();
        &&& *after == (FileManagerApp {
            left: after.left,
            right: after.right,
            active: target,
            ..*self
        })
        &&& self.panel_of(target).moved_to(&after.panel_of(target), bm.left)
        &&& match bm.right {
            Some(p) => self.panel_of(other).moved_to(&after.panel_of(other), p),
            None => after.panel_of(other) == self.panel_of(other),
        }
    }

    /// Goes to a bookmark. The listings of the panels that have moved are to be read again:
    /// that of the panel from which the window was opened, and where told so, of the other.
    pub fn jump_to_bookmark(&mut self, bm: &Bookmark) -> (r: bool)
        ensures
            old(self).bookmark_visited(final(self), bm@),
            r == bm@.right is Some,
    {
        let target = self.bookmarks.target;
        self.active = target;
        let (first, second) = self.both_mut(target);
        visit(first, second, bm)
    }

    /// The text of the directory of a panel, for the bookmark that is being edited: of the
    /// panel from which the window was opened, or of the other one.
    pub fn bookmark_path_text(&self, other: bool) -> (r: String)
        ensures
            r@ == self.panel_of(
                if other {
                    self.bookmarks.target.opposite()
                } else {
                    self.bookmarks.target
                },
            ).current_path@.text(),
    {
        let side = if other {
            self.bookmarks.target.other()
        } else {
            self.bookmarks.target
        };
        self.panel(side).current_path.text()
    }
}

/// A bookmark of both panels leads back to where they were: gone to from the same panel, both
/// panels show the directories that they showed when it was added.
pub proof fn bookmark_leads_back(
    before: FileManagerApp,
    moved: FileManagerApp,
    after: FileManagerApp,
    bm: BookmarkView,
)
    requires
        bm.left == before.panel_of(before.bookmarks.target).current_path@,
        bm.right == Some(before.panel_of(before.bookmarks.target.opposite()).current_path@),
        moved.bookmarks.target == before.bookmarks.target,
        moved.bookmark_visited(&after, bm),
    ensures
        after.left.current_path@ == before.left.current_path@,
        after.right.current_path@ == before.right.current_path@,
        after.left.archive_location is None,
        after.right.archive_location is None,
{
}

// ---------------------------------------------------------------------------
// Renaming
// ---------------------------------------------------------------------------

impl FileManagerApp {
    /// The old and new names of the selected rows.
    pub fn rename_preview(&self) -> (r: Result<Vec<(String, String)>, String>)
        requires
            self.rename.plan().counts(
                panel::picked(self.here().rows(), self.here().selected@).len() as int,
            ),
        ensures
            ({
                let names = panel::names_of(
                    panel::picked(self.here().rows(), self.here().selected@),
                );
                &&& r is Err == self.rename.plan().problem() is Some
                &&& r matches Err(e) ==> e@ == self.rename.plan().problem()->0
                &&& r matches Ok(lines) ==> lines.deep_view() == self.rename.plan().preview(names)
            }),
    {
        let names = self.active_panel().selected_names();
        assert(names.deep_view().len() == names.len());
        self.rename.rename_preview(&names)
    }

    /// Whether the counter of the rename window can be held for the selected rows.
    pub fn rename_counter_fits(&self) -> (r: bool)
        ensures
            r == self.rename.plan().counts(
                panel::picked(self.here().rows(), self.here().selected@).len() as int,
            ),
    {
        let names = self.active_panel().selected_names();
        assert(names.deep_view().len() == names.len());
        self.rename.counter_fits(names.len())
    }

    /// Renames the selected rows: gives the files to be renamed within the directory of the
    /// active panel. Inside an archive, and where the pattern is not valid, there is only a
    /// message.
    pub fn apply_bulk_rename(&mut self) -> (r: Option<Vec<(String, String)>>)
        requires
            old(self).rename.plan().counts(
                panel::picked(old(self).here().rows(), old(self).here().selected@).len() as int,
            ),
        ensures
            ({
                let plan = old(self).rename.plan();
                let names = panel::names_of(
                    panel::picked(old(self).here().rows(), old(self).here().selected@),
                );
                if old(self).here().archive_location is Some || plan.problem() is Some {
                    &&& *final(self) == (FileManagerApp {
                        rename: RenameBox { error: final(self).rename.error, ..old(self).rename },
                        ..*old(self)
                    })
                    &&& final(self).rename.error.deep_view() == Some(
                        if old(self).here().archive_location is Some {
                            "Přejmenování uvnitř archivu není podporované."@
                        } else {
                            plan.problem()->0
                        },
                    )
                    &&& r is None
                } else {
                    &&& *final(self) == *old(self)
                    &&& r.deep_view() == Some(rename::changes(plan.preview(names)))
                }
            }),
    {
        if self.active_panel().archive_location.is_some() {
            self.rename.error = Some("Přejmenování uvnitř archivu není podporované.".to_owned());
            return None;
        }
        match self.rename_preview() {
            Ok(lines) => Some(rename::changed_names(lines)),
            Err(e) => {
                self.rename.error = Some(e);
                None
            },
        }
    }

    /// Starts to rename the row at the cursor in place.
    pub fn open_rename_single(&mut self)
        ensures
            *final(self) == old(self).with_panel(old(self).active, final(self).here()),
            old(self).here().rename_begun(&final(self).here()),
    {
        self.active_panel_mut().begin_rename();
    }

    /// The file that the window for a single file renames.
    pub fn apply_rename_single(&self) -> (r: Command)
        ensures
            r@ == (CommandView::RenameFile {
                dir: self.here().current_path@,
                old_name: self.rename_single.old_name@,
                new_name: self.rename_single.new_name@,
            }),
    {
        Command::RenameFile(
            RenameRequest {
                dir: self.active_panel().current_path.clone(),
                old_name: self.rename_single.old_name.clone(),
                new_name: self.rename_single.new_name.clone(),
            },
        )
    }

    /// Takes in how renaming a single file came out: the window is closed and the file shown,
    /// or the reason of the failure is.
    pub fn rename_single_done(&mut self, outcome: Result<(), String>) -> (r: Command)
        ensures
            match outcome {
                Ok(_) => {
                    &&& *final(self) == (FileManagerApp {
                        rename_single: RenameSingleBox { show: false, ..old(self).rename_single },
                        ..*old(self)
                    })
                    &&& r@ == (CommandView::Reload {
                        side: old(self).active,
                        focus: FocusView::Name(old(self).rename_single.new_name@),
                    })
                },
                Err(e) => {
                    &&& *final(self) == (FileManagerApp {
                        rename_single: RenameSingleBox { error: Some(e), ..old(self).rename_single },
                        ..*old(self)
                    })
                    &&& r@ == CommandView::Nothing
                },
            },
    {
        match outcome {
            Ok(_) => {
                self.rename_single.show = false;
                Command::Reload {
                    side: self.active,
                    focus: Focus::Name(self.rename_single.new_name.clone()),
                }
            },
            Err(e) => {
                self.rename_single.error = Some(e);
                Command::Nothing
            },
        }
    }
}

// ---------------------------------------------------------------------------
// Selecting by a mask
// ---------------------------------------------------------------------------

impl FileManagerApp {
    /// Whether `after` is the program once the rows of the active panel were selected by the
    /// mask of the window, or taken out of the selection. Upper and lower case count as the
    /// same.
    pub open spec fn mask_applied(&self, after: &FileManagerApp, adding: bool) -> bool {
        &&& *after == self.with_panel(self.active, after.here())
        &&& after.here() == (Panel { selected: after.here().selected, ..self.here() })
        &&& after.here().selected@ == panel::masked(
            self.here().selected@,
            self.here().rows(),
            text::lowercase(text::trimmed(self.mask.mask@)),
            adding,
            self.here().entries@.len() as int,
        )
    }

    /// Selects the rows of the active panel by the mask of the window.
    pub fn apply_mask(&mut self, adding: bool)
        ensures
            old(self).mask_applied(final(self), adding),
    {
        let typed = text::trim(self.mask.mask.as_str());
        let mask = text::to_lower(typed.as_str());
        self.active_panel_mut().apply_mask(mask.as_str(), adding);
    }

    /// Selects by the mask as the window says, and closes it.
    pub fn confirm_mask(&mut self)
        ensures
            exists|m: FileManagerApp| #[trigger]
                old(self).mask_applied(&m, old(self).mask.adding) && *final(self) == (
                FileManagerApp { mask: MaskBox { show: false, ..m.mask }, ..m }),
    {
        let adding = self.mask.adding;
        self.apply_mask(adding);
        let ghost m = *self;
        self.mask.show = false;
        assert(old(self).mask_applied(&m, old(self).mask.adding));
    }

    /// Whether `after` is the program with the mask window open: to add to the selection,
    /// with the last mask, or to take out of it, with the mask for everything.
    pub open spec fn mask_opened(&self, after: &FileManagerApp, adding: bool) -> bool {
        &&& *after == (FileManagerApp { mask: after.mask, ..*self })
        &&& after.mask.show
        &&& after.mask.adding == adding
        &&& after.mask.mask@ == if adding && self.mask.mask@.len() > 0 {
            self.mask.mask@
        } else {
            "*"@
        }
    }

    /// Opens the mask window.
    pub fn open_mask(&mut self, adding: bool)
        ensures
            old(self).mask_opened(final(self), adding),
    {
        self.mask.show = true;
        self.mask.adding = adding;
        if !adding || self.mask.mask.as_str().unicode_len() == 0 {
            self.mask.mask = "*".to_owned();
        }
    }
}

// ---------------------------------------------------------------------------
// New directories and files
// ---------------------------------------------------------------------------

/// Whether `after` is the window that tells that a name must not be empty.
pub open spec fn name_refused(before: NewItemBox, after: NewItemBox) -> bool {
    &&& after == (NewItemBox { error: after.error, ..before })
    &&& after.error.deep_view() == Some("Název nesmí být prázdný."@)
}

impl FileManagerApp {
    /// Whether `after` is the program once a new directory was confirmed, and `cmd` what is
    /// to be created: nothing without a name.
    pub open spec fn new_dir_confirmed(&self, after: &FileManagerApp, cmd: CommandView) -> bool {
        let name = text::trimmed(self.new_dir.name@);
        if name.len() == 0 {
            &&& *after == (FileManagerApp { new_dir: after.new_dir, ..*self })
            &&& name_refused(self.new_dir, after.new_dir)
            &&& cmd == CommandView::Nothing
        } else {
            *after == *self && cmd == CommandView::CreateDir {
                dir: self.here().current_path@,
                name,
            }
        }
    }

    /// A new directory was confirmed.
    pub fn confirm_new_dir(&mut self) -> (r: Command)
        ensures
            old(self).new_dir_confirmed(final(self), r@),
    {
        let name = text::trim(self.new_dir.name.as_str());
        if name.as_str().unicode_len() == 0 {
            self.new_dir.error = Some("Název nesmí být prázdný.".to_owned());
            return Command::Nothing;
        }
        Command::CreateDir { dir: self.active_panel().current_path.clone(), name }
    }

    /// Takes in how creating a directory came out: the window is closed and the directory
    /// shown, or the reason of the failure is.
    pub fn new_dir_done(&mut self, name: String, outcome: Result<(), String>) -> (r: Command)
        ensures
            match outcome {
                Ok(_) => {
                    &&& *final(self) == (FileManagerApp {
                        new_dir: NewItemBox { show: false, error: None, ..old(self).new_dir },
                        ..*old(self)
                    })
                    &&& r@ == (CommandView::Reload {
                        side: old(self).active,
                        focus: FocusView::Name(name@),
                    })
                },
                Err(e) => {
                    &&& *final(self) == (FileManagerApp {
                        new_dir: NewItemBox { error: Some(e), ..old(self).new_dir },
                        ..*old(self)
                    })
                    &&& r@ == CommandView::Nothing
                },
            },
    {
        match outcome {
            Ok(_) => {
                self.new_dir.close();
                Command::Reload { side: self.active, focus: Focus::Name(name) }
            },
            Err(e) => {
                self.new_dir.error = Some(e);
                Command::Nothing
            },
        }
    }

    /// Whether `after` is the program once a new file was confirmed, and `cmd` what is to be
    /// created: nothing without a name.
    pub open spec fn new_file_confirmed(&self, after: &FileManagerApp, cmd: CommandView) -> bool {
        let name = text::trimmed(self.new_file.name@);
        if name.len() == 0 {
            &&& *after == (FileManagerApp { new_file: after.new_file, ..*self })
            &&& name_refused(self.new_file, after.new_file)
            &&& cmd == CommandView::Nothing
        } else {
            *after == *self && cmd == CommandView::CreateFile {
                dir: self.here().current_path@,
                name,
            }
        }
    }

    /// A new file was confirmed.
    pub fn confirm_new_file(&mut self) -> (r: Command)
        ensures
            old(self).new_file_confirmed(final(self), r@),
    {
        let name = text::trim(self.new_file.name.as_str());
        if name.as_str().unicode_len() == 0 {
            self.new_file.error = Some("Název nesmí být prázdný.".to_owned());
            return Command::Nothing;
        }
        Command::CreateFile { dir: self.active_panel().current_path.clone(), name }
    }

    /// Takes in how creating a file came out: the window is closed and the file shown, or the
    /// reason of the failure is.
    pub fn new_file_done(&mut self, name: String, outcome: Result<(), String>) -> (r: Command)
        ensures
            match outcome {
                Ok(_) => {
                    &&& *final(self) == (FileManagerApp {
                        new_file: NewItemBox { show: false, error: None, ..old(self).new_file },
                        ..*old(self)
                    })
                    &&& r@ == (CommandView::Reload {
                        side: old(self).active,
                        focus: FocusView::Name(name@),
                    })
                },
                Err(e) => {
                    &&& *final(self) == (FileManagerApp {
                        new_file: NewItemBox { error: Some(e), ..old(self).new_file },
                        ..*old(self)
                    })
                    &&& r@ == CommandView::Nothing
                },
            },
    {
        match outcome {
            Ok(_) => {
                self.new_file.close();
                Command::Reload { side: self.active, focus: Focus::Name(name) }
            },
            Err(e) => {
                self.new_file.error = Some(e);
                Command::Nothing
            },
        }
    }

    /// Whether `after` is the program with the window for a new directory open.
    pub open spec fn new_dir_opened(&self, after: &FileManagerApp) -> bool {
        &&& *after == (FileManagerApp {
            new_dir: NewItemBox { show: true, name: after.new_dir.name, error: None },
            ..*self
        })
        &&& after.new_dir.name@ == ""@
    }

    /// Opens the window for a new directory.
    pub fn open_new_dir(&mut self)
        ensures
            old(self).new_dir_opened(final(self)),
    {
        self.new_dir.open("");
    }

    /// Whether `after` is the program with the window for a new file open.
    pub open spec fn new_file_opened(&self, after: &FileManagerApp) -> bool {
        &&& *after == (FileManagerApp {
            new_file: NewItemBox { show: true, name: after.new_file.name, error: None },
            ..*self
        })
        &&& after.new_file.name@ == "novy_soubor.txt"@
    }

    /// Opens the window for a new file.
    pub fn open_new_file(&mut self)
        ensures
            old(self).new_file_opened(final(self)),
    {
        self.new_file.open("novy_soubor.txt");
    }
}

// ---------------------------------------------------------------------------
// Editors
// ---------------------------------------------------------------------------

impl FileManagerApp {
    /// The row at the cursor, where it is one of a file.
    pub open spec fn file_at_cursor(&self) -> Option<Seq<char>> {
        match self.here().row_at_cursor() {
            Some(row) => if row.is_dir {
                None
            } else {
                Some(row.name)
            },
            None => None,
        }
    }

    fn file_name_at_cursor(&self) -> (r: Option<String>)
        ensures
            r.deep_view() == self.file_at_cursor(),
    {
        match self.active_panel().entry_at_cursor() {
            Some(row) => {
                if row.is_dir {
                    None
                } else {
                    Some(row.name.clone())
                }
            },
            None => None,
        }
    }

    /// Whether `after` is the program once the file at the cursor was asked for in the
    /// external editor, and `cmd` what is to be started.
    pub open spec fn external_editor_asked(
        &self,
        after: &FileManagerApp,
        cmd: CommandView,
    ) -> bool {
        let program = text::trimmed(self.external_editor@);
        if program.len() == 0 {
            &&& self.reported(
                after,
                StatusView::Warn(
                    "Není nastaven externí editor. Nastavte ho v Nastavení → Editor."@,
                ),
            )
            &&& cmd == CommandView::Nothing
        } else {
            *after == *self && cmd == match self.file_at_cursor() {
                Some(name) => CommandView::StartEditor {
                    program,
                    file: self.here().current_path@.child(name),
                    name,
                },
                None => CommandView::Nothing,
            }
        }
    }

    /// Opens the file at the cursor in the external editor.
    pub fn open_external_editor(&mut self) -> (r: Command)
        ensures
            old(self).external_editor_asked(final(self), r@),
    {
        let program = text::trim(self.external_editor.as_str());
        if program.as_str().unicode_len() == 0 {
            self.report(
                StatusMsg::Warn(
                    "Není nastaven externí editor. Nastavte ho v Nastavení → Editor.".to_owned(),
                ),
            );
            return Command::Nothing;
        }
        match self.file_name_at_cursor() {
            Some(name) => {
                let file = self.active_panel().current_path.join(name.as_str());
                Command::StartEditor { program, file, name }
            },
            None => Command::Nothing,
        }
    }

    /// Takes in how starting the external editor came out.
    pub fn editor_started(&mut self, name: &str, outcome: Result<(), String>)
        ensures
            old(self).reported(
                final(self),
                match outcome {
                    Ok(_) => StatusView::Info("Otevřeno v externím editoru: "@ + name@),
                    Err(e) => StatusView::Error("Chyba spuštění editoru: "@ + e@),
                },
            ),
    {
        match outcome {
            Ok(_) => {
                let mut s = "Otevřeno v externím editoru: ".to_owned();
                s.append(name);
                self.report(StatusMsg::Info(s));
            },
            Err(e) => {
                let mut s = "Chyba spuštění editoru: ".to_owned();
                s.append(e.as_str());
                self.report(StatusMsg::Error(s));
            },
        }
    }

    /// What opening the file at the cursor in the editor asks for.
    pub open spec fn text_editor_asked(&self) -> CommandView {
        match self.file_at_cursor() {
            Some(name) => CommandView::ReadText {
                path: self.here().current_path@.child(name),
                from_menu: false,
            },
            None => CommandView::Nothing,
        }
    }

    /// Opens the file at the cursor in the editor.
    pub fn open_text_editor(&self) -> (r: Command)
        ensures
            r@ == self.text_editor_asked(),
    {
        match self.file_name_at_cursor() {
            Some(name) => Command::ReadText {
                path: self.active_panel().current_path.join(name.as_str()),
                from_menu: false,
            },
            None => Command::Nothing,
        }
    }

    /// Takes in how reading a file for the editor came out.
    pub fn text_read(&mut self, path: DirPath, from_menu: bool, outcome: Result<String, String>)
        ensures
            match outcome {
                Ok(content) => *final(self) == (FileManagerApp {
                    editor: EditorBox {
                        show: true,
                        path,
                        content,
                        modified: false,
                        jump_start: true,
                    },
                    ..*old(self)
                }),
                Err(e) => old(self).reported(
                    final(self),
                    StatusView::Error(
                        if from_menu {
                            "Soubor nelze otevřít jako text."@
                        } else {
                            "Nelze otevřít: "@ + e@
                        },
                    ),
                ),
            },
    {
        match outcome {
            Ok(content) => {
                self.editor = EditorBox {
                    show: true,
                    path,
                    content,
                    modified: false,
                    jump_start: true,
                };
            },
            Err(e) => {
                if from_menu {
                    self.report(StatusMsg::Error("Soubor nelze otevřít jako text.".to_owned()));
                } else {
                    let mut s = "Nelze otevřít: ".to_owned();
                    s.append(e.as_str());
                    self.report(StatusMsg::Error(s));
                }
            },
        }
    }

    /// Takes in how saving the text of the editor came out.
    pub fn save_text_editor(&mut self, outcome: Result<(), String>)
        ensures
            match outcome {
                Ok(_) => {
                    &&& *final(self) == (FileManagerApp {
                        editor: EditorBox { modified: false, ..old(self).editor },
                        op_status: final(self).op_status,
                        ..*old(self)
                    })
                    &&& final(self).op_status.deep_view() == Some(
                        StatusView::Info("Uloženo: "@ + old(self).editor.path@.name_or_empty()),
                    )
                },
                Err(e) => old(self).reported(
                    final(self),
                    StatusView::Error("Chyba uložení: "@ + e@),
                ),
            },
    {
        match outcome {
            Ok(_) => {
                self.editor.modified = false;
                let mut s = "Uloženo: ".to_owned();
                let name = self.editor.path.file_name_or_empty();
                s.append(name.as_str());
                self.report(StatusMsg::Info(s));
            },
            Err(e) => {
                let mut s = "Chyba uložení: ".to_owned();
                s.append(e.as_str());
                self.report(StatusMsg::Error(s));
            },
        }
    }

    /// The title of the editor: the name of the file, with a mark where it was changed.
    pub fn editor_title(&self) -> (r: String)
        ensures
            r@ == "📝 "@ + self.editor.path@.name_or_empty() + if self.editor.modified {
                " •"@
            } else {
                ""@
            },
    {
        let mut s = "📝 ".to_owned();
        let name = self.editor.path.file_name_or_empty();
        s.append(name.as_str());
        s.append(
            if self.editor.modified {
                " •"
            } else {
                ""
            },
        );
        s
    }
}

/// Of paths, those that are files are kept, in their order.
pub proof fn files_path_by_path(paths: Seq<PathView>, path: PathView, is_file: Seq<bool>)
    ensures
        files_among(Seq::<PathView>::empty(), is_file).len() == 0,
        is_file[paths.len() as int] ==> files_among(paths + seq![path], is_file) == files_among(
            paths,
            is_file,
        ) + seq![path],
        !is_file[paths.len() as int] ==> files_among(paths + seq![path], is_file) == files_among(
            paths,
            is_file,
        ),
{
    assert((paths + seq![path]).drop_last() =~= paths);
    let front = files_among(paths, is_file);
    assert(front.push(path) =~= front + seq![path]);
}

/// Messages of a search are taken in one after the other, none passed over.
pub proof fn search_is_told_in_order(b: SearchBoxView, msgs: Seq<SearchMsg>, msg: SearchMsg)
    ensures
        search_told(b, Seq::<SearchMsg>::empty()) == b,
        search_told(b, msgs + seq![msg]) == search_told(b, msgs).after(msg@),
        search_over(msgs + seq![msg]) <==> search_over(msgs) || msg@ == SearchMsgView::Finished,
{
    let all = msgs + seq![msg];
    assert(all.drop_last() =~= msgs);
    if search_over(all) {
        let i = choose|i: int| 0 <= i < all.len() && (#[trigger] all[i])@ == SearchMsgView::Finished;
        if i < msgs.len() {
            assert(msgs[i] == all[i]);
        }
    }
    if search_over(msgs) {
        let i = choose|i: int|
            0 <= i < msgs.len() && (#[trigger] msgs[i])@ == SearchMsgView::Finished;
        assert(all[i] == msgs[i]);
    }
    if msg@ == SearchMsgView::Finished {
        assert(all[msgs.len() as int] == msg);
    }
}

/// Messages of a count of sums are taken in one after the other, none passed over.
pub proof fn hash_is_told_in_order(b: HashBoxView, msgs: Seq<HashMsg>, msg: HashMsg)
    ensures
        hash_told(b, Seq::<HashMsg>::empty()) == b,
        hash_told(b, msgs + seq![msg]) == hash_told(b, msgs).after(msg@),
        hash_over(msgs + seq![msg]) <==> hash_over(msgs) || msg@ == HashMsgView::Finished,
{
    let all = msgs + seq![msg];
    assert(all.drop_last() =~= msgs);
    if hash_over(all) {
        let i = choose|i: int| 0 <= i < all.len() && (#[trigger] all[i])@ == HashMsgView::Finished;
        if i < msgs.len() {
            assert(msgs[i] == all[i]);
        }
    }
    if hash_over(msgs) {
        let i = choose|i: int|
            0 <= i < msgs.len() && (#[trigger] msgs[i])@ == HashMsgView::Finished;
        assert(all[i] == msgs[i]);
    }
    if msg@ == HashMsgView::Finished {
        assert(all[msgs.len() as int] == msg);
    }
}

/// A mask chooses, or gives up, exactly the rows whose name it fits, without regard to case and
/// to blanks around the mask; the choice of the others stays.
pub proof fn mask_chooses_by_fit(
    before: FileManagerApp,
    after: FileManagerApp,
    adding: bool,
    y: usize,
)
    requires
        before.wf(),
        before.mask_applied(&after, adding),
        y < before.here().entries@.len(),
    ensures
        crate::glob::fits(
            text::lowercase(text::trimmed(before.mask.mask@)),
            text::lowercase(before.here().rows()[y as int].name),
        ) ==> (after.here().selected@.contains(y) <==> adding),
        !crate::glob::fits(
            text::lowercase(text::trimmed(before.mask.mask@)),
            text::lowercase(before.here().rows()[y as int].name),
        ) ==> (after.here().selected@.contains(y) <==> before.here().selected@.contains(y)),
        after.here().rows() == before.here().rows(),
        after.here().cursor == before.here().cursor,
{
    panel::masked_by_fit(
        before.here().selected@,
        before.here().rows(),
        text::lowercase(text::trimmed(before.mask.mask@)),
        adding,
        before.here().entries@.len() as int,
    );
}

/// A picked result leads to its directory, with the result chosen there, and closes the window.
pub proof fn result_leads_to_its_directory(
    before: FileManagerApp,
    after: FileManagerApp,
    path: PathView,
    cmd: CommandView,
)
    requires
        before.result_picked(&after, path, cmd),
    ensures
        !after.search.show,
        path.parent() is Some ==> {
            &&& after.here().current_path@ == path.parent()->0
            &&& after.here().archive_location is None
            &&& cmd is Reload
            &&& path.name() is Some ==> cmd == (CommandView::Reload {
                side: before.active,
                focus: FocusView::Select(path.name()->0),
            })
        },
        path.parent() is None ==> cmd == CommandView::Nothing,
{
}

/// A new directory or file needs a name that is more than blanks; it is created where the panel
/// stands, under the name without blanks around it.
pub proof fn new_items_need_a_name(
    before: FileManagerApp,
    dir_made: FileManagerApp,
    file_made: FileManagerApp,
    dir_cmd: CommandView,
    file_cmd: CommandView,
)
    requires
        before.new_dir_confirmed(&dir_made, dir_cmd),
        before.new_file_confirmed(&file_made, file_cmd),
    ensures
        (forall|i: int|
            0 <= i < before.new_dir.name@.len() ==> text::is_white(#[trigger] before.new_dir.name@[i]))
            ==> dir_cmd == CommandView::Nothing && dir_made.new_dir.error is Some,
        (forall|i: int|
            0 <= i < before.new_file.name@.len() ==> text::is_white(
                #[trigger] before.new_file.name@[i],
            )) ==> file_cmd == CommandView::Nothing && file_made.new_file.error is Some,
        text::trimmed(before.new_dir.name@).len() > 0 ==> dir_made == before && dir_cmd == (
        CommandView::CreateDir {
            dir: before.here().current_path@,
            name: text::trimmed(before.new_dir.name@),
        }),
        text::trimmed(before.new_file.name@).len() > 0 ==> file_made == before && file_cmd == (
        CommandView::CreateFile {
            dir: before.here().current_path@,
            name: text::trimmed(before.new_file.name@),
        }),
{
    let d = text::trimmed_is_the_core(before.new_dir.name@);
    let f = text::trimmed_is_the_core(before.new_file.name@);
    if d.0 < d.1 {
        assert(!text::is_white(before.new_dir.name@[d.0]));
    }
    if f.0 < f.1 {
        assert(!text::is_white(before.new_file.name@[f.0]));
    }
}

/// An editor opens the file at the cursor: never a directory, and an outside one only where one
/// is set.
pub proof fn editors_open_files(app: FileManagerApp, after: FileManagerApp, cmd: CommandView)
    requires
        app.external_editor_asked(&after, cmd),
    ensures
        app.here().row_at_cursor() is None ==> app.text_editor_asked() == CommandView::Nothing,
        app.here().row_at_cursor() is Some && app.here().row_at_cursor()->0.is_dir ==> {
            &&& app.text_editor_asked() == CommandView::Nothing
            &&& cmd == CommandView::Nothing
        },
        app.here().row_at_cursor() is Some && !app.here().row_at_cursor()->0.is_dir ==> {
            let name = app.here().row_at_cursor()->0.name;
            &&& app.text_editor_asked() == (CommandView::ReadText {
                path: app.here().current_path@.child(name),
                from_menu: false,
            })
            &&& text::trimmed(app.external_editor@).len() > 0 ==> cmd == (
            CommandView::StartEditor {
                program: text::trimmed(app.external_editor@),
                file: app.here().current_path@.child(name),
                name,
            })
        },
        text::trimmed(app.external_editor@).len() == 0 ==> cmd == CommandView::Nothing
            && after.op_status is Some,
{
}

} // verus!
