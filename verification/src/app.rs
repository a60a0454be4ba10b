//! The two panels and everything around them: dialogs, settings, and what is to be done.

use crate::bookmark::BookmarkBox;
use crate::entry::DirSort;
use crate::file_op::{OpKind, OpProgress};
use crate::hash::HashBox;
use crate::jobs::PendingAction;
use crate::panel::{ActivePanel, Focus, Listing, Panel};
use crate::path::{DirPath, PathView};
use crate::rename::RenameBox;
use crate::search::SearchBox;
use crate::update::UpdateBox;
use crate::view::StatusMsg;
use vstd::prelude::*;

verus! {

broadcast use vstd::string::group_string_axioms;

// ---------------------------------------------------------------------------
// Dialogs
// ---------------------------------------------------------------------------

/// The question whether files are to be deleted. The choices are to do so and not to.
#[derive(Debug)]
pub struct DeleteBox {
    pub show: bool,
    pub targets: Vec<DirPath>,
    pub focus: usize,
}

/// The question whether files are to be copied or moved.
#[derive(Debug)]
pub struct CopyBox {
    pub show: bool,
    pub kind: OpKind,
    pub targets: Vec<DirPath>,
    pub dst: DirPath,
    pub focus: usize,
    pub new_name: String,
}

/// The question whether files are to be packed.
#[derive(Debug)]
pub struct PackBox {
    pub show: bool,
    pub files: Vec<DirPath>,
    pub dst: DirPath,
    pub name: String,
    pub focus: usize,
}

/// The question whether existing files are to be overwritten. The choices are to overwrite,
/// to leave them out, and to do nothing.
#[derive(Debug)]
pub struct PendingBox {
    pub action: Option<PendingAction>,
    pub conflicts: Vec<String>,
    pub focus: usize,
}

/// The window for renaming a single file.
#[derive(Debug)]
pub struct RenameSingleBox {
    pub show: bool,
    pub old_name: String,
    pub new_name: String,
    pub error: Option<String>,
}

/// The window for selecting by a mask.
#[derive(Debug)]
pub struct MaskBox {
    pub show: bool,
    pub mask: String,
    pub adding: bool,
}

/// The window for a new directory or a new file.
#[derive(Debug)]
pub struct NewItemBox {
    pub show: bool,
    pub name: String,
    pub error: Option<String>,
}

impl NewItemBox {
    /// The window before it was opened.
    pub fn new() -> (r: NewItemBox)
        ensures
            !r.show,
            r.name@.len() == 0,
            r.error is None,
    {
        NewItemBox { show: false, name: String::new(), error: None }
    }

    /// Opens the window with a name to start from.
    pub fn open(&mut self, name: &str)
        ensures
            *final(self) == (NewItemBox { show: true, name: final(self).name, error: None }),
            final(self).name@ == name@,
    {
        self.name = name.to_owned();
        self.error = None;
        self.show = true;
    }

    /// Closes the window.
    pub fn close(&mut self)
        ensures
            *final(self) == (NewItemBox { show: false, error: None, ..*old(self) }),
    {
        self.show = false;
        self.error = None;
    }
}

/// The text editor.
#[derive(Debug)]
pub struct EditorBox {
    pub show: bool,
    pub path: DirPath,
    pub content: String,
    pub modified: bool,
    pub jump_start: bool,
}

/// The program: two panels, their surroundings, and the dialogs.
#[derive(Debug)]
pub struct FileManagerApp {
    pub left: Panel,
    pub right: Panel,
    pub active: ActivePanel,
    pub op: OpProgress,
    pub op_status: Option<StatusMsg>,
    pub delete: DeleteBox,
    pub copy: CopyBox,
    pub pack: PackBox,
    pub pending: PendingBox,
    pub rename: RenameBox,
    pub rename_single: RenameSingleBox,
    pub mask: MaskBox,
    pub new_dir: NewItemBox,
    pub new_file: NewItemBox,
    pub drag_src: Option<ActivePanel>,
    pub editor: EditorBox,
    pub dark_mode: bool,
    pub show_hidden: bool,
    pub external_editor: String,
    pub dir_sort: DirSort,
    pub update: UpdateBox,
    pub maximize_on_start: bool,
    pub icon_set_on_start: bool,
    pub search: SearchBox,
    pub hash: HashBox,
    pub show_about: bool,
    pub show_settings: bool,
    pub bookmarks: BookmarkBox,
    pub last_saved_left: DirPath,
    pub last_saved_right: DirPath,
    pub watched_left: DirPath,
    pub watched_right: DirPath,
    /// Whether sizes of directories are awaited.
    pub sizes_awaited: bool,
}

// ---------------------------------------------------------------------------
// Panels
// ---------------------------------------------------------------------------

impl FileManagerApp {
    /// One of the panels.
    pub open spec fn panel_of(&self, side: ActivePanel) -> Panel {
        match side {
            ActivePanel::Left => self.left,
            ActivePanel::Right => self.right,
        }
    }

    /// The program with one of its panels exchanged.
    pub open spec fn with_panel(self, side: ActivePanel, p: Panel) -> FileManagerApp {
        match side {
            ActivePanel::Left => FileManagerApp { left: p, ..self },
            ActivePanel::Right => FileManagerApp { right: p, ..self },
        }
    }

    /// The panel that has the keyboard.
    pub open spec fn here(&self) -> Panel {
        self.panel_of(self.active)
    }

    /// The directory of the other panel.
    pub open spec fn there(&self) -> PathView {
        self.panel_of(self.active.opposite()).current_path@
    }

    /// Whether both panels have their listings read.
    pub open spec fn wf(&self) -> bool {
        self.left.wf() && self.right.wf()
    }

    /// Whether both panels have few enough rows to number them.
    pub open spec fn sized(&self) -> bool {
        self.left.sized() && self.right.sized()
    }

    /// One of the panels.
    pub fn panel(&self, side: ActivePanel) -> (r: &Panel)
        ensures
            *r == self.panel_of(side),
    {
        match side {
            ActivePanel::Left => &self.left,
            ActivePanel::Right => &self.right,
        }
    }

    /// One of the panels, to be changed.
    pub fn panel_mut(&mut self, side: ActivePanel) -> (r: &mut Panel)
        ensures
            *r == old(self).panel_of(side),
            *final(self) == old(self).with_panel(side, *final(r)),
    {
        match side {
            ActivePanel::Left => &mut self.left,
            ActivePanel::Right => &mut self.right,
        }
    }

    /// Both panels, to be changed: the given one, then the other.
    pub fn both_mut(&mut self, side: ActivePanel) -> (r: (&mut Panel, &mut Panel))
        ensures
            *r.0 == old(self).panel_of(side),
            *r.1 == old(self).panel_of(side.opposite()),
            *final(self) == old(self).with_panel(side, *final(r.0)).with_panel(
                side.opposite(),
                *final(r.1),
            ),
    {
        match side {
            ActivePanel::Left => (&mut self.left, &mut self.right),
            ActivePanel::Right => (&mut self.right, &mut self.left),
        }
    }

    /// The panel that has the keyboard.
    pub fn active_panel(&self) -> (r: &Panel)
        ensures
            *r == self.here(),
    {
        self.panel(self.active)
    }

    /// The panel that has the keyboard, to be changed.
    pub fn active_panel_mut(&mut self) -> (r: &mut Panel)
        ensures
            *r == old(self).here(),
            *final(self) == old(self).with_panel(old(self).active, *final(r)),
    {
        let side = self.active;
        self.panel_mut(side)
    }

    /// The directory of the other panel.
    pub fn inactive_dir(&self) -> (r: DirPath)
        ensures
            r@ == self.there(),
    {
        self.panel(self.active.other()).current_path.clone()
    }

    /// Takes in the listing of a panel and puts the cursor where told.
    pub fn reload(&mut self, side: ActivePanel, listing: Listing, focus: &Focus)
        requires
            old(self).panel_of(side).listing_of(listing),
            listing.fits(),
        ensures
            *final(self) == old(self).with_panel(side, final(self).panel_of(side)),
            exists|p: Panel| #[trigger]
                old(self).panel_of(side).refreshed(&p, listing) && p.focused(
                    &final(self).panel_of(side),
                    focus@,
                ),
            final(self).panel_of(side).wf(),
    {
        let p = self.panel_mut(side);
        p.refresh(listing);
        let ghost read = *p;
        p.apply_focus(focus);
        assert(old(self).panel_of(side).refreshed(&read, listing));
    }
}

} // verus!
