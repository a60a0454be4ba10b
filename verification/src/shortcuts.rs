//! What the keyboard does: first the window in front gets its keys, then come the function
//! keys, then the keys that move through a panel.

use crate::app::{
    CopyBox, DeleteBox, FileManagerApp, MaskBox, NewItemBox, PackBox, PendingBox, RenameSingleBox,
};
use crate::bookmark::BookmarkBox;
use crate::file_op::OpProgress;
use crate::hash::HashBoxView;
use crate::jobs::{Command, CommandView};
use crate::mouse;
use crate::panel::{self, ActionView, Panel};
use crate::path::PathView;
use crate::rename::RenameBox;
use crate::search::SearchBox;
use crate::view::{StatusMsg, StatusView};
use vstd::prelude::*;

verus! {

broadcast use vstd::string::group_string_axioms;

// ---------------------------------------------------------------------------
// The window in front
// ---------------------------------------------------------------------------

/// A window that takes keys.
#[derive(Clone, Copy, Debug, PartialEq, Eq, Structural)]
pub enum Dialog {
    Delete,
    Pack,
    Copy,
    OpError,
    Overwrite,
    Mask,
    RenameSingle,
    Progress,
    Rename,
    Search,
    NewDir,
    NewFile,
    Bookmarks,
    Hash,
}

/// Which keys a window takes.
#[derive(Clone, Copy, Debug, PartialEq, Eq, Structural)]
pub struct DialogKeys {
    /// Left and right, which choose a button.
    pub arrows: bool,
    pub enter: bool,
    pub escape: bool,
}

impl Dialog {
    /// Whether the window has a field for text beside its buttons.
    pub open spec fn has_field(self) -> bool {
        self == Dialog::Pack || self == Dialog::Copy
    }

    /// The last button that can be chosen; none where none can.
    pub open spec fn last_button(self) -> Option<usize> {
        match self {
            Dialog::Delete | Dialog::Pack | Dialog::Copy => Some(1),
            Dialog::OpError | Dialog::Overwrite => Some(2),
            _ => None,
        }
    }

    /// Which keys the window takes; `typing` tells whether its field for text has the
    /// keyboard.
    pub open spec fn takes(self, typing: bool) -> DialogKeys {
        DialogKeys {
            arrows: self.last_button() is Some && !(self.has_field() && typing),
            enter: !(self == Dialog::Rename || self == Dialog::Search || self == Dialog::Bookmarks
                || self == Dialog::Hash),
            escape: true,
        }
    }

    /// Which keys the window takes.
    pub fn keys(self, typing: bool) -> (r: DialogKeys)
        ensures
            r == self.takes(typing),
    {
        match self {
            Dialog::Delete | Dialog::OpError | Dialog::Overwrite => DialogKeys {
                arrows: true,
                enter: true,
                escape: true,
            },
            Dialog::Pack | Dialog::Copy => DialogKeys {
                arrows: !typing,
                enter: true,
                escape: true,
            },
            Dialog::Rename | Dialog::Search | Dialog::Bookmarks | Dialog::Hash => DialogKeys {
                arrows: false,
                enter: false,
                escape: true,
            },
            _ => DialogKeys { arrows: false, enter: true, escape: true },
        }
    }
}

/// The button that is chosen after left and right were pressed.
pub open spec fn moved_focus(focus: int, last: int, left: bool, right: bool) -> int {
    let f = if left && focus > 0 {
        focus - 1
    } else {
        focus
    };
    if right {
        if f + 1 < last {
            f + 1
        } else {
            last
        }
    } else {
        f
    }
}

fn move_focus(focus: usize, last: usize, left: bool, right: bool) -> (r: usize)
    ensures
        r == moved_focus(focus as int, last as int, left, right),
{
    let f: usize = if left && focus > 0 {
        focus - 1
    } else {
        focus
    };
    if right {
        if f < last && f + 1 < last {
            f + 1
        } else {
            last
        }
    } else {
        f
    }
}

/// The chosen button stays one of the buttons.
pub proof fn focus_stays_on_buttons(focus: int, last: int, left: bool, right: bool)
    requires
        0 <= focus <= last,
    ensures
        0 <= moved_focus(focus, last, left, right) <= last,
{
}

/// Left takes back what right did, as long as there is a button to go to.
pub proof fn right_then_left(focus: int, last: int)
    requires
        0 <= focus < last,
    ensures
        moved_focus(moved_focus(focus, last, false, true), last, true, false) == focus,
{
}

impl FileManagerApp {
    /// Whether a window is open.
    pub open spec fn shows(&self, d: Dialog) -> bool {
        match d {
            Dialog::Delete => self.delete.show,
            Dialog::Pack => self.pack.show,
            Dialog::Copy => self.copy.show,
            Dialog::OpError => self.op.err_wait is Some,
            Dialog::Overwrite => self.pending.action is Some,
            Dialog::Mask => self.mask.show,
            Dialog::RenameSingle => self.rename_single.show,
            Dialog::Progress => self.op.show && !self.op.running,
            Dialog::Rename => self.rename.show,
            Dialog::Search => self.search.show,
            Dialog::NewDir => self.new_dir.show,
            Dialog::NewFile => self.new_file.show,
            Dialog::Bookmarks => self.bookmarks.show,
            Dialog::Hash => self.hash.show,
        }
    }

    /// The window that gets the keys: the first open one, in the order in which they are
    /// listed.
    pub open spec fn in_front(&self) -> Option<Dialog> {
        if self.delete.show {
            Some(Dialog::Delete)
        } else if self.pack.show {
            Some(Dialog::Pack)
        } else if self.copy.show {
            Some(Dialog::Copy)
        } else if self.op.err_wait is Some {
            Some(Dialog::OpError)
        } else if self.pending.action is Some {
            Some(Dialog::Overwrite)
        } else if self.mask.show {
            Some(Dialog::Mask)
        } else if self.rename_single.show {
            Some(Dialog::RenameSingle)
        } else if self.op.show && !self.op.running {
            Some(Dialog::Progress)
        } else if self.rename.show {
            Some(Dialog::Rename)
        } else if self.search.show {
            Some(Dialog::Search)
        } else if self.new_dir.show {
            Some(Dialog::NewDir)
        } else if self.new_file.show {
            Some(Dialog::NewFile)
        } else if self.bookmarks.show {
            Some(Dialog::Bookmarks)
        } else if self.hash.show {
            Some(Dialog::Hash)
        } else {
            None
        }
    }

    /// The window that gets the keys.
    pub fn open_dialog(&self) -> (r: Option<Dialog>)
        ensures
            r == self.in_front(),
    {
        if self.delete.show {
            Some(Dialog::Delete)
        } else if self.pack.show {
            Some(Dialog::Pack)
        } else if self.copy.show {
            Some(Dialog::Copy)
        } else if self.op.err_wait.is_some() {
            Some(Dialog::OpError)
        } else if self.pending.action.is_some() {
            Some(Dialog::Overwrite)
        } else if self.mask.show {
            Some(Dialog::Mask)
        } else if self.rename_single.show {
            Some(Dialog::RenameSingle)
        } else if self.op.show && !self.op.running {
            Some(Dialog::Progress)
        } else if self.rename.show {
            Some(Dialog::Rename)
        } else if self.search.show {
            Some(Dialog::Search)
        } else if self.new_dir.show {
            Some(Dialog::NewDir)
        } else if self.new_file.show {
            Some(Dialog::NewFile)
        } else if self.bookmarks.show {
            Some(Dialog::Bookmarks)
        } else if self.hash.show {
            Some(Dialog::Hash)
        } else {
            None
        }
    }

    /// The button that is chosen in a window.
    pub open spec fn choice(&self, d: Dialog) -> usize {
        match d {
            Dialog::Delete => self.delete.focus,
            Dialog::Pack => self.pack.focus,
            Dialog::Copy => self.copy.focus,
            Dialog::OpError => self.op.err_focus,
            Dialog::Overwrite => self.pending.focus,
            _ => 0,
        }
    }

    /// The program with another button chosen in a window.
    pub open spec fn with_choice(self, d: Dialog, focus: usize) -> FileManagerApp {
        match d {
            Dialog::Delete => FileManagerApp {
                delete: DeleteBox { focus, ..self.delete },
                ..self
            },
            Dialog::Pack => FileManagerApp { pack: PackBox { focus, ..self.pack }, ..self },
            Dialog::Copy => FileManagerApp { copy: CopyBox { focus, ..self.copy }, ..self },
            Dialog::OpError => FileManagerApp {
                op: OpProgress { err_focus: focus, ..self.op },
                ..self
            },
            Dialog::Overwrite => FileManagerApp {
                pending: PendingBox { focus, ..self.pending },
                ..self
            },
            _ => self,
        }
    }

    fn chosen(&self, d: Dialog) -> (r: usize)
        ensures
            r == self.choice(d),
    {
        match d {
            Dialog::Delete => self.delete.focus,
            Dialog::Pack => self.pack.focus,
            Dialog::Copy => self.copy.focus,
            Dialog::OpError => self.op.err_focus,
            Dialog::Overwrite => self.pending.focus,
            _ => 0,
        }
    }

    fn set_choice(&mut self, d: Dialog, focus: usize)
        ensures
            *final(self) == old(self).with_choice(d, focus),
    {
        match d {
            Dialog::Delete => {
                self.delete.focus = focus;
            },
            Dialog::Pack => {
                self.pack.focus = focus;
            },
            Dialog::Copy => {
                self.copy.focus = focus;
            },
            Dialog::OpError => {
                self.op.err_focus = focus;
            },
            Dialog::Overwrite => {
                self.pending.focus = focus;
            },
            _ => {},
        }
    }

    /// Left and right were pressed in a window.
    pub fn dialog_move(&mut self, d: Dialog, left: bool, right: bool)
        ensures
            *final(self) == match d.last_button() {
                Some(last) => old(self).with_choice(
                    d,
                    moved_focus(old(self).choice(d) as int, last as int, left, right) as usize,
                ),
                None => *old(self),
            },
    {
        let last: usize = match d {
            Dialog::Delete | Dialog::Pack | Dialog::Copy => 1,
            Dialog::OpError | Dialog::Overwrite => 2,
            _ => {
                return;
            },
        };
        let focus = move_focus(self.chosen(d), last, left, right);
        self.set_choice(d, focus);
    }

    /// Whether `after` is the program once the mask window was confirmed.
    pub open spec fn mask_confirmed(&self, after: &FileManagerApp) -> bool {
        exists|m: FileManagerApp| #[trigger]
            self.mask_applied(&m, self.mask.adding) && *after == (FileManagerApp {
                mask: MaskBox { show: false, ..m.mask },
                ..m
            })
    }

    /// What renaming a single file asks for.
    pub open spec fn single_rename(&self) -> CommandView {
        CommandView::RenameFile {
            dir: self.here().current_path@,
            old_name: self.rename_single.old_name@,
            new_name: self.rename_single.new_name@,
        }
    }

    /// The program with the progress window closed.
    pub open spec fn without_progress(self) -> FileManagerApp {
        FileManagerApp {
            op: OpProgress { show: false, ..self.op },
            ..self
        }
    }

    /// Whether `after` is the program once Enter was pressed in a window, and `cmd` what
    /// follows. `typing` tells whether the field for text of the window has the keyboard.
    pub open spec fn entered(
        &self,
        after: &FileManagerApp,
        d: Dialog,
        typing: bool,
        cmd: CommandView,
    ) -> bool {
        match d {
            Dialog::Delete => if self.delete.focus == 0 {
                self.delete_confirmed(after, cmd)
            } else {
                self.delete_declined(after) && cmd == CommandView::Nothing
            },
            Dialog::Pack => if typing || self.pack.focus == 0 {
                self.pack_confirmed(after, cmd)
            } else {
                self.pack_declined(after) && cmd == CommandView::Nothing
            },
            Dialog::Copy => if typing || self.copy.focus == 0 {
                self.transfer_confirmed(after, cmd)
            } else {
                self.transfer_declined(after) && cmd == CommandView::Nothing
            },
            Dialog::OpError => self.error_answered(after, self.op.err_focus, cmd),
            Dialog::Overwrite => if self.pending.focus == 0 {
                self.pending_resolved(after, true, cmd)
            } else if self.pending.focus == 1 {
                self.pending_resolved(after, false, cmd)
            } else {
                self.pending_dropped(after) && cmd == CommandView::Nothing
            },
            Dialog::Mask => self.mask_confirmed(after) && cmd == CommandView::Nothing,
            Dialog::RenameSingle => *after == *self && cmd == self.single_rename(),
            Dialog::Progress => *after == self.without_progress() && cmd == CommandView::Nothing,
            Dialog::NewDir => self.new_dir_confirmed(after, cmd),
            Dialog::NewFile => self.new_file_confirmed(after, cmd),
            _ => *after == *self && cmd == CommandView::Nothing,
        }
    }

    fn enter_buttons(&mut self, d: Dialog, typing: bool) -> (r: Command)
        requires
            d == Dialog::Delete || d == Dialog::Pack || d == Dialog::Copy,
        ensures
            old(self).entered(final(self), d, typing, r@),
    {
        match d {
            Dialog::Delete => {
                if self.delete.focus == 0 {
                    return self.confirm_delete();
                }
                self.decline_delete();
            },
            Dialog::Pack => {
                if typing || self.pack.focus == 0 {
                    return self.confirm_zip_pack();
                }
                self.decline_zip_pack();
            },
            _ => {
                if typing || self.copy.focus == 0 {
                    return self.confirm_copy_move();
                }
                self.decline_copy_move();
            },
        }
        Command::Nothing
    }

    fn enter_overwrite(&mut self) -> (r: Command)
        ensures
            old(self).entered(final(self), Dialog::Overwrite, false, r@),
            old(self).entered(final(self), Dialog::Overwrite, true, r@),
    {
        if self.pending.focus == 0 {
            self.resolve_pending(true)
        } else if self.pending.focus == 1 {
            self.resolve_pending(false)
        } else {
            self.cancel_pending();
            Command::Nothing
        }
    }

    /// Enter was pressed in a window.
    pub fn dialog_enter(&mut self, d: Dialog, typing: bool) -> (r: Command)
        ensures
            old(self).entered(final(self), d, typing, r@),
    {
        match d {
            Dialog::Delete | Dialog::Pack | Dialog::Copy => self.enter_buttons(d, typing),
            Dialog::OpError => self.resolve_op_error(),
            Dialog::Overwrite => self.enter_overwrite(),
            Dialog::Mask => {
                self.confirm_mask();
                Command::Nothing
            },
            Dialog::RenameSingle => self.apply_rename_single(),
            Dialog::Progress => {
                self.op.show = false;
                Command::Nothing
            },
            Dialog::NewDir => self.confirm_new_dir(),
            Dialog::NewFile => self.confirm_new_file(),
            _ => Command::Nothing,
        }
    }

    /// The program with the checksum window closed.
    pub open spec fn hash_closed(&self, after: &FileManagerApp, cmd: CommandView) -> bool {
        &&& *after == (FileManagerApp { hash: after.hash, ..*self })
        &&& after.hash@ == (HashBoxView {
            show: false,
            stoppable: false,
            ..self.hash@
        })
        &&& cmd == CommandView::StopHash { stop: self.hash.stoppable }
    }

    /// Whether `after` is the program once Escape was pressed in a window, and `cmd` what
    /// follows.
    pub open spec fn escaped(&self, after: &FileManagerApp, d: Dialog, cmd: CommandView) -> bool {
        match d {
            Dialog::Delete => self.delete_declined(after) && cmd == CommandView::Nothing,
            Dialog::Pack => self.pack_declined(after) && cmd == CommandView::Nothing,
            Dialog::Copy => self.transfer_declined(after) && cmd == CommandView::Nothing,
            Dialog::OpError => self.error_answered(after, 2, cmd),
            Dialog::Overwrite => self.pending_dropped(after) && cmd == CommandView::Nothing,
            Dialog::Mask => *after == (FileManagerApp {
                mask: MaskBox { show: false, ..self.mask },
                ..*self
            }) && cmd == CommandView::Nothing,
            Dialog::RenameSingle => *after == (FileManagerApp {
                rename_single: RenameSingleBox { show: false, ..self.rename_single },
                ..*self
            }) && cmd == CommandView::Nothing,
            Dialog::Progress => *after == self.without_progress() && cmd == CommandView::Nothing,
            Dialog::Rename => *after == (FileManagerApp {
                rename: RenameBox { show: false, error: None, ..self.rename },
                ..*self
            }) && cmd == CommandView::Nothing,
            Dialog::Search => *after == (FileManagerApp {
                search: SearchBox { show: false, ..self.search },
                ..*self
            }) && cmd == CommandView::Nothing,
            Dialog::NewDir => *after == (FileManagerApp {
                new_dir: NewItemBox { show: false, error: None, ..self.new_dir },
                ..*self
            }) && cmd == CommandView::Nothing,
            Dialog::NewFile => *after == (FileManagerApp {
                new_file: NewItemBox { show: false, error: None, ..self.new_file },
                ..*self
            }) && cmd == CommandView::Nothing,
            Dialog::Bookmarks => *after == (FileManagerApp {
                bookmarks: BookmarkBox { show: false, ..self.bookmarks },
                ..*self
            }) && cmd == CommandView::Nothing,
            Dialog::Hash => self.hash_closed(after, cmd),
        }
    }

    /// Closes the checksum window; what is still being counted is to be stopped.
    pub fn close_hash(&mut self) -> (r: Command)
        ensures
            old(self).hash_closed(final(self), r@),
    {
        let stop = self.hash.close();
        Command::StopHash { stop }
    }

    fn escape_buttons(&mut self, d: Dialog)
        requires
            d == Dialog::Delete || d == Dialog::Pack || d == Dialog::Copy || d
                == Dialog::Overwrite,
        ensures
            old(self).escaped(final(self), d, CommandView::Nothing),
    {
        match d {
            Dialog::Delete => {
                self.decline_delete();
            },
            Dialog::Pack => {
                self.decline_zip_pack();
            },
            Dialog::Copy => {
                self.decline_copy_move();
            },
            _ => {
                self.cancel_pending();
            },
        }
    }

    fn escape_fields(&mut self, d: Dialog)
        requires
            d == Dialog::Mask || d == Dialog::RenameSingle || d == Dialog::Progress || d
                == Dialog::Rename || d == Dialog::Search,
        ensures
            old(self).escaped(final(self), d, CommandView::Nothing),
    {
        match d {
            Dialog::Mask => {
                self.mask.show = false;
            },
            Dialog::RenameSingle => {
                self.rename_single.show = false;
            },
            Dialog::Progress => {
                self.op.show = false;
            },
            Dialog::Rename => {
                self.rename.cancel();
            },
            _ => {
                self.search.show = false;
            },
        }
    }

    fn escape_others(&mut self, d: Dialog)
        requires
            d == Dialog::NewDir || d == Dialog::NewFile || d == Dialog::Bookmarks,
        ensures
            old(self).escaped(final(self), d, CommandView::Nothing),
    {
        match d {
            Dialog::NewDir => {
                self.new_dir.close();
            },
            Dialog::NewFile => {
                self.new_file.close();
            },
            _ => {
                self.bookmarks.show = false;
            },
        }
    }

    /// Escape was pressed in a window.
    pub fn dialog_escape(&mut self, d: Dialog) -> (r: Command)
        ensures
            old(self).escaped(final(self), d, r@),
    {
        match d {
            Dialog::Delete | Dialog::Pack | Dialog::Copy | Dialog::Overwrite => {
                self.escape_buttons(d);
                Command::Nothing
            },
            Dialog::Mask | Dialog::RenameSingle | Dialog::Progress | Dialog::Rename
            | Dialog::Search => {
                self.escape_fields(d);
                Command::Nothing
            },
            Dialog::NewDir | Dialog::NewFile | Dialog::Bookmarks => {
                self.escape_others(d);
                Command::Nothing
            },
            Dialog::OpError => self.answer_op_error(2),
            Dialog::Hash => self.close_hash(),
        }
    }
}

/// The window that gets the keys is open, and none gets them only where none is open.
pub proof fn front_window_is_open(app: FileManagerApp, d: Dialog)
    ensures
        app.in_front() matches Some(front) ==> app.shows(front),
        app.in_front() is None ==> !app.shows(d),
{
}

/// Escape closes the window in which it is pressed.
pub proof fn escape_closes(
    before: FileManagerApp,
    after: FileManagerApp,
    d: Dialog,
    cmd: CommandView,
)
    requires
        before.escaped(&after, d, cmd),
    ensures
        !after.shows(d),
{
    if d == Dialog::OpError {
        assert(after.op@.err_wait is None);
        assert(after.op.err_wait is None);
    }
    if d == Dialog::Hash {
        assert(!after.hash@.show);
    }
}

/// Escape never runs an operation, creates or renames anything.
pub proof fn escape_runs_nothing(
    before: FileManagerApp,
    after: FileManagerApp,
    d: Dialog,
    cmd: CommandView,
)
    requires
        before.escaped(&after, d, cmd),
    ensures
        cmd is Nothing || cmd is Answer || cmd is StopHash,
{
}

// ---------------------------------------------------------------------------
// Function keys
// ---------------------------------------------------------------------------

/// What a function key asks for.
#[derive(Clone, Copy, Debug, PartialEq, Eq, Structural)]
pub enum FnKey {
    Copy,
    Move,
    NewDir,
    Search,
    Delete,
    Rename,
    RenameMany,
    NewFile,
    Edit,
    EditOutside,
    Pack,
    Hash,
    SelectAll,
    CopyPath,
    MaskAdd,
    MaskRemove,
}

/// The keys that were pressed, and those that were held.
#[derive(Clone, Copy, Debug, PartialEq, Eq, Structural)]
pub struct Keys {
    pub alt: bool,
    pub ctrl: bool,
    pub shift: bool,
    pub f2: bool,
    pub f3: bool,
    pub f4: bool,
    pub f5: bool,
    pub f6: bool,
    pub f7: bool,
    pub f8: bool,
    pub a: bool,
    pub c: bool,
    pub e: bool,
    pub h: bool,
    pub m: bool,
    pub n: bool,
    pub plus: bool,
    pub minus: bool,
}

impl Keys {
    /// Whether the keys ask for something.
    pub open spec fn asks(self, key: FnKey) -> bool {
        match key {
            FnKey::Copy => self.f5 && !self.alt,
            FnKey::Move => self.f6,
            FnKey::NewDir => self.f7 && !self.alt,
            FnKey::Search => self.f7 && self.alt,
            FnKey::Delete => self.f8,
            FnKey::Rename => self.f2,
            FnKey::RenameMany => self.m && self.ctrl,
            FnKey::NewFile => self.n && self.ctrl,
            FnKey::Edit => (self.e && self.ctrl) || self.f3,
            FnKey::EditOutside => self.f4,
            FnKey::Pack => self.f5 && self.alt && !self.ctrl,
            FnKey::Hash => self.h && self.ctrl,
            FnKey::SelectAll => self.a && self.ctrl && !self.shift,
            FnKey::CopyPath => self.c && self.alt && !self.ctrl,
            FnKey::MaskAdd => self.plus,
            FnKey::MaskRemove => self.minus,
        }
    }

    fn asking(&self, key: FnKey) -> (r: bool)
        ensures
            r == self.asks(key),
    {
        match key {
            FnKey::Copy => self.f5 && !self.alt,
            FnKey::Move => self.f6,
            FnKey::NewDir => self.f7 && !self.alt,
            FnKey::Search => self.f7 && self.alt,
            FnKey::Delete => self.f8,
            FnKey::Rename => self.f2,
            FnKey::RenameMany => self.m && self.ctrl,
            FnKey::NewFile => self.n && self.ctrl,
            FnKey::Edit => (self.e && self.ctrl) || self.f3,
            FnKey::EditOutside => self.f4,
            FnKey::Pack => self.f5 && self.alt && !self.ctrl,
            FnKey::Hash => self.h && self.ctrl,
            FnKey::SelectAll => self.a && self.ctrl && !self.shift,
            FnKey::CopyPath => self.c && self.alt && !self.ctrl,
            FnKey::MaskAdd => self.plus,
            FnKey::MaskRemove => self.minus,
        }
    }
}

/// The order in which function keys that are pressed together are served.
pub open spec fn key_order() -> Seq<FnKey> {
    seq![
        FnKey::Copy,
        FnKey::Move,
        FnKey::NewDir,
        FnKey::Search,
        FnKey::Delete,
        FnKey::Rename,
        FnKey::RenameMany,
        FnKey::NewFile,
        FnKey::Edit,
        FnKey::EditOutside,
        FnKey::Pack,
        FnKey::Hash,
        FnKey::SelectAll,
        FnKey::CopyPath,
        FnKey::MaskAdd,
        FnKey::MaskRemove,
    ]
}

/// Those of the things in `order` that the keys ask for.
pub open spec fn asked_in(keys: Keys, order: Seq<FnKey>) -> Seq<FnKey>
    decreases order.len(),
{
    if order.len() == 0 {
        seq![]
    } else {
        let front = asked_in(keys, order.drop_last());
        if keys.asks(order.last()) {
            front.push(order.last())
        } else {
            front
        }
    }
}

/// What the keys ask for, in order.
pub fn function_keys(keys: &Keys) -> (r: Vec<FnKey>)
    ensures
        r@ == asked_in(*keys, key_order()),
{
    let order: Vec<FnKey> = vec![
        FnKey::Copy,
        FnKey::Move,
        FnKey::NewDir,
        FnKey::Search,
        FnKey::Delete,
        FnKey::Rename,
        FnKey::RenameMany,
        FnKey::NewFile,
        FnKey::Edit,
        FnKey::EditOutside,
        FnKey::Pack,
        FnKey::Hash,
        FnKey::SelectAll,
        FnKey::CopyPath,
        FnKey::MaskAdd,
        FnKey::MaskRemove,
    ];
    assert(order@ =~= key_order());
    let mut out: Vec<FnKey> = Vec::new();
    let mut i: usize = 0;
    assert(order@.take(0) =~= seq![]);
    while i < order.len()
        invariant
            i <= order.len(),
            out@ == asked_in(*keys, order@.take(i as int)),
        decreases order.len() - i,
    {
        proof {
            assert(order@.take(i + 1).drop_last() =~= order@.take(i as int));
            assert(order@.take(i + 1).last() == order@[i as int]);
        }
        if keys.asking(order[i]) {
            out.push(order[i]);
        }
        i += 1;
    }
    assert(order@.take(order.len() as int) =~= order@);
    out
}

/// Everything that the keys ask for is served, and nothing else.
pub proof fn asked_keys_are_served(keys: Keys, key: FnKey)
    ensures
        asked_in(keys, key_order()).contains(key) <==> keys.asks(key),
{
    let all = key_order();
    lemma_asked_in(keys, all, key);
    let at: int = match key {
        FnKey::Copy => 0,
        FnKey::Move => 1,
        FnKey::NewDir => 2,
        FnKey::Search => 3,
        FnKey::Delete => 4,
        FnKey::Rename => 5,
        FnKey::RenameMany => 6,
        FnKey::NewFile => 7,
        FnKey::Edit => 8,
        FnKey::EditOutside => 9,
        FnKey::Pack => 10,
        FnKey::Hash => 11,
        FnKey::SelectAll => 12,
        FnKey::CopyPath => 13,
        FnKey::MaskAdd => 14,
        FnKey::MaskRemove => 15,
    };
    assert(all[at] == key);
}

proof fn lemma_asked_in(keys: Keys, order: Seq<FnKey>, key: FnKey)
    ensures
        asked_in(keys, order).contains(key) <==> order.contains(key) && keys.asks(key),
    decreases order.len(),
{
    if order.len() > 0 {
        let rest = order.drop_last();
        lemma_asked_in(keys, rest, key);
        let front = asked_in(keys, rest);
        assert(order =~= rest.push(order.last()));
        if order.contains(key) && order.last() != key {
            let i = choose|i: int| 0 <= i < order.len() && order[i] == key;
            assert(rest[i] == key);
        }
        if rest.contains(key) {
            let i = choose|i: int| 0 <= i < rest.len() && rest[i] == key;
            assert(order[i] == key);
        }
        if order.last() == key {
            assert(order[order.len() - 1] == key);
        }
        if keys.asks(order.last()) {
            let all = front.push(order.last());
            if front.contains(key) {
                let i = choose|i: int| 0 <= i < front.len() && front[i] == key;
                assert(all[i] == key);
            }
            if order.last() == key {
                assert(all[front.len() as int] == key);
            }
            if all.contains(key) && order.last() != key {
                let i = choose|i: int| 0 <= i < all.len() && all[i] == key;
                assert(front[i] == key);
            }
        }
    }
}

impl FileManagerApp {
    /// The path that is put on the clipboard: that of the row at the cursor, else that of the
    /// panel.
    pub open spec fn path_at_cursor(&self) -> PathView {
        match self.here().row_at_cursor() {
            Some(row) => self.here().current_path@.child(row.name),
            None => self.here().current_path@,
        }
    }

    /// Whether `after` is the program with every row of the active panel selected, whose
    /// sizes are to be counted.
    pub open spec fn selected_by_key(&self, after: &FileManagerApp) -> bool {
        &&& *after == self.with_panel(self.active, after.here())
        &&& after.here() == (Panel {
            selected: after.here().selected,
            dir_size_needed: self.here().dir_size_needed || self.here().entries@.len() > 0,
            ..self.here()
        })
        &&& after.here().selected@ == panel::all_positions(self.here().entries@.len())
    }

    /// Whether `after` is the program once a function key was pressed, and `cmd` what
    /// follows.
    pub open spec fn pressed(&self, after: &FileManagerApp, key: FnKey, cmd: CommandView) -> bool {
        match key {
            FnKey::Copy => self.copy_started(after, cmd),
            FnKey::Move => self.move_started(after) && cmd == CommandView::Nothing,
            FnKey::NewDir => self.new_dir_opened(after) && cmd == CommandView::Nothing,
            FnKey::Search => self.search_opened(after) && cmd == CommandView::Nothing,
            FnKey::Delete => self.delete_asked(after) && cmd == CommandView::Nothing,
            FnKey::Rename => {
                &&& *after == self.with_panel(self.active, after.here())
                &&& self.here().rename_begun(&after.here())
                &&& cmd == CommandView::Nothing
            },
            FnKey::RenameMany => *after == (FileManagerApp {
                rename: RenameBox { show: true, error: None, ..self.rename },
                ..*self
            }) && cmd == CommandView::Nothing,
            FnKey::NewFile => self.new_file_opened(after) && cmd == CommandView::Nothing,
            FnKey::Edit => *after == *self && cmd == self.text_editor_asked(),
            FnKey::EditOutside => self.external_editor_asked(after, cmd),
            FnKey::Pack => self.pack_asked(after) && cmd == CommandView::Nothing,
            FnKey::Hash => *after == *self && cmd == CommandView::ProbeHash(self.chosen_files()),
            FnKey::SelectAll => self.selected_by_key(after) && cmd == CommandView::Nothing,
            FnKey::CopyPath => self.reported(
                after,
                StatusView::Info("Zkopírováno: "@ + self.path_at_cursor().text()),
            ) && cmd == CommandView::CopyText(self.path_at_cursor().text()),
            FnKey::MaskAdd => self.mask_opened(after, true) && cmd == CommandView::Nothing,
            FnKey::MaskRemove => self.mask_opened(after, false) && cmd == CommandView::Nothing,
        }
    }

    fn select_by_key(&mut self)
        ensures
            old(self).selected_by_key(final(self)),
    {
        let p = self.active_panel_mut();
        p.select_all();
        if p.entries.len() > 0 {
            p.dir_size_needed = true;
        }
    }

    fn copy_path(&mut self) -> (r: Command)
        ensures
            old(self).pressed(final(self), FnKey::CopyPath, r@),
    {
        let p = self.active_panel();
        let path = match p.entry_at_cursor() {
            Some(row) => p.current_path.join(row.name.as_str()).text(),
            None => p.current_path.text(),
        };
        let mut s = "Zkopírováno: ".to_owned();
        s.append(path.as_str());
        self.report(StatusMsg::Info(s));
        Command::CopyText(path)
    }

    fn press_file_key(&mut self, key: FnKey) -> (r: Command)
        requires
            old(self).here().sized(),
            key == FnKey::Copy || key == FnKey::Move || key == FnKey::Delete || key == FnKey::Pack
                || key == FnKey::Hash,
        ensures
            old(self).pressed(final(self), key, r@),
    {
        match key {
            FnKey::Copy => {
                return self.start_copy();
            },
            FnKey::Move => {
                self.start_move();
            },
            FnKey::Delete => {
                self.request_delete();
            },
            FnKey::Pack => {
                self.start_zip_pack();
            },
            _ => {
                return self.open_hash_dialog();
            },
        }
        Command::Nothing
    }

    fn press_window_key(&mut self, key: FnKey)
        requires
            key == FnKey::NewDir || key == FnKey::Search || key == FnKey::Rename || key
                == FnKey::RenameMany || key == FnKey::NewFile,
        ensures
            old(self).pressed(final(self), key, CommandView::Nothing),
    {
        match key {
            FnKey::NewDir => {
                self.open_new_dir();
            },
            FnKey::Search => {
                self.open_search_dialog();
            },
            FnKey::Rename => {
                self.open_rename_single();
            },
            FnKey::RenameMany => {
                self.rename.open();
            },
            _ => {
                self.open_new_file();
            },
        }
    }

    /// A function key was pressed.
    pub fn press(&mut self, key: FnKey) -> (r: Command)
        requires
            old(self).here().sized(),
        ensures
            old(self).pressed(final(self), key, r@),
    {
        match key {
            FnKey::Copy | FnKey::Move | FnKey::Delete | FnKey::Pack | FnKey::Hash => {
                self.press_file_key(key)
            },
            FnKey::NewDir | FnKey::Search | FnKey::Rename | FnKey::RenameMany | FnKey::NewFile => {
                self.press_window_key(key);
                Command::Nothing
            },
            FnKey::Edit => self.open_text_editor(),
            FnKey::EditOutside => self.open_external_editor(),
            FnKey::SelectAll => {
                self.select_by_key();
                Command::Nothing
            },
            FnKey::CopyPath => self.copy_path(),
            FnKey::MaskAdd => {
                self.open_mask(true);
                Command::Nothing
            },
            FnKey::MaskRemove => {
                self.open_mask(false);
                Command::Nothing
            },
        }
    }
}

// ---------------------------------------------------------------------------
// Moving through a panel
// ---------------------------------------------------------------------------

/// How many rows a page has.
pub const PAGE_JUMP: isize = 15;

/// What a key that moves through a panel asks for.
#[derive(Clone, Copy, Debug, PartialEq, Eq, Structural)]
pub enum NavKey {
    Delete,
    Up,
    Down,
    PageUp,
    PageDown,
    Home,
    End,
    Space,
    Enter,
}

impl FileManagerApp {
    /// Whether `after` is the program with the cursor of the active panel moved.
    pub open spec fn cursor_moved_by(&self, after: &FileManagerApp, delta: int) -> bool {
        &&& *after == self.with_panel(self.active, after.here())
        &&& self.here().stepped(&after.here(), delta)
    }

    /// Whether `after` is the program with the row at the cursor selected, or taken out of the
    /// selection, and `cmd` what is to be counted.
    pub open spec fn row_toggled(&self, after: &FileManagerApp, cmd: CommandView) -> bool {
        exists|m: FileManagerApp|
            {
                &&& #[trigger] m.sizes_asked(after, cmd)
                &&& m == self.with_panel(self.active, m.here())
                &&& self.here().toggled_here(&m.here())
            }
    }

    /// Whether `after` is the program with the row at the cursor activated, and `cmd` what
    /// follows.
    pub open spec fn row_activated(&self, after: &FileManagerApp, cmd: CommandView) -> bool {
        &&& *after == self.with_panel(self.active, after.here())
        &&& exists|action: Option<ActionView>| #[trigger]
            self.here().activated(&after.here(), action) && cmd == mouse::command_of(
                self.active,
                action,
            )
    }

    /// Whether `after` is the program once a key that moves through a panel was pressed, and
    /// `cmd` what follows.
    pub open spec fn navigated(&self, after: &FileManagerApp, key: NavKey, cmd: CommandView) -> bool {
        match key {
            NavKey::Delete => self.delete_asked(after) && cmd == CommandView::Nothing,
            NavKey::Up => self.cursor_moved_by(after, -1) && cmd == CommandView::Nothing,
            NavKey::Down => self.cursor_moved_by(after, 1) && cmd == CommandView::Nothing,
            NavKey::PageUp => self.cursor_moved_by(after, -PAGE_JUMP) && cmd
                == CommandView::Nothing,
            NavKey::PageDown => self.cursor_moved_by(after, PAGE_JUMP as int) && cmd
                == CommandView::Nothing,
            NavKey::Home => {
                &&& *after == self.with_panel(self.active, after.here())
                &&& after.here() == (Panel { cursor: 0, cursor_moved: true, ..self.here() })
                &&& cmd == CommandView::Nothing
            },
            NavKey::End => {
                &&& *after == self.with_panel(self.active, after.here())
                &&& self.here().at_end(&after.here())
                &&& cmd == CommandView::Nothing
            },
            NavKey::Space => self.row_toggled(after, cmd),
            NavKey::Enter => self.row_activated(after, cmd),
        }
    }

    fn step_cursor(&mut self, delta: isize)
        requires
            old(self).here().sized(),
        ensures
            old(self).cursor_moved_by(final(self), delta as int),
    {
        self.active_panel_mut().move_cursor(delta);
    }

    fn toggle_row(&mut self) -> (r: Command)
        requires
            old(self).here().sized(),
        ensures
            old(self).row_toggled(final(self), r@),
    {
        self.active_panel_mut().toggle_selection_at_cursor();
        self.start_dir_size_calc()
    }

    fn activate_row(&mut self) -> (r: Command)
        requires
            old(self).here().sized(),
        ensures
            old(self).row_activated(final(self), r@),
    {
        let side = self.active;
        let action = self.panel_mut(side).activate_cursor();
        let ghost view = action.deep_view();
        assert(old(self).here().activated(&self.here(), view));
        mouse::command_for(side, action)
    }

    /// A key that moves through the active panel was pressed.
    pub fn navigate(&mut self, key: NavKey) -> (r: Command)
        requires
            old(self).here().sized(),
        ensures
            old(self).navigated(final(self), key, r@),
    {
        match key {
            NavKey::Delete => {
                self.request_delete();
                Command::Nothing
            },
            NavKey::Up => {
                self.step_cursor(-1);
                Command::Nothing
            },
            NavKey::Down => {
                self.step_cursor(1);
                Command::Nothing
            },
            NavKey::PageUp => {
                self.step_cursor(-PAGE_JUMP);
                Command::Nothing
            },
            NavKey::PageDown => {
                self.step_cursor(PAGE_JUMP);
                Command::Nothing
            },
            NavKey::Home => {
                self.active_panel_mut().move_cursor_to_start();
                Command::Nothing
            },
            NavKey::End => {
                self.active_panel_mut().move_cursor_to_end();
                Command::Nothing
            },
            NavKey::Space => self.toggle_row(),
            NavKey::Enter => self.activate_row(),
        }
    }
}

// ---------------------------------------------------------------------------
// Who gets the keys
// ---------------------------------------------------------------------------

/// The keys that move through a panel, as far as nothing else has taken them.
#[derive(Clone, Copy, Debug, PartialEq, Eq, Structural)]
pub struct NavPressed {
    pub delete: bool,
    pub up: bool,
    pub down: bool,
    pub page_up: bool,
    pub page_down: bool,
    pub home: bool,
    pub end: bool,
    pub space: bool,
    pub enter: bool,
}

impl NavPressed {
    /// Whether a key was pressed.
    pub open spec fn holds(self, key: NavKey) -> bool {
        match key {
            NavKey::Delete => self.delete,
            NavKey::Up => self.up,
            NavKey::Down => self.down,
            NavKey::PageUp => self.page_up,
            NavKey::PageDown => self.page_down,
            NavKey::Home => self.home,
            NavKey::End => self.end,
            NavKey::Space => self.space,
            NavKey::Enter => self.enter,
        }
    }
}

/// A sequence with a key at its end, where it was pressed.
pub open spec fn with_key(front: Seq<NavKey>, pressed: NavPressed, key: NavKey) -> Seq<NavKey> {
    if pressed.holds(key) {
        front.push(key)
    } else {
        front
    }
}

/// The keys that were pressed, in the order in which they are served.
pub open spec fn nav_keys(p: NavPressed) -> Seq<NavKey> {
    let a = with_key(seq![], p, NavKey::Delete);
    let b = with_key(with_key(a, p, NavKey::Up), p, NavKey::Down);
    let c = with_key(with_key(b, p, NavKey::PageUp), p, NavKey::PageDown);
    let d = with_key(with_key(c, p, NavKey::Home), p, NavKey::End);
    with_key(with_key(d, p, NavKey::Space), p, NavKey::Enter)
}

fn collect_nav_keys(p: &NavPressed) -> (r: Vec<NavKey>)
    ensures
        r@ == nav_keys(*p),
{
    let mut out: Vec<NavKey> = Vec::new();
    if p.delete {
        out.push(NavKey::Delete);
    }
    if p.up {
        out.push(NavKey::Up);
    }
    if p.down {
        out.push(NavKey::Down);
    }
    if p.page_up {
        out.push(NavKey::PageUp);
    }
    if p.page_down {
        out.push(NavKey::PageDown);
    }
    if p.home {
        out.push(NavKey::Home);
    }
    if p.end {
        out.push(NavKey::End);
    }
    if p.space {
        out.push(NavKey::Space);
    }
    if p.enter {
        out.push(NavKey::Enter);
    }
    out
}

impl FileManagerApp {
    /// Whether text is being typed in a window or in a row.
    pub open spec fn text_typed(&self) -> bool {
        ||| self.rename_single.show
        ||| self.mask.show
        ||| self.rename.show
        ||| self.search.show
        ||| self.new_dir.show
        ||| self.new_file.show
        ||| self.editor.show
        ||| self.left.inline_rename_idx is Some
        ||| self.right.inline_rename_idx is Some
    }

    /// Whether a window keeps the keys from moving through a panel.
    pub open spec fn window_open(&self) -> bool {
        ||| self.delete.show
        ||| self.copy.show
        ||| self.pack.show
        ||| self.rename.show
        ||| self.pending.action is Some
        ||| self.search.show
        ||| self.hash.show
        ||| self.show_about
        ||| self.show_settings
        ||| self.bookmarks.show
        ||| self.rename_single.show
        ||| self.mask.show
        ||| self.new_dir.show
        ||| self.new_file.show
        ||| self.editor.show
        ||| (self.op.show && self.op.running)
    }

    /// Whether function keys do nothing; `editing_path` tells whether the address line has
    /// the keyboard.
    pub open spec fn keys_blocked(&self, editing_path: bool) -> bool {
        ||| editing_path
        ||| self.rename.show
        ||| self.pending.action is Some
        ||| self.search.show
        ||| self.hash.show
        ||| self.rename_single.show
    }

    /// Whether the panels may take the keys that move through them, and whether they may take
    /// Enter.
    pub fn keys_free(&self, editing_path: bool) -> (r: (bool, bool))
        ensures
            r.0 == (!self.text_typed() && !editing_path),
            r.1 == !self.text_typed(),
    {
        let typed = self.rename_single.show || self.mask.show || self.rename.show
            || self.search.show || self.new_dir.show || self.new_file.show || self.editor.show
            || self.left.inline_rename_idx.is_some() || self.right.inline_rename_idx.is_some();
        (!typed && !editing_path, !typed)
    }

    /// The function keys that are served.
    pub open spec fn served(&self, keys: Keys, editing_path: bool) -> Seq<FnKey> {
        if self.keys_blocked(editing_path) {
            seq![]
        } else {
            asked_in(keys, key_order())
        }
    }

    /// The keys that move through the active panel.
    pub open spec fn moving(&self, nav: NavPressed, editing_path: bool) -> Seq<NavKey> {
        if editing_path || self.window_open() {
            seq![]
        } else {
            nav_keys(nav)
        }
    }

    /// The keys that are served, in order: function keys, then those that move through the
    /// active panel.
    pub fn handle_shortcuts(&self, keys: &Keys, nav: &NavPressed, editing_path: bool) -> (r: (
        Vec<FnKey>,
        Vec<NavKey>,
    ))
        ensures
            r.0@ == self.served(*keys, editing_path),
            r.1@ == self.moving(*nav, editing_path),
    {
        let blocked = editing_path || self.rename.show || self.pending.action.is_some()
            || self.search.show || self.hash.show || self.rename_single.show;
        let window = self.delete.show || self.copy.show || self.pack.show || self.rename.show
            || self.pending.action.is_some() || self.search.show || self.hash.show
            || self.show_about || self.show_settings || self.bookmarks.show
            || self.rename_single.show || self.mask.show || self.new_dir.show
            || self.new_file.show || self.editor.show || (self.op.show && self.op.running);
        let first = if blocked {
            Vec::new()
        } else {
            function_keys(keys)
        };
        let second = if editing_path || window {
            Vec::new()
        } else {
            collect_nav_keys(nav)
        };
        (first, second)
    }
}

/// While a path is typed, no key does anything but type.
pub proof fn typing_a_path_blocks_keys(app: FileManagerApp, keys: Keys, nav: NavPressed)
    ensures
        app.served(keys, true) == Seq::<FnKey>::empty(),
        app.moving(nav, true) == Seq::<NavKey>::empty(),
{
}

/// A progress window never keeps function keys from working.
pub proof fn progress_blocks_no_function_key(
    app: FileManagerApp,
    other: FileManagerApp,
    keys: Keys,
    editing_path: bool,
)
    requires
        other == (FileManagerApp { op: other.op, ..app }),
    ensures
        other.served(keys, editing_path) == app.served(keys, editing_path),
{
}

/// The place of a window in the order in which windows take the keys.
pub open spec fn rank(d: Dialog) -> int {
    match d {
        Dialog::Delete => 0,
        Dialog::Pack => 1,
        Dialog::Copy => 2,
        Dialog::OpError => 3,
        Dialog::Overwrite => 4,
        Dialog::Mask => 5,
        Dialog::RenameSingle => 6,
        Dialog::Progress => 7,
        Dialog::Rename => 8,
        Dialog::Search => 9,
        Dialog::NewDir => 10,
        Dialog::NewFile => 11,
        Dialog::Bookmarks => 12,
        Dialog::Hash => 13,
    }
}

/// The keys go to the first window in that order that is shown, and to none where none is.
pub proof fn keys_go_to_the_first_window(app: FileManagerApp, d: Dialog)
    requires
        app.shows(d),
    ensures
        app.in_front() is Some,
        app.shows(app.in_front()->0),
        rank(app.in_front()->0) <= rank(d),
{
}

/// The choice of a button moves by one with an arrow key and stops at the ends; without one it
/// stays.
pub proof fn arrows_move_the_choice(focus: int, last: int)
    requires
        0 <= focus <= last,
    ensures
        moved_focus(focus, last, false, false) == focus,
        focus > 0 ==> moved_focus(focus, last, true, false) == focus - 1,
        focus == 0 ==> moved_focus(focus, last, true, false) == 0,
        focus < last ==> moved_focus(focus, last, false, true) == focus + 1,
        focus == last ==> moved_focus(focus, last, false, true) == last,
{
}

/// The choice is that of the window itself: choosing another button changes it there alone.
pub proof fn choice_is_the_windows_own(app: FileManagerApp, d: Dialog, e: Dialog, focus: usize)
    ensures
        d.last_button() is Some ==> app.with_choice(d, focus).choice(d) == focus,
        d != e ==> app.with_choice(d, focus).choice(e) == app.choice(e),
        app.with_choice(d, focus).shows(e) == app.shows(e),
{
}

/// What the function keys stand for, with and without the keys held beside them.
pub proof fn keys_and_what_they_ask(keys: Keys)
    ensures
        keys.f5 && !keys.alt ==> keys.asks(FnKey::Copy) && !keys.asks(FnKey::Pack),
        keys.f5 && keys.alt && !keys.ctrl ==> keys.asks(FnKey::Pack) && !keys.asks(FnKey::Copy),
        !keys.f5 ==> !keys.asks(FnKey::Copy) && !keys.asks(FnKey::Pack),
        keys.asks(FnKey::Move) <==> keys.f6,
        keys.f7 && !keys.alt ==> keys.asks(FnKey::NewDir) && !keys.asks(FnKey::Search),
        keys.f7 && keys.alt ==> keys.asks(FnKey::Search) && !keys.asks(FnKey::NewDir),
        !keys.f7 ==> !keys.asks(FnKey::Search) && !keys.asks(FnKey::NewDir),
        keys.asks(FnKey::Delete) <==> keys.f8,
        keys.asks(FnKey::Rename) <==> keys.f2,
        keys.asks(FnKey::EditOutside) <==> keys.f4,
        keys.f3 ==> keys.asks(FnKey::Edit),
        keys.ctrl ==> (keys.asks(FnKey::RenameMany) <==> keys.m) && (keys.asks(FnKey::NewFile)
            <==> keys.n) && (keys.asks(FnKey::Hash) <==> keys.h) && (keys.asks(FnKey::Edit)
            <==> keys.e || keys.f3) && (keys.asks(FnKey::SelectAll) <==> keys.a && !keys.shift),
        !keys.ctrl ==> !keys.asks(FnKey::RenameMany) && !keys.asks(FnKey::NewFile) && !keys.asks(
            FnKey::Hash,
        ) && !keys.asks(FnKey::SelectAll) && (keys.asks(FnKey::CopyPath) <==> keys.c && keys.alt),
        keys.ctrl ==> !keys.asks(FnKey::CopyPath) && !keys.asks(FnKey::Pack),
        keys.asks(FnKey::MaskAdd) <==> keys.plus,
        keys.asks(FnKey::MaskRemove) <==> keys.minus,
{
}

/// Keys are served in their order: one that is asked for is served behind those before it.
pub proof fn keys_are_served_in_order(keys: Keys, order: Seq<FnKey>, key: FnKey)
    ensures
        asked_in(keys, Seq::<FnKey>::empty()).len() == 0,
        keys.asks(key) ==> asked_in(keys, order + seq![key]) == asked_in(keys, order) + seq![key],
        !keys.asks(key) ==> asked_in(keys, order + seq![key]) == asked_in(keys, order),
{
    assert((order + seq![key]).drop_last() =~= order);
    assert(asked_in(keys, order).push(key) =~= asked_in(keys, order) + seq![key]);
}

/// Each key opens its own window, and no other: what is asked for is shown afterwards.
pub proof fn keys_open_their_window(
    before: FileManagerApp,
    after: FileManagerApp,
    key: FnKey,
    cmd: CommandView,
)
    requires
        before.pressed(&after, key, cmd),
    ensures
        key == FnKey::NewDir ==> after.shows(Dialog::NewDir) && after.new_dir.name@.len() == 0,
        key == FnKey::NewFile ==> after.shows(Dialog::NewFile) && after.new_file.name@
            == "novy_soubor.txt"@,
        key == FnKey::Search ==> after.shows(Dialog::Search) && after.search@.root
            == before.here().current_path@ && after.search@.results.len() == 0,
        key == FnKey::RenameMany ==> after.shows(Dialog::Rename) && after.rename.error is None,
        key == FnKey::MaskAdd ==> after.shows(Dialog::Mask) && after.mask.adding,
        key == FnKey::MaskRemove ==> after.shows(Dialog::Mask) && !after.mask.adding,
        key == FnKey::Pack && before.chosen_files().len() > 0 ==> after.shows(Dialog::Pack),
        key == FnKey::Delete && before.here().archive_location is None
            && before.chosen_files().len() > 0 ==> after.shows(Dialog::Delete)
            && after.delete.targets.deep_view() == before.chosen_files(),
        (key == FnKey::Copy || key == FnKey::Move) && before.here().archive_location is None
            && before.chosen_files().len() > 0 ==> after.shows(Dialog::Copy)
            && after.copy.targets.deep_view() == before.chosen_files() && (after.copy.kind
            == crate::file_op::OpKind::Copy <==> key == FnKey::Copy),
        key == FnKey::Hash ==> cmd == CommandView::ProbeHash(before.chosen_files()),
        key == FnKey::CopyPath ==> cmd == CommandView::CopyText(before.path_at_cursor().text()),
{
    reveal_strlit("");
}

/// With the key for everything, an operation works on every row.
pub proof fn select_all_means_all(before: FileManagerApp, after: FileManagerApp, cmd: CommandView)
    requires
        before.wf(),
        before.pressed(&after, FnKey::SelectAll, cmd),
        before.here().entries@.len() > 0,
    ensures
        after.here().effective_rows() == before.here().rows(),
        after.here().dir_size_needed,
{
    panel::choosing_all_picks_all(before.here().rows());
}

/// A held key moves the cursor exactly where it is among the keys that move.
pub proof fn held_keys_move(p: NavPressed, key: NavKey)
    ensures
        nav_keys(p).contains(key) <==> p.holds(key),
{
    let none = Seq::<NavKey>::empty();
    let a = with_key(none, p, NavKey::Delete);
    lemma_with_key(none, p, NavKey::Delete, key);
    let b = with_key(a, p, NavKey::Up);
    lemma_with_key(a, p, NavKey::Up, key);
    let c = with_key(b, p, NavKey::Down);
    lemma_with_key(b, p, NavKey::Down, key);
    let d = with_key(c, p, NavKey::PageUp);
    lemma_with_key(c, p, NavKey::PageUp, key);
    let e = with_key(d, p, NavKey::PageDown);
    lemma_with_key(d, p, NavKey::PageDown, key);
    let f = with_key(e, p, NavKey::Home);
    lemma_with_key(e, p, NavKey::Home, key);
    let g = with_key(f, p, NavKey::End);
    lemma_with_key(f, p, NavKey::End, key);
    let h = with_key(g, p, NavKey::Space);
    lemma_with_key(g, p, NavKey::Space, key);
    lemma_with_key(h, p, NavKey::Enter, key);
}

proof fn lemma_with_key(front: Seq<NavKey>, p: NavPressed, added: NavKey, key: NavKey)
    ensures
        with_key(front, p, added).contains(key) <==> front.contains(key) || (key == added
            && p.holds(added)),
{
    let all = with_key(front, p, added);
    if front.contains(key) {
        let k = choose|k: int| 0 <= k < front.len() && front[k] == key;
        assert(all[k] == key);
    }
    if key == added && p.holds(added) {
        assert(all[front.len() as int] == key);
    }
    if all.contains(key) {
        let k = choose|k: int| 0 <= k < all.len() && all[k] == key;
        if k < front.len() {
            assert(front[k] == key);
        }
    }
}

/// The arrow keys move the cursor by one row, the page keys by a page, Home to the first row and
/// End to the last; never out of the rows, and nothing else changes.
pub proof fn keys_move_the_cursor(
    before: FileManagerApp,
    after: FileManagerApp,
    key: NavKey,
    cmd: CommandView,
)
    requires
        before.wf(),
        before.here().row_count() > 0,
        before.navigated(&after, key, cmd),
        key == NavKey::Up || key == NavKey::Down || key == NavKey::PageUp || key
            == NavKey::PageDown || key == NavKey::Home || key == NavKey::End,
    ensures
        cmd == CommandView::Nothing,
        after.here().rows() == before.here().rows(),
        after.here().selected@ == before.here().selected@,
        ({
            let at = before.here().cursor as int;
            let last = before.here().row_count() - 1;
            let now = after.here().cursor as int;
            &&& key == NavKey::Up ==> now == if at > 0 {
                at - 1
            } else {
                0
            }
            &&& key == NavKey::Down ==> now == if at < last {
                at + 1
            } else {
                last
            }
            &&& key == NavKey::PageUp ==> now == if at >= 15 {
                at - 15
            } else {
                0
            }
            &&& key == NavKey::PageDown ==> now == if at + 15 <= last {
                at + 15
            } else {
                last
            }
            &&& key == NavKey::Home ==> now == 0
            &&& key == NavKey::End ==> now == last
        }),
{
}

/// No key moves the cursor behind a window: where one is shown, or a path or a name is being
/// typed, the cursor stays; only the windows of a running operation's errors and of a finished
/// operation let the keys through.
pub proof fn windows_hold_the_cursor(app: FileManagerApp, d: Dialog, nav: NavPressed)
    requires
        app.shows(d),
        d != Dialog::OpError,
        d != Dialog::Progress,
    ensures
        app.moving(nav, false) == Seq::<NavKey>::empty(),
{
}

/// Without a window and without a path being typed, every held key moves and every key asked for
/// is served.
pub proof fn free_keys_are_served(app: FileManagerApp, keys: Keys, nav: NavPressed)
    ensures
        !app.window_open() ==> app.moving(nav, false) == nav_keys(nav),
        !app.keys_blocked(false) ==> app.served(keys, false) == asked_in(keys, key_order()),
        app.shows(Dialog::Rename) || app.shows(Dialog::Overwrite) || app.shows(Dialog::Search)
            || app.shows(Dialog::Hash) || app.shows(Dialog::RenameSingle) ==> app.served(
            keys,
            false,
        ) == Seq::<FnKey>::empty(),
{
}

/// Enter in a window does what its chosen button says: the first one goes ahead, the last one
/// does not; over what is in the way, the first overwrites and the second leaves it.
pub proof fn enter_does_the_choice(
    before: FileManagerApp,
    after: FileManagerApp,
    d: Dialog,
    cmd: CommandView,
)
    requires
        before.shows(d),
        before.entered(&after, d, false, cmd),
        d == Dialog::Delete || d == Dialog::Pack || d == Dialog::Copy || d == Dialog::Overwrite,
    ensures
        !after.shows(d),
        before.choice(d) == 0 ==> cmd is Run || cmd is ProbeFiles,
        d != Dialog::Overwrite && before.choice(d) > 0 ==> cmd == CommandView::Nothing,
        d == Dialog::Overwrite && before.choice(d) == 1 ==> cmd == CommandView::Run(
            before.pending.action.deep_view()->0.order(false),
        ),
        d == Dialog::Overwrite && before.choice(d) == 0 ==> cmd == CommandView::Run(
            before.pending.action.deep_view()->0.order(true),
        ),
        d == Dialog::Overwrite && before.choice(d) >= 2 ==> cmd == CommandView::Nothing,
{
}

/// Confirming a mask applies it and closes its window.
pub proof fn mask_is_applied_and_closed(
    before: FileManagerApp,
    after: FileManagerApp,
    cmd: CommandView,
    y: usize,
)
    requires
        before.wf(),
        before.entered(&after, Dialog::Mask, false, cmd),
        y < before.here().entries@.len(),
    ensures
        !after.shows(Dialog::Mask),
        cmd == CommandView::Nothing,
        crate::glob::fits(
            crate::text::lowercase(crate::text::trimmed(before.mask.mask@)),
            crate::text::lowercase(before.here().rows()[y as int].name),
        ) ==> (after.here().selected@.contains(y) <==> before.mask.adding),
        !crate::glob::fits(
            crate::text::lowercase(crate::text::trimmed(before.mask.mask@)),
            crate::text::lowercase(before.here().rows()[y as int].name),
        ) ==> (after.here().selected@.contains(y) <==> before.here().selected@.contains(y)),
{
    let m = choose|m: FileManagerApp| #[trigger]
        before.mask_applied(&m, before.mask.adding) && after == (FileManagerApp {
            mask: MaskBox { show: false, ..m.mask },
            ..m
        });
    crate::dialogs::mask_chooses_by_fit(before, m, before.mask.adding, y);
    assert(after.here() == m.here());
}

/// The space key chooses the row at the cursor, or gives it up, and no other.
pub proof fn space_chooses_at_the_cursor(
    before: FileManagerApp,
    after: FileManagerApp,
    cmd: CommandView,
    y: usize,
)
    requires
        before.wf(),
        before.navigated(&after, NavKey::Space, cmd),
    ensures
        before.here().cursor == y + before.here().offset() ==> (after.here().selected@.contains(y)
            <==> !before.here().selected@.contains(y)),
        before.here().cursor != y + before.here().offset() ==> (after.here().selected@.contains(y)
            <==> before.here().selected@.contains(y)),
        after.here().cursor == before.here().cursor,
        cmd == CommandView::Nothing || cmd is CountSizes,
{
    let m = choose|m: FileManagerApp|
        {
            &&& #[trigger] m.sizes_asked(&after, cmd)
            &&& m == before.with_panel(before.active, m.here())
            &&& before.here().toggled_here(&m.here())
        };
    panel::choice_at_the_cursor(before.here(), m.here(), y);
    assert(after.here() == m.here());
}

/// Enter on a directory enters it in the active panel, which is then read again.
pub proof fn enter_enters_directories(
    before: FileManagerApp,
    after: FileManagerApp,
    cmd: CommandView,
)
    requires
        before.wf(),
        before.navigated(&after, NavKey::Enter, cmd),
        before.here().row_at_cursor() is Some,
        before.here().row_at_cursor()->0.is_dir,
        before.here().archive_location is None,
    ensures
        after.here().current_path@ == before.here().current_path@.child(
            before.here().row_at_cursor()->0.name,
        ),
        cmd == (CommandView::Reload {
            side: before.active,
            focus: crate::panel::FocusView::Keep,
        }),
{
}

/// Where text is typed, the windows for text are shown or a name is edited in a panel.
pub proof fn windows_for_text(app: FileManagerApp)
    ensures
        app.shows(Dialog::RenameSingle) || app.shows(Dialog::Mask) || app.shows(Dialog::Rename)
            || app.shows(Dialog::Search) || app.shows(Dialog::NewDir) || app.shows(Dialog::NewFile)
            ==> app.text_typed(),
        app.left.inline_rename_idx is Some || app.right.inline_rename_idx is Some
            ==> app.text_typed(),
        app.editor.show ==> app.text_typed(),
        app.in_front() is None && !app.editor.show && app.left.inline_rename_idx is None
            && app.right.inline_rename_idx is None ==> !app.text_typed(),
{
}

/// Enter in the windows without buttons: the one name is renamed in the active panel, the
/// progress is put away, and the windows that do not take it stay as they are.
pub proof fn enter_without_buttons(
    before: FileManagerApp,
    after: FileManagerApp,
    d: Dialog,
    typing: bool,
    cmd: CommandView,
)
    requires
        before.entered(&after, d, typing, cmd),
    ensures
        d == Dialog::RenameSingle ==> after == before && cmd == (CommandView::RenameFile {
            dir: before.here().current_path@,
            old_name: before.rename_single.old_name@,
            new_name: before.rename_single.new_name@,
        }),
        d == Dialog::Progress ==> !after.op.show && cmd == CommandView::Nothing,
        d == Dialog::Rename || d == Dialog::Search || d == Dialog::Bookmarks || d == Dialog::Hash
            ==> after == before && cmd == CommandView::Nothing,
        typing && d == Dialog::Pack ==> cmd is Run,
        typing && d == Dialog::Copy ==> cmd is ProbeFiles,
{
}

/// Closing the window of sums stops a count that is under way; nothing that was counted is
/// lost.
pub proof fn closing_stops_the_count(
    before: FileManagerApp,
    after: FileManagerApp,
    cmd: CommandView,
)
    requires
        before.escaped(&after, Dialog::Hash, cmd),
    ensures
        !after.hash@.show,
        after.hash@.results == before.hash@.results,
        cmd == (CommandView::StopHash { stop: before.hash.stoppable }),
{
}

/// Arrow keys choose a button where there are any and no text is typed; the windows with fields
/// of text and lists of results leave Enter alone.
pub proof fn keys_by_window(d: Dialog, typing: bool)
    ensures
        d.takes(typing).escape,
        d.last_button() is None ==> !d.takes(typing).arrows,
        d.last_button() is Some && !typing ==> d.takes(typing).arrows,
        typing ==> (d.takes(typing).arrows <==> d == Dialog::Delete || d == Dialog::OpError || d
            == Dialog::Overwrite),
        d.takes(typing).enter <==> d != Dialog::Rename && d != Dialog::Search && d
            != Dialog::Bookmarks && d != Dialog::Hash,
        d.last_button() == Some(2usize) <==> d == Dialog::OpError || d == Dialog::Overwrite,
        d.last_button() == Some(1usize) <==> d == Dialog::Delete || d == Dialog::Pack || d
            == Dialog::Copy,
{
}

} // verus!
