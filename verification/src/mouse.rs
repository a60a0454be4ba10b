//! What the mouse does to the panels.

use crate::app::FileManagerApp;
use crate::entry::SortColumn;
use crate::jobs::{Command, CommandView};
use crate::panel::{
    ActionView, ActivePanel, CursorAction, Focus, FocusView, Panel, PathProbe,
};
use crate::path::{DirPath, PathView};
use vstd::prelude::*;

verus! {

broadcast use vstd::string::group_string_axioms;

/// What follows from an action on a row of a panel.
pub open spec fn command_of(side: ActivePanel, action: Option<ActionView>) -> CommandView {
    match action {
        Some(ActionView::Reload(focus)) => CommandView::Reload { side, focus },
        Some(ActionView::OpenExternal(path)) => CommandView::OpenSystem(path),
        None => CommandView::Nothing,
    }
}

/// What follows from an action on a row of a panel.
pub fn command_for(side: ActivePanel, action: Option<CursorAction>) -> (r: Command)
    ensures
        r@ == command_of(side, action.deep_view()),
{
    match action {
        Some(CursorAction::Reload(focus)) => Command::Reload { side, focus },
        Some(CursorAction::OpenExternal(path)) => Command::OpenSystem(path),
        None => Command::Nothing,
    }
}

/// What the context menu of a row offers besides what every row has.
#[derive(Clone, Copy, Debug, PartialEq, Eq, Structural)]
pub struct MenuOffer {
    /// Whether the file can be opened, in the editor and by the system.
    pub open: bool,
    /// Whether a checksum can be counted.
    pub hash: bool,
}

/// What the context menu of the row at `i` offers: files are opened only outside archives,
/// and only files have checksums.
pub fn menu_offer(p: &Panel, i: usize) -> (r: MenuOffer)
    requires
        i < p.entries.len(),
    ensures
        r.open == (!p.rows()[i as int].is_dir && p.archive_location is None),
        r.hash == !p.rows()[i as int].is_dir,
{
    assert(p.rows()[i as int] == p.entries[i as int]@);
    let file = !p.entries[i].is_dir;
    MenuOffer { open: file && p.archive_location.is_none(), hash: file }
}

/// Whether rows that were dragged from a panel are let go over the other one.
pub open spec fn is_drop(drag_src: Option<ActivePanel>, over: Option<ActivePanel>) -> bool {
    drag_src matches Some(from) && over == Some(from.opposite())
}

impl FileManagerApp {
    /// Whether `after` is the program with a panel gone to a directory and made the active
    /// one.
    pub open spec fn sent_to(
        &self,
        after: &FileManagerApp,
        side: ActivePanel,
        path: PathView,
    ) -> bool {
        &&& *after == (FileManagerApp { active: side, ..*self }).with_panel(
            side,
            after.panel_of(side),
        )
        &&& self.panel_of(side).moved_to(&after.panel_of(side), path)
    }

    /// A click on a drive: the panel goes there.
    pub fn drive_clicked(&mut self, side: ActivePanel, path: &DirPath) -> (r: Command)
        ensures
            old(self).sent_to(final(self), side, path@),
            r@ == (CommandView::Reload { side, focus: FocusView::Keep }),
    {
        self.active = side;
        let focus = self.panel_mut(side).go_to(path);
        Command::Reload { side, focus }
    }

    /// A click on a piece of the path: the panel goes there, with the cursor on the first row.
    pub fn crumb_clicked(&mut self, side: ActivePanel, path: &DirPath) -> (r: Command)
        ensures
            old(self).sent_to(final(self), side, path@),
            r@ == (CommandView::Reload { side, focus: FocusView::Top }),
    {
        self.active = side;
        let _ = self.panel_mut(side).go_to(path);
        Command::Reload { side, focus: Focus::Top }
    }

    /// The path of the address line was confirmed; `probe` is what the file system tells of
    /// it. The panel goes there, or there is a message.
    pub fn path_entered(&mut self, side: ActivePanel, probe: &PathProbe) -> (r: Result<
        Command,
        String,
    >)
        ensures
            r is Ok <==> probe.exists && probe.is_dir,
            r matches Ok(cmd) ==> cmd@ == (CommandView::Reload { side, focus: FocusView::Keep })
                && old(self).sent_to(final(self), side, probe.path@),
            r matches Err(e) ==> *final(self) == (FileManagerApp { active: side, ..*old(self) })
                && e@ == if !probe.exists {
                "Cesta neexistuje nebo není dostupná: "@ + crate::text::trimmed(
                    old(self).panel_of(side).path_input@,
                )
            } else {
                "Zadaná cesta není adresář."@
            },
    {
        self.active = side;
        let went = self.panel_mut(side).navigate_to_input(probe);
        match went {
            Ok(focus) => Ok(Command::Reload { side, focus }),
            Err(e) => Err(e),
        }
    }

    /// A click on the head of a column orders the listing of the panel by it.
    pub fn head_clicked(&mut self, side: ActivePanel, col: SortColumn) -> (r: Command)
        ensures
            *final(self) == old(self).with_panel(side, final(self).panel_of(side)),
            old(self).panel_of(side).reordered(&final(self).panel_of(side), col),
            r@ == (CommandView::Reload { side, focus: FocusView::Keep }),
    {
        let focus = self.panel_mut(side).sort_by(col);
        Command::Reload { side, focus }
    }

    /// A click on a row puts the cursor on it and makes its panel the active one. It selects
    /// nothing.
    pub fn row_clicked(&mut self, side: ActivePanel, i: usize)
        requires
            old(self).panel_of(side).sized(),
            i < old(self).panel_of(side).entries.len(),
        ensures
            *final(self) == (FileManagerApp { active: side, ..*old(self) }).with_panel(
                side,
                Panel {
                    cursor: (i + old(self).panel_of(side).offset()) as usize,
                    ..old(self).panel_of(side)
                },
            ),
    {
        self.active = side;
        self.panel_mut(side).click_row(i);
    }

    /// Whether `after` is the program once the row at `i` of a panel is being dragged: the
    /// panel becomes the active one, and the row the selection unless it is in it.
    pub open spec fn row_taken(&self, after: &FileManagerApp, side: ActivePanel, i: usize) -> bool {
        let p = self.panel_of(side);
        &&& *after == (FileManagerApp {
            active: side,
            drag_src: Some(side),
            ..*self
        }).with_panel(side, Panel { selected: after.panel_of(side).selected, ..p })
        &&& after.panel_of(side).selected@ == if p.selected@.contains(i) {
            p.selected@
        } else {
            seq![i]
        }
    }

    /// A row is being dragged.
    pub fn row_dragged(&mut self, side: ActivePanel, i: usize)
        ensures
            old(self).row_taken(final(self), side, i),
    {
        self.active = side;
        self.drag_src = Some(side);
        self.panel_mut(side).drag_row(i);
    }

    /// Whether `after` is the program after a double click on the row at `i` of a panel, and
    /// `cmd` what follows. A panel that goes somewhere becomes the active one.
    pub open spec fn row_opened(
        &self,
        after: &FileManagerApp,
        side: ActivePanel,
        i: int,
        cmd: CommandView,
    ) -> bool {
        exists|action: Option<ActionView>|
            {
                &&& #[trigger] self.panel_of(side).double_clicked(
                    &after.panel_of(side),
                    i,
                    action,
                )
                &&& cmd == command_of(side, action)
                &&& *after == (FileManagerApp {
                    active: if cmd is Reload {
                        side
                    } else {
                        self.active
                    },
                    ..*self
                }).with_panel(side, after.panel_of(side))
            }
    }

    /// A double click on a row.
    pub fn row_double_clicked(&mut self, side: ActivePanel, i: usize) -> (r: Command)
        requires
            old(self).panel_of(side).sized(),
            i < old(self).panel_of(side).entries.len(),
        ensures
            old(self).row_opened(final(self), side, i as int, r@),
    {
        let action = self.panel_mut(side).double_click_row(i);
        let ghost view = action.deep_view();
        let cmd = command_for(side, action);
        if let Command::Reload { .. } = &cmd {
            self.active = side;
        }
        assert(old(self).panel_of(side).double_clicked(&self.panel_of(side), i as int, view));
        cmd
    }

    /// Whether `after` is the program after a click on the row `..` of a panel, and `cmd`
    /// what follows.
    pub open spec fn sent_up(
        &self,
        after: &FileManagerApp,
        side: ActivePanel,
        cmd: CommandView,
    ) -> bool {
        exists|focus: Option<FocusView>|
            {
                &&& #[trigger] self.panel_of(side).gone_up(&after.panel_of(side), focus)
                &&& cmd == match focus {
                    Some(focus) => CommandView::Reload { side, focus },
                    None => CommandView::Nothing,
                }
                &&& *after == (FileManagerApp { active: side, ..*self }).with_panel(
                    side,
                    after.panel_of(side),
                )
            }
    }

    /// A click on the row `..`: the panel goes to the place above.
    pub fn up_clicked(&mut self, side: ActivePanel) -> (r: Command)
        ensures
            old(self).sent_up(final(self), side, r@),
    {
        self.active = side;
        let went = self.panel_mut(side).go_up();
        let ghost focus = went.deep_view();
        assert(old(self).panel_of(side).gone_up(&self.panel_of(side), focus));
        match went {
            Some(focus) => Command::Reload { side, focus },
            None => Command::Nothing,
        }
    }

    /// The mouse was let go over a panel, or over none. Rows that were dragged from one panel
    /// over the other are to be moved; dragging ends in any case.
    pub fn mouse_released(&mut self, over: Option<ActivePanel>) -> (r: bool)
        ensures
            *final(self) == (FileManagerApp { drag_src: None, ..*old(self) }),
            r == is_drop(old(self).drag_src, over),
    {
        let dropped = match (self.drag_src, over) {
            (Some(from), Some(to)) => from != to,
            _ => false,
        };
        self.drag_src = None;
        dropped
    }

    /// Whether the panel is one that dragged rows can be let go over.
    pub fn takes_drop(&self, side: ActivePanel) -> (r: bool)
        ensures
            r == (self.drag_src matches Some(from) && from == side.opposite()),
    {
        match self.drag_src {
            Some(from) => from != side,
            None => false,
        }
    }
}

/// Rows dragged from either panel are moved exactly where they are let go over the other one,
/// whose directory is then the target.
pub proof fn drops_move_either_way(
    before: FileManagerApp,
    dragged: FileManagerApp,
    side: ActivePanel,
    i: usize,
    over: Option<ActivePanel>,
)
    requires
        before.row_taken(&dragged, side, i),
    ensures
        is_drop(dragged.drag_src, over) <==> over == Some(side.opposite()),
        dragged.active == side,
        dragged.there() == before.panel_of(side.opposite()).current_path@,
        dragged.here().selected@.contains(i),
{
    assert(seq![i][0] == i);
}

/// What an action of a panel asks for: to read that panel again with the cursor where it is to
/// be, or to open a file with its program.
pub proof fn actions_ask_for_their_panel(side: ActivePanel, focus: FocusView, path: PathView)
    ensures
        command_of(side, Some(ActionView::Reload(focus))) == (CommandView::Reload { side, focus }),
        command_of(side, Some(ActionView::OpenExternal(path))) == CommandView::OpenSystem(path),
        command_of(side, None) == CommandView::Nothing,
{
}

/// Files are dropped exactly where they were taken in one panel and let go over the other.
pub proof fn dropped_over_the_other_panel(from: ActivePanel, over: ActivePanel)
    ensures
        is_drop(Some(from), Some(over)) <==> from != over,
        !is_drop(Some(from), None),
        !is_drop(None, Some(over)),
        !is_drop(None, None),
{
}

/// A row that is dragged is chosen: alone, unless it was among the chosen ones, which then stay.
pub proof fn dragging_takes_the_choice(
    before: FileManagerApp,
    after: FileManagerApp,
    side: ActivePanel,
    i: usize,
)
    requires
        before.row_taken(&after, side, i),
    ensures
        after.drag_src == Some(side),
        after.active == side,
        before.panel_of(side).selected@.contains(i) ==> after.panel_of(side).selected@
            == before.panel_of(side).selected@,
        !before.panel_of(side).selected@.contains(i) ==> after.panel_of(side).selected@ == seq![i],
        after.panel_of(side.opposite()) == before.panel_of(side.opposite()),
        after.panel_of(side).cursor == before.panel_of(side).cursor,
{
}

/// A panel that is sent somewhere stands there, outside any archive, and is the active one; the
/// other panel stays.
pub proof fn sent_panel_stands_there(
    before: FileManagerApp,
    after: FileManagerApp,
    side: ActivePanel,
    path: PathView,
)
    requires
        before.sent_to(&after, side, path),
    ensures
        after.active == side,
        after.panel_of(side).current_path@ == path,
        after.panel_of(side).archive_location is None,
        after.panel_of(side.opposite()) == before.panel_of(side.opposite()),
{
}

/// A panel that is sent up stands above, is the active one and is read again; the other panel
/// stays. At a root nothing is read.
pub proof fn sent_up_stands_above(
    before: FileManagerApp,
    after: FileManagerApp,
    side: ActivePanel,
    cmd: CommandView,
)
    requires
        before.sent_up(&after, side, cmd),
    ensures
        after.active == side,
        after.panel_of(side.opposite()) == before.panel_of(side.opposite()),
        cmd == CommandView::Nothing <==> !before.panel_of(side).has_upper(),
        before.panel_of(side).archive_location is None && before.panel_of(
            side,
        ).current_path@.parent() is Some ==> after.panel_of(side).current_path@
            == before.panel_of(side).current_path@.parent()->0,
{
    let focus = choose|focus: Option<FocusView>|
        {
            &&& #[trigger] before.panel_of(side).gone_up(&after.panel_of(side), focus)
            &&& cmd == match focus {
                Some(focus) => CommandView::Reload { side, focus },
                None => CommandView::Nothing,
            }
            &&& after == (FileManagerApp { active: side, ..before }).with_panel(
                side,
                after.panel_of(side),
            )
        };
    crate::panel::way_up(before.panel_of(side), after.panel_of(side), focus);
}

} // verus!
