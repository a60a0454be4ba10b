//! One of the two panels: a place, its listing, the cursor and the selection.

use crate::archive::{self, ArchiveLocation, ZipItem};
use crate::entry::{self, DirSort, EntryView, FileEntry, RawEntry, SortColumn, SortDir};
use crate::glob;
use crate::path::{DirPath, PathView};
use crate::sort;
use crate::text;
use vstd::prelude::*;

verus! {

broadcast use vstd::string::group_string_axioms;

/// One of the two panels.
#[derive(Clone, Copy, Debug, PartialEq, Eq, Hash, Structural)]
pub enum ActivePanel {
    Left,
    Right,
}

impl ActivePanel {
    /// The other panel.
    pub open spec fn opposite(self) -> ActivePanel {
        match self {
            ActivePanel::Left => ActivePanel::Right,
            ActivePanel::Right => ActivePanel::Left,
        }
    }

    /// The other panel.
    pub fn other(self) -> (r: ActivePanel)
        ensures
            r == self.opposite(),
    {
        match self {
            ActivePanel::Left => ActivePanel::Right,
            ActivePanel::Right => ActivePanel::Left,
        }
    }
}

/// What was read of the place that a panel shows.
#[derive(Debug)]
pub enum Listing {
    /// The items of a directory, or nothing where it could not be read.
    Directory(Option<Vec<RawEntry>>),
    /// The members of an archive, or the reason why it could not be read.
    Archive(Result<Vec<ZipItem>, String>),
}

impl Listing {
    /// Whether there are few enough items to number them with room for one more row.
    pub open spec fn fits(&self) -> bool {
        match *self {
            Listing::Directory(Some(items)) => items.len() < isize::MAX,
            Listing::Archive(Ok(items)) => items.len() < isize::MAX,
            _ => true,
        }
    }
}

/// Where the cursor goes once a listing has been read.
#[derive(Debug)]
pub enum Focus {
    /// It stays where it is, as far as the listing is long enough.
    Keep,
    /// On the row with this name, where there is one.
    Name(String),
    /// On the row with this name, where there is one; the row is then the selection.
    Select(String),
    /// On the first row.
    Top,
}

/// What a focus is.
#[verifier::ext_equal]
pub enum FocusView {
    Keep,
    Name(Seq<char>),
    Select(Seq<char>),
    Top,
}

impl View for Focus {
    type V = FocusView;

    open spec fn view(&self) -> FocusView {
        match self {
            Focus::Keep => FocusView::Keep,
            Focus::Name(n) => FocusView::Name(n@),
            Focus::Select(n) => FocusView::Select(n@),
            Focus::Top => FocusView::Top,
        }
    }
}

impl DeepView for Focus {
    type V = FocusView;

    open spec fn deep_view(&self) -> FocusView {
        self.view()
    }
}

/// What follows from activating a row.
#[derive(Debug)]
pub enum CursorAction {
    /// The place has changed: its listing has to be read.
    Reload(Focus),
    /// The file has to be opened by the application that the system has for it.
    OpenExternal(DirPath),
}

/// What an action is.
#[verifier::ext_equal]
pub enum ActionView {
    Reload(FocusView),
    OpenExternal(PathView),
}

impl View for CursorAction {
    type V = ActionView;

    open spec fn view(&self) -> ActionView {
        match self {
            CursorAction::Reload(f) => ActionView::Reload(f@),
            CursorAction::OpenExternal(p) => ActionView::OpenExternal(p@),
        }
    }
}

impl DeepView for CursorAction {
    type V = ActionView;

    open spec fn deep_view(&self) -> ActionView {
        self.view()
    }
}

/// What the file system tells of a path that was typed in.
#[derive(Debug)]
pub struct PathProbe {
    pub path: DirPath,
    pub exists: bool,
    pub is_dir: bool,
}

/// A file to be renamed within a directory.
#[derive(Debug)]
pub struct RenameRequest {
    pub dir: DirPath,
    pub old_name: String,
    pub new_name: String,
}

/// A panel: a place, its listing, the cursor and the selection.
#[derive(Debug)]
pub struct Panel {
    pub current_path: DirPath,
    pub entries: Vec<FileEntry>,
    /// The positions of the selected rows in `entries`, in the order of selection.
    pub selected: Vec<usize>,
    /// The row of the cursor; the row `..`, where there is one, counts as the first.
    pub cursor: usize,
    pub drives: Vec<String>,
    pub path_input: String,
    pub path_focused: bool,
    pub dir_size_needed: bool,
    pub cursor_moved: bool,
    pub show_hidden: bool,
    pub inline_rename_idx: Option<usize>,
    pub inline_rename_buf: String,
    pub sort_col: SortColumn,
    pub sort_dir: SortDir,
    pub dir_sort: DirSort,
    pub archive_location: Option<ArchiveLocation>,
    pub error: Option<String>,
}

// ---------------------------------------------------------------------------
// Models
// ---------------------------------------------------------------------------

/// The selected rows, in the order of selection; positions without a row are passed over.
pub open spec fn picked(rows: Seq<EntryView>, selected: Seq<usize>) -> Seq<EntryView>
    decreases selected.len(),
{
    if selected.len() == 0 {
        seq![]
    } else {
        let front = picked(rows, selected.drop_last());
        if selected.last() < rows.len() {
            front.push(rows[selected.last() as int])
        } else {
            front
        }
    }
}

/// The names of rows.
pub open spec fn names_of(rows: Seq<EntryView>) -> Seq<Seq<char>> {
    Seq::new(rows.len(), |i: int| rows[i].name)
}

/// The paths of rows in a directory.
pub open spec fn paths_in(dir: PathView, rows: Seq<EntryView>) -> Seq<PathView> {
    Seq::new(rows.len(), |i: int| dir.child(rows[i].name))
}

/// Positions without one of them.
pub open spec fn without(positions: Seq<usize>, x: usize) -> Seq<usize>
    decreases positions.len(),
{
    if positions.len() == 0 {
        seq![]
    } else {
        let front = without(positions.drop_last(), x);
        if positions.last() == x {
            front
        } else {
            front.push(positions.last())
        }
    }
}

/// A selection with the row at `x` added to it, or taken out of it.
pub open spec fn toggled(selected: Seq<usize>, x: usize) -> Seq<usize> {
    if selected.contains(x) {
        without(selected, x)
    } else {
        selected.push(x)
    }
}

/// The selection after the first `n` rows were held against a mask: those that fit are
/// added, or taken out.
pub open spec fn masked(
    selected: Seq<usize>,
    rows: Seq<EntryView>,
    mask: Seq<char>,
    adding: bool,
    n: int,
) -> Seq<usize>
    decreases n,
{
    if n <= 0 {
        selected
    } else {
        let before = masked(selected, rows, mask, adding, n - 1);
        if !glob::fits(mask, text::lowercase(rows[n - 1].name)) {
            before
        } else if adding {
            if before.contains((n - 1) as usize) {
                before
            } else {
                before.push((n - 1) as usize)
            }
        } else {
            without(before, (n - 1) as usize)
        }
    }
}

/// The position of the first row with a name, or the number of rows.
pub open spec fn position_of(rows: Seq<EntryView>, name: Seq<char>) -> int
    decreases rows.len(),
{
    if rows.len() == 0 || rows[0].name == name {
        0
    } else {
        1 + position_of(rows.drop_first(), name)
    }
}

/// The position of every one of `n` rows.
pub open spec fn all_positions(n: nat) -> Seq<usize> {
    Seq::new(n, |i: int| i as usize)
}

/// The directories of the rows whose size has not been counted.
pub open spec fn uncounted(dir: PathView, rows: Seq<EntryView>) -> Seq<PathView>
    decreases rows.len(),
{
    if rows.len() == 0 {
        seq![]
    } else {
        let front = uncounted(dir, rows.drop_last());
        if rows.last().is_dir && rows.last().dir_size is None {
            front.push(dir.child(rows.last().name))
        } else {
            front
        }
    }
}

/// The rows once the size of a directory has been counted.
pub open spec fn counted(
    dir: PathView,
    rows: Seq<EntryView>,
    path: PathView,
    size: u64,
) -> Seq<EntryView> {
    Seq::new(
        rows.len(),
        |i: int|
            if rows[i].is_dir && dir.child(rows[i].name) == path {
                EntryView { dir_size: Some(size), ..rows[i] }
            } else {
                rows[i]
            },
    )
}

impl Panel {
    /// The rows of the listing.
    pub open spec fn rows(&self) -> Seq<EntryView> {
        self.entries.deep_view()
    }

    /// Whether there is a place above.
    pub open spec fn has_upper(&self) -> bool {
        self.archive_location is Some || self.current_path@.parent() is Some
    }

    /// How many rows stand above the listing: the row `..`, or none.
    pub open spec fn offset(&self) -> int {
        if self.has_upper() {
            1
        } else {
            0
        }
    }

    /// How many rows there are.
    pub open spec fn row_count(&self) -> int {
        self.entries.len() + self.offset()
    }

    /// The position in the listing that the cursor stands on: none on the row `..`.
    pub open spec fn at_cursor(&self) -> Option<usize> {
        if self.cursor < self.offset() {
            None
        } else {
            Some((self.cursor - self.offset()) as usize)
        }
    }

    /// The row that the cursor stands on.
    pub open spec fn row_at_cursor(&self) -> Option<EntryView> {
        match self.at_cursor() {
            Some(i) => if i < self.entries.len() {
                Some(self.rows()[i as int])
            } else {
                None
            },
            None => None,
        }
    }

    /// The rows that an operation works on: the selected ones, or the one at the cursor.
    pub open spec fn effective_rows(&self) -> Seq<EntryView> {
        let chosen = picked(self.rows(), self.selected@);
        if chosen.len() > 0 {
            chosen
        } else {
            match self.row_at_cursor() {
                Some(row) => seq![row],
                None => seq![],
            }
        }
    }

    /// Whether there are few enough rows to number them.
    pub open spec fn sized(&self) -> bool {
        self.entries.len() < isize::MAX
    }

    /// Whether the cursor stands on a row, or on the first of none.
    pub open spec fn cursor_valid(&self) -> bool {
        self.cursor == 0 || self.cursor < self.row_count()
    }

    /// Whether no row is selected twice.
    pub open spec fn selection_distinct(&self) -> bool {
        self.selected@.no_duplicates()
    }

    /// What holds of a panel whose listing has been read.
    pub open spec fn wf(&self) -> bool {
        self.sized() && self.cursor_valid() && self.selection_distinct()
    }

    /// The text of the address line.
    pub open spec fn address(&self) -> Seq<char> {
        match self.archive_location {
            Some(loc) => loc.archive_path@.text() + "::/"@ + loc.internal_dir@,
            None => {
                let p = self.current_path@.text();
                if text::ends_with(p, seq![':']) {
                    p + "\\"@
                } else {
                    p
                }
            },
        }
    }

    /// The rows of a listing of the panel's place.
    pub open spec fn rows_listed(&self, listing: Listing) -> Seq<EntryView> {
        match listing {
            Listing::Directory(Some(items)) => sort::sorted(
                entry::rows_of(items.deep_view(), self.show_hidden),
                self.sort_col,
                self.sort_dir,
                self.dir_sort,
            ),
            Listing::Directory(None) => seq![],
            Listing::Archive(Ok(items)) => match self.archive_location {
                Some(loc) => archive::zip_listing(items.deep_view(), loc.internal_dir@),
                None => seq![],
            },
            Listing::Archive(Err(_)) => seq![],
        }
    }

    /// The message that a listing leaves behind.
    pub open spec fn error_listed(&self, listing: Listing) -> Option<Seq<char>> {
        match listing {
            Listing::Archive(Err(e)) => Some(e@),
            _ => None,
        }
    }

    /// Whether a listing is one of the kind of place that the panel shows.
    pub open spec fn listing_of(&self, listing: Listing) -> bool {
        (self.archive_location is Some) == (listing is Archive)
    }

    /// Whether `after` is this panel with its listing read anew.
    pub open spec fn refreshed(&self, after: &Panel, listing: Listing) -> bool {
        &&& *after == (Panel {
            entries: after.entries,
            selected: after.selected,
            cursor: after.cursor,
            path_input: after.path_input,
            error: after.error,
            ..*self
        })
        &&& after.rows() == self.rows_listed(listing)
        &&& after.selected@.len() == 0
        &&& after.error.deep_view() == self.error_listed(listing)
        &&& after.path_input@ == self.address()
        &&& after.cursor == if self.cursor < after.row_count() {
            self.cursor as int
        } else if after.row_count() > 0 {
            after.row_count() - 1
        } else {
            0
        }
    }

    /// Whether `after` is this panel with the cursor put where `focus` says.
    pub open spec fn focused(&self, after: &Panel, focus: FocusView) -> bool {
        match focus {
            FocusView::Keep => *after == *self,
            FocusView::Name(name) => {
                let at = position_of(self.rows(), name);
                if at < self.rows().len() {
                    *after == (Panel {
                        cursor: (at + self.offset()) as usize,
                        cursor_moved: true,
                        ..*self
                    })
                } else {
                    *after == *self
                }
            },
            FocusView::Select(name) => {
                let at = position_of(self.rows(), name);
                if at < self.rows().len() {
                    &&& *after == (Panel {
                        cursor: (at + self.offset()) as usize,
                        selected: after.selected,
                        ..*self
                    })
                    &&& after.selected@ == seq![at as usize]
                } else {
                    *after == *self
                }
            },
            FocusView::Top => *after == (Panel { cursor: 0, cursor_moved: true, ..*self }),
        }
    }

    /// Whether `after` is this panel at another place, with its listing not read yet.
    pub open spec fn moved_to(&self, after: &Panel, path: PathView) -> bool {
        &&& *after == (Panel {
            current_path: after.current_path,
            archive_location: None,
            ..*self
        })
        &&& after.current_path@ == path
    }

    /// Whether `after` is this panel with another directory of the archive, with its listing
    /// not read yet.
    pub open spec fn moved_within(&self, after: &Panel, dir: Seq<char>) -> bool {
        &&& *after == (Panel { archive_location: after.archive_location, ..*self })
        &&& self.archive_location matches Some(old_loc)
        &&& after.archive_location matches Some(loc)
        &&& loc.archive_path@ == old_loc.archive_path@
        &&& loc.internal_dir@ == dir
    }

    /// Whether `after` is this panel gone into the directory with the given name.
    pub open spec fn entered(&self, after: &Panel, name: Seq<char>) -> bool {
        match self.archive_location {
            Some(loc) => self.moved_within(after, archive::lower_dir(loc.internal_dir@, name)),
            None => {
                &&& *after == (Panel { current_path: after.current_path, ..*self })
                &&& after.current_path@ == self.current_path@.child(name)
            },
        }
    }

    /// Whether `after` is this panel gone into an archive.
    pub open spec fn opened_zip(&self, after: &Panel, path: PathView) -> bool {
        &&& *after == (Panel { archive_location: after.archive_location, ..*self })
        &&& after.archive_location matches Some(loc)
        &&& loc.archive_path@ == path
        &&& loc.internal_dir@ == Seq::<char>::empty()
    }

    /// Whether `after` is this panel gone to the place above, with `focus` on the place it
    /// came from; none where there is no place above.
    pub open spec fn gone_up(&self, after: &Panel, focus: Option<FocusView>) -> bool {
        match self.archive_location {
            Some(loc) => if loc.internal_dir@.len() == 0 {
                &&& *after == (Panel { archive_location: None, ..*self })
                &&& focus == Some(FocusView::Name(loc.archive_path@.name_or_empty()))
            } else {
                &&& self.moved_within(after, archive::upper_dir(loc.internal_dir@))
                &&& focus == Some(FocusView::Name(archive::own_name(loc.internal_dir@)))
            },
            None => match self.current_path@.parent() {
                Some(upper) => {
                    let came_from = self.current_path@.name_or_empty();
                    &&& *after == (Panel { current_path: after.current_path, ..*self })
                    &&& after.current_path@ == upper
                    &&& focus == Some(
                        if came_from.len() == 0 {
                            FocusView::Keep
                        } else {
                            FocusView::Name(came_from)
                        },
                    )
                },
                None => *after == *self && focus is None,
            },
        }
    }

    /// Whether `after` is this panel after the row at the cursor was activated, and `action`
    /// is what follows from it.
    pub open spec fn activated(&self, after: &Panel, action: Option<ActionView>) -> bool {
        match self.at_cursor() {
            None => exists|focus: Option<FocusView>| #[trigger]
                self.gone_up(after, focus) && action == match focus {
                    Some(f) => Some(ActionView::Reload(f)),
                    None => None,
                },
            Some(_) => match self.row_at_cursor() {
                None => *after == *self && action is None,
                Some(row) => {
                    let path = self.current_path@.child(row.name);
                    if row.is_dir {
                        self.entered(after, row.name) && action == Some(
                            ActionView::Reload(FocusView::Keep),
                        )
                    } else if self.archive_location is Some {
                        *after == *self && action is None
                    } else if row.is_archive && entry::lower_extension(path.name_or_empty())
                        == "zip"@ {
                        self.opened_zip(after, path) && action == Some(
                            ActionView::Reload(FocusView::Keep),
                        )
                    } else {
                        *after == *self && action == Some(ActionView::OpenExternal(path))
                    }
                },
            },
        }
    }

    /// Whether `after` is this panel with renaming the row at the cursor in place started;
    /// nothing happens inside an archive and without a row at the cursor.
    pub open spec fn rename_begun(&self, after: &Panel) -> bool {
        match self.row_at_cursor() {
            Some(row) if self.archive_location is None => {
                &&& *after == (Panel {
                    inline_rename_idx: self.at_cursor(),
                    inline_rename_buf: after.inline_rename_buf,
                    ..*self
                })
                &&& after.inline_rename_buf@ == row.name
            },
            _ => *after == *self,
        }
    }

    /// Whether `after` is this panel with the cursor moved by some rows, within the rows that
    /// there are.
    pub open spec fn stepped(&self, after: &Panel, delta: int) -> bool {
        if self.row_count() == 0 {
            *after == *self
        } else {
            &&& *after == (Panel { cursor: after.cursor, cursor_moved: true, ..*self })
            &&& after.cursor == if self.cursor + delta < 0 {
                0
            } else if self.cursor + delta >= self.row_count() {
                self.row_count() - 1
            } else {
                self.cursor + delta
            }
        }
    }

    /// Whether `after` is this panel with the cursor on the last row, where there is one.
    pub open spec fn at_end(&self, after: &Panel) -> bool {
        *after == if self.row_count() > 0 {
            Panel { cursor: (self.row_count() - 1) as usize, cursor_moved: true, ..*self }
        } else {
            *self
        }
    }

    /// Whether `after` is this panel with the row at the cursor selected, or taken out of the
    /// selection. The cursor stays.
    pub open spec fn toggled_here(&self, after: &Panel) -> bool {
        &&& *after == (Panel { selected: after.selected, ..*self })
        &&& after.selected@ == match self.at_cursor() {
            Some(i) => toggled(self.selected@, i),
            None => self.selected@,
        }
    }

    /// Whether `after` is this panel ordered by a column, with its listing not read yet: the
    /// column that orders it already turns its order round.
    pub open spec fn reordered(&self, after: &Panel, col: SortColumn) -> bool {
        *after == (Panel {
            sort_col: col,
            sort_dir: if self.sort_col == col && self.sort_dir == SortDir::Asc {
                SortDir::Desc
            } else {
                SortDir::Asc
            },
            ..*self
        })
    }

    /// Whether `after` is this panel after a double click on the row at `i`, and `action` is
    /// what follows from it.
    pub open spec fn double_clicked(&self, after: &Panel, i: int, action: Option<ActionView>) -> bool {
        let row = self.rows()[i];
        let path = self.current_path@.child(row.name);
        let here = Panel { cursor: (i + self.offset()) as usize, ..*self };
        if row.is_dir {
            here.entered(after, row.name) && action == Some(ActionView::Reload(FocusView::Keep))
        } else if self.archive_location is Some {
            *after == here && action is None
        } else if row.is_archive && row.ext == "zip"@ {
            here.opened_zip(after, path) && action == Some(ActionView::Reload(FocusView::Keep))
        } else {
            *after == here && action == Some(ActionView::OpenExternal(path))
        }
    }
}

// ---------------------------------------------------------------------------
// Laws
// ---------------------------------------------------------------------------

/// Taking a position out leaves the others, in their order and without doubles.
pub proof fn without_takes_out(positions: Seq<usize>, x: usize)
    ensures
        without(positions, x).len() <= positions.len(),
        forall|y: usize|
            #![trigger without(positions, x).contains(y)]
            without(positions, x).contains(y) <==> positions.contains(y) && y != x,
        positions.no_duplicates() ==> without(positions, x).no_duplicates(),
        !positions.contains(x) ==> without(positions, x) == positions,
    decreases positions.len(),
{
    if positions.len() > 0 {
        let init = positions.drop_last();
        let last = positions.last();
        without_takes_out(init, x);
        let front = without(init, x);
        let all = without(positions, x);
        assert(positions == init.push(last));
        assert forall|y: usize|
            #![trigger all.contains(y)]
            all.contains(y) <==> positions.contains(y) && y != x by {
            assert(front.contains(y) <==> init.contains(y) && y != x);
            lemma_push_contains(init, last, y);
            lemma_push_contains(front, last, y);
        }
        if positions.no_duplicates() {
            assert(init.no_duplicates());
            assert(!init.contains(last)) by {
                if init.contains(last) {
                    let k = choose|k: int| 0 <= k < init.len() && init[k] == last;
                    assert(positions[k] == positions[positions.len() - 1]);
                }
            }
            assert(front.contains(last) <==> init.contains(last) && last != x);
            if last != x {
                assert(front.push(last).no_duplicates());
            }
        }
        if !positions.contains(x) {
            lemma_push_contains(init, last, x);
            assert(positions[positions.len() - 1] == last);
        }
    }
}

proof fn lemma_push_contains(s: Seq<usize>, last: usize, y: usize)
    ensures
        s.push(last).contains(y) <==> s.contains(y) || y == last,
{
    let all = s.push(last);
    if s.contains(y) {
        let k = choose|k: int| 0 <= k < s.len() && s[k] == y;
        assert(all[k] == y);
    }
    if y == last {
        assert(all[s.len() as int] == y);
    }
    if all.contains(y) && y != last {
        let k = choose|k: int| 0 <= k < all.len() && all[k] == y;
        assert(s[k] == y);
    }
}

/// Toggling a row changes whether it is selected and nothing else, and selects no row twice.
pub proof fn toggled_changes_one(selected: Seq<usize>, x: usize)
    requires
        selected.no_duplicates(),
    ensures
        toggled(selected, x).no_duplicates(),
        toggled(selected, x).contains(x) <==> !selected.contains(x),
        forall|y: usize|
            #![trigger toggled(selected, x).contains(y)]
            y != x ==> (toggled(selected, x).contains(y) <==> selected.contains(y)),
{
    without_takes_out(selected, x);
    assert forall|y: usize|
        #![trigger toggled(selected, x).contains(y)]
        y != x implies (toggled(selected, x).contains(y) <==> selected.contains(y)) by {
        lemma_push_contains(selected, x, y);
    }
    lemma_push_contains(selected, x, x);
    assert(without(selected, x).contains(x) <==> selected.contains(x) && x != x);
    if !selected.contains(x) {
        assert(selected.push(x).no_duplicates());
    }
}

/// Toggling a row twice gives back which rows are selected.
pub proof fn toggled_twice(selected: Seq<usize>, x: usize, y: usize)
    requires
        selected.no_duplicates(),
    ensures
        toggled(toggled(selected, x), x).contains(y) <==> selected.contains(y),
{
    toggled_changes_one(selected, x);
    toggled_changes_one(toggled(selected, x), x);
    let once = toggled(selected, x);
    if y != x {
        assert(once.contains(y) <==> selected.contains(y));
        assert(toggled(once, x).contains(y) <==> once.contains(y));
    }
}

/// A mask selects, or takes out of the selection, exactly the rows that fit it.
pub proof fn masked_by_fit(
    selected: Seq<usize>,
    rows: Seq<EntryView>,
    mask: Seq<char>,
    adding: bool,
    n: int,
)
    requires
        0 <= n <= rows.len() <= usize::MAX,
        selected.no_duplicates(),
    ensures
        masked(selected, rows, mask, adding, n).no_duplicates(),
        forall|y: usize|
            #![trigger masked(selected, rows, mask, adding, n).contains(y)]
            masked(selected, rows, mask, adding, n).contains(y) <==> if y < n && glob::fits(
                mask,
                text::lowercase(rows[y as int].name),
            ) {
                adding
            } else {
                selected.contains(y)
            },
    decreases n,
{
    if n > 0 {
        masked_by_fit(selected, rows, mask, adding, n - 1);
        let before = masked(selected, rows, mask, adding, n - 1);
        let after = masked(selected, rows, mask, adding, n);
        let x = (n - 1) as usize;
        without_takes_out(before, x);
        if adding && !before.contains(x) {
            assert(before.push(x).no_duplicates());
        }
        assert forall|y: usize|
            #![trigger after.contains(y)]
            after.contains(y) <==> if y < n && glob::fits(
                mask,
                text::lowercase(rows[y as int].name),
            ) {
                adding
            } else {
                selected.contains(y)
            } by {
            lemma_push_contains(before, x, y);
            assert(before.contains(y) <==> if y < n - 1 && glob::fits(
                mask,
                text::lowercase(rows[y as int].name),
            ) {
                adding
            } else {
                selected.contains(y)
            });
            assert(without(before, x).contains(y) <==> before.contains(y) && y != x);
        }
    }
}

/// Entering a directory and going up again leads back to the same place, with the focus on
/// the directory that was left.
pub proof fn enter_then_go_up(
    start: Panel,
    inside: Panel,
    back: Panel,
    name: Seq<char>,
    focus: Option<FocusView>,
)
    requires
        name.len() > 0,
        !crate::path::is_dots(name),
        !name.contains('/'),
        start.archive_location is None ==> crate::path::is_plain(name, start.current_path.sep),
        start.archive_location matches Some(loc) ==> (loc.internal_dir@.len() == 0
            || loc.internal_dir@.last() == '/'),
        start.entered(&inside, name),
        inside.gone_up(&back, focus),
    ensures
        focus == Some(FocusView::Name(name)),
        back.current_path@ == start.current_path@,
        match (start.archive_location, back.archive_location) {
            (Some(a), Some(b)) => a.archive_path@ == b.archive_path@ && a.internal_dir@
                == b.internal_dir@,
            (None, None) => true,
            _ => false,
        },
{
    match start.archive_location {
        Some(loc) => {
            archive::lower_then_upper(loc.internal_dir@, name);
            assert(archive::lower_dir(loc.internal_dir@, name).len() > 0);
        },
        None => {
            crate::path::child_then_parent(start.current_path@, name);
            crate::path::child_has_name(start.current_path@, name);
        },
    }
}

/// Opening an archive and going up again leads back to the directory that it lies in, with
/// the focus on the archive.
pub proof fn open_zip_then_go_up(
    start: Panel,
    inside: Panel,
    back: Panel,
    path: PathView,
    focus: Option<FocusView>,
)
    requires
        start.archive_location is None,
        start.opened_zip(&inside, path),
        inside.gone_up(&back, focus),
    ensures
        back == start,
        focus == Some(FocusView::Name(path.name_or_empty())),
{
}

/// After a listing was read, the cursor stands on a row and nothing is selected.
pub proof fn refreshed_is_wf(before: Panel, after: Panel, listing: Listing)
    requires
        before.refreshed(&after, listing),
        listing.fits(),
        before.listing_of(listing),
    ensures
        after.wf(),
{
    match listing {
        Listing::Directory(Some(items)) => {
            let rows = entry::rows_of(items.deep_view(), before.show_hidden);
            entry::rows_bounded(items.deep_view(), before.show_hidden);
            sort::sorted_keeps_rows(rows, before.sort_col, before.sort_dir, before.dir_sort);
        },
        Listing::Archive(Ok(items)) => {
            archive::member_rows_bounded(
                items.deep_view(),
                before.archive_location->0.internal_dir@,
            );
        },
        _ => {},
    }
    assert(after.rows().len() == after.entries.len());
}

/// Moving the focus keeps the cursor on a row.
pub proof fn focused_is_wf(before: Panel, after: Panel, focus: FocusView)
    requires
        before.wf(),
        before.focused(&after, focus),
    ensures
        after.wf(),
{
    assert(before.rows().len() == before.entries.len());
    match focus {
        FocusView::Name(name) => lemma_position_of(before.rows(), name),
        FocusView::Select(name) => lemma_position_of(before.rows(), name),
        _ => {},
    }
}

/// Moving the cursor, and selecting the row that it stands on, keeps the panel as it has to
/// be.
pub proof fn moves_keep_wf(before: Panel, stepped: Panel, ended: Panel, toggled: Panel, delta: int)
    requires
        before.wf(),
        before.stepped(&stepped, delta),
        before.at_end(&ended),
        before.toggled_here(&toggled),
    ensures
        stepped.wf(),
        ended.wf(),
        toggled.wf(),
{
    match before.at_cursor() {
        Some(i) => toggled_changes_one(before.selected@, i),
        None => {},
    }
}

/// Selecting all rows, none, those that fit a mask, and one by dragging keeps the panel as it
/// has to be.
pub proof fn selections_keep_wf(before: Panel, after: Panel, mask: Seq<char>, adding: bool, i: usize)
    requires
        before.wf(),
        after == (Panel { selected: after.selected, ..before }),
        ({
            ||| after.selected@ == all_positions(before.entries@.len())
            ||| after.selected@.len() == 0
            ||| after.selected@ == masked(
                before.selected@,
                before.rows(),
                mask,
                adding,
                before.entries@.len() as int,
            )
            ||| after.selected@ == seq![i]
        }),
    ensures
        after.wf(),
{
    assert(before.rows().len() == before.entries.len());
    masked_by_fit(before.selected@, before.rows(), mask, adding, before.entries@.len() as int);
}

proof fn lemma_position_of(rows: Seq<EntryView>, name: Seq<char>)
    ensures
        0 <= position_of(rows, name) <= rows.len(),
        position_of(rows, name) < rows.len() ==> rows[position_of(rows, name)].name == name,
        forall|k: int| 0 <= k < position_of(rows, name) ==> (#[trigger] rows[k]).name != name,
    decreases rows.len(),
{
    if rows.len() > 0 && rows[0].name != name {
        let rest = rows.drop_first();
        lemma_position_of(rest, name);
        assert forall|k: int| 0 <= k < position_of(rows, name) implies (#[trigger] rows[k]).name
            != name by {
            if k > 0 {
                assert(rows[k] == rest[k - 1]);
            }
        }
    }
}

// ---------------------------------------------------------------------------
// Executable panel
// ---------------------------------------------------------------------------

/// The positions without one of them.
fn take_out(positions: &Vec<usize>, x: usize) -> (r: Vec<usize>)
    ensures
        r@ == without(positions@, x),
{
    let mut out: Vec<usize> = Vec::new();
    let mut i: usize = 0;
    assert(positions@.take(0) == Seq::<usize>::empty());
    while i < positions.len()
        invariant
            i <= positions.len(),
            out@ == without(positions@.take(i as int), x),
        decreases positions.len() - i,
    {
        assert(positions@.take(i + 1).drop_last() == positions@.take(i as int));
        if positions[i] != x {
            out.push(positions[i]);
        }
        i += 1;
    }
    assert(positions@.take(positions.len() as int) == positions@);
    out
}

/// Whether a position is among others.
fn holds(positions: &Vec<usize>, x: usize) -> (r: bool)
    ensures
        r == positions@.contains(x),
{
    let mut i: usize = 0;
    while i < positions.len()
        invariant
            i <= positions.len(),
            forall|k: int| 0 <= k < i ==> positions[k] != x,
        decreases positions.len() - i,
    {
        if positions[i] == x {
            assert(positions@[i as int] == x);
            return true;
        }
        i += 1;
    }
    false
}

impl Panel {
    /// A panel at a place whose listing was read.
    pub fn new(path: DirPath, drives: Vec<String>, items: Option<Vec<RawEntry>>) -> (r: Panel)
        requires
            items matches Some(items) ==> items.len() < isize::MAX,
        ensures
            r.current_path == path,
            r.drives == drives,
            r.rows() == match items {
                Some(items) => sort::sorted(
                    entry::rows_of(items.deep_view(), false),
                    SortColumn::Name,
                    SortDir::Asc,
                    DirSort::FirstByCol,
                ),
                None => seq![],
            },
            r.selected@.len() == 0,
            r.cursor == 0,
            r.path_input@ == r.address(),
            !r.path_focused,
            !r.dir_size_needed,
            !r.cursor_moved,
            !r.show_hidden,
            r.inline_rename_idx is None,
            r.inline_rename_buf@.len() == 0,
            r.sort_col == SortColumn::Name,
            r.sort_dir == SortDir::Asc,
            r.dir_sort == DirSort::FirstByCol,
            r.archive_location is None,
            r.error is None,
            r.wf(),
    {
        let mut panel = Panel {
            path_input: path.text(),
            current_path: path,
            entries: Vec::new(),
            selected: Vec::new(),
            cursor: 0,
            drives,
            path_focused: false,
            dir_size_needed: false,
            cursor_moved: false,
            show_hidden: false,
            inline_rename_idx: None,
            inline_rename_buf: String::new(),
            sort_col: SortColumn::Name,
            sort_dir: SortDir::Asc,
            dir_sort: DirSort::FirstByCol,
            archive_location: None,
            error: None,
        };
        panel.refresh(Listing::Directory(items));
        panel
    }

    /// Whether there is a place above: always inside an archive, elsewhere unless the panel
    /// is at a root.
    pub fn can_go_up(&self) -> (r: bool)
        ensures
            r == self.has_upper(),
    {
        self.archive_location.is_some() || self.current_path.has_parent()
    }

    /// Takes in a listing of the panel's place. The selection is dropped and the cursor kept
    /// within the rows.
    pub fn refresh(&mut self, listing: Listing)
        requires
            old(self).listing_of(listing),
            listing.fits(),
        ensures
            old(self).refreshed(final(self), listing),
            final(self).wf(),
    {
        let ghost told = listing;
        self.selected = Vec::new();
        self.path_input = self.address_text();
        match listing {
            Listing::Directory(items) => {
                self.error = None;
                match items {
                    Some(items) => {
                        let mut rows = entry::list_items(&items, self.show_hidden);
                        sort::sort_entries_by(
                            &mut rows,
                            self.sort_col,
                            self.sort_dir,
                            self.dir_sort,
                        );
                        self.entries = rows;
                    },
                    None => {
                        self.entries = Vec::new();
                        assert(self.entries.deep_view() =~= Seq::empty());
                    },
                }
            },
            Listing::Archive(Ok(items)) => {
                self.error = None;
                match &self.archive_location {
                    Some(loc) => {
                        self.entries = archive::list_zip_dir(&items, loc.internal_dir.as_str());
                    },
                    None => {
                        self.entries = Vec::new();
                        assert(self.entries.deep_view() =~= Seq::empty());
                    },
                }
            },
            Listing::Archive(Err(e)) => {
                self.error = Some(e);
                self.entries = Vec::new();
                assert(self.entries.deep_view() =~= Seq::empty());
            },
        }
        proof {
            match told {
                Listing::Directory(Some(items)) => {
                    let rows = entry::rows_of(items.deep_view(), self.show_hidden);
                    entry::rows_bounded(items.deep_view(), self.show_hidden);
                    sort::sorted_keeps_rows(rows, self.sort_col, self.sort_dir, self.dir_sort);
                },
                Listing::Archive(Ok(items)) => {
                    archive::member_rows_bounded(
                        items.deep_view(),
                        self.archive_location->0.internal_dir@,
                    );
                },
                _ => {},
            }
            assert(self.rows().len() == self.entries.len());
        }
        let total = self.total_rows();
        if self.cursor >= total {
            self.cursor = if total > 0 {
                total - 1
            } else {
                0
            };
        }
    }

    /// The text of the address line.
    pub fn address_text(&self) -> (r: String)
        ensures
            r@ == self.address(),
    {
        match &self.archive_location {
            Some(loc) => {
                let mut s = loc.archive_path.text();
                s.append("::/");
                s.append(loc.internal_dir.as_str());
                s
            },
            None => {
                let mut p = self.current_path.text();
                proof {
                    reveal_strlit(":");
                    assert(":"@ =~= seq![':']);
                }
                if text::ends(p.as_str(), ":") {
                    p.append("\\");
                }
                p
            },
        }
    }

    /// Puts the cursor where `focus` says, once a listing was read.
    pub fn apply_focus(&mut self, focus: &Focus)
        requires
            old(self).wf(),
        ensures
            old(self).focused(final(self), focus@),
            final(self).wf(),
    {
        match focus {
            Focus::Keep => {},
            Focus::Name(name) => {
                if let Some(at) = self.position(name.as_str()) {
                    self.cursor = at + self.up_offset();
                    self.cursor_moved = true;
                }
            },
            Focus::Select(name) => {
                if let Some(at) = self.position(name.as_str()) {
                    self.cursor = at + self.up_offset();
                    let mut only: Vec<usize> = Vec::new();
                    only.push(at);
                    self.selected = only;
                    assert(self.selected@ =~= seq![at]);
                }
            },
            Focus::Top => {
                self.cursor = 0;
                self.cursor_moved = true;
            },
        }
    }

    /// The position of the first row with a name.
    pub fn position(&self, name: &str) -> (r: Option<usize>)
        ensures
            r is Some == (position_of(self.rows(), name@) < self.entries.len()),
            r matches Some(i) ==> i == position_of(self.rows(), name@) && i < self.entries.len(),
    {
        let mut i: usize = 0;
        assert(self.rows().skip(0) == self.rows());
        while i < self.entries.len()
            invariant
                i <= self.entries.len(),
                position_of(self.rows(), name@) == i + position_of(self.rows().skip(i as int), name@),
            decreases self.entries.len() - i,
        {
            let ghost rest = self.rows().skip(i as int);
            assert(rest[0] == self.entries[i as int]@);
            assert(rest.drop_first() == self.rows().skip(i + 1));
            if text::same(self.entries[i].name.as_str(), name) {
                return Some(i);
            }
            i += 1;
        }
        None
    }

    /// Goes into a directory: one on disk, or, inside an archive, one of the archive.
    pub fn enter(&mut self, name: &str) -> (r: Focus)
        ensures
            old(self).entered(final(self), name@),
            r@ == FocusView::Keep,
    {
        match &self.archive_location {
            Some(loc) => {
                let mut dir = loc.internal_dir.clone();
                dir.append(name);
                dir.push('/');
                assert(dir@ =~= archive::lower_dir(loc.internal_dir@, name@));
                self.archive_location = Some(
                    ArchiveLocation { archive_path: loc.archive_path.clone(), internal_dir: dir },
                );
            },
            None => {
                self.current_path = self.current_path.join(name);
            },
        }
        Focus::Keep
    }

    /// Opens a ZIP archive as if it were a directory.
    pub fn enter_zip_archive(&mut self, archive_path: DirPath) -> (r: Focus)
        ensures
            old(self).opened_zip(final(self), archive_path@),
            r@ == FocusView::Keep,
    {
        self.archive_location = Some(
            ArchiveLocation { archive_path, internal_dir: String::new() },
        );
        Focus::Keep
    }

    /// Goes to the place above: out of a directory, or out of an archive into the directory
    /// that it lies in. None where there is no place above.
    pub fn go_up(&mut self) -> (r: Option<Focus>)
        ensures
            old(self).gone_up(final(self), r.deep_view()),
    {
        match &self.archive_location {
            Some(loc) => {
                if loc.internal_dir.as_str().unicode_len() == 0 {
                    let name = loc.archive_path.file_name_or_empty();
                    self.archive_location = None;
                    Some(Focus::Name(name))
                } else {
                    let (upper, name) = archive::split_dir(loc.internal_dir.as_str());
                    self.archive_location = Some(
                        ArchiveLocation {
                            archive_path: loc.archive_path.clone(),
                            internal_dir: upper,
                        },
                    );
                    Some(Focus::Name(name))
                }
            },
            None => {
                let came_from = self.current_path.file_name_or_empty();
                match self.current_path.parent() {
                    Some(upper) => {
                        self.current_path = upper;
                        if came_from.as_str().unicode_len() == 0 {
                            Some(Focus::Keep)
                        } else {
                            Some(Focus::Name(came_from))
                        }
                    },
                    None => None,
                }
            },
        }
    }

    /// The path that the address line holds, without blanks around it.
    pub fn typed_path(&self) -> (r: String)
        ensures
            r@ == text::trimmed(self.path_input@),
    {
        text::trim(self.path_input.as_str())
    }

    /// Goes to the path of the address line, of which `probe` is what the file system tells.
    pub fn navigate_to_input(&mut self, probe: &PathProbe) -> (r: Result<Focus, String>)
        ensures
            r is Ok <==> probe.exists && probe.is_dir,
            r matches Ok(focus) ==> focus@ == FocusView::Keep && old(self).moved_to(
                final(self),
                probe.path@,
            ),
            r matches Err(e) ==> *final(self) == *old(self) && e@ == if !probe.exists {
                "Cesta neexistuje nebo není dostupná: "@ + text::trimmed(old(self).path_input@)
            } else {
                "Zadaná cesta není adresář."@
            },
    {
        if !probe.exists {
            let mut e = "Cesta neexistuje nebo není dostupná: ".to_owned();
            let typed = self.typed_path();
            e.append(typed.as_str());
            return Err(e);
        }
        if !probe.is_dir {
            return Err("Zadaná cesta není adresář.".to_owned());
        }
        let _ = self.go_to(&probe.path);
        Ok(Focus::Keep)
    }

    /// Goes to a directory on disk.
    pub fn go_to(&mut self, path: &DirPath) -> (r: Focus)
        ensures
            old(self).moved_to(final(self), path@),
            r@ == FocusView::Keep,
    {
        self.archive_location = None;
        self.current_path = path.clone();
        Focus::Keep
    }

    /// The names of the selected rows.
    pub fn selected_names(&self) -> (r: Vec<String>)
        ensures
            r.deep_view() == names_of(picked(self.rows(), self.selected@)),
    {
        let mut out: Vec<String> = Vec::new();
        let mut i: usize = 0;
        assert(self.selected@.take(0) == Seq::<usize>::empty());
        assert(out.deep_view() =~= names_of(picked(self.rows(), self.selected@.take(0))));
        while i < self.selected.len()
            invariant
                i <= self.selected.len(),
                out.deep_view() == names_of(picked(self.rows(), self.selected@.take(i as int))),
            decreases self.selected.len() - i,
        {
            let ghost before = out.deep_view();
            let at = self.selected[i];
            assert(self.selected@.take(i + 1).drop_last() == self.selected@.take(i as int));
            if at < self.entries.len() {
                out.push(self.entries[at].name.clone());
                assert(out.deep_view() =~= before.push(self.rows()[at as int].name));
                assert(out.deep_view() =~= names_of(
                    picked(self.rows(), self.selected@.take(i + 1)),
                ));
            }
            i += 1;
        }
        assert(self.selected@.take(self.selected.len() as int) == self.selected@);
        out
    }

    /// The paths of the selected rows.
    pub fn selected_paths(&self) -> (r: Vec<DirPath>)
        ensures
            r.deep_view() == paths_in(self.current_path@, picked(self.rows(), self.selected@)),
    {
        let names = self.selected_names();
        self.paths_of(&names, Ghost(picked(self.rows(), self.selected@)))
    }

    /// The paths of names in the panel's directory.
    fn paths_of(&self, names: &Vec<String>, rows: Ghost<Seq<EntryView>>) -> (r: Vec<DirPath>)
        requires
            names.deep_view() == names_of(rows@),
        ensures
            r.deep_view() == paths_in(self.current_path@, rows@),
    {
        let mut out: Vec<DirPath> = Vec::new();
        let mut i: usize = 0;
        assert(names.deep_view().len() == names.len());
        while i < names.len()
            invariant
                i <= names.len(),
                names.len() == rows@.len(),
                names.deep_view() == names_of(rows@),
                out.len() == i,
                forall|k: int|
                    0 <= k < i ==> (#[trigger] out[k])@ == self.current_path@.child(rows@[k].name),
            decreases names.len() - i,
        {
            assert(names[i as int]@ == names.deep_view()[i as int]);
            out.push(self.current_path.join(names[i].as_str()));
            i += 1;
        }
        assert(out.deep_view() =~= paths_in(self.current_path@, rows@));
        out
    }

    /// The names of the selected rows, or of the one at the cursor where none is selected.
    pub fn effective_names(&self) -> (r: Vec<String>)
        requires
            self.sized(),
        ensures
            r.deep_view() == names_of(self.effective_rows()),
    {
        let selected = self.selected_names();
        assert(selected.deep_view().len() == selected.len());
        if selected.len() > 0 {
            return selected;
        }
        let mut out: Vec<String> = Vec::new();
        match self.entry_index_at_cursor() {
            Some(i) => {
                if i < self.entries.len() {
                    out.push(self.entries[i].name.clone());
                }
            },
            None => {},
        }
        assert(out.deep_view() =~= names_of(self.effective_rows()));
        out
    }

    /// The paths of the selected rows, or of the one at the cursor where none is selected.
    pub fn effective_paths(&self) -> (r: Vec<DirPath>)
        requires
            self.sized(),
        ensures
            r.deep_view() == paths_in(self.current_path@, self.effective_rows()),
    {
        let names = self.effective_names();
        self.paths_of(&names, Ghost(self.effective_rows()))
    }

    /// How many rows there are, with the row `..`.
    pub fn total_rows(&self) -> (r: usize)
        requires
            self.sized(),
        ensures
            r == self.row_count(),
    {
        self.entries.len() + self.up_offset()
    }

    /// How many rows stand above the listing.
    pub fn up_offset(&self) -> (r: usize)
        ensures
            r == self.offset(),
    {
        if self.can_go_up() {
            1
        } else {
            0
        }
    }

    /// The position in the listing that the cursor stands on: none on the row `..`.
    pub fn entry_index_at_cursor(&self) -> (r: Option<usize>)
        ensures
            r == self.at_cursor(),
    {
        let offset = self.up_offset();
        if self.cursor < offset {
            None
        } else {
            Some(self.cursor - offset)
        }
    }

    /// The row that the cursor stands on.
    pub fn entry_at_cursor(&self) -> (r: Option<&FileEntry>)
        ensures
            r.deep_view() == self.row_at_cursor(),
    {
        match self.entry_index_at_cursor() {
            Some(i) => {
                if i < self.entries.len() {
                    Some(&self.entries[i])
                } else {
                    None
                }
            },
            None => None,
        }
    }

    /// Moves the cursor by some rows, within the rows that there are.
    pub fn move_cursor(&mut self, delta: isize)
        requires
            old(self).sized(),
        ensures
            old(self).stepped(final(self), delta as int),
    {
        let total = self.total_rows();
        if total == 0 {
            return;
        }
        if delta >= 0 {
            let ahead = delta as usize;
            self.cursor = if ahead < total && self.cursor < total - ahead {
                self.cursor + ahead
            } else {
                total - 1
            };
        } else {
            let back: usize = (-(delta + 1)) as usize + 1;
            self.cursor = if self.cursor < back {
                0
            } else if self.cursor - back >= total {
                total - 1
            } else {
                self.cursor - back
            };
        }
        self.cursor_moved = true;
    }

    /// Moves the cursor to the first row.
    pub fn move_cursor_to_start(&mut self)
        ensures
            *final(self) == (Panel { cursor: 0, cursor_moved: true, ..*old(self) }),
    {
        self.cursor = 0;
        self.cursor_moved = true;
    }

    /// Moves the cursor to the last row, where there is one.
    pub fn move_cursor_to_end(&mut self)
        requires
            old(self).sized(),
        ensures
            old(self).at_end(final(self)),
    {
        let total = self.total_rows();
        if total > 0 {
            self.cursor = total - 1;
            self.cursor_moved = true;
        }
    }

    /// Selects the row at the cursor, or takes it out of the selection. The cursor stays.
    pub fn toggle_selection_at_cursor(&mut self)
        ensures
            old(self).toggled_here(final(self)),
    {
        if let Some(i) = self.entry_index_at_cursor() {
            if holds(&self.selected, i) {
                self.selected = take_out(&self.selected, i);
            } else {
                self.selected.push(i);
            }
        }
    }

    /// Whether the row at a position is selected.
    pub fn is_selected(&self, i: usize) -> (r: bool)
        ensures
            r == self.selected@.contains(i),
    {
        holds(&self.selected, i)
    }

    /// Selects every row.
    pub fn select_all(&mut self)
        ensures
            *final(self) == (Panel { selected: final(self).selected, ..*old(self) }),
            final(self).selected@ == all_positions(old(self).entries@.len()),
    {
        let n = self.entries.len();
        let mut all: Vec<usize> = Vec::new();
        let mut i: usize = 0;
        while i < n
            invariant
                i <= n,
                all@ == all_positions(i as nat),
            decreases n - i,
        {
            all.push(i);
            assert(all_positions((i + 1) as nat) =~= all_positions(i as nat).push(i));
            i += 1;
        }
        self.selected = all;
    }

    /// Selects nothing.
    pub fn deselect_all(&mut self)
        ensures
            *final(self) == (Panel { selected: final(self).selected, ..*old(self) }),
            final(self).selected@.len() == 0,
    {
        self.selected = Vec::new();
    }

    /// Adds the rows whose names fit a mask to the selection, or takes them out. The mask is
    /// in lower case.
    pub fn apply_mask(&mut self, mask: &str, adding: bool)
        ensures
            *final(self) == (Panel { selected: final(self).selected, ..*old(self) }),
            final(self).selected@ == masked(
                old(self).selected@,
                old(self).rows(),
                mask@,
                adding,
                old(self).entries@.len() as int,
            ),
    {
        let ghost start = self.selected@;
        let mut i: usize = 0;
        while i < self.entries.len()
            invariant
                i <= self.entries.len(),
                *self == (Panel { selected: self.selected, ..*old(self) }),
                start == old(self).selected@,
                self.selected@ == masked(start, self.rows(), mask@, adding, i as int),
            decreases self.entries.len() - i,
        {
            let name = text::to_lower(self.entries[i].name.as_str());
            assert(self.rows()[i as int].name == self.entries[i as int].name@);
            if glob::glob_match(mask, name.as_str()) {
                if adding {
                    if !holds(&self.selected, i) {
                        self.selected.push(i);
                    }
                } else {
                    self.selected = take_out(&self.selected, i);
                }
            }
            i += 1;
        }
    }

    /// Enter on the row at the cursor: `..` leads up, a directory and a ZIP archive are gone
    /// into, any other file is opened by the system. A file inside an archive stays closed.
    pub fn activate_cursor(&mut self) -> (r: Option<CursorAction>)
        ensures
            old(self).activated(final(self), r.deep_view()),
    {
        if self.entry_index_at_cursor().is_none() {
            return match self.go_up() {
                Some(focus) => {
                    assert(old(self).gone_up(self, Some(focus@)));
                    Some(CursorAction::Reload(focus))
                },
                None => {
                    assert(old(self).gone_up(self, None));
                    None
                },
            };
        }
        let row = match self.entry_at_cursor() {
            Some(row) => row.clone(),
            None => {
                return None;
            },
        };
        if row.is_dir {
            let focus = self.enter(row.name.as_str());
            return Some(CursorAction::Reload(focus));
        }
        if self.archive_location.is_some() {
            return None;
        }
        let path = self.current_path.join(row.name.as_str());
        if row.is_archive {
            let name = path.file_name_or_empty();
            let ext = entry::lower_extension_of(name.as_str());
            if text::same(ext.as_str(), "zip") {
                let focus = self.enter_zip_archive(path);
                return Some(CursorAction::Reload(focus));
            }
        }
        Some(CursorAction::OpenExternal(path))
    }

    /// A click on a row puts the cursor on it.
    pub fn click_row(&mut self, i: usize)
        requires
            old(self).sized(),
            i < old(self).entries.len(),
        ensures
            *final(self) == (Panel { cursor: (i + old(self).offset()) as usize, ..*old(self) }),
    {
        self.cursor = i + self.up_offset();
    }

    /// Dragging a row that is not selected makes it the selection.
    pub fn drag_row(&mut self, i: usize)
        ensures
            *final(self) == (Panel { selected: final(self).selected, ..*old(self) }),
            final(self).selected@ == if old(self).selected@.contains(i) {
                old(self).selected@
            } else {
                seq![i]
            },
    {
        if !holds(&self.selected, i) {
            let mut only: Vec<usize> = Vec::new();
            only.push(i);
            self.selected = only;
            assert(self.selected@ =~= seq![i]);
        }
    }

    /// A double click on a row: a directory and a ZIP archive are gone into, any other file
    /// is opened by the system. A file inside an archive stays closed.
    pub fn double_click_row(&mut self, i: usize) -> (r: Option<CursorAction>)
        requires
            old(self).sized(),
            i < old(self).entries.len(),
        ensures
            old(self).double_clicked(final(self), i as int, r.deep_view()),
    {
        self.cursor = i + self.up_offset();
        let row = self.entries[i].clone();
        assert(old(self).rows()[i as int] == row@);
        if row.is_dir {
            let focus = self.enter(row.name.as_str());
            return Some(CursorAction::Reload(focus));
        }
        if self.archive_location.is_some() {
            return None;
        }
        let path = self.current_path.join(row.name.as_str());
        if row.is_archive && text::same(row.ext.as_str(), "zip") {
            let focus = self.enter_zip_archive(path);
            return Some(CursorAction::Reload(focus));
        }
        Some(CursorAction::OpenExternal(path))
    }

    /// A click on a column's head orders the listing by it; a second one turns the order
    /// round. The listing has to be read again.
    pub fn sort_by(&mut self, col: SortColumn) -> (r: Focus)
        ensures
            old(self).reordered(final(self), col),
            r@ == FocusView::Keep,
    {
        if self.sort_col == col {
            self.sort_dir = if self.sort_dir == SortDir::Asc {
                SortDir::Desc
            } else {
                SortDir::Asc
            };
        } else {
            self.sort_col = col;
            self.sort_dir = SortDir::Asc;
        }
        Focus::Keep
    }

    /// Starts to rename the row at the cursor in place. Inside an archive, and without a row
    /// at the cursor, nothing happens.
    pub fn begin_rename(&mut self)
        ensures
            old(self).rename_begun(final(self)),
    {
        if self.archive_location.is_some() {
            return;
        }
        let i = match self.entry_index_at_cursor() {
            Some(i) => i,
            None => {
                return;
            },
        };
        if i < self.entries.len() {
            self.inline_rename_buf = self.entries[i].name.clone();
            self.inline_rename_idx = Some(i);
        }
    }

    /// Ends renaming in place with what was typed. The file is to be renamed where the new
    /// name is not empty and not the old one.
    pub fn finish_rename(&mut self) -> (r: Option<RenameRequest>)
        ensures
            match old(self).inline_rename_idx {
                Some(i) if i < old(self).entries.len() => {
                    let old_name = old(self).rows()[i as int].name;
                    let new_name = old(self).inline_rename_buf@;
                    &&& *final(self) == (Panel { inline_rename_idx: None, ..*old(self) })
                    &&& r is Some == (new_name.len() > 0 && new_name != old_name)
                    &&& r matches Some(q) ==> q.dir@ == old(self).current_path@ && q.old_name@
                        == old_name && q.new_name@ == new_name
                },
                _ => *final(self) == *old(self) && r is None,
            },
    {
        let i = match self.inline_rename_idx {
            Some(i) => i,
            None => {
                return None;
            },
        };
        if i >= self.entries.len() {
            return None;
        }
        self.inline_rename_idx = None;
        let old_name = self.entries[i].name.clone();
        assert(old(self).rows()[i as int].name == old_name@);
        let new_name = self.inline_rename_buf.clone();
        if new_name.as_str().unicode_len() > 0 && !text::same(
            new_name.as_str(),
            old_name.as_str(),
        ) {
            Some(RenameRequest { dir: self.current_path.clone(), old_name, new_name })
        } else {
            None
        }
    }

    /// Ends renaming in place without a change.
    pub fn cancel_rename(&mut self)
        ensures
            *final(self) == (Panel { inline_rename_idx: None, ..*old(self) }),
    {
        self.inline_rename_idx = None;
    }

    /// The selected directories whose size has not been counted.
    pub fn uncounted_dirs(&self) -> (r: Vec<DirPath>)
        ensures
            r.deep_view() == uncounted(self.current_path@, picked(self.rows(), self.selected@)),
    {
        let mut out: Vec<DirPath> = Vec::new();
        let mut i: usize = 0;
        assert(self.selected@.take(0) == Seq::<usize>::empty());
        assert(out.deep_view() =~= uncounted(
            self.current_path@,
            picked(self.rows(), self.selected@.take(0)),
        ));
        while i < self.selected.len()
            invariant
                i <= self.selected.len(),
                out.deep_view() == uncounted(
                    self.current_path@,
                    picked(self.rows(), self.selected@.take(i as int)),
                ),
            decreases self.selected.len() - i,
        {
            let ghost before = out.deep_view();
            let ghost chosen = picked(self.rows(), self.selected@.take(i as int));
            let at = self.selected[i];
            assert(self.selected@.take(i + 1).drop_last() == self.selected@.take(i as int));
            if at < self.entries.len() {
                proof {
                    let row = self.rows()[at as int];
                    assert(row == self.entries[at as int]@);
                    assert(chosen.push(row).drop_last() == chosen);
                }
                if self.entries[at].is_dir && self.entries[at].dir_size.is_none() {
                    let p = self.current_path.join(self.entries[at].name.as_str());
                    out.push(p);
                    assert(out.deep_view() =~= before.push(p@));
                }
            }
            i += 1;
        }
        assert(self.selected@.take(self.selected.len() as int) == self.selected@);
        out
    }

    /// Takes in the size of everything below a directory.
    pub fn set_dir_size(&mut self, path: &DirPath, size: u64)
        ensures
            *final(self) == (Panel { entries: final(self).entries, ..*old(self) }),
            final(self).rows() == counted(old(self).current_path@, old(self).rows(), path@, size),
    {
        let ghost all = self.rows();
        let mut out: Vec<FileEntry> = Vec::new();
        let mut i: usize = 0;
        while i < self.entries.len()
            invariant
                i <= self.entries.len(),
                all == self.rows(),
                out.len() == i,
                forall|k: int|
                    0 <= k < i ==> (#[trigger] out[k])@ == counted(
                        self.current_path@,
                        all,
                        path@,
                        size,
                    )[k],
            decreases self.entries.len() - i,
        {
            let mut row = self.entries[i].clone();
            assert(all[i as int] == row@);
            let here = self.current_path.join(row.name.as_str());
            if row.is_dir && here.same(path) {
                row.dir_size = Some(size);
            }
            out.push(row);
            i += 1;
        }
        self.entries = out;
        assert(self.rows() =~= counted(old(self).current_path@, all, path@, size));
    }
}

/// What is chosen is picked in the order in which it was chosen; positions behind the last row
/// pick nothing.
pub proof fn picked_one_by_one(rows: Seq<EntryView>, selected: Seq<usize>, x: usize)
    ensures
        picked(rows, Seq::<usize>::empty()).len() == 0,
        x < rows.len() ==> picked(rows, selected + seq![x]) == picked(rows, selected) + seq![
            rows[x as int],
        ],
        x >= rows.len() ==> picked(rows, selected + seq![x]) == picked(rows, selected),
{
    assert((selected + seq![x]).drop_last() =~= selected);
    if x < rows.len() {
        let front = picked(rows, selected);
        assert(front.push(rows[x as int]) =~= front + seq![rows[x as int]]);
    }
}

/// Exactly the rows at the chosen positions are picked.
pub proof fn picked_are_chosen(rows: Seq<EntryView>, selected: Seq<usize>, row: EntryView)
    ensures
        picked(rows, selected).contains(row) <==> exists|i: int|
            0 <= i < selected.len() && #[trigger] selected[i] < rows.len()
                && rows[selected[i] as int] == row,
    decreases selected.len(),
{
    if selected.len() > 0 {
        let front = selected.drop_last();
        let x = selected.last();
        assert(selected =~= front + seq![x]);
        picked_are_chosen(rows, front, row);
        picked_one_by_one(rows, front, x);
        if picked(rows, selected).contains(row) {
            let k = choose|k: int|
                0 <= k < picked(rows, selected).len() && picked(rows, selected)[k] == row;
            if k < picked(rows, front).len() {
                assert(picked(rows, front)[k] == row);
                assert(picked(rows, front).contains(row));
                let i = choose|i: int|
                    0 <= i < front.len() && #[trigger] front[i] < rows.len()
                        && rows[front[i] as int] == row;
                assert(selected[i] == front[i]);
            } else {
                assert(selected[selected.len() - 1] == x);
            }
        }
        if exists|i: int|
            0 <= i < selected.len() && #[trigger] selected[i] < rows.len()
                && rows[selected[i] as int] == row {
            let i = choose|i: int|
                0 <= i < selected.len() && #[trigger] selected[i] < rows.len()
                    && rows[selected[i] as int] == row;
            if i < front.len() {
                assert(front[i] == selected[i]);
                let k = choose|k: int|
                    0 <= k < picked(rows, front).len() && picked(rows, front)[k] == row;
                assert(picked(rows, selected)[k] == row);
            } else {
                let last = picked(rows, selected).len() - 1;
                assert(picked(rows, selected)[last] == row);
            }
        }
    }
}

/// An operation works on what is chosen; where nothing is, on the row at the cursor, and on
/// nothing where the cursor stands on the way up.
pub proof fn works_on_choice_or_cursor(p: Panel, i: int)
    requires
        p.wf(),
    ensures
        0 <= i < p.selected@.len() && p.selected@[i] < p.entries@.len() ==> p.effective_rows()
            == picked(p.rows(), p.selected@),
        p.selected@.len() == 0 && p.has_upper() && p.cursor == 0 ==> p.effective_rows().len() == 0,
        p.selected@.len() == 0 && 0 <= i < p.entries@.len() && p.cursor == i + p.offset()
            ==> p.effective_rows() == seq![p.rows()[i]],
{
    if 0 <= i < p.selected@.len() && p.selected@[i] < p.entries@.len() {
        let row = p.rows()[p.selected@[i] as int];
        picked_are_chosen(p.rows(), p.selected@, row);
        assert(picked(p.rows(), p.selected@).contains(row));
        assert(picked(p.rows(), p.selected@).len() > 0);
    }
}

/// The position of a name is that of the first row that has it, and behind the last row where
/// none has.
pub proof fn position_is_the_first(rows: Seq<EntryView>, name: Seq<char>)
    ensures
        0 <= position_of(rows, name) <= rows.len(),
        position_of(rows, name) < rows.len() ==> rows[position_of(rows, name)].name == name,
        forall|k: int| 0 <= k < position_of(rows, name) ==> (#[trigger] rows[k]).name != name,
    decreases rows.len(),
{
    if rows.len() > 0 && rows[0].name != name {
        let rest = rows.drop_first();
        position_is_the_first(rest, name);
        assert forall|k: int| 0 <= k < position_of(rows, name) implies (#[trigger] rows[k]).name
            != name by {
            if k > 0 {
                assert(rest[k - 1] == rows[k]);
            }
        }
    }
}

/// A name that is listed is found: the cursor stands on the first row with that name afterwards,
/// and where the name is to be chosen, that row alone is.
pub proof fn focus_finds_the_name(before: Panel, after: Panel, name: Seq<char>, k: int)
    requires
        before.wf(),
        0 <= k < before.rows().len(),
        before.rows()[k].name == name,
    ensures
        before.focused(&after, FocusView::Name(name)) || before.focused(
            &after,
            FocusView::Select(name),
        ) ==> {
            &&& after.row_at_cursor() is Some
            &&& after.row_at_cursor()->0.name == name
            &&& after.rows() == before.rows()
        },
        before.focused(&after, FocusView::Select(name)) ==> {
            &&& after.selected@.len() == 1
            &&& Some(after.selected@[0]) == after.at_cursor()
        },
{
    position_is_the_first(before.rows(), name);
    let at = position_of(before.rows(), name);
    assert(at <= k);
}

/// A name that is not listed leaves the cursor where it is; the top is the first row.
pub proof fn focus_keeps_otherwise(before: Panel, after: Panel, name: Seq<char>)
    requires
        forall|k: int| 0 <= k < before.rows().len() ==> (#[trigger] before.rows()[k]).name != name,
    ensures
        before.focused(&after, FocusView::Name(name)) ==> after == before,
        before.focused(&after, FocusView::Select(name)) ==> after == before,
        before.focused(&after, FocusView::Keep) ==> after == before,
        before.focused(&after, FocusView::Top) ==> after.cursor == 0 && after.rows()
            == before.rows(),
{
    position_is_the_first(before.rows(), name);
}

/// All positions are those of the rows, each once and in their order.
pub proof fn all_are_chosen(n: nat, i: int)
    requires
        n <= usize::MAX,
    ensures
        all_positions(n).len() == n,
        0 <= i < n ==> all_positions(n)[i] == i,
{
}

/// With everything chosen, every row is picked, in the order of the rows.
pub proof fn choosing_all_picks_all(rows: Seq<EntryView>)
    requires
        rows.len() <= usize::MAX,
    ensures
        picked(rows, all_positions(rows.len())) == rows,
{
    lemma_pick_first(rows, rows.len());
    assert(rows.take(rows.len() as int) =~= rows);
}

proof fn lemma_pick_first(rows: Seq<EntryView>, n: nat)
    requires
        n <= rows.len() <= usize::MAX,
    ensures
        picked(rows, all_positions(n)) == rows.take(n as int),
    decreases n,
{
    if n == 0 {
        assert(picked(rows, all_positions(n)) =~= rows.take(0));
    } else {
        let m = (n - 1) as nat;
        lemma_pick_first(rows, m);
        assert(all_positions(n).drop_last() =~= all_positions(m));
        assert(rows.take(m as int).push(rows[m as int]) =~= rows.take(n as int));
    }
}

/// The directories still to be counted are those without a count, in the order of the rows.
pub proof fn uncounted_row_by_row(dir: PathView, rows: Seq<EntryView>, row: EntryView)
    ensures
        uncounted(dir, Seq::<EntryView>::empty()).len() == 0,
        row.is_dir && row.dir_size is None ==> uncounted(dir, rows + seq![row]) == uncounted(
            dir,
            rows,
        ) + seq![dir.child(row.name)],
        !row.is_dir || row.dir_size is Some ==> uncounted(dir, rows + seq![row]) == uncounted(
            dir,
            rows,
        ),
{
    assert((rows + seq![row]).drop_last() =~= rows);
    let front = uncounted(dir, rows);
    assert(front.push(dir.child(row.name)) =~= front + seq![dir.child(row.name)]);
}

/// A count goes to the directory that it was made of, and to no other row.
pub proof fn count_goes_to_its_directory(
    dir: PathView,
    rows: Seq<EntryView>,
    path: PathView,
    size: u64,
    i: int,
)
    requires
        0 <= i < rows.len(),
    ensures
        counted(dir, rows, path, size).len() == rows.len(),
        rows[i].is_dir && dir.child(rows[i].name) == path ==> {
            let row = counted(dir, rows, path, size)[i];
            row.dir_size == Some(size) && row == (EntryView { dir_size: Some(size), ..rows[i] })
        },
        !rows[i].is_dir || dir.child(rows[i].name) != path ==> counted(dir, rows, path, size)[i]
            == rows[i],
{
}

/// The cursor goes as far as asked, and no further than the first and the last row; a step back
/// from within undoes a step.
pub proof fn steps_within_the_rows(before: Panel, after: Panel, back: Panel, delta: int)
    requires
        before.wf(),
        before.row_count() > 0,
        before.stepped(&after, delta),
        after.stepped(&back, -delta),
    ensures
        0 <= after.cursor < before.row_count(),
        0 <= before.cursor + delta < before.row_count() ==> after.cursor == before.cursor + delta
            && back.cursor == before.cursor,
        before.cursor + delta < 0 ==> after.cursor == 0,
        before.cursor + delta >= before.row_count() ==> after.cursor == before.row_count() - 1,
        after.rows() == before.rows(),
        after.selected@ == before.selected@,
{
}

/// The end is the last row.
pub proof fn end_is_the_last_row(before: Panel, after: Panel)
    requires
        before.wf(),
        before.row_count() > 0,
        before.at_end(&after),
    ensures
        after.cursor == before.row_count() - 1,
        after.rows() == before.rows(),
        before.entries@.len() > 0 ==> after.row_at_cursor() == Some(before.rows().last()),
{
}

/// Choosing at the cursor chooses the row there, or gives it up again, and no other; on the way
/// up there is nothing to choose.
pub proof fn choice_at_the_cursor(before: Panel, after: Panel, y: usize)
    requires
        before.wf(),
        before.toggled_here(&after),
    ensures
        before.has_upper() && before.cursor == 0 ==> after.selected@ == before.selected@,
        before.cursor == y + before.offset() ==> (after.selected@.contains(y)
            <==> !before.selected@.contains(y)),
        before.cursor != y + before.offset() ==> (after.selected@.contains(y)
            <==> before.selected@.contains(y)),
        after.cursor == before.cursor,
        after.rows() == before.rows(),
{
    match before.at_cursor() {
        Some(i) => {
            toggled_changes_one(before.selected@, i);
        },
        None => {},
    }
}

/// A column that is asked for again turns its order round; another one starts ascending.
pub proof fn columns_turn_round(before: Panel, once: Panel, twice: Panel, col: SortColumn)
    requires
        before.reordered(&once, col),
        once.reordered(&twice, col),
    ensures
        once.sort_col == col,
        twice.sort_col == col,
        before.sort_col != col ==> once.sort_dir == SortDir::Asc && twice.sort_dir
            == SortDir::Desc,
        before.sort_col == col ==> once.sort_dir != before.sort_dir && twice.sort_dir
            == before.sort_dir,
        once.rows() == before.rows(),
        once.cursor == before.cursor,
{
}

/// A directory that was read again shows the rows of its files, sorted as the panel sorts, with
/// nothing chosen and the cursor where it was, or on the last row where there are fewer.
pub proof fn directory_is_shown(before: Panel, after: Panel, listing: Listing)
    requires
        before.refreshed(&after, listing),
    ensures
        listing matches Listing::Directory(Some(items)) ==> {
            &&& after.rows().to_multiset() == entry::rows_of(
                items.deep_view(),
                before.show_hidden,
            ).to_multiset()
            &&& sort::in_order(after.rows(), before.sort_col, before.sort_dir, before.dir_sort)
        },
        listing matches Listing::Directory(None) ==> after.rows().len() == 0,
        listing matches Listing::Archive(Err(e)) ==> after.rows().len() == 0
            && after.error.deep_view() == Some(e@),
        after.selected@.len() == 0,
        before.cursor < after.row_count() ==> after.cursor == before.cursor,
        before.cursor >= after.row_count() > 0 ==> after.cursor == after.row_count() - 1,
        after.row_count() == 0 ==> after.cursor == 0,
        after.current_path == before.current_path,
        after.archive_location == before.archive_location,
{
    if let Listing::Directory(Some(items)) = listing {
        let rows = entry::rows_of(items.deep_view(), before.show_hidden);
        sort::sorted_keeps_rows(rows, before.sort_col, before.sort_dir, before.dir_sort);
        sort::sorted_in_order(rows, before.sort_col, before.sort_dir, before.dir_sort);
    }
}

/// The address is the path, with a backslash behind a bare drive; in an archive it is the path
/// of the archive and the directory in it.
pub proof fn address_tells_where(p: Panel, drive: Seq<char>)
    ensures
        p.archive_location matches Some(loc) ==> p.address() == loc.archive_path@.text() + seq![
            ':',
            ':',
            '/',
        ] + loc.internal_dir@,
        p.archive_location is None && p.current_path@.text() == drive + seq![':'] ==> p.address()
            == drive + seq![':', '\\'],
        p.archive_location is None && (p.current_path@.text().len() == 0
            || p.current_path@.text().last() != ':') ==> p.address() == p.current_path@.text(),
{
    reveal_strlit("::/");
    reveal_strlit("\\");
    assert("::/"@ =~= seq![':', ':', '/']);
    assert("\\"@ =~= seq!['\\']);
    let t = p.current_path@.text();
    text::ends_by_parting(t, seq![':']);
    if t == drive + seq![':'] {
        assert(t + "\\"@ =~= drive + seq![':', '\\']);
    }
    if text::ends_with(t, seq![':']) {
        let a = choose|a: Seq<char>| t == #[trigger] (a + seq![':']);
        assert(t.last() == ':');
    }
}

/// A double click on a row does what the cursor on that row does when it is activated.
pub proof fn double_click_activates(p: Panel, after: Panel, i: int, action: Option<ActionView>)
    requires
        p.wf(),
        0 <= i < p.entries@.len(),
        p.cursor == i + p.offset(),
        p.rows()[i].name.len() > 0,
        !crate::path::is_dots(p.rows()[i].name),
        crate::path::is_plain(p.rows()[i].name, p.current_path@.sep),
        !p.rows()[i].is_dir ==> p.rows()[i].ext == entry::lower_extension(p.rows()[i].name),
    ensures
        p.double_clicked(&after, i, action) <==> p.activated(&after, action),
{
    let row = p.rows()[i];
    crate::path::child_has_name(p.current_path@, row.name);
    assert(p.at_cursor() == Some(i as usize));
    assert(p.row_at_cursor() == Some(row));
    assert(Panel { cursor: (i + p.offset()) as usize, ..p } == p);
}

/// What an activated row leads to: a directory is entered, a zip archive is opened like one, any
/// other file goes to its program; in an archive files stay where they are.
pub proof fn activation_by_kind(p: Panel, after: Panel, action: Option<ActionView>, row: EntryView)
    requires
        p.activated(&after, action),
        p.row_at_cursor() == Some(row),
        p.cursor >= p.offset(),
    ensures
        row.is_dir && p.archive_location is None ==> after.current_path@ == p.current_path@.child(
            row.name,
        ) && action == Some(ActionView::Reload(FocusView::Keep)),
        row.is_dir && p.archive_location is Some ==> after.archive_location is Some
            && after.archive_location->0.internal_dir@ == p.archive_location->0.internal_dir@
            + row.name + seq!['/'],
        !row.is_dir && p.archive_location is Some ==> after == p && action is None,
        !row.is_dir && p.archive_location is None && !row.is_archive ==> after == p && action
            == Some(ActionView::OpenExternal(p.current_path@.child(row.name))),
        !row.is_dir && p.archive_location is None && action is Some && action->0 is Reload ==> {
            &&& after.archive_location is Some
            &&& after.archive_location->0.archive_path@ == p.current_path@.child(row.name)
            &&& after.archive_location->0.internal_dir@.len() == 0
        },
{
}

/// The way up: from the top of an archive out of it, in an archive to the directory above, else
/// to the parent; at a root there is none.
pub proof fn way_up(p: Panel, after: Panel, focus: Option<FocusView>)
    requires
        p.gone_up(&after, focus),
    ensures
        p.archive_location is None && p.current_path@.parent() is None ==> after == p && focus
            is None,
        p.archive_location is None && p.current_path@.parent() is Some ==> {
            &&& Some(after.current_path@) == p.current_path@.parent()
            &&& after.archive_location is None
            &&& p.current_path@.name_or_empty().len() > 0 ==> focus == Some(
                FocusView::Name(p.current_path@.name_or_empty()),
            )
        },
        p.archive_location matches Some(loc) && loc.internal_dir@.len() == 0 ==> {
            &&& after.archive_location is None
            &&& after.current_path == p.current_path
        },
        p.archive_location matches Some(loc) && loc.internal_dir@.len() > 0
            ==> after.archive_location is Some,
        focus is None <==> !p.has_upper(),
{
}

/// A file is renamed in place under its own name, outside archives only.
pub proof fn renaming_starts_with_the_name(p: Panel, after: Panel)
    requires
        p.rename_begun(&after),
    ensures
        p.row_at_cursor() is Some && p.archive_location is None ==> {
            &&& after.inline_rename_idx == p.at_cursor()
            &&& after.inline_rename_buf@ == p.row_at_cursor()->0.name
        },
        p.row_at_cursor() is None || p.archive_location is Some ==> after == p,
{
}

/// A zip archive is opened in the panel, whatever the case of its ending.
pub proof fn zip_archives_open(p: Panel, after: Panel, action: Option<ActionView>, row: EntryView)
    requires
        p.activated(&after, action),
        p.row_at_cursor() == Some(row),
        p.cursor >= p.offset(),
        p.archive_location is None,
        !row.is_dir,
        row.is_archive,
        row.name.len() > 0,
        !crate::path::is_dots(row.name),
        crate::path::is_plain(row.name, p.current_path@.sep),
    ensures
        entry::lower_extension(row.name) == "zip"@ ==> {
            &&& action == Some(ActionView::Reload(FocusView::Keep))
            &&& after.archive_location is Some
            &&& after.archive_location->0.archive_path@ == p.current_path@.child(row.name)
            &&& after.archive_location->0.internal_dir@.len() == 0
        },
        entry::lower_extension(row.name) != "zip"@ ==> action == Some(
            ActionView::OpenExternal(p.current_path@.child(row.name)),
        ),
{
    crate::path::child_has_name(p.current_path@, row.name);
}

/// The names of rows are those of the rows, in their order.
pub proof fn names_row_by_row(rows: Seq<EntryView>, dir: PathView, i: int)
    requires
        0 <= i < rows.len(),
    ensures
        names_of(rows).len() == rows.len(),
        names_of(rows)[i] == rows[i].name,
        paths_in(dir, rows).len() == rows.len(),
        paths_in(dir, rows)[i] == dir.child(rows[i].name),
{
}

} // verus!
