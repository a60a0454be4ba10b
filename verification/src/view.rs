//! What the window shows: the status line, the rows and the path of a panel, and totals.

use crate::entry::{EntryView, FileEntry, SortColumn, SortDir};
use crate::file_op;
use crate::number;
use crate::panel::{self, Panel};
use crate::path::{self, DirPath, PathView};
use crate::text;
use vstd::prelude::*;

verus! {

broadcast use vstd::string::group_string_axioms;

// ---------------------------------------------------------------------------
// Status
// ---------------------------------------------------------------------------

/// A message of the status line.
#[derive(Debug)]
pub enum StatusMsg {
    /// A success, or something to know.
    Info(String),
    /// A warning.
    Warn(String),
    /// A failure.
    Error(String),
}

/// What a message is.
#[verifier::ext_equal]
pub enum StatusView {
    Info(Seq<char>),
    Warn(Seq<char>),
    Error(Seq<char>),
}

impl View for StatusMsg {
    type V = StatusView;

    open spec fn view(&self) -> StatusView {
        match *self {
            StatusMsg::Info(s) => StatusView::Info(s@),
            StatusMsg::Warn(s) => StatusView::Warn(s@),
            StatusMsg::Error(s) => StatusView::Error(s@),
        }
    }
}

impl DeepView for StatusMsg {
    type V = StatusView;

    open spec fn deep_view(&self) -> StatusView {
        self.view()
    }
}

impl StatusView {
    /// The text of the message.
    pub open spec fn text(self) -> Seq<char> {
        match self {
            StatusView::Info(s) => s,
            StatusView::Warn(s) => s,
            StatusView::Error(s) => s,
        }
    }
}

impl StatusMsg {
    /// The text of the message.
    pub fn text(&self) -> (r: &str)
        ensures
            r@ == self@.text(),
    {
        match self {
            StatusMsg::Info(s) => s.as_str(),
            StatusMsg::Warn(s) => s.as_str(),
            StatusMsg::Error(s) => s.as_str(),
        }
    }

    /// The red, green and blue parts of the message's colour: green for what is well, yellow
    /// for a warning, red for a failure.
    pub fn color(&self) -> (r: (u8, u8, u8))
        ensures
            r == match self@ {
                StatusView::Info(_) => (100u8, 220u8, 120u8),
                StatusView::Warn(_) => (255u8, 200u8, 50u8),
                StatusView::Error(_) => (255u8, 70u8, 70u8),
            },
    {
        match self {
            StatusMsg::Info(_) => (100, 220, 120),
            StatusMsg::Warn(_) => (255, 200, 50),
            StatusMsg::Error(_) => (255, 70, 70),
        }
    }
}

// ---------------------------------------------------------------------------
// Icons
// ---------------------------------------------------------------------------

/// The signs in front of rows and on buttons.
pub struct Icons;

impl Icons {
    /// The sign of a directory.
    pub fn folder() -> (r: &'static str)
        ensures
            r@ == "\u{1F4C1}"@,
    {
        "\u{1F4C1}"
    }

    /// The sign of a file.
    pub fn file() -> (r: &'static str)
        ensures
            r@ == "\u{1F4C4}"@,
    {
        "\u{1F4C4}"
    }

    /// The sign of an archive.
    pub fn archive() -> (r: &'static str)
        ensures
            r@ == "\u{1F4E6}"@,
    {
        "\u{1F4E6}"
    }

    /// The sign of the place above.
    pub fn up() -> (r: &'static str)
        ensures
            r@ == "\u{2B06}"@,
    {
        "\u{2B06}"
    }

    /// The sign of bookmarks.
    pub fn bookmark() -> (r: &'static str)
        ensures
            r@ == "\u{2605}"@,
    {
        "\u{2605}"
    }
}

// ---------------------------------------------------------------------------
// Rows
// ---------------------------------------------------------------------------

/// The cells of a row, but for its date.
#[derive(Debug)]
pub struct RowCells {
    pub icon: &'static str,
    pub stem: String,
    pub ext: String,
    pub size: String,
    pub attr: &'static str,
    pub selected: bool,
    pub cursor: bool,
}

/// The sign in front of a row.
pub open spec fn icon_of(row: EntryView) -> Seq<char> {
    if row.is_dir {
        "\u{1F4C1}"@
    } else if row.is_archive {
        "\u{1F4E6}"@
    } else {
        "\u{1F4C4}"@
    }
}

/// The name column: the name without its extension, where the extension is shown beside it.
pub open spec fn shown_stem(row: EntryView) -> Seq<char> {
    let ending = "."@ + row.ext;
    if !row.is_dir && row.ext.len() > 0 && text::ends_with(row.name, ending) {
        row.name.take(row.name.len() - ending.len())
    } else {
        row.name
    }
}

/// The size column: that of a directory only where it was counted.
pub open spec fn shown_size(row: EntryView) -> Seq<char> {
    if row.is_dir {
        match row.dir_size {
            Some(n) => number::size_text(n as nat),
            None => seq![],
        }
    } else {
        number::size_text(row.size as nat)
    }
}

/// What stands behind a name that ends in a dot and its extension is that extension: together
/// the two columns show the whole name.
pub proof fn stem_and_ext_show_name(row: EntryView)
    requires
        !row.is_dir,
        row.ext.len() > 0,
        text::ends_with(row.name, "."@ + row.ext),
    ensures
        row.name == shown_stem(row) + ("."@ + row.ext),
{
    let ending = "."@ + row.ext;
    let at = row.name.len() - ending.len();
    assert(row.name =~= row.name.take(at) + row.name.subrange(at, row.name.len() as int));
}

fn stem_cell(row: &FileEntry) -> (r: String)
    ensures
        r@ == shown_stem(row@),
{
    if !row.is_dir && row.ext.as_str().unicode_len() > 0 {
        let mut ending = ".".to_owned();
        ending.append(row.ext.as_str());
        if text::ends(row.name.as_str(), ending.as_str()) {
            let v = text::chars_of(row.name.as_str());
            let n = ending.as_str().unicode_len();
            let r = text::text_of(&v, 0, v.len() - n);
            assert(r@ =~= row.name@.take(row.name@.len() - ending@.len()));
            return r;
        }
    }
    row.name.clone()
}

fn size_cell(row: &FileEntry) -> (r: String)
    ensures
        r@ == shown_size(row@),
{
    if row.is_dir {
        match row.dir_size {
            Some(n) => number::format_size(n),
            None => String::new(),
        }
    } else {
        number::format_size(row.size)
    }
}

/// The cells of the row at `i` of a panel.
pub fn row_cells(p: &Panel, i: usize, is_active: bool) -> (r: RowCells)
    requires
        i < p.entries.len(),
        p.sized(),
    ensures
        r.icon@ == icon_of(p.rows()[i as int]),
        r.stem@ == shown_stem(p.rows()[i as int]),
        r.ext@ == p.rows()[i as int].ext,
        r.size@ == shown_size(p.rows()[i as int]),
        r.attr@ == p.rows()[i as int].attr(),
        r.selected == p.selected@.contains(i),
        r.cursor == (is_active && i + p.offset() == p.cursor),
{
    let row = &p.entries[i];
    assert(p.rows()[i as int] == row@);
    let icon = if row.is_dir {
        Icons::folder()
    } else if row.is_archive {
        Icons::archive()
    } else {
        Icons::file()
    };
    let cursor = is_active && i + p.up_offset() == p.cursor;
    RowCells {
        icon,
        stem: stem_cell(row),
        ext: row.ext.clone(),
        size: size_cell(row),
        attr: row.attr_str(),
        selected: p.is_selected(i),
        cursor,
    }
}

/// The arrow on the head of a column.
pub open spec fn arrow_on(p: Panel, col: SortColumn) -> Seq<char> {
    if p.sort_col != col {
        ""@
    } else if p.sort_dir == SortDir::Asc {
        " ▲"@
    } else {
        " ▼"@
    }
}

/// The arrow on the head of a column: on the one that orders the listing, in its direction.
pub fn sort_arrow(p: &Panel, col: SortColumn) -> (r: &'static str)
    ensures
        r@ == arrow_on(*p, col),
{
    if p.sort_col != col {
        ""
    } else if p.sort_dir == SortDir::Asc {
        " ▲"
    } else {
        " ▼"
    }
}

// ---------------------------------------------------------------------------
// The path of a panel
// ---------------------------------------------------------------------------

/// One piece of a path that can be clicked on.
#[derive(Debug)]
pub struct Crumb {
    pub label: String,
    /// The path up to the piece.
    pub path: DirPath,
    /// Whether the piece is the last one, which cannot be clicked on.
    pub current: bool,
}

/// What a piece is.
#[verifier::ext_equal]
pub struct CrumbView {
    pub label: Seq<char>,
    pub path: PathView,
    pub current: bool,
}

impl View for Crumb {
    type V = CrumbView;

    open spec fn view(&self) -> CrumbView {
        CrumbView { label: self.label@, path: self.path@, current: self.current }
    }
}

impl DeepView for Crumb {
    type V = CrumbView;

    open spec fn deep_view(&self) -> CrumbView {
        self.view()
    }
}

/// Whether the root of a path is a drive or a share followed by a separator.
pub open spec fn rooted_drive(p: PathView) -> bool {
    p.root.len() > 1 && p.root.last() == p.sep
}

/// The path of the root alone. A drive without a separator gets one.
pub open spec fn root_path(p: PathView) -> PathView {
    let root = if p.root.len() > 1 && p.root.last() != p.sep {
        p.root.push(p.sep)
    } else {
        p.root
    };
    PathView { root, parts: seq![], sep: p.sep }
}

/// The piece for the root.
pub open spec fn root_crumb(p: PathView) -> CrumbView {
    CrumbView {
        label: if p.root.len() > 1 {
            p.label() + "\\"@
        } else {
            "\\"@
        },
        path: root_path(p),
        current: p.parts.len() == 0 && !rooted_drive(p),
    }
}

/// The path of the first `n` names, without those that are dots.
pub open spec fn plain_path(p: PathView, n: int) -> PathView
    decreases n,
{
    if n <= 0 {
        root_path(p)
    } else if path::is_dots(p.parts[n - 1]) {
        plain_path(p, n - 1)
    } else {
        let front = plain_path(p, n - 1);
        PathView { parts: front.parts.push(p.parts[n - 1]), ..front }
    }
}

/// The pieces for the root and the first `n` names; dots get none.
pub open spec fn crumbs_of(p: PathView, n: int) -> Seq<CrumbView>
    decreases n,
{
    if n <= 0 {
        if p.root.len() > 0 {
            seq![root_crumb(p)]
        } else {
            seq![]
        }
    } else if path::is_dots(p.parts[n - 1]) {
        crumbs_of(p, n - 1)
    } else {
        crumbs_of(p, n - 1).push(
            CrumbView {
                label: p.parts[n - 1],
                path: plain_path(p, n),
                current: n == p.parts.len(),
            },
        )
    }
}

/// The last piece of a path without dots leads to the path itself.
pub proof fn last_crumb_is_path(p: PathView)
    requires
        p.parts.len() > 0,
        forall|i: int| 0 <= i < p.parts.len() ==> !path::is_dots(#[trigger] p.parts[i]),
        p.root.len() > 1 ==> p.root.last() == p.sep,
    ensures
        crumbs_of(p, p.parts.len() as int).last().path == p,
        crumbs_of(p, p.parts.len() as int).last().current,
{
    lemma_plain_path(p, p.parts.len() as int);
    assert(!path::is_dots(p.parts[p.parts.len() - 1]));
    assert(p.parts.take(p.parts.len() as int) =~= p.parts);
    assert(plain_path(p, p.parts.len() as int) == p);
}

proof fn lemma_plain_path(p: PathView, n: int)
    requires
        0 <= n <= p.parts.len(),
        forall|i: int| 0 <= i < p.parts.len() ==> !path::is_dots(#[trigger] p.parts[i]),
        p.root.len() > 1 ==> p.root.last() == p.sep,
    ensures
        plain_path(p, n) == p.ancestor(n),
    decreases n,
{
    if n > 0 {
        lemma_plain_path(p, n - 1);
        assert(!path::is_dots(p.parts[n - 1]));
        assert(p.parts.take(n - 1).push(p.parts[n - 1]) =~= p.parts.take(n));
    } else {
        assert(p.parts.take(0) =~= seq![]);
    }
}

/// The pieces of a path.
pub fn breadcrumbs(p: &DirPath) -> (r: Vec<Crumb>)
    ensures
        r.deep_view() == crumbs_of(p@, p.parts@.len() as int),
{
    let chars = text::chars_of(p.root.as_str());
    let n = chars.len();
    let ends_in_sep = n > 0 && chars[n - 1] == p.sep;
    let mut out: Vec<Crumb> = Vec::new();
    let mut root = p.root.clone();
    if n > 1 && !ends_in_sep {
        root.push(p.sep);
    }
    let mut here = DirPath { root, parts: Vec::new(), sep: p.sep };
    assert(here@.parts =~= seq![]);
    assert(here@ =~= root_path(p@));
    assert(out.deep_view() =~= seq![]);
    if n > 0 {
        let label = if n > 1 {
            let mut s = p.label();
            s.append("\\");
            s
        } else {
            "\\".to_owned()
        };
        let crumb = Crumb {
            label,
            path: here.clone(),
            current: p.parts.len() == 0 && !(n > 1 && ends_in_sep),
        };
        assert(p@.parts.len() == p.parts.len());
        assert(crumb@ =~= root_crumb(p@));
        out.push(crumb);
        assert(out.deep_view() =~= seq![root_crumb(p@)]);
    }
    let mut i: usize = 0;
    while i < p.parts.len()
        invariant
            i <= p.parts.len(),
            here@ == plain_path(p@, i as int),
            out.deep_view() == crumbs_of(p@, i as int),
        decreases p.parts.len() - i,
    {
        let ghost before = out.deep_view();
        let ghost here_before = here@;
        let part = p.parts[i].as_str();
        assert(p@.parts[i as int] == part@);
        assert(p@.parts.len() == p.parts.len());
        if !text::same(part, ".") && !text::same(part, "..") {
            here.parts.push(part.to_owned());
            assert(here@.parts =~= here_before.parts.push(part@));
            let crumb = Crumb {
                label: part.to_owned(),
                path: here.clone(),
                current: i + 1 == p.parts.len(),
            };
            out.push(crumb);
            assert(out.deep_view() =~= before.push(crumb@));
        }
        i += 1;
    }
    out
}

// ---------------------------------------------------------------------------
// Totals
// ---------------------------------------------------------------------------

/// How many of the rows are directories.
pub open spec fn count_dirs(rows: Seq<EntryView>) -> nat
    decreases rows.len(),
{
    if rows.len() == 0 {
        0
    } else {
        count_dirs(rows.drop_last()) + if rows.last().is_dir {
            1nat
        } else {
            0nat
        }
    }
}

/// The sizes of the rows, those of directories where they were counted.
pub open spec fn sizes_of(rows: Seq<EntryView>) -> Seq<u64> {
    Seq::new(rows.len(), |i: int| rows[i].effective_size())
}

/// The sizes of the rows, those of directories as nothing.
pub open spec fn file_sizes(rows: Seq<EntryView>) -> Seq<u64> {
    Seq::new(
        rows.len(),
        |i: int|
            if rows[i].is_dir {
                0
            } else {
                rows[i].size
            },
    )
}

/// What is told of a selection of `count` positions with the rows `chosen`.
pub open spec fn selection_line(count: nat, chosen: Seq<EntryView>) -> Seq<char> {
    let dirs = count_dirs(chosen);
    let size = file_op::sum_of(sizes_of(chosen));
    let files = "Vybráno: "@ + number::nat_text((count - dirs) as nat) + " souborů"@;
    let with_dirs = if dirs > 0 {
        files + ", "@ + number::nat_text(dirs) + " složek"@
    } else {
        files
    };
    if size > 0 {
        with_dirs + "  ("@ + number::size_text(size as nat) + ")"@
    } else {
        with_dirs
    }
}

/// What is told of all the rows.
pub open spec fn listing_line(rows: Seq<EntryView>) -> Seq<char> {
    let dirs = count_dirs(rows);
    number::nat_text((rows.len() - dirs) as nat) + " souborů, "@ + number::nat_text(dirs)
        + " složek  ("@ + number::size_text(file_op::sum_of(file_sizes(rows)) as nat) + ")"@
}

/// What is told of a panel: of its selection, or of all its rows where nothing is selected.
pub open spec fn totals_line(p: Panel) -> Seq<char> {
    if p.selected@.len() > 0 {
        selection_line(p.selected@.len(), panel::picked(p.rows(), p.selected@))
    } else {
        listing_line(p.rows())
    }
}

/// Whether the sizes that are told of a panel can be added up.
pub open spec fn totals_fit(p: Panel) -> bool {
    if p.selected@.len() > 0 {
        file_op::sum_of(sizes_of(panel::picked(p.rows(), p.selected@))) <= u64::MAX
    } else {
        file_op::sum_of(file_sizes(p.rows())) <= u64::MAX
    }
}

proof fn lemma_count_dirs(rows: Seq<EntryView>)
    ensures
        count_dirs(rows) <= rows.len(),
    decreases rows.len(),
{
    if rows.len() > 0 {
        lemma_count_dirs(rows.drop_last());
    }
}

proof fn lemma_picked_len(rows: Seq<EntryView>, selected: Seq<usize>)
    ensures
        panel::picked(rows, selected).len() <= selected.len(),
    decreases selected.len(),
{
    if selected.len() > 0 {
        lemma_picked_len(rows, selected.drop_last());
    }
}

/// How many of the selected rows are directories, and the sizes of all of them.
fn selection_counts(p: &Panel) -> (r: (usize, Vec<u64>))
    ensures
        r.0 == count_dirs(panel::picked(p.rows(), p.selected@)),
        r.1@ == sizes_of(panel::picked(p.rows(), p.selected@)),
{
    let mut dirs: usize = 0;
    let mut sizes: Vec<u64> = Vec::new();
    let mut i: usize = 0;
    assert(p.selected@.take(0) =~= seq![]);
    assert(sizes@ =~= sizes_of(panel::picked(p.rows(), p.selected@.take(0))));
    while i < p.selected.len()
        invariant
            i <= p.selected.len(),
            dirs == count_dirs(panel::picked(p.rows(), p.selected@.take(i as int))),
            dirs <= i,
            sizes@ == sizes_of(panel::picked(p.rows(), p.selected@.take(i as int))),
        decreases p.selected.len() - i,
    {
        let at = p.selected[i];
        let ghost chosen = panel::picked(p.rows(), p.selected@.take(i as int));
        assert(p.selected@.take(i + 1).drop_last() == p.selected@.take(i as int));
        if at < p.entries.len() {
            let row = &p.entries[at];
            proof {
                assert(p.rows()[at as int] == row@);
                assert(chosen.push(row@).drop_last() == chosen);
            }
            if row.is_dir {
                dirs += 1;
            }
            sizes.push(row.effective_size());
            assert(sizes@ =~= sizes_of(chosen.push(row@)));
        }
        i += 1;
    }
    assert(p.selected@.take(p.selected.len() as int) == p.selected@);
    (dirs, sizes)
}

/// How many of the rows are directories, and the sizes of the files.
fn listing_counts(p: &Panel) -> (r: (usize, Vec<u64>))
    ensures
        r.0 == count_dirs(p.rows()),
        r.1@ == file_sizes(p.rows()),
{
    let mut dirs: usize = 0;
    let mut sizes: Vec<u64> = Vec::new();
    let mut i: usize = 0;
    assert(p.rows().take(0) =~= seq![]);
    assert(sizes@ =~= file_sizes(p.rows().take(0)));
    while i < p.entries.len()
        invariant
            i <= p.entries.len(),
            dirs == count_dirs(p.rows().take(i as int)),
            dirs <= i,
            sizes@ == file_sizes(p.rows().take(i as int)),
        decreases p.entries.len() - i,
    {
        let row = &p.entries[i];
        proof {
            let t = p.rows().take(i + 1);
            assert(t.drop_last() == p.rows().take(i as int));
            assert(t.last() == row@);
        }
        if row.is_dir {
            dirs += 1;
            sizes.push(0);
        } else {
            sizes.push(row.size);
        }
        assert(sizes@ =~= file_sizes(p.rows().take(i + 1)));
        i += 1;
    }
    assert(p.rows().take(p.entries.len() as int) =~= p.rows());
    (dirs, sizes)
}

/// What is told of a panel below it. None where the sizes cannot be added up.
pub fn totals_text(p: &Panel) -> (r: Option<String>)
    ensures
        r is Some == totals_fit(*p),
        r matches Some(s) ==> s@ == totals_line(*p),
{
    if p.selected.len() > 0 {
        let (dirs, sizes) = selection_counts(p);
        let size = match file_op::sum_sizes(&sizes) {
            Some(n) => n,
            None => {
                return None;
            },
        };
        proof {
            lemma_count_dirs(panel::picked(p.rows(), p.selected@));
            lemma_picked_len(p.rows(), p.selected@);
        }
        let mut s = "Vybráno: ".to_owned();
        let files = number::decimal_usize(p.selected.len() - dirs);
        s.append(files.as_str());
        s.append(" souborů");
        if dirs > 0 {
            s.append(", ");
            let n = number::decimal_usize(dirs);
            s.append(n.as_str());
            s.append(" složek");
        }
        if size > 0 {
            s.append("  (");
            let t = number::format_size(size);
            s.append(t.as_str());
            s.append(")");
        }
        Some(s)
    } else {
        let (dirs, sizes) = listing_counts(p);
        let size = match file_op::sum_sizes(&sizes) {
            Some(n) => n,
            None => {
                return None;
            },
        };
        proof {
            lemma_count_dirs(p.rows());
            assert(p.rows().len() == p.entries.len());
        }
        let mut s = number::decimal_usize(p.entries.len() - dirs);
        s.append(" souborů, ");
        let n = number::decimal_usize(dirs);
        s.append(n.as_str());
        s.append(" složek  (");
        let t = number::format_size(size);
        s.append(t.as_str());
        s.append(")");
        Some(s)
    }
}

/// The label of the context menu: how many rows are selected, or the name of the row.
pub fn menu_label(p: &Panel, name: &str) -> (r: String)
    ensures
        r@ == if p.selected@.len() > 0 {
            number::nat_text(p.selected@.len()) + " označených položek"@
        } else {
            name@
        },
{
    if p.selected.len() > 0 {
        let mut s = number::decimal_usize(p.selected.len());
        s.append(" označených položek");
        s
    } else {
        name.to_owned()
    }
}

/// What is shown at the pointer while rows are dragged.
pub fn drag_label(p: &Panel, name: &str) -> (r: String)
    ensures
        r@ == if p.selected@.len() == 1 {
            "➡ "@ + name@
        } else {
            "➡ "@ + number::nat_text(p.selected@.len()) + " souborů"@
        },
{
    let mut s = "➡ ".to_owned();
    if p.selected.len() == 1 {
        s.append(name);
    } else {
        let n = number::decimal_usize(p.selected.len());
        s.append(n.as_str());
        s.append(" souborů");
    }
    s
}

/// What is told of one slot of the progress window.
pub fn slot_text(copied: u64, size: u64) -> (r: String)
    ensures
        r@ == if size > 0 {
            number::size_text(copied as nat) + " / "@ + number::size_text(size as nat)
        } else {
            "přenáším..."@
        },
{
    if size > 0 {
        let mut s = number::format_size(copied);
        s.append(" / ");
        let t = number::format_size(size);
        s.append(t.as_str());
        s
    } else {
        "přenáším...".to_owned()
    }
}

/// Directories are counted one by one, in whatever parts.
pub proof fn directories_add_up(a: Seq<EntryView>, b: Seq<EntryView>, row: EntryView)
    ensures
        count_dirs(a + b) == count_dirs(a) + count_dirs(b),
        row.is_dir ==> count_dirs(seq![row]) == 1,
        !row.is_dir ==> count_dirs(seq![row]) == 0,
    decreases b.len(),
{
    if b.len() == 0 {
        assert(a + b =~= a);
    } else {
        assert((a + b).drop_last() =~= a + b.drop_last());
        directories_add_up(a, b.drop_last(), row);
    }
    assert(seq![row].drop_last() =~= Seq::<EntryView>::empty());
    assert(count_dirs(Seq::<EntryView>::empty()) == 0);
}

/// The sizes that are summed: of chosen rows the size that counts, of a listing that of the
/// files alone.
pub proof fn sizes_row_by_row(rows: Seq<EntryView>, i: int)
    requires
        0 <= i < rows.len(),
    ensures
        sizes_of(rows).len() == rows.len(),
        sizes_of(rows)[i] == rows[i].effective_size(),
        file_sizes(rows).len() == rows.len(),
        rows[i].is_dir ==> file_sizes(rows)[i] == 0,
        !rows[i].is_dir ==> file_sizes(rows)[i] == rows[i].size,
{
}

/// A file's name is shown without its point and ending, which have a column of their own; what
/// does not end so, and every directory, is shown whole.
pub proof fn names_without_their_ending(row: EntryView, stem: Seq<char>)
    ensures
        !row.is_dir && row.ext.len() > 0 && row.name == stem + seq!['.'] + row.ext ==> shown_stem(
            row,
        ) == stem,
        row.is_dir || row.ext.len() == 0 ==> shown_stem(row) == row.name,
        !(exists|a: Seq<char>| row.name == #[trigger] (a + (seq!['.'] + row.ext))) ==> shown_stem(
            row,
        ) == row.name,
{
    reveal_strlit(".");
    assert("."@ =~= seq!['.']);
    let ending = seq!['.'] + row.ext;
    text::ends_by_parting(row.name, ending);
    if row.name == stem + seq!['.'] + row.ext {
        assert(row.name =~= stem + ending);
        assert(row.name.take(row.name.len() - ending.len()) =~= stem);
    }
}

/// The size of a file is shown, and that of a directory once it was counted.
pub proof fn sizes_that_are_shown(row: EntryView)
    ensures
        !row.is_dir ==> shown_size(row) == number::size_text(row.size as nat),
        row.is_dir && row.dir_size is Some ==> shown_size(row) == number::size_text(
            row.dir_size->0 as nat,
        ),
        row.is_dir && row.dir_size is None ==> shown_size(row).len() == 0,
{
}

/// The arrow stands at the column that the panel is sorted by alone, and tells the direction.
pub proof fn arrow_at_the_column(p: Panel, col: SortColumn)
    ensures
        p.sort_col != col ==> arrow_on(p, col).len() == 0,
        p.sort_col == col && p.sort_dir == SortDir::Asc ==> arrow_on(p, col) == seq![' ', '▲'],
        p.sort_col == col && p.sort_dir == SortDir::Desc ==> arrow_on(p, col) == seq![' ', '▼'],
{
    reveal_strlit("");
    reveal_strlit(" ▲");
    reveal_strlit(" ▼");
    assert(" ▲"@ =~= seq![' ', '▲']);
    assert(" ▼"@ =~= seq![' ', '▼']);
}

proof fn lemma_crumbs(p: PathView, n: int)
    requires
        0 <= n <= p.parts.len(),
        forall|i: int| 0 <= i < p.parts.len() ==> !path::is_dots(#[trigger] p.parts[i]),
    ensures
        ({
            let first: int = if p.root.len() > 0 {
                1
            } else {
                0
            };
            let c = crumbs_of(p, n);
            &&& c.len() == n + first
            &&& plain_path(p, n) == (PathView { parts: p.parts.take(n), ..root_path(p) })
            &&& forall|i: int|
                first <= i < n + first ==> (#[trigger] c[i]).label == p.parts[i - first]
                    && c[i].path == (PathView {
                    parts: p.parts.take(i - first + 1),
                    ..root_path(p)
                }) && (c[i].current <==> i - first + 1 == p.parts.len())
        }),
    decreases n,
{
    let first: int = if p.root.len() > 0 {
        1
    } else {
        0
    };
    if n <= 0 {
        assert(p.parts.take(0) =~= seq![]);
    } else {
        lemma_crumbs(p, n - 1);
        assert(!path::is_dots(p.parts[n - 1]));
        assert(p.parts.take(n - 1).push(p.parts[n - 1]) =~= p.parts.take(n));
        let c = crumbs_of(p, n);
        let d = crumbs_of(p, n - 1);
        assert forall|i: int| first <= i < n + first implies (#[trigger] c[i]).label == p.parts[i
            - first] && c[i].path == (PathView {
            parts: p.parts.take(i - first + 1),
            ..root_path(p)
        }) && (c[i].current <==> i - first + 1 == p.parts.len()) by {
            if i < n - 1 + first {
                assert(c[i] == d[i]);
            }
        }
    }
}

/// The crumbs of a path are its root and its names, one each; a crumb leads to the path down to
/// its name, and the last one is where the panel stands.
pub proof fn crumbs_lead_down(p: PathView, k: int)
    requires
        0 <= k < p.parts.len(),
        forall|i: int| 0 <= i < p.parts.len() ==> !path::is_dots(#[trigger] p.parts[i]),
    ensures
        ({
            let c = crumbs_of(p, p.parts.len() as int);
            let first: int = if p.root.len() > 0 {
                1
            } else {
                0
            };
            &&& c.len() == p.parts.len() + first
            &&& c[first + k].label == p.parts[k]
            &&& c[first + k].path.parts == p.parts.take(k + 1)
            &&& c[first + k].path.root == root_path(p).root
            &&& c[first + k].current <==> k == p.parts.len() - 1
            &&& p.root.len() > 0 ==> c[0] == root_crumb(p)
        }),
{
    lemma_crumbs(p, p.parts.len() as int);
    if p.root.len() > 0 {
        lemma_first_crumb(p, p.parts.len() as int);
        let c = crumbs_of(p, p.parts.len() as int);
        assert(c[1 + k].label == p.parts[k]);
    }
}

proof fn lemma_first_crumb(p: PathView, n: int)
    requires
        0 <= n <= p.parts.len(),
        p.root.len() > 0,
    ensures
        crumbs_of(p, n).len() > 0,
        crumbs_of(p, n)[0] == root_crumb(p),
    decreases n,
{
    if n > 0 {
        lemma_first_crumb(p, n - 1);
    }
}

/// The crumb of the root leads to the root, with a separator behind a drive, and shows it with a
/// backslash.
pub proof fn root_has_a_crumb(p: PathView)
    ensures
        root_crumb(p).path.parts.len() == 0,
        root_crumb(p).path.sep == p.sep,
        p.root.len() > 1 && p.root.last() != p.sep ==> root_crumb(p).path.root == p.root + seq![
            p.sep,
        ],
        p.root.len() <= 1 || p.root.last() == p.sep ==> root_crumb(p).path.root == p.root,
        p.root.len() <= 1 ==> root_crumb(p).label == "\\"@,
        p.root.len() > 1 ==> root_crumb(p).label == p.label() + "\\"@,
        p.parts.len() > 0 ==> !root_crumb(p).current,
{
    if p.root.len() > 1 && p.root.last() != p.sep {
        assert(p.root.push(p.sep) =~= p.root + seq![p.sep]);
    }
}

/// The line below a panel speaks of what is chosen, and of the whole listing where nothing is.
pub proof fn totals_of_choice_or_listing(p: Panel)
    ensures
        p.selected@.len() == 0 ==> totals_line(p) == listing_line(p.rows()),
        p.selected@.len() > 0 ==> totals_line(p) == selection_line(
            p.selected@.len(),
            panel::picked(p.rows(), p.selected@),
        ),
{
}

/// The line of a listing tells the number of files, the number of directories and the size of
/// the files.
pub proof fn listing_line_tells(rows: Seq<EntryView>, files: nat, dirs: nat, size: nat)
    requires
        dirs == count_dirs(rows),
        files + dirs == rows.len(),
        size == file_op::sum_of(file_sizes(rows)),
    ensures
        listing_line(rows) == number::nat_text(files) + " souborů, "@ + number::nat_text(dirs)
            + " složek  ("@ + number::size_text(size) + ")"@,
{
}

/// The line of a choice tells the number of files, that of directories where there are any, and
/// the size where there is one.
pub proof fn selection_line_tells(chosen: Seq<EntryView>, files: nat, dirs: nat, size: nat)
    requires
        dirs == count_dirs(chosen),
        files + dirs == chosen.len(),
        size == file_op::sum_of(sizes_of(chosen)),
    ensures
        dirs == 0 && size == 0 ==> selection_line(chosen.len(), chosen) == "Vybráno: "@
            + number::nat_text(files) + " souborů"@,
        dirs > 0 && size == 0 ==> selection_line(chosen.len(), chosen) == "Vybráno: "@
            + number::nat_text(files) + " souborů"@ + ", "@ + number::nat_text(dirs) + " složek"@,
        dirs == 0 && size > 0 ==> selection_line(chosen.len(), chosen) == "Vybráno: "@
            + number::nat_text(files) + " souborů"@ + "  ("@ + number::size_text(size) + ")"@,
        dirs > 0 && size > 0 ==> selection_line(chosen.len(), chosen) == "Vybráno: "@
            + number::nat_text(files) + " souborů"@ + ", "@ + number::nat_text(dirs) + " složek"@
            + "  ("@ + number::size_text(size) + ")"@,
{
}

/// Directories, archives and other files have icons of their own.
pub proof fn icons_by_kind(row: EntryView)
    ensures
        row.is_dir ==> icon_of(row) == "\u{1F4C1}"@,
        !row.is_dir && row.is_archive ==> icon_of(row) == "\u{1F4E6}"@,
        !row.is_dir && !row.is_archive ==> icon_of(row) == "\u{1F4C4}"@,
{
}

/// The names of this and of the upper directory have no crumb, and the paths of the others do
/// not lead through them.
pub proof fn dots_have_no_crumb(p: PathView, n: int)
    requires
        0 < n <= p.parts.len(),
    ensures
        p.parts[n - 1] == "."@ || p.parts[n - 1] == ".."@ ==> crumbs_of(p, n) == crumbs_of(p, n - 1)
            && plain_path(p, n) == plain_path(p, n - 1),
        p.parts[n - 1] != "."@ && p.parts[n - 1] != ".."@ ==> {
            &&& crumbs_of(p, n).len() == crumbs_of(p, n - 1).len() + 1
            &&& crumbs_of(p, n).last().label == p.parts[n - 1]
            &&& crumbs_of(p, n).last().path.parts == plain_path(p, n - 1).parts + seq![
                p.parts[n - 1],
            ]
        },
{
    let front = plain_path(p, n - 1).parts;
    assert(front.push(p.parts[n - 1]) =~= front + seq![p.parts[n - 1]]);
}

/// The sums below a panel can be told exactly where they fit.
pub proof fn totals_that_fit(p: Panel)
    ensures
        p.selected@.len() == 0 ==> (totals_fit(p) <==> file_op::sum_of(file_sizes(p.rows()))
            <= u64::MAX),
        p.selected@.len() > 0 ==> (totals_fit(p) <==> file_op::sum_of(
            sizes_of(panel::picked(p.rows(), p.selected@)),
        ) <= u64::MAX),
{
}

} // verus!
