//! What is kept between two runs: the directories of the panels, the order of the listings,
//! the settings and the bookmarks, as lines of text.

use crate::bookmark::{self, Bookmark, BookmarkView};
use crate::entry::{DirSort, SortColumn, SortDir};
use crate::panel::PathProbe;
use crate::path::{DirPath, PathView};
use crate::text;
use vstd::prelude::*;

verus! {

broadcast use vstd::string::group_string_axioms;

// ---------------------------------------------------------------------------
// Words
// ---------------------------------------------------------------------------

/// The word for a column.
pub open spec fn column_word(c: SortColumn) -> Seq<char> {
    match c {
        SortColumn::Name => "Name"@,
        SortColumn::Ext => "Ext"@,
        SortColumn::Size => "Size"@,
        SortColumn::Date => "Date"@,
        SortColumn::Attr => "Attr"@,
    }
}

/// The column that a word stands for.
pub open spec fn column_of(word: Seq<char>) -> Option<SortColumn> {
    if word == "Name"@ {
        Some(SortColumn::Name)
    } else if word == "Ext"@ {
        Some(SortColumn::Ext)
    } else if word == "Size"@ {
        Some(SortColumn::Size)
    } else if word == "Date"@ {
        Some(SortColumn::Date)
    } else if word == "Attr"@ {
        Some(SortColumn::Attr)
    } else {
        None
    }
}

/// The word for a direction.
pub open spec fn direction_word(d: SortDir) -> Seq<char> {
    match d {
        SortDir::Asc => "Asc"@,
        SortDir::Desc => "Desc"@,
    }
}

/// The direction that a word stands for.
pub open spec fn direction_of(word: Seq<char>) -> Option<SortDir> {
    if word == "Asc"@ {
        Some(SortDir::Asc)
    } else if word == "Desc"@ {
        Some(SortDir::Desc)
    } else {
        None
    }
}

/// The word for the place of directories.
pub open spec fn dir_sort_word(d: DirSort) -> Seq<char> {
    match d {
        DirSort::FirstByName => "FirstByName"@,
        DirSort::FirstByCol => "FirstByCol"@,
        DirSort::Mixed => "Mixed"@,
    }
}

/// The place of directories that a word stands for.
pub open spec fn dir_sort_of(word: Seq<char>) -> DirSort {
    if word == "FirstByName"@ {
        DirSort::FirstByName
    } else if word == "Mixed"@ {
        DirSort::Mixed
    } else {
        DirSort::FirstByCol
    }
}

/// The word for a truth value.
pub open spec fn bool_word(b: bool) -> Seq<char> {
    if b {
        "true"@
    } else {
        "false"@
    }
}

// ---------------------------------------------------------------------------
// The kept state
// ---------------------------------------------------------------------------

/// What is kept.
#[derive(Debug)]
pub struct State {
    pub left: DirPath,
    pub right: DirPath,
    pub sort_l_col: SortColumn,
    pub sort_l_dir: SortDir,
    pub sort_r_col: SortColumn,
    pub sort_r_dir: SortDir,
    pub dark_mode: bool,
    pub show_hidden: bool,
    pub external_editor: String,
    pub dir_sort: DirSort,
    pub bookmarks: Vec<Bookmark>,
}

/// What the kept state is.
#[verifier::ext_equal]
pub struct StateView {
    pub left: PathView,
    pub right: PathView,
    pub sort_l_col: SortColumn,
    pub sort_l_dir: SortDir,
    pub sort_r_col: SortColumn,
    pub sort_r_dir: SortDir,
    pub dark_mode: bool,
    pub show_hidden: bool,
    pub external_editor: Seq<char>,
    pub dir_sort: DirSort,
    pub bookmarks: Seq<BookmarkView>,
}

impl View for State {
    type V = StateView;

    open spec fn view(&self) -> StateView {
        StateView {
            left: self.left@,
            right: self.right@,
            sort_l_col: self.sort_l_col,
            sort_l_dir: self.sort_l_dir,
            sort_r_col: self.sort_r_col,
            sort_r_dir: self.sort_r_dir,
            dark_mode: self.dark_mode,
            show_hidden: self.show_hidden,
            external_editor: self.external_editor@,
            dir_sort: self.dir_sort,
            bookmarks: self.bookmarks.deep_view(),
        }
    }
}

/// Lines as text, each with a line ending.
pub open spec fn unlines(lines: Seq<Seq<char>>) -> Seq<char>
    decreases lines.len(),
{
    if lines.len() == 0 {
        seq![]
    } else {
        unlines(lines.drop_last()) + lines.last() + "\n"@
    }
}

impl StateView {
    /// The lines for everything but the bookmarks.
    pub open spec fn head(self) -> Seq<Seq<char>> {
        seq![
            "LEFT="@ + self.left.text(),
            "RIGHT="@ + self.right.text(),
            "SORT_L_COL="@ + column_word(self.sort_l_col),
            "SORT_L_DIR="@ + direction_word(self.sort_l_dir),
            "SORT_R_COL="@ + column_word(self.sort_r_col),
            "SORT_R_DIR="@ + direction_word(self.sort_r_dir),
            "DARK_MODE="@ + bool_word(self.dark_mode),
            "SHOW_HIDDEN="@ + bool_word(self.show_hidden),
            "EXT_EDITOR="@ + self.external_editor,
            "DIR_SORT="@ + dir_sort_word(self.dir_sort),
        ]
    }

    /// The lines that keep the state.
    pub open spec fn lines(self) -> Seq<Seq<char>> {
        self.head() + bookmark_lines(self.bookmarks)
    }

    /// The text that keeps the state.
    pub open spec fn text(self) -> Seq<char> {
        unlines(self.lines())
    }
}

/// The lines for a bookmark.
pub open spec fn lines_for(bm: BookmarkView) -> Seq<Seq<char>> {
    seq![
        "BM_NAME="@ + bm.name,
        "BM_LEFT="@ + bm.left.text(),
        "BM_RIGHT="@ + bookmark::second_text(bm.right),
    ]
}

/// The lines for bookmarks.
pub open spec fn bookmark_lines(list: Seq<BookmarkView>) -> Seq<Seq<char>>
    decreases list.len(),
{
    if list.len() == 0 {
        seq![]
    } else {
        bookmark_lines(list.drop_last()) + lines_for(list.last())
    }
}

// ---------------------------------------------------------------------------
// Reading lines
// ---------------------------------------------------------------------------

/// What a line speaks of.
#[derive(Clone, Copy, Debug, PartialEq, Eq, Structural)]
pub enum Key {
    Left,
    Right,
    SortLCol,
    SortLDir,
    SortRCol,
    SortRDir,
    DarkMode,
    DirSort,
    BmName,
    BmLeft,
    BmRight,
    Bookmark,
}

/// What a line speaks of, and what it says.
pub open spec fn read_line(line: Seq<char>) -> Option<(Key, Seq<char>)> {
    if text::begins_with(line, "LEFT="@) {
        Some((Key::Left, text::after(line, 5)))
    } else if text::begins_with(line, "RIGHT="@) {
        Some((Key::Right, text::after(line, 6)))
    } else if text::begins_with(line, "SORT_L_COL="@) {
        Some((Key::SortLCol, text::after(line, 11)))
    } else if text::begins_with(line, "SORT_L_DIR="@) {
        Some((Key::SortLDir, text::after(line, 11)))
    } else if text::begins_with(line, "SORT_R_COL="@) {
        Some((Key::SortRCol, text::after(line, 11)))
    } else if text::begins_with(line, "SORT_R_DIR="@) {
        Some((Key::SortRDir, text::after(line, 11)))
    } else if text::begins_with(line, "DARK_MODE="@) {
        Some((Key::DarkMode, text::after(line, 10)))
    } else if text::begins_with(line, "DIR_SORT="@) {
        Some((Key::DirSort, text::after(line, 9)))
    } else if text::begins_with(line, "BM_NAME="@) {
        Some((Key::BmName, text::after(line, 8)))
    } else if text::begins_with(line, "BM_LEFT="@) {
        Some((Key::BmLeft, text::after(line, 8)))
    } else if text::begins_with(line, "BM_RIGHT="@) {
        Some((Key::BmRight, text::after(line, 9)))
    } else if text::begins_with(line, "BOOKMARK="@) {
        Some((Key::Bookmark, text::after(line, 9)))
    } else {
        None
    }
}

/// Whether a line says a path.
pub open spec fn says_path(key: Key) -> bool {
    key == Key::Left || key == Key::Right || key == Key::BmLeft || key == Key::BmRight || key
        == Key::Bookmark
}

/// The path that a line says.
pub open spec fn path_in(line: Seq<char>) -> Option<Seq<char>> {
    match read_line(line) {
        Some((key, value)) => if says_path(key) {
            Some(text::trimmed(value))
        } else {
            None
        },
        None => None,
    }
}

/// What the file system tells of a path.
#[verifier::ext_equal]
pub struct ProbeView {
    pub path: PathView,
    pub is_dir: bool,
}

/// What the file system tells of the path in a line.
pub open spec fn probe_view(probe: Option<PathProbe>) -> Option<ProbeView> {
    match probe {
        Some(p) => Some(ProbeView { path: p.path@, is_dir: p.is_dir }),
        None => None,
    }
}

/// What the file system tells of the paths in lines.
pub open spec fn probe_views(probes: Seq<Option<PathProbe>>) -> Seq<Option<ProbeView>> {
    Seq::new(probes.len(), |i: int| probe_view(probes[i]))
}

/// The path in a line, where it is one of a directory.
pub open spec fn valid_path(probe: Option<ProbeView>) -> Option<PathView> {
    match probe {
        Some(p) => if p.is_dir {
            Some(p.path)
        } else {
            None
        },
        None => None,
    }
}

/// What was read so far.
#[verifier::ext_equal]
pub struct LoadingView {
    pub left: Option<PathView>,
    pub right: Option<PathView>,
    pub bookmarks: Seq<BookmarkView>,
    pub sort_l_col: Option<SortColumn>,
    pub sort_l_dir: Option<SortDir>,
    pub sort_r_col: Option<SortColumn>,
    pub sort_r_dir: Option<SortDir>,
    pub dark_mode: bool,
    /// The name of a bookmark whose directories are still to come.
    pub bm_name: Option<Seq<char>>,
    /// The first directory of a bookmark whose second is still to come.
    pub bm_left: Option<PathView>,
}

impl LoadingView {
    /// Before the first line.
    pub open spec fn empty() -> LoadingView {
        LoadingView {
            left: None,
            right: None,
            bookmarks: seq![],
            sort_l_col: None,
            sort_l_dir: None,
            sort_r_col: None,
            sort_r_dir: None,
            dark_mode: true,
            bm_name: None,
            bm_left: None,
        }
    }

    /// After one more line.
    pub open spec fn after(self, line: Seq<char>, probe: Option<ProbeView>) -> LoadingView {
        match read_line(line) {
            None => self,
            Some((key, value)) => match key {
                Key::Left => LoadingView { left: valid_path(probe), ..self },
                Key::Right => LoadingView { right: valid_path(probe), ..self },
                Key::SortLCol => LoadingView {
                    sort_l_col: column_of(text::trimmed(value)),
                    ..self
                },
                Key::SortLDir => LoadingView {
                    sort_l_dir: direction_of(text::trimmed(value)),
                    ..self
                },
                Key::SortRCol => LoadingView {
                    sort_r_col: column_of(text::trimmed(value)),
                    ..self
                },
                Key::SortRDir => LoadingView {
                    sort_r_dir: direction_of(text::trimmed(value)),
                    ..self
                },
                Key::DarkMode => LoadingView {
                    dark_mode: text::trimmed(value) == "true"@,
                    ..self
                },
                Key::DirSort => self,
                Key::BmName => LoadingView { bm_name: Some(text::trimmed(value)), ..self },
                Key::BmLeft => LoadingView { bm_left: valid_path(probe), ..self },
                Key::BmRight => {
                    let taken = LoadingView { bm_name: None, bm_left: None, ..self };
                    match (self.bm_name, self.bm_left) {
                        (Some(name), Some(left)) => LoadingView {
                            bookmarks: self.bookmarks.push(
                                BookmarkView { name, left, right: valid_path(probe) },
                            ),
                            ..taken
                        },
                        _ => taken,
                    }
                },
                Key::Bookmark => match valid_path(probe) {
                    Some(p) => LoadingView {
                        bookmarks: self.bookmarks.push(
                            BookmarkView { name: p.name_or_empty(), left: p, right: None },
                        ),
                        ..self
                    },
                    None => self,
                },
            },
        }
    }
}

/// After the first `n` lines.
pub open spec fn loaded(
    lines: Seq<Seq<char>>,
    probes: Seq<Option<ProbeView>>,
    n: int,
) -> LoadingView
    decreases n,
{
    if n <= 0 {
        LoadingView::empty()
    } else {
        loaded(lines, probes, n - 1).after(lines[n - 1], probes[n - 1])
    }
}

/// What the first line that begins with `key` says.
pub open spec fn first_value(lines: Seq<Seq<char>>, key: Seq<char>) -> Option<Seq<char>>
    decreases lines.len(),
{
    if lines.len() == 0 {
        None
    } else if text::begins_with(lines[0], key) {
        Some(text::after(lines[0], key.len() as int))
    } else {
        first_value(lines.drop_first(), key)
    }
}

/// The place of directories that lines say.
pub open spec fn kept_dir_sort(lines: Seq<Seq<char>>) -> DirSort {
    match first_value(lines, "DIR_SORT="@) {
        Some(v) => dir_sort_of(text::trimmed(v)),
        None => DirSort::FirstByCol,
    }
}

/// Whether lines say that hidden files are shown.
pub open spec fn kept_show_hidden(lines: Seq<Seq<char>>) -> bool {
    match first_value(lines, "SHOW_HIDDEN="@) {
        Some(v) => text::trimmed(v) == "true"@,
        None => false,
    }
}

/// The editor that lines say.
pub open spec fn kept_editor(lines: Seq<Seq<char>>) -> Seq<char> {
    match first_value(lines, "EXT_EDITOR="@) {
        Some(v) => text::trimmed(v),
        None => seq![],
    }
}

/// What was read of a kept state. What no line says is missing.
#[derive(Debug)]
pub struct Saved {
    pub left: Option<DirPath>,
    pub right: Option<DirPath>,
    pub bookmarks: Vec<Bookmark>,
    pub sort_l_col: Option<SortColumn>,
    pub sort_l_dir: Option<SortDir>,
    pub sort_r_col: Option<SortColumn>,
    pub sort_r_dir: Option<SortDir>,
    pub dark_mode: bool,
    pub dir_sort: DirSort,
    pub show_hidden: bool,
    pub external_editor: String,
}

/// What a kept state reads as.
#[verifier::ext_equal]
pub struct SavedView {
    pub left: Option<PathView>,
    pub right: Option<PathView>,
    pub bookmarks: Seq<BookmarkView>,
    pub sort_l_col: Option<SortColumn>,
    pub sort_l_dir: Option<SortDir>,
    pub sort_r_col: Option<SortColumn>,
    pub sort_r_dir: Option<SortDir>,
    pub dark_mode: bool,
    pub dir_sort: DirSort,
    pub show_hidden: bool,
    pub external_editor: Seq<char>,
}

impl View for Saved {
    type V = SavedView;

    open spec fn view(&self) -> SavedView {
        SavedView {
            left: self.left.deep_view(),
            right: self.right.deep_view(),
            bookmarks: self.bookmarks.deep_view(),
            sort_l_col: self.sort_l_col,
            sort_l_dir: self.sort_l_dir,
            sort_r_col: self.sort_r_col,
            sort_r_dir: self.sort_r_dir,
            dark_mode: self.dark_mode,
            dir_sort: self.dir_sort,
            show_hidden: self.show_hidden,
            external_editor: self.external_editor@,
        }
    }
}

/// What lines read as, with what the file system tells of the paths in them.
pub open spec fn saved_in(lines: Seq<Seq<char>>, probes: Seq<Option<ProbeView>>) -> SavedView {
    let l = loaded(lines, probes, lines.len() as int);
    SavedView {
        left: l.left,
        right: l.right,
        bookmarks: l.bookmarks,
        sort_l_col: l.sort_l_col,
        sort_l_dir: l.sort_l_dir,
        sort_r_col: l.sort_r_col,
        sort_r_dir: l.sort_r_dir,
        dark_mode: l.dark_mode,
        dir_sort: kept_dir_sort(lines),
        show_hidden: kept_show_hidden(lines),
        external_editor: kept_editor(lines),
    }
}

// ---------------------------------------------------------------------------
// Executable words
// ---------------------------------------------------------------------------

fn word_of_column(c: SortColumn) -> (r: &'static str)
    ensures
        r@ == column_word(c),
{
    match c {
        SortColumn::Name => "Name",
        SortColumn::Ext => "Ext",
        SortColumn::Size => "Size",
        SortColumn::Date => "Date",
        SortColumn::Attr => "Attr",
    }
}

fn parse_column(word: &str) -> (r: Option<SortColumn>)
    ensures
        r == column_of(word@),
{
    if text::same(word, "Name") {
        Some(SortColumn::Name)
    } else if text::same(word, "Ext") {
        Some(SortColumn::Ext)
    } else if text::same(word, "Size") {
        Some(SortColumn::Size)
    } else if text::same(word, "Date") {
        Some(SortColumn::Date)
    } else if text::same(word, "Attr") {
        Some(SortColumn::Attr)
    } else {
        None
    }
}

fn word_of_direction(d: SortDir) -> (r: &'static str)
    ensures
        r@ == direction_word(d),
{
    match d {
        SortDir::Asc => "Asc",
        SortDir::Desc => "Desc",
    }
}

fn parse_direction(word: &str) -> (r: Option<SortDir>)
    ensures
        r == direction_of(word@),
{
    if text::same(word, "Asc") {
        Some(SortDir::Asc)
    } else if text::same(word, "Desc") {
        Some(SortDir::Desc)
    } else {
        None
    }
}

fn word_of_dir_sort(d: DirSort) -> (r: &'static str)
    ensures
        r@ == dir_sort_word(d),
{
    match d {
        DirSort::FirstByName => "FirstByName",
        DirSort::FirstByCol => "FirstByCol",
        DirSort::Mixed => "Mixed",
    }
}

/// The word for a truth value.
pub fn word_of_bool(b: bool) -> (r: &'static str)
    ensures
        r@ == bool_word(b),
{
    if b {
        "true"
    } else {
        "false"
    }
}

// ---------------------------------------------------------------------------
// Saving
// ---------------------------------------------------------------------------

/// Adds a line to a text.
pub(crate) fn add_line(out: &mut String, key: &str, value: &str, lines: Ghost<Seq<Seq<char>>>)
    requires
        old(out)@ == unlines(lines@),
    ensures
        final(out)@ == unlines(lines@.push(key@ + value@)),
{
    let ghost before = out@;
    out.append(key);
    out.append(value);
    out.append("\n");
    proof {
        let all = lines@.push(key@ + value@);
        assert(all.drop_last() =~= lines@);
        assert(all.last() == key@ + value@);
        assert(before + key@ + value@ + "\n"@ =~= before + (key@ + value@) + "\n"@);
    }
}

/// The text that keeps a state.
pub fn save_state(state: &State) -> (r: String)
    ensures
        r@ == state@.text(),
{
    let left = state.left.text();
    let right = state.right.text();
    let mut out = String::new();
    let ghost mut lines: Seq<Seq<char>> = seq![];
    add_line(&mut out, "LEFT=", left.as_str(), Ghost(lines));
    proof {
        lines = lines.push("LEFT="@ + left@);
    }
    add_line(&mut out, "RIGHT=", right.as_str(), Ghost(lines));
    proof {
        lines = lines.push("RIGHT="@ + right@);
    }
    let word = word_of_column(state.sort_l_col);
    add_line(&mut out, "SORT_L_COL=", word, Ghost(lines));
    proof {
        lines = lines.push("SORT_L_COL="@ + word@);
    }
    let word = word_of_direction(state.sort_l_dir);
    add_line(&mut out, "SORT_L_DIR=", word, Ghost(lines));
    proof {
        lines = lines.push("SORT_L_DIR="@ + word@);
    }
    let word = word_of_column(state.sort_r_col);
    add_line(&mut out, "SORT_R_COL=", word, Ghost(lines));
    proof {
        lines = lines.push("SORT_R_COL="@ + word@);
    }
    let word = word_of_direction(state.sort_r_dir);
    add_line(&mut out, "SORT_R_DIR=", word, Ghost(lines));
    proof {
        lines = lines.push("SORT_R_DIR="@ + word@);
    }
    let word = word_of_bool(state.dark_mode);
    add_line(&mut out, "DARK_MODE=", word, Ghost(lines));
    proof {
        lines = lines.push("DARK_MODE="@ + word@);
    }
    let word = word_of_bool(state.show_hidden);
    add_line(&mut out, "SHOW_HIDDEN=", word, Ghost(lines));
    proof {
        lines = lines.push("SHOW_HIDDEN="@ + word@);
    }
    add_line(&mut out, "EXT_EDITOR=", state.external_editor.as_str(), Ghost(lines));
    proof {
        lines = lines.push("EXT_EDITOR="@ + state.external_editor@);
    }
    let word = word_of_dir_sort(state.dir_sort);
    add_line(&mut out, "DIR_SORT=", word, Ghost(lines));
    proof {
        lines = lines.push("DIR_SORT="@ + word@);
        assert(lines =~= state@.head());
    }
    let ghost list = state.bookmarks.deep_view();
    let mut i: usize = 0;
    assert(list.take(0) =~= seq![]);
    assert(lines =~= state@.head() + bookmark_lines(list.take(0)));
    while i < state.bookmarks.len()
        invariant
            i <= state.bookmarks.len(),
            list == state.bookmarks.deep_view(),
            lines == state@.head() + bookmark_lines(list.take(i as int)),
            out@ == unlines(lines),
        decreases state.bookmarks.len() - i,
    {
        let bm = &state.bookmarks[i];
        let ghost before = lines;
        proof {
            assert(list.take(i + 1).drop_last() == list.take(i as int));
            assert(list.take(i + 1).last() == bm@);
        }
        add_line(&mut out, "BM_NAME=", bm.name.as_str(), Ghost(lines));
        proof {
            lines = lines.push("BM_NAME="@ + bm.name@);
        }
        let left = bm.left.text();
        add_line(&mut out, "BM_LEFT=", left.as_str(), Ghost(lines));
        proof {
            lines = lines.push("BM_LEFT="@ + left@);
        }
        let right = match &bm.right {
            Some(p) => p.text(),
            None => String::new(),
        };
        add_line(&mut out, "BM_RIGHT=", right.as_str(), Ghost(lines));
        proof {
            lines = lines.push("BM_RIGHT="@ + right@);
            assert(lines =~= before + lines_for(bm@));
            assert(before + lines_for(bm@) =~= state@.head() + (bookmark_lines(
                list.take(i as int),
            ) + lines_for(bm@)));
        }
        i += 1;
    }
    assert(list.take(list.len() as int) == list);
    out
}

// ---------------------------------------------------------------------------
// Loading
// ---------------------------------------------------------------------------

/// What a line speaks of, and what it says.
fn parse_line(line: &str) -> (r: Option<(Key, String)>)
    ensures
        r is Some == read_line(line@) is Some,
        r matches Some((key, value)) ==> read_line(line@) == Some((key, value@)),
{
    proof {
        lemma_key_lengths();
    }
    if let Some(v) = text::strip_prefix(line, "LEFT=") {
        return Some((Key::Left, v));
    }
    if let Some(v) = text::strip_prefix(line, "RIGHT=") {
        return Some((Key::Right, v));
    }
    if let Some(v) = text::strip_prefix(line, "SORT_L_COL=") {
        return Some((Key::SortLCol, v));
    }
    if let Some(v) = text::strip_prefix(line, "SORT_L_DIR=") {
        return Some((Key::SortLDir, v));
    }
    if let Some(v) = text::strip_prefix(line, "SORT_R_COL=") {
        return Some((Key::SortRCol, v));
    }
    if let Some(v) = text::strip_prefix(line, "SORT_R_DIR=") {
        return Some((Key::SortRDir, v));
    }
    if let Some(v) = text::strip_prefix(line, "DARK_MODE=") {
        return Some((Key::DarkMode, v));
    }
    if let Some(v) = text::strip_prefix(line, "DIR_SORT=") {
        return Some((Key::DirSort, v));
    }
    if let Some(v) = text::strip_prefix(line, "BM_NAME=") {
        return Some((Key::BmName, v));
    }
    if let Some(v) = text::strip_prefix(line, "BM_LEFT=") {
        return Some((Key::BmLeft, v));
    }
    if let Some(v) = text::strip_prefix(line, "BM_RIGHT=") {
        return Some((Key::BmRight, v));
    }
    if let Some(v) = text::strip_prefix(line, "BOOKMARK=") {
        return Some((Key::Bookmark, v));
    }
    None
}

proof fn lemma_key_lengths()
    ensures
        "LEFT="@.len() == 5,
        "RIGHT="@.len() == 6,
        "SORT_L_COL="@.len() == 11,
        "SORT_L_DIR="@.len() == 11,
        "SORT_R_COL="@.len() == 11,
        "SORT_R_DIR="@.len() == 11,
        "DARK_MODE="@.len() == 10,
        "DIR_SORT="@.len() == 9,
        "BM_NAME="@.len() == 8,
        "BM_LEFT="@.len() == 8,
        "BM_RIGHT="@.len() == 9,
        "BOOKMARK="@.len() == 9,
{
    reveal_strlit("LEFT=");
    reveal_strlit("RIGHT=");
    reveal_strlit("SORT_L_COL=");
    reveal_strlit("SORT_L_DIR=");
    reveal_strlit("SORT_R_COL=");
    reveal_strlit("SORT_R_DIR=");
    reveal_strlit("DARK_MODE=");
    reveal_strlit("DIR_SORT=");
    reveal_strlit("BM_NAME=");
    reveal_strlit("BM_LEFT=");
    reveal_strlit("BM_RIGHT=");
    reveal_strlit("BOOKMARK=");
}

/// The path that a line says.
pub fn path_in_line(line: &str) -> (r: Option<String>)
    ensures
        r.deep_view() == path_in(line@),
{
    match parse_line(line) {
        Some((key, value)) => {
            if key == Key::Left || key == Key::Right || key == Key::BmLeft || key == Key::BmRight
                || key == Key::Bookmark {
                Some(text::trim(value.as_str()))
            } else {
                None
            }
        },
        None => None,
    }
}

fn accept_path(probe: &Option<PathProbe>) -> (r: Option<DirPath>)
    ensures
        r.deep_view() == valid_path(probe_view(*probe)),
{
    match probe {
        Some(p) => {
            if p.is_dir {
                Some(p.path.clone())
            } else {
                None
            }
        },
        None => None,
    }
}

fn find_value(lines: &Vec<String>, key: &str) -> (r: Option<String>)
    ensures
        r.deep_view() == first_value(lines.deep_view(), key@),
{
    let ghost all = lines.deep_view();
    let mut i: usize = 0;
    assert(all.skip(0) == all);
    while i < lines.len()
        invariant
            i <= lines.len(),
            all == lines.deep_view(),
            first_value(all, key@) == first_value(all.skip(i as int), key@),
        decreases lines.len() - i,
    {
        assert(all.skip(i as int)[0] == lines[i as int]@);
        assert(all.skip(i as int).drop_first() == all.skip(i + 1));
        if let Some(v) = text::strip_prefix(lines[i].as_str(), key) {
            return Some(v);
        }
        i += 1;
    }
    None
}

/// What was read so far.
struct Loading {
    left: Option<DirPath>,
    right: Option<DirPath>,
    bookmarks: Vec<Bookmark>,
    sort_l_col: Option<SortColumn>,
    sort_l_dir: Option<SortDir>,
    sort_r_col: Option<SortColumn>,
    sort_r_dir: Option<SortDir>,
    dark_mode: bool,
    bm_name: Option<String>,
    bm_left: Option<DirPath>,
}

impl View for Loading {
    type V = LoadingView;

    closed spec fn view(&self) -> LoadingView {
        LoadingView {
            left: self.left.deep_view(),
            right: self.right.deep_view(),
            bookmarks: self.bookmarks.deep_view(),
            sort_l_col: self.sort_l_col,
            sort_l_dir: self.sort_l_dir,
            sort_r_col: self.sort_r_col,
            sort_r_dir: self.sort_r_dir,
            dark_mode: self.dark_mode,
            bm_name: self.bm_name.deep_view(),
            bm_left: self.bm_left.deep_view(),
        }
    }
}

impl Loading {
    fn take_line(&mut self, line: &str, probe: &Option<PathProbe>)
        ensures
            final(self)@ == old(self)@.after(line@, probe_view(*probe)),
    {
        let (key, value) = match parse_line(line) {
            Some(kv) => kv,
            None => {
                return;
            },
        };
        let word = text::trim(value.as_str());
        match key {
            Key::Left => {
                self.left = accept_path(probe);
            },
            Key::Right => {
                self.right = accept_path(probe);
            },
            Key::SortLCol => {
                self.sort_l_col = parse_column(word.as_str());
            },
            Key::SortLDir => {
                self.sort_l_dir = parse_direction(word.as_str());
            },
            Key::SortRCol => {
                self.sort_r_col = parse_column(word.as_str());
            },
            Key::SortRDir => {
                self.sort_r_dir = parse_direction(word.as_str());
            },
            Key::DarkMode => {
                self.dark_mode = text::same(word.as_str(), "true");
            },
            Key::DirSort => {},
            Key::BmName => {
                self.bm_name = Some(word);
            },
            Key::BmLeft => {
                self.bm_left = accept_path(probe);
            },
            Key::BmRight => {
                let name = self.bm_name.take();
                let left = self.bm_left.take();
                if let (Some(name), Some(left)) = (name, left) {
                    let bm = Bookmark { name, left, right: accept_path(probe) };
                    self.bookmarks.push(bm);
                    assert(self@.bookmarks =~= old(self)@.bookmarks.push(bm@));
                }
            },
            Key::Bookmark => {
                if let Some(p) = accept_path(probe) {
                    let bm = Bookmark { name: p.file_name_or_empty(), left: p, right: None };
                    self.bookmarks.push(bm);
                    assert(self@.bookmarks =~= old(self)@.bookmarks.push(bm@));
                }
            },
        }
    }
}

/// Reads a kept state. `probes` holds, for each line, what the file system tells of the path
/// in it; paths of no directory are passed over.
pub fn load_state(content: &str, probes: &Vec<Option<PathProbe>>) -> (r: Saved)
    requires
        probes.len() == text::lines_of(content@).len(),
    ensures
        r@ == saved_in(text::lines_of(content@), probe_views(probes@)),
{
    let lines = text::lines(content);
    let ghost all = lines.deep_view();
    let ghost told = probe_views(probes@);
    assert(all.len() == lines.len());
    let mut l = Loading {
        left: None,
        right: None,
        bookmarks: Vec::new(),
        sort_l_col: None,
        sort_l_dir: None,
        sort_r_col: None,
        sort_r_dir: None,
        dark_mode: true,
        bm_name: None,
        bm_left: None,
    };
    assert(l@.bookmarks =~= seq![]);
    let mut i: usize = 0;
    while i < lines.len()
        invariant
            i <= lines.len(),
            probes.len() == lines.len(),
            all == lines.deep_view(),
            told == probe_views(probes@),
            l@ == loaded(all, told, i as int),
        decreases lines.len() - i,
    {
        assert(all[i as int] == lines[i as int]@);
        assert(told[i as int] == probe_view(probes[i as int]));
        l.take_line(lines[i].as_str(), &probes[i]);
        i += 1;
    }
    let dir_sort = match find_value(&lines, "DIR_SORT=") {
        Some(v) => {
            let word = text::trim(v.as_str());
            if text::same(word.as_str(), "FirstByName") {
                DirSort::FirstByName
            } else if text::same(word.as_str(), "Mixed") {
                DirSort::Mixed
            } else {
                DirSort::FirstByCol
            }
        },
        None => DirSort::FirstByCol,
    };
    let show_hidden = match find_value(&lines, "SHOW_HIDDEN=") {
        Some(v) => {
            let word = text::trim(v.as_str());
            text::same(word.as_str(), "true")
        },
        None => false,
    };
    let external_editor = match find_value(&lines, "EXT_EDITOR=") {
        Some(v) => text::trim(v.as_str()),
        None => String::new(),
    };
    Saved {
        left: l.left,
        right: l.right,
        bookmarks: l.bookmarks,
        sort_l_col: l.sort_l_col,
        sort_l_dir: l.sort_l_dir,
        sort_r_col: l.sort_r_col,
        sort_r_dir: l.sort_r_dir,
        dark_mode: l.dark_mode,
        dir_sort,
        show_hidden,
        external_editor,
    }
}

/// What there is without a kept state.
pub fn no_state() -> (r: Saved)
    ensures
        r@ == saved_in(seq![], seq![]),
{
    let r = Saved {
        left: None,
        right: None,
        bookmarks: Vec::new(),
        sort_l_col: None,
        sort_l_dir: None,
        sort_r_col: None,
        sort_r_dir: None,
        dark_mode: true,
        dir_sort: DirSort::FirstByCol,
        show_hidden: false,
        external_editor: String::new(),
    };
    assert(r@.bookmarks =~= seq![]);
    r
}

} // verus!
