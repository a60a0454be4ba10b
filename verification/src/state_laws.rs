//! A kept state reads back as it was.

use crate::bookmark::{self, BookmarkView};
use crate::entry::{DirSort, SortColumn, SortDir};
use crate::path::PathView;
use crate::state_file::{self, Key, LoadingView, ProbeView, SavedView, StateView};
use crate::text;
use vstd::prelude::*;

verus! {

// ---------------------------------------------------------------------------
// Lines
// ---------------------------------------------------------------------------

/// Whether a text can stand in a line and be found again: it holds no line break, and no
/// white space stands at either end of it.
pub open spec fn is_clean(t: Seq<char>) -> bool {
    !t.contains('\n') && (t.len() > 0 ==> !text::is_white(t[0]) && !text::is_white(t.last()))
}

/// Whether a line is one that a text with line endings can be cut into.
pub open spec fn is_line(l: Seq<char>) -> bool {
    !l.contains('\n') && (l.len() > 0 ==> l.last() != '\r')
}

/// A clean text has nothing to trim.
pub proof fn clean_is_trimmed(t: Seq<char>)
    requires
        is_clean(t),
    ensures
        text::trimmed(t) == t,
{
}

proof fn lemma_unlines_front(lines: Seq<Seq<char>>)
    requires
        lines.len() > 0,
    ensures
        state_file::unlines(lines) == lines[0] + "\n"@ + state_file::unlines(lines.drop_first()),
    decreases lines.len(),
{
    let init = lines.drop_last();
    let rest = lines.drop_first();
    if lines.len() == 1 {
        assert(init =~= Seq::<Seq<char>>::empty());
        assert(rest =~= Seq::<Seq<char>>::empty());
        assert(state_file::unlines(init) =~= Seq::<char>::empty());
        assert(state_file::unlines(rest) =~= Seq::<char>::empty());
        assert(state_file::unlines(lines) =~= lines[0] + "\n"@ + state_file::unlines(rest));
    } else {
        lemma_unlines_front(init);
        assert(init.drop_first() =~= rest.drop_last());
        assert(rest.last() == lines.last());
        assert(init[0] == lines[0]);
        assert(state_file::unlines(lines) =~= lines[0] + "\n"@ + state_file::unlines(rest));
    }
}

/// Lines as they are found again: a carriage return at the end of one counts as part of its
/// ending.
pub open spec fn cut(lines: Seq<Seq<char>>) -> Seq<Seq<char>> {
    Seq::new(lines.len(), |i: int| text::without_return(lines[i]))
}

/// Lines written one after the other are found again, each without a carriage return at its
/// end.
proof fn lemma_lines_cut(lines: Seq<Seq<char>>)
    requires
        forall|i: int| 0 <= i < lines.len() ==> !(#[trigger] lines[i]).contains('\n'),
    ensures
        text::lines_of(state_file::unlines(lines)) == cut(lines),
    decreases lines.len(),
{
    if lines.len() == 0 {
        assert(text::lines_of(state_file::unlines(lines)) =~= cut(lines));
    } else {
        let rest = lines.drop_first();
        assert forall|i: int| 0 <= i < rest.len() implies !(#[trigger] rest[i]).contains('\n') by {
            assert(rest[i] == lines[i + 1]);
        }
        lemma_lines_cut(rest);
        lemma_unlines_front(lines);
        reveal_strlit("\n");
        let all = state_file::unlines(lines);
        let first = lines[0];
        let n = first.len() as int;
        assert(!lines[0].contains('\n'));
        assert(all[n] == '\n');
        assert forall|k: int| 0 <= k < n implies all[k] != '\n' by {
            assert(all[k] == first[k]);
            assert(first.contains(first[k]));
        }
        text::lemma_first_of_is(all, '\n', n);
        assert(all.subrange(0, n) =~= first);
        assert(text::after(all, n + 1) =~= state_file::unlines(rest));
        assert(cut(lines) =~= seq![text::without_return(first)] + cut(rest));
    }
}

/// Lines written one after the other are found again as they were.
pub proof fn lines_read_back(lines: Seq<Seq<char>>)
    requires
        forall|i: int| 0 <= i < lines.len() ==> is_line(#[trigger] lines[i]),
    ensures
        text::lines_of(state_file::unlines(lines)) == lines,
{
    assert forall|i: int| 0 <= i < lines.len() implies !(#[trigger] lines[i]).contains('\n') by {
        assert(is_line(lines[i]));
    }
    lemma_lines_cut(lines);
    assert forall|i: int| 0 <= i < lines.len() implies cut(lines)[i] == #[trigger] lines[i] by {
        assert(is_line(lines[i]));
    }
    assert(cut(lines) =~= lines);
}

/// Behind its key a value is found again.
pub proof fn key_found(key: Seq<char>, value: Seq<char>)
    ensures
        text::begins_with(key + value, key),
        text::after(key + value, key.len() as int) == value,
{
    let line = key + value;
    assert(line.subrange(0, key.len() as int) =~= key);
    assert(text::after(line, key.len() as int) =~= value);
}

/// A line that differs from a key does not begin with it.
pub proof fn key_missed(line: Seq<char>, key: Seq<char>, at: int)
    requires
        0 <= at < line.len(),
        at < key.len(),
        line[at] != key[at],
    ensures
        !text::begins_with(line, key),
{
    if text::begins_with(line, key) {
        assert(line.subrange(0, key.len() as int)[at] == line[at]);
    }
}

/// A clean value behind a key without line breaks makes a line.
pub proof fn keyed_is_line(key: Seq<char>, value: Seq<char>)
    requires
        is_clean(value),
        key.len() > 0,
        !key.contains('\n'),
        key.last() != '\r',
    ensures
        is_line(key + value),
{
    let line = key + value;
    if line.contains('\n') {
        let k = choose|k: int| 0 <= k < line.len() && line[k] == '\n';
        if k < key.len() {
            assert(key[k] == '\n');
        } else {
            assert(value[k - key.len()] == '\n');
        }
    }
    if value.len() > 0 {
        assert(line.last() == value.last());
    } else {
        assert(line.last() == key.last());
    }
}

// ---------------------------------------------------------------------------
// Keys
// ---------------------------------------------------------------------------

proof fn lemma_reveal_keys()
    ensures
        "LEFT="@ =~= seq!['L', 'E', 'F', 'T', '='],
        "RIGHT="@ =~= seq!['R', 'I', 'G', 'H', 'T', '='],
        "SORT_L_COL="@ =~= seq!['S', 'O', 'R', 'T', '_', 'L', '_', 'C', 'O', 'L', '='],
        "SORT_L_DIR="@ =~= seq!['S', 'O', 'R', 'T', '_', 'L', '_', 'D', 'I', 'R', '='],
        "SORT_R_COL="@ =~= seq!['S', 'O', 'R', 'T', '_', 'R', '_', 'C', 'O', 'L', '='],
        "SORT_R_DIR="@ =~= seq!['S', 'O', 'R', 'T', '_', 'R', '_', 'D', 'I', 'R', '='],
        "DARK_MODE="@ =~= seq!['D', 'A', 'R', 'K', '_', 'M', 'O', 'D', 'E', '='],
        "SHOW_HIDDEN="@ =~= seq!['S', 'H', 'O', 'W', '_', 'H', 'I', 'D', 'D', 'E', 'N', '='],
        "EXT_EDITOR="@ =~= seq!['E', 'X', 'T', '_', 'E', 'D', 'I', 'T', 'O', 'R', '='],
        "DIR_SORT="@ =~= seq!['D', 'I', 'R', '_', 'S', 'O', 'R', 'T', '='],
        "BM_NAME="@ =~= seq!['B', 'M', '_', 'N', 'A', 'M', 'E', '='],
        "BM_LEFT="@ =~= seq!['B', 'M', '_', 'L', 'E', 'F', 'T', '='],
        "BM_RIGHT="@ =~= seq!['B', 'M', '_', 'R', 'I', 'G', 'H', 'T', '='],
        "BOOKMARK="@ =~= seq!['B', 'O', 'O', 'K', 'M', 'A', 'R', 'K', '='],
{
    reveal_strlit("LEFT=");
    reveal_strlit("RIGHT=");
    reveal_strlit("SORT_L_COL=");
    reveal_strlit("SORT_L_DIR=");
    reveal_strlit("SORT_R_COL=");
    reveal_strlit("SORT_R_DIR=");
    reveal_strlit("DARK_MODE=");
    reveal_strlit("SHOW_HIDDEN=");
    reveal_strlit("EXT_EDITOR=");
    reveal_strlit("DIR_SORT=");
    reveal_strlit("BM_NAME=");
    reveal_strlit("BM_LEFT=");
    reveal_strlit("BM_RIGHT=");
    reveal_strlit("BOOKMARK=");
}

/// What the key of a line says of the line.
pub open spec fn key_text(key: Key) -> Seq<char> {
    match key {
        Key::Left => "LEFT="@,
        Key::Right => "RIGHT="@,
        Key::SortLCol => "SORT_L_COL="@,
        Key::SortLDir => "SORT_L_DIR="@,
        Key::SortRCol => "SORT_R_COL="@,
        Key::SortRDir => "SORT_R_DIR="@,
        Key::DarkMode => "DARK_MODE="@,
        Key::DirSort => "DIR_SORT="@,
        Key::BmName => "BM_NAME="@,
        Key::BmLeft => "BM_LEFT="@,
        Key::BmRight => "BM_RIGHT="@,
        Key::Bookmark => "BOOKMARK="@,
    }
}

/// A line with a key reads as that key and what stands behind it.
pub proof fn keyed_line_reads(key: Key, value: Seq<char>)
    ensures
        state_file::read_line(key_text(key) + value) == Some((key, value)),
{
    lemma_reveal_keys();
    let line = key_text(key) + value;
    key_found(key_text(key), value);
    if key != Key::Left {
        key_missed(line, "LEFT="@, 0);
        if key != Key::Right {
            key_missed(line, "RIGHT="@, 0);
            match key {
                Key::SortLCol => {},
                Key::SortLDir => key_missed(line, "SORT_L_COL="@, 7),
                Key::SortRCol => {
                    key_missed(line, "SORT_L_COL="@, 5);
                    key_missed(line, "SORT_L_DIR="@, 5);
                },
                Key::SortRDir => {
                    key_missed(line, "SORT_L_COL="@, 5);
                    key_missed(line, "SORT_L_DIR="@, 5);
                    key_missed(line, "SORT_R_COL="@, 7);
                },
                _ => {
                    key_missed(line, "SORT_L_COL="@, 0);
                    key_missed(line, "SORT_L_DIR="@, 0);
                    key_missed(line, "SORT_R_COL="@, 0);
                    key_missed(line, "SORT_R_DIR="@, 0);
                    if key == Key::DirSort {
                        key_missed(line, "DARK_MODE="@, 1);
                    } else if key != Key::DarkMode {
                        key_missed(line, "DARK_MODE="@, 0);
                        key_missed(line, "DIR_SORT="@, 0);
                        if key == Key::Bookmark {
                            key_missed(line, "BM_NAME="@, 1);
                            key_missed(line, "BM_LEFT="@, 1);
                            key_missed(line, "BM_RIGHT="@, 1);
                        } else if key != Key::BmName {
                            key_missed(line, "BM_NAME="@, 3);
                            if key == Key::BmRight {
                                key_missed(line, "BM_LEFT="@, 3);
                            }
                        }
                    }
                },
            }
        }
    }
}

/// A line with one of the keys that are looked up on their own is passed over.
proof fn lemma_foreign_lines(value: Seq<char>)
    ensures
        state_file::read_line("SHOW_HIDDEN="@ + value) is None,
        state_file::read_line("EXT_EDITOR="@ + value) is None,
{
    lemma_reveal_keys();
    let a = "SHOW_HIDDEN="@ + value;
    key_missed(a, "LEFT="@, 0);
    key_missed(a, "RIGHT="@, 0);
    key_missed(a, "SORT_L_COL="@, 1);
    key_missed(a, "SORT_L_DIR="@, 1);
    key_missed(a, "SORT_R_COL="@, 1);
    key_missed(a, "SORT_R_DIR="@, 1);
    key_missed(a, "DARK_MODE="@, 0);
    key_missed(a, "DIR_SORT="@, 0);
    key_missed(a, "BM_NAME="@, 0);
    key_missed(a, "BM_LEFT="@, 0);
    key_missed(a, "BM_RIGHT="@, 0);
    key_missed(a, "BOOKMARK="@, 0);
    let b = "EXT_EDITOR="@ + value;
    key_missed(b, "LEFT="@, 0);
    key_missed(b, "RIGHT="@, 0);
    key_missed(b, "SORT_L_COL="@, 0);
    key_missed(b, "SORT_L_DIR="@, 0);
    key_missed(b, "SORT_R_COL="@, 0);
    key_missed(b, "SORT_R_DIR="@, 0);
    key_missed(b, "DARK_MODE="@, 0);
    key_missed(b, "DIR_SORT="@, 0);
    key_missed(b, "BM_NAME="@, 0);
    key_missed(b, "BM_LEFT="@, 0);
    key_missed(b, "BM_RIGHT="@, 0);
    key_missed(b, "BOOKMARK="@, 0);
}

proof fn lemma_first_value(lines: Seq<Seq<char>>, key: Seq<char>, at: int)
    requires
        0 <= at < lines.len(),
        text::begins_with(lines[at], key),
        forall|k: int| 0 <= k < at ==> !text::begins_with(#[trigger] lines[k], key),
    ensures
        state_file::first_value(lines, key) == Some(text::after(lines[at], key.len() as int)),
    decreases at,
{
    if at > 0 {
        assert(!text::begins_with(lines[0], key));
        let rest = lines.drop_first();
        assert(rest[at - 1] == lines[at]);
        assert forall|k: int| 0 <= k < at - 1 implies !text::begins_with(#[trigger] rest[k], key) by {
            assert(rest[k] == lines[k + 1]);
        }
        lemma_first_value(rest, key, at - 1);
    }
}

// ---------------------------------------------------------------------------
// Words
// ---------------------------------------------------------------------------

proof fn lemma_column_word(c: SortColumn)
    ensures
        is_clean(state_file::column_word(c)),
        state_file::column_of(state_file::column_word(c)) == Some(c),
{
    reveal_strlit("Name");
    reveal_strlit("Ext");
    reveal_strlit("Size");
    reveal_strlit("Date");
    reveal_strlit("Attr");
    if c == SortColumn::Size {
        assert("Size"@[0] != "Name"@[0]);
    } else if c == SortColumn::Date {
        assert("Date"@[0] != "Name"@[0] && "Date"@[0] != "Size"@[0]);
    } else if c == SortColumn::Attr {
        assert("Attr"@[0] != "Name"@[0] && "Attr"@[0] != "Size"@[0] && "Attr"@[0] != "Date"@[0]);
    }
}

proof fn lemma_direction_word(d: SortDir)
    ensures
        is_clean(state_file::direction_word(d)),
        state_file::direction_of(state_file::direction_word(d)) == Some(d),
{
    reveal_strlit("Asc");
    reveal_strlit("Desc");
    assert("Asc"@[0] != "Desc"@[0]);
}

proof fn lemma_dir_sort_word(d: DirSort)
    ensures
        is_clean(state_file::dir_sort_word(d)),
        state_file::dir_sort_of(state_file::dir_sort_word(d)) == d,
{
    reveal_strlit("FirstByName");
    reveal_strlit("FirstByCol");
    reveal_strlit("Mixed");
    assert("FirstByName"@.len() == 11);
    assert("FirstByCol"@.len() == 10);
    assert("Mixed"@.len() == 5);
}

/// The word for a truth value can be kept and stands for it again.
pub proof fn bool_word_kept(b: bool)
    ensures
        is_clean(state_file::bool_word(b)),
        (state_file::bool_word(b) == "true"@) == b,
{
    reveal_strlit("true");
    reveal_strlit("false");
    assert("true"@.len() != "false"@.len());
}

// ---------------------------------------------------------------------------
// The round trip
// ---------------------------------------------------------------------------

/// Whether the text of a path can be kept and stands for the path again, where `resolve`
/// gives the path for a text.
pub open spec fn path_kept(p: PathView, resolve: spec_fn(Seq<char>) -> PathView) -> bool {
    is_clean(p.text()) && p.text().len() > 0 && resolve(p.text()) == p
}

/// Whether a bookmark can be kept.
pub open spec fn bookmark_kept(
    bm: BookmarkView,
    resolve: spec_fn(Seq<char>) -> PathView,
) -> bool {
    is_clean(bm.name) && path_kept(bm.left, resolve) && (bm.right matches Some(p) ==> path_kept(
        p,
        resolve,
    ))
}

/// Whether a state can be kept. Of the editor it is asked only that it holds no line break.
pub open spec fn state_kept(s: StateView, resolve: spec_fn(Seq<char>) -> PathView) -> bool {
    &&& path_kept(s.left, resolve)
    &&& path_kept(s.right, resolve)
    &&& !s.external_editor.contains('\n')
    &&& forall|i: int| 0 <= i < s.bookmarks.len() ==> bookmark_kept(#[trigger] s.bookmarks[i], resolve)
}

/// Whether the file system still has every directory that lines say: a path is that of a
/// directory, and the empty path is that of none.
pub open spec fn directories_there(
    lines: Seq<Seq<char>>,
    probes: Seq<Option<ProbeView>>,
    resolve: spec_fn(Seq<char>) -> PathView,
) -> bool {
    &&& probes.len() == lines.len()
    &&& forall|i: int|
        0 <= i < lines.len() ==> (state_file::path_in(#[trigger] lines[i]) matches Some(t) ==> (
        probes[i] matches Some(p) && p.path == resolve(t) && if t.len() == 0 {
            !p.is_dir
        } else {
            p.is_dir
        }))
}

/// The state that is read where everything was kept. The editor comes back without white space
/// at its ends.
pub open spec fn same_state(s: StateView) -> SavedView {
    SavedView {
        left: Some(s.left),
        right: Some(s.right),
        bookmarks: s.bookmarks,
        sort_l_col: Some(s.sort_l_col),
        sort_l_dir: Some(s.sort_l_dir),
        sort_r_col: Some(s.sort_r_col),
        sort_r_dir: Some(s.sort_r_dir),
        dark_mode: s.dark_mode,
        dir_sort: s.dir_sort,
        show_hidden: s.show_hidden,
        external_editor: text::trimmed(s.external_editor),
    }
}

/// What was read after the lines that stand in front of the bookmarks.
spec fn after_head(s: StateView) -> LoadingView {
    LoadingView {
        left: Some(s.left),
        right: Some(s.right),
        bookmarks: seq![],
        sort_l_col: Some(s.sort_l_col),
        sort_l_dir: Some(s.sort_l_dir),
        sort_r_col: Some(s.sort_r_col),
        sort_r_dir: Some(s.sort_r_dir),
        dark_mode: s.dark_mode,
        bm_name: None,
        bm_left: None,
    }
}

/// A kept path is found again.
proof fn lemma_path_found(
    key: Key,
    p: PathView,
    lines: Seq<Seq<char>>,
    probes: Seq<Option<ProbeView>>,
    i: int,
    resolve: spec_fn(Seq<char>) -> PathView,
)
    requires
        state_file::says_path(key),
        0 <= i < lines.len(),
        directories_there(lines, probes, resolve),
        path_kept(p, resolve),
        lines[i] == key_text(key) + p.text(),
    ensures
        state_file::valid_path(probes[i]) == Some(p),
{
    keyed_line_reads(key, p.text());
    clean_is_trimmed(p.text());
    assert(state_file::path_in(lines[i]) == Some(p.text()));
}

/// The empty path is found to be none.
proof fn lemma_no_path_found(
    lines: Seq<Seq<char>>,
    probes: Seq<Option<ProbeView>>,
    i: int,
    resolve: spec_fn(Seq<char>) -> PathView,
)
    requires
        0 <= i < lines.len(),
        directories_there(lines, probes, resolve),
        lines[i] == key_text(Key::BmRight) + Seq::<char>::empty(),
    ensures
        state_file::valid_path(probes[i]) is None,
{
    let e = Seq::<char>::empty();
    keyed_line_reads(Key::BmRight, e);
    assert(text::trimmed(e) =~= e);
    assert(state_file::path_in(lines[i]) == Some(e));
}

proof fn lemma_head(
    s: StateView,
    lines: Seq<Seq<char>>,
    probes: Seq<Option<ProbeView>>,
    resolve: spec_fn(Seq<char>) -> PathView,
)
    requires
        state_kept(s, resolve),
        lines == s.lines(),
        directories_there(lines, probes, resolve),
    ensures
        lines.len() >= 10,
        state_file::loaded(lines, probes, 10) == after_head(s),
{
    let head = s.head();
    assert forall|k: int| 0 <= k < 10 implies lines[k] == head[k] by {}
    let l0 = state_file::loaded(lines, probes, 0);
    keyed_line_reads(Key::Left, s.left.text());
    lemma_path_found(Key::Left, s.left, lines, probes, 0, resolve);
    let l1 = state_file::loaded(lines, probes, 1);
    assert(l1 == (LoadingView { left: Some(s.left), ..l0 }));
    keyed_line_reads(Key::Right, s.right.text());
    lemma_path_found(Key::Right, s.right, lines, probes, 1, resolve);
    let l2 = state_file::loaded(lines, probes, 2);
    assert(l2 == (LoadingView { right: Some(s.right), ..l1 }));
    lemma_column_word(s.sort_l_col);
    lemma_column_word(s.sort_r_col);
    lemma_direction_word(s.sort_l_dir);
    lemma_direction_word(s.sort_r_dir);
    bool_word_kept(s.dark_mode);
    clean_is_trimmed(state_file::column_word(s.sort_l_col));
    clean_is_trimmed(state_file::column_word(s.sort_r_col));
    clean_is_trimmed(state_file::direction_word(s.sort_l_dir));
    clean_is_trimmed(state_file::direction_word(s.sort_r_dir));
    clean_is_trimmed(state_file::bool_word(s.dark_mode));
    keyed_line_reads(Key::SortLCol, state_file::column_word(s.sort_l_col));
    let l3 = state_file::loaded(lines, probes, 3);
    assert(l3 == (LoadingView { sort_l_col: Some(s.sort_l_col), ..l2 }));
    keyed_line_reads(Key::SortLDir, state_file::direction_word(s.sort_l_dir));
    let l4 = state_file::loaded(lines, probes, 4);
    assert(l4 == (LoadingView { sort_l_dir: Some(s.sort_l_dir), ..l3 }));
    keyed_line_reads(Key::SortRCol, state_file::column_word(s.sort_r_col));
    let l5 = state_file::loaded(lines, probes, 5);
    assert(l5 == (LoadingView { sort_r_col: Some(s.sort_r_col), ..l4 }));
    keyed_line_reads(Key::SortRDir, state_file::direction_word(s.sort_r_dir));
    let l6 = state_file::loaded(lines, probes, 6);
    assert(l6 == (LoadingView { sort_r_dir: Some(s.sort_r_dir), ..l5 }));
    keyed_line_reads(Key::DarkMode, state_file::bool_word(s.dark_mode));
    let l7 = state_file::loaded(lines, probes, 7);
    assert(l7 == (LoadingView { dark_mode: s.dark_mode, ..l6 }));
    lemma_foreign_lines(state_file::bool_word(s.show_hidden));
    let l8 = state_file::loaded(lines, probes, 8);
    assert(l8 == l7);
    lemma_foreign_lines(s.external_editor);
    let l9 = state_file::loaded(lines, probes, 9);
    assert(l9 == l8);
    keyed_line_reads(Key::DirSort, state_file::dir_sort_word(s.dir_sort));
    assert(state_file::loaded(lines, probes, 10) == l9);
}

proof fn lemma_bookmark_lines_len(list: Seq<BookmarkView>)
    ensures
        state_file::bookmark_lines(list).len() == 3 * list.len(),
    decreases list.len(),
{
    if list.len() > 0 {
        lemma_bookmark_lines_len(list.drop_last());
    }
}

/// The lines for the bookmark at `k`.
proof fn lemma_bookmark_lines_at(list: Seq<BookmarkView>, k: int)
    requires
        0 <= k < list.len(),
    ensures
        state_file::bookmark_lines(list).len() == 3 * list.len(),
        state_file::bookmark_lines(list)[3 * k] == state_file::lines_for(list[k])[0],
        state_file::bookmark_lines(list)[3 * k + 1] == state_file::lines_for(list[k])[1],
        state_file::bookmark_lines(list)[3 * k + 2] == state_file::lines_for(list[k])[2],
    decreases list.len(),
{
    lemma_bookmark_lines_len(list);
    lemma_bookmark_lines_len(list.drop_last());
    if k < list.len() - 1 {
        lemma_bookmark_lines_at(list.drop_last(), k);
        assert(list.drop_last()[k] == list[k]);
    }
}

proof fn lemma_bookmarks(
    s: StateView,
    lines: Seq<Seq<char>>,
    probes: Seq<Option<ProbeView>>,
    resolve: spec_fn(Seq<char>) -> PathView,
    k: int,
)
    requires
        state_kept(s, resolve),
        lines == s.lines(),
        directories_there(lines, probes, resolve),
        0 <= k <= s.bookmarks.len(),
    ensures
        state_file::loaded(lines, probes, 10 + 3 * k) == (LoadingView {
            bookmarks: s.bookmarks.take(k),
            ..after_head(s)
        }),
    decreases k,
{
    lemma_head(s, lines, probes, resolve);
    if k == 0 {
        assert(s.bookmarks.take(0) =~= seq![]);
    } else {
        lemma_bookmarks(s, lines, probes, resolve, k - 1);
        let bm = s.bookmarks[k - 1];
        lemma_bookmark_lines_at(s.bookmarks, k - 1);
        let n = 10 + 3 * (k - 1);
        let tail = state_file::bookmark_lines(s.bookmarks);
        assert(s.head().len() == 10);
        assert(lines[n] == tail[3 * (k - 1)]);
        assert(lines[n + 1] == tail[3 * (k - 1) + 1]);
        assert(lines[n + 2] == tail[3 * (k - 1) + 2]);
        assert(bookmark_kept(bm, resolve));
        keyed_line_reads(Key::BmName, bm.name);
        clean_is_trimmed(bm.name);
        let l0 = state_file::loaded(lines, probes, n);
        let l1 = state_file::loaded(lines, probes, n + 1);
        assert(l1 == (LoadingView { bm_name: Some(bm.name), ..l0 }));
        keyed_line_reads(Key::BmLeft, bm.left.text());
        lemma_path_found(Key::BmLeft, bm.left, lines, probes, n + 1, resolve);
        let l2 = state_file::loaded(lines, probes, n + 2);
        assert(l2 == (LoadingView { bm_left: Some(bm.left), ..l1 }));
        let second = bookmark::second_text(bm.right);
        keyed_line_reads(Key::BmRight, second);
        match bm.right {
            Some(p) => lemma_path_found(Key::BmRight, p, lines, probes, n + 2, resolve),
            None => lemma_no_path_found(lines, probes, n + 2, resolve),
        }
        assert(state_file::valid_path(probes[n + 2]) == bm.right);
        let l3 = state_file::loaded(lines, probes, n + 3);
        assert(l3 == (LoadingView { bookmarks: l0.bookmarks.push(bm), ..l0 }));
        assert(s.bookmarks.take(k) =~= s.bookmarks.take(k - 1).push(bm));
    }
}

/// Each line of a kept state but that of the editor can be cut out of the text again.
proof fn lemma_saved_lines(s: StateView, resolve: spec_fn(Seq<char>) -> PathView)
    requires
        state_kept(s, resolve),
    ensures
        forall|i: int|
            0 <= i < s.lines().len() && i != 8 ==> is_line(#[trigger] s.lines()[i]),
{
    lemma_reveal_keys();
    lemma_column_word(s.sort_l_col);
    lemma_column_word(s.sort_r_col);
    lemma_direction_word(s.sort_l_dir);
    lemma_direction_word(s.sort_r_dir);
    bool_word_kept(s.dark_mode);
    bool_word_kept(s.show_hidden);
    lemma_dir_sort_word(s.dir_sort);
    keyed_is_line("LEFT="@, s.left.text());
    keyed_is_line("RIGHT="@, s.right.text());
    keyed_is_line("SORT_L_COL="@, state_file::column_word(s.sort_l_col));
    keyed_is_line("SORT_L_DIR="@, state_file::direction_word(s.sort_l_dir));
    keyed_is_line("SORT_R_COL="@, state_file::column_word(s.sort_r_col));
    keyed_is_line("SORT_R_DIR="@, state_file::direction_word(s.sort_r_dir));
    keyed_is_line("DARK_MODE="@, state_file::bool_word(s.dark_mode));
    keyed_is_line("SHOW_HIDDEN="@, state_file::bool_word(s.show_hidden));
    keyed_is_line("DIR_SORT="@, state_file::dir_sort_word(s.dir_sort));
    let tail = state_file::bookmark_lines(s.bookmarks);
    lemma_bookmark_lines_len(s.bookmarks);
    assert forall|i: int| 0 <= i < s.lines().len() && i != 8 implies is_line(
        #[trigger] s.lines()[i],
    ) by {
        if i >= 10 {
            let k = (i - 10) / 3;
            lemma_bookmark_lines_at(s.bookmarks, k);
            let bm = s.bookmarks[k];
            assert(bookmark_kept(bm, resolve));
            assert(s.lines()[i] == tail[i - 10]);
            keyed_is_line("BM_NAME="@, bm.name);
            keyed_is_line("BM_LEFT="@, bm.left.text());
            keyed_is_line("BM_RIGHT="@, bookmark::second_text(bm.right));
        } else {
            assert(s.lines()[i] == s.head()[i]);
        }
    }
}

/// The settings that are looked up on their own are found again.
proof fn lemma_settings(s: StateView)
    ensures
        state_file::kept_show_hidden(s.lines()) == s.show_hidden,
        state_file::kept_editor(s.lines()) == text::trimmed(s.external_editor),
        state_file::kept_dir_sort(s.lines()) == s.dir_sort,
{
    lemma_show_hidden(s);
    lemma_editor(s);
    lemma_dir_sort(s);
}

proof fn lemma_head_at(s: StateView, k: int)
    requires
        0 <= k < 10,
    ensures
        s.lines()[k] == s.head()[k],
        s.lines().len() >= 10,
{
}

proof fn lemma_show_hidden(s: StateView)
    ensures
        state_file::kept_show_hidden(s.lines()) == s.show_hidden,
{
    let lines = s.lines();
    lemma_reveal_keys();
    bool_word_kept(s.show_hidden);
    clean_is_trimmed(state_file::bool_word(s.show_hidden));
    key_found("SHOW_HIDDEN="@, state_file::bool_word(s.show_hidden));
    assert forall|k: int| 0 <= k < 7 implies !text::begins_with(
        #[trigger] lines[k],
        "SHOW_HIDDEN="@,
    ) by {
        lemma_head_at(s, k);
        key_missed(lines[k], "SHOW_HIDDEN="@, if 2 <= k <= 5 { 1 } else { 0 });
    }
    lemma_head_at(s, 7);
    lemma_first_value(lines, "SHOW_HIDDEN="@, 7);
}

proof fn lemma_editor(s: StateView)
    ensures
        state_file::kept_editor(s.lines()) == text::trimmed(s.external_editor),
{
    let lines = s.lines();
    lemma_reveal_keys();
    key_found("EXT_EDITOR="@, s.external_editor);
    assert forall|k: int| 0 <= k < 8 implies !text::begins_with(
        #[trigger] lines[k],
        "EXT_EDITOR="@,
    ) by {
        lemma_head_at(s, k);
        key_missed(lines[k], "EXT_EDITOR="@, 0);
    }
    lemma_head_at(s, 8);
    lemma_first_value(lines, "EXT_EDITOR="@, 8);
}

proof fn lemma_dir_sort(s: StateView)
    ensures
        state_file::kept_dir_sort(s.lines()) == s.dir_sort,
{
    let lines = s.lines();
    lemma_reveal_keys();
    lemma_dir_sort_word(s.dir_sort);
    clean_is_trimmed(state_file::dir_sort_word(s.dir_sort));
    key_found("DIR_SORT="@, state_file::dir_sort_word(s.dir_sort));
    assert forall|k: int| 0 <= k < 9 implies !text::begins_with(
        #[trigger] lines[k],
        "DIR_SORT="@,
    ) by {
        lemma_head_at(s, k);
        key_missed(lines[k], "DIR_SORT="@, if k == 6 { 1 } else { 0 });
    }
    lemma_head_at(s, 9);
    lemma_first_value(lines, "DIR_SORT="@, 9);
}

/// The lines of a kept state are found again; a carriage return at the end of the editor is
/// taken for a part of the line ending.
proof fn lemma_state_cut(s: StateView, resolve: spec_fn(Seq<char>) -> PathView)
    requires
        state_kept(s, resolve),
    ensures
        ({
            let external_editor = text::without_return(s.external_editor);
            text::lines_of(s.text()) == (StateView { external_editor, ..s }).lines()
        }),
{
    let lines = s.lines();
    let e = s.external_editor;
    let cut_state = StateView { external_editor: text::without_return(e), ..s };
    lemma_saved_lines(s, resolve);
    lemma_reveal_keys();
    let key = "EXT_EDITOR="@;
    assert(lines[8] == s.head()[8]);
    let line = key + e;
    assert(lines[8] == line);
    assert forall|i: int| 0 <= i < lines.len() implies !(#[trigger] lines[i]).contains('\n') by {
        if i == 8 {
            if line.contains('\n') {
                let k = choose|k: int| 0 <= k < line.len() && line[k] == '\n';
                if k >= key.len() {
                    assert(e[k - key.len()] == '\n');
                }
            }
        } else {
            assert(is_line(lines[i]));
        }
    }
    lemma_lines_cut(lines);
    if e.len() > 0 {
        assert(line.last() == e.last());
    }
    assert(text::without_return(line) =~= key + text::without_return(e));
    assert forall|i: int| 0 <= i < lines.len() implies #[trigger] cut(lines)[i]
        == cut_state.lines()[i] by {
        if i != 8 {
            assert(is_line(lines[i]));
        }
    }
    assert(cut(lines) =~= cut_state.lines());
}

/// A state that is saved and loaded again is the same, as long as the paths and names in it
/// hold no line breaks and no white space at their ends, the editor holds no line break, and
/// the directories are still there. Only white space at the ends of the editor is lost.
pub proof fn saved_then_loaded(
    s: StateView,
    probes: Seq<Option<ProbeView>>,
    resolve: spec_fn(Seq<char>) -> PathView,
)
    requires
        state_kept(s, resolve),
        directories_there(text::lines_of(s.text()), probes, resolve),
    ensures
        state_file::saved_in(text::lines_of(s.text()), probes) == same_state(s),
        is_clean(s.external_editor) ==> same_state(s).external_editor == s.external_editor,
{
    let e = s.external_editor;
    let cut_state = StateView { external_editor: text::without_return(e), ..s };
    lemma_state_cut(s, resolve);
    let lines = cut_state.lines();
    assert(!cut_state.external_editor.contains('\n')) by {
        let t = cut_state.external_editor;
        if t.contains('\n') {
            let k = choose|k: int| 0 <= k < t.len() && t[k] == '\n';
            assert(e[k] == '\n');
        }
    }
    lemma_bookmark_lines_len(s.bookmarks);
    lemma_bookmarks(cut_state, lines, probes, resolve, s.bookmarks.len() as int);
    assert(s.bookmarks.take(s.bookmarks.len() as int) =~= s.bookmarks);
    assert(lines.len() == 10 + 3 * s.bookmarks.len());
    lemma_settings(cut_state);
    assert(text::trimmed(text::without_return(e)) == text::trimmed(e));
    if is_clean(e) {
        clean_is_trimmed(e);
    }
}

// ---------------------------------------------------------------------------
// Line by line
// ---------------------------------------------------------------------------

/// The path of a panel is kept where it still leads to a directory, and forgotten otherwise;
/// nothing else changes.
pub proof fn panel_paths_line_by_line(l: LoadingView, value: Seq<char>, path: PathView)
    ensures
        l.after("LEFT="@ + value, Some(ProbeView { path, is_dir: true })) == (LoadingView {
            left: Some(path),
            ..l
        }),
        l.after("LEFT="@ + value, Some(ProbeView { path, is_dir: false })) == (LoadingView {
            left: None,
            ..l
        }),
        l.after("RIGHT="@ + value, Some(ProbeView { path, is_dir: true })) == (LoadingView {
            right: Some(path),
            ..l
        }),
        l.after("RIGHT="@ + value, Some(ProbeView { path, is_dir: false })) == (LoadingView {
            right: None,
            ..l
        }),
{
    keyed_line_reads(Key::Left, value);
    keyed_line_reads(Key::Right, value);
}

/// A bookmark is made of its three lines: the name without blanks around it, the first path, and
/// the second where it leads to a directory. Without a first path there is none.
pub proof fn bookmark_of_three_lines(
    l: LoadingView,
    name: Seq<char>,
    left: Seq<char>,
    right: Seq<char>,
    a: PathView,
    b: ProbeView,
    none: Option<ProbeView>,
)
    ensures
        ({
            let named = l.after("BM_NAME="@ + name, none);
            let first = named.after("BM_LEFT="@ + left, Some(ProbeView { path: a, is_dir: true }));
            let second = first.after("BM_RIGHT="@ + right, Some(b));
            let lost = named.after("BM_LEFT="@ + left, Some(ProbeView { path: a, is_dir: false }));
            &&& second.bookmarks == l.bookmarks + seq![
                BookmarkView {
                    name: text::trimmed(name),
                    left: a,
                    right: if b.is_dir {
                        Some(b.path)
                    } else {
                        None
                    },
                },
            ]
            &&& lost.after("BM_RIGHT="@ + right, Some(b)).bookmarks == l.bookmarks
            &&& second.bm_name is None
            &&& second.left == l.left && second.right == l.right
            &&& second.after("BM_RIGHT="@ + right, Some(b)).bookmarks == second.bookmarks
        }),
{
    keyed_line_reads(Key::BmName, name);
    keyed_line_reads(Key::BmLeft, left);
    keyed_line_reads(Key::BmRight, right);
    let bm = BookmarkView {
        name: text::trimmed(name),
        left: a,
        right: if b.is_dir {
            Some(b.path)
        } else {
            None
        },
    };
    assert(l.bookmarks.push(bm) =~= l.bookmarks + seq![bm]);
}

/// A bookmark of one line has one path and its name, where the path leads to a directory.
pub proof fn bookmark_of_one_line(l: LoadingView, value: Seq<char>, path: PathView)
    ensures
        l.after("BOOKMARK="@ + value, Some(ProbeView { path, is_dir: true })) == (LoadingView {
            bookmarks: l.bookmarks + seq![
                BookmarkView { name: path.name_or_empty(), left: path, right: None },
            ],
            ..l
        }),
        l.after("BOOKMARK="@ + value, Some(ProbeView { path, is_dir: false })) == l,
        l.after("BOOKMARK="@ + value, None) == l,
{
    keyed_line_reads(Key::Bookmark, value);
    let bm = BookmarkView { name: path.name_or_empty(), left: path, right: None };
    assert(l.bookmarks.push(bm) =~= l.bookmarks + seq![bm]);
}

/// The lines on sorting and on colours are read by their words, with blanks around them or not;
/// each panel has its own.
pub proof fn settings_line_by_line(
    l: LoadingView,
    value: Seq<char>,
    col: SortColumn,
    dir: SortDir,
    dark: bool,
    probe: Option<ProbeView>,
)
    ensures
        text::trimmed(value) == state_file::column_word(col) ==> l.after(
            "SORT_L_COL="@ + value,
            probe,
        ) == (LoadingView { sort_l_col: Some(col), ..l }) && l.after("SORT_R_COL="@ + value, probe)
            == (LoadingView { sort_r_col: Some(col), ..l }),
        text::trimmed(value) == state_file::direction_word(dir) ==> l.after(
            "SORT_L_DIR="@ + value,
            probe,
        ) == (LoadingView { sort_l_dir: Some(dir), ..l }) && l.after("SORT_R_DIR="@ + value, probe)
            == (LoadingView { sort_r_dir: Some(dir), ..l }),
        text::trimmed(value) == state_file::bool_word(dark) ==> l.after(
            "DARK_MODE="@ + value,
            probe,
        ) == (LoadingView { dark_mode: dark, ..l }),
        l.after("DIR_SORT="@ + value, probe) == l,
{
    keyed_line_reads(Key::SortLCol, value);
    keyed_line_reads(Key::SortLDir, value);
    keyed_line_reads(Key::SortRCol, value);
    keyed_line_reads(Key::SortRDir, value);
    keyed_line_reads(Key::DarkMode, value);
    keyed_line_reads(Key::DirSort, value);
    bool_word_kept(dark);
    words_read_back(col, dir, DirSort::Mixed);
}

/// Every word stands for what it was written for.
pub proof fn words_read_back(col: SortColumn, dir: SortDir, dir_sort: DirSort)
    ensures
        state_file::column_of(state_file::column_word(col)) == Some(col),
        state_file::direction_of(state_file::direction_word(dir)) == Some(dir),
        state_file::dir_sort_of(state_file::dir_sort_word(dir_sort)) == dir_sort,
{
    reveal_strlit("Name");
    reveal_strlit("Ext");
    reveal_strlit("Size");
    reveal_strlit("Date");
    reveal_strlit("Attr");
    reveal_strlit("Asc");
    reveal_strlit("Desc");
    reveal_strlit("FirstByName");
    reveal_strlit("FirstByCol");
    reveal_strlit("Mixed");
    assert("Name"@[0] == 'N' && "Ext"@[0] == 'E' && "Size"@[0] == 'S' && "Date"@[0] == 'D'
        && "Attr"@[0] == 'A');
    assert("Asc"@.len() == 3 && "Desc"@.len() == 4);
    assert("FirstByName"@.len() == 11 && "FirstByCol"@.len() == 10 && "Mixed"@.len() == 5);
}

/// The value of a setting is that of the first line with its key; settings without a line have
/// their usual values.
pub proof fn first_line_counts(
    before: Seq<Seq<char>>,
    key: Seq<char>,
    value: Seq<char>,
    behind: Seq<Seq<char>>,
)
    requires
        forall|i: int| 0 <= i < before.len() ==> !text::begins_with(#[trigger] before[i], key),
    ensures
        state_file::first_value(before + seq![key + value] + behind, key) == Some(value),
        state_file::first_value(before, key) is None,
    decreases before.len(),
{
    let all = before + seq![key + value] + behind;
    key_found(key, value);
    if before.len() > 0 {
        let rest = before.drop_first();
        assert(all.drop_first() =~= rest + seq![key + value] + behind);
        assert forall|i: int| 0 <= i < rest.len() implies !text::begins_with(
            #[trigger] rest[i],
            key,
        ) by {
            assert(rest[i] == before[i + 1]);
        }
        first_line_counts(rest, key, value, behind);
        assert(all[0] == before[0]);
        assert(!text::begins_with(before[0], key));
    } else {
        assert(all[0] == key + value);
    }
}

/// The settings that are kept apart: directories stand first by column, hidden files are not
/// shown and no editor is set, unless a line says otherwise.
pub proof fn usual_settings(lines: Seq<Seq<char>>)
    ensures
        state_file::first_value(lines, "DIR_SORT="@) is None ==> state_file::kept_dir_sort(lines)
            == DirSort::FirstByCol,
        state_file::first_value(lines, "SHOW_HIDDEN="@) is None ==> !state_file::kept_show_hidden(
            lines,
        ),
        state_file::first_value(lines, "EXT_EDITOR="@) is None ==> state_file::kept_editor(
            lines,
        ).len() == 0,
        state_file::first_value(lines, "SHOW_HIDDEN="@) matches Some(v) ==> (
        state_file::kept_show_hidden(lines) <==> text::trimmed(v) == "true"@),
        state_file::first_value(lines, "EXT_EDITOR="@) matches Some(v) ==> state_file::kept_editor(
            lines,
        ) == text::trimmed(v),
{
}

/// A file without a line tells nothing: no path, no order, no bookmark, and the dark colours.
pub proof fn nothing_kept_is_usual(probes: Seq<Option<ProbeView>>)
    ensures
        ({
            let s = state_file::saved_in(Seq::<Seq<char>>::empty(), probes);
            &&& s.left is None && s.right is None
            &&& s.bookmarks.len() == 0
            &&& s.sort_l_col is None && s.sort_l_dir is None
            &&& s.sort_r_col is None && s.sort_r_dir is None
            &&& s.dark_mode
            &&& !s.show_hidden
        }),
{
}

/// The lines that say a path are those of the panels and of the bookmarks; the path is what
/// stands behind the key, without blanks around it.
pub proof fn lines_that_say_paths(key: Key, value: Seq<char>)
    ensures
        key == Key::Left || key == Key::Right || key == Key::BmLeft || key == Key::BmRight || key
            == Key::Bookmark ==> state_file::path_in(key_text(key) + value) == Some(
            text::trimmed(value),
        ),
        !(key == Key::Left || key == Key::Right || key == Key::BmLeft || key == Key::BmRight || key
            == Key::Bookmark) ==> state_file::path_in(key_text(key) + value) is None,
{
    keyed_line_reads(key, value);
}

} // verus!
