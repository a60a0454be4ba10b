//! Browsing a ZIP archive as if it were a directory.

use crate::entry::{self, DirSort, EntryView, FileEntry, SortColumn, SortDir};
use crate::path::DirPath;
use crate::sort;
use crate::text;
use vstd::hash_set::StringHashSet;
use vstd::prelude::*;

verus! {

broadcast use vstd::string::group_string_axioms;

/// A place inside an archive: the archive file, and the directory within it, which is empty
/// for the archive's root and ends in `/` otherwise.
#[derive(Debug)]
pub struct ArchiveLocation {
    pub archive_path: DirPath,
    pub internal_dir: String,
}

impl Clone for ArchiveLocation {
    fn clone(&self) -> (r: Self)
        ensures
            r.archive_path@ == self.archive_path@,
            r.internal_dir@ == self.internal_dir@,
    {
        ArchiveLocation {
            archive_path: self.archive_path.clone(),
            internal_dir: self.internal_dir.clone(),
        }
    }
}

/// One member of an archive.
#[derive(Debug)]
pub struct ZipItem {
    pub name: String,
    pub size: u64,
    pub is_dir: bool,
}

/// What a member of an archive is.
#[verifier::ext_equal]
pub struct ZipView {
    pub name: Seq<char>,
    pub size: u64,
    pub is_dir: bool,
}

impl View for ZipItem {
    type V = ZipView;

    open spec fn view(&self) -> ZipView {
        ZipView { name: self.name@, size: self.size, is_dir: self.is_dir }
    }
}

impl DeepView for ZipItem {
    type V = ZipView;

    open spec fn deep_view(&self) -> ZipView {
        self.view()
    }
}

// ---------------------------------------------------------------------------
// Models
// ---------------------------------------------------------------------------

/// The part of a member's name below a directory of the archive, with `/` between names:
/// none where the member does not lie below the directory.
pub open spec fn below(name: Seq<char>, dir: Seq<char>) -> Option<Seq<char>> {
    match text::stripped(text::char_replaced(name, '\\', '/'), dir) {
        Some(rest) => if rest.len() == 0 {
            None
        } else {
            Some(rest)
        },
        None => None,
    }
}

/// The row of a directory in an archive.
pub open spec fn dir_row(name: Seq<char>) -> EntryView {
    EntryView {
        name,
        ext: seq![],
        is_dir: true,
        size: 0,
        is_archive: false,
        modified: None,
        readonly: false,
        dir_size: None,
    }
}

/// The row of a file in an archive.
pub open spec fn file_row(name: Seq<char>, size: u64) -> EntryView {
    EntryView {
        name,
        ext: entry::lower_extension(name),
        is_dir: false,
        size,
        is_archive: entry::archive_extension(entry::lower_extension(name)),
        modified: None,
        readonly: false,
        dir_size: None,
    }
}

/// The row that a member gives in the listing of a directory: a file for a member right in
/// the directory, the subdirectory on the way for one further down.
pub open spec fn member_row(item: ZipView, dir: Seq<char>) -> Option<EntryView> {
    match below(item.name, dir) {
        Some(rest) => if text::first_of(rest, '/') < rest.len() {
            Some(dir_row(rest.take(text::first_of(rest, '/'))))
        } else {
            Some(file_row(rest, item.size))
        },
        None => None,
    }
}

/// The rows of a directory in an archive, in the order of the members, each subdirectory
/// once.
pub open spec fn member_rows(items: Seq<ZipView>, dir: Seq<char>) -> Seq<EntryView>
    decreases items.len(),
{
    if items.len() == 0 {
        seq![]
    } else {
        let front = member_rows(items.drop_last(), dir);
        match member_row(items.last(), dir) {
            Some(row) => if row.is_dir && front.contains(row) {
                front
            } else {
                front.push(row)
            },
            None => front,
        }
    }
}

/// The listing of a directory in an archive: subdirectories first, then by name.
pub open spec fn zip_listing(items: Seq<ZipView>, dir: Seq<char>) -> Seq<EntryView> {
    sort::sorted(member_rows(items, dir), SortColumn::Name, SortDir::Asc, DirSort::FirstByCol)
}

/// The directory of an archive above `dir`.
pub open spec fn upper_dir(dir: Seq<char>) -> Seq<char> {
    let trimmed = text::without_tail(dir, '/');
    let at = text::last_of(trimmed, '/');
    if at >= 0 {
        trimmed.take(at) + seq!['/']
    } else {
        seq![]
    }
}

/// The name of the directory of an archive.
pub open spec fn own_name(dir: Seq<char>) -> Seq<char> {
    let trimmed = text::without_tail(dir, '/');
    text::after(trimmed, text::last_of(trimmed, '/') + 1)
}

/// The directory of an archive with the given name in `dir`.
pub open spec fn lower_dir(dir: Seq<char>, name: Seq<char>) -> Seq<char> {
    dir + name + seq!['/']
}

// ---------------------------------------------------------------------------
// Laws
// ---------------------------------------------------------------------------

/// Going into a directory of an archive and back up gives the place again, and the name of
/// the directory that was left.
pub proof fn lower_then_upper(dir: Seq<char>, name: Seq<char>)
    requires
        dir.len() == 0 || dir.last() == '/',
        name.len() > 0,
        !name.contains('/'),
    ensures
        upper_dir(lower_dir(dir, name)) == dir,
        own_name(lower_dir(dir, name)) == name,
{
    let low = lower_dir(dir, name);
    let trimmed = dir + name;
    assert(low.last() == '/');
    assert(low.subrange(0, low.len() - 1) == trimmed);
    assert(trimmed.last() == name.last());
    assert(name.contains(name.last()));
    assert(text::without_tail(low, '/') == text::without_tail(trimmed, '/'));
    assert(text::without_tail(trimmed, '/') == trimmed);
    assert forall|k: int| dir.len() <= k < trimmed.len() implies trimmed[k] != '/' by {
        assert(trimmed[k] == name[k - dir.len()]);
    }
    text::lemma_last_of_is(trimmed, '/', dir.len() - 1);
    assert(text::after(trimmed, dir.len() as int) == name);
    if dir.len() > 0 {
        assert(trimmed.take(dir.len() - 1) + seq!['/'] == dir);
    }
}

/// Each subdirectory is listed once.
pub proof fn member_dirs_once(items: Seq<ZipView>, dir: Seq<char>)
    ensures
        ({
            let rows = member_rows(items, dir);
            forall|i: int, j: int|
                0 <= i < j < rows.len() && (#[trigger] rows[i]).is_dir && (#[trigger] rows[j]).is_dir
                    ==> rows[i].name != rows[j].name
        }),
    decreases items.len(),
{
    if items.len() > 0 {
        let front = member_rows(items.drop_last(), dir);
        let rows = member_rows(items, dir);
        member_dirs_once(items.drop_last(), dir);
        lemma_dir_rows(items.drop_last(), dir);
        assert forall|i: int, j: int|
            0 <= i < j < rows.len() && (#[trigger] rows[i]).is_dir && (#[trigger] rows[j]).is_dir
                implies rows[i].name != rows[j].name by {
            assert(rows[i] == front[i]);
            if j < front.len() {
                assert(rows[j] == front[j]);
            } else if rows[i].name == rows[j].name {
                assert(front[i] == dir_row(front[i].name));
                assert(front.contains(rows[j]));
            }
        }
    }
}

/// Every row for a directory is determined by its name.
proof fn lemma_dir_rows(items: Seq<ZipView>, dir: Seq<char>)
    ensures
        forall|i: int|
            0 <= i < member_rows(items, dir).len() && (#[trigger] member_rows(items, dir)[i]).is_dir
                ==> member_rows(items, dir)[i] == dir_row(member_rows(items, dir)[i].name),
    decreases items.len(),
{
    if items.len() > 0 {
        lemma_dir_rows(items.drop_last(), dir);
        let front = member_rows(items.drop_last(), dir);
        let rows = member_rows(items, dir);
        assert forall|i: int| 0 <= i < rows.len() && (#[trigger] rows[i]).is_dir implies rows[i]
            == dir_row(rows[i].name) by {
            if i < front.len() {
                assert(rows[i] == front[i]);
            }
        }
    }
}

/// A listing shows what lies right in the directory: a row stands in it exactly where some
/// member gives it.
pub proof fn member_rows_exact(items: Seq<ZipView>, dir: Seq<char>, row: EntryView)
    ensures
        member_rows(items, dir).contains(row) <==> exists|i: int|
            0 <= i < items.len() && member_row(#[trigger] items[i], dir) == Some(row),
    decreases items.len(),
{
    if items.len() > 0 {
        let front = member_rows(items.drop_last(), dir);
        let rows = member_rows(items, dir);
        let init = items.drop_last();
        member_rows_exact(init, dir, row);
        if rows.contains(row) {
            let k = choose|k: int| 0 <= k < rows.len() && rows[k] == row;
            if k < front.len() {
                assert(front[k] == row);
                assert(front.contains(row));
                let i = choose|i: int|
                    0 <= i < init.len() && member_row(#[trigger] init[i], dir) == Some(row);
                assert(items[i] == init[i]);
            } else {
                assert(member_row(items[items.len() - 1], dir) == Some(row));
            }
        }
        if exists|i: int| 0 <= i < items.len() && member_row(#[trigger] items[i], dir) == Some(row) {
            let i = choose|i: int|
                0 <= i < items.len() && member_row(#[trigger] items[i], dir) == Some(row);
            if i < init.len() {
                assert(init[i] == items[i]);
                assert(front.contains(row));
                let k = choose|k: int| 0 <= k < front.len() && front[k] == row;
                assert(rows[k] == row);
            } else if !(row.is_dir && front.contains(row)) {
                assert(rows[rows.len() - 1] == row);
            } else {
                let k = choose|k: int| 0 <= k < front.len() && front[k] == row;
                assert(rows[k] == row);
            }
        }
    }
}

/// A listing has at most as many rows as the archive has members.
pub proof fn member_rows_bounded(items: Seq<ZipView>, dir: Seq<char>)
    ensures
        member_rows(items, dir).len() <= items.len(),
        zip_listing(items, dir).len() <= items.len(),
    decreases items.len(),
{
    if items.len() > 0 {
        member_rows_bounded(items.drop_last(), dir);
    }
    sort::sorted_keeps_rows(
        member_rows(items, dir),
        SortColumn::Name,
        SortDir::Asc,
        DirSort::FirstByCol,
    );
}

// ---------------------------------------------------------------------------
// Listing
// ---------------------------------------------------------------------------

/// The part of a member's name below a directory of the archive.
pub fn part_below(name: &str, dir: &str) -> (r: Option<String>)
    ensures
        r.deep_view() == below(name@, dir@),
{
    let name = text::replace_char(name, '\\', '/');
    match text::strip_prefix(name.as_str(), dir) {
        Some(rest) => {
            if rest.as_str().unicode_len() == 0 {
                None
            } else {
                Some(rest)
            }
        },
        None => None,
    }
}

/// The row that a member gives in the listing of a directory.
fn row_of_member(item: &ZipItem, dir: &str) -> (r: Option<FileEntry>)
    ensures
        r.deep_view() == member_row(item@, dir@),
{
    match part_below(item.name.as_str(), dir) {
        Some(rest) => {
            let v = text::chars_of(rest.as_str());
            let slash = text::find_char(&v, '/', 0);
            assert(rest@.subrange(0, rest@.len() as int) == rest@);
            if slash < v.len() {
                let name = text::text_of(&v, 0, slash);
                assert(name@ =~= rest@.take(slash as int));
                let row = FileEntry {
                    name,
                    ext: String::new(),
                    is_dir: true,
                    size: 0,
                    is_archive: false,
                    modified: None,
                    readonly: false,
                    dir_size: None,
                };
                assert(row@ =~= dir_row(name@));
                Some(row)
            } else {
                let ext = entry::lower_extension_of(rest.as_str());
                let is_archive = entry::is_archive_extension(ext.as_str());
                Some(
                    FileEntry {
                        name: rest,
                        ext,
                        is_dir: false,
                        size: item.size,
                        is_archive,
                        modified: None,
                        readonly: false,
                        dir_size: None,
                    },
                )
            }
        },
        None => None,
    }
}

/// The listing of the directory `internal_dir` of an archive with the given members.
pub fn list_zip_dir(items: &Vec<ZipItem>, internal_dir: &str) -> (r: Vec<FileEntry>)
    ensures
        r.deep_view() == zip_listing(items.deep_view(), internal_dir@),
{
    let ghost all = items.deep_view();
    let ghost dir = internal_dir@;
    let mut rows: Vec<FileEntry> = Vec::new();
    let mut seen = StringHashSet::new();
    let mut i: usize = 0;
    assert(all.take(0) == Seq::<ZipView>::empty());
    assert(rows.deep_view() =~= member_rows(all.take(0), dir));
    while i < items.len()
        invariant
            i <= items.len(),
            all == items.deep_view(),
            dir == internal_dir@,
            rows.deep_view() == member_rows(all.take(i as int), dir),
            forall|name: Seq<char>|
                #![trigger seen@.contains(name)]
                seen@.contains(name) <==> rows.deep_view().contains(dir_row(name)),
        decreases items.len() - i,
    {
        let ghost before = rows.deep_view();
        let ghost seen_before = seen@;
        proof {
            assert(all.take(i + 1).drop_last() == all.take(i as int));
            assert(all.take(i + 1).last() == items[i as int]@);
        }
        match row_of_member(&items[i], internal_dir) {
            Some(row) => {
                if row.is_dir {
                    assert(row@ =~= dir_row(row.name@));
                    let name = row.name.clone();
                    let fresh = !seen.contains(name.as_str());
                    if fresh {
                        let _ = seen.insert(name);
                        rows.push(row);
                        assert(rows.deep_view() =~= before.push(row@));
                        proof {
                            lemma_push_dir(before, seen_before, row.name@);
                        }
                    }
                } else {
                    rows.push(row);
                    assert(rows.deep_view() =~= before.push(row@));
                    proof {
                        lemma_push_file(before, seen_before, row@);
                    }
                }
            },
            None => {},
        }
        i += 1;
    }
    assert(all.take(all.len() as int) == all);
    sort::sort_entries(&mut rows);
    rows
}

proof fn lemma_push_dir(rows: Seq<EntryView>, seen: Set<Seq<char>>, name: Seq<char>)
    requires
        forall|n: Seq<char>|
            #![trigger seen.contains(n)]
            seen.contains(n) <==> rows.contains(dir_row(n)),
    ensures
        forall|n: Seq<char>|
            #![trigger seen.insert(name).contains(n)]
            seen.insert(name).contains(n) <==> rows.push(dir_row(name)).contains(dir_row(n)),
{
    let all = rows.push(dir_row(name));
    assert forall|n: Seq<char>|
        #![trigger seen.insert(name).contains(n)]
        seen.insert(name).contains(n) <==> all.contains(dir_row(n)) by {
        assert(seen.contains(n) <==> rows.contains(dir_row(n)));
        if all.contains(dir_row(n)) {
            let k = choose|k: int| 0 <= k < all.len() && all[k] == dir_row(n);
            if k < rows.len() {
                assert(rows[k] == dir_row(n));
            }
        }
        if rows.contains(dir_row(n)) {
            let k = choose|k: int| 0 <= k < rows.len() && rows[k] == dir_row(n);
            assert(all[k] == dir_row(n));
        }
        if n == name {
            assert(all[rows.len() as int] == dir_row(n));
        }
    }
}

proof fn lemma_push_file(rows: Seq<EntryView>, seen: Set<Seq<char>>, row: EntryView)
    requires
        !row.is_dir,
        forall|n: Seq<char>|
            #![trigger seen.contains(n)]
            seen.contains(n) <==> rows.contains(dir_row(n)),
    ensures
        forall|n: Seq<char>|
            #![trigger seen.contains(n)]
            seen.contains(n) <==> rows.push(row).contains(dir_row(n)),
{
    let all = rows.push(row);
    assert forall|n: Seq<char>|
        #![trigger seen.contains(n)]
        seen.contains(n) <==> all.contains(dir_row(n)) by {
        if all.contains(dir_row(n)) {
            let k = choose|k: int| 0 <= k < all.len() && all[k] == dir_row(n);
            assert(k < rows.len());
            assert(rows[k] == dir_row(n));
        }
        if rows.contains(dir_row(n)) {
            let k = choose|k: int| 0 <= k < rows.len() && rows[k] == dir_row(n);
            assert(all[k] == dir_row(n));
        }
    }
}

/// The directory of an archive above `dir`, and the name of `dir` itself.
pub fn split_dir(dir: &str) -> (r: (String, String))
    ensures
        r.0@ == upper_dir(dir@),
        r.1@ == own_name(dir@),
{
    let trimmed = text::trim_end_char(dir, '/');
    let v = text::chars_of(trimmed.as_str());
    match text::rfind_char(&v, '/') {
        Some(at) => {
            let mut upper = text::text_of(&v, 0, at);
            assert(upper@ =~= trimmed@.take(at as int));
            upper.push('/');
            assert(upper@ =~= upper_dir(dir@));
            (upper, text::text_of(&v, at + 1, v.len()))
        },
        None => {
            assert(text::after(trimmed@, 0) =~= trimmed@);
            (String::new(), trimmed)
        },
    }
}

/// A member's row in a directory of the archive: a name without `/` behind the directory is a
/// file, one with `/` is a directory of what stands before the first, and what is not behind the
/// directory, or is the directory itself, has none.
pub proof fn member_row_by_name(
    item: ZipView,
    full: Seq<char>,
    dir: Seq<char>,
    rest: Seq<char>,
    below_it: Seq<char>,
)
    requires
        full.len() == item.name.len(),
        forall|i: int|
            0 <= i < full.len() ==> #[trigger] full[i] == (if item.name[i] == '\\' {
                '/'
            } else {
                item.name[i]
            }),
        !rest.contains('/'),
    ensures
        full == dir + rest && rest.len() > 0 ==> {
            &&& member_row(item, dir) is Some
            &&& member_row(item, dir)->0.name == rest
            &&& !member_row(item, dir)->0.is_dir
            &&& member_row(item, dir)->0.size == item.size
        },
        full == dir + (rest + seq!['/'] + below_it) ==> {
            &&& member_row(item, dir) is Some
            &&& member_row(item, dir)->0.name == rest
            &&& member_row(item, dir)->0.is_dir
        },
        member_row(item, dir) is None <==> full == dir || !(exists|t: Seq<char>|
            full == #[trigger] (dir + t)),
{
    assert(text::char_replaced(item.name, '\\', '/') =~= full);
    text::begins_by_parting(full, dir);
    if full == dir {
        assert(text::after(full, dir.len() as int) =~= seq![]);
        assert(full =~= dir + Seq::<char>::empty());
    }
    if text::begins_with(full, dir) && text::after(full, dir.len() as int).len() == 0 {
        assert(full.subrange(0, dir.len() as int) =~= full);
    }
    if full == dir + rest && rest.len() > 0 {
        text::stripped_is_the_rest(full, dir, rest);
        assert forall|k: int| 0 <= k < rest.len() implies rest[k] != '/' by {
            assert(rest.contains(rest[k]));
        }
        text::lemma_first_of_is(rest, '/', rest.len() as int);
    }
    let long = rest + seq!['/'] + below_it;
    if full == dir + long {
        text::stripped_is_the_rest(full, dir, long);
        assert forall|k: int| 0 <= k < rest.len() implies long[k] != '/' by {
            assert(rest[k] == long[k]);
            assert(rest.contains(rest[k]));
        }
        text::lemma_first_of_is(long, '/', rest.len() as int);
        assert(long.take(rest.len() as int) =~= rest);
    }
}

/// A row of an archive tells the name, the size and the ending; it has no time and no marks, and
/// it is an archive itself by its ending alone.
pub proof fn archive_rows_are_bare(name: Seq<char>, size: u64)
    ensures
        file_row(name, size).name == name,
        file_row(name, size).size == size,
        !file_row(name, size).is_dir,
        file_row(name, size).ext == entry::lower_extension(name),
        file_row(name, size).is_archive <==> {
            ||| entry::lower_extension(name) == "zip"@
            ||| entry::lower_extension(name) == "rar"@
            ||| entry::lower_extension(name) == "7z"@
        },
        file_row(name, size).modified is None,
        !file_row(name, size).readonly,
        dir_row(name).name == name,
        dir_row(name).is_dir,
        dir_row(name).size == 0,
        dir_row(name).ext.len() == 0,
        !dir_row(name).is_archive,
        dir_row(name).modified is None,
        !dir_row(name).readonly,
{
}

/// A further member adds its row behind the others, unless it is that of a directory which is
/// there already.
pub proof fn members_row_by_row(items: Seq<ZipView>, item: ZipView, dir: Seq<char>)
    ensures
        member_rows(Seq::<ZipView>::empty(), dir).len() == 0,
        member_row(item, dir) is None ==> member_rows(items + seq![item], dir) == member_rows(
            items,
            dir,
        ),
        member_row(item, dir) is Some && !member_row(item, dir)->0.is_dir ==> member_rows(
            items + seq![item],
            dir,
        ) == member_rows(items, dir) + seq![member_row(item, dir)->0],
        member_row(item, dir) is Some && member_rows(items, dir).contains(member_row(item, dir)->0)
            && member_row(item, dir)->0.is_dir ==> member_rows(items + seq![item], dir)
            == member_rows(items, dir),
        member_row(item, dir) is Some && !member_rows(items, dir).contains(
            member_row(item, dir)->0,
        ) ==> member_rows(items + seq![item], dir) == member_rows(items, dir) + seq![
            member_row(item, dir)->0,
        ],
{
    assert((items + seq![item]).drop_last() =~= items);
    if member_row(item, dir) is Some {
        let row = member_row(item, dir)->0;
        let front = member_rows(items, dir);
        assert(front.push(row) =~= front + seq![row]);
    }
}

/// The listing of an archive holds the rows of its members, directories first and each kind by
/// name.
pub proof fn archive_is_listed_by_name(items: Seq<ZipView>, dir: Seq<char>, i: int, j: int)
    requires
        0 <= i < j < zip_listing(items, dir).len(),
    ensures
        zip_listing(items, dir).to_multiset() == member_rows(items, dir).to_multiset(),
        zip_listing(items, dir)[j].is_dir ==> zip_listing(items, dir)[i].is_dir,
        zip_listing(items, dir)[i].is_dir == zip_listing(items, dir)[j].is_dir
            ==> sort::key_not_above(
            zip_listing(items, dir)[i],
            zip_listing(items, dir)[j],
            SortColumn::Name,
        ),
{
    let rows = member_rows(items, dir);
    sort::sorted_keeps_rows(rows, SortColumn::Name, SortDir::Asc, DirSort::FirstByCol);
    sort::sorted_by_keys(rows, SortColumn::Name, SortDir::Asc, DirSort::FirstByCol, i, j);
}

/// Above the top directory of an archive is the top directory itself.
pub proof fn top_has_no_upper()
    ensures
        upper_dir(Seq::<char>::empty()) == Seq::<char>::empty(),
{
}

} // verus!
