//! Entries of a directory listing.

use crate::text;
use vstd::prelude::*;

verus! {

broadcast use vstd::string::group_string_axioms;

/// A point in time: seconds since the Unix epoch and nanoseconds within the second.
#[derive(Clone, Copy, Debug, PartialEq, Eq, Structural)]
pub struct Time {
    pub secs: i64,
    pub nanos: u32,
}

/// The column by which a listing is ordered.
#[derive(Clone, Copy, Debug, PartialEq, Eq, Structural)]
pub enum SortColumn {
    Name,
    Ext,
    Size,
    Date,
    Attr,
}

/// The direction of an order.
#[derive(Clone, Copy, Debug, PartialEq, Eq, Structural)]
pub enum SortDir {
    Asc,
    Desc,
}

/// Where directories stand in a listing.
#[derive(Clone, Copy, Debug, PartialEq, Eq, Structural)]
pub enum DirSort {
    /// Among the files, by the chosen column.
    Mixed,
    /// Above the files, by the chosen column.
    FirstByCol,
    /// Above the files, always by name.
    FirstByName,
}

/// One row of a listing.
#[derive(Debug)]
pub struct FileEntry {
    pub name: String,
    pub ext: String,
    pub is_dir: bool,
    pub size: u64,
    pub is_archive: bool,
    pub modified: Option<Time>,
    pub readonly: bool,
    /// The size of everything below a directory, once it has been counted.
    pub dir_size: Option<u64>,
}

/// What a row of a listing is.
#[verifier::ext_equal]
pub struct EntryView {
    pub name: Seq<char>,
    pub ext: Seq<char>,
    pub is_dir: bool,
    pub size: u64,
    pub is_archive: bool,
    pub modified: Option<Time>,
    pub readonly: bool,
    pub dir_size: Option<u64>,
}

impl View for FileEntry {
    type V = EntryView;

    open spec fn view(&self) -> EntryView {
        EntryView {
            name: self.name@,
            ext: self.ext@,
            is_dir: self.is_dir,
            size: self.size,
            is_archive: self.is_archive,
            modified: self.modified,
            readonly: self.readonly,
            dir_size: self.dir_size,
        }
    }
}

impl DeepView for FileEntry {
    type V = EntryView;

    open spec fn deep_view(&self) -> EntryView {
        self.view()
    }
}

impl Clone for FileEntry {
    fn clone(&self) -> (r: Self)
        ensures
            r == *self,
    {
        FileEntry {
            name: self.name.clone(),
            ext: self.ext.clone(),
            is_dir: self.is_dir,
            size: self.size,
            is_archive: self.is_archive,
            modified: self.modified,
            readonly: self.readonly,
            dir_size: self.dir_size,
        }
    }
}

// ---------------------------------------------------------------------------
// Extensions
// ---------------------------------------------------------------------------

/// Where the extension of a file name starts: behind the last dot, unless that dot is the
/// first character or the name is `..`.
pub open spec fn has_extension(name: Seq<char>) -> bool {
    name != ".."@ && 0 < text::last_of(name, '.')
}

/// The extension of a file name.
pub open spec fn extension(name: Seq<char>) -> Option<Seq<char>> {
    if has_extension(name) {
        Some(text::after(name, text::last_of(name, '.') + 1))
    } else {
        None
    }
}

/// A file name without its extension.
pub open spec fn stem(name: Seq<char>) -> Seq<char> {
    if has_extension(name) {
        name.take(text::last_of(name, '.'))
    } else {
        name
    }
}

/// The extension of a file name in lower case, empty where there is none.
pub open spec fn lower_extension(name: Seq<char>) -> Seq<char> {
    match extension(name) {
        Some(e) => text::lowercase(e),
        None => seq![],
    }
}

/// Whether an extension in lower case is that of an archive.
pub open spec fn archive_extension(ext: Seq<char>) -> bool {
    ext == "zip"@ || ext == "rar"@ || ext == "7z"@
}

/// A file name with an extension is its stem, a dot and the extension.
pub proof fn stem_and_extension(name: Seq<char>)
    requires
        has_extension(name),
    ensures
        name == stem(name) + seq!['.'] + extension(name)->0,
        stem(name).len() > 0,
        !extension(name)->0.contains('.'),
{
    text::lemma_last_of(name, '.');
    let at = text::last_of(name, '.');
    assert(name =~= stem(name) + seq!['.'] + extension(name)->0);
    assert forall|i: int| 0 <= i < extension(name)->0.len() implies extension(name)->0[i]
        != '.' by {
        assert(extension(name)->0[i] == name[at + 1 + i]);
    }
}

/// The extension of a file name.
pub fn extension_of(name: &str) -> (r: Option<String>)
    ensures
        r.deep_view() == extension(name@),
{
    let v = text::chars_of(name);
    match text::rfind_char(&v, '.') {
        Some(at) => {
            if at == 0 || text::same(name, "..") {
                None
            } else {
                Some(text::text_of(&v, at + 1, v.len()))
            }
        },
        None => None,
    }
}

/// A file name without its extension.
pub fn stem_of(name: &str) -> (r: String)
    ensures
        r@ == stem(name@),
{
    let v = text::chars_of(name);
    match text::rfind_char(&v, '.') {
        Some(at) => {
            if at == 0 || text::same(name, "..") {
                name.to_owned()
            } else {
                let r = text::text_of(&v, 0, at);
                assert(r@ =~= name@.take(at as int));
                r
            }
        },
        None => name.to_owned(),
    }
}

/// The extension of a file name in lower case, empty where there is none.
pub fn lower_extension_of(name: &str) -> (r: String)
    ensures
        r@ == lower_extension(name@),
{
    match extension_of(name) {
        Some(e) => text::to_lower(e.as_str()),
        None => String::new(),
    }
}

/// Whether an extension in lower case is that of an archive.
pub fn is_archive_extension(ext: &str) -> (r: bool)
    ensures
        r == archive_extension(ext@),
{
    text::same(ext, "zip") || text::same(ext, "rar") || text::same(ext, "7z")
}

// ---------------------------------------------------------------------------
// Dates
// ---------------------------------------------------------------------------

/// The earliest second that a calendar date can be given for.
pub const FIRST_SECOND: i64 = -8334601228800;

/// The latest second that a calendar date can be given for.
pub const LAST_SECOND: i64 = 8210266876799;

/// The bound on a time zone's distance from UTC, in seconds.
pub const DAY_SECONDS: i32 = 86400;

/// What `chrono::DateTime::format` writes with the pattern `%d.%m.%Y %H:%M` for the second
/// `secs` since the epoch, in a time zone `offset` seconds east of UTC.
pub uninterp spec fn date_text(secs: i64, offset: i32) -> Seq<char>;

/// `chrono::DateTime::format` with the pattern `%d.%m.%Y %H:%M`, for a second since the epoch
/// in a time zone with a fixed offset. The text is a function of the two numbers; which text
/// it is, the contract leaves to the name.
#[verifier::external_body]
fn format_date(secs: i64, offset: i32) -> (r: String)
    requires
        FIRST_SECOND <= secs <= LAST_SECOND,
        -DAY_SECONDS < offset < DAY_SECONDS,
    ensures
        r@ == date_text(secs, offset),
{
    let zone = chrono::FixedOffset::east_opt(offset).unwrap();
    let utc = chrono::DateTime::from_timestamp(secs, 0).unwrap();
    utc.with_timezone(&zone).format("%d.%m.%Y %H:%M").to_string()
}

/// The offset from UTC, in seconds, that `chrono::Local` gives for a second since the epoch.
/// It depends on the machine's time zone, so only its range is stated. The time zone is taken to
/// lie less than a day from UTC, as every zone does.
#[verifier::external_body]
fn local_offset(secs: i64) -> (r: i32)
    requires
        FIRST_SECOND <= secs <= LAST_SECOND,
    ensures
        -DAY_SECONDS < r < DAY_SECONDS,
{
    let utc = chrono::DateTime::from_timestamp(secs, 0).unwrap();
    utc.with_timezone(&chrono::Local).offset().local_minus_utc()
}

/// Whether a calendar date can be given for a time.
pub open spec fn dated(t: Option<Time>) -> bool {
    t matches Some(t) ==> FIRST_SECOND <= t.secs <= LAST_SECOND
}

impl EntryView {
    /// The date column, in a time zone `offset` seconds east of UTC.
    pub open spec fn modified_text(self, offset: i32) -> Seq<char> {
        match self.modified {
            Some(t) => date_text(t.secs, offset),
            None => seq![],
        }
    }

    /// The attribute column.
    pub open spec fn attr(self) -> Seq<char> {
        if self.readonly {
            "R"@
        } else {
            ""@
        }
    }

    /// The size that counts: that of a file, the counted one of a directory.
    pub open spec fn effective_size(self) -> u64 {
        if self.is_dir {
            match self.dir_size {
                Some(n) => n,
                None => 0,
            }
        } else {
            self.size
        }
    }
}

impl FileEntry {
    /// The date column, in the machine's time zone.
    pub fn modified_str(&self) -> (r: String)
        requires
            dated(self.modified),
        ensures
            self.modified is None ==> r@ == Seq::<char>::empty(),
            exists|offset: i32|
                -DAY_SECONDS < offset < DAY_SECONDS && r@ == #[trigger] self@.modified_text(offset),
    {
        match self.modified {
            Some(t) => {
                let offset = local_offset(t.secs);
                self.modified_text(offset)
            },
            None => {
                let r = String::new();
                assert(r@ == self@.modified_text(0));
                r
            },
        }
    }

    /// The date column, in a time zone `offset` seconds east of UTC.
    pub fn modified_text(&self, offset: i32) -> (r: String)
        requires
            dated(self.modified),
            -DAY_SECONDS < offset < DAY_SECONDS,
        ensures
            r@ == self@.modified_text(offset),
    {
        match self.modified {
            Some(t) => format_date(t.secs, offset),
            None => String::new(),
        }
    }

    /// The attribute column.
    pub fn attr_str(&self) -> (r: &'static str)
        ensures
            r@ == self@.attr(),
    {
        if self.readonly {
            "R"
        } else {
            ""
        }
    }

    /// The size that counts: that of a file, the counted one of a directory.
    pub fn effective_size(&self) -> (r: u64)
        ensures
            r == self@.effective_size(),
    {
        if self.is_dir {
            match self.dir_size {
                Some(n) => n,
                None => 0,
            }
        } else {
            self.size
        }
    }
}

// ---------------------------------------------------------------------------
// Reading a directory
// ---------------------------------------------------------------------------

/// The attribute bits of a hidden and of a system file on Windows.
pub const HIDDEN_OR_SYSTEM: u32 = 6;

/// What the file system tells of an item's metadata.
#[derive(Clone, Copy, Debug, PartialEq, Eq, Structural)]
pub struct RawMetadata {
    pub is_dir: bool,
    pub len: u64,
    pub modified: Option<Time>,
    pub readonly: bool,
    /// The Windows attribute bits; zero on other systems.
    pub attributes: u32,
}

/// One item as the file system lists it. Without metadata where it could not be read.
#[derive(Debug)]
pub struct RawEntry {
    pub name: String,
    pub metadata: Option<RawMetadata>,
}

/// What an item of a directory is.
#[verifier::ext_equal]
pub struct RawView {
    pub name: Seq<char>,
    pub metadata: Option<RawMetadata>,
}

impl View for RawEntry {
    type V = RawView;

    open spec fn view(&self) -> RawView {
        RawView { name: self.name@, metadata: self.metadata }
    }
}

impl DeepView for RawEntry {
    type V = RawView;

    open spec fn deep_view(&self) -> RawView {
        self.view()
    }
}

/// Whether an item is kept out of listings that do not show hidden files.
pub open spec fn is_hidden(name: Seq<char>, meta: RawMetadata) -> bool {
    text::begins_with(name, seq!['.']) || meta.attributes & HIDDEN_OR_SYSTEM != 0
}

/// The row for an item.
pub open spec fn row_of(name: Seq<char>, meta: RawMetadata) -> EntryView {
    let ext = if meta.is_dir {
        seq![]
    } else {
        lower_extension(name)
    };
    EntryView {
        name,
        ext,
        is_dir: meta.is_dir,
        size: meta.len,
        is_archive: archive_extension(ext),
        modified: meta.modified,
        readonly: meta.readonly,
        dir_size: None,
    }
}

/// The row for an item, where it is listed.
pub open spec fn listed(item: RawView, show_hidden: bool) -> Option<EntryView> {
    match item.metadata {
        Some(meta) => if !show_hidden && is_hidden(item.name, meta) {
            None
        } else {
            Some(row_of(item.name, meta))
        },
        None => None,
    }
}

/// The rows for the items of a directory, in their order.
pub open spec fn rows_of(items: Seq<RawView>, show_hidden: bool) -> Seq<EntryView>
    decreases items.len(),
{
    if items.len() == 0 {
        seq![]
    } else {
        let front = rows_of(items.drop_last(), show_hidden);
        match listed(items.last(), show_hidden) {
            Some(row) => front.push(row),
            None => front,
        }
    }
}

/// Without hidden files, no row's name begins with a dot.
pub proof fn hidden_rows_left_out(items: Seq<RawView>, i: int)
    requires
        0 <= i < rows_of(items, false).len(),
    ensures
        !text::begins_with(rows_of(items, false)[i].name, seq!['.']),
    decreases items.len(),
{
    if items.len() > 0 {
        let front = rows_of(items.drop_last(), false);
        if i < front.len() {
            hidden_rows_left_out(items.drop_last(), i);
        }
    }
}

/// Every item whose metadata could be read has a row where hidden files are shown.
pub proof fn all_rows_shown(items: Seq<RawView>, i: int)
    requires
        0 <= i < items.len(),
        items[i].metadata is Some,
    ensures
        rows_of(items, true).contains(row_of(items[i].name, items[i].metadata->0)),
    decreases items.len(),
{
    let front = rows_of(items.drop_last(), true);
    let all = rows_of(items, true);
    let row = row_of(items[i].name, items[i].metadata->0);
    if i < items.len() - 1 {
        all_rows_shown(items.drop_last(), i);
        let k = choose|k: int| 0 <= k < front.len() && front[k] == row;
        assert(all[k] == row);
    } else {
        assert(all[front.len() as int] == row);
    }
}

/// The row for an item, where it is listed.
pub fn list_item(item: &RawEntry, show_hidden: bool) -> (r: Option<FileEntry>)
    ensures
        r.deep_view() == listed(item@, show_hidden),
{
    match item.metadata {
        Some(meta) => {
            if !show_hidden {
                proof {
                    reveal_strlit(".");
                    assert("."@ =~= seq!['.']);
                }
                if text::starts(item.name.as_str(), ".") || meta.attributes & HIDDEN_OR_SYSTEM != 0 {
                    return None;
                }
            }
            let ext = if meta.is_dir {
                String::new()
            } else {
                lower_extension_of(item.name.as_str())
            };
            let is_archive = is_archive_extension(ext.as_str());
            let row = FileEntry {
                name: item.name.clone(),
                ext,
                is_dir: meta.is_dir,
                size: meta.len,
                is_archive,
                modified: meta.modified,
                readonly: meta.readonly,
                dir_size: None,
            };
            assert(row@ =~= row_of(item.name@, meta));
            Some(row)
        },
        None => None,
    }
}

/// The rows for the items of a directory, in their order.
pub fn list_items(items: &Vec<RawEntry>, show_hidden: bool) -> (r: Vec<FileEntry>)
    ensures
        r.deep_view() == rows_of(items.deep_view(), show_hidden),
{
    let mut out: Vec<FileEntry> = Vec::new();
    let mut i: usize = 0;
    assert(items.deep_view().take(0) == Seq::<RawView>::empty());
    assert(out.deep_view() =~= rows_of(items.deep_view().take(0), show_hidden));
    while i < items.len()
        invariant
            i <= items.len(),
            out.deep_view() == rows_of(items.deep_view().take(i as int), show_hidden),
        decreases items.len() - i,
    {
        let ghost before = out.deep_view();
        proof {
            let t = items.deep_view().take(i + 1);
            assert(t.drop_last() == items.deep_view().take(i as int));
            assert(t.last() == items[i as int]@);
        }
        match list_item(&items[i], show_hidden) {
            Some(row) => {
                out.push(row);
                assert(out.deep_view() =~= before.push(row@));
            },
            None => {},
        }
        i += 1;
    }
    assert(items.deep_view().take(items.len() as int) == items.deep_view());
    out
}

/// A listing never grows: there are at most as many rows as items.
pub proof fn rows_bounded(items: Seq<RawView>, show_hidden: bool)
    ensures
        rows_of(items, show_hidden).len() <= items.len(),
    decreases items.len(),
{
    if items.len() > 0 {
        rows_bounded(items.drop_last(), show_hidden);
    }
}

/// A name has an ending exactly where a point stands in it behind the first character; the
/// ending is what stands behind the last point, the stem what stands before it.
pub proof fn ending_behind_the_last_point(name: Seq<char>, a: Seq<char>, b: Seq<char>)
    requires
        !b.contains('.'),
    ensures
        name == a + seq!['.'] + b && a.len() > 0 && name != ".."@ ==> extension(name) == Some(b)
            && stem(name) == a,
        name == seq!['.'] + b || name == b || name == ".."@ ==> extension(name) is None && stem(
            name,
        ) == name,
{
    assert forall|k: int| 0 <= k < b.len() implies b[k] != '.' by {
        assert(b.contains(b[k]));
    }
    if name == a + seq!['.'] + b {
        assert forall|k: int| a.len() < k < name.len() implies name[k] != '.' by {
            assert(name[k] == b[k - a.len() - 1]);
        }
        text::lemma_last_of_is(name, '.', a.len() as int);
        assert(text::after(name, (a.len() + 1) as int) =~= b);
        assert(name.take(a.len() as int) =~= a);
    }
    if name == seq!['.'] + b {
        assert forall|k: int| 0 < k < name.len() implies name[k] != '.' by {
            assert(name[k] == b[k - 1]);
        }
        text::lemma_last_of_is(name, '.', 0);
    }
    if name == b {
        text::lemma_last_of_is(name, '.', -1);
    }
}

/// The ending that is shown is in lower case, and there is none where the name has none; of
/// endings, those of three kinds of archives are an archive's.
pub proof fn endings_in_lower_case(name: Seq<char>, ext: Seq<char>)
    ensures
        extension(name) is Some ==> lower_extension(name) == text::lowercase(extension(name)->0),
        extension(name) is None ==> lower_extension(name).len() == 0,
        archive_extension(ext) <==> ext == "zip"@ || ext == "rar"@ || ext == "7z"@,
{
}

/// A row shows what is known of a file: its name, size, time and marks; a directory has no
/// ending, is no archive and is not counted yet.
pub proof fn row_tells_the_file(name: Seq<char>, meta: RawMetadata)
    ensures
        ({
            let row = row_of(name, meta);
            &&& row.name == name
            &&& row.is_dir == meta.is_dir
            &&& row.size == meta.len
            &&& row.modified == meta.modified
            &&& row.readonly == meta.readonly
            &&& row.dir_size is None
            &&& meta.is_dir ==> row.ext.len() == 0 && !row.is_archive
            &&& !meta.is_dir ==> row.ext == lower_extension(name)
            &&& !meta.is_dir ==> (row.is_archive <==> archive_extension(lower_extension(name)))
        }),
{
    if meta.is_dir {
        reveal_strlit("zip");
        reveal_strlit("rar");
        reveal_strlit("7z");
        let none = Seq::<char>::empty();
        assert("zip"@.len() == 3 && "rar"@.len() == 3 && "7z"@.len() == 2);
        assert(row_of(name, meta).ext =~= none);
    }
}

/// A file is hidden where its name begins with a point or the system marks it as hidden or as
/// its own.
pub proof fn hidden_by_point_or_mark(rest: Seq<char>, name: Seq<char>, meta: RawMetadata)
    ensures
        is_hidden(seq!['.'] + rest, meta),
        meta.attributes & 0x6 != 0 ==> is_hidden(name, meta),
        meta.attributes & 0x6 == 0 && (name.len() == 0 || name[0] != '.') ==> !is_hidden(name, meta),
{
    text::begins_by_parting(seq!['.'] + rest, seq!['.']);
    if text::begins_with(name, seq!['.']) {
        assert(name.subrange(0, 1)[0] == name[0]);
    }
}

/// A further file adds its row behind the others, unless it cannot be looked at, or is hidden
/// and hidden files are not shown.
pub proof fn rows_file_by_file(items: Seq<RawView>, item: RawView, show_hidden: bool)
    ensures
        rows_of(Seq::<RawView>::empty(), show_hidden).len() == 0,
        item.metadata is Some && (show_hidden || !is_hidden(item.name, item.metadata->0))
            ==> rows_of(items + seq![item], show_hidden) == rows_of(items, show_hidden) + seq![
            row_of(item.name, item.metadata->0),
        ],
        item.metadata is None || (!show_hidden && is_hidden(item.name, item.metadata->0))
            ==> rows_of(items + seq![item], show_hidden) == rows_of(items, show_hidden),
{
    assert((items + seq![item]).drop_last() =~= items);
    if item.metadata is Some {
        let front = rows_of(items, show_hidden);
        let row = row_of(item.name, item.metadata->0);
        assert(front.push(row) =~= front + seq![row]);
    }
}

/// A file counts with its own size, a directory with the counted one, and with nothing until it
/// was counted.
pub proof fn sizes_that_count(row: EntryView)
    ensures
        !row.is_dir ==> row.effective_size() == row.size,
        row.is_dir && row.dir_size is Some ==> row.effective_size() == row.dir_size->0,
        row.is_dir && row.dir_size is None ==> row.effective_size() == 0,
{
}

/// What is read-only is marked, and nothing else is; a time that is not known is not shown.
pub proof fn marks_and_times(row: EntryView, offset: i32)
    ensures
        row.readonly ==> row.attr() == seq!['R'],
        !row.readonly ==> row.attr().len() == 0,
        row.modified is None ==> row.modified_text(offset).len() == 0,
        row.modified is Some ==> row.modified_text(offset) == date_text(
            row.modified->0.secs,
            offset,
        ),
{
    reveal_strlit("R");
    reveal_strlit("");
    assert("R"@ =~= seq!['R']);
}

} // verus!
