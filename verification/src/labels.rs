//! The texts of the windows.

use crate::app::FileManagerApp;
use crate::archive::ArchiveLocation;
use crate::bookmark::Bookmark;
use crate::file_op::{FileSlot, OpKind, SlotView};
use crate::number;
use crate::path::{DirPath, PathView};
use crate::search::SearchBox;
use crate::text;
use vstd::prelude::*;

verus! {

broadcast use vstd::string::group_string_axioms;

/// Puts a number between two texts.
fn counted(before: &str, n: usize, after: &str) -> (r: String)
    ensures
        r@ == before@ + number::nat_text(n as nat) + after@,
{
    let mut s = before.to_owned();
    let digits = number::decimal_usize(n);
    s.append(digits.as_str());
    s.append(after);
    s
}

/// The title of the main window.
pub fn main_title(version: &str) -> (r: String)
    ensures
        r@ == "eR Commander v"@ + version@,
{
    let mut s = "eR Commander v".to_owned();
    s.append(version);
    s
}

/// The question of the window for deleting.
pub fn delete_question(n: usize) -> (r: String)
    ensures
        r@ == "Chystáš se natrvalo smazat "@ + number::nat_text(n as nat) + " položek:"@,
{
    counted("Chystáš se natrvalo smazat ", n, " položek:")
}

/// The title of the window for packing.
pub fn pack_title(n: usize) -> (r: String)
    ensures
        r@ == "📦 Zabalit "@ + number::nat_text(n as nat) + " položek do ZIP"@,
{
    counted("📦 Zabalit ", n, " položek do ZIP")
}

/// How many files are listed by name in the window for packing.
pub const MAX_LISTED: usize = 5;

/// What the window for packing lists: the names of the files, or their number where there are
/// many.
pub open spec fn listed_files(files: Seq<PathView>) -> Seq<Seq<char>> {
    if files.len() <= MAX_LISTED {
        Seq::new(files.len(), |i: int| files[i].name_or_empty())
    } else {
        seq![number::nat_text(files.len()) + " souborů/složek"@]
    }
}

/// What the window for packing lists.
pub fn pack_lines(files: &Vec<DirPath>) -> (r: Vec<String>)
    ensures
        r.deep_view() == listed_files(files.deep_view()),
{
    let mut out: Vec<String> = Vec::new();
    assert(files.deep_view().len() == files.len());
    if files.len() > MAX_LISTED {
        let mut s = number::decimal_usize(files.len());
        s.append(" souborů/složek");
        out.push(s);
        assert(out.deep_view() =~= listed_files(files.deep_view()));
        return out;
    }
    let mut i: usize = 0;
    while i < files.len()
        invariant
            i <= files.len(),
            out.len() == i,
            forall|k: int| 0 <= k < i ==> (#[trigger] out[k])@ == files[k]@.name_or_empty(),
        decreases files.len() - i,
    {
        out.push(files[i].file_name_or_empty());
        i += 1;
    }
    assert(out.deep_view() =~= listed_files(files.deep_view()));
    out
}

/// What copying and moving are called.
pub open spec fn transfer_word(kind: OpKind) -> Seq<char> {
    if kind == OpKind::Copy {
        "Kopírovat"@
    } else {
        "Přesunout"@
    }
}

/// The title of the window for copying and moving.
pub fn copy_title(kind: OpKind, n: usize) -> (r: String)
    ensures
        r@ == transfer_word(kind) + " "@ + number::nat_text(n as nat) + " položek?"@,
{
    let mut s = if kind == OpKind::Copy {
        "Kopírovat".to_owned()
    } else {
        "Přesunout".to_owned()
    };
    s.append(" ");
    let digits = number::decimal_usize(n);
    s.append(digits.as_str());
    s.append(" položek?");
    s
}

/// The button that confirms copying or moving.
pub fn copy_button(kind: OpKind) -> (r: String)
    ensures
        r@ == "Ano, "@ + text::lowercase(transfer_word(kind)),
{
    let word = if kind == OpKind::Copy {
        text::to_lower("Kopírovat")
    } else {
        text::to_lower("Přesunout")
    };
    let mut s = "Ano, ".to_owned();
    s.append(word.as_str());
    s
}

/// The question whether existing files are overwritten.
pub fn overwrite_question(n: usize) -> (r: String)
    ensures
        r@ == number::nat_text(n as nat)
            + " položek v cíli už existuje a budou přepsány, pokud zvolíš \"Přepsat vše\":"@,
{
    let mut s = number::decimal_usize(n);
    s.append(" položek v cíli už existuje a budou přepsány, pokud zvolíš \"Přepsat vše\":");
    s
}

/// A line of the preview of renaming: names that change are told apart.
pub fn preview_line(old_name: &str, new_name: &str) -> (r: (bool, String))
    ensures
        r.0 == (old_name@ != new_name@),
        r.1@ == if old_name@ == new_name@ {
            "  "@ + old_name@
        } else {
            old_name@ + "  →  "@ + new_name@
        },
{
    if text::same(old_name, new_name) {
        let mut s = "  ".to_owned();
        s.append(old_name);
        (false, s)
    } else {
        let mut s = old_name.to_owned();
        s.append("  →  ");
        s.append(new_name);
        (true, s)
    }
}

/// The title of the progress window.
pub fn progress_title(label: &str) -> (r: String)
    ensures
        r@ == label@ + " – průběh"@,
{
    let mut s = label.to_owned();
    s.append(" – průběh");
    s
}

/// How many items of an operation are done.
pub fn files_done(done: usize, total: usize) -> (r: String)
    ensures
        r@ == number::nat_text(done as nat) + " / "@ + number::nat_text(total as nat)
            + " souborů"@,
{
    let mut s = number::decimal_usize(done);
    s.append(" / ");
    let all = number::decimal_usize(total);
    s.append(all.as_str());
    s.append(" souborů");
    s
}

/// How many bytes of an operation are done.
pub fn bytes_done(done: u64, total: u64) -> (r: String)
    ensures
        r@ == number::size_text(done as nat) + " / "@ + number::size_text(total as nat),
{
    let mut s = number::format_size(done);
    s.append(" / ");
    let all = number::format_size(total);
    s.append(all.as_str());
    s
}

/// How many files were left out.
pub fn skipped_line(n: usize) -> (r: String)
    ensures
        r@ == "Přeskočeno: "@ + number::nat_text(n as nat) + " souboru"@,
{
    counted("Přeskočeno: ", n, " souboru")
}

/// How many errors there were.
pub fn errors_line(n: usize) -> (r: String)
    ensures
        r@ == "Chyby: "@ + number::nat_text(n as nat),
{
    let mut s = "Chyby: ".to_owned();
    let digits = number::decimal_usize(n);
    s.append(digits.as_str());
    s
}

/// The files that are being worked on.
pub open spec fn busy_slots(slots: Seq<Option<SlotView>>) -> Seq<SlotView>
    decreases slots.len(),
{
    if slots.len() == 0 {
        seq![]
    } else {
        let front = busy_slots(slots.drop_last());
        match slots.last() {
            Some(slot) => front.push(slot),
            None => front,
        }
    }
}

/// The files that are being worked on: positions of their slots.
pub fn slots_shown(slots: &Vec<Option<FileSlot>>) -> (r: Vec<usize>)
    ensures
        r@.len() == busy_slots(slots.deep_view()).len(),
        forall|k: int|
            0 <= k < r@.len() ==> (#[trigger] r@[k]) < slots.len() && slots.deep_view()[r@[k] as int]
                == Some(busy_slots(slots.deep_view())[k]),
{
    let ghost all = slots.deep_view();
    let mut out: Vec<usize> = Vec::new();
    let mut i: usize = 0;
    assert(all.take(0) =~= seq![]);
    while i < slots.len()
        invariant
            i <= slots.len(),
            all == slots.deep_view(),
            out@.len() == busy_slots(all.take(i as int)).len(),
            forall|k: int|
                0 <= k < out@.len() ==> (#[trigger] out@[k]) < slots.len() && all[out@[k] as int]
                    == Some(busy_slots(all.take(i as int))[k]),
        decreases slots.len() - i,
    {
        proof {
            assert(all.take(i + 1).drop_last() =~= all.take(i as int));
            assert(all.take(i + 1).last() == all[i as int]);
            assert(all[i as int] == slots[i as int].deep_view());
        }
        if slots[i].is_some() {
            out.push(i);
        }
        i += 1;
    }
    assert(all.take(all.len() as int) =~= all);
    out
}

/// What is told of a count of checksums.
pub fn hash_line(done: usize, total: usize, current: &str) -> (r: String)
    ensures
        r@ == "Počítám "@ + number::nat_text(done as nat) + "/"@ + number::nat_text(total as nat)
            + ": "@ + current@,
{
    let mut s = "Počítám ".to_owned();
    let a = number::decimal_usize(done);
    s.append(a.as_str());
    s.append("/");
    let b = number::decimal_usize(total);
    s.append(b.as_str());
    s.append(": ");
    s.append(current);
    s
}

/// What is told of a search: how many files were looked at while it runs, then how many were
/// found, if any.
pub fn search_line(b: &SearchBox) -> (r: Option<String>)
    ensures
        r.deep_view() == if b@.running {
            Some("prohledáno "@ + number::nat_text(b@.scanned as nat) + " souborů..."@)
        } else if b@.results.len() > 0 {
            Some("nalezeno: "@ + number::nat_text(b@.results.len()))
        } else {
            None
        },
{
    assert(b@.results.len() == b.results.len());
    if b.running {
        Some(counted("prohledáno ", b.scanned, " souborů..."))
    } else if b.results.len() > 0 {
        let mut s = "nalezeno: ".to_owned();
        let digits = number::decimal_usize(b.results.len());
        s.append(digits.as_str());
        Some(s)
    } else {
        None
    }
}

/// The lines below the name of a bookmark: its first directory, and its second, where there is
/// one.
pub fn bookmark_lines(bm: &Bookmark) -> (r: (String, Option<String>))
    ensures
        r.0@ == "A: "@ + bm@.left.text(),
        r.1.deep_view() == match bm@.right {
            Some(p) => Some("N: "@ + p.text()),
            None => None,
        },
{
    let mut first = "A: ".to_owned();
    let left = bm.left.text();
    first.append(left.as_str());
    let second = match &bm.right {
        Some(p) => {
            let mut s = "N: ".to_owned();
            let t = p.text();
            s.append(t.as_str());
            Some(s)
        },
        None => None,
    };
    (first, second)
}

/// The place of a panel inside an archive.
pub fn archive_line(loc: &ArchiveLocation) -> (r: String)
    ensures
        r@ == "[ZIP] "@ + loc.archive_path@.name_or_empty() + " /"@ + loc.internal_dir@,
{
    let mut s = "[ZIP] ".to_owned();
    let name = loc.archive_path.file_name_or_empty();
    s.append(name.as_str());
    s.append(" /");
    s.append(loc.internal_dir.as_str());
    s
}

/// What is told where there is no newer version.
pub fn up_to_date_line(version: &str) -> (r: String)
    ensures
        r@ == "✅ Máš nejnovější verzi (v"@ + version@ + ")."@,
{
    let mut s = "✅ Máš nejnovější verzi (v".to_owned();
    s.append(version);
    s.append(").");
    s
}

/// What is told of a newer version, and of the one that runs.
pub fn update_lines(offered: &str, version: &str) -> (r: (String, String))
    ensures
        r.0@ == "🆕 Dostupná nová verze: "@ + offered@,
        r.1@ == "Aktuální verze: v"@ + version@,
{
    let mut first = "🆕 Dostupná nová verze: ".to_owned();
    first.append(offered);
    let mut second = "Aktuální verze: v".to_owned();
    second.append(version);
    (first, second)
}

impl FileManagerApp {
    /// Which bookmark Enter goes to: the first one, unless a bookmark is being edited.
    pub fn bookmark_on_enter(&self) -> (r: Option<usize>)
        ensures
            r == if self.bookmarks.edit_idx is None && self.bookmarks.list@.len() > 0 {
                Some(0usize)
            } else {
                None
            },
    {
        if self.bookmarks.edit_idx.is_none() && self.bookmarks.list.len() > 0 {
            Some(0)
        } else {
            None
        }
    }
}

/// A few files are listed by name, many by their number.
pub proof fn files_are_listed(files: Seq<PathView>, i: int)
    ensures
        files.len() <= 5 ==> listed_files(files).len() == files.len(),
        files.len() <= 5 && 0 <= i < files.len() ==> listed_files(files)[i]
            == files[i].name_or_empty(),
        files.len() > 5 ==> listed_files(files) == seq![
            number::nat_text(files.len()) + " souborů/složek"@,
        ],
{
}

/// The slots that are shown are those at work, in their order.
pub proof fn slots_at_work(slots: Seq<Option<SlotView>>, slot: SlotView)
    ensures
        busy_slots(Seq::<Option<SlotView>>::empty()).len() == 0,
        busy_slots(slots + seq![Some(slot)]) == busy_slots(slots) + seq![slot],
        busy_slots(slots + seq![None]) == busy_slots(slots),
{
    assert((slots + seq![Some(slot)]).drop_last() =~= slots);
    assert((slots + seq![None]).drop_last() =~= slots);
    assert(busy_slots(slots).push(slot) =~= busy_slots(slots) + seq![slot]);
}

} // verus!
