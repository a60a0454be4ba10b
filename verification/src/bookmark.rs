//! Bookmarks of directories.

use crate::panel::ActivePanel;
use crate::path::{DirPath, PathView};
use crate::text;
use vstd::prelude::*;

verus! {

broadcast use vstd::string::group_string_axioms;

/// A bookmark: of one directory, or of one for each panel. The first is that of the panel
/// from which bookmarks are used.
#[derive(Debug)]
pub struct Bookmark {
    pub name: String,
    pub left: DirPath,
    pub right: Option<DirPath>,
}

/// What a bookmark is.
#[verifier::ext_equal]
pub struct BookmarkView {
    pub name: Seq<char>,
    pub left: PathView,
    pub right: Option<PathView>,
}

impl View for Bookmark {
    type V = BookmarkView;

    open spec fn view(&self) -> BookmarkView {
        BookmarkView { name: self.name@, left: self.left@, right: self.right.deep_view() }
    }
}

impl DeepView for Bookmark {
    type V = BookmarkView;

    open spec fn deep_view(&self) -> BookmarkView {
        self.view()
    }
}

impl Clone for Bookmark {
    fn clone(&self) -> (r: Self)
        ensures
            r@ == self@,
    {
        Bookmark {
            name: self.name.clone(),
            left: self.left.clone(),
            right: match &self.right {
                Some(p) => Some(p.clone()),
                None => None,
            },
        }
    }
}

/// The state of the bookmark window.
#[derive(Debug)]
pub struct BookmarkBox {
    pub list: Vec<Bookmark>,
    pub show: bool,
    /// The panel from which the window was opened.
    pub target: ActivePanel,
    /// The bookmark that is being edited.
    pub edit_idx: Option<usize>,
    pub edit_name: String,
    pub edit_left: String,
    pub edit_right: String,
}

/// What the state of the window is.
#[verifier::ext_equal]
pub struct BookmarkBoxView {
    pub list: Seq<BookmarkView>,
    pub show: bool,
    pub target: ActivePanel,
    pub edit_idx: Option<usize>,
    pub edit_name: Seq<char>,
    pub edit_left: Seq<char>,
    pub edit_right: Seq<char>,
}

impl View for BookmarkBox {
    type V = BookmarkBoxView;

    open spec fn view(&self) -> BookmarkBoxView {
        BookmarkBoxView {
            list: self.list.deep_view(),
            show: self.show,
            target: self.target,
            edit_idx: self.edit_idx,
            edit_name: self.edit_name@,
            edit_left: self.edit_left@,
            edit_right: self.edit_right@,
        }
    }
}

/// A list with the item at `i` one place further up, where there is such a place.
pub open spec fn raised<T>(list: Seq<T>, i: int) -> Seq<T> {
    if 0 < i < list.len() {
        list.update(i, list[i - 1]).update(i - 1, list[i])
    } else {
        list
    }
}

/// A list with the item at `i` one place further down, where there is such a place.
pub open spec fn lowered<T>(list: Seq<T>, i: int) -> Seq<T> {
    raised(list, i + 1)
}

/// The text of the second directory of a bookmark, empty where there is none.
pub open spec fn second_text(right: Option<PathView>) -> Seq<char> {
    match right {
        Some(p) => p.text(),
        None => seq![],
    }
}

/// Moving a bookmark up and down again, or down and up again, changes nothing.
pub proof fn raised_then_lowered<T>(list: Seq<T>, i: int)
    requires
        0 < i < list.len(),
    ensures
        lowered(raised(list, i), i - 1) == list,
        raised(lowered(list, i - 1), i) == list,
{
    assert(lowered(raised(list, i), i - 1) =~= list);
}

/// Moving a bookmark keeps all of them.
pub proof fn raised_keeps_items<T>(list: Seq<T>, i: int)
    ensures
        raised(list, i).len() == list.len(),
        forall|k: int|
            0 <= k < list.len() && k != i && k != i - 1 ==> raised(list, i)[k] == list[k],
        0 < i < list.len() ==> raised(list, i)[i - 1] == list[i] && raised(list, i)[i] == list[i
            - 1],
{
}

/// A bookmark that was added last and is taken out leaves the others as they were.
pub proof fn added_then_removed<T>(list: Seq<T>, item: T)
    ensures
        list.push(item).remove(list.len() as int) == list,
{
    assert(list.push(item).remove(list.len() as int) =~= list);
}

impl BookmarkBox {
    /// The window with the bookmarks that there are.
    pub fn new(list: Vec<Bookmark>) -> (r: BookmarkBox)
        ensures
            r@ == (BookmarkBoxView {
                list: list.deep_view(),
                show: false,
                target: ActivePanel::Left,
                edit_idx: None,
                edit_name: seq![],
                edit_left: seq![],
                edit_right: seq![],
            }),
    {
        BookmarkBox {
            list,
            show: false,
            target: ActivePanel::Left,
            edit_idx: None,
            edit_name: String::new(),
            edit_left: String::new(),
            edit_right: String::new(),
        }
    }

    /// Opens the window from a panel.
    pub fn open(&mut self, target: ActivePanel)
        ensures
            *final(self) == (BookmarkBox { target, show: true, ..*old(self) }),
    {
        self.target = target;
        self.show = true;
    }

    /// Closes the window.
    pub fn close(&mut self)
        ensures
            *final(self) == (BookmarkBox { show: false, edit_idx: None, ..*old(self) }),
    {
        self.show = false;
        self.edit_idx = None;
    }

    /// Adds a bookmark, named like its first directory.
    pub fn add_path(&mut self, left: &DirPath, right: Option<&DirPath>)
        ensures
            final(self)@ == (BookmarkBoxView {
                list: old(self)@.list.push(
                    BookmarkView {
                        name: left@.name_or_empty(),
                        left: left@,
                        right: match right {
                            Some(p) => Some(p@),
                            None => None,
                        },
                    },
                ),
                ..old(self)@
            }),
    {
        let name = left.file_name_or_empty();
        let bm = Bookmark {
            name,
            left: left.clone(),
            right: match right {
                Some(p) => Some(p.clone()),
                None => None,
            },
        };
        self.list.push(bm);
        assert(self@.list =~= old(self)@.list.push(bm@));
    }

    /// Takes a bookmark out; tells whether there was one.
    pub fn remove_bookmark(&mut self, idx: usize) -> (r: bool)
        ensures
            r == (idx < old(self).list.len()),
            final(self)@ == (BookmarkBoxView {
                list: if r {
                    old(self)@.list.remove(idx as int)
                } else {
                    old(self)@.list
                },
                edit_idx: if old(self).edit_idx == Some(idx) {
                    None
                } else {
                    old(self).edit_idx
                },
                ..old(self)@
            }),
    {
        let there = idx < self.list.len();
        if there {
            let _ = self.list.remove(idx);
            assert(self@.list =~= old(self)@.list.remove(idx as int));
        }
        if let Some(i) = self.edit_idx {
            if i == idx {
                self.edit_idx = None;
            }
        }
        there
    }

    /// Starts to edit a bookmark.
    pub fn begin_edit(&mut self, idx: usize)
        requires
            idx < old(self).list.len(),
        ensures
            final(self)@ == (BookmarkBoxView {
                edit_idx: Some(idx),
                edit_name: old(self)@.list[idx as int].name,
                edit_left: old(self)@.list[idx as int].left.text(),
                edit_right: second_text(old(self)@.list[idx as int].right),
                ..old(self)@
            }),
    {
        assert(self@.list[idx as int] == self.list[idx as int]@);
        self.edit_name = self.list[idx].name.clone();
        self.edit_left = self.list[idx].left.text();
        self.edit_right = match &self.list[idx].right {
            Some(p) => p.text(),
            None => String::new(),
        };
        self.edit_idx = Some(idx);
    }

    /// The directories that were typed in, without blanks around them.
    pub fn typed_paths(&self) -> (r: (String, String))
        ensures
            r.0@ == text::trimmed(self.edit_left@),
            r.1@ == text::trimmed(self.edit_right@),
    {
        (text::trim(self.edit_left.as_str()), text::trim(self.edit_right.as_str()))
    }

    /// Ends editing and keeps the changes; `left` and `right` are the directories that were
    /// typed in. Tells whether a bookmark was changed. A bookmark without a second directory
    /// is one of a single directory.
    pub fn save_edit(&mut self, left: DirPath, right: DirPath) -> (r: bool)
        ensures
            r == (old(self).edit_idx matches Some(i) && i < old(self).list.len()),
            final(self)@ == (BookmarkBoxView {
                list: if r {
                    old(self)@.list.update(
                        old(self).edit_idx->0 as int,
                        BookmarkView {
                            name: text::trimmed(old(self).edit_name@),
                            left: left@,
                            right: if text::trimmed(old(self).edit_right@).len() == 0 {
                                None
                            } else {
                                Some(right@)
                            },
                        },
                    )
                } else {
                    old(self)@.list
                },
                edit_idx: None,
                ..old(self)@
            }),
    {
        let mut changed = false;
        if let Some(i) = self.edit_idx {
            if i < self.list.len() {
                let name = text::trim(self.edit_name.as_str());
                let second = text::trim(self.edit_right.as_str());
                let bm = Bookmark {
                    name,
                    left,
                    right: if second.as_str().unicode_len() == 0 {
                        None
                    } else {
                        Some(right)
                    },
                };
                self.list.set(i, bm);
                assert(self@.list =~= old(self)@.list.update(i as int, bm@));
                changed = true;
            }
        }
        self.edit_idx = None;
        changed
    }

    /// Ends editing without changes.
    pub fn cancel_edit(&mut self)
        ensures
            *final(self) == (BookmarkBox { edit_idx: None, ..*old(self) }),
    {
        self.edit_idx = None;
    }

    /// Moves a bookmark one place up; tells whether there was such a place.
    pub fn move_up(&mut self, idx: usize) -> (r: bool)
        ensures
            r == (0 < idx < old(self).list.len()),
            final(self)@ == (BookmarkBoxView {
                list: raised(old(self)@.list, idx as int),
                ..old(self)@
            }),
    {
        if idx == 0 || idx >= self.list.len() {
            return false;
        }
        let bm = self.list.remove(idx);
        self.list.insert(idx - 1, bm);
        assert(self@.list =~= raised(old(self)@.list, idx as int));
        true
    }

    /// Moves a bookmark one place down; tells whether there was such a place.
    pub fn move_down(&mut self, idx: usize) -> (r: bool)
        ensures
            r == (idx + 1 < old(self).list.len()),
            final(self)@ == (BookmarkBoxView {
                list: lowered(old(self)@.list, idx as int),
                ..old(self)@
            }),
    {
        if idx >= self.list.len() || self.list.len() - idx == 1 {
            return false;
        }
        self.move_up(idx + 1)
    }

    /// The bookmark at a position; the window is closed.
    pub fn pick(&mut self, idx: usize) -> (r: Bookmark)
        requires
            idx < old(self).list.len(),
        ensures
            *final(self) == (BookmarkBox { show: false, edit_idx: None, ..*old(self) }),
            r@ == old(self)@.list[idx as int],
    {
        let bm = self.list[idx].clone();
        assert(self@.list[idx as int] == self.list[idx as int]@);
        self.close();
        bm
    }
}

} // verus!
