//! Paths of directories and files as a root and a list of component names.

use crate::entry;
use crate::text;
use vstd::prelude::*;

verus! {

broadcast use vstd::string::group_string_axioms;

/// What a path is: the text of its root, empty for a relative path, the names below it, and
/// the character that stands between names.
#[verifier::ext_equal]
pub struct PathView {
    pub root: Seq<char>,
    pub parts: Seq<Seq<char>>,
    pub sep: char,
}

/// A path. The root is the text in front of the first name (`/`, `C:\`, `\\NAS\share\`).
#[derive(Debug)]
pub struct DirPath {
    pub root: String,
    pub parts: Vec<String>,
    pub sep: char,
}

impl View for DirPath {
    type V = PathView;

    open spec fn view(&self) -> PathView {
        PathView { root: self.root@, parts: self.parts.deep_view(), sep: self.sep }
    }
}

impl DeepView for DirPath {
    type V = PathView;

    open spec fn deep_view(&self) -> PathView {
        self.view()
    }
}

/// Whether a component stands for a place relative to another one instead of a name.
pub open spec fn is_dots(part: Seq<char>) -> bool {
    part == "."@ || part == ".."@
}

/// Whether a text begins with a drive, where paths have drives: those whose names are parted
/// by a backslash.
pub open spec fn has_drive(name: Seq<char>, sep: char) -> bool {
    sep == '\\' && name.len() >= 2 && name[1] == ':' && ('a' <= name[0] <= 'z' || 'A' <= name[0]
        <= 'Z')
}

/// Whether a text is a single name: it holds no separator and begins with no drive. A slash
/// parts names everywhere.
pub open spec fn is_plain(name: Seq<char>, sep: char) -> bool {
    !name.contains(sep) && !name.contains('/') && !has_drive(name, sep)
}

/// Those of some pieces that lead anywhere: neither empty nor a single dot.
pub open spec fn leading_on(pieces: Seq<Seq<char>>) -> Seq<Seq<char>>
    decreases pieces.len(),
{
    if pieces.len() == 0 {
        seq![]
    } else {
        let front = leading_on(pieces.drop_last());
        if pieces.last().len() == 0 || pieces.last() == "."@ {
            front
        } else {
            front.push(pieces.last())
        }
    }
}

/// The names in a text, parted by `sep`.
pub open spec fn names_in(t: Seq<char>, sep: char) -> Seq<Seq<char>> {
    leading_on(text::pieces(t, sep))
}

impl PathView {
    /// Where a text leads that is more than a single name, with `sep` as its only separator.
    /// One with a drive or a network share leads there, whatever the path. One that begins
    /// with a separator leads from the root of the path on. Any other leads from the path on.
    pub open spec fn led(self, t: Seq<char>) -> PathView {
        let names = names_in(t, self.sep);
        if has_drive(t, self.sep) {
            let rooted = t.len() > 2 && t[2] == self.sep;
            PathView {
                root: t.take(
                    if rooted {
                        3
                    } else {
                        2
                    },
                ),
                parts: names_in(t.skip(2), self.sep),
                sep: self.sep,
            }
        } else if t.len() > 0 && t[0] == self.sep {
            if self.sep == '\\' && t.len() > 1 && t[1] == self.sep && names.len() >= 2 {
                let share = seq![self.sep, self.sep] + names[0] + seq![self.sep] + names[1];
                PathView { root: share.push(self.sep), parts: names.skip(2), sep: self.sep }
            } else {
                PathView { root: self.rooted(), parts: names, sep: self.sep }
            }
        } else {
            PathView { parts: self.parts + names, ..self }
        }
    }

    /// The root of the path, with a separator at its end.
    pub open spec fn rooted(self) -> Seq<char> {
        if self.root.len() > 0 && self.root.last() == self.sep {
            self.root
        } else {
            self.root.push(self.sep)
        }
    }

    /// The path as text.
    pub open spec fn text(self) -> Seq<char> {
        self.root + text::joined(self.parts, seq![self.sep])
    }

    /// The directory that holds the path: none for a root.
    pub open spec fn parent(self) -> Option<PathView> {
        if self.parts.len() == 0 {
            None
        } else {
            Some(PathView { parts: self.parts.drop_last(), ..self })
        }
    }

    /// The last name of the path: none for a root, and none where the path ends in dots.
    pub open spec fn name(self) -> Option<Seq<char>> {
        if self.parts.len() == 0 || is_dots(self.parts.last()) {
            None
        } else {
            Some(self.parts.last())
        }
    }

    /// The last name of the path, empty where there is none.
    pub open spec fn name_or_empty(self) -> Seq<char> {
        match self.name() {
            Some(n) => n,
            None => seq![],
        }
    }

    /// The path of an item with the given name. A text that is more than a single name is taken
    /// as a path of its own, from this one on.
    pub open spec fn child(self, name: Seq<char>) -> PathView {
        if name.len() == 0 || name == "."@ {
            self
        } else if is_plain(name, self.sep) {
            PathView { parts: self.parts.push(name), ..self }
        } else {
            self.led(text::char_replaced(name, '/', self.sep))
        }
    }

    /// The first component: the drive or the root, the first name of a relative path, `Disk`
    /// for an empty one.
    pub open spec fn label(self) -> Seq<char> {
        if self.root.len() > 1 && self.root.last() == self.sep {
            self.root.drop_last()
        } else if self.root.len() > 0 {
            self.root
        } else if self.parts.len() > 0 {
            self.parts[0]
        } else {
            "Disk"@
        }
    }

    /// The path with another extension; a path without a name stays as it is.
    pub open spec fn with_extension(self, ext: Seq<char>) -> PathView {
        match self.name() {
            Some(name) => PathView {
                parts: self.parts.drop_last().push(entry::stem(name) + "."@ + ext),
                ..self
            },
            None => self,
        }
    }

    /// The path cut after its first `n` names.
    pub open spec fn ancestor(self, n: int) -> PathView {
        PathView { parts: self.parts.take(n), ..self }
    }
}

/// Going into an item and back up gives the directory again.
pub proof fn child_then_parent(p: PathView, name: Seq<char>)
    requires
        name.len() > 0,
        name != "."@,
        is_plain(name, p.sep),
    ensures
        p.child(name).parent() == Some(p),
{
    assert(p.child(name).parts.drop_last() == p.parts);
    assert(p.child(name).parent()->0 == p);
}

/// The path of an item ends in the item's name.
pub proof fn child_has_name(p: PathView, name: Seq<char>)
    requires
        name.len() > 0,
        !is_dots(name),
        is_plain(name, p.sep),
    ensures
        p.child(name).name() == Some(name),
{
}

/// Different names in one directory have different paths.
pub proof fn child_injective(p: PathView, a: Seq<char>, b: Seq<char>)
    requires
        a.len() > 0,
        b.len() > 0,
        a != "."@,
        b != "."@,
        is_plain(a, p.sep),
        is_plain(b, p.sep),
        p.child(a) == p.child(b),
    ensures
        a == b,
{
    assert(p.child(a).parts.last() == a);
    assert(p.child(b).parts.last() == b);
}

/// A text that begins with a separator leads to the same place below a root, whatever the
/// directory that it is taken from.
pub proof fn rooted_text_replaces(p: PathView, q: PathView, name: Seq<char>)
    requires
        name.len() > 0,
        name[0] == '/',
        p.root == q.root,
        p.sep == q.sep,
    ensures
        p.child(name) == q.child(name),
{
    assert(name.contains('/'));
    reveal_strlit(".");
    assert(name != "."@) by {
        if name == "."@ {
            assert(name[0] == '.');
        }
    }
}

proof fn lemma_leading_on_pair(a: Seq<char>, b: Seq<char>)
    requires
        a.len() > 0,
        b.len() > 0,
        a != "."@,
        b != "."@,
    ensures
        leading_on(seq![a, b]) == seq![a, b],
{
    let all = seq![a, b];
    assert(all.drop_last() =~= seq![a]);
    assert(seq![a].drop_last() =~= Seq::<Seq<char>>::empty());
    assert(leading_on(Seq::<Seq<char>>::empty()) =~= Seq::<Seq<char>>::empty());
    assert(leading_on(seq![a]) =~= seq![a]);
    assert(leading_on(all) =~= seq![a, b]);
}

/// Two names with a slash between them lead through the first to the second.
pub proof fn names_lead_on(p: PathView, a: Seq<char>, b: Seq<char>)
    requires
        a.len() > 0,
        b.len() > 0,
        a != "."@,
        b != "."@,
        is_plain(a, p.sep),
        is_plain(b, p.sep),
    ensures
        p.child(a + "/"@ + b) == p.child(a).child(b),
{
    reveal_strlit("/");
    reveal_strlit(".");
    let name = a + "/"@ + b;
    let n = a.len() as int;
    let t = text::char_replaced(name, '/', p.sep);
    assert(name[n] == '/');
    assert(name.contains('/'));
    assert(name != "."@) by {
        assert(name.len() >= 3);
    }
    assert forall|k: int| 0 <= k < a.len() implies #[trigger] t[k] == a[k] by {
        assert(name[k] == a[k]);
        assert(a.contains(a[k]));
    }
    assert forall|k: int| 0 <= k < b.len() implies #[trigger] t[n + 1 + k] == b[k] by {
        assert(name[n + 1 + k] == b[k]);
        assert(b.contains(b[k]));
    }
    assert(t[n] == p.sep);
    assert forall|k: int| 0 <= k < n implies t[k] != p.sep by {
        assert(a.contains(a[k]));
    }
    text::lemma_first_of_is(t, p.sep, n);
    assert(t.subrange(0, n) =~= a);
    let rest = text::after(t, n + 1);
    assert(rest =~= b);
    assert(text::first_of(b, p.sep) >= b.len() || text::first_of(b, p.sep) < 0) by {
        text::lemma_first_of(b, p.sep);
        let at = text::first_of(b, p.sep);
        if 0 <= at < b.len() {
            assert(b.contains(b[at]));
        }
    }
    assert(text::pieces(b, p.sep) =~= seq![b]);
    assert(text::pieces(t, p.sep) =~= seq![a, b]);
    lemma_leading_on_pair(a, b);
    assert(!has_drive(t, p.sep)) by {
        if has_drive(t, p.sep) {
            if n >= 2 {
                assert(a[0] == t[0] && a[1] == t[1]);
            } else {
                assert(t[1] == p.sep);
            }
        }
    }
    assert(t[0] == a[0]);
    assert(a.contains(a[0]));
    assert(p.child(name).parts =~= p.child(a).child(b).parts);
}

impl Clone for DirPath {
    fn clone(&self) -> (r: Self)
        ensures
            r@ == self@,
    {
        DirPath { root: self.root.clone(), parts: text::copy_texts(&self.parts), sep: self.sep }
    }
}

impl DirPath {
    /// The path without components.
    pub fn empty(sep: char) -> (r: DirPath)
        ensures
            r@ == (PathView { root: seq![], parts: seq![], sep }),
    {
        let r = DirPath { root: String::new(), parts: Vec::new(), sep };
        assert(r@.parts =~= Seq::empty());
        r
    }

    /// The path as text.
    pub fn text(&self) -> (r: String)
        ensures
            r@ == self@.text(),
    {
        let mut s = String::new();
        s.push(self.sep);
        assert(s@ =~= seq![self.sep]);
        let rest = text::join(&self.parts, s.as_str());
        let mut out = self.root.clone();
        out.append(rest.as_str());
        out
    }

    /// Whether two paths are the same.
    pub fn same(&self, other: &DirPath) -> (r: bool)
        ensures
            r == (self@ == other@),
    {
        if self.sep != other.sep || !text::same(self.root.as_str(), other.root.as_str())
            || self.parts.len() != other.parts.len() {
            assert(self@.parts.len() == self.parts.len());
            assert(other@.parts.len() == other.parts.len());
            return false;
        }
        let mut i: usize = 0;
        while i < self.parts.len()
            invariant
                i <= self.parts.len(),
                self.parts.len() == other.parts.len(),
                forall|k: int| 0 <= k < i ==> self.parts[k]@ == other.parts[k]@,
            decreases self.parts.len() - i,
        {
            if !text::same(self.parts[i].as_str(), other.parts[i].as_str()) {
                assert(self@.parts[i as int] != other@.parts[i as int]);
                return false;
            }
            i += 1;
        }
        assert(self@.parts =~= other@.parts);
        true
    }

    /// Whether the path has a parent.
    pub fn has_parent(&self) -> (r: bool)
        ensures
            r == self@.parent() is Some,
    {
        self.parts.len() > 0
    }

    /// The directory that holds the path.
    pub fn parent(&self) -> (r: Option<DirPath>)
        ensures
            r.deep_view() == self@.parent(),
    {
        if self.parts.len() == 0 {
            return None;
        }
        let mut p = self.clone();
        p.parts.pop();
        assert(p@.parts =~= self@.parts.drop_last());
        Some(p)
    }

    /// Cuts the path to its first `n` names.
    pub fn ancestor(&self, n: usize) -> (r: DirPath)
        requires
            n <= self.parts.len(),
        ensures
            r@ == self@.ancestor(n as int),
    {
        let mut p = self.clone();
        p.parts.truncate(n);
        assert(p@.parts =~= self@.parts.take(n as int));
        p
    }

    /// The path with another extension.
    pub fn with_extension(&self, ext: &str) -> (r: DirPath)
        ensures
            r@ == self@.with_extension(ext@),
    {
        let mut p = self.clone();
        match self.file_name() {
            Some(name) => {
                let mut last = entry::stem_of(name.as_str());
                last.append(".");
                last.append(ext);
                p.parts.pop();
                p.parts.push(last);
                assert(p@.parts =~= self@.with_extension(ext@).parts);
            },
            None => {},
        }
        p
    }

    /// The last name of the path.
    pub fn file_name(&self) -> (r: Option<String>)
        ensures
            r.deep_view() == self@.name(),
    {
        if self.parts.len() == 0 {
            return None;
        }
        let last = &self.parts[self.parts.len() - 1];
        assert(self@.parts.last() == last@);
        if text::same(last.as_str(), ".") || text::same(last.as_str(), "..") {
            return None;
        }
        Some(last.clone())
    }

    /// The last name of the path, empty where there is none.
    pub fn file_name_or_empty(&self) -> (r: String)
        ensures
            r@ == self@.name_or_empty(),
    {
        match self.file_name() {
            Some(n) => n,
            None => String::new(),
        }
    }

    /// The path of an item with the given name.
    pub fn join(&self, name: &str) -> (r: DirPath)
        ensures
            r@ == self@.child(name@),
    {
        let mut p = self.clone();
        p.push(name);
        p
    }

    /// Makes the path that of an item with the given name.
    pub fn push(&mut self, name: &str)
        ensures
            final(self)@ == old(self)@.child(name@),
    {
        if name.unicode_len() == 0 || text::same(name, ".") {
            return;
        }
        if plain(name, self.sep) {
            self.parts.push(name.to_owned());
            assert(self@.parts =~= old(self)@.parts.push(name@));
        } else {
            let t = text::replace_char(name, '/', self.sep);
            self.lead(t.as_str());
        }
    }

    /// Makes the path that to which a text leads.
    fn lead(&mut self, t: &str)
        ensures
            final(self)@ == old(self)@.led(t@),
    {
        let v = text::chars_of(t);
        let sep = self.sep;
        if drive(&v, sep) {
            let at: usize = if v.len() > 2 && v[2] == sep {
                3
            } else {
                2
            };
            let rest = text::text_of(&v, 2, v.len());
            assert(rest@ =~= t@.skip(2));
            self.root = text::text_of(&v, 0, at);
            assert(self.root@ =~= t@.take(at as int));
            self.parts = names(rest.as_str(), sep);
            return;
        }
        let names = names(t, sep);
        assert(names.deep_view().len() == names.len());
        if v.len() > 0 && v[0] == sep {
            if sep == '\\' && v.len() > 1 && v[1] == sep && names.len() >= 2 {
                let mut share = String::new();
                share.push(sep);
                share.push(sep);
                share.append(names[0].as_str());
                share.push(sep);
                share.append(names[1].as_str());
                share.push(sep);
                assert(share@ =~= (seq![sep, sep] + names[0]@ + seq![sep] + names[1]@).push(sep));
                self.root = share;
                self.parts = from_third(&names);
            } else {
                let root = text::chars_of(self.root.as_str());
                if root.len() == 0 || root[root.len() - 1] != sep {
                    self.root.push(sep);
                }
                self.parts = names;
            }
        } else {
            let mut i: usize = 0;
            while i < names.len()
                invariant
                    i <= names.len(),
                    self.root == old(self).root,
                    self.sep == old(self).sep,
                    self.parts.deep_view() == old(self).parts.deep_view()
                        + names.deep_view().take(i as int),
                decreases names.len() - i,
            {
                let ghost before = self.parts.deep_view();
                self.parts.push(names[i].clone());
                proof {
                    assert(self.parts.deep_view() =~= before.push(names[i as int]@));
                    assert(names.deep_view().take(i + 1) =~= names.deep_view().take(i as int).push(
                        names[i as int]@,
                    ));
                }
                i += 1;
            }
            assert(names.deep_view().take(names.len() as int) =~= names.deep_view());
            assert(self@ =~= old(self)@.led(t@));
        }
    }

    /// The first component, for the drive selector.
    pub fn label(&self) -> (r: String)
        ensures
            r@ == self@.label(),
    {
        let v = text::chars_of(self.root.as_str());
        if v.len() > 1 && v[v.len() - 1] == self.sep {
            let r = text::text_of(&v, 0, v.len() - 1);
            assert(r@ =~= self.root@.drop_last());
            r
        } else if v.len() > 0 {
            self.root.clone()
        } else if self.parts.len() > 0 {
            self.parts[0].clone()
        } else {
            "Disk".to_owned()
        }
    }
}

fn drive(v: &Vec<char>, sep: char) -> (r: bool)
    ensures
        r == has_drive(v@, sep),
{
    sep == '\\' && v.len() >= 2 && v[1] == ':' && (('a' <= v[0] && v[0] <= 'z') || ('A' <= v[0]
        && v[0] <= 'Z'))
}

fn plain(name: &str, sep: char) -> (r: bool)
    ensures
        r == is_plain(name@, sep),
{
    let v = text::chars_of(name);
    let mut i: usize = 0;
    while i < v.len()
        invariant
            i <= v.len(),
            v@ == name@,
            forall|k: int| 0 <= k < i ==> #[trigger] name@[k] != sep && name@[k] != '/',
        decreases v.len() - i,
    {
        if v[i] == sep || v[i] == '/' {
            assert(name@.contains(name@[i as int]));
            return false;
        }
        i += 1;
    }
    !drive(&v, sep)
}

fn names(t: &str, sep: char) -> (r: Vec<String>)
    ensures
        r.deep_view() == names_in(t@, sep),
{
    let pieces = text::split(t, sep);
    let ghost all = pieces.deep_view();
    let mut out: Vec<String> = Vec::new();
    let mut i: usize = 0;
    assert(all.take(0) =~= seq![]);
    assert(out.deep_view() =~= leading_on(all.take(0)));
    while i < pieces.len()
        invariant
            i <= pieces.len(),
            all == pieces.deep_view(),
            out.deep_view() == leading_on(all.take(i as int)),
        decreases pieces.len() - i,
    {
        let ghost before = out.deep_view();
        proof {
            assert(all.take(i + 1).drop_last() =~= all.take(i as int));
            assert(all.take(i + 1).last() == pieces[i as int]@);
        }
        let piece = &pieces[i];
        if piece.as_str().unicode_len() > 0 && !text::same(piece.as_str(), ".") {
            out.push(piece.clone());
            assert(out.deep_view() =~= before.push(piece@));
        }
        i += 1;
    }
    assert(all.take(all.len() as int) =~= all);
    out
}

fn from_third(names: &Vec<String>) -> (r: Vec<String>)
    requires
        names.len() >= 2,
    ensures
        r.deep_view() == names.deep_view().skip(2),
{
    let mut out: Vec<String> = Vec::new();
    let mut i: usize = 2;
    while i < names.len()
        invariant
            2 <= i <= names.len(),
            out.len() == i - 2,
            forall|k: int| 0 <= k < out.len() ==> #[trigger] out[k]@ == names[k + 2]@,
        decreases names.len() - i,
    {
        out.push(names[i].clone());
        i += 1;
    }
    assert(out.deep_view() =~= names.deep_view().skip(2));
    out
}

/// Copies of paths.
pub fn copy_paths(v: &Vec<DirPath>) -> (r: Vec<DirPath>)
    ensures
        r.deep_view() == v.deep_view(),
{
    let mut out: Vec<DirPath> = Vec::new();
    let mut i: usize = 0;
    while i < v.len()
        invariant
            i <= v.len(),
            out.len() == i,
            forall|k: int| 0 <= k < i ==> out[k]@ == v[k]@,
        decreases v.len() - i,
    {
        out.push(v[i].clone());
        i += 1;
    }
    assert(out.deep_view() =~= v.deep_view());
    out
}

/// A path is written as its root and its names with the separator between them: a further name
/// is written behind, with the separator before it unless it is the first.
pub proof fn path_is_written_name_by_name(p: PathView, name: Seq<char>)
    requires
        name.len() > 0,
        name != "."@,
        is_plain(name, p.sep),
    ensures
        p.parts.len() == 0 ==> p.text() == p.root && p.child(name).text() == p.root + name,
        p.parts.len() > 0 ==> p.child(name).text() == p.text() + seq![p.sep] + name,
{
    text::joined_one_by_one(p.parts, name, seq![p.sep]);
    assert(p.parts.push(name) =~= p.parts + seq![name]);
    if p.parts.len() == 0 {
        assert(p.parts =~= seq![]);
        assert(p.parts.push(name) =~= seq![name]);
        assert(p.text() =~= p.root);
    } else {
        assert(p.child(name).text() =~= p.text() + seq![p.sep] + name);
    }
}

/// A child that is nothing, or the directory itself, is the directory.
pub proof fn empty_child_is_itself(p: PathView)
    ensures
        p.child(Seq::<char>::empty()) == p,
        p.child("."@) == p,
{
}

/// The parent has all names but the last; only a root has none.
pub proof fn parent_drops_the_last(p: PathView)
    ensures
        p.parent() is None <==> p.parts.len() == 0,
        p.parent() is Some ==> {
            &&& p.parent()->0.root == p.root
            &&& p.parent()->0.sep == p.sep
            &&& p.parts == p.parent()->0.parts + seq![p.parts.last()]
        },
        p.name() is Some ==> p.parts.len() > 0 && p.name()->0 == p.parts.last(),
        p.name() is None ==> p.name_or_empty().len() == 0,
        p.name() is Some ==> p.name_or_empty() == p.name()->0,
{
    if p.parts.len() > 0 {
        assert(p.parts =~= p.parts.drop_last() + seq![p.parts.last()]);
    }
}

/// The ancestor of as many names as there are is the path, and each further parent is one less.
pub proof fn ancestors_are_parents(p: PathView, n: int)
    requires
        0 < n <= p.parts.len(),
    ensures
        p.ancestor(p.parts.len() as int) == p,
        p.ancestor(n).parent() == Some(p.ancestor(n - 1)),
{
    assert(p.parts.take(p.parts.len() as int) =~= p.parts);
    assert(p.parts.take(n).drop_last() =~= p.parts.take(n - 1));
}

/// Of the pieces of a text, those that are empty or a single point lead nowhere; the others
/// stay, in their order.
pub proof fn pieces_that_lead_on(pieces: Seq<Seq<char>>, piece: Seq<char>)
    ensures
        leading_on(Seq::<Seq<char>>::empty()).len() == 0,
        piece.len() == 0 || piece == "."@ ==> leading_on(pieces + seq![piece]) == leading_on(
            pieces,
        ),
        piece.len() > 0 && piece != "."@ ==> leading_on(pieces + seq![piece]) == leading_on(pieces)
            + seq![piece],
{
    assert((pieces + seq![piece]).drop_last() =~= pieces);
    assert(leading_on(pieces).push(piece) =~= leading_on(pieces) + seq![piece]);
}

/// A path with another ending has the same parent, and its name is the stem, a point and the
/// ending.
pub proof fn ending_is_changed(p: PathView, ext: Seq<char>)
    ensures
        p.name() is Some ==> {
            &&& p.with_extension(ext).parts.len() == p.parts.len()
            &&& p.with_extension(ext).parts.last() == entry::stem(p.name()->0) + seq!['.'] + ext
            &&& p.with_extension(ext).parent() == p.parent()
        },
        p.name() is None ==> p.with_extension(ext) == p,
{
    reveal_strlit(".");
    assert("."@ =~= seq!['.']);
    if p.name() is Some {
        assert(p.with_extension(ext).parts.drop_last() =~= p.parts.drop_last());
    }
}

/// A path's label is its root, without the separator behind a longer one; a path without a root
/// shows its first name.
pub proof fn labels_of_roots(p: PathView, root: Seq<char>)
    requires
        p.root == root + seq![p.sep] || p.root == root,
    ensures
        p.root == root + seq![p.sep] && root.len() > 0 ==> p.label() == root,
        p.root == seq![p.sep] ==> p.label() == p.root,
        p.root.len() > 0 && p.root.last() != p.sep ==> p.label() == p.root,
        p.root.len() == 0 && p.parts.len() > 0 ==> p.label() == p.parts[0],
        p.root.len() == 0 && p.parts.len() == 0 ==> p.label() == "Disk"@,
{
    if p.root == root + seq![p.sep] {
        assert(p.root.drop_last() =~= root);
    }
}

/// A letter and a colon lead to a drive, whatever the path was, where names are parted by the
/// backslash.
pub proof fn drives_replace(p: PathView, letter: char, rest: Seq<char>)
    requires
        p.sep == '\\',
        'a' <= letter <= 'z' || 'A' <= letter <= 'Z',
        !rest.contains('\\'),
        !rest.contains('/'),
        rest.len() > 0,
        rest != "."@,
    ensures
        p.child(seq![letter, ':', '\\'] + rest) == (PathView {
            root: seq![letter, ':', '\\'],
            parts: seq![rest],
            sep: '\\',
        }),
{
    let t = seq![letter, ':', '\\'] + rest;
    assert(has_drive(t, '\\'));
    reveal_strlit(".");
    assert(t.len() != "."@.len());
    assert(text::char_replaced(t, '/', '\\') =~= t) by {
        assert forall|i: int| 0 <= i < t.len() implies t[i] != '/' by {
            if i >= 3 {
                assert(rest[i - 3] == t[i]);
                assert(rest.contains(rest[i - 3]));
            }
        }
    }
    assert(t.take(3) =~= seq![letter, ':', '\\']);
    let e = Seq::<char>::empty();
    assert(t.skip(2) =~= e + seq!['\\'] + rest);
    text::pieces_by_separators(e, '\\', rest);
    text::pieces_by_separators(rest, '\\', e);
    let none = Seq::<Seq<char>>::empty();
    pieces_that_lead_on(none, e);
    pieces_that_lead_on(seq![e], rest);
    assert(none + seq![e] =~= seq![e]);
    assert(seq![e] + seq![rest] =~= seq![e, rest]);
    assert(leading_on(none) =~= none);
    assert(leading_on(seq![e]) =~= none);
    assert(names_in(t.skip(2), '\\') =~= seq![rest]);
}

/// A text that begins with the separator leads from the root, with the names in it behind.
pub proof fn separator_leads_from_the_root(p: PathView, name: Seq<char>)
    requires
        p.sep == '/',
        p.root == seq!['/'],
        name.len() > 0,
        name != "."@,
        !name.contains('/'),
    ensures
        p.child(seq!['/'] + name) == (PathView { root: seq!['/'], parts: seq![name], sep: '/' }),
{
    let t = seq!['/'] + name;
    reveal_strlit(".");
    assert(t[0] == '/');
    assert(t.contains('/'));
    assert(t != "."@);
    assert(text::char_replaced(t, '/', '/') =~= t);
    let e = Seq::<char>::empty();
    assert(t =~= e + seq!['/'] + name);
    text::pieces_by_separators(e, '/', name);
    text::pieces_by_separators(name, '/', e);
    let none = Seq::<Seq<char>>::empty();
    pieces_that_lead_on(none, e);
    pieces_that_lead_on(seq![e], name);
    assert(none + seq![e] =~= seq![e]);
    assert(seq![e] + seq![name] =~= seq![e, name]);
    assert(leading_on(none) =~= none);
    assert(leading_on(seq![e]) =~= none);
    assert(names_in(t, '/') =~= seq![name]);
}

/// Two backslashes lead to a share: the first two names are its root.
pub proof fn share_is_a_root(
    p: PathView,
    server: Seq<char>,
    share: Seq<char>,
    name: Seq<char>,
)
    requires
        p.sep == '\\',
        server.len() > 0 && server != "."@ && !server.contains('\\') && !server.contains('/'),
        share.len() > 0 && share != "."@ && !share.contains('\\') && !share.contains('/'),
        name.len() > 0 && name != "."@ && !name.contains('\\') && !name.contains('/'),
    ensures
        p.child(
            seq!['\\', '\\'] + (server + seq!['\\'] + (share + seq!['\\'] + name)),
        ) == (PathView {
            root: seq!['\\', '\\'] + server + seq!['\\'] + share + seq!['\\'],
            parts: seq![name],
            sep: '\\',
        }),
{
    let sep = seq!['\\'];
    let c = share + sep + name;
    let b = server + sep + c;
    let t = seq!['\\', '\\'] + b;
    let e = Seq::<char>::empty();
    reveal_strlit(".");
    assert(t[0] == '\\' && t[1] == '\\');
    assert(t.contains('\\'));
    assert forall|i: int| 0 <= i < t.len() implies t[i] != '/' by {
        if i >= 2 {
            let k = i - 2;
            if k < server.len() {
                assert(server.contains(server[k]));
            } else if k > server.len() {
                let m = k - server.len() - 1;
                assert(t[i] == c[m]);
                if m < share.len() {
                    assert(share.contains(share[m]));
                } else if m > share.len() {
                    assert(name.contains(name[m - share.len() - 1]));
                }
            }
        }
    }
    assert(text::char_replaced(t, '/', '\\') =~= t);
    let one = e + sep + b;
    assert(t =~= e + sep + one);
    text::pieces_by_separators(e, '\\', one);
    text::pieces_by_separators(e, '\\', b);
    text::pieces_by_separators(server, '\\', c);
    text::pieces_by_separators(share, '\\', name);
    text::pieces_by_separators(name, '\\', e);
    let none = Seq::<Seq<char>>::empty();
    let all = seq![e, e, server, share, name];
    assert(text::pieces(t, '\\') =~= all);
    pieces_that_lead_on(none, e);
    pieces_that_lead_on(seq![e], e);
    pieces_that_lead_on(seq![e, e], server);
    pieces_that_lead_on(seq![e, e, server], share);
    pieces_that_lead_on(seq![e, e, server, share], name);
    assert(none + seq![e] =~= seq![e]);
    assert(seq![e] + seq![e] =~= seq![e, e]);
    assert(seq![e, e] + seq![server] =~= seq![e, e, server]);
    assert(seq![e, e, server] + seq![share] =~= seq![e, e, server, share]);
    assert(seq![e, e, server, share] + seq![name] =~= all);
    assert(leading_on(none) =~= none);
    assert(names_in(t, '\\') =~= seq![server, share, name]);
    let names = names_in(t, '\\');
    assert(names.skip(2) =~= seq![name]);
    assert((seq!['\\', '\\'] + server + sep + share).push('\\') =~= seq!['\\', '\\'] + server + sep
        + share + sep);
}

} // verus!
