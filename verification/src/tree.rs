//! Walking through a directory with everything below it, for copying and for packing it.

use crate::extract::zip_member_name;
use crate::text;
use vstd::prelude::*;

verus! {

broadcast use vstd::string::group_string_axioms;

// ---------------------------------------------------------------------------
// Questions and answers
// ---------------------------------------------------------------------------

/// What a walk asks for.
#[derive(Clone, Copy, Debug, PartialEq, Eq, Structural)]
pub enum WalkAsk {
    /// Note down the directory at hand, before anything that it holds.
    Enter,
    /// Start reading the directory at hand.
    Open,
    /// The next item of the directory that is being read.
    Next,
    /// Take the file at hand along.
    Take,
    /// Nothing: the walk is over.
    End,
}

/// An item of a directory.
#[derive(Debug)]
pub struct WalkItem {
    pub name: String,
    pub is_dir: bool,
}

/// What an item is.
#[verifier::ext_equal]
pub struct WalkItemView {
    pub name: Seq<char>,
    pub is_dir: bool,
}

impl View for WalkItem {
    type V = WalkItemView;

    open spec fn view(&self) -> WalkItemView {
        WalkItemView { name: self.name@, is_dir: self.is_dir }
    }
}

/// What a walk is told.
#[derive(Debug)]
pub enum WalkTold {
    Outcome(Result<(), String>),
    /// The next item; none where there are no more.
    Item(Result<Option<WalkItem>, String>),
}

/// What an answer is.
#[verifier::ext_equal]
pub enum WalkToldView {
    Outcome(Result<(), Seq<char>>),
    Item(Result<Option<WalkItemView>, Seq<char>>),
}

impl View for WalkTold {
    type V = WalkToldView;

    open spec fn view(&self) -> WalkToldView {
        match *self {
            WalkTold::Outcome(r) => WalkToldView::Outcome(
                match r {
                    Ok(_) => Ok(()),
                    Err(e) => Err(e@),
                },
            ),
            WalkTold::Item(r) => WalkToldView::Item(
                match r {
                    Ok(Some(item)) => Ok(Some(item@)),
                    Ok(None) => Ok(None),
                    Err(e) => Err(e@),
                },
            ),
        }
    }
}

// ---------------------------------------------------------------------------
// The walk
// ---------------------------------------------------------------------------

/// Where a walk stands.
#[derive(Clone, Copy, Debug, PartialEq, Eq, Structural)]
pub enum WalkStage {
    Entering,
    Opening,
    Reading,
    Taking,
    Ended,
}

/// A walk through a directory.
#[derive(Debug)]
pub struct TreeWalk {
    pub stage: WalkStage,
    /// The names that lead from the top to the directory at hand.
    pub dirs: Vec<String>,
    /// The name of the file at hand.
    pub item: String,
    /// What the walk failed of.
    pub error: Option<String>,
}

/// What a walk is.
#[verifier::ext_equal]
pub struct WalkView {
    pub stage: WalkStage,
    pub dirs: Seq<Seq<char>>,
    pub item: Seq<char>,
    pub error: Option<Seq<char>>,
}

impl View for TreeWalk {
    type V = WalkView;

    open spec fn view(&self) -> WalkView {
        WalkView {
            stage: self.stage,
            dirs: self.dirs.deep_view(),
            item: self.item@,
            error: self.error.deep_view(),
        }
    }
}

impl WalkView {
    /// A walk before its first step; `top` says whether the top itself is noted down.
    pub open spec fn start(top: bool) -> WalkView {
        WalkView {
            stage: if top {
                WalkStage::Entering
            } else {
                WalkStage::Opening
            },
            dirs: seq![],
            item: seq![],
            error: None,
        }
    }

    /// What is asked for.
    pub open spec fn ask(self) -> WalkAsk {
        match self.stage {
            WalkStage::Entering => WalkAsk::Enter,
            WalkStage::Opening => WalkAsk::Open,
            WalkStage::Reading => WalkAsk::Next,
            WalkStage::Taking => WalkAsk::Take,
            WalkStage::Ended => WalkAsk::End,
        }
    }

    /// The names that lead from the top to what is at hand.
    pub open spec fn path(self) -> Seq<Seq<char>> {
        if self.stage == WalkStage::Taking {
            self.dirs.push(self.item)
        } else {
            self.dirs
        }
    }

    /// The walk at another stage.
    pub open spec fn at(self, stage: WalkStage) -> WalkView {
        WalkView { stage, ..self }
    }

    /// The walk after a failure.
    pub open spec fn failed(self, e: Seq<char>) -> WalkView {
        WalkView { stage: WalkStage::Ended, error: Some(e), ..self }
    }

    /// The walk after an item was read. A directory is gone into before the items behind it;
    /// behind the last item the walk goes back up, and from the top it ends.
    pub open spec fn read(self, item: Option<WalkItemView>) -> WalkView {
        match item {
            Some(item) => if item.is_dir {
                WalkView { stage: WalkStage::Entering, dirs: self.dirs.push(item.name), ..self }
            } else {
                WalkView { stage: WalkStage::Taking, item: item.name, ..self }
            },
            None => if self.dirs.len() == 0 {
                self.at(WalkStage::Ended)
            } else {
                WalkView { dirs: self.dirs.drop_last(), ..self }
            },
        }
    }

    /// The walk after an answer. One that was not asked for changes nothing.
    pub open spec fn next(self, told: WalkToldView) -> WalkView {
        match (self.stage, told) {
            (WalkStage::Entering, WalkToldView::Outcome(Ok(_))) => self.at(WalkStage::Opening),
            (WalkStage::Opening, WalkToldView::Outcome(Ok(_))) => self.at(WalkStage::Reading),
            (WalkStage::Taking, WalkToldView::Outcome(Ok(_))) => self.at(WalkStage::Reading),
            (WalkStage::Reading, WalkToldView::Item(Ok(item))) => self.read(item),
            (WalkStage::Entering, WalkToldView::Outcome(Err(e))) => self.failed(e),
            (WalkStage::Opening, WalkToldView::Outcome(Err(e))) => self.failed(e),
            (WalkStage::Taking, WalkToldView::Outcome(Err(e))) => self.failed(e),
            (WalkStage::Reading, WalkToldView::Item(Err(e))) => self.failed(e),
            _ => self,
        }
    }
}

/// A failure ends a walk at once, and it is what the walk then tells.
pub proof fn failure_ends_walk(w: WalkView, e: Seq<char>)
    ensures
        w.ask() == WalkAsk::Enter || w.ask() == WalkAsk::Open || w.ask() == WalkAsk::Take ==> {
            let after = w.next(WalkToldView::Outcome(Err(e)));
            after.ask() == WalkAsk::End && after.error == Some(e)
        },
        w.ask() == WalkAsk::Next ==> {
            let after = w.next(WalkToldView::Item(Err(e)));
            after.ask() == WalkAsk::End && after.error == Some(e)
        },
{
}

// ---------------------------------------------------------------------------
// What a walk covers
// ---------------------------------------------------------------------------

/// What lies in a directory: files, and directories with what lies in them.
pub enum Node {
    File,
    Dir(Seq<(Seq<char>, Node)>),
}

/// What a walk has done to a place below the top.
pub enum Deed {
    Entered(Seq<Seq<char>>),
    Taken(Seq<Seq<char>>),
}

/// Everything that is to be done to the items of a directory, in order: a file is taken, a
/// directory is entered and then its own items are dealt with.
pub open spec fn deeds(path: Seq<Seq<char>>, items: Seq<(Seq<char>, Node)>) -> Seq<Deed>
    decreases items,
{
    if items.len() == 0 {
        seq![]
    } else {
        let inner = path.push(items[0].0);
        let first = match items[0].1 {
            Node::File => seq![Deed::Taken(inner)],
            Node::Dir(below) => seq![Deed::Entered(inner)] + deeds(inner, below),
        };
        first + deeds(path, items.drop_first())
    }
}

/// How many answers a walk takes over the items of a directory.
pub open spec fn answers(items: Seq<(Seq<char>, Node)>) -> nat
    decreases items,
{
    if items.len() == 0 {
        1
    } else {
        let first = match items[0].1 {
            Node::File => 2,
            Node::Dir(below) => 3 + answers(below),
        };
        first + answers(items.drop_first())
    }
}

/// A file system in which nothing fails: what is left of each directory that is being read,
/// from the top down, and what lies in the directory that is to be read next.
pub struct Disk {
    pub open: Seq<Seq<(Seq<char>, Node)>>,
    pub coming: Seq<(Seq<char>, Node)>,
}

impl Disk {
    /// What it answers.
    pub open spec fn told(self, w: WalkView) -> WalkToldView {
        if w.stage != WalkStage::Reading {
            WalkToldView::Outcome(Ok(()))
        } else if self.open.last().len() == 0 {
            WalkToldView::Item(Ok(None))
        } else {
            let item = self.open.last()[0];
            WalkToldView::Item(
                Ok(Some(WalkItemView { name: item.0, is_dir: item.1 is Dir })),
            )
        }
    }

    /// What it is afterwards.
    pub open spec fn after(self, w: WalkView) -> Disk {
        match w.stage {
            WalkStage::Opening => Disk { open: self.open.push(self.coming), ..self },
            WalkStage::Reading => if self.open.last().len() == 0 {
                Disk { open: self.open.drop_last(), ..self }
            } else {
                let top = self.open.last();
                Disk {
                    open: self.open.drop_last().push(top.drop_first()),
                    coming: match top[0].1 {
                        Node::File => self.coming,
                        Node::Dir(below) => below,
                    },
                }
            },
            _ => self,
        }
    }

    /// Whether it is as a walk has left it.
    pub open spec fn agrees(self, w: WalkView) -> bool {
        match w.stage {
            WalkStage::Entering => self.open.len() == w.dirs.len(),
            WalkStage::Opening => self.open.len() == w.dirs.len(),
            WalkStage::Reading => self.open.len() == w.dirs.len() + 1,
            WalkStage::Taking => self.open.len() == w.dirs.len() + 1,
            WalkStage::Ended => true,
        }
    }

    /// How many answers are left in the directories that are being read.
    pub open spec fn answers_open(self) -> nat
        decreases self.open.len(),
    {
        if self.open.len() == 0 {
            0
        } else {
            answers(self.open.last()) + (Disk { open: self.open.drop_last(), ..self }).answers_open()
        }
    }

    /// How many answers are left.
    pub open spec fn answers_left(self, w: WalkView) -> nat {
        match w.stage {
            WalkStage::Entering => 2 + answers(self.coming) + self.answers_open(),
            WalkStage::Opening => 1 + answers(self.coming) + self.answers_open(),
            WalkStage::Reading => self.answers_open(),
            WalkStage::Taking => 1 + self.answers_open(),
            WalkStage::Ended => 0,
        }
    }

    /// What is left to be done in the directories that are being read; `dirs` leads to the
    /// innermost of them.
    pub open spec fn deeds_open(self, dirs: Seq<Seq<char>>) -> Seq<Deed>
        decreases self.open.len(),
    {
        if self.open.len() == 0 {
            seq![]
        } else {
            deeds(dirs, self.open.last())
                + (Disk { open: self.open.drop_last(), ..self }).deeds_open(dirs.drop_last())
        }
    }

    /// What is left to be done.
    pub open spec fn deeds_left(self, w: WalkView) -> Seq<Deed> {
        match w.stage {
            WalkStage::Entering => seq![Deed::Entered(w.dirs)] + deeds(w.dirs, self.coming)
                + self.deeds_open(w.dirs.drop_last()),
            WalkStage::Opening => deeds(w.dirs, self.coming) + self.deeds_open(w.dirs.drop_last()),
            WalkStage::Reading => self.deeds_open(w.dirs),
            WalkStage::Taking => seq![Deed::Taken(w.path())] + self.deeds_open(w.dirs),
            WalkStage::Ended => seq![],
        }
    }
}

/// What a walk does with the answer to what it asks for.
pub open spec fn deed(w: WalkView) -> Seq<Deed> {
    match w.ask() {
        WalkAsk::Enter => seq![Deed::Entered(w.path())],
        WalkAsk::Take => seq![Deed::Taken(w.path())],
        _ => seq![],
    }
}

/// What a walk does in the given number of answers, and where it then stands.
pub open spec fn walked(w: WalkView, disk: Disk, n: nat) -> (Seq<Deed>, WalkView)
    decreases n,
{
    if n == 0 {
        (seq![], w)
    } else {
        let (done, end) = walked(w.next(disk.told(w)), disk.after(w), (n - 1) as nat);
        (deed(w) + done, end)
    }
}

/// One answer brings a walk one deed on.
proof fn lemma_one_answer(w: WalkView, disk: Disk)
    requires
        disk.agrees(w),
        w.stage != WalkStage::Ended,
    ensures
        ({
            let w2 = w.next(disk.told(w));
            let disk2 = disk.after(w);
            &&& disk2.agrees(w2)
            &&& disk.deeds_left(w) == deed(w) + disk2.deeds_left(w2)
            &&& disk.answers_left(w) == 1 + disk2.answers_left(w2)
            &&& w2.error == w.error
        }),
{
    let w2 = w.next(disk.told(w));
    let disk2 = disk.after(w);
    match w.stage {
        WalkStage::Opening => {
            assert(disk2.open.drop_last() =~= disk.open);
            lemma_open_only(Disk { open: disk.open, ..disk2 }, disk, w.dirs.drop_last());
        },
        WalkStage::Reading => {
            let top = disk.open.last();
            let outer = Disk { open: disk.open.drop_last(), ..disk };
            if top.len() == 0 {
                if w.dirs.len() == 0 {
                    assert(outer.deeds_open(w.dirs.drop_last()) =~= seq![]);
                    assert(outer.answers_open() == 0);
                }
                assert(disk.deeds_left(w) =~= deed(w) + disk2.deeds_left(w2));
            } else {
                assert(disk2.open.drop_last() =~= disk.open.drop_last());
                lemma_open_only(
                    Disk { open: disk2.open.drop_last(), ..disk2 },
                    outer,
                    w.dirs.drop_last(),
                );
                if top[0].1 is Dir {
                    assert(w2.dirs.drop_last() =~= w.dirs);
                }
                assert(disk.deeds_left(w) =~= deed(w) + disk2.deeds_left(w2));
            }
        },
        _ => {
            assert(disk.deeds_left(w) =~= deed(w) + disk2.deeds_left(w2));
        },
    }
}

/// What is left in the directories that are being read does not rest on what comes next.
proof fn lemma_open_only(a: Disk, b: Disk, dirs: Seq<Seq<char>>)
    requires
        a.open == b.open,
    ensures
        a.deeds_open(dirs) == b.deeds_open(dirs),
        a.answers_open() == b.answers_open(),
    decreases a.open.len(),
{
    if a.open.len() > 0 {
        lemma_open_only(
            Disk { open: a.open.drop_last(), ..a },
            Disk { open: b.open.drop_last(), ..b },
            dirs.drop_last(),
        );
    }
}

proof fn lemma_walked(w: WalkView, disk: Disk)
    requires
        disk.agrees(w),
    ensures
        ({
            let (done, end) = walked(w, disk, disk.answers_left(w));
            &&& done == disk.deeds_left(w)
            &&& end.stage == WalkStage::Ended
            &&& end.error == w.error
        }),
    decreases disk.answers_left(w),
{
    if w.stage == WalkStage::Ended {
    } else {
        lemma_one_answer(w, disk);
        lemma_walked(w.next(disk.told(w)), disk.after(w));
    }
}

/// Where nothing fails, a walk ends, and it has then entered every directory and taken every
/// file below the top, each once and each directory before what lies in it; the top itself it
/// has entered first where that was wanted.
pub proof fn walk_covers_tree(top: bool, items: Seq<(Seq<char>, Node)>)
    ensures
        ({
            let disk = Disk { open: seq![], coming: items };
            let w = WalkView::start(top);
            let (done, end) = walked(w, disk, disk.answers_left(w));
            let here = Seq::<Seq<char>>::empty();
            &&& done == (if top {
                seq![Deed::Entered(here)]
            } else {
                seq![]
            }) + deeds(here, items)
            &&& end.ask() == WalkAsk::End
            &&& end.error == None::<Seq<char>>
        }),
{
    let disk = Disk { open: seq![], coming: items };
    let w = WalkView::start(top);
    lemma_walked(w, disk);
    let here = Seq::<Seq<char>>::empty();
    assert(w.dirs == here);
    assert(disk.deeds_left(w) =~= (if top {
        seq![Deed::Entered(here)]
    } else {
        seq![]
    }) + deeds(here, items));
}

impl TreeWalk {
    /// A walk before its first step; `top` says whether the top itself is noted down.
    pub fn new(top: bool) -> (r: TreeWalk)
        ensures
            r@ == WalkView::start(top),
    {
        let stage = if top {
            WalkStage::Entering
        } else {
            WalkStage::Opening
        };
        let r = TreeWalk { stage, dirs: Vec::new(), item: String::new(), error: None };
        assert(r@ =~= WalkView::start(top));
        r
    }

    /// What the walk asks for.
    pub fn ask(&self) -> (r: WalkAsk)
        ensures
            r == self@.ask(),
    {
        match self.stage {
            WalkStage::Entering => WalkAsk::Enter,
            WalkStage::Opening => WalkAsk::Open,
            WalkStage::Reading => WalkAsk::Next,
            WalkStage::Taking => WalkAsk::Take,
            WalkStage::Ended => WalkAsk::End,
        }
    }

    fn fail(&mut self, e: String)
        ensures
            final(self)@ == old(self)@.failed(e@),
    {
        self.stage = WalkStage::Ended;
        self.error = Some(e);
    }

    fn read(&mut self, item: Option<WalkItem>)
        ensures
            final(self)@ == old(self)@.read(
                match item {
                    Some(item) => Some(item@),
                    None => None,
                },
            ),
    {
        match item {
            Some(item) => {
                if item.is_dir {
                    self.dirs.push(item.name);
                    self.stage = WalkStage::Entering;
                    assert(self.dirs.deep_view() =~= old(self).dirs.deep_view().push(item.name@));
                } else {
                    self.item = item.name;
                    self.stage = WalkStage::Taking;
                }
            },
            None => {
                if self.dirs.len() == 0 {
                    self.stage = WalkStage::Ended;
                } else {
                    self.dirs.pop();
                    assert(self.dirs.deep_view() =~= old(self).dirs.deep_view().drop_last());
                }
            },
        }
    }

    /// Takes in an answer.
    pub fn step(&mut self, told: WalkTold) -> (r: WalkAsk)
        ensures
            final(self)@ == old(self)@.next(told@),
            r == final(self)@.ask(),
    {
        match (self.stage, told) {
            (WalkStage::Entering, WalkTold::Outcome(r)) => {
                match r {
                    Ok(_) => self.stage = WalkStage::Opening,
                    Err(e) => self.fail(e),
                }
            },
            (WalkStage::Opening, WalkTold::Outcome(r)) => {
                match r {
                    Ok(_) => self.stage = WalkStage::Reading,
                    Err(e) => self.fail(e),
                }
            },
            (WalkStage::Taking, WalkTold::Outcome(r)) => {
                match r {
                    Ok(_) => self.stage = WalkStage::Reading,
                    Err(e) => self.fail(e),
                }
            },
            (WalkStage::Reading, WalkTold::Item(r)) => {
                match r {
                    Ok(item) => self.read(item),
                    Err(e) => self.fail(e),
                }
            },
            _ => {},
        }
        self.ask()
    }

    /// The name that what is at hand gets in an archive.
    pub fn member_name(&self) -> (r: String)
        ensures
            r@ == text::char_replaced(text::joined(self@.path(), "/"@), '\\', '/'),
    {
        let mut parts = text::copy_texts(&self.dirs);
        if self.stage == WalkStage::Taking {
            parts.push(self.item.clone());
        }
        assert(parts.deep_view() =~= self@.path());
        zip_member_name(text::join(&parts, "/").as_str())
    }
}

} // verus!
