//! Looking for files by name and by the text in them.

use crate::path::{DirPath, PathView};
use crate::text;
use vstd::prelude::*;

verus! {

broadcast use vstd::string::group_string_axioms;

/// The size up to which files are looked into.
pub const MAX_SEARCHED: u64 = 10485760;

/// After how many files their number is told.
pub const REPORT_EVERY: usize = 200;

/// Whether a name holds what is looked for; upper and lower case count as the same.
pub open spec fn name_hit(pattern: Seq<char>, name: Seq<char>) -> bool {
    text::lowercase(pattern).len() == 0 || text::occurs_in(
        text::lowercase(name),
        text::lowercase(pattern),
    )
}

/// Whether a text holds what is looked for; upper and lower case count as the same.
pub open spec fn text_hit(pattern: Seq<char>, content: Seq<char>) -> bool {
    text::occurs_in(text::lowercase(content), text::lowercase(pattern))
}

/// Whether a file of the given size, where it is known, is looked into.
pub open spec fn small_enough(size: Option<u64>) -> bool {
    size matches Some(n) && n <= MAX_SEARCHED
}

/// Whether a file is found: its name fits and, where a text is looked for, the file is small
/// enough, can be read as text, and holds it.
pub open spec fn found(
    name_pattern: Seq<char>,
    content_pattern: Seq<char>,
    name: Seq<char>,
    size: Option<u64>,
    content: Option<Seq<char>>,
) -> bool {
    name_hit(name_pattern, name) && (text::lowercase(content_pattern).len() == 0 || (small_enough(
        size,
    ) && (content matches Some(t) && text_hit(content_pattern, t))))
}

/// What is to be done with a file after its name was seen.
#[derive(Clone, Copy, Debug, PartialEq, Eq, Structural)]
pub enum Verdict {
    /// It is passed over.
    Pass,
    /// It is found.
    Found,
    /// It has to be looked into.
    LookInside,
}

/// The verdict on a file by its name.
pub open spec fn verdict_of(
    name_pattern: Seq<char>,
    content_pattern: Seq<char>,
    name: Seq<char>,
) -> Verdict {
    if !name_hit(name_pattern, name) {
        Verdict::Pass
    } else if text::lowercase(content_pattern).len() == 0 {
        Verdict::Found
    } else {
        Verdict::LookInside
    }
}

/// The verdict by the name and the look inside make up what is found.
pub proof fn verdict_decides(
    name_pattern: Seq<char>,
    content_pattern: Seq<char>,
    name: Seq<char>,
    size: Option<u64>,
    content: Option<Seq<char>>,
)
    ensures
        found(name_pattern, content_pattern, name, size, content) <==> match verdict_of(
            name_pattern,
            content_pattern,
            name,
        ) {
            Verdict::Pass => false,
            Verdict::Found => true,
            Verdict::LookInside => small_enough(size) && (content matches Some(t) && text_hit(
                content_pattern,
                t,
            )),
        },
{
}

/// An empty search finds every file.
pub proof fn empty_search_finds_all(
    name_pattern: Seq<char>,
    content_pattern: Seq<char>,
    name: Seq<char>,
    size: Option<u64>,
    content: Option<Seq<char>>,
)
    requires
        text::lowercase(name_pattern).len() == 0,
        text::lowercase(content_pattern).len() == 0,
    ensures
        found(name_pattern, content_pattern, name, size, content),
{
}

/// A search at work.
#[derive(Debug)]
pub struct Search {
    pub name_pattern: String,
    pub content_pattern: String,
    pub name_lower: String,
    pub content_lower: String,
    pub scanned: usize,
}

impl Search {
    /// Whether the lowered patterns are those of the patterns.
    pub open spec fn wf(&self) -> bool {
        self.name_lower@ == text::lowercase(self.name_pattern@) && self.content_lower@
            == text::lowercase(self.content_pattern@)
    }

    /// The start of a search.
    pub fn new(name_pattern: String, content_pattern: String) -> (r: Search)
        ensures
            r.wf(),
            r.name_pattern == name_pattern,
            r.content_pattern == content_pattern,
            r.scanned == 0,
    {
        let name_lower = text::to_lower(name_pattern.as_str());
        let content_lower = text::to_lower(content_pattern.as_str());
        Search { name_pattern, content_pattern, name_lower, content_lower, scanned: 0 }
    }

    /// The next file: the number of files so far, where it is to be told, and what is to be
    /// done with the file.
    pub fn visit(&mut self, name: &str) -> (r: (Option<usize>, Verdict))
        requires
            old(self).wf(),
            old(self).scanned < usize::MAX,
        ensures
            *final(self) == (Search { scanned: (old(self).scanned + 1) as usize, ..*old(self) }),
            r.0 == if (old(self).scanned + 1) % (REPORT_EVERY as int) == 0 {
                Some((old(self).scanned + 1) as usize)
            } else {
                None
            },
            r.1 == verdict_of(old(self).name_pattern@, old(self).content_pattern@, name@),
    {
        self.scanned = self.scanned + 1;
        let report = if self.scanned % REPORT_EVERY == 0 {
            Some(self.scanned)
        } else {
            None
        };
        let lower = text::to_lower(name);
        if self.name_lower.as_str().unicode_len() > 0 && !text::contains(
            lower.as_str(),
            self.name_lower.as_str(),
        ) {
            return (report, Verdict::Pass);
        }
        if self.content_lower.as_str().unicode_len() == 0 {
            return (report, Verdict::Found);
        }
        (report, Verdict::LookInside)
    }

    /// Whether a file of the given size, where it is known, is looked into.
    pub fn may_read(&self, size: Option<u64>) -> (r: bool)
        ensures
            r == small_enough(size),
    {
        match size {
            Some(n) => n <= MAX_SEARCHED,
            None => false,
        }
    }

    /// Whether a text holds what is looked for.
    pub fn text_found(&self, content: &str) -> (r: bool)
        requires
            self.wf(),
        ensures
            r == text_hit(self.content_pattern@, content@),
    {
        let lower = text::to_lower(content);
        text::contains(lower.as_str(), self.content_lower.as_str())
    }
}

/// A message of a search.
#[derive(Debug)]
pub enum SearchMsg {
    Found(DirPath),
    Scanned(usize),
    Finished,
}

/// What a message is.
#[verifier::ext_equal]
pub enum SearchMsgView {
    Found(PathView),
    Scanned(usize),
    Finished,
}

impl View for SearchMsg {
    type V = SearchMsgView;

    open spec fn view(&self) -> SearchMsgView {
        match *self {
            SearchMsg::Found(p) => SearchMsgView::Found(p@),
            SearchMsg::Scanned(n) => SearchMsgView::Scanned(n),
            SearchMsg::Finished => SearchMsgView::Finished,
        }
    }
}

/// The state of the search window.
#[derive(Debug)]
pub struct SearchBox {
    pub show: bool,
    pub root: DirPath,
    pub name: String,
    pub content: String,
    /// Whether messages are awaited.
    pub awaited: bool,
    pub results: Vec<DirPath>,
    pub scanned: usize,
    pub running: bool,
}

/// What the state of the window is.
#[verifier::ext_equal]
pub struct SearchBoxView {
    pub show: bool,
    pub root: PathView,
    pub name: Seq<char>,
    pub content: Seq<char>,
    pub awaited: bool,
    pub results: Seq<PathView>,
    pub scanned: usize,
    pub running: bool,
}

impl View for SearchBox {
    type V = SearchBoxView;

    open spec fn view(&self) -> SearchBoxView {
        SearchBoxView {
            show: self.show,
            root: self.root@,
            name: self.name@,
            content: self.content@,
            awaited: self.awaited,
            results: self.results.deep_view(),
            scanned: self.scanned,
            running: self.running,
        }
    }
}

impl SearchBoxView {
    /// The state after a message.
    pub open spec fn after(self, msg: SearchMsgView) -> SearchBoxView {
        match msg {
            SearchMsgView::Found(p) => SearchBoxView { results: self.results.push(p), ..self },
            SearchMsgView::Scanned(n) => SearchBoxView { scanned: n, ..self },
            SearchMsgView::Finished => self,
        }
    }
}

impl SearchBox {
    /// The window before any search.
    pub fn new(root: DirPath) -> (r: SearchBox)
        ensures
            r@ == (SearchBoxView {
                show: false,
                root: root@,
                name: seq![],
                content: seq![],
                awaited: false,
                results: seq![],
                scanned: 0,
                running: false,
            }),
    {
        let r = SearchBox {
            show: false,
            root,
            name: String::new(),
            content: String::new(),
            awaited: false,
            results: Vec::new(),
            scanned: 0,
            running: false,
        };
        assert(r@.results =~= seq![]);
        r
    }

    /// Opens the window for a search below a directory.
    pub fn open(&mut self, root: &DirPath)
        ensures
            final(self)@ == (SearchBoxView {
                show: true,
                root: root@,
                name: seq![],
                content: seq![],
                results: seq![],
                running: false,
                ..old(self)@
            }),
    {
        self.root = root.clone();
        self.name = String::new();
        self.content = String::new();
        self.results = Vec::new();
        self.running = false;
        self.show = true;
        assert(self@.results =~= seq![]);
    }

    /// Starts to show the search that the window asks for.
    pub fn start(&mut self)
        ensures
            final(self)@ == (SearchBoxView {
                results: seq![],
                scanned: 0,
                running: true,
                awaited: true,
                ..old(self)@
            }),
    {
        self.results = Vec::new();
        self.scanned = 0;
        self.running = true;
        self.awaited = true;
        assert(self@.results =~= seq![]);
    }

    /// Takes in a message; tells whether it was the last one.
    pub fn apply(&mut self, msg: SearchMsg) -> (r: bool)
        ensures
            final(self)@ == old(self)@.after(msg@),
            r == (msg@ == SearchMsgView::Finished),
    {
        match msg {
            SearchMsg::Found(p) => {
                self.results.push(p);
                assert(self@.results =~= old(self)@.results.push(p@));
                false
            },
            SearchMsg::Scanned(n) => {
                self.scanned = n;
                false
            },
            SearchMsg::Finished => true,
        }
    }

    /// Ends a look at the messages that had come.
    pub fn end_poll(&mut self, still_running: bool)
        ensures
            final(self)@ == (SearchBoxView {
                awaited: still_running,
                running: still_running && old(self).running,
                ..old(self)@
            }),
    {
        self.awaited = still_running;
        if !still_running {
            self.running = false;
        }
    }
}

/// A name is passed over exactly where the name pattern, in lower case, is not empty and stands
/// nowhere in it; of the others, those are found at once for which no content is asked.
pub proof fn name_holding_the_pattern_is_kept(
    name_pattern: Seq<char>,
    content_pattern: Seq<char>,
    name: Seq<char>,
)
    ensures
        verdict_of(name_pattern, content_pattern, name) == Verdict::Pass <==> (text::lowercase(
            name_pattern,
        ).len() > 0 && !(exists|a: Seq<char>, b: Seq<char>|
            text::lowercase(name) == #[trigger] (a + text::lowercase(name_pattern) + b))),
        verdict_of(name_pattern, content_pattern, name) != Verdict::Pass ==> (verdict_of(
            name_pattern,
            content_pattern,
            name,
        ) == Verdict::Found <==> text::lowercase(content_pattern) == Seq::<char>::empty()),
{
    text::occurs_by_parting(text::lowercase(name), text::lowercase(name_pattern));
    if text::lowercase(content_pattern).len() == 0 {
        assert(text::lowercase(content_pattern) =~= Seq::<char>::empty());
    }
}

/// Whatever stands before and behind the pattern in a name, the name is not passed over.
pub proof fn pattern_is_seen_anywhere(
    name_pattern: Seq<char>,
    content_pattern: Seq<char>,
    name: Seq<char>,
    before: Seq<char>,
    behind: Seq<char>,
)
    requires
        text::lowercase(name) == before + text::lowercase(name_pattern) + behind,
    ensures
        verdict_of(name_pattern, content_pattern, name) != Verdict::Pass,
{
    name_holding_the_pattern_is_kept(name_pattern, content_pattern, name);
}

/// A content holds the pattern exactly where the pattern, in lower case, stands somewhere in
/// the content in lower case.
pub proof fn content_is_searched_whole(pattern: Seq<char>, content: Seq<char>)
    ensures
        text_hit(pattern, content) <==> exists|a: Seq<char>, b: Seq<char>|
            text::lowercase(content) == #[trigger] (a + text::lowercase(pattern) + b),
{
    text::occurs_by_parting(text::lowercase(content), text::lowercase(pattern));
}

/// A file is looked into exactly where its size is known and is at most ten megabytes.
pub proof fn small_files_are_read(size: Option<u64>)
    ensures
        small_enough(size) <==> size is Some && size->0 <= 10 * 1024 * 1024,
{
}

/// Two spellings of a pattern or of a name that agree in lower case are searched alike.
pub proof fn search_forgets_case(
    p: Seq<char>,
    q: Seq<char>,
    content_pattern: Seq<char>,
    name: Seq<char>,
    other: Seq<char>,
)
    requires
        text::lowercase(p) == text::lowercase(q),
        text::lowercase(name) == text::lowercase(other),
    ensures
        verdict_of(p, content_pattern, name) == verdict_of(q, content_pattern, other),
{
}

/// What a search tells adds up: a path that was found is kept behind the earlier ones, a count
/// of visited names replaces the old one, and the end changes neither.
pub proof fn search_messages_add_up(b: SearchBoxView, msg: SearchMsgView)
    ensures
        msg matches SearchMsgView::Found(p) ==> b.after(msg).results == b.results + seq![p]
            && b.after(msg).scanned == b.scanned,
        msg matches SearchMsgView::Scanned(n) ==> b.after(msg).results == b.results && b.after(
            msg,
        ).scanned == n,
        msg is Finished ==> b.after(msg) == b,
{
    if let SearchMsgView::Found(p) = msg {
        assert(b.results.push(p) =~= b.results + seq![p]);
    }
}

} // verus!
