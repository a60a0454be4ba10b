//! Checksums of files.

use crate::file_op::OP_STOP;
use crate::number;
use crate::path::{DirPath, PathView};
use vstd::prelude::*;

verus! {

broadcast use vstd::string::group_string_axioms;

// ---------------------------------------------------------------------------
// Outside hash functions
// ---------------------------------------------------------------------------

/// The MD5 state of the crate `md-5`.
#[verifier::external_type_specification]
#[verifier::external_body]
pub struct ExMd5(md5::Md5);

/// The SHA-256 state of the crate `sha2`.
#[verifier::external_type_specification]
#[verifier::external_body]
pub struct ExSha256(sha2::Sha256);

/// The bytes that an MD5 state has taken in.
pub uninterp spec fn md5_fed(h: md5::Md5) -> Seq<u8>;

/// The bytes that a SHA-256 state has taken in.
pub uninterp spec fn sha256_fed(h: sha2::Sha256) -> Seq<u8>;

/// The MD5 digest of bytes.
pub uninterp spec fn md5_digest(bytes: Seq<u8>) -> Seq<u8>;

/// The SHA-256 digest of bytes.
pub uninterp spec fn sha256_digest(bytes: Seq<u8>) -> Seq<u8>;

/// `md5::Digest::new` for `md5::Md5`: a state that has taken in nothing.
#[verifier::external_body]
fn md5_new() -> (r: md5::Md5)
    ensures
        md5_fed(r) == Seq::<u8>::empty(),
{
    md5::Digest::new()
}

/// `md5::Digest::update` for `md5::Md5`: the state takes in the bytes behind those that it
/// had.
#[verifier::external_body]
fn md5_update(h: &mut md5::Md5, data: &Vec<u8>)
    ensures
        md5_fed(*final(h)) == md5_fed(*old(h)) + data@,
{
    md5::Digest::update(h, data.as_slice());
}

/// `md5::Digest::finalize` for `md5::Md5`: the digest of what the state has taken in, which
/// is a function of those bytes and is sixteen bytes long.
#[verifier::external_body]
fn md5_finalize(h: md5::Md5) -> (r: Vec<u8>)
    ensures
        r@ == md5_digest(md5_fed(h)),
        r@.len() == 16,
{
    md5::Digest::finalize(h).to_vec()
}

/// `sha2::Digest::new` for `sha2::Sha256`: a state that has taken in nothing.
#[verifier::external_body]
fn sha256_new() -> (r: sha2::Sha256)
    ensures
        sha256_fed(r) == Seq::<u8>::empty(),
{
    sha2::Digest::new()
}

/// `sha2::Digest::update` for `sha2::Sha256`: the state takes in the bytes behind those that
/// it had.
#[verifier::external_body]
fn sha256_update(h: &mut sha2::Sha256, data: &Vec<u8>)
    ensures
        sha256_fed(*final(h)) == sha256_fed(*old(h)) + data@,
{
    sha2::Digest::update(h, data.as_slice());
}

/// `sha2::Digest::finalize` for `sha2::Sha256`: the digest of what the state has taken in,
/// which is a function of those bytes and is thirty-two bytes long.
#[verifier::external_body]
fn sha256_finalize(h: sha2::Sha256) -> (r: Vec<u8>)
    ensures
        r@ == sha256_digest(sha256_fed(h)),
        r@.len() == 32,
{
    sha2::Digest::finalize(h).to_vec()
}

// ---------------------------------------------------------------------------
// Messages
// ---------------------------------------------------------------------------

/// A message on checksums.
#[derive(Debug)]
pub enum HashMsg {
    Progress { done: usize, total: usize, current: String },
    Result { name: String, md5: String, sha256: String },
    Error { name: String, msg: String },
    Finished,
}

/// What a message is.
#[verifier::ext_equal]
pub enum HashMsgView {
    Progress { done: usize, total: usize, current: Seq<char> },
    Result { name: Seq<char>, md5: Seq<char>, sha256: Seq<char> },
    Error { name: Seq<char>, msg: Seq<char> },
    Finished,
}

impl View for HashMsg {
    type V = HashMsgView;

    open spec fn view(&self) -> HashMsgView {
        match *self {
            HashMsg::Progress { done, total, current } => HashMsgView::Progress {
                done,
                total,
                current: current@,
            },
            HashMsg::Result { name, md5, sha256 } => HashMsgView::Result {
                name: name@,
                md5: md5@,
                sha256: sha256@,
            },
            HashMsg::Error { name, msg } => HashMsgView::Error { name: name@, msg: msg@ },
            HashMsg::Finished => HashMsgView::Finished,
        }
    }
}

impl DeepView for HashMsg {
    type V = HashMsgView;

    open spec fn deep_view(&self) -> HashMsgView {
        self.view()
    }
}

/// The message with the checksums of a file of the given content.
pub open spec fn checksums(name: Seq<char>, content: Seq<u8>) -> HashMsgView {
    HashMsgView::Result {
        name,
        md5: number::hex_text(md5_digest(content)),
        sha256: number::hex_text(sha256_digest(content)),
    }
}

// ---------------------------------------------------------------------------
// Counting
// ---------------------------------------------------------------------------

/// Where counting stands.
#[derive(Clone, Copy, Debug, PartialEq, Eq, Structural)]
pub enum HashStage {
    Check,
    Opening,
    ReadCheck,
    Reading,
    Ended,
}

/// What counting asks for.
#[derive(Clone, Copy, Debug, PartialEq, Eq, Structural)]
pub enum HashAsk {
    /// The flag of the operation.
    ReadFlag,
    /// To open the file at a position.
    Open(usize),
    /// The next bytes of the file; none at its end.
    Read,
    /// Nothing: counting is done.
    End,
}

/// What counting is told in reply.
#[derive(Debug)]
pub enum HashTold {
    Flag(u8),
    Outcome(Result<(), String>),
    Bytes(Result<Vec<u8>, String>),
}

/// What a reply is.
#[verifier::ext_equal]
pub enum HashToldView {
    Flag(u8),
    Outcome(Result<(), Seq<char>>),
    Bytes(Result<Seq<u8>, Seq<char>>),
}

impl View for HashTold {
    type V = HashToldView;

    open spec fn view(&self) -> HashToldView {
        match *self {
            HashTold::Flag(f) => HashToldView::Flag(f),
            HashTold::Outcome(Ok(())) => HashToldView::Outcome(Ok(())),
            HashTold::Outcome(Err(e)) => HashToldView::Outcome(Err(e@)),
            HashTold::Bytes(Ok(b)) => HashToldView::Bytes(Ok(b@)),
            HashTold::Bytes(Err(e)) => HashToldView::Bytes(Err(e@)),
        }
    }
}

/// Counting the checksums of files, each read once for both of them.
pub struct Hashing {
    pub files: Vec<DirPath>,
    pub index: usize,
    pub stage: HashStage,
    md5: md5::Md5,
    sha256: sha2::Sha256,
}

/// What counting is.
#[verifier::ext_equal]
pub struct HashingView {
    pub files: Seq<PathView>,
    pub index: usize,
    pub stage: HashStage,
    /// What was read of the file at hand.
    pub content: Seq<u8>,
}

impl View for Hashing {
    type V = HashingView;

    closed spec fn view(&self) -> HashingView {
        HashingView {
            files: self.files.deep_view(),
            index: self.index,
            stage: self.stage,
            content: md5_fed(self.md5),
        }
    }
}

impl HashingView {
    /// What counting asks for.
    pub open spec fn ask(self) -> HashAsk {
        match self.stage {
            HashStage::Check => HashAsk::ReadFlag,
            HashStage::Opening => HashAsk::Open(self.index),
            HashStage::ReadCheck => HashAsk::ReadFlag,
            HashStage::Reading => HashAsk::Read,
            HashStage::Ended => HashAsk::End,
        }
    }

    /// The name of the file at hand.
    pub open spec fn current(self) -> Seq<char> {
        self.files[self.index as int].name_or_empty()
    }

    /// Counting at another stage.
    pub open spec fn at(self, stage: HashStage) -> HashingView {
        HashingView { stage, ..self }
    }

    /// The end, with the message that tells it, behind other messages.
    pub open spec fn ended(self, sent: Seq<HashMsgView>) -> (HashingView, Seq<HashMsgView>) {
        (self.at(HashStage::Ended), sent.push(HashMsgView::Finished))
    }

    /// On to the next file, behind some messages; the end where there is none.
    pub open spec fn advanced(self, sent: Seq<HashMsgView>) -> (HashingView, Seq<HashMsgView>) {
        if self.index + 1 < self.files.len() {
            (
                HashingView { index: (self.index + 1) as usize, stage: HashStage::Check, ..self },
                sent,
            )
        } else {
            self.ended(sent)
        }
    }

    /// On to the next file with the checksums of what was read of this one.
    pub open spec fn counted(self) -> (HashingView, Seq<HashMsgView>) {
        HashingView { content: seq![], ..self }.advanced(
            seq![checksums(self.current(), self.content)],
        )
    }

    /// On to the next file after an error.
    pub open spec fn failed(self, e: Seq<char>) -> (HashingView, Seq<HashMsgView>) {
        self.advanced(seq![HashMsgView::Error { name: self.current(), msg: e }])
    }

    /// Counting after a reply, and the messages that it sends. A reply to another question
    /// than the one asked changes nothing.
    pub open spec fn next(self, told: HashToldView) -> (HashingView, Seq<HashMsgView>) {
        match (self.stage, told) {
            (HashStage::Check, HashToldView::Flag(f)) => if f == OP_STOP {
                self.ended(seq![])
            } else {
                (
                    self.at(HashStage::Opening),
                    seq![
                        HashMsgView::Progress {
                            done: self.index,
                            total: self.files.len() as usize,
                            current: self.current(),
                        },
                    ],
                )
            },
            (HashStage::Opening, HashToldView::Outcome(r)) => match r {
                Ok(_) => (
                    HashingView { stage: HashStage::ReadCheck, content: seq![], ..self },
                    seq![],
                ),
                Err(e) => self.failed(e),
            },
            (HashStage::ReadCheck, HashToldView::Flag(f)) => if f == OP_STOP {
                self.counted()
            } else {
                (self.at(HashStage::Reading), seq![])
            },
            (HashStage::Reading, HashToldView::Bytes(r)) => match r {
                Ok(b) => if b.len() == 0 {
                    self.counted()
                } else {
                    (
                        HashingView {
                            stage: HashStage::ReadCheck,
                            content: self.content + b,
                            ..self
                        },
                        seq![],
                    )
                },
                Err(e) => self.failed(e),
            },
            _ => (self, seq![]),
        }
    }

    /// Whether the file at hand is one of those to be counted.
    pub open spec fn wf(self) -> bool {
        self.stage != HashStage::Ended ==> self.index < self.files.len()
    }
}

/// However a file is cut into pieces, its checksums are those of the whole: two pieces read
/// one after the other count as the one piece that they make together.
pub proof fn pieces_make_the_whole(h: HashingView, a: Seq<u8>, b: Seq<u8>)
    requires
        h.stage == HashStage::Reading,
        a.len() > 0,
        b.len() > 0,
    ensures
        h.next(HashToldView::Bytes(Ok(a))).0.at(HashStage::Reading).next(
            HashToldView::Bytes(Ok(b)),
        ) == h.next(HashToldView::Bytes(Ok(a + b))),
{
    assert(h.content + a + b =~= h.content + (a + b));
}

/// At the end of a file the checksums of everything that was read are told.
pub proof fn checksums_at_the_end(h: HashingView)
    requires
        h.stage == HashStage::Reading,
    ensures
        h.next(HashToldView::Bytes(Ok(Seq::empty()))).1.len() > 0,
        h.next(HashToldView::Bytes(Ok(Seq::empty()))).1[0] == checksums(h.current(), h.content),
{
}

/// Whether every checksum that messages tell has its full length: 32 digits of MD5 and 64 of
/// SHA-256.
pub open spec fn sums_are_full(sent: Seq<HashMsgView>) -> bool {
    forall|i: int|
        0 <= i < sent.len() ==> (#[trigger] sent[i] matches HashMsgView::Result {
            name,
            md5,
            sha256,
        } ==> md5.len() == 32 && sha256.len() == 64)
}

/// What counting does next: the messages to send, then what to do or find out.
#[derive(Debug)]
pub struct HashTurn {
    pub send: Vec<HashMsg>,
    pub ask: HashAsk,
}

impl Hashing {
    /// Whether both states have taken in the same bytes.
    pub closed spec fn in_step(&self) -> bool {
        md5_fed(self.md5) == sha256_fed(self.sha256)
    }

    /// What holds of counting between two replies.
    pub open spec fn wf(&self) -> bool {
        self@.wf() && self.in_step()
    }

    /// The start of counting.
    pub fn new(files: Vec<DirPath>) -> (r: (Hashing, HashTurn))
        ensures
            ({
                let start = HashingView {
                    files: files.deep_view(),
                    index: 0,
                    stage: HashStage::Check,
                    content: seq![],
                };
                (r.0@, r.1.send.deep_view()) == if files.len() > 0 {
                    (start, seq![])
                } else {
                    start.ended(seq![])
                }
            }),
            r.0.wf(),
            r.1.ask == r.0@.ask(),
    {
        assert(files.deep_view().len() == files.len());
        let empty = files.len() == 0;
        let mut run = Hashing {
            files,
            index: 0,
            stage: HashStage::Check,
            md5: md5_new(),
            sha256: sha256_new(),
        };
        let mut send: Vec<HashMsg> = Vec::new();
        assert(send.deep_view() =~= seq![]);
        if empty {
            run.end(&mut send);
        }
        let ask = run.ask();
        (run, HashTurn { send, ask })
    }

    /// What counting asks for.
    pub fn ask(&self) -> (r: HashAsk)
        ensures
            r == self@.ask(),
    {
        match self.stage {
            HashStage::Check => HashAsk::ReadFlag,
            HashStage::Opening => HashAsk::Open(self.index),
            HashStage::ReadCheck => HashAsk::ReadFlag,
            HashStage::Reading => HashAsk::Read,
            HashStage::Ended => HashAsk::End,
        }
    }

    fn end(&mut self, send: &mut Vec<HashMsg>)
        ensures
            (final(self)@, final(send).deep_view()) == old(self)@.ended(old(send).deep_view()),
            final(self).in_step() == old(self).in_step(),
    {
        self.stage = HashStage::Ended;
        send.push(HashMsg::Finished);
        assert(send.deep_view() =~= old(send).deep_view().push(HashMsgView::Finished));
    }

    fn advance(&mut self, send: &mut Vec<HashMsg>)
        requires
            old(self).index < old(self).files.len(),
        ensures
            (final(self)@, final(send).deep_view()) == old(self)@.advanced(old(send).deep_view()),
            final(self).in_step() == old(self).in_step(),
    {
        assert(self.files.deep_view().len() == self.files.len());
        if self.index + 1 < self.files.len() {
            self.index = self.index + 1;
            self.stage = HashStage::Check;
        } else {
            self.end(send);
        }
    }

    /// The name of the file at hand.
    fn current_name(&self) -> (r: String)
        requires
            self.index < self.files.len(),
        ensures
            r@ == self@.current(),
    {
        assert(self.files.deep_view()[self.index as int] == self.files[self.index as int]@);
        self.files[self.index].file_name_or_empty()
    }

    /// Tells the checksums of what was read.
    fn count(&mut self, send: &mut Vec<HashMsg>)
        requires
            old(self).index < old(self).files.len(),
            old(self).in_step(),
            old(send).deep_view() == Seq::<HashMsgView>::empty(),
        ensures
            (final(self)@, final(send).deep_view()) == old(self)@.counted(),
            sums_are_full(final(send).deep_view()),
            final(self).in_step(),
    {
        let name = self.current_name();
        let mut md5 = md5_new();
        let mut sha256 = sha256_new();
        std::mem::swap(&mut self.md5, &mut md5);
        std::mem::swap(&mut self.sha256, &mut sha256);
        let a = md5_finalize(md5);
        let b = sha256_finalize(sha256);
        let msg = HashMsg::Result {
            name,
            md5: number::bytes_to_hex(a.as_slice()),
            sha256: number::bytes_to_hex(b.as_slice()),
        };
        proof {
            number::hex_text_len(a@);
            number::hex_text_len(b@);
        }
        send.push(msg);
        assert(send.deep_view() =~= seq![msg@]);
        self.advance(send);
    }

    /// Tells an error.
    fn fail(&mut self, e: String, send: &mut Vec<HashMsg>)
        requires
            old(self).index < old(self).files.len(),
            old(send).deep_view() == Seq::<HashMsgView>::empty(),
        ensures
            (final(self)@, final(send).deep_view()) == old(self)@.failed(e@),
            final(self).in_step() == old(self).in_step(),
    {
        let msg = HashMsg::Error { name: self.current_name(), msg: e };
        send.push(msg);
        assert(send.deep_view() =~= seq![msg@]);
        self.advance(send);
    }

    /// Takes in a reply.
    pub fn step(&mut self, told: HashTold) -> (r: HashTurn)
        requires
            old(self).wf(),
        ensures
            final(self)@ == old(self)@.next(told@).0,
            r.send.deep_view() == old(self)@.next(told@).1,
            sums_are_full(r.send.deep_view()),
            r.ask == final(self)@.ask(),
            final(self).wf(),
    {
        let mut send: Vec<HashMsg> = Vec::new();
        assert(send.deep_view() =~= seq![]);
        assert(self.files.deep_view().len() == self.files.len());
        match (self.stage, told) {
            (HashStage::Check, HashTold::Flag(f)) => {
                if f == OP_STOP {
                    self.end(&mut send);
                } else {
                    let msg = HashMsg::Progress {
                        done: self.index,
                        total: self.files.len(),
                        current: self.current_name(),
                    };
                    send.push(msg);
                    assert(send.deep_view() =~= seq![msg@]);
                    self.stage = HashStage::Opening;
                }
            },
            (HashStage::Opening, HashTold::Outcome(r)) => {
                match r {
                    Ok(_) => {
                        self.md5 = md5_new();
                        self.sha256 = sha256_new();
                        self.stage = HashStage::ReadCheck;
                    },
                    Err(e) => {
                        self.fail(e, &mut send);
                    },
                }
            },
            (HashStage::ReadCheck, HashTold::Flag(f)) => {
                if f == OP_STOP {
                    self.count(&mut send);
                } else {
                    self.stage = HashStage::Reading;
                }
            },
            (HashStage::Reading, HashTold::Bytes(r)) => {
                match r {
                    Ok(b) => {
                        if b.len() == 0 {
                            self.count(&mut send);
                        } else {
                            md5_update(&mut self.md5, &b);
                            sha256_update(&mut self.sha256, &b);
                            self.stage = HashStage::ReadCheck;
                        }
                    },
                    Err(e) => {
                        self.fail(e, &mut send);
                    },
                }
            },
            _ => {},
        }
        HashTurn { send, ask: self.ask() }
    }
}

// ---------------------------------------------------------------------------
// The window
// ---------------------------------------------------------------------------

/// The state of the checksum window.
#[derive(Debug)]
pub struct HashBox {
    pub show: bool,
    /// Whether messages are awaited.
    pub awaited: bool,
    /// Whether there is a count that can be stopped.
    pub stoppable: bool,
    /// Name, MD5 and SHA-256 of each file.
    pub results: Vec<(String, String, String)>,
    pub errors: Vec<String>,
    pub running: bool,
    pub done: usize,
    pub total: usize,
    pub current: String,
}

/// What the state of the window is.
#[verifier::ext_equal]
pub struct HashBoxView {
    pub show: bool,
    pub awaited: bool,
    pub stoppable: bool,
    pub results: Seq<(Seq<char>, Seq<char>, Seq<char>)>,
    pub errors: Seq<Seq<char>>,
    pub running: bool,
    pub done: usize,
    pub total: usize,
    pub current: Seq<char>,
}

impl View for HashBox {
    type V = HashBoxView;

    open spec fn view(&self) -> HashBoxView {
        HashBoxView {
            show: self.show,
            awaited: self.awaited,
            stoppable: self.stoppable,
            results: self.results.deep_view(),
            errors: self.errors.deep_view(),
            running: self.running,
            done: self.done,
            total: self.total,
            current: self.current@,
        }
    }
}

impl HashBoxView {
    /// The state after a message.
    pub open spec fn after(self, msg: HashMsgView) -> HashBoxView {
        match msg {
            HashMsgView::Progress { done, total, current } => HashBoxView {
                done,
                total,
                current,
                ..self
            },
            HashMsgView::Result { name, md5, sha256 } => HashBoxView {
                results: self.results.push((name, md5, sha256)),
                ..self
            },
            HashMsgView::Error { name, msg } => HashBoxView {
                errors: self.errors.push(name + ": "@ + msg),
                ..self
            },
            HashMsgView::Finished => self,
        }
    }
}

impl HashBox {
    /// The window before any count.
    pub fn new() -> (r: HashBox)
        ensures
            r@ == (HashBoxView {
                show: false,
                awaited: false,
                stoppable: false,
                results: seq![],
                errors: seq![],
                running: false,
                done: 0,
                total: 0,
                current: seq![],
            }),
    {
        let r = HashBox {
            show: false,
            awaited: false,
            stoppable: false,
            results: Vec::new(),
            errors: Vec::new(),
            running: false,
            done: 0,
            total: 0,
            current: String::new(),
        };
        assert(r@.results =~= seq![]);
        assert(r@.errors =~= seq![]);
        r
    }

    /// Starts to show a count of `total` files.
    pub fn start(&mut self, total: usize)
        ensures
            final(self)@ == (HashBoxView {
                show: true,
                awaited: true,
                stoppable: true,
                results: seq![],
                errors: seq![],
                running: true,
                done: 0,
                total,
                current: seq![],
            }),
    {
        self.results = Vec::new();
        self.errors = Vec::new();
        self.done = 0;
        self.total = total;
        self.current = String::new();
        self.running = true;
        self.show = true;
        self.stoppable = true;
        self.awaited = true;
        assert(self@.results =~= seq![]);
        assert(self@.errors =~= seq![]);
    }

    /// Takes in a message; tells whether it was the last one.
    pub fn apply(&mut self, msg: HashMsg) -> (r: bool)
        ensures
            final(self)@ == old(self)@.after(msg@),
            r == (msg@ == HashMsgView::Finished),
    {
        match msg {
            HashMsg::Progress { done, total, current } => {
                self.done = done;
                self.total = total;
                self.current = current;
                false
            },
            HashMsg::Result { name, md5, sha256 } => {
                self.results.push((name, md5, sha256));
                assert(self@.results =~= old(self)@.results.push((name@, md5@, sha256@)));
                false
            },
            HashMsg::Error { name, msg } => {
                let mut line = name;
                line.append(": ");
                line.append(msg.as_str());
                self.errors.push(line);
                assert(self@.errors =~= old(self)@.errors.push(line@));
                false
            },
            HashMsg::Finished => true,
        }
    }

    /// Ends a look at the messages that had come.
    pub fn end_poll(&mut self, still_running: bool)
        ensures
            final(self)@ == (HashBoxView {
                awaited: still_running,
                running: still_running && old(self).running,
                ..old(self)@
            }),
    {
        self.awaited = still_running;
        if !still_running {
            self.running = false;
        }
    }

    /// Closes the window; tells whether a count is to be stopped with it.
    pub fn close(&mut self) -> (r: bool)
        ensures
            final(self)@ == (HashBoxView { show: false, stoppable: false, ..old(self)@ }),
            r == old(self).stoppable,
    {
        let stop = self.stoppable;
        self.show = false;
        self.stoppable = false;
        stop
    }
}

/// The pieces of a file put together.
pub open spec fn whole(pieces: Seq<Seq<u8>>) -> Seq<u8>
    decreases pieces.len(),
{
    if pieces.len() == 0 {
        seq![]
    } else {
        whole(pieces.drop_last()) + pieces.last()
    }
}

/// Where a file is read piece by piece: the state once the pieces are read.
pub open spec fn after_pieces(h: HashingView, pieces: Seq<Seq<u8>>, f: u8) -> HashingView
    decreases pieces.len(),
{
    if pieces.len() == 0 {
        h
    } else {
        after_pieces(h, pieces.drop_last(), f).next(HashToldView::Flag(f)).0.next(
            HashToldView::Bytes(Ok(pieces.last())),
        ).0
    }
}

proof fn lemma_pieces(h: HashingView, pieces: Seq<Seq<u8>>, f: u8)
    requires
        h.stage == HashStage::ReadCheck,
        f != OP_STOP,
        forall|i: int| 0 <= i < pieces.len() ==> (#[trigger] pieces[i]).len() > 0,
    ensures
        after_pieces(h, pieces, f) == (HashingView { content: h.content + whole(pieces), ..h }),
    decreases pieces.len(),
{
    if pieces.len() == 0 {
        assert(h.content + whole(pieces) =~= h.content);
    } else {
        let front = pieces.drop_last();
        assert forall|i: int| 0 <= i < front.len() implies (#[trigger] front[i]).len() > 0 by {
            assert(front[i] == pieces[i]);
        }
        lemma_pieces(h, front, f);
        assert(pieces[pieces.len() - 1].len() > 0);
        assert(h.content + whole(front) + pieces.last() =~= h.content + whole(pieces));
    }
}

/// A file is counted whole: it is announced, opened and read to its end, in whatever pieces, and
/// the sums told are those of all its bytes, under its name; then comes the next file, and the
/// end behind the last.
pub proof fn file_is_counted_whole(h: HashingView, pieces: Seq<Seq<u8>>, f: u8)
    requires
        h.wf(),
        h.stage == HashStage::Check,
        h.files.len() <= usize::MAX,
        f != OP_STOP,
        forall|i: int| 0 <= i < pieces.len() ==> (#[trigger] pieces[i]).len() > 0,
    ensures
        ({
            let (a, sent_a) = h.next(HashToldView::Flag(f));
            let (b, sent_b) = a.next(HashToldView::Outcome(Ok(())));
            let c = after_pieces(b, pieces, f).next(HashToldView::Flag(f)).0;
            let (d, sent_d) = c.next(HashToldView::Bytes(Ok(Seq::empty())));
            let sums = HashMsgView::Result {
                name: h.current(),
                md5: number::hex_text(md5_digest(whole(pieces))),
                sha256: number::hex_text(sha256_digest(whole(pieces))),
            };
            &&& a.ask() == HashAsk::Open(h.index)
            &&& sent_a == seq![
                HashMsgView::Progress {
                    done: h.index,
                    total: h.files.len() as usize,
                    current: h.current(),
                },
            ]
            &&& b.ask() == HashAsk::ReadFlag
            &&& sent_b == Seq::<HashMsgView>::empty()
            &&& c.ask() == HashAsk::Read
            &&& h.index + 1 < h.files.len() ==> {
                &&& sent_d == seq![sums]
                &&& d.index == h.index + 1
                &&& d.stage == HashStage::Check
                &&& d.files == h.files
            }
            &&& h.index + 1 == h.files.len() ==> {
                &&& sent_d == seq![sums, HashMsgView::Finished]
                &&& d.ask() == HashAsk::End
            }
        }),
{
    let b = h.next(HashToldView::Flag(f)).0.next(HashToldView::Outcome(Ok(()))).0;
    lemma_pieces(b, pieces, f);
    assert(b.content + whole(pieces) =~= whole(pieces));
    let sums = checksums(h.current(), whole(pieces));
    assert(seq![sums].push(HashMsgView::Finished) =~= seq![sums, HashMsgView::Finished]);
}

/// A file that cannot be opened or read is told with its error, and the next one follows.
pub proof fn failed_file_is_told(h: HashingView, e: Seq<char>)
    requires
        h.wf(),
        h.files.len() <= usize::MAX,
    ensures
        h.stage == HashStage::Opening ==> h.next(HashToldView::Outcome(Err(e))).1[0]
            == (HashMsgView::Error { name: h.current(), msg: e }),
        h.stage == HashStage::Reading ==> h.next(HashToldView::Bytes(Err(e))).1[0]
            == (HashMsgView::Error { name: h.current(), msg: e }),
        h.stage == HashStage::Opening && h.index + 1 < h.files.len() ==> {
            let (a, sent) = h.next(HashToldView::Outcome(Err(e)));
            a.index == h.index + 1 && a.stage == HashStage::Check && sent.len() == 1
        },
        h.stage == HashStage::Reading && h.index + 1 < h.files.len() ==> {
            let (a, sent) = h.next(HashToldView::Bytes(Err(e)));
            a.index == h.index + 1 && a.stage == HashStage::Check && sent.len() == 1
        },
{
}

/// A stop before a file ends the counting, which is told.
pub proof fn hashing_heeds_stop(h: HashingView)
    requires
        h.stage == HashStage::Check,
    ensures
        h.next(HashToldView::Flag(OP_STOP)).0.ask() == HashAsk::End,
        h.next(HashToldView::Flag(OP_STOP)).1 == seq![HashMsgView::Finished],
{
    assert(Seq::<HashMsgView>::empty().push(HashMsgView::Finished) =~= seq![HashMsgView::Finished]);
}

/// What counting tells adds up: sums and errors are kept in their order, and the progress is
/// taken over.
pub proof fn hash_messages_add_up(b: HashBoxView, msg: HashMsgView)
    ensures
        msg matches HashMsgView::Result { name, md5, sha256 } ==> b.after(msg) == (HashBoxView {
            results: b.results + seq![(name, md5, sha256)],
            ..b
        }),
        msg matches HashMsgView::Error { name, msg: e } ==> b.after(msg) == (HashBoxView {
            errors: b.errors + seq![name + ": "@ + e],
            ..b
        }),
        msg matches HashMsgView::Progress { done, total, current } ==> b.after(msg) == (
        HashBoxView { done, total, current, ..b }),
        msg is Finished ==> b.after(msg) == b,
{
    match msg {
        HashMsgView::Result { name, md5, sha256 } => {
            assert(b.results.push((name, md5, sha256)) =~= b.results + seq![(name, md5, sha256)]);
        },
        HashMsgView::Error { name, msg: e } => {
            assert(b.errors.push(name + ": "@ + e) =~= b.errors + seq![name + ": "@ + e]);
        },
        _ => {},
    }
}

/// A reply to something else than what was asked changes nothing; any flag but the one to stop
/// lets the counting go on.
pub proof fn hashing_takes_only_replies(h: HashingView, told: HashToldView, f: u8, g: u8)
    ensures
        f != OP_STOP && g != OP_STOP ==> h.next(HashToldView::Flag(f)) == h.next(
            HashToldView::Flag(g),
        ),
        h.ask() == HashAsk::ReadFlag && !(told is Flag) ==> h.next(told) == (h, Seq::<
            HashMsgView,
        >::empty()),
        h.ask() is Open && !(told is Outcome) ==> h.next(told) == (h, Seq::<HashMsgView>::empty()),
        h.ask() == HashAsk::Read && !(told is Bytes) ==> h.next(told) == (h, Seq::<
            HashMsgView,
        >::empty()),
        h.ask() == HashAsk::End ==> h.next(told) == (h, Seq::<HashMsgView>::empty()),
{
}

/// A stop within a file ends its reading: the sums told are those of what was read.
pub proof fn stop_within_a_file_counts_the_read(h: HashingView)
    requires
        h.wf(),
        h.stage == HashStage::ReadCheck,
    ensures
        h.next(HashToldView::Flag(OP_STOP)).1.len() > 0,
        h.next(HashToldView::Flag(OP_STOP)).1[0] == (HashMsgView::Result {
            name: h.current(),
            md5: number::hex_text(md5_digest(h.content)),
            sha256: number::hex_text(sha256_digest(h.content)),
        }),
{
}

} // verus!
