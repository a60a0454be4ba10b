//! Taking files out of a ZIP archive and putting files into one, in the background.

use crate::archive::{self, ZipItem, ZipView};
use crate::file_op::{
    OpMsg, OpMsgView, ERR_CANCEL, ERR_RETRY, ERR_SKIP, ERR_WAIT, OP_PAUSE, OP_RUN, OP_STOP,
};
use crate::path::{DirPath, PathView};
use crate::text;
use vstd::prelude::*;

verus! {

broadcast use vstd::string::group_string_axioms;

// ---------------------------------------------------------------------------
// Which members are taken out
// ---------------------------------------------------------------------------

/// Whether a member below the directory is one of the chosen items, or lies in one.
pub open spec fn chosen(rest: Seq<char>, names: Seq<Seq<char>>) -> bool {
    exists|i: int|
        0 <= i < names.len() && (rest == #[trigger] names[i] || text::begins_with(
            rest,
            names[i] + "/"@,
        ))
}

/// Where a member goes below the target directory: none where it is not taken out.
pub open spec fn target_of(name: Seq<char>, dir: Seq<char>, names: Seq<Seq<char>>) -> Option<Seq<char>> {
    match archive::below(name, dir) {
        Some(rest) => if chosen(rest, names) {
            Some(rest)
        } else {
            None
        },
        None => None,
    }
}

/// Where a member goes below the target directory.
pub fn extract_target(name: &str, dir: &str, names: &Vec<String>) -> (r: Option<String>)
    ensures
        r.deep_view() == target_of(name@, dir@, names.deep_view()),
{
    let rest = match archive::part_below(name, dir) {
        Some(rest) => rest,
        None => {
            return None;
        },
    };
    let mut i: usize = 0;
    while i < names.len()
        invariant
            i <= names.len(),
            Some(rest@) == archive::below(name@, dir@),
            forall|k: int|
                0 <= k < i ==> rest@ != #[trigger] names.deep_view()[k] && !text::begins_with(
                    rest@,
                    names.deep_view()[k] + "/"@,
                ),
        decreases names.len() - i,
    {
        let mut inside = names[i].clone();
        inside.append("/");
        assert(names.deep_view()[i as int] == names[i as int]@);
        if text::same(rest.as_str(), names[i].as_str()) || text::starts(
            rest.as_str(),
            inside.as_str(),
        ) {
            assert(chosen(rest@, names.deep_view()));
            return Some(rest);
        }
        i += 1;
    }
    assert(!chosen(rest@, names.deep_view()));
    None
}

/// Only what was chosen is taken out: the part below the directory is a chosen name, or a
/// path that starts with one.
pub proof fn target_is_chosen(name: Seq<char>, dir: Seq<char>, names: Seq<Seq<char>>)
    requires
        target_of(name, dir, names) is Some,
    ensures
        chosen(target_of(name, dir, names)->0, names),
        text::char_replaced(name, '\\', '/') == dir + target_of(name, dir, names)->0,
{
    let full = text::char_replaced(name, '\\', '/');
    assert(full.subrange(0, dir.len() as int) == dir);
    assert(full == dir + text::after(full, dir.len() as int));
}

// ---------------------------------------------------------------------------
// Extraction
// ---------------------------------------------------------------------------

/// Where an extraction stands.
#[derive(Clone, Copy, Debug, PartialEq, Eq, Structural)]
pub enum ExtractStage {
    Check,
    PauseCheck,
    Paused,
    Reading,
    MakingDir,
    Probing,
    MakingParent,
    Writing,
    ErrorReset,
    ErrorSleep,
    ErrorAnswer,
    Stopping,
    Ended,
}

/// What an extraction asks for.
#[derive(Clone, Copy, Debug, PartialEq, Eq, Structural)]
pub enum ExtractAsk {
    /// The flag of the operation.
    ReadFlag,
    /// To wait for some milliseconds.
    Sleep(u64),
    /// The member at a position.
    ReadEntry(usize),
    /// To create the target as a directory.
    MakeDir,
    /// Whether something exists at the target.
    Probe,
    /// To create the directory that holds the target.
    MakeParent,
    /// To write the member at a position to the target.
    Write(usize),
    /// To take back the last answer to an error.
    ResetAnswer,
    /// The answer to the error.
    ReadAnswer,
    /// To stop the operation.
    SetStop,
    /// Nothing: the extraction is done.
    End,
}

/// What an extraction is told in reply.
#[derive(Debug)]
pub enum ExtractTold {
    Flag(u8),
    Entry(Result<ZipItem, String>),
    Yes(bool),
    Outcome(Result<(), String>),
    Answer(u8),
    Done,
}

/// What a reply is.
#[verifier::ext_equal]
pub enum ExtractToldView {
    Flag(u8),
    Entry(Result<ZipView, Seq<char>>),
    Yes(bool),
    Outcome(Result<(), Seq<char>>),
    Answer(u8),
    Done,
}

impl View for ExtractTold {
    type V = ExtractToldView;

    open spec fn view(&self) -> ExtractToldView {
        match *self {
            ExtractTold::Flag(f) => ExtractToldView::Flag(f),
            ExtractTold::Entry(Ok(item)) => ExtractToldView::Entry(Ok(item@)),
            ExtractTold::Entry(Err(e)) => ExtractToldView::Entry(Err(e@)),
            ExtractTold::Yes(b) => ExtractToldView::Yes(b),
            ExtractTold::Outcome(Ok(())) => ExtractToldView::Outcome(Ok(())),
            ExtractTold::Outcome(Err(e)) => ExtractToldView::Outcome(Err(e@)),
            ExtractTold::Answer(a) => ExtractToldView::Answer(a),
            ExtractTold::Done => ExtractToldView::Done,
        }
    }
}

/// An extraction: the directory of the archive, the chosen names in it, and how far it got.
#[derive(Debug)]
pub struct Extraction {
    pub internal_dir: String,
    pub names: Vec<String>,
    pub overwrite: bool,
    pub total: usize,
    pub bytes_total: u64,
    pub bytes_done: u64,
    pub index: usize,
    /// Where the current member goes below the target directory.
    pub target: String,
    pub size: u64,
    pub error: String,
    pub stage: ExtractStage,
}

/// What an extraction is.
#[verifier::ext_equal]
pub struct ExtractView {
    pub internal_dir: Seq<char>,
    pub names: Seq<Seq<char>>,
    pub overwrite: bool,
    pub total: usize,
    pub bytes_total: u64,
    pub bytes_done: u64,
    pub index: usize,
    pub target: Seq<char>,
    pub size: u64,
    pub error: Seq<char>,
    pub stage: ExtractStage,
}

impl View for Extraction {
    type V = ExtractView;

    open spec fn view(&self) -> ExtractView {
        ExtractView {
            internal_dir: self.internal_dir@,
            names: self.names.deep_view(),
            overwrite: self.overwrite,
            total: self.total,
            bytes_total: self.bytes_total,
            bytes_done: self.bytes_done,
            index: self.index,
            target: self.target@,
            size: self.size,
            error: self.error@,
            stage: self.stage,
        }
    }
}

impl ExtractView {
    /// What the extraction asks for.
    pub open spec fn ask(self) -> ExtractAsk {
        match self.stage {
            ExtractStage::Check => ExtractAsk::ReadFlag,
            ExtractStage::PauseCheck => ExtractAsk::ReadFlag,
            ExtractStage::Paused => ExtractAsk::Sleep(100),
            ExtractStage::Reading => ExtractAsk::ReadEntry(self.index),
            ExtractStage::MakingDir => ExtractAsk::MakeDir,
            ExtractStage::Probing => ExtractAsk::Probe,
            ExtractStage::MakingParent => ExtractAsk::MakeParent,
            ExtractStage::Writing => ExtractAsk::Write(self.index),
            ExtractStage::ErrorReset => ExtractAsk::ResetAnswer,
            ExtractStage::ErrorSleep => ExtractAsk::Sleep(50),
            ExtractStage::ErrorAnswer => ExtractAsk::ReadAnswer,
            ExtractStage::Stopping => ExtractAsk::SetStop,
            ExtractStage::Ended => ExtractAsk::End,
        }
    }

    /// The extraction at another stage.
    pub open spec fn at(self, stage: ExtractStage) -> ExtractView {
        ExtractView { stage, ..self }
    }

    /// The end, with the message that tells it, behind other messages.
    pub open spec fn ended(self, sent: Seq<OpMsgView>) -> (ExtractView, Seq<OpMsgView>) {
        (self.at(ExtractStage::Ended), sent.push(OpMsgView::Finished))
    }

    /// On to the next member, behind some messages; the end where there is none.
    pub open spec fn advanced(self, sent: Seq<OpMsgView>) -> (ExtractView, Seq<OpMsgView>) {
        if self.index + 1 < self.total {
            (
                ExtractView {
                    index: (self.index + 1) as usize,
                    stage: ExtractStage::Check,
                    ..self
                },
                sent,
            )
        } else {
            self.ended(sent)
        }
    }

    /// Whether the bytes of the current member can be added to the sum.
    pub open spec fn sum_fits(self) -> bool {
        self.bytes_done + self.size <= u64::MAX
    }

    /// The extraction after a reply, and the messages that it sends. A reply to another
    /// question than the one asked changes nothing.
    pub open spec fn next(self, told: ExtractToldView) -> (ExtractView, Seq<OpMsgView>) {
        match (self.stage, told) {
            (ExtractStage::Check, ExtractToldView::Flag(f)) => if f == OP_STOP {
                self.ended(seq![])
            } else {
                (self.at(ExtractStage::PauseCheck), seq![])
            },
            (ExtractStage::PauseCheck, ExtractToldView::Flag(f)) => if f == OP_PAUSE {
                (self.at(ExtractStage::Paused), seq![])
            } else {
                (self.at(ExtractStage::Reading), seq![])
            },
            (ExtractStage::Paused, ExtractToldView::Done) => (
                self.at(ExtractStage::PauseCheck),
                seq![],
            ),
            (ExtractStage::Reading, ExtractToldView::Entry(Err(e))) => self.advanced(
                seq![OpMsgView::Error(e)],
            ),
            (ExtractStage::Reading, ExtractToldView::Entry(Ok(item))) => match target_of(
                item.name,
                self.internal_dir,
                self.names,
            ) {
                Some(target) => {
                    let w = ExtractView { target, size: item.size, ..self };
                    if item.is_dir {
                        (w.at(ExtractStage::MakingDir), seq![])
                    } else if !self.overwrite {
                        (w.at(ExtractStage::Probing), seq![])
                    } else {
                        (w.at(ExtractStage::MakingParent), seq![])
                    }
                },
                None => self.advanced(seq![]),
            },
            (ExtractStage::MakingDir, ExtractToldView::Done) => self.advanced(seq![]),
            (ExtractStage::Probing, ExtractToldView::Yes(exists)) => if exists {
                self.advanced(seq![OpMsgView::Skipped])
            } else {
                (self.at(ExtractStage::MakingParent), seq![])
            },
            (ExtractStage::MakingParent, ExtractToldView::Done) => (
                self.at(ExtractStage::Writing),
                seq![],
            ),
            (ExtractStage::Writing, ExtractToldView::Outcome(Ok(_))) => {
                let bytes_done = (self.bytes_done + self.size) as u64;
                let w = ExtractView { bytes_done, ..self };
                w.advanced(
                    seq![
                        OpMsgView::Progress {
                            done: (self.index + 1) as usize,
                            total: self.total,
                            bytes_done,
                            bytes_total: self.bytes_total,
                        },
                    ],
                )
            },
            (ExtractStage::Writing, ExtractToldView::Outcome(Err(e))) => (
                ExtractView { error: e, stage: ExtractStage::ErrorReset, ..self },
                seq![],
            ),
            (ExtractStage::ErrorReset, ExtractToldView::Done) => (
                self.at(ExtractStage::ErrorSleep),
                seq![OpMsgView::ErrorWait { file: self.target, error: self.error }],
            ),
            (ExtractStage::ErrorSleep, ExtractToldView::Done) => (
                self.at(ExtractStage::ErrorAnswer),
                seq![],
            ),
            (ExtractStage::ErrorAnswer, ExtractToldView::Answer(a)) => if a == ERR_RETRY {
                (self.at(ExtractStage::MakingParent), seq![])
            } else if a == ERR_SKIP {
                self.advanced(seq![])
            } else if a == ERR_CANCEL {
                (self.at(ExtractStage::Stopping), seq![])
            } else {
                (self.at(ExtractStage::ErrorSleep), seq![])
            },
            (ExtractStage::Stopping, ExtractToldView::Done) => self.ended(seq![]),
            _ => (self, seq![]),
        }
    }

    /// What holds of an extraction between two replies: the member at hand exists, and once
    /// it has been read, it is one that is taken out.
    pub open spec fn wf(self) -> bool {
        &&& self.stage != ExtractStage::Ended ==> self.index < self.total
        &&& match self.stage {
            ExtractStage::MakingDir | ExtractStage::Probing | ExtractStage::MakingParent
            | ExtractStage::Writing | ExtractStage::ErrorReset | ExtractStage::ErrorSleep
            | ExtractStage::ErrorAnswer => chosen(self.target, self.names),
            _ => true,
        }
        &&& self.stage == ExtractStage::Probing ==> !self.overwrite
    }
}

/// An extraction keeps to the members that there are and to the names that were chosen.
pub proof fn extraction_stays_wf(w: ExtractView, told: ExtractToldView)
    requires
        w.wf(),
    ensures
        w.next(told).0.wf(),
        w.next(told).0.names == w.names,
        w.next(told).0.overwrite == w.overwrite,
{
}

/// A member is written only where it was chosen.
pub proof fn extraction_writes_chosen(w: ExtractView)
    requires
        w.wf(),
        w.ask() is Write || w.ask() is MakeDir,
    ensures
        chosen(w.target, w.names),
{
}

/// Without leave to overwrite, a member is written only after nothing was found at its
/// target, or anew after writing it has failed.
pub proof fn extraction_spares_existing(w: ExtractView, told: ExtractToldView)
    requires
        w.wf(),
        !w.overwrite,
        w.stage != ExtractStage::MakingParent,
        w.next(told).0.stage == ExtractStage::MakingParent,
    ensures
        ({
            ||| w.stage == ExtractStage::Probing && told == ExtractToldView::Yes(false)
            ||| w.stage == ExtractStage::ErrorAnswer && told == ExtractToldView::Answer(ERR_RETRY)
        }),
{
}

/// The answer to an error decides: the member is written anew, it is left out, or the whole
/// extraction is stopped. Until there is an answer, the extraction waits.
pub proof fn extraction_heeds_answer(w: ExtractView, a: u8)
    requires
        w.stage == ExtractStage::ErrorAnswer,
    ensures
        ({
            let (after, sent) = w.next(ExtractToldView::Answer(a));
            &&& a == ERR_RETRY ==> after == w.at(ExtractStage::MakingParent)
            &&& a == ERR_SKIP ==> (after, sent) == w.advanced(seq![])
            &&& a == ERR_CANCEL ==> after.ask() == ExtractAsk::SetStop
            &&& a == ERR_WAIT ==> after.ask() is Sleep
        }),
{
}

/// The end is told exactly once: with the step that reaches it.
pub proof fn extraction_ends_once(w: ExtractView, told: ExtractToldView)
    ensures
        (w.stage != ExtractStage::Ended && w.next(told).0.stage == ExtractStage::Ended)
            <==> w.next(told).1.contains(OpMsgView::Finished),
{
    let sent = w.next(told).1;
    if w.stage != ExtractStage::Ended && w.next(told).0.stage == ExtractStage::Ended {
        assert(sent[sent.len() - 1] == OpMsgView::Finished);
    }
    if sent.contains(OpMsgView::Finished) {
        let k = choose|k: int| 0 <= k < sent.len() && sent[k] == OpMsgView::Finished;
        assert(sent[k] is Finished);
    }
}

// ---------------------------------------------------------------------------
// A whole run of an extraction
// ---------------------------------------------------------------------------

/// A member as an extraction finds it: what the archive says of it, and whether something
/// exists at its target.
pub struct Found {
    pub item: ZipView,
    pub exists: bool,
}

/// What was done to a member.
pub enum MemberDeed {
    /// A directory was created for it.
    MadeDir(Seq<char>),
    /// The member at a position was written.
    Written(usize, Seq<char>),
    /// It was left out, since its target exists.
    Spared(Seq<char>),
}

/// What an extraction is told where nothing fails and nobody stops it.
pub open spec fn calm_told(w: ExtractView, members: Seq<Found>) -> ExtractToldView {
    match w.ask() {
        ExtractAsk::ReadFlag => ExtractToldView::Flag(OP_RUN),
        ExtractAsk::ReadEntry(i) => ExtractToldView::Entry(Ok(members[i as int].item)),
        ExtractAsk::Probe => ExtractToldView::Yes(members[w.index as int].exists),
        ExtractAsk::Write(_) => ExtractToldView::Outcome(Ok(())),
        ExtractAsk::ReadAnswer => ExtractToldView::Answer(ERR_WAIT),
        _ => ExtractToldView::Done,
    }
}

/// What an extraction does with the answer to what it asks for.
pub open spec fn member_deed(w: ExtractView, members: Seq<Found>) -> Seq<MemberDeed> {
    match w.ask() {
        ExtractAsk::MakeDir => seq![MemberDeed::MadeDir(w.target)],
        ExtractAsk::Write(i) => seq![MemberDeed::Written(i, w.target)],
        ExtractAsk::Probe => if members[w.index as int].exists {
            seq![MemberDeed::Spared(w.target)]
        } else {
            seq![]
        },
        _ => seq![],
    }
}

/// What an extraction does and sends in the given number of answers, and where it then stands.
pub open spec fn extracted(w: ExtractView, members: Seq<Found>, n: nat) -> (
    Seq<MemberDeed>,
    Seq<OpMsgView>,
    ExtractView,
)
    decreases n,
{
    if n == 0 {
        (seq![], seq![], w)
    } else {
        let (next, sent) = w.next(calm_told(w, members));
        let (deeds, rest, end) = extracted(next, members, (n - 1) as nat);
        (member_deed(w, members) + deeds, sent + rest, end)
    }
}

impl ExtractView {
    /// Where the member at `i` goes: none where it was not chosen.
    pub open spec fn goes(self, members: Seq<Found>, i: int) -> Option<Seq<char>> {
        target_of(members[i].item.name, self.internal_dir, self.names)
    }

    /// Whether the member at `i` is written.
    pub open spec fn takes(self, members: Seq<Found>, i: int) -> bool {
        self.goes(members, i) is Some && !members[i].item.is_dir && (self.overwrite
            || !members[i].exists)
    }

    /// What is done to the member at `i`: nothing where it was not chosen; else a directory is
    /// created, and a file is written, or left out where its target exists and is not to be
    /// overwritten.
    pub open spec fn deeds_for(self, members: Seq<Found>, i: int) -> Seq<MemberDeed> {
        match self.goes(members, i) {
            None => seq![],
            Some(target) => if members[i].item.is_dir {
                seq![MemberDeed::MadeDir(target)]
            } else if self.takes(members, i) {
                seq![MemberDeed::Written(i as usize, target)]
            } else {
                seq![MemberDeed::Spared(target)]
            },
        }
    }

    /// What is done to the members from `i` on, in order.
    pub open spec fn deeds_from(self, members: Seq<Found>, i: int) -> Seq<MemberDeed>
        decreases members.len() - i,
    {
        if i >= members.len() {
            seq![]
        } else {
            self.deeds_for(members, i) + self.deeds_from(members, i + 1)
        }
    }

    /// The bytes that are written once the member at `i` is dealt with, where `bytes` were
    /// before.
    pub open spec fn bytes_with(self, members: Seq<Found>, i: int, bytes: u64) -> u64 {
        if self.takes(members, i) {
            (bytes + members[i].item.size) as u64
        } else {
            bytes
        }
    }

    /// What is told of the member at `i`.
    pub open spec fn messages_for(self, members: Seq<Found>, i: int, bytes: u64) -> Seq<OpMsgView> {
        if self.takes(members, i) {
            seq![
                OpMsgView::Progress {
                    done: (i + 1) as usize,
                    total: self.total,
                    bytes_done: self.bytes_with(members, i, bytes),
                    bytes_total: self.bytes_total,
                },
            ]
        } else if self.goes(members, i) is Some && !members[i].item.is_dir {
            seq![OpMsgView::Skipped]
        } else {
            seq![]
        }
    }

    /// What is told of the members from `i` on, and then the end.
    pub open spec fn messages_from(self, members: Seq<Found>, i: int, bytes: u64) -> Seq<OpMsgView>
        decreases members.len() - i,
    {
        if i >= members.len() {
            seq![OpMsgView::Finished]
        } else {
            self.messages_for(members, i, bytes) + self.messages_from(
                members,
                i + 1,
                self.bytes_with(members, i, bytes),
            )
        }
    }

    /// How many answers the member at `i` takes.
    pub open spec fn answers_for(self, members: Seq<Found>, i: int) -> nat {
        if self.goes(members, i) is None {
            3
        } else if members[i].item.is_dir {
            4
        } else if self.overwrite {
            5
        } else if members[i].exists {
            4
        } else {
            6
        }
    }

    /// How many answers the members from `i` on take.
    pub open spec fn answers_from(self, members: Seq<Found>, i: int) -> nat
        decreases members.len() - i,
    {
        if i >= members.len() {
            0
        } else {
            self.answers_for(members, i) + self.answers_from(members, i + 1)
        }
    }
}

/// What is done and told of members rests on nothing that changes on the way.
proof fn lemma_same_job(a: ExtractView, b: ExtractView, members: Seq<Found>, i: int, bytes: u64)
    requires
        a.internal_dir == b.internal_dir,
        a.names == b.names,
        a.overwrite == b.overwrite,
        a.total == b.total,
        a.bytes_total == b.bytes_total,
    ensures
        a.deeds_from(members, i) == b.deeds_from(members, i),
        a.messages_from(members, i, bytes) == b.messages_from(members, i, bytes),
        a.answers_from(members, i) == b.answers_from(members, i),
    decreases members.len() - i,
{
    if i < members.len() {
        lemma_same_job(a, b, members, i + 1, a.bytes_with(members, i, bytes));
    }
}

/// A run of some answers and then of others is a run of both.
proof fn lemma_runs_join(w: ExtractView, members: Seq<Found>, n: nat, m: nat)
    ensures
        ({
            let (d1, s1, mid) = extracted(w, members, n);
            let (d2, s2, end) = extracted(mid, members, m);
            extracted(w, members, n + m) == (d1 + d2, s1 + s2, end)
        }),
    decreases n,
{
    let (d1, s1, mid) = extracted(w, members, n);
    let (d2, s2, end) = extracted(mid, members, m);
    if n == 0 {
        assert(d1 + d2 =~= d2);
        assert(s1 + s2 =~= s2);
    } else {
        let (next, sent) = w.next(calm_told(w, members));
        lemma_runs_join(next, members, (n - 1) as nat, m);
        let (d0, s0, mid0) = extracted(next, members, (n - 1) as nat);
        assert(d1 + d2 =~= member_deed(w, members) + (d0 + d2));
        assert(s1 + s2 =~= sent + (s0 + s2));
    }
}

/// One member is dealt with.
proof fn lemma_member(w: ExtractView, members: Seq<Found>)
    requires
        w.stage == ExtractStage::Check,
        w.index < w.total,
        w.total == members.len(),
    ensures
        ({
            let i = w.index as int;
            let (deeds, sent, end) = extracted(w, members, w.answers_for(members, i));
            let bytes = w.bytes_with(members, i, w.bytes_done);
            let last = i + 1 == w.total;
            &&& deeds == w.deeds_for(members, i)
            &&& sent == w.messages_for(members, i, w.bytes_done) + if last {
                seq![OpMsgView::Finished]
            } else {
                seq![]
            }
            &&& end == (ExtractView {
                index: if last {
                    w.index
                } else {
                    (i + 1) as usize
                },
                bytes_done: bytes,
                stage: if last {
                    ExtractStage::Ended
                } else {
                    ExtractStage::Check
                },
                target: end.target,
                size: end.size,
                ..w
            })
        }),
{
    reveal_with_fuel(extracted, 7);
    let i = w.index as int;
    let (deeds, sent, end) = extracted(w, members, w.answers_for(members, i));
    assert(deeds =~= w.deeds_for(members, i));
    assert(sent =~= w.messages_for(members, i, w.bytes_done) + if i + 1 == w.total {
        seq![OpMsgView::Finished]
    } else {
        seq![]
    });
}

proof fn lemma_extracted(w: ExtractView, members: Seq<Found>)
    requires
        w.stage == ExtractStage::Check,
        w.index < w.total,
        w.total == members.len(),
    ensures
        ({
            let i = w.index as int;
            let (deeds, sent, end) = extracted(w, members, w.answers_from(members, i));
            &&& deeds == w.deeds_from(members, i)
            &&& sent == w.messages_from(members, i, w.bytes_done)
            &&& end.stage == ExtractStage::Ended
            &&& end.error == w.error
        }),
    decreases w.total - w.index,
{
    let i = w.index as int;
    let n = w.answers_for(members, i);
    let m = w.answers_from(members, i + 1);
    let bytes = w.bytes_with(members, i, w.bytes_done);
    lemma_member(w, members);
    lemma_runs_join(w, members, n, m);
    let (d1, s1, mid) = extracted(w, members, n);
    lemma_same_job(w, mid, members, i + 1, bytes);
    if i + 1 < w.total {
        lemma_extracted(mid, members);
    } else {
        assert(m == 0);
        assert(w.deeds_from(members, i + 1) =~= seq![]);
    }
    let (deeds, sent, end) = extracted(w, members, n + m);
    assert(deeds =~= w.deeds_from(members, i));
    assert(sent =~= w.messages_from(members, i, w.bytes_done));
}

/// Where nothing fails, an extraction ends, without an error. Every member that was chosen has
/// then been dealt with, in order: a directory was created, a file was written and told, or it
/// was left out and told so, where its target exists and is not to be overwritten. The others
/// were passed over, and after everything else the end was told, once.
pub proof fn calm_extraction_is_complete(w: ExtractView, members: Seq<Found>)
    requires
        w.stage == ExtractStage::Check,
        w.index == 0,
        w.bytes_done == 0,
        0 < w.total == members.len(),
    ensures
        ({
            let (deeds, sent, end) = extracted(w, members, w.answers_from(members, 0));
            &&& deeds == w.deeds_from(members, 0)
            &&& sent == w.messages_from(members, 0, 0)
            &&& end.ask() == ExtractAsk::End
            &&& end.error == w.error
        }),
{
    lemma_extracted(w, members);
}

/// The end is the last thing that is told of members, and nothing before tells it.
pub proof fn end_is_told_last(w: ExtractView, members: Seq<Found>, i: int, bytes: u64)
    ensures
        ({
            let sent = w.messages_from(members, i, bytes);
            &&& sent.len() > 0
            &&& sent.last() == OpMsgView::Finished
            &&& !sent.drop_last().contains(OpMsgView::Finished)
        }),
    decreases members.len() - i,
{
    let sent = w.messages_from(members, i, bytes);
    if i < members.len() {
        let first = w.messages_for(members, i, bytes);
        let next = w.bytes_with(members, i, bytes);
        let rest = w.messages_from(members, i + 1, next);
        end_is_told_last(w, members, i + 1, next);
        assert(sent.drop_last() =~= first + rest.drop_last());
        if sent.drop_last().contains(OpMsgView::Finished) {
            let k = choose|k: int|
                0 <= k < sent.drop_last().len() && sent.drop_last()[k] == OpMsgView::Finished;
            if k >= first.len() {
                assert(rest.drop_last()[k - first.len()] == OpMsgView::Finished);
            }
        }
    }
}

/// Every chosen member is among those that are dealt with.
pub proof fn chosen_members_are_reached(w: ExtractView, members: Seq<Found>, from: int, i: int)
    requires
        0 <= from <= i < members.len(),
        w.goes(members, i) is Some,
    ensures
        w.deeds_for(members, i).len() == 1,
        w.deeds_from(members, from).contains(w.deeds_for(members, i)[0]),
    decreases i - from,
{
    let all = w.deeds_from(members, from);
    let first = w.deeds_for(members, from);
    let rest = w.deeds_from(members, from + 1);
    if from == i {
        assert(all[0] == first[0]);
    } else {
        chosen_members_are_reached(w, members, from + 1, i);
        let x = w.deeds_for(members, i)[0];
        let k = choose|k: int| 0 <= k < rest.len() && rest[k] == x;
        assert(all[first.len() + k] == x);
    }
}

/// What an extraction does next: the messages to send, then what to do or find out.
#[derive(Debug)]
pub struct ExtractTurn {
    pub send: Vec<OpMsg>,
    pub ask: ExtractAsk,
}

impl Extraction {
    /// The start of an extraction from an archive of `total` members and `bytes_total` bytes.
    pub fn new(
        internal_dir: String,
        names: Vec<String>,
        overwrite: bool,
        total: usize,
        bytes_total: u64,
    ) -> (r: (Extraction, ExtractTurn))
        ensures
            ({
                let start = ExtractView {
                    internal_dir: internal_dir@,
                    names: names.deep_view(),
                    overwrite,
                    total,
                    bytes_total,
                    bytes_done: 0,
                    index: 0,
                    target: seq![],
                    size: 0,
                    error: seq![],
                    stage: ExtractStage::Check,
                };
                (r.0@, r.1.send.deep_view()) == if total > 0 {
                    (start, seq![])
                } else {
                    start.ended(seq![])
                }
            }),
            r.0@.wf(),
            r.1.ask == r.0@.ask(),
    {
        let mut run = Extraction {
            internal_dir,
            names,
            overwrite,
            total,
            bytes_total,
            bytes_done: 0,
            index: 0,
            target: String::new(),
            size: 0,
            error: String::new(),
            stage: ExtractStage::Check,
        };
        let mut send: Vec<OpMsg> = Vec::new();
        let ghost start = run@;
        if total == 0 {
            run.stage = ExtractStage::Ended;
            send.push(OpMsg::Finished);
            assert(send.deep_view() =~= start.ended(seq![]).1);
        } else {
            assert(send.deep_view() =~= seq![]);
        }
        let ask = run.ask();
        (run, ExtractTurn { send, ask })
    }

    /// What the extraction asks for.
    pub fn ask(&self) -> (r: ExtractAsk)
        ensures
            r == self@.ask(),
    {
        match self.stage {
            ExtractStage::Check => ExtractAsk::ReadFlag,
            ExtractStage::PauseCheck => ExtractAsk::ReadFlag,
            ExtractStage::Paused => ExtractAsk::Sleep(100),
            ExtractStage::Reading => ExtractAsk::ReadEntry(self.index),
            ExtractStage::MakingDir => ExtractAsk::MakeDir,
            ExtractStage::Probing => ExtractAsk::Probe,
            ExtractStage::MakingParent => ExtractAsk::MakeParent,
            ExtractStage::Writing => ExtractAsk::Write(self.index),
            ExtractStage::ErrorReset => ExtractAsk::ResetAnswer,
            ExtractStage::ErrorSleep => ExtractAsk::Sleep(50),
            ExtractStage::ErrorAnswer => ExtractAsk::ReadAnswer,
            ExtractStage::Stopping => ExtractAsk::SetStop,
            ExtractStage::Ended => ExtractAsk::End,
        }
    }

    /// Whether the bytes of the current member can be added to the sum.
    pub fn can_add(&self) -> (r: bool)
        ensures
            r == self@.sum_fits(),
    {
        self.size <= u64::MAX - self.bytes_done
    }

    fn end(&mut self, send: &mut Vec<OpMsg>)
        ensures
            (final(self)@, final(send).deep_view()) == old(self)@.ended(old(send).deep_view()),
    {
        self.stage = ExtractStage::Ended;
        send.push(OpMsg::Finished);
        assert(send.deep_view() =~= old(send).deep_view().push(OpMsgView::Finished));
    }

    fn advance(&mut self, send: &mut Vec<OpMsg>)
        requires
            old(self).index < old(self).total,
        ensures
            (final(self)@, final(send).deep_view()) == old(self)@.advanced(old(send).deep_view()),
    {
        if self.index + 1 < self.total {
            self.index = self.index + 1;
            self.stage = ExtractStage::Check;
        } else {
            self.end(send);
        }
    }

    /// Takes in a reply.
    pub fn step(&mut self, told: ExtractTold) -> (r: ExtractTurn)
        requires
            old(self)@.wf(),
            old(self).stage == ExtractStage::Writing && told@ is Outcome ==> old(self)@.sum_fits(),
        ensures
            final(self)@ == old(self)@.next(told@).0,
            r.send.deep_view() == old(self)@.next(told@).1,
            r.ask == final(self)@.ask(),
            final(self)@.wf(),
    {
        let mut send: Vec<OpMsg> = Vec::new();
        assert(send.deep_view() =~= seq![]);
        match (self.stage, told) {
            (ExtractStage::Check, ExtractTold::Flag(f)) => {
                if f == OP_STOP {
                    self.end(&mut send);
                } else {
                    self.stage = ExtractStage::PauseCheck;
                }
            },
            (ExtractStage::PauseCheck, ExtractTold::Flag(f)) => {
                self.stage = if f == OP_PAUSE {
                    ExtractStage::Paused
                } else {
                    ExtractStage::Reading
                };
            },
            (ExtractStage::Paused, ExtractTold::Done) => {
                self.stage = ExtractStage::PauseCheck;
            },
            (ExtractStage::Reading, ExtractTold::Entry(Err(e))) => {
                send.push(OpMsg::Error(e));
                assert(send.deep_view() =~= seq![OpMsgView::Error(e@)]);
                self.advance(&mut send);
            },
            (ExtractStage::Reading, ExtractTold::Entry(Ok(item))) => {
                match extract_target(item.name.as_str(), self.internal_dir.as_str(), &self.names) {
                    Some(target) => {
                        self.target = target;
                        self.size = item.size;
                        self.stage = if item.is_dir {
                            ExtractStage::MakingDir
                        } else if !self.overwrite {
                            ExtractStage::Probing
                        } else {
                            ExtractStage::MakingParent
                        };
                    },
                    None => {
                        self.advance(&mut send);
                    },
                }
            },
            (ExtractStage::MakingDir, ExtractTold::Done) => {
                self.advance(&mut send);
            },
            (ExtractStage::Probing, ExtractTold::Yes(exists)) => {
                if exists {
                    send.push(OpMsg::Skipped);
                    assert(send.deep_view() =~= seq![OpMsgView::Skipped]);
                    self.advance(&mut send);
                } else {
                    self.stage = ExtractStage::MakingParent;
                }
            },
            (ExtractStage::MakingParent, ExtractTold::Done) => {
                self.stage = ExtractStage::Writing;
            },
            (ExtractStage::Writing, ExtractTold::Outcome(Ok(_))) => {
                self.bytes_done = self.bytes_done + self.size;
                let msg = OpMsg::Progress {
                    done: self.index + 1,
                    total: self.total,
                    bytes_done: self.bytes_done,
                    bytes_total: self.bytes_total,
                };
                send.push(msg);
                assert(send.deep_view() =~= seq![msg@]);
                self.advance(&mut send);
            },
            (ExtractStage::Writing, ExtractTold::Outcome(Err(e))) => {
                self.error = e;
                self.stage = ExtractStage::ErrorReset;
            },
            (ExtractStage::ErrorReset, ExtractTold::Done) => {
                self.stage = ExtractStage::ErrorSleep;
                let msg = OpMsg::ErrorWait { file: self.target.clone(), error: self.error.clone() };
                send.push(msg);
                assert(send.deep_view() =~= seq![msg@]);
            },
            (ExtractStage::ErrorSleep, ExtractTold::Done) => {
                self.stage = ExtractStage::ErrorAnswer;
            },
            (ExtractStage::ErrorAnswer, ExtractTold::Answer(a)) => {
                if a == ERR_RETRY {
                    self.stage = ExtractStage::MakingParent;
                } else if a == ERR_SKIP {
                    self.advance(&mut send);
                } else if a == ERR_CANCEL {
                    self.stage = ExtractStage::Stopping;
                } else {
                    self.stage = ExtractStage::ErrorSleep;
                }
            },
            (ExtractStage::Stopping, ExtractTold::Done) => {
                self.end(&mut send);
            },
            _ => {},
        }
        proof {
            extraction_stays_wf(old(self)@, told@);
        }
        ExtractTurn { send, ask: self.ask() }
    }
}

// ---------------------------------------------------------------------------
// Packing
// ---------------------------------------------------------------------------

/// Where packing stands.
#[derive(Clone, Copy, Debug, PartialEq, Eq, Structural)]
pub enum PackStage {
    Creating,
    Check,
    Kind,
    AddingTree,
    AddingFile,
    Finishing,
    Ended,
}

/// What packing asks for.
#[derive(Clone, Copy, Debug, PartialEq, Eq, Structural)]
pub enum PackAsk {
    /// To create the archive.
    Create,
    /// The flag of the operation.
    ReadFlag,
    /// Whether the file at a position is a directory.
    IsDir(usize),
    /// To add the directory at a position with everything in it.
    AddTree(usize),
    /// To add the file at a position under its own name.
    AddFile(usize),
    /// To complete the archive.
    Finish,
    /// Nothing: packing is done.
    End,
}

/// What packing is told in reply.
#[derive(Debug)]
pub enum PackTold {
    Flag(u8),
    Yes(bool),
    Outcome(Result<(), String>),
}

/// What a reply is.
#[verifier::ext_equal]
pub enum PackToldView {
    Flag(u8),
    Yes(bool),
    Outcome(Result<(), Seq<char>>),
}

impl View for PackTold {
    type V = PackToldView;

    open spec fn view(&self) -> PackToldView {
        match *self {
            PackTold::Flag(f) => PackToldView::Flag(f),
            PackTold::Yes(b) => PackToldView::Yes(b),
            PackTold::Outcome(Ok(())) => PackToldView::Outcome(Ok(())),
            PackTold::Outcome(Err(e)) => PackToldView::Outcome(Err(e@)),
        }
    }
}

/// Packing: how many files there are, and how far it got.
#[derive(Clone, Copy, Debug, PartialEq, Eq, Structural)]
pub struct Packing {
    pub total: usize,
    pub index: usize,
    pub stage: PackStage,
}

impl Packing {
    /// What packing asks for.
    pub open spec fn asked(self) -> PackAsk {
        match self.stage {
            PackStage::Creating => PackAsk::Create,
            PackStage::Check => PackAsk::ReadFlag,
            PackStage::Kind => PackAsk::IsDir(self.index),
            PackStage::AddingTree => PackAsk::AddTree(self.index),
            PackStage::AddingFile => PackAsk::AddFile(self.index),
            PackStage::Finishing => PackAsk::Finish,
            PackStage::Ended => PackAsk::End,
        }
    }

    /// At the file at a position, or at the end where there is none.
    pub open spec fn at_file(self, index: int) -> Packing {
        if index < self.total {
            Packing { total: self.total, index: index as usize, stage: PackStage::Check }
        } else {
            Packing { stage: PackStage::Finishing, ..self }
        }
    }

    /// Packing after an error.
    pub open spec fn failed(self, e: Seq<char>) -> (Packing, Seq<OpMsgView>) {
        (Packing { stage: PackStage::Ended, ..self }, seq![OpMsgView::Error(e)])
    }

    /// Packing after a reply, and the messages that it sends. A reply to another question
    /// than the one asked changes nothing.
    pub open spec fn next(self, told: PackToldView) -> (Packing, Seq<OpMsgView>) {
        match (self.stage, told) {
            (PackStage::Creating, PackToldView::Outcome(r)) => match r {
                Ok(_) => (self.at_file(0), seq![]),
                Err(e) => self.failed(e),
            },
            (PackStage::Check, PackToldView::Flag(f)) => if f == OP_STOP {
                (Packing { stage: PackStage::Finishing, ..self }, seq![])
            } else {
                (
                    Packing { stage: PackStage::Kind, ..self },
                    seq![
                        OpMsgView::Progress {
                            done: self.index,
                            total: self.total,
                            bytes_done: 0,
                            bytes_total: 0,
                        },
                    ],
                )
            },
            (PackStage::Kind, PackToldView::Yes(is_dir)) => if is_dir {
                (Packing { stage: PackStage::AddingTree, ..self }, seq![])
            } else {
                (Packing { stage: PackStage::AddingFile, ..self }, seq![])
            },
            (PackStage::AddingTree, PackToldView::Outcome(r)) => match r {
                Ok(_) => (self.at_file(self.index + 1), seq![]),
                Err(e) => self.failed(e),
            },
            (PackStage::AddingFile, PackToldView::Outcome(r)) => match r {
                Ok(_) => (self.at_file(self.index + 1), seq![]),
                Err(e) => self.failed(e),
            },
            (PackStage::Finishing, PackToldView::Outcome(r)) => match r {
                Ok(_) => (
                    Packing { stage: PackStage::Ended, ..self },
                    seq![OpMsgView::Finished],
                ),
                Err(e) => self.failed(e),
            },
            _ => (self, seq![]),
        }
    }

    /// Whether the file at hand is one of those to be packed.
    pub open spec fn wf(self) -> bool {
        match self.stage {
            PackStage::Check | PackStage::Kind | PackStage::AddingTree | PackStage::AddingFile => {
                self.index < self.total
            },
            _ => true,
        }
    }
}

/// Packing keeps to the files that there are.
pub proof fn packing_stays_wf(p: Packing, told: PackToldView)
    requires
        p.wf(),
    ensures
        p.next(told).0.wf(),
        p.next(told).0.total == p.total,
{
}

/// Packing goes through the files in their order and passes none over: the position only
/// moves on after a file was added, and then by one.
pub proof fn packing_in_order(p: Packing, told: PackToldView)
    requires
        p.wf(),
        p.stage != PackStage::Creating,
        p.next(told).0.index != p.index,
    ensures
        p.next(told).0.index == p.index + 1,
        p.stage == PackStage::AddingTree || p.stage == PackStage::AddingFile,
{
}

/// What packing does next: the messages to send, then what to do or find out.
#[derive(Debug)]
pub struct PackTurn {
    pub send: Vec<OpMsg>,
    pub ask: PackAsk,
}

impl Packing {
    /// The start of packing `total` files.
    pub fn new(total: usize) -> (r: Packing)
        ensures
            r == (Packing { total, index: 0, stage: PackStage::Creating }),
            r.wf(),
    {
        Packing { total, index: 0, stage: PackStage::Creating }
    }

    /// What packing asks for.
    pub fn ask(&self) -> (r: PackAsk)
        ensures
            r == self.asked(),
    {
        match self.stage {
            PackStage::Creating => PackAsk::Create,
            PackStage::Check => PackAsk::ReadFlag,
            PackStage::Kind => PackAsk::IsDir(self.index),
            PackStage::AddingTree => PackAsk::AddTree(self.index),
            PackStage::AddingFile => PackAsk::AddFile(self.index),
            PackStage::Finishing => PackAsk::Finish,
            PackStage::Ended => PackAsk::End,
        }
    }

    fn go_to_file(&mut self, index: usize)
        ensures
            *final(self) == old(self).at_file(index as int),
    {
        if index < self.total {
            self.index = index;
            self.stage = PackStage::Check;
        } else {
            self.stage = PackStage::Finishing;
        }
    }

    /// Takes in a reply.
    pub fn step(&mut self, told: PackTold) -> (r: PackTurn)
        requires
            old(self).wf(),
        ensures
            *final(self) == old(self).next(told@).0,
            r.send.deep_view() == old(self).next(told@).1,
            r.ask == final(self).asked(),
            final(self).wf(),
    {
        let mut send: Vec<OpMsg> = Vec::new();
        match (self.stage, told) {
            (PackStage::Check, PackTold::Flag(f)) => {
                if f == OP_STOP {
                    self.stage = PackStage::Finishing;
                } else {
                    send.push(
                        OpMsg::Progress {
                            done: self.index,
                            total: self.total,
                            bytes_done: 0,
                            bytes_total: 0,
                        },
                    );
                    self.stage = PackStage::Kind;
                }
            },
            (PackStage::Kind, PackTold::Yes(is_dir)) => {
                self.stage = if is_dir {
                    PackStage::AddingTree
                } else {
                    PackStage::AddingFile
                };
            },
            (PackStage::Creating, PackTold::Outcome(r)) => {
                match r {
                    Ok(_) => {
                        self.go_to_file(0);
                    },
                    Err(e) => {
                        self.stage = PackStage::Ended;
                        send.push(OpMsg::Error(e));
                    },
                }
            },
            (PackStage::AddingTree, PackTold::Outcome(r)) => {
                match r {
                    Ok(_) => {
                        self.go_to_file(self.index + 1);
                    },
                    Err(e) => {
                        self.stage = PackStage::Ended;
                        send.push(OpMsg::Error(e));
                    },
                }
            },
            (PackStage::AddingFile, PackTold::Outcome(r)) => {
                match r {
                    Ok(_) => {
                        self.go_to_file(self.index + 1);
                    },
                    Err(e) => {
                        self.stage = PackStage::Ended;
                        send.push(OpMsg::Error(e));
                    },
                }
            },
            (PackStage::Finishing, PackTold::Outcome(r)) => {
                self.stage = PackStage::Ended;
                match r {
                    Ok(_) => {
                        send.push(OpMsg::Finished);
                    },
                    Err(e) => {
                        send.push(OpMsg::Error(e));
                    },
                }
            },
            _ => {},
        }
        assert(send.deep_view() =~= old(self).next(told@).1);
        PackTurn { send, ask: self.ask() }
    }
}

/// The name of a member for a path below the packed directory.
pub fn zip_member_name(relative: &str) -> (r: String)
    ensures
        r@ == text::char_replaced(relative@, '\\', '/'),
{
    text::replace_char(relative, '\\', '/')
}

/// The name of an archive that is to hold files: that of the single file without its
/// extension, a common one for several.
pub open spec fn suggested_name(files: Seq<PathView>) -> Seq<char> {
    if files.len() == 1 {
        match files[0].name() {
            Some(name) => crate::entry::stem(name) + ".zip"@,
            None => seq![] + ".zip"@,
        }
    } else {
        "archiv.zip"@
    }
}

/// The name of an archive as it was typed in: blanks around it are dropped, an ending is
/// added, and an empty name gets the common one.
pub open spec fn archive_name(typed: Seq<char>) -> Seq<char> {
    let name = text::trimmed(typed);
    if name.len() == 0 {
        "archiv.zip"@
    } else if text::ends_with(name, ".zip"@) {
        name
    } else {
        name + ".zip"@
    }
}

/// Every archive that is created has the ending of an archive.
pub proof fn archive_name_ends_in_zip(typed: Seq<char>)
    ensures
        text::ends_with(archive_name(typed), ".zip"@),
{
    reveal_strlit(".zip");
    reveal_strlit("archiv.zip");
    let name = text::trimmed(typed);
    let n = name + ".zip"@;
    assert(n.subrange(n.len() - 4, n.len() as int) == ".zip"@);
    assert("archiv.zip"@.subrange(6, 10) =~= ".zip"@);
}

/// The name of an archive that is to hold files.
pub fn suggest_name(files: &Vec<DirPath>) -> (r: String)
    ensures
        r@ == suggested_name(files.deep_view()),
{
    assert(files.deep_view().len() == files.len());
    if files.len() == 1 {
        assert(files.deep_view()[0] == files[0]@);
        let mut s = match files[0].file_name() {
            Some(name) => crate::entry::stem_of(name.as_str()),
            None => String::new(),
        };
        s.append(".zip");
        s
    } else {
        "archiv.zip".to_owned()
    }
}

/// The name of an archive as it was typed in.
pub fn complete_name(typed: &str) -> (r: String)
    ensures
        r@ == archive_name(typed@),
{
    let mut name = text::trim(typed);
    if name.as_str().unicode_len() == 0 {
        "archiv.zip".to_owned()
    } else if text::ends(name.as_str(), ".zip") {
        name
    } else {
        name.append(".zip");
        name
    }
}

/// A member is taken out exactly where its name, with `/` between names, is the directory and
/// something more, and that is a chosen name or lies below one; it goes to where that says.
pub proof fn chosen_is_taken_out(
    name: Seq<char>,
    full: Seq<char>,
    dir: Seq<char>,
    names: Seq<Seq<char>>,
    rest: Seq<char>,
)
    requires
        full.len() == name.len(),
        forall|i: int|
            0 <= i < name.len() ==> #[trigger] full[i] == (if name[i] == '\\' {
                '/'
            } else {
                name[i]
            }),
    ensures
        target_of(name, dir, names) == Some(rest) <==> {
            &&& rest.len() > 0
            &&& full == dir + rest
            &&& exists|k: int|
                0 <= k < names.len() && (rest == #[trigger] names[k] || exists|t: Seq<char>|
                    rest == #[trigger] (names[k] + seq!['/'] + t))
        },
{
    assert(text::char_replaced(name, '\\', '/') =~= full);
    text::stripped_is_the_rest(full, dir, rest);
    reveal_strlit("/");
    assert("/"@ =~= seq!['/']);
    if chosen(rest, names) {
        let k = choose|k: int|
            0 <= k < names.len() && (rest == #[trigger] names[k] || text::begins_with(
                rest,
                names[k] + "/"@,
            ));
        if rest != names[k] {
            text::begins_by_parting(rest, names[k] + "/"@);
            let t = choose|t: Seq<char>| rest == #[trigger] ((names[k] + "/"@) + t);
            assert(rest == names[k] + seq!['/'] + t);
        }
    }
    if exists|k: int|
        0 <= k < names.len() && (rest == #[trigger] names[k] || exists|t: Seq<char>|
            rest == #[trigger] (names[k] + seq!['/'] + t)) {
        let k = choose|k: int|
            0 <= k < names.len() && (rest == #[trigger] names[k] || exists|t: Seq<char>|
                rest == #[trigger] (names[k] + seq!['/'] + t));
        if rest != names[k] {
            let t = choose|t: Seq<char>| rest == #[trigger] (names[k] + seq!['/'] + t);
            assert(rest == (names[k] + "/"@) + t);
            text::begins_by_parting(rest, names[k] + "/"@);
        }
        assert(chosen(rest, names));
    }
    match text::stripped(full, dir) {
        Some(r) => {
            text::stripped_is_the_rest(full, dir, r);
        },
        None => {},
    }
}

/// Every member below a chosen directory is taken out, however deep it lies.
pub proof fn all_below_is_taken_out(
    dir: Seq<char>,
    names: Seq<Seq<char>>,
    k: int,
    below: Seq<char>,
)
    requires
        0 <= k < names.len(),
        names[k].len() > 0,
        !dir.contains('\\'),
        !names[k].contains('\\'),
        !below.contains('\\'),
    ensures
        target_of(dir + names[k], dir, names) == Some(names[k]),
        target_of(dir + (names[k] + seq!['/'] + below), dir, names) == Some(
            names[k] + seq!['/'] + below,
        ),
{
    let one = dir + names[k];
    let rest = names[k] + seq!['/'] + below;
    let two = dir + rest;
    assert forall|i: int| 0 <= i < one.len() implies one[i] != '\\' by {
        if i < dir.len() {
            assert(dir[i] == one[i]);
        } else {
            assert(names[k][i - dir.len()] == one[i]);
        }
    }
    assert forall|i: int| 0 <= i < two.len() implies two[i] != '\\' by {
        if i < dir.len() {
            assert(dir[i] == two[i]);
        } else if i < dir.len() + names[k].len() {
            assert(names[k][i - dir.len()] == two[i]);
        } else if i > dir.len() + names[k].len() {
            assert(below[i - dir.len() - names[k].len() - 1] == two[i]);
        }
    }
    chosen_is_taken_out(one, one, dir, names, names[k]);
    chosen_is_taken_out(two, two, dir, names, rest);
}

/// A pause only delays an extraction: asked to pause, it sleeps and then stands where it stood,
/// with nothing sent and nothing done.
pub proof fn extraction_pause_only_delays(w: ExtractView)
    requires
        w.stage == ExtractStage::PauseCheck,
    ensures
        ({
            let (p, sent) = w.next(ExtractToldView::Flag(crate::file_op::OP_PAUSE));
            &&& sent == Seq::<OpMsgView>::empty()
            &&& p.ask() is Sleep
            &&& p.next(ExtractToldView::Done) == (w, Seq::<OpMsgView>::empty())
        }),
{
}

/// A flag that asks neither to stop nor to pause is no other than the flag to run.
pub proof fn extraction_flag_runs(w: ExtractView, f: u8)
    requires
        f != OP_STOP,
        f != crate::file_op::OP_PAUSE,
    ensures
        w.next(ExtractToldView::Flag(f)) == w.next(
            ExtractToldView::Flag(crate::file_op::OP_RUN),
        ),
{
}

/// A member is written only once the directory for it was made, also when writing is tried anew.
pub proof fn extraction_makes_the_parent(w: ExtractView, told: ExtractToldView)
    requires
        w.stage != ExtractStage::Writing,
        w.next(told).0.stage == ExtractStage::Writing,
    ensures
        w.ask() == ExtractAsk::MakeParent,
        told == ExtractToldView::Done,
        w.next(told).0.target == w.target,
        w.next(told).0.index == w.index,
{
}

/// A member that cannot be read is told as an error, and the extraction goes on with the next
/// one; behind the last one it ends.
pub proof fn extraction_goes_on_after_unreadable(w: ExtractView, e: Seq<char>)
    requires
        w.stage == ExtractStage::Reading,
    ensures
        ({
            let (a, sent) = w.next(ExtractToldView::Entry(Err(e)));
            &&& w.index + 1 < w.total ==> {
                &&& sent == seq![OpMsgView::Error(e)]
                &&& a.index == w.index + 1
                &&& a.ask() == ExtractAsk::ReadFlag
            }
            &&& w.index + 1 >= w.total ==> {
                &&& sent == seq![OpMsgView::Error(e), OpMsgView::Finished]
                &&& a.ask() == ExtractAsk::End
            }
        }),
{
    let (a, sent) = w.next(ExtractToldView::Entry(Err(e)));
    assert(seq![OpMsgView::Error(e)].push(OpMsgView::Finished) =~= seq![
        OpMsgView::Error(e),
        OpMsgView::Finished,
    ]);
}

/// Where writing a member fails, its name and the error are told, and an answer is awaited; with
/// the answer to try again, the same member is written anew, its directory first.
pub proof fn extraction_tells_failure(w: ExtractView, e: Seq<char>)
    requires
        w.stage == ExtractStage::Writing,
    ensures
        ({
            let (a, sent_a) = w.next(ExtractToldView::Outcome(Err(e)));
            let (b, sent_b) = a.next(ExtractToldView::Done);
            let (c, sent_c) = b.next(ExtractToldView::Done);
            let (d, sent_d) = c.next(ExtractToldView::Answer(ERR_RETRY));
            let (f, sent_f) = d.next(ExtractToldView::Done);
            &&& a.ask() == ExtractAsk::ResetAnswer
            &&& b.ask() is Sleep
            &&& c.ask() == ExtractAsk::ReadAnswer
            &&& d.ask() == ExtractAsk::MakeParent
            &&& f.ask() == ExtractAsk::Write(w.index)
            &&& f.target == w.target
            &&& f.bytes_done == w.bytes_done
            &&& sent_a == Seq::<OpMsgView>::empty()
            &&& sent_b == seq![OpMsgView::ErrorWait { file: w.target, error: e }]
            &&& sent_c == Seq::<OpMsgView>::empty()
            &&& sent_d == Seq::<OpMsgView>::empty()
        }),
{
}

/// Giving up stops the operation and ends the extraction, which is told; leaving a member out
/// goes on with the next one.
pub proof fn extraction_gives_up(w: ExtractView)
    requires
        w.stage == ExtractStage::ErrorAnswer,
    ensures
        ({
            let (a, sent_a) = w.next(ExtractToldView::Answer(ERR_CANCEL));
            let (b, sent_b) = a.next(ExtractToldView::Done);
            &&& a.ask() == ExtractAsk::SetStop
            &&& sent_a == Seq::<OpMsgView>::empty()
            &&& b.ask() == ExtractAsk::End
            &&& sent_b == seq![OpMsgView::Finished]
        }),
        w.index + 1 < w.total ==> {
            let (a, sent) = w.next(ExtractToldView::Answer(ERR_SKIP));
            a.index == w.index + 1 && a.ask() == ExtractAsk::ReadFlag && sent == Seq::<
                OpMsgView,
            >::empty()
        },
{
    assert(Seq::<OpMsgView>::empty().push(OpMsgView::Finished) =~= seq![OpMsgView::Finished]);
}

/// A stopped extraction takes no further member out.
pub proof fn extraction_heeds_stop(w: ExtractView)
    requires
        w.stage == ExtractStage::Check,
    ensures
        w.next(ExtractToldView::Flag(OP_STOP)).0.ask() == ExtractAsk::End,
        w.next(ExtractToldView::Flag(OP_STOP)).1 == seq![OpMsgView::Finished],
{
    assert(Seq::<OpMsgView>::empty().push(OpMsgView::Finished) =~= seq![OpMsgView::Finished]);
}

/// What packing is told where nothing fails, and where `kinds[i]` says whether the file at `i` is
/// a directory.
pub open spec fn pack_told(p: Packing, kinds: Seq<bool>) -> PackToldView {
    match p.asked() {
        PackAsk::ReadFlag => PackToldView::Flag(OP_RUN),
        PackAsk::IsDir(i) => PackToldView::Yes(kinds[i as int]),
        _ => PackToldView::Outcome(Ok(())),
    }
}

/// What packing does and sends in the given number of answers, and where it then stands.
pub open spec fn packed(p: Packing, kinds: Seq<bool>, n: nat) -> (
    Seq<PackAsk>,
    Seq<OpMsgView>,
    Packing,
)
    decreases n,
{
    if n == 0 {
        (seq![], seq![], p)
    } else {
        let (next, sent) = p.next(pack_told(p, kinds));
        let (asks, rest, end) = packed(next, kinds, (n - 1) as nat);
        (seq![p.asked()] + asks, sent + rest, end)
    }
}

/// What packing does with the files from `i` on.
pub open spec fn packing_from(kinds: Seq<bool>, i: int) -> Seq<PackAsk>
    decreases kinds.len() - i,
{
    if i >= kinds.len() {
        seq![PackAsk::Finish]
    } else {
        seq![
            PackAsk::ReadFlag,
            PackAsk::IsDir(i as usize),
            if kinds[i] {
                PackAsk::AddTree(i as usize)
            } else {
                PackAsk::AddFile(i as usize)
            },
        ] + packing_from(kinds, i + 1)
    }
}

/// What packing tells of the files from `i` on.
pub open spec fn told_from(total: usize, i: int) -> Seq<OpMsgView>
    decreases total - i,
{
    if i >= total {
        seq![OpMsgView::Finished]
    } else {
        seq![
            OpMsgView::Progress { done: i as usize, total, bytes_done: 0, bytes_total: 0 },
        ] + told_from(total, i + 1)
    }
}

proof fn lemma_packed(p: Packing, kinds: Seq<bool>, i: int)
    requires
        0 <= i <= p.total,
        p.total == kinds.len(),
        p.stage == PackStage::Check || p.stage == PackStage::Finishing,
        i < p.total ==> p.stage == PackStage::Check && p.index == i,
        i == p.total ==> p.stage == PackStage::Finishing,
    ensures
        ({
            let (asks, sent, end) = packed(p, kinds, (3 * (p.total - i) + 1) as nat);
            &&& asks == packing_from(kinds, i)
            &&& sent == told_from(p.total, i)
            &&& end.asked() == PackAsk::End
        }),
    decreases p.total - i,
{
    reveal_with_fuel(packed, 5);
    if i < p.total {
        let a = p.next(pack_told(p, kinds)).0;
        let b = a.next(pack_told(a, kinds)).0;
        let c = b.next(pack_told(b, kinds)).0;
        lemma_packed(c, kinds, i + 1);
        let n: nat = (3 * (p.total - i) + 1) as nat;
        let m: nat = (3 * (p.total - (i + 1)) + 1) as nat;
        assert(m == n - 3);
        let (asks, sent, end) = packed(c, kinds, m);
        let (asks_b, sent_b, end_b) = packed(b, kinds, m + 1);
        let (asks_a, sent_a, end_a) = packed(a, kinds, m + 2);
        let (asks_p, sent_p, end_p) = packed(p, kinds, n);
        assert(asks_b == seq![b.asked()] + asks);
        assert(asks_a == seq![a.asked()] + asks_b);
        assert(asks_p == seq![p.asked()] + asks_a);
        assert(asks_p =~= packing_from(kinds, i));
        assert(sent_p =~= told_from(p.total, i));
    } else {
        let (asks, sent, end) = packed(p, kinds, 1);
        assert(asks =~= seq![PackAsk::Finish]);
        assert(sent =~= seq![OpMsgView::Finished]);
    }
}

/// Where nothing fails, packing creates the archive, adds every file once and in order, a
/// directory with all that is in it, completes the archive and tells the end.
pub proof fn calm_packing_is_complete(p: Packing, kinds: Seq<bool>)
    requires
        p.stage == PackStage::Creating,
        p.total == kinds.len(),
    ensures
        ({
            let (asks, sent, end) = packed(p, kinds, (3 * p.total + 2) as nat);
            &&& asks == seq![PackAsk::Create] + packing_from(kinds, 0)
            &&& sent == told_from(p.total, 0)
            &&& end.asked() == PackAsk::End
        }),
{
    let a = p.next(pack_told(p, kinds)).0;
    lemma_packed(a, kinds, 0);
    let (asks, sent, end) = packed(a, kinds, (3 * p.total + 1) as nat);
    assert(packed(p, kinds, (3 * p.total + 2) as nat).1 =~= sent);
}

/// A failure ends packing and is told; a stop completes the archive with what is in it.
pub proof fn packing_tells_failure(p: Packing, e: Seq<char>)
    ensures
        p.asked() == PackAsk::Create || p.asked() is AddTree || p.asked() is AddFile || p.asked()
            == PackAsk::Finish ==> {
            let (after, sent) = p.next(PackToldView::Outcome(Err(e)));
            after.asked() == PackAsk::End && sent == seq![OpMsgView::Error(e)]
        },
        p.asked() == PackAsk::ReadFlag ==> {
            let (after, sent) = p.next(PackToldView::Flag(OP_STOP));
            after.asked() == PackAsk::Finish && sent == Seq::<OpMsgView>::empty()
        },
{
}

/// An archive gets the name that was typed, without blanks around it, and the ending of an
/// archive where it lacks it; without a name it gets the common one.
pub proof fn typed_archive_names(typed: Seq<char>, stem: Seq<char>)
    ensures
        text::trimmed(typed) == stem + ".zip"@ ==> archive_name(typed) == stem + ".zip"@,
        text::trimmed(typed).len() == 0 ==> archive_name(typed) == "archiv.zip"@,
        text::trimmed(typed) == stem && stem.len() > 0 && !(exists|a: Seq<char>|
            stem == #[trigger] (a + ".zip"@)) ==> archive_name(typed) == stem + ".zip"@,
{
    reveal_strlit(".zip");
    text::ends_by_parting(text::trimmed(typed), ".zip"@);
}

/// The name that is offered for an archive is that of the one file, with the ending of an
/// archive in place of its own; for several files it is the common one.
pub proof fn offered_archive_names(files: Seq<PathView>, stem: Seq<char>, ending: Seq<char>)
    ensures
        files.len() != 1 ==> suggested_name(files) == "archiv.zip"@,
        files.len() == 1 && files[0].name() == Some(stem + seq!['.'] + ending) && stem.len() > 0
            && !ending.contains('.') && stem + seq!['.'] + ending != ".."@ ==> suggested_name(
            files,
        ) == stem + ".zip"@,
        files.len() == 1 && files[0].name() == Some(stem) && !stem.contains('.') ==> suggested_name(
            files,
        ) == stem + ".zip"@,
{
    if !ending.contains('.') {
        crate::entry::ending_behind_the_last_point(stem + seq!['.'] + ending, stem, ending);
    }
    if !stem.contains('.') {
        crate::entry::ending_behind_the_last_point(stem, stem, stem);
    }
}

/// Whether a reply is one to what the extraction asked.
pub open spec fn replies_to(ask: ExtractAsk, told: ExtractToldView) -> bool {
    match ask {
        ExtractAsk::ReadFlag => told is Flag,
        ExtractAsk::Sleep(_) | ExtractAsk::MakeDir | ExtractAsk::MakeParent
        | ExtractAsk::ResetAnswer | ExtractAsk::SetStop => told is Done,
        ExtractAsk::ReadEntry(_) => told is Entry,
        ExtractAsk::Probe => told is Yes,
        ExtractAsk::Write(_) => told is Outcome,
        ExtractAsk::ReadAnswer => told is Answer,
        ExtractAsk::End => false,
    }
}

/// A reply to something else than what was asked changes nothing and sends nothing.
pub proof fn extraction_takes_only_replies(w: ExtractView, told: ExtractToldView)
    requires
        !replies_to(w.ask(), told),
    ensures
        w.next(told) == (w, Seq::<OpMsgView>::empty()),
{
}

/// Any answer to an error but the three that decide is none yet: the extraction waits on.
pub proof fn extraction_waits_for_an_answer(w: ExtractView, a: u8)
    requires
        w.stage == ExtractStage::ErrorAnswer,
        a != ERR_RETRY,
        a != ERR_SKIP,
        a != ERR_CANCEL,
    ensures
        ({
            let (b, sent) = w.next(ExtractToldView::Answer(a));
            &&& b.ask() is Sleep
            &&& sent == Seq::<OpMsgView>::empty()
            &&& b.next(ExtractToldView::Done) == (w, Seq::<OpMsgView>::empty())
        }),
{
}

/// Packing goes on whatever the flag says, unless it says to stop; a reply to something else
/// than what was asked changes nothing.
pub proof fn packing_takes_only_replies(p: Packing, told: PackToldView, f: u8)
    ensures
        f != OP_STOP ==> p.next(PackToldView::Flag(f)) == p.next(PackToldView::Flag(OP_RUN)),
        p.asked() == PackAsk::ReadFlag && !(told is Flag) ==> p.next(told) == (p, Seq::<
            OpMsgView,
        >::empty()),
        p.asked() is IsDir && !(told is Yes) ==> p.next(told) == (p, Seq::<OpMsgView>::empty()),
        (p.asked() == PackAsk::Create || p.asked() is AddTree || p.asked() is AddFile || p.asked()
            == PackAsk::Finish) && !(told is Outcome) ==> p.next(told) == (p, Seq::<
            OpMsgView,
        >::empty()),
        p.asked() == PackAsk::End ==> p.next(told) == (p, Seq::<OpMsgView>::empty()),
{
}

} // verus!
