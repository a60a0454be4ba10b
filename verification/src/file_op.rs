//! Copying, moving and deleting files in the background: what a worker does with one file,
//! the messages that it sends, and what the progress window makes of them.

use crate::path::{DirPath, PathView};
use crate::text;
use vstd::prelude::*;

verus! {

broadcast use vstd::string::group_string_axioms;

/// The flag of a running operation.
pub const OP_RUN: u8 = 0;

/// The flag of a paused operation.
pub const OP_PAUSE: u8 = 1;

/// The flag of an operation that is to stop.
pub const OP_STOP: u8 = 2;

/// No answer to an error yet.
pub const ERR_WAIT: u8 = 0;

/// The answer to an error: try again.
pub const ERR_RETRY: u8 = 1;

/// The answer to an error: leave the file out.
pub const ERR_SKIP: u8 = 2;

/// The answer to an error: give the operation up.
pub const ERR_CANCEL: u8 = 3;

/// How many files are worked on at once, at most.
pub const MAX_SLOTS: usize = 4;

/// What is done with files.
#[derive(Clone, Copy, Debug, PartialEq, Eq, Structural)]
pub enum OpKind {
    Copy,
    Move,
    Delete,
}

/// A message from a background operation.
#[derive(Debug)]
pub enum OpMsg {
    /// A worker has started with a file.
    SlotStart { thread_id: usize, file: String, file_size: u64 },
    /// A worker has copied some more bytes of its file.
    SlotProgress { thread_id: usize, bytes_copied: u64 },
    /// A worker is done with its file.
    SlotDone { thread_id: usize },
    /// The state of the operation as a whole.
    Progress { done: usize, total: usize, bytes_done: u64, bytes_total: u64 },
    /// A file was left out because its target exists.
    Skipped,
    /// The operation has ended.
    Finished,
    /// The operation has failed.
    Error(String),
    /// A file could not be worked on: the operation waits for an answer.
    ErrorWait { file: String, error: String },
}

/// What a message is.
#[verifier::ext_equal]
pub enum OpMsgView {
    SlotStart { thread_id: usize, file: Seq<char>, file_size: u64 },
    SlotProgress { thread_id: usize, bytes_copied: u64 },
    SlotDone { thread_id: usize },
    Progress { done: usize, total: usize, bytes_done: u64, bytes_total: u64 },
    Skipped,
    Finished,
    Error(Seq<char>),
    ErrorWait { file: Seq<char>, error: Seq<char> },
}

impl View for OpMsg {
    type V = OpMsgView;

    open spec fn view(&self) -> OpMsgView {
        match *self {
            OpMsg::SlotStart { thread_id, file, file_size } => OpMsgView::SlotStart {
                thread_id,
                file: file@,
                file_size,
            },
            OpMsg::SlotProgress { thread_id, bytes_copied } => OpMsgView::SlotProgress {
                thread_id,
                bytes_copied,
            },
            OpMsg::SlotDone { thread_id } => OpMsgView::SlotDone { thread_id },
            OpMsg::Progress { done, total, bytes_done, bytes_total } => OpMsgView::Progress {
                done,
                total,
                bytes_done,
                bytes_total,
            },
            OpMsg::Skipped => OpMsgView::Skipped,
            OpMsg::Finished => OpMsgView::Finished,
            OpMsg::Error(e) => OpMsgView::Error(e@),
            OpMsg::ErrorWait { file, error } => OpMsgView::ErrorWait { file: file@, error: error@ },
        }
    }
}

impl DeepView for OpMsg {
    type V = OpMsgView;

    open spec fn deep_view(&self) -> OpMsgView {
        self.view()
    }
}

// ---------------------------------------------------------------------------
// Slots and totals
// ---------------------------------------------------------------------------

/// How many slots an operation on `total` files has.
pub open spec fn slots_for(total: int) -> int {
    if total >= MAX_SLOTS {
        MAX_SLOTS as int
    } else if total < 1 {
        1
    } else {
        total
    }
}

/// How many slots an operation on `total` files has.
pub fn slot_count(total: usize) -> (r: usize)
    ensures
        r == slots_for(total as int),
{
    if total >= MAX_SLOTS {
        MAX_SLOTS
    } else if total < 1 {
        1
    } else {
        total
    }
}

/// The slot of the file at `index`.
pub fn slot_of(index: usize, total: usize) -> (r: usize)
    ensures
        r == index as int % slots_for(total as int),
        r < slots_for(total as int),
{
    let n = slot_count(total);
    index % n
}

/// The sum of sizes.
pub open spec fn sum_of(sizes: Seq<u64>) -> int
    decreases sizes.len(),
{
    if sizes.len() == 0 {
        0
    } else {
        sum_of(sizes.drop_last()) + sizes.last()
    }
}

proof fn lemma_sum_grows(sizes: Seq<u64>, k: int)
    requires
        0 <= k <= sizes.len(),
    ensures
        0 <= sum_of(sizes.take(k)) <= sum_of(sizes),
    decreases sizes.len(),
{
    if k == sizes.len() {
        assert(sizes.take(k) == sizes);
        if k > 0 {
            lemma_sum_grows(sizes.drop_last(), k - 1);
            assert(sizes.drop_last().take(k - 1) == sizes.drop_last());
        }
    } else {
        lemma_sum_grows(sizes.drop_last(), k);
        assert(sizes.drop_last().take(k) == sizes.take(k));
    }
}

/// The sum of sizes, where it can be held.
pub fn sum_sizes(sizes: &Vec<u64>) -> (r: Option<u64>)
    ensures
        r is Some == (sum_of(sizes@) <= u64::MAX),
        r matches Some(n) ==> n == sum_of(sizes@),
{
    let mut sum: u64 = 0;
    let mut i: usize = 0;
    assert(sizes@.take(0) == Seq::<u64>::empty());
    while i < sizes.len()
        invariant
            i <= sizes.len(),
            sum == sum_of(sizes@.take(i as int)),
        decreases sizes.len() - i,
    {
        proof {
            let t = sizes@.take(i + 1);
            assert(t.drop_last() == sizes@.take(i as int));
            assert(t.last() == sizes@[i as int]);
            lemma_sum_grows(sizes@, i + 1);
        }
        if sizes[i] > u64::MAX - sum {
            return None;
        }
        sum = sum + sizes[i];
        i += 1;
    }
    assert(sizes@.take(sizes.len() as int) == sizes@);
    Some(sum)
}

// ---------------------------------------------------------------------------
// Conflicts
// ---------------------------------------------------------------------------

/// The name that a file gets at its target: the new one, where there is one, else its own.
pub open spec fn name_at_target(file: PathView, dst_name: Option<Seq<char>>) -> Option<Seq<char>> {
    match dst_name {
        Some(name) => Some(name),
        None => file.name(),
    }
}

/// The names that files get at their target and that exist there, where `exists[i]` tells it
/// of the target of file `i`; paths without a name are passed over.
pub open spec fn conflicting_files(
    files: Seq<PathView>,
    dst_name: Option<Seq<char>>,
    exists: Seq<bool>,
) -> Seq<Seq<char>>
    decreases files.len(),
{
    if files.len() == 0 {
        seq![]
    } else {
        let front = conflicting_files(files.drop_last(), dst_name, exists);
        match name_at_target(files.last(), dst_name) {
            Some(name) => if exists[files.len() - 1] {
                front.push(name)
            } else {
                front
            },
            None => front,
        }
    }
}

/// The names for which the target exists, where `exists[i]` tells it of the target of name
/// `i`.
pub open spec fn conflicting_names(names: Seq<Seq<char>>, exists: Seq<bool>) -> Seq<Seq<char>>
    decreases names.len(),
{
    if names.len() == 0 {
        seq![]
    } else {
        let front = conflicting_names(names.drop_last(), exists);
        if exists[names.len() - 1] {
            front.push(names.last())
        } else {
            front
        }
    }
}

/// The name that a file gets at its target.
pub fn target_name_of(file: &DirPath, dst_name: &Option<String>) -> (r: Option<String>)
    ensures
        r.deep_view() == name_at_target(file@, dst_name.deep_view()),
{
    match dst_name {
        Some(name) => Some(name.clone()),
        None => file.file_name(),
    }
}

/// The names under which files would overwrite something at their target. `exists` holds, for
/// each file, whether the target directory has something of the name that the file gets there.
pub fn paths_conflicting(
    files: &Vec<DirPath>,
    dst_name: &Option<String>,
    exists: &Vec<bool>,
) -> (r: Vec<String>)
    requires
        exists.len() == files.len(),
    ensures
        r.deep_view() == conflicting_files(files.deep_view(), dst_name.deep_view(), exists@),
{
    let ghost all = files.deep_view();
    let ghost new_name = dst_name.deep_view();
    let mut out: Vec<String> = Vec::new();
    let mut i: usize = 0;
    assert(all.take(0) == Seq::<PathView>::empty());
    assert(out.deep_view() =~= conflicting_files(all.take(0), new_name, exists@));
    while i < files.len()
        invariant
            i <= files.len(),
            exists.len() == files.len(),
            all == files.deep_view(),
            new_name == dst_name.deep_view(),
            out.deep_view() == conflicting_files(all.take(i as int), new_name, exists@),
        decreases files.len() - i,
    {
        let ghost before = out.deep_view();
        proof {
            assert(all.take(i + 1).drop_last() == all.take(i as int));
            assert(all.take(i + 1).last() == files[i as int]@);
        }
        match target_name_of(&files[i], dst_name) {
            Some(name) => {
                if exists[i] {
                    out.push(name);
                    assert(out.deep_view() =~= before.push(name@));
                }
            },
            None => {},
        }
        i += 1;
    }
    assert(all.take(all.len() as int) == all);
    out
}

/// The names that would overwrite something at their target. `exists` holds, for each name,
/// whether the target directory has something of it.
pub fn names_conflicting(names: &Vec<String>, exists: &Vec<bool>) -> (r: Vec<String>)
    requires
        exists.len() == names.len(),
    ensures
        r.deep_view() == conflicting_names(names.deep_view(), exists@),
{
    let ghost all = names.deep_view();
    let mut out: Vec<String> = Vec::new();
    let mut i: usize = 0;
    assert(all.take(0) == Seq::<Seq<char>>::empty());
    assert(out.deep_view() =~= conflicting_names(all.take(0), exists@));
    while i < names.len()
        invariant
            i <= names.len(),
            exists.len() == names.len(),
            all == names.deep_view(),
            out.deep_view() == conflicting_names(all.take(i as int), exists@),
        decreases names.len() - i,
    {
        let ghost before = out.deep_view();
        proof {
            assert(all.take(i + 1).drop_last() == all.take(i as int));
            assert(all.take(i + 1).last() == names[i as int]@);
        }
        if exists[i] {
            out.push(names[i].clone());
            assert(out.deep_view() =~= before.push(names[i as int]@));
        }
        i += 1;
    }
    assert(all.take(all.len() as int) == all);
    out
}

/// Nothing conflicts exactly where no name has something at its target.
pub proof fn no_conflicting_names(names: Seq<Seq<char>>, exists: Seq<bool>)
    requires
        exists.len() >= names.len(),
    ensures
        conflicting_names(names, exists).len() == 0 <==> forall|i: int|
            0 <= i < names.len() ==> !#[trigger] exists[i],
    decreases names.len(),
{
    if names.len() > 0 {
        no_conflicting_names(names.drop_last(), exists);
    }
}

// ---------------------------------------------------------------------------
// The worker
// ---------------------------------------------------------------------------

/// Where a worker stands with its file.
#[derive(Clone, Copy, Debug, PartialEq, Eq, Structural)]
pub enum Stage {
    FirstCheck,
    PauseCheck,
    Paused,
    LastCheck,
    Measuring,
    Probing,
    CopyKind,
    CopyTree,
    Opening { moving: bool },
    StreamCheck { moving: bool },
    StreamPauseCheck { moving: bool },
    StreamPaused { moving: bool },
    Reading { moving: bool },
    Writing { moving: bool, n: u64 },
    Adding { moving: bool, n: u64 },
    Renaming,
    RenameAdding,
    MoveKind,
    MoveTree,
    RemovingTree,
    RemovingFile,
    DeleteKind,
    DeletingTree,
    DeletingFile,
    Counting,
    ErrorReset,
    ErrorSleep,
    ErrorAnswer,
    Stopping,
    Ended,
}

/// What a worker asks for.
#[derive(Clone, Copy, Debug, PartialEq, Eq, Structural)]
pub enum Ask {
    /// The flag of the operation.
    ReadFlag,
    /// To wait for some milliseconds.
    Sleep(u64),
    /// The size of the source, zero where it is no file.
    Measure,
    /// Whether something exists at the target.
    Probe,
    /// Whether the source is a directory.
    IsDir,
    /// To copy the source, a directory, to the target.
    CopyTree,
    /// To open the source and create the target.
    Open,
    /// To read the next bytes of the source.
    Read,
    /// To write the bytes that were read to the target.
    Write(u64),
    /// To add bytes to the total, and the totals after that.
    AddBytes(u64),
    /// To rename the source to the target.
    Rename,
    /// To remove the source, a directory, with everything in it.
    RemoveTree,
    /// To remove the source, a file.
    RemoveFile,
    /// To count one more file as done, and the totals after that.
    CountDone,
    /// To take back the last answer to an error.
    ResetAnswer,
    /// The answer to the error.
    ReadAnswer,
    /// To stop the operation.
    SetStop,
    /// Nothing: the worker is done with the file.
    End,
}

/// What a worker is told in reply.
#[derive(Debug)]
pub enum Told {
    Flag(u8),
    Size(u64),
    Yes(bool),
    Outcome(Result<(), String>),
    Chunk(Result<u64, String>),
    Totals { done: usize, bytes: u64 },
    Answer(u8),
    Done,
}

/// What a reply is.
#[verifier::ext_equal]
pub enum ToldView {
    Flag(u8),
    Size(u64),
    Yes(bool),
    Outcome(Result<(), Seq<char>>),
    Chunk(Result<u64, Seq<char>>),
    Totals { done: usize, bytes: u64 },
    Answer(u8),
    Done,
}

impl View for Told {
    type V = ToldView;

    open spec fn view(&self) -> ToldView {
        match *self {
            Told::Flag(f) => ToldView::Flag(f),
            Told::Size(n) => ToldView::Size(n),
            Told::Yes(b) => ToldView::Yes(b),
            Told::Outcome(Ok(())) => ToldView::Outcome(Ok(())),
            Told::Outcome(Err(e)) => ToldView::Outcome(Err(e@)),
            Told::Chunk(Ok(n)) => ToldView::Chunk(Ok(n)),
            Told::Chunk(Err(e)) => ToldView::Chunk(Err(e@)),
            Told::Totals { done, bytes } => ToldView::Totals { done, bytes },
            Told::Answer(a) => ToldView::Answer(a),
            Told::Done => ToldView::Done,
        }
    }
}

/// A worker on one file.
#[derive(Debug)]
pub struct Worker {
    pub kind: OpKind,
    pub src: DirPath,
    /// The name at the target, where it is not that of the source.
    pub dst_name: Option<String>,
    pub overwrite: bool,
    pub slot: usize,
    pub total: usize,
    pub bytes_total: u64,
    pub file_size: u64,
    pub error: String,
    pub stage: Stage,
}

/// What a worker is.
#[verifier::ext_equal]
pub struct WorkerView {
    pub kind: OpKind,
    pub src: PathView,
    pub dst_name: Option<Seq<char>>,
    pub overwrite: bool,
    pub slot: usize,
    pub total: usize,
    pub bytes_total: u64,
    pub file_size: u64,
    pub error: Seq<char>,
    pub stage: Stage,
}

impl View for Worker {
    type V = WorkerView;

    open spec fn view(&self) -> WorkerView {
        WorkerView {
            kind: self.kind,
            src: self.src@,
            dst_name: self.dst_name.deep_view(),
            overwrite: self.overwrite,
            slot: self.slot,
            total: self.total,
            bytes_total: self.bytes_total,
            file_size: self.file_size,
            error: self.error@,
            stage: self.stage,
        }
    }
}

impl WorkerView {
    /// What the worker asks for.
    pub open spec fn ask(self) -> Ask {
        match self.stage {
            Stage::FirstCheck => Ask::ReadFlag,
            Stage::PauseCheck => Ask::ReadFlag,
            Stage::Paused => Ask::Sleep(100),
            Stage::LastCheck => Ask::ReadFlag,
            Stage::Measuring => Ask::Measure,
            Stage::Probing => Ask::Probe,
            Stage::CopyKind => Ask::IsDir,
            Stage::CopyTree => Ask::CopyTree,
            Stage::Opening { moving } => Ask::Open,
            Stage::StreamCheck { moving } => Ask::ReadFlag,
            Stage::StreamPauseCheck { moving } => Ask::ReadFlag,
            Stage::StreamPaused { moving } => Ask::Sleep(50),
            Stage::Reading { moving } => Ask::Read,
            Stage::Writing { moving, n } => Ask::Write(n),
            Stage::Adding { moving, n } => Ask::AddBytes(n),
            Stage::Renaming => Ask::Rename,
            Stage::RenameAdding => Ask::AddBytes(self.file_size),
            Stage::MoveKind => Ask::IsDir,
            Stage::MoveTree => Ask::CopyTree,
            Stage::RemovingTree => Ask::RemoveTree,
            Stage::RemovingFile => Ask::RemoveFile,
            Stage::DeleteKind => Ask::IsDir,
            Stage::DeletingTree => Ask::RemoveTree,
            Stage::DeletingFile => Ask::RemoveFile,
            Stage::Counting => Ask::CountDone,
            Stage::ErrorReset => Ask::ResetAnswer,
            Stage::ErrorSleep => Ask::Sleep(50),
            Stage::ErrorAnswer => Ask::ReadAnswer,
            Stage::Stopping => Ask::SetStop,
            Stage::Ended => Ask::End,
        }
    }

    /// The name of the file.
    pub open spec fn file_name(self) -> Seq<char> {
        self.src.name_or_empty()
    }

    /// The name at the target.
    pub open spec fn target_name(self) -> Seq<char> {
        match self.dst_name {
            Some(name) => name,
            None => self.file_name(),
        }
    }

    /// The worker at another stage.
    pub open spec fn at(self, stage: Stage) -> WorkerView {
        WorkerView { stage, ..self }
    }

    /// The worker after an error.
    pub open spec fn failed(self, error: Seq<char>) -> WorkerView {
        WorkerView { stage: Stage::ErrorReset, error, ..self }
    }

    /// The message on the operation as a whole.
    pub open spec fn progress(self, done: usize, bytes: u64) -> OpMsgView {
        OpMsgView::Progress {
            done,
            total: self.total,
            bytes_done: bytes,
            bytes_total: self.bytes_total,
        }
    }

    /// The stage at which the work itself starts.
    pub open spec fn work_stage(self) -> Stage {
        match self.kind {
            OpKind::Copy => Stage::CopyKind,
            OpKind::Move => Stage::Renaming,
            OpKind::Delete => Stage::DeleteKind,
        }
    }

    /// The message that the work itself starts.
    pub open spec fn started(self) -> OpMsgView {
        OpMsgView::SlotStart {
            thread_id: self.slot,
            file: self.target_name(),
            file_size: self.file_size,
        }
    }

    /// The stage behind the last byte of a file.
    pub open spec fn streamed(self, moving: bool) -> WorkerView {
        self.at(
            if moving {
                Stage::RemovingFile
            } else {
                Stage::Counting
            },
        )
    }

    /// The worker after a step that came out one way or the other.
    pub open spec fn settled(self, outcome: Result<(), Seq<char>>, then_stage: Stage) -> WorkerView {
        match outcome {
            Ok(_) => self.at(then_stage),
            Err(e) => self.failed(e),
        }
    }

    /// The worker after a reply, and the messages that it sends. A reply to another question
    /// than the one asked changes nothing.
    pub open spec fn next(self, told: ToldView) -> (WorkerView, Seq<OpMsgView>) {
        match (self.stage, told) {
            (Stage::FirstCheck, ToldView::Flag(f)) => if f == OP_STOP {
                (self.at(Stage::Ended), seq![])
            } else {
                (self.at(Stage::PauseCheck), seq![])
            },
            (Stage::PauseCheck, ToldView::Flag(f)) => if f == OP_PAUSE {
                (self.at(Stage::Paused), seq![])
            } else {
                (self.at(Stage::LastCheck), seq![])
            },
            (Stage::Paused, ToldView::Done) => (self.at(Stage::PauseCheck), seq![]),
            (Stage::LastCheck, ToldView::Flag(f)) => if f == OP_STOP {
                (self.at(Stage::Ended), seq![])
            } else {
                (self.at(Stage::Measuring), seq![])
            },
            (Stage::Measuring, ToldView::Size(n)) => {
                let w = WorkerView { file_size: n, ..self };
                if self.kind != OpKind::Delete && !self.overwrite {
                    (w.at(Stage::Probing), seq![])
                } else {
                    (w.at(self.work_stage()), seq![w.started()])
                }
            },
            (Stage::Probing, ToldView::Yes(exists)) => if exists {
                (self.at(Stage::Ended), seq![OpMsgView::Skipped])
            } else {
                (self.at(self.work_stage()), seq![self.started()])
            },
            (Stage::CopyKind, ToldView::Yes(is_dir)) => if is_dir {
                (self.at(Stage::CopyTree), seq![])
            } else {
                (self.at(Stage::Opening { moving: false }), seq![])
            },
            (Stage::CopyTree, ToldView::Outcome(r)) => (self.settled(r, Stage::Counting), seq![]),
            (Stage::Opening { moving }, ToldView::Outcome(r)) => (
                self.settled(r, Stage::StreamCheck { moving }),
                seq![],
            ),
            (Stage::StreamCheck { moving }, ToldView::Flag(f)) => if f == OP_STOP {
                (self.streamed(moving), seq![])
            } else {
                (self.at(Stage::StreamPauseCheck { moving }), seq![])
            },
            (Stage::StreamPauseCheck { moving }, ToldView::Flag(f)) => if f == OP_PAUSE {
                (self.at(Stage::StreamPaused { moving }), seq![])
            } else {
                (self.at(Stage::Reading { moving }), seq![])
            },
            (Stage::StreamPaused { moving }, ToldView::Done) => (
                self.at(Stage::StreamPauseCheck { moving }),
                seq![],
            ),
            (Stage::Reading { moving }, ToldView::Chunk(r)) => match r {
                Ok(n) => if n == 0 {
                    (self.streamed(moving), seq![])
                } else {
                    (self.at(Stage::Writing { moving, n }), seq![])
                },
                Err(e) => (self.failed(e), seq![]),
            },
            (Stage::Writing { moving, n }, ToldView::Outcome(r)) => (
                self.settled(r, Stage::Adding { moving, n }),
                seq![],
            ),
            (Stage::Adding { moving, n }, ToldView::Totals { done, bytes }) => (
                self.at(Stage::StreamCheck { moving }),
                seq![
                    OpMsgView::SlotProgress { thread_id: self.slot, bytes_copied: n },
                    self.progress(done, bytes),
                ],
            ),
            (Stage::Renaming, ToldView::Outcome(r)) => match r {
                Ok(_) => (self.at(Stage::RenameAdding), seq![]),
                Err(_) => (self.at(Stage::MoveKind), seq![]),
            },
            (Stage::RenameAdding, ToldView::Totals { done, bytes }) => (
                self.at(Stage::Counting),
                seq![self.progress(done, bytes)],
            ),
            (Stage::MoveKind, ToldView::Yes(is_dir)) => if is_dir {
                (self.at(Stage::MoveTree), seq![])
            } else {
                (self.at(Stage::Opening { moving: true }), seq![])
            },
            (Stage::MoveTree, ToldView::Outcome(r)) => (
                self.settled(r, Stage::RemovingTree),
                seq![],
            ),
            (Stage::RemovingTree, ToldView::Outcome(r)) => (
                self.settled(r, Stage::Counting),
                seq![],
            ),
            (Stage::RemovingFile, ToldView::Outcome(r)) => (
                self.settled(r, Stage::Counting),
                seq![],
            ),
            (Stage::DeleteKind, ToldView::Yes(is_dir)) => if is_dir {
                (self.at(Stage::DeletingTree), seq![])
            } else {
                (self.at(Stage::DeletingFile), seq![])
            },
            (Stage::DeletingTree, ToldView::Outcome(r)) => (
                self.settled(r, Stage::Counting),
                seq![],
            ),
            (Stage::DeletingFile, ToldView::Outcome(r)) => (
                self.settled(r, Stage::Counting),
                seq![],
            ),
            (Stage::Counting, ToldView::Totals { done, bytes }) => (
                self.at(Stage::Ended),
                seq![OpMsgView::SlotDone { thread_id: self.slot }, self.progress(done, bytes)],
            ),
            (Stage::ErrorReset, ToldView::Done) => (
                self.at(Stage::ErrorSleep),
                seq![OpMsgView::ErrorWait { file: self.file_name(), error: self.error }],
            ),
            (Stage::ErrorSleep, ToldView::Done) => (self.at(Stage::ErrorAnswer), seq![]),
            (Stage::ErrorAnswer, ToldView::Answer(a)) => if a == ERR_RETRY {
                (self.at(self.work_stage()), seq![])
            } else if a == ERR_SKIP {
                (self.at(Stage::Ended), seq![])
            } else if a == ERR_CANCEL {
                (self.at(Stage::Stopping), seq![])
            } else {
                (self.at(Stage::ErrorSleep), seq![])
            },
            (Stage::Stopping, ToldView::Done) => (self.at(Stage::Ended), seq![]),
            _ => (self, seq![]),
        }
    }

    /// Whether the stage is one of the kind of operation: what a copy, a move and a deletion
    /// never do follows from it.
    pub open spec fn consistent(self) -> bool {
        match self.stage {
            Stage::CopyKind | Stage::CopyTree => self.kind == OpKind::Copy,
            Stage::Opening { moving }
            | Stage::StreamCheck { moving }
            | Stage::StreamPauseCheck { moving }
            | Stage::StreamPaused { moving }
            | Stage::Reading { moving } => self.kind == if moving {
                OpKind::Move
            } else {
                OpKind::Copy
            },
            Stage::Writing { moving, n } | Stage::Adding { moving, n } => self.kind == if moving {
                OpKind::Move
            } else {
                OpKind::Copy
            },
            Stage::Renaming
            | Stage::RenameAdding
            | Stage::MoveKind
            | Stage::MoveTree
            | Stage::RemovingTree
            | Stage::RemovingFile => self.kind == OpKind::Move,
            Stage::DeleteKind | Stage::DeletingTree | Stage::DeletingFile => self.kind
                == OpKind::Delete,
            Stage::Probing => self.kind != OpKind::Delete && !self.overwrite,
            _ => true,
        }
    }
}

/// Whether an ask takes the source away.
pub open spec fn removes(ask: Ask) -> bool {
    ask == Ask::Rename || ask == Ask::RemoveTree || ask == Ask::RemoveFile
}

/// Whether an ask writes at the target.
pub open spec fn writes(ask: Ask) -> bool {
    ask == Ask::CopyTree || ask == Ask::Open || ask is Write || ask == Ask::Rename
}

// ---------------------------------------------------------------------------
// Laws of the worker
// ---------------------------------------------------------------------------

/// A worker only ever stands at stages of its kind of operation.
pub proof fn worker_stays_consistent(w: WorkerView, told: ToldView)
    requires
        w.consistent(),
    ensures
        w.next(told).0.consistent(),
        w.next(told).0.kind == w.kind,
        w.next(told).0.src == w.src,
        w.next(told).0.dst_name == w.dst_name,
{
}

/// Copying never takes the source away, and deleting never writes anything.
pub proof fn worker_keeps_to_its_kind(w: WorkerView)
    requires
        w.consistent(),
    ensures
        w.kind == OpKind::Copy ==> !removes(w.ask()),
        w.kind == OpKind::Delete ==> !writes(w.ask()),
{
}

/// Where something exists at the target and is not to be overwritten, the worker leaves the
/// file alone: it reports the file as left out and is done.
pub proof fn worker_spares_existing(w: WorkerView)
    requires
        w.stage == Stage::Probing,
    ensures
        w.next(ToldView::Yes(true)).0.stage == Stage::Ended,
        w.next(ToldView::Yes(true)).1 == seq![OpMsgView::Skipped],
{
}

/// Nothing is written or taken away before the worker has looked whether the target exists,
/// unless it is to be overwritten: the work starts where nothing was found, or anew after it
/// has failed.
pub proof fn worker_probes_first(w: WorkerView, told: ToldView)
    requires
        w.consistent(),
        w.kind != OpKind::Delete,
        !w.overwrite,
        w.next(told).0.stage == w.work_stage(),
        w.stage != w.work_stage(),
    ensures
        ({
            ||| w.stage == Stage::Probing && told == ToldView::Yes(false)
            ||| w.stage == Stage::ErrorAnswer && told == ToldView::Answer(ERR_RETRY)
        }),
{
}

/// The answer to an error decides: the work on the file starts anew, the file is left out, or
/// the whole operation is stopped. Until there is an answer, the worker waits.
pub proof fn worker_heeds_answer(w: WorkerView, a: u8)
    requires
        w.stage == Stage::ErrorAnswer,
    ensures
        ({
            let after = w.next(ToldView::Answer(a)).0;
            &&& a == ERR_RETRY ==> after == w.at(w.work_stage())
            &&& a == ERR_SKIP ==> after.ask() == Ask::End
            &&& a == ERR_CANCEL ==> after.ask() == Ask::SetStop
            &&& a == ERR_WAIT ==> after.ask() is Sleep
        }),
{
}

/// A source that was moved by copying is removed only once its copy has ended: after the last
/// byte, after the whole tree, or where the operation was stopped.
pub proof fn worker_removes_after_copy(w: WorkerView, told: ToldView)
    requires
        w.consistent(),
        w.kind == OpKind::Move,
        !removes(w.ask()),
        removes(w.next(told).0.ask()),
        w.next(told).0.ask() != Ask::Rename,
    ensures
        ({
            ||| w.stage == Stage::Reading { moving: true } && told == ToldView::Chunk(Ok(0))
            ||| w.stage == Stage::MoveTree && (told matches ToldView::Outcome(Ok(_)))
            ||| w.stage == Stage::StreamCheck { moving: true } && told == ToldView::Flag(OP_STOP)
        }),
{
}

/// A stopped operation touches no further file: where the flag says stop, a worker that has
/// not started yet is done.
pub proof fn worker_heeds_stop(w: WorkerView)
    requires
        w.stage == Stage::FirstCheck || w.stage == Stage::LastCheck,
    ensures
        w.next(ToldView::Flag(OP_STOP)) == (w.at(Stage::Ended), Seq::<OpMsgView>::empty()),
{
}

/// A worker that is done stays so and sends nothing.
pub proof fn worker_ends(w: WorkerView, told: ToldView)
    requires
        w.stage == Stage::Ended,
    ensures
        w.next(told) == (w, Seq::<OpMsgView>::empty()),
{
}

/// A file counts as done only at the end of a worker that met no error on it, and the last
/// messages then free its slot.
pub proof fn worker_counts_once(w: WorkerView, told: ToldView)
    requires
        w.next(told).1.contains(OpMsgView::SlotDone { thread_id: w.slot }),
    ensures
        w.stage == Stage::Counting,
        w.next(told).0.stage == Stage::Ended,
{
    let k = choose|k: int|
        0 <= k < w.next(told).1.len() && w.next(told).1[k] == OpMsgView::SlotDone {
            thread_id: w.slot,
        };
    assert(w.next(told).1[k] is SlotDone);
}

// ---------------------------------------------------------------------------
// A whole run of a worker
// ---------------------------------------------------------------------------

/// A piece of a file as it is copied: its length, and the totals of the operation after it.
pub struct Piece {
    pub n: u64,
    pub done: usize,
    pub bytes: u64,
}

/// Surroundings in which nothing fails and nobody stops the operation: what a worker on one
/// file finds.
pub struct Calm {
    /// The size of the source.
    pub size: u64,
    /// Whether something exists at the target.
    pub exists: bool,
    pub is_dir: bool,
    /// Whether source and target lie on one disk, so that the source can be renamed.
    pub one_disk: bool,
    /// What is still to be read of the source.
    pub pieces: Seq<Piece>,
    /// The totals after the source was renamed.
    pub renamed: (usize, u64),
    /// The totals after the file was counted as done.
    pub counted: (usize, u64),
}

/// The lengths of pieces.
pub open spec fn lengths(pieces: Seq<Piece>) -> Seq<u64> {
    pieces.map_values(|p: Piece| p.n)
}

impl Calm {
    /// What the worker is told.
    pub open spec fn told(self, w: WorkerView) -> ToldView {
        match w.ask() {
            Ask::ReadFlag => ToldView::Flag(OP_RUN),
            Ask::Measure => ToldView::Size(self.size),
            Ask::Probe => ToldView::Yes(self.exists),
            Ask::IsDir => ToldView::Yes(self.is_dir),
            Ask::Rename => ToldView::Outcome(
                if self.one_disk {
                    Ok(())
                } else {
                    Err(seq![])
                },
            ),
            Ask::Read => ToldView::Chunk(
                Ok(
                    if self.pieces.len() > 0 {
                        self.pieces[0].n
                    } else {
                        0
                    },
                ),
            ),
            Ask::AddBytes(_) => if w.stage == Stage::RenameAdding {
                ToldView::Totals { done: self.renamed.0, bytes: self.renamed.1 }
            } else {
                ToldView::Totals { done: self.pieces[0].done, bytes: self.pieces[0].bytes }
            },
            Ask::CountDone => ToldView::Totals { done: self.counted.0, bytes: self.counted.1 },
            Ask::Sleep(_) | Ask::ResetAnswer | Ask::SetStop | Ask::End => ToldView::Done,
            Ask::ReadAnswer => ToldView::Answer(ERR_WAIT),
            _ => ToldView::Outcome(Ok(())),
        }
    }

    /// What the worker finds afterwards: a piece is used up once it was added to the totals.
    pub open spec fn after(self, w: WorkerView) -> Calm {
        if w.stage is Adding {
            Calm { pieces: self.pieces.drop_first(), ..self }
        } else {
            self
        }
    }

    /// Whether the pieces are none of them empty.
    pub open spec fn readable(self) -> bool {
        forall|i: int| 0 <= i < self.pieces.len() ==> (#[trigger] self.pieces[i]).n > 0
    }

    /// Whether a worker that met nothing else can stand where it stands.
    pub open spec fn agrees(self, w: WorkerView) -> bool {
        &&& self.readable()
        &&& w.consistent()
        &&& match w.stage {
            Stage::Writing { moving, n } => self.pieces.len() > 0 && self.pieces[0].n == n,
            Stage::Adding { moving, n } => self.pieces.len() > 0 && self.pieces[0].n == n,
            Stage::Paused | Stage::StreamPaused { .. } => false,
            Stage::ErrorReset | Stage::ErrorSleep | Stage::ErrorAnswer | Stage::Stopping => false,
            _ => true,
        }
    }

    /// How many answers a worker takes from a stage of reading on to its end.
    pub open spec fn stream_answers(self, moving: bool) -> nat {
        let last: nat = if moving {
            5
        } else {
            4
        };
        5 * self.pieces.len() + last
    }

    /// How many answers a worker takes to its end.
    pub open spec fn answers(self, w: WorkerView) -> nat {
        match w.stage {
            Stage::FirstCheck => 4 + self.answers_measured(w),
            Stage::PauseCheck => 3 + self.answers_measured(w),
            Stage::LastCheck => 2 + self.answers_measured(w),
            Stage::Measuring => 1 + self.answers_measured(w),
            Stage::Probing => self.answers_probed(w.kind),
            Stage::CopyKind | Stage::Renaming | Stage::DeleteKind => self.answers_work(w.kind),
            Stage::CopyTree => 2,
            Stage::Opening { moving } => 1 + self.stream_answers(moving),
            Stage::StreamCheck { moving } => self.stream_answers(moving),
            Stage::StreamPauseCheck { moving } => (self.stream_answers(moving) - 1) as nat,
            Stage::Reading { moving } => (self.stream_answers(moving) - 2) as nat,
            Stage::Writing { moving, n } => (self.stream_answers(moving) - 3) as nat,
            Stage::Adding { moving, n } => (self.stream_answers(moving) - 4) as nat,
            Stage::RenameAdding => 2,
            Stage::MoveKind => self.answers_moved(),
            Stage::MoveTree => 3,
            Stage::RemovingTree | Stage::RemovingFile => 2,
            Stage::DeletingTree | Stage::DeletingFile => 2,
            Stage::Counting => 1,
            _ => 0,
        }
    }

    /// How many answers are left once the source was measured.
    pub open spec fn answers_measured(self, w: WorkerView) -> nat {
        if w.kind != OpKind::Delete && !w.overwrite {
            self.answers_probed(w.kind)
        } else {
            self.answers_work(w.kind)
        }
    }

    /// How many answers are left before the look at the target.
    pub open spec fn answers_probed(self, kind: OpKind) -> nat {
        if self.exists {
            1
        } else {
            1 + self.answers_work(kind)
        }
    }

    /// How many answers the work itself takes.
    pub open spec fn answers_work(self, kind: OpKind) -> nat {
        match kind {
            OpKind::Copy => if self.is_dir {
                3
            } else {
                2 + self.stream_answers(false)
            },
            OpKind::Move => if self.one_disk {
                3
            } else {
                1 + self.answers_moved()
            },
            OpKind::Delete => 3,
        }
    }

    /// How many answers moving to another disk takes.
    pub open spec fn answers_moved(self) -> nat {
        if self.is_dir {
            4
        } else {
            2 + self.stream_answers(true)
        }
    }
}

/// What a worker does with the answer to what it asks for; looking at the flag is nothing.
pub open spec fn deed(ask: Ask) -> Seq<Ask> {
    if ask == Ask::ReadFlag {
        seq![]
    } else {
        seq![ask]
    }
}

/// What a worker does and sends in the given number of answers, and where it then stands.
pub open spec fn worked(w: WorkerView, calm: Calm, n: nat) -> (
    Seq<Ask>,
    Seq<OpMsgView>,
    WorkerView,
)
    decreases n,
{
    if n == 0 {
        (seq![], seq![], w)
    } else {
        let (next, sent) = w.next(calm.told(w));
        let (asks, rest, end) = worked(next, calm.after(w), (n - 1) as nat);
        (deed(w.ask()) + asks, sent + rest, end)
    }
}

/// What is done for the pieces of a file: each is read, written and added to the totals.
pub open spec fn piece_deeds(pieces: Seq<Piece>) -> Seq<Ask>
    decreases pieces.len(),
{
    if pieces.len() == 0 {
        seq![]
    } else {
        seq![Ask::Read, Ask::Write(pieces[0].n), Ask::AddBytes(pieces[0].n)] + piece_deeds(
            pieces.drop_first(),
        )
    }
}

/// What is done from reading the first piece on: the pieces, the end of the source, the
/// removal of a source that is moved, and the count.
pub open spec fn stream_deeds(pieces: Seq<Piece>, moving: bool) -> Seq<Ask> {
    piece_deeds(pieces) + if moving {
        seq![Ask::Read, Ask::RemoveFile, Ask::CountDone]
    } else {
        seq![Ask::Read, Ask::CountDone]
    }
}

/// What is done to move a file to another disk.
pub open spec fn moving_deeds(calm: Calm) -> Seq<Ask> {
    if calm.is_dir {
        seq![Ask::IsDir, Ask::CopyTree, Ask::RemoveTree, Ask::CountDone]
    } else {
        seq![Ask::IsDir, Ask::Open] + stream_deeds(calm.pieces, true)
    }
}

/// What the work itself does, of each kind of operation.
pub open spec fn work_deeds(kind: OpKind, size: u64, calm: Calm) -> Seq<Ask> {
    match kind {
        OpKind::Copy => if calm.is_dir {
            seq![Ask::IsDir, Ask::CopyTree, Ask::CountDone]
        } else {
            seq![Ask::IsDir, Ask::Open] + stream_deeds(calm.pieces, false)
        },
        OpKind::Move => if calm.one_disk {
            seq![Ask::Rename, Ask::AddBytes(size), Ask::CountDone]
        } else {
            seq![Ask::Rename] + moving_deeds(calm)
        },
        OpKind::Delete => if calm.is_dir {
            seq![Ask::IsDir, Ask::RemoveTree, Ask::CountDone]
        } else {
            seq![Ask::IsDir, Ask::RemoveFile, Ask::CountDone]
        },
    }
}

/// What is told of the pieces of a file: the piece for the slot, then the totals.
pub open spec fn piece_messages(w: WorkerView, pieces: Seq<Piece>) -> Seq<OpMsgView>
    decreases pieces.len(),
{
    if pieces.len() == 0 {
        seq![]
    } else {
        seq![
            OpMsgView::SlotProgress { thread_id: w.slot, bytes_copied: pieces[0].n },
            w.progress(pieces[0].done, pieces[0].bytes),
        ] + piece_messages(w, pieces.drop_first())
    }
}

/// What is told at the end: the slot is free, and the file counts as done.
pub open spec fn last_messages(w: WorkerView, calm: Calm) -> Seq<OpMsgView> {
    seq![OpMsgView::SlotDone { thread_id: w.slot }, w.progress(calm.counted.0, calm.counted.1)]
}

/// What is told of the work itself.
pub open spec fn work_messages(w: WorkerView, calm: Calm) -> Seq<OpMsgView> {
    let streamed = piece_messages(w, calm.pieces) + last_messages(w, calm);
    match w.kind {
        OpKind::Copy => if calm.is_dir {
            last_messages(w, calm)
        } else {
            streamed
        },
        OpKind::Move => if calm.one_disk {
            seq![w.progress(calm.renamed.0, calm.renamed.1)] + last_messages(w, calm)
        } else if calm.is_dir {
            last_messages(w, calm)
        } else {
            streamed
        },
        OpKind::Delete => last_messages(w, calm),
    }
}

/// Whether a worker looks for something at its target before it starts.
pub open spec fn looks_first(w: WorkerView) -> bool {
    w.kind != OpKind::Delete && !w.overwrite
}

/// What a worker does from the look at its target on.
pub open spec fn probed_deeds(w: WorkerView, calm: Calm) -> Seq<Ask> {
    if calm.exists {
        seq![Ask::Probe]
    } else {
        seq![Ask::Probe] + work_deeds(w.kind, w.file_size, calm)
    }
}

/// What a worker tells from the look at its target on.
pub open spec fn probed_messages(w: WorkerView, calm: Calm) -> Seq<OpMsgView> {
    if calm.exists {
        seq![OpMsgView::Skipped]
    } else {
        seq![w.started()] + work_messages(w, calm)
    }
}

/// What a worker does in all: it measures the source, looks at the target where nothing is to
/// be overwritten, and works where nothing is in the way.
pub open spec fn run_deeds(w: WorkerView, calm: Calm) -> Seq<Ask> {
    let measured = WorkerView { file_size: calm.size, ..w };
    seq![Ask::Measure] + if looks_first(w) {
        probed_deeds(measured, calm)
    } else {
        work_deeds(w.kind, calm.size, calm)
    }
}

/// What a worker tells in all.
pub open spec fn run_messages(w: WorkerView, calm: Calm) -> Seq<OpMsgView> {
    let measured = WorkerView { file_size: calm.size, ..w };
    if looks_first(w) {
        probed_messages(measured, calm)
    } else {
        seq![measured.started()] + work_messages(w, calm)
    }
}

/// What a worker still does.
pub open spec fn deeds_left(w: WorkerView, calm: Calm) -> Seq<Ask> {
    match w.stage {
        Stage::FirstCheck | Stage::PauseCheck | Stage::LastCheck | Stage::Measuring => run_deeds(
            w,
            calm,
        ),
        Stage::Probing => probed_deeds(w, calm),
        Stage::CopyKind | Stage::Renaming | Stage::DeleteKind => work_deeds(
            w.kind,
            w.file_size,
            calm,
        ),
        Stage::CopyTree => seq![Ask::CopyTree, Ask::CountDone],
        Stage::Opening { moving } => seq![Ask::Open] + stream_deeds(calm.pieces, moving),
        Stage::StreamCheck { moving }
        | Stage::StreamPauseCheck { moving }
        | Stage::Reading { moving } => stream_deeds(calm.pieces, moving),
        Stage::Writing { moving, n } => seq![Ask::Write(n), Ask::AddBytes(n)] + stream_deeds(
            calm.pieces.drop_first(),
            moving,
        ),
        Stage::Adding { moving, n } => seq![Ask::AddBytes(n)] + stream_deeds(
            calm.pieces.drop_first(),
            moving,
        ),
        Stage::RenameAdding => seq![Ask::AddBytes(w.file_size), Ask::CountDone],
        Stage::MoveKind => moving_deeds(calm),
        Stage::MoveTree => seq![Ask::CopyTree, Ask::RemoveTree, Ask::CountDone],
        Stage::RemovingTree | Stage::DeletingTree => seq![Ask::RemoveTree, Ask::CountDone],
        Stage::RemovingFile | Stage::DeletingFile => seq![Ask::RemoveFile, Ask::CountDone],
        Stage::Counting => seq![Ask::CountDone],
        _ => seq![],
    }
}

/// What a worker still tells.
pub open spec fn messages_left(w: WorkerView, calm: Calm) -> Seq<OpMsgView> {
    match w.stage {
        Stage::FirstCheck
        | Stage::PauseCheck
        | Stage::LastCheck
        | Stage::Measuring => run_messages(w, calm),
        Stage::Probing => probed_messages(w, calm),
        Stage::CopyKind | Stage::Renaming | Stage::DeleteKind => work_messages(w, calm),
        Stage::Opening { .. }
        | Stage::StreamCheck { .. }
        | Stage::StreamPauseCheck { .. }
        | Stage::Reading { .. }
        | Stage::Writing { .. }
        | Stage::Adding { .. } => piece_messages(w, calm.pieces) + last_messages(w, calm),
        Stage::RenameAdding => seq![w.progress(calm.renamed.0, calm.renamed.1)] + last_messages(
            w,
            calm,
        ),
        Stage::MoveKind => if calm.is_dir {
            last_messages(w, calm)
        } else {
            piece_messages(w, calm.pieces) + last_messages(w, calm)
        },
        Stage::Ended => seq![],
        _ => last_messages(w, calm),
    }
}

/// The messages on pieces speak of the slot and the totals of the worker alone.
proof fn lemma_piece_messages(a: WorkerView, b: WorkerView, pieces: Seq<Piece>)
    requires
        a.slot == b.slot,
        a.total == b.total,
        a.bytes_total == b.bytes_total,
    ensures
        piece_messages(a, pieces) == piece_messages(b, pieces),
    decreases pieces.len(),
{
    if pieces.len() > 0 {
        lemma_piece_messages(a, b, pieces.drop_first());
    }
}

/// The messages of the work itself speak of nothing that changes on the way.
proof fn lemma_work_messages(a: WorkerView, b: WorkerView, calm: Calm)
    requires
        a.kind == b.kind,
        a.slot == b.slot,
        a.total == b.total,
        a.bytes_total == b.bytes_total,
    ensures
        work_messages(a, calm) == work_messages(b, calm),
        last_messages(a, calm) == last_messages(b, calm),
{
    lemma_piece_messages(a, b, calm.pieces);
}

/// One answer leaves a worker where nothing has failed, with one answer less to come.
proof fn lemma_answer_taken(w: WorkerView, calm: Calm)
    requires
        calm.agrees(w),
        w.stage != Stage::Ended,
    ensures
        ({
            let w2 = w.next(calm.told(w)).0;
            let calm2 = calm.after(w);
            &&& calm2.agrees(w2)
            &&& calm.answers(w) == 1 + calm2.answers(w2)
            &&& w2.error == w.error
        }),
{
    let calm2 = calm.after(w);
    worker_stays_consistent(w, calm.told(w));
    assert(calm2.readable()) by {
        if w.stage is Adding {
            assert forall|i: int| 0 <= i < calm2.pieces.len() implies (#[trigger] calm2.pieces[i]).n
                > 0 by {
                assert(calm2.pieces[i] == calm.pieces[i + 1]);
            }
        }
    }
    if calm.pieces.len() > 0 {
        assert(calm.pieces[0].n > 0);
    }
}

/// One answer brings a worker one deed on, before the work.
proof fn lemma_deed_early(w: WorkerView, calm: Calm)
    requires
        calm.agrees(w),
        w.stage is FirstCheck || w.stage is PauseCheck || w.stage is LastCheck || w.stage is
            Measuring || w.stage is Probing,
    ensures
        deeds_left(w, calm) == deed(w.ask()) + deeds_left(w.next(calm.told(w)).0, calm.after(w)),
{
    let w2 = w.next(calm.told(w)).0;
    let calm2 = calm.after(w);
    if calm.pieces.len() > 0 {
        assert(calm.pieces[0].n > 0);
    }
    assert(deeds_left(w, calm) =~= deed(w.ask()) + deeds_left(w2, calm2));
}

/// One answer brings a worker one deed on, at the start of the work.
proof fn lemma_deed_first(w: WorkerView, calm: Calm)
    requires
        calm.agrees(w),
        w.stage is CopyKind || w.stage is Renaming || w.stage is MoveKind || w.stage is DeleteKind,
    ensures
        deeds_left(w, calm) == deed(w.ask()) + deeds_left(w.next(calm.told(w)).0, calm.after(w)),
{
    let w2 = w.next(calm.told(w)).0;
    let calm2 = calm.after(w);
    if calm.pieces.len() > 0 {
        assert(calm.pieces[0].n > 0);
    }
    assert(deeds_left(w, calm) =~= deed(w.ask()) + deeds_left(w2, calm2));
}

/// One answer brings a worker one deed on, as a file is copied.
proof fn lemma_deed_stream(w: WorkerView, calm: Calm)
    requires
        calm.agrees(w),
        w.stage is Opening || w.stage is StreamCheck || w.stage is StreamPauseCheck || w.stage is
            Reading || w.stage is Writing || w.stage is Adding,
    ensures
        deeds_left(w, calm) == deed(w.ask()) + deeds_left(w.next(calm.told(w)).0, calm.after(w)),
{
    let w2 = w.next(calm.told(w)).0;
    let calm2 = calm.after(w);
    if calm.pieces.len() > 0 {
        assert(calm.pieces[0].n > 0);
    }
    assert(deeds_left(w, calm) =~= deed(w.ask()) + deeds_left(w2, calm2));
}

/// One answer brings a worker one deed on, at the end of the work.
proof fn lemma_deed_late(w: WorkerView, calm: Calm)
    requires
        calm.agrees(w),
        w.stage is CopyTree || w.stage is RenameAdding || w.stage is MoveTree || w.stage is
            RemovingTree || w.stage is RemovingFile || w.stage is DeletingTree || w.stage is
            DeletingFile || w.stage is Counting,
    ensures
        deeds_left(w, calm) == deed(w.ask()) + deeds_left(w.next(calm.told(w)).0, calm.after(w)),
{
    let w2 = w.next(calm.told(w)).0;
    let calm2 = calm.after(w);
    if calm.pieces.len() > 0 {
        assert(calm.pieces[0].n > 0);
    }
    assert(deeds_left(w, calm) =~= deed(w.ask()) + deeds_left(w2, calm2));
}

/// One answer brings a worker one deed on.
proof fn lemma_deed_done(w: WorkerView, calm: Calm)
    requires
        calm.agrees(w),
        w.stage != Stage::Ended,
    ensures
        deeds_left(w, calm) == deed(w.ask()) + deeds_left(w.next(calm.told(w)).0, calm.after(w)),
{
    match w.stage {
        Stage::FirstCheck | Stage::PauseCheck | Stage::LastCheck | Stage::Measuring
        | Stage::Probing => lemma_deed_early(w, calm),
        Stage::CopyKind | Stage::Renaming | Stage::MoveKind | Stage::DeleteKind => {
            lemma_deed_first(w, calm)
        },
        Stage::Opening { .. } | Stage::StreamCheck { .. } | Stage::StreamPauseCheck { .. }
        | Stage::Reading { .. } | Stage::Writing { .. } | Stage::Adding { .. } => {
            lemma_deed_stream(w, calm)
        },
        _ => lemma_deed_late(w, calm),
    }
}

/// What a worker tells with one answer is the first of what it still has to tell, before the work.
proof fn lemma_sent_early(w: WorkerView, calm: Calm)
    requires
        calm.agrees(w),
        w.stage is FirstCheck || w.stage is PauseCheck || w.stage is LastCheck || w.stage is
            Measuring || w.stage is Probing,
    ensures
        messages_left(w, calm) == w.next(calm.told(w)).1 + messages_left(
            w.next(calm.told(w)).0,
            calm.after(w),
        ),
{
    let (w2, sent) = w.next(calm.told(w));
    let calm2 = calm.after(w);
    lemma_work_messages(w, w2, calm);
    let a = WorkerView { file_size: calm.size, ..w };
    let b = WorkerView { file_size: calm.size, ..w2 };
    assert(a.started() == b.started());
    lemma_work_messages(w, a, calm);
    lemma_work_messages(w, b, calm);
    assert(messages_left(w, calm) =~= sent + messages_left(w2, calm2));
}

/// What a worker tells with one answer is the first of what it still has to tell, at the start of the work.
proof fn lemma_sent_first(w: WorkerView, calm: Calm)
    requires
        calm.agrees(w),
        w.stage is CopyKind || w.stage is Renaming || w.stage is MoveKind || w.stage is DeleteKind,
    ensures
        messages_left(w, calm) == w.next(calm.told(w)).1 + messages_left(
            w.next(calm.told(w)).0,
            calm.after(w),
        ),
{
    let (w2, sent) = w.next(calm.told(w));
    let calm2 = calm.after(w);
    lemma_work_messages(w, w2, calm);
    lemma_piece_messages(w, w2, calm2.pieces);
    if calm.pieces.len() > 0 {
        assert(calm.pieces[0].n > 0);
    }
    assert(messages_left(w, calm) =~= sent + messages_left(w2, calm2));
}

/// What a worker tells with one answer is the first of what it still has to tell, as a file is copied.
proof fn lemma_sent_stream(w: WorkerView, calm: Calm)
    requires
        calm.agrees(w),
        w.stage is Opening || w.stage is StreamCheck || w.stage is StreamPauseCheck || w.stage is
            Reading || w.stage is Writing || w.stage is Adding,
    ensures
        messages_left(w, calm) == w.next(calm.told(w)).1 + messages_left(
            w.next(calm.told(w)).0,
            calm.after(w),
        ),
{
    let (w2, sent) = w.next(calm.told(w));
    let calm2 = calm.after(w);
    lemma_work_messages(w, w2, calm);
    lemma_piece_messages(w, w2, calm2.pieces);
    if calm.pieces.len() > 0 {
        assert(calm.pieces[0].n > 0);
    }
    assert(messages_left(w, calm) =~= sent + messages_left(w2, calm2));
}

/// What a worker tells with one answer is the first of what it still has to tell, at the end of the work.
proof fn lemma_sent_late(w: WorkerView, calm: Calm)
    requires
        calm.agrees(w),
        w.stage is CopyTree || w.stage is RenameAdding || w.stage is MoveTree || w.stage is
            RemovingTree || w.stage is RemovingFile || w.stage is DeletingTree || w.stage is
            DeletingFile || w.stage is Counting,
    ensures
        messages_left(w, calm) == w.next(calm.told(w)).1 + messages_left(
            w.next(calm.told(w)).0,
            calm.after(w),
        ),
{
    let (w2, sent) = w.next(calm.told(w));
    let calm2 = calm.after(w);
    lemma_work_messages(w, w2, calm);
    lemma_piece_messages(w, w2, calm2.pieces);
    if calm.pieces.len() > 0 {
        assert(calm.pieces[0].n > 0);
    }
    assert(messages_left(w, calm) =~= sent + messages_left(w2, calm2));
}

/// What a worker tells with one answer is the first of what it still has to tell.
proof fn lemma_messages_sent(w: WorkerView, calm: Calm)
    requires
        calm.agrees(w),
        w.stage != Stage::Ended,
    ensures
        messages_left(w, calm) == w.next(calm.told(w)).1 + messages_left(
            w.next(calm.told(w)).0,
            calm.after(w),
        ),
{
    match w.stage {
        Stage::FirstCheck | Stage::PauseCheck | Stage::LastCheck | Stage::Measuring
        | Stage::Probing => lemma_sent_early(w, calm),
        Stage::CopyKind | Stage::Renaming | Stage::MoveKind | Stage::DeleteKind => {
            lemma_sent_first(w, calm)
        },
        Stage::Opening { .. } | Stage::StreamCheck { .. } | Stage::StreamPauseCheck { .. }
        | Stage::Reading { .. } | Stage::Writing { .. } | Stage::Adding { .. } => {
            lemma_sent_stream(w, calm)
        },
        _ => lemma_sent_late(w, calm),
    }
}

proof fn lemma_worked(w: WorkerView, calm: Calm)
    requires
        calm.agrees(w),
    ensures
        ({
            let (asks, sent, end) = worked(w, calm, calm.answers(w));
            &&& asks == deeds_left(w, calm)
            &&& sent == messages_left(w, calm)
            &&& end.stage == Stage::Ended
            &&& end.error == w.error
        }),
    decreases calm.answers(w),
{
    if w.stage != Stage::Ended {
        lemma_answer_taken(w, calm);
        lemma_deed_done(w, calm);
        lemma_messages_sent(w, calm);
        lemma_worked(w.next(calm.told(w)).0, calm.after(w));
    }
}

proof fn lemma_pieces_uncounted(pieces: Seq<Piece>)
    ensures
        !piece_deeds(pieces).contains(Ask::CountDone),
    decreases pieces.len(),
{
    if pieces.len() > 0 {
        let rest = piece_deeds(pieces.drop_first());
        lemma_pieces_uncounted(pieces.drop_first());
        let all = piece_deeds(pieces);
        if all.contains(Ask::CountDone) {
            let k = choose|k: int| 0 <= k < all.len() && all[k] == Ask::CountDone;
            if k >= 3 {
                assert(rest[k - 3] == Ask::CountDone);
            }
        }
    }
}

/// The bytes that messages tell as copied.
pub open spec fn bytes_told(sent: Seq<OpMsgView>) -> int
    decreases sent.len(),
{
    if sent.len() == 0 {
        0
    } else {
        bytes_told(sent.drop_last()) + match sent.last() {
            OpMsgView::SlotProgress { thread_id, bytes_copied } => bytes_copied as int,
            _ => 0,
        }
    }
}

proof fn lemma_bytes_told(a: Seq<OpMsgView>, b: Seq<OpMsgView>)
    ensures
        bytes_told(a + b) == bytes_told(a) + bytes_told(b),
    decreases b.len(),
{
    if b.len() == 0 {
        assert(a + b =~= a);
    } else {
        assert((a + b).drop_last() =~= a + b.drop_last());
        lemma_bytes_told(a, b.drop_last());
    }
}

proof fn lemma_sum_front(v: Seq<u64>)
    requires
        v.len() > 0,
    ensures
        sum_of(v) == v[0] + sum_of(v.drop_first()),
    decreases v.len(),
{
    if v.len() == 1 {
        assert(v.drop_first() =~= Seq::<u64>::empty());
        assert(v.drop_last() =~= Seq::<u64>::empty());
    } else {
        lemma_sum_front(v.drop_last());
        assert(v.drop_last().drop_first() =~= v.drop_first().drop_last());
    }
}

proof fn lemma_pieces_told(w: WorkerView, pieces: Seq<Piece>)
    ensures
        bytes_told(piece_messages(w, pieces)) == sum_of(lengths(pieces)),
    decreases pieces.len(),
{
    if pieces.len() > 0 {
        let first = seq![
            OpMsgView::SlotProgress { thread_id: w.slot, bytes_copied: pieces[0].n },
            w.progress(pieces[0].done, pieces[0].bytes),
        ];
        lemma_pieces_told(w, pieces.drop_first());
        lemma_bytes_told(first, piece_messages(w, pieces.drop_first()));
        assert(first.drop_last() =~= seq![first[0]]);
        assert(first.drop_last().drop_last() =~= Seq::<OpMsgView>::empty());
        assert(bytes_told(first.drop_last().drop_last()) == 0);
        assert(bytes_told(first.drop_last()) == pieces[0].n);
        assert(lengths(pieces).drop_first() =~= lengths(pieces.drop_first()));
        lemma_sum_front(lengths(pieces));
    }
}

/// Where nothing fails, an operation on a file ends, without an error. What was done and told
/// is then exactly this: the source was measured; where something lies at a target that is not
/// to be overwritten, the file was told to be left out, and nothing else was touched; else the
/// file was copied, moved or deleted, counted as done once, and its slot was freed at the end.
pub proof fn calm_work_is_done(w: WorkerView, calm: Calm)
    requires
        w.stage == Stage::FirstCheck,
        calm.readable(),
    ensures
        ({
            let (asks, sent, end) = worked(w, calm, calm.answers(w));
            &&& asks == run_deeds(w, calm)
            &&& sent == run_messages(w, calm)
            &&& end.ask() == Ask::End
            &&& end.error == w.error
        }),
{
    lemma_worked(w, calm);
}

/// Where nothing fails and nothing is in the way, a file is counted as done exactly once, with
/// the last thing that is done, and its slot is then told to be free.
pub proof fn calm_work_counts_once(w: WorkerView, calm: Calm)
    requires
        w.stage == Stage::FirstCheck,
        calm.readable(),
        looks_first(w) ==> !calm.exists,
    ensures
        ({
            let (asks, sent, end) = worked(w, calm, calm.answers(w));
            &&& asks.len() > 0
            &&& asks.last() == Ask::CountDone
            &&& !asks.drop_last().contains(Ask::CountDone)
            &&& sent.len() >= 2
            &&& sent[sent.len() - 2] == OpMsgView::SlotDone { thread_id: w.slot }
        }),
{
    calm_work_is_done(w, calm);
    lemma_pieces_uncounted(calm.pieces);
    let work = work_deeds(w.kind, calm.size, calm);
    let pieces = piece_deeds(calm.pieces);
    let head = if looks_first(w) {
        seq![Ask::Measure, Ask::Probe]
    } else {
        seq![Ask::Measure]
    };
    let all = head + work;
    assert(run_deeds(w, calm) =~= all);
    assert(all.last() == work.last());
    assert(work.last() == Ask::CountDone);
    assert forall|k: int| 0 <= k < work.len() - 1 implies work[k] != Ask::CountDone by {
        if !calm.is_dir && (w.kind == OpKind::Copy || (w.kind == OpKind::Move && !calm.one_disk)) {
            let at: int = if w.kind == OpKind::Copy {
                2
            } else {
                3
            };
            if at <= k < at + pieces.len() {
                assert(work[k] == pieces[k - at]);
                assert(pieces.contains(pieces[k - at]));
            }
        }
    }
    if all.drop_last().contains(Ask::CountDone) {
        let k = choose|k: int| 0 <= k < all.len() - 1 && all[k] == Ask::CountDone;
        assert(k >= head.len());
        assert(work[k - head.len()] == Ask::CountDone);
    }
    let measured = WorkerView { file_size: calm.size, ..w };
    lemma_work_messages(w, measured, calm);
    let sent = run_messages(w, calm);
    assert(sent == seq![measured.started()] + work_messages(w, calm));
    let told = work_messages(w, calm);
    assert(told.len() >= 2);
    assert(told[told.len() - 2] == OpMsgView::SlotDone { thread_id: w.slot });
}

/// The pieces that are told as a file is copied add up to what was read of it.
pub proof fn pieces_add_up(w: WorkerView, calm: Calm)
    requires
        w.stage == Stage::FirstCheck,
        calm.readable(),
        !calm.is_dir,
        w.kind == OpKind::Copy || (w.kind == OpKind::Move && !calm.one_disk),
        w.overwrite || !calm.exists,
    ensures
        bytes_told(worked(w, calm, calm.answers(w)).1) == sum_of(lengths(calm.pieces)),
{
    calm_work_is_done(w, calm);
    let start = seq![(WorkerView { file_size: calm.size, ..w }).started()];
    let pieces = piece_messages(w, calm.pieces);
    let last = last_messages(w, calm);
    lemma_piece_messages(w, WorkerView { file_size: calm.size, ..w }, calm.pieces);
    assert(run_messages(w, calm) == start + (pieces + last));
    lemma_bytes_told(start, pieces + last);
    lemma_bytes_told(pieces, last);
    lemma_pieces_told(w, calm.pieces);
    assert(start.drop_last() =~= Seq::<OpMsgView>::empty());
    assert(last.drop_last() =~= seq![last[0]]);
    assert(last.drop_last().drop_last() =~= Seq::<OpMsgView>::empty());
    assert(bytes_told(last.drop_last().drop_last()) == 0);
    assert(bytes_told(last.drop_last()) == 0);
    assert(bytes_told(start.drop_last()) == 0);
}

// ---------------------------------------------------------------------------
// The executable worker
// ---------------------------------------------------------------------------

/// What a worker does next: the messages to send, then what to do or find out.
#[derive(Debug)]
pub struct Turn {
    pub send: Vec<OpMsg>,
    pub ask: Ask,
}

fn no_messages() -> (r: Vec<OpMsg>)
    ensures
        r.deep_view() == Seq::<OpMsgView>::empty(),
{
    let r: Vec<OpMsg> = Vec::new();
    assert(r.deep_view() =~= Seq::<OpMsgView>::empty());
    r
}

fn one_message(a: OpMsg) -> (r: Vec<OpMsg>)
    ensures
        r.deep_view() == seq![a@],
{
    let mut r: Vec<OpMsg> = Vec::new();
    r.push(a);
    assert(r.deep_view() =~= seq![a@]);
    r
}

fn two_messages(a: OpMsg, b: OpMsg) -> (r: Vec<OpMsg>)
    ensures
        r.deep_view() == seq![a@, b@],
{
    let mut r: Vec<OpMsg> = Vec::new();
    r.push(a);
    r.push(b);
    assert(r.deep_view() =~= seq![a@, b@]);
    r
}

impl Worker {
    /// A worker on the file at `index` of `total`.
    pub fn new(
        kind: OpKind,
        src: DirPath,
        dst_name: Option<String>,
        overwrite: bool,
        index: usize,
        total: usize,
        bytes_total: u64,
    ) -> (r: Worker)
        ensures
            r@ == (WorkerView {
                kind,
                src: src@,
                dst_name: dst_name.deep_view(),
                overwrite,
                slot: (index as int % slots_for(total as int)) as usize,
                total,
                bytes_total,
                file_size: 0,
                error: seq![],
                stage: Stage::FirstCheck,
            }),
            r@.consistent(),
            r.slot < slots_for(total as int),
    {
        let slot = slot_of(index, total);
        Worker {
            kind,
            src,
            dst_name,
            overwrite,
            slot,
            total,
            bytes_total,
            file_size: 0,
            error: String::new(),
            stage: Stage::FirstCheck,
        }
    }

    /// The name at the target.
    pub fn target_name(&self) -> (r: String)
        ensures
            r@ == self@.target_name(),
    {
        match &self.dst_name {
            Some(name) => name.clone(),
            None => self.src.file_name_or_empty(),
        }
    }

    /// What the worker asks for.
    pub fn ask(&self) -> (r: Ask)
        ensures
            r == self@.ask(),
    {
        match self.stage {
            Stage::FirstCheck => Ask::ReadFlag,
            Stage::PauseCheck => Ask::ReadFlag,
            Stage::Paused => Ask::Sleep(100),
            Stage::LastCheck => Ask::ReadFlag,
            Stage::Measuring => Ask::Measure,
            Stage::Probing => Ask::Probe,
            Stage::CopyKind => Ask::IsDir,
            Stage::CopyTree => Ask::CopyTree,
            Stage::Opening { moving } => Ask::Open,
            Stage::StreamCheck { moving } => Ask::ReadFlag,
            Stage::StreamPauseCheck { moving } => Ask::ReadFlag,
            Stage::StreamPaused { moving } => Ask::Sleep(50),
            Stage::Reading { moving } => Ask::Read,
            Stage::Writing { moving, n } => Ask::Write(n),
            Stage::Adding { moving, n } => Ask::AddBytes(n),
            Stage::Renaming => Ask::Rename,
            Stage::RenameAdding => Ask::AddBytes(self.file_size),
            Stage::MoveKind => Ask::IsDir,
            Stage::MoveTree => Ask::CopyTree,
            Stage::RemovingTree => Ask::RemoveTree,
            Stage::RemovingFile => Ask::RemoveFile,
            Stage::DeleteKind => Ask::IsDir,
            Stage::DeletingTree => Ask::RemoveTree,
            Stage::DeletingFile => Ask::RemoveFile,
            Stage::Counting => Ask::CountDone,
            Stage::ErrorReset => Ask::ResetAnswer,
            Stage::ErrorSleep => Ask::Sleep(50),
            Stage::ErrorAnswer => Ask::ReadAnswer,
            Stage::Stopping => Ask::SetStop,
            Stage::Ended => Ask::End,
        }
    }

    fn progress(&self, done: usize, bytes: u64) -> (r: OpMsg)
        ensures
            r@ == self@.progress(done, bytes),
    {
        OpMsg::Progress {
            done,
            total: self.total,
            bytes_done: bytes,
            bytes_total: self.bytes_total,
        }
    }

    /// The stage at which the work itself starts.
    fn first_stage(&self) -> (r: Stage)
        ensures
            r == self@.work_stage(),
    {
        match self.kind {
            OpKind::Copy => Stage::CopyKind,
            OpKind::Move => Stage::Renaming,
            OpKind::Delete => Stage::DeleteKind,
        }
    }

    /// Starts the work itself.
    fn start(&mut self) -> (r: OpMsg)
        ensures
            final(self)@ == old(self)@.at(old(self)@.work_stage()),
            r@ == old(self)@.started(),
    {
        let msg = OpMsg::SlotStart {
            thread_id: self.slot,
            file: self.target_name(),
            file_size: self.file_size,
        };
        self.stage = self.first_stage();
        msg
    }

    fn settle(&mut self, outcome: Result<(), String>, then_stage: Stage)
        ensures
            final(self)@ == old(self)@.settled(
                match outcome {
                    Ok(_) => Ok(()),
                    Err(e) => Err(e@),
                },
                then_stage,
            ),
    {
        match outcome {
            Ok(_) => {
                self.stage = then_stage;
            },
            Err(e) => {
                self.stage = Stage::ErrorReset;
                self.error = e;
            },
        }
    }

    fn end_stream(&mut self, moving: bool)
        ensures
            final(self)@ == old(self)@.streamed(moving),
    {
        self.stage = if moving {
            Stage::RemovingFile
        } else {
            Stage::Counting
        };
    }

    /// A reply before the work itself starts.
    fn prepare(&mut self, told: Told) -> (r: Vec<OpMsg>)
        requires
            old(self).stage is FirstCheck || old(self).stage is PauseCheck || old(self).stage is Paused || old(self).stage is LastCheck || old(self).stage is Measuring || old(self).stage is Probing,
        ensures
            final(self)@ == old(self)@.next(told@).0,
            r.deep_view() == old(self)@.next(told@).1,
    {
        match (self.stage, told) {
            (Stage::FirstCheck, Told::Flag(f)) => {
                self.stage = if f == OP_STOP {
                    Stage::Ended
                } else {
                    Stage::PauseCheck
                };
                no_messages()
            },
            (Stage::PauseCheck, Told::Flag(f)) => {
                self.stage = if f == OP_PAUSE {
                    Stage::Paused
                } else {
                    Stage::LastCheck
                };
                no_messages()
            },
            (Stage::Paused, Told::Done) => {
                self.stage = Stage::PauseCheck;
                no_messages()
            },
            (Stage::LastCheck, Told::Flag(f)) => {
                self.stage = if f == OP_STOP {
                    Stage::Ended
                } else {
                    Stage::Measuring
                };
                no_messages()
            },
            (Stage::Measuring, Told::Size(n)) => {
                self.file_size = n;
                if self.kind != OpKind::Delete && !self.overwrite {
                    self.stage = Stage::Probing;
                    no_messages()
                } else {
                    one_message(self.start())
                }
            },
            (Stage::Probing, Told::Yes(exists)) => {
                if exists {
                    self.stage = Stage::Ended;
                    one_message(OpMsg::Skipped)
                } else {
                    one_message(self.start())
                }
            },
            _ => no_messages(),
        }
    }

    /// A reply while a file is copied piece by piece.
    fn stream(&mut self, told: Told) -> (r: Vec<OpMsg>)
        requires
            old(self).stage is Opening || old(self).stage is StreamCheck || old(self).stage is StreamPauseCheck || old(self).stage is StreamPaused || old(self).stage is Reading || old(self).stage is Writing || old(self).stage is Adding,
        ensures
            final(self)@ == old(self)@.next(told@).0,
            r.deep_view() == old(self)@.next(told@).1,
    {
        match (self.stage, told) {
            (Stage::Opening { moving }, Told::Outcome(r)) => {
                self.settle(r, Stage::StreamCheck { moving });
                no_messages()
            },
            (Stage::StreamCheck { moving }, Told::Flag(f)) => {
                if f == OP_STOP {
                    self.end_stream(moving);
                } else {
                    self.stage = Stage::StreamPauseCheck { moving };
                }
                no_messages()
            },
            (Stage::StreamPauseCheck { moving }, Told::Flag(f)) => {
                self.stage = if f == OP_PAUSE {
                    Stage::StreamPaused { moving }
                } else {
                    Stage::Reading { moving }
                };
                no_messages()
            },
            (Stage::StreamPaused { moving }, Told::Done) => {
                self.stage = Stage::StreamPauseCheck { moving };
                no_messages()
            },
            (Stage::Reading { moving }, Told::Chunk(r)) => {
                match r {
                    Ok(n) => {
                        if n == 0 {
                            self.end_stream(moving);
                        } else {
                            self.stage = Stage::Writing { moving, n };
                        }
                    },
                    Err(e) => {
                        self.settle(Err(e), Stage::Ended);
                    },
                }
                no_messages()
            },
            (Stage::Writing { moving, n }, Told::Outcome(r)) => {
                self.settle(r, Stage::Adding { moving, n });
                no_messages()
            },
            (Stage::Adding { moving, n }, Told::Totals { done, bytes }) => {
                self.stage = Stage::StreamCheck { moving };
                two_messages(
                    OpMsg::SlotProgress { thread_id: self.slot, bytes_copied: n },
                    self.progress(done, bytes),
                )
            },
            _ => no_messages(),
        }
    }

    /// A reply on a file or a directory as a whole.
    fn transfer(&mut self, told: Told) -> (r: Vec<OpMsg>)
        requires
            old(self).stage is CopyKind || old(self).stage is CopyTree || old(self).stage is Renaming || old(self).stage is RenameAdding || old(self).stage is MoveKind || old(self).stage is MoveTree || old(self).stage is RemovingTree || old(self).stage is RemovingFile || old(self).stage is DeleteKind || old(self).stage is DeletingTree || old(self).stage is DeletingFile,
        ensures
            final(self)@ == old(self)@.next(told@).0,
            r.deep_view() == old(self)@.next(told@).1,
    {
        match (self.stage, told) {
            (Stage::CopyKind, Told::Yes(is_dir)) => {
                self.stage = if is_dir {
                    Stage::CopyTree
                } else {
                    Stage::Opening { moving: false }
                };
                no_messages()
            },
            (Stage::CopyTree, Told::Outcome(r)) => {
                self.settle(r, Stage::Counting);
                no_messages()
            },
            (Stage::Renaming, Told::Outcome(r)) => {
                self.stage = match r {
                    Ok(_) => Stage::RenameAdding,
                    Err(_) => Stage::MoveKind,
                };
                no_messages()
            },
            (Stage::RenameAdding, Told::Totals { done, bytes }) => {
                self.stage = Stage::Counting;
                one_message(self.progress(done, bytes))
            },
            (Stage::MoveKind, Told::Yes(is_dir)) => {
                self.stage = if is_dir {
                    Stage::MoveTree
                } else {
                    Stage::Opening { moving: true }
                };
                no_messages()
            },
            (Stage::MoveTree, Told::Outcome(r)) => {
                self.settle(r, Stage::RemovingTree);
                no_messages()
            },
            (Stage::RemovingTree, Told::Outcome(r)) => {
                self.settle(r, Stage::Counting);
                no_messages()
            },
            (Stage::RemovingFile, Told::Outcome(r)) => {
                self.settle(r, Stage::Counting);
                no_messages()
            },
            (Stage::DeleteKind, Told::Yes(is_dir)) => {
                self.stage = if is_dir {
                    Stage::DeletingTree
                } else {
                    Stage::DeletingFile
                };
                no_messages()
            },
            (Stage::DeletingTree, Told::Outcome(r)) => {
                self.settle(r, Stage::Counting);
                no_messages()
            },
            (Stage::DeletingFile, Told::Outcome(r)) => {
                self.settle(r, Stage::Counting);
                no_messages()
            },
            _ => no_messages(),
        }
    }

    /// A reply after the work itself.
    fn conclude(&mut self, told: Told) -> (r: Vec<OpMsg>)
        requires
            old(self).stage is Counting || old(self).stage is ErrorReset || old(self).stage is ErrorSleep || old(self).stage is ErrorAnswer || old(self).stage is Stopping || old(self).stage is Ended,
        ensures
            final(self)@ == old(self)@.next(told@).0,
            r.deep_view() == old(self)@.next(told@).1,
    {
        match (self.stage, told) {
            (Stage::Counting, Told::Totals { done, bytes }) => {
                self.stage = Stage::Ended;
                two_messages(
                    OpMsg::SlotDone { thread_id: self.slot },
                    self.progress(done, bytes),
                )
            },
            (Stage::ErrorReset, Told::Done) => {
                self.stage = Stage::ErrorSleep;
                one_message(
                    OpMsg::ErrorWait {
                        file: self.src.file_name_or_empty(),
                        error: self.error.clone(),
                    },
                )
            },
            (Stage::ErrorSleep, Told::Done) => {
                self.stage = Stage::ErrorAnswer;
                no_messages()
            },
            (Stage::ErrorAnswer, Told::Answer(a)) => {
                self.stage = if a == ERR_RETRY {
                    self.first_stage()
                } else if a == ERR_SKIP {
                    Stage::Ended
                } else if a == ERR_CANCEL {
                    Stage::Stopping
                } else {
                    Stage::ErrorSleep
                };
                no_messages()
            },
            (Stage::Stopping, Told::Done) => {
                self.stage = Stage::Ended;
                no_messages()
            },
            _ => no_messages(),
        }
    }

    /// Takes in a reply.
    pub fn step(&mut self, told: Told) -> (r: Turn)
        ensures
            final(self)@ == old(self)@.next(told@).0,
            r.send.deep_view() == old(self)@.next(told@).1,
            r.ask == final(self)@.ask(),
    {
        let send = match self.stage {
            Stage::FirstCheck | Stage::PauseCheck | Stage::Paused | Stage::LastCheck | Stage::Measuring | Stage::Probing => {
                self.prepare(told)
            },
            Stage::Opening { .. } | Stage::StreamCheck { .. } | Stage::StreamPauseCheck { .. } | Stage::StreamPaused { .. } | Stage::Reading { .. } | Stage::Writing { .. } | Stage::Adding { .. } => {
                self.stream(told)
            },
            Stage::CopyKind | Stage::CopyTree | Stage::Renaming | Stage::RenameAdding | Stage::MoveKind | Stage::MoveTree | Stage::RemovingTree | Stage::RemovingFile | Stage::DeleteKind | Stage::DeletingTree | Stage::DeletingFile => {
                self.transfer(told)
            },
            Stage::Counting | Stage::ErrorReset | Stage::ErrorSleep | Stage::ErrorAnswer | Stage::Stopping | Stage::Ended => {
                self.conclude(told)
            },
        };
        Turn { send, ask: self.ask() }
    }
}

/// The message that ends an operation, for the flag that it has then.
pub fn closing_message(flag: u8) -> (r: OpMsg)
    ensures
        r@ == if flag == OP_STOP {
            OpMsgView::Error("Operace zastavena uživatelem."@)
        } else {
            OpMsgView::Finished
        },
{
    if flag == OP_STOP {
        OpMsg::Error("Operace zastavena uživatelem.".to_owned())
    } else {
        OpMsg::Finished
    }
}

// ---------------------------------------------------------------------------
// Progress
// ---------------------------------------------------------------------------

/// The file that a slot works on.
#[derive(Debug)]
pub struct FileSlot {
    pub file: String,
    pub size: u64,
    pub copied: u64,
}

/// What a slot holds.
#[verifier::ext_equal]
pub struct SlotView {
    pub file: Seq<char>,
    pub size: u64,
    pub copied: u64,
}

impl View for FileSlot {
    type V = SlotView;

    open spec fn view(&self) -> SlotView {
        SlotView { file: self.file@, size: self.size, copied: self.copied }
    }
}

impl DeepView for FileSlot {
    type V = SlotView;

    open spec fn deep_view(&self) -> SlotView {
        self.view()
    }
}

/// The state of the progress window.
#[derive(Debug)]
pub struct OpProgress {
    /// Whether messages of an operation are awaited.
    pub running: bool,
    /// Whether there is an operation that can be paused and stopped.
    pub stoppable: bool,
    /// The file and the error on which an answer is awaited.
    pub err_wait: Option<(String, String)>,
    /// The chosen answer: try again, leave out, give up.
    pub err_focus: usize,
    pub kind_label: String,
    pub done: usize,
    pub total: usize,
    pub bytes_done: u64,
    pub bytes_total: u64,
    pub skipped: usize,
    pub errors: Vec<String>,
    pub slots: Vec<Option<FileSlot>>,
    pub show: bool,
}

/// What the state of the progress window is.
#[verifier::ext_equal]
pub struct ProgressView {
    pub running: bool,
    pub stoppable: bool,
    pub err_wait: Option<(Seq<char>, Seq<char>)>,
    pub err_focus: usize,
    pub kind_label: Seq<char>,
    pub done: usize,
    pub total: usize,
    pub bytes_done: u64,
    pub bytes_total: u64,
    pub skipped: usize,
    pub errors: Seq<Seq<char>>,
    pub slots: Seq<Option<SlotView>>,
    pub show: bool,
}

impl View for OpProgress {
    type V = ProgressView;

    open spec fn view(&self) -> ProgressView {
        ProgressView {
            running: self.running,
            stoppable: self.stoppable,
            err_wait: self.err_wait.deep_view(),
            err_focus: self.err_focus,
            kind_label: self.kind_label@,
            done: self.done,
            total: self.total,
            bytes_done: self.bytes_done,
            bytes_total: self.bytes_total,
            skipped: self.skipped,
            errors: self.errors.deep_view(),
            slots: self.slots.deep_view(),
            show: self.show,
        }
    }
}

/// What follows from a message, beyond the progress window.
#[derive(Clone, Copy, Debug, PartialEq, Eq, Structural)]
pub enum OpEffect {
    /// Nothing.
    Nothing,
    /// The operation is over: both panels have to be read again.
    Over,
    /// The operation waits for an answer; the messages behind this one have to wait too.
    Waiting,
}

impl ProgressView {
    /// The window before any operation.
    pub open spec fn idle() -> ProgressView {
        ProgressView {
            running: false,
            stoppable: false,
            err_wait: None,
            err_focus: 0,
            kind_label: seq![],
            done: 0,
            total: 0,
            bytes_done: 0,
            bytes_total: 0,
            skipped: 0,
            errors: seq![],
            slots: seq![],
            show: false,
        }
    }

    /// Whether a message can be counted: no sum runs over.
    pub open spec fn takes(self, msg: OpMsgView) -> bool {
        match msg {
            OpMsgView::SlotProgress { thread_id, bytes_copied } => {
                thread_id < self.slots.len() && self.slots[thread_id as int] is Some
                    ==> self.slots[thread_id as int]->0.copied + bytes_copied <= u64::MAX
            },
            OpMsgView::Skipped => self.skipped < usize::MAX && self.done < usize::MAX,
            _ => true,
        }
    }

    /// The state after a message.
    pub open spec fn after(self, msg: OpMsgView) -> ProgressView {
        match msg {
            OpMsgView::SlotStart { thread_id, file, file_size } => if thread_id < self.slots.len() {
                ProgressView {
                    slots: self.slots.update(
                        thread_id as int,
                        Some(SlotView { file, size: file_size, copied: 0 }),
                    ),
                    ..self
                }
            } else {
                self
            },
            OpMsgView::SlotProgress { thread_id, bytes_copied } => if thread_id < self.slots.len()
                && self.slots[thread_id as int] is Some {
                let slot = self.slots[thread_id as int]->0;
                ProgressView {
                    slots: self.slots.update(
                        thread_id as int,
                        Some(SlotView { copied: (slot.copied + bytes_copied) as u64, ..slot }),
                    ),
                    ..self
                }
            } else {
                self
            },
            OpMsgView::SlotDone { thread_id } => if thread_id < self.slots.len() {
                ProgressView { slots: self.slots.update(thread_id as int, None), ..self }
            } else {
                self
            },
            OpMsgView::Progress { done, total, bytes_done, bytes_total } => ProgressView {
                done,
                total,
                bytes_done,
                bytes_total,
                ..self
            },
            OpMsgView::Skipped => ProgressView {
                skipped: (self.skipped + 1) as usize,
                done: if self.done < self.total {
                    (self.done + 1) as usize
                } else {
                    self.total
                },
                ..self
            },
            OpMsgView::Finished => ProgressView { done: self.total, slots: seq![], ..self },
            OpMsgView::Error(e) => ProgressView {
                errors: self.errors.push(e),
                slots: seq![],
                ..self
            },
            OpMsgView::ErrorWait { file, error } => ProgressView {
                err_wait: Some((file, error)),
                err_focus: 0,
                ..self
            },
        }
    }

    /// The state of an operation that has just started.
    pub open spec fn started(label: Seq<char>, total: usize, err_focus: usize) -> ProgressView {
        ProgressView {
            running: true,
            stoppable: true,
            err_wait: None,
            err_focus,
            kind_label: label,
            done: 0,
            total,
            bytes_done: 0,
            bytes_total: 0,
            skipped: 0,
            errors: seq![],
            slots: Seq::new(slots_for(total as int) as nat, |i: int| None::<SlotView>),
            show: true,
        }
    }
}

/// What follows from a message.
pub open spec fn effect_of(msg: OpMsgView) -> OpEffect {
    match msg {
        OpMsgView::Finished => OpEffect::Over,
        OpMsgView::Error(_) => OpEffect::Over,
        OpMsgView::ErrorWait { file, error } => OpEffect::Waiting,
        _ => OpEffect::Nothing,
    }
}

/// The answer that stands at a position of the error window.
pub open spec fn answer_at(focus: usize) -> u8 {
    if focus == 0 {
        ERR_RETRY
    } else if focus == 1 {
        ERR_SKIP
    } else {
        ERR_CANCEL
    }
}

/// Leaving files out never counts more files as done than there are.
pub proof fn done_within_total(p: ProgressView, msg: OpMsgView)
    requires
        p.done <= p.total,
        msg matches OpMsgView::Progress { done, total, .. } ==> done <= total,
    ensures
        p.after(msg).done <= p.after(msg).total,
{
}

/// When an operation has finished, every file counts as done and no slot is at work.
pub proof fn finished_is_complete(p: ProgressView)
    ensures
        p.after(OpMsgView::Finished).done == p.after(OpMsgView::Finished).total,
        p.after(OpMsgView::Finished).slots.len() == 0,
{
}

/// The messages of a worker speak of a slot that the progress window has.
pub proof fn slots_in_range(index: usize, total: usize, label: Seq<char>)
    ensures
        0 <= index as int % slots_for(total as int) < ProgressView::started(
            label,
            total,
            0,
        ).slots.len(),
{
}

impl OpProgress {
    /// The window before any operation.
    pub fn new() -> (r: OpProgress)
        ensures
            r@ == ProgressView::idle(),
    {
        let r = OpProgress {
            running: false,
            stoppable: false,
            err_wait: None,
            err_focus: 0,
            kind_label: String::new(),
            done: 0,
            total: 0,
            bytes_done: 0,
            bytes_total: 0,
            skipped: 0,
            errors: Vec::new(),
            slots: Vec::new(),
            show: false,
        };
        assert(r@.errors =~= seq![]);
        assert(r@.slots =~= seq![]);
        r
    }

    /// Starts to show an operation on `total` files.
    pub fn start(&mut self, label: &str, total: usize)
        ensures
            final(self)@ == ProgressView::started(label@, total, old(self).err_focus),
    {
        let n = slot_count(total);
        let mut slots: Vec<Option<FileSlot>> = Vec::new();
        let mut i: usize = 0;
        while i < n
            invariant
                i <= n,
                slots.len() == i,
                forall|k: int| 0 <= k < i ==> slots[k] is None,
            decreases n - i,
        {
            slots.push(None);
            i += 1;
        }
        self.running = true;
        self.stoppable = true;
        self.err_wait = None;
        self.kind_label = label.to_owned();
        self.done = 0;
        self.total = total;
        self.bytes_done = 0;
        self.bytes_total = 0;
        self.skipped = 0;
        self.errors = Vec::new();
        self.slots = slots;
        self.show = true;
        proof {
            assert(self@.errors =~= seq![]);
            assert(self@.slots =~= ProgressView::started(label@, total, self.err_focus).slots);
        }
    }

    /// Whether a message can be counted.
    pub fn can_take(&self, msg: &OpMsg) -> (r: bool)
        ensures
            r == self@.takes(msg@),
    {
        match msg {
            OpMsg::SlotProgress { thread_id, bytes_copied } => {
                if *thread_id < self.slots.len() {
                    assert(self@.slots[*thread_id as int] == self.slots[*thread_id as int].deep_view());
                    match &self.slots[*thread_id] {
                        Some(slot) => *bytes_copied <= u64::MAX - slot.copied,
                        None => true,
                    }
                } else {
                    true
                }
            },
            OpMsg::Skipped => self.skipped < usize::MAX && self.done < usize::MAX,
            _ => true,
        }
    }

    /// Takes in a message.
    pub fn apply(&mut self, msg: OpMsg) -> (r: OpEffect)
        requires
            old(self)@.takes(msg@),
        ensures
            final(self)@ == old(self)@.after(msg@),
            r == effect_of(msg@),
    {
        let ghost before = self.slots.deep_view();
        match msg {
            OpMsg::SlotStart { thread_id, file, file_size } => {
                if thread_id < self.slots.len() {
                    self.slots.set(thread_id, Some(FileSlot { file, size: file_size, copied: 0 }));
                    assert(self@.slots =~= before.update(
                        thread_id as int,
                        Some(SlotView { file: file@, size: file_size, copied: 0 }),
                    ));
                }
                OpEffect::Nothing
            },
            OpMsg::SlotProgress { thread_id, bytes_copied } => {
                if thread_id < self.slots.len() {
                    assert(before[thread_id as int] == self.slots[thread_id as int].deep_view());
                    let next = match &self.slots[thread_id] {
                        Some(slot) => {
                            Some(
                                FileSlot {
                                    file: slot.file.clone(),
                                    size: slot.size,
                                    copied: slot.copied + bytes_copied,
                                },
                            )
                        },
                        None => None,
                    };
                    if next.is_some() {
                        self.slots.set(thread_id, next);
                        assert(self@.slots =~= before.update(
                            thread_id as int,
                            next.deep_view(),
                        ));
                    }
                }
                OpEffect::Nothing
            },
            OpMsg::SlotDone { thread_id } => {
                if thread_id < self.slots.len() {
                    self.slots.set(thread_id, None);
                    assert(self@.slots =~= before.update(thread_id as int, None));
                }
                OpEffect::Nothing
            },
            OpMsg::Progress { done, total, bytes_done, bytes_total } => {
                self.done = done;
                self.total = total;
                self.bytes_done = bytes_done;
                self.bytes_total = bytes_total;
                OpEffect::Nothing
            },
            OpMsg::Skipped => {
                self.skipped = self.skipped + 1;
                self.done = if self.done + 1 < self.total {
                    self.done + 1
                } else {
                    self.total
                };
                OpEffect::Nothing
            },
            OpMsg::Finished => {
                self.done = self.total;
                self.slots = Vec::new();
                assert(self@.slots =~= seq![]);
                OpEffect::Over
            },
            OpMsg::Error(e) => {
                let ghost errors = self@.errors;
                self.errors.push(e);
                self.slots = Vec::new();
                assert(self@.slots =~= seq![]);
                assert(self@.errors =~= errors.push(e@));
                OpEffect::Over
            },
            OpMsg::ErrorWait { file, error } => {
                self.err_wait = Some((file, error));
                self.err_focus = 0;
                OpEffect::Waiting
            },
        }
    }

    /// Ends a look at the messages that had come: an operation that is over is not awaited
    /// any longer.
    pub fn end_poll(&mut self, still_running: bool)
        ensures
            final(self)@ == (ProgressView {
                running: still_running,
                stoppable: still_running && old(self).stoppable,
                ..old(self)@
            }),
    {
        self.running = still_running;
        if !still_running {
            self.stoppable = false;
        }
    }

    /// Answers an error with the chosen answer; the second part tells whether the operation
    /// is to stop.
    pub fn resolve_op_error(&mut self) -> (r: (u8, bool))
        ensures
            final(self)@ == (ProgressView { err_wait: None, ..old(self)@ }),
            r.0 == answer_at(old(self).err_focus),
            r.1 == (r.0 == ERR_CANCEL && old(self).stoppable),
    {
        let answer: u8 = if self.err_focus == 0 {
            ERR_RETRY
        } else if self.err_focus == 1 {
            ERR_SKIP
        } else {
            ERR_CANCEL
        };
        self.err_wait = None;
        (answer, answer == ERR_CANCEL && self.stoppable)
    }
}

/// The name of a file for the progress window: its last characters, where it is long.
pub open spec fn short_name(name: Seq<char>) -> Seq<char> {
    if name.len() > 34 {
        "..."@ + text::after(name, name.len() - 31)
    } else {
        name
    }
}

/// The name of a file for the progress window.
pub fn shorten(name: &str) -> (r: String)
    ensures
        r@ == short_name(name@),
{
    let v = text::chars_of(name);
    if v.len() > 34 {
        let mut s = "...".to_owned();
        let tail = text::text_of(&v, v.len() - 31, v.len());
        s.append(tail.as_str());
        s
    } else {
        name.to_owned()
    }
}

// ---------------------------------------------------------------------------
// Laws of pauses and failures
// ---------------------------------------------------------------------------

/// A pause only delays a worker: asked to pause, it sleeps and then stands where it stood, with
/// nothing sent.
pub proof fn worker_pause_only_delays(w: WorkerView)
    requires
        w.stage == Stage::PauseCheck || w.stage is StreamPauseCheck,
    ensures
        ({
            let (p, sent) = w.next(ToldView::Flag(OP_PAUSE));
            &&& sent == Seq::<OpMsgView>::empty()
            &&& p.ask() is Sleep
            &&& p.next(ToldView::Done) == (w, Seq::<OpMsgView>::empty())
        }),
{
}

/// A flag that asks neither to stop nor to pause is no other than the flag to run.
pub proof fn worker_flag_runs(w: WorkerView, f: u8)
    requires
        f != OP_STOP,
        f != OP_PAUSE,
    ensures
        w.next(ToldView::Flag(f)) == w.next(ToldView::Flag(OP_RUN)),
{
}

/// Once the source is open, a copy is over only where the source has no further byte, where the
/// operation is stopped, or where something fails.
pub proof fn worker_copies_to_the_end(w: WorkerView, told: ToldView)
    requires
        w.stage is StreamCheck || w.stage is StreamPauseCheck || w.stage is StreamPaused
            || w.stage is Reading || w.stage is Writing || w.stage is Adding,
    ensures
        ({
            let ask = w.next(told).0.ask();
            ask == Ask::CountDone || ask == Ask::RemoveFile || ask == Ask::End ==> {
                ||| w.ask() == Ask::Read && told == ToldView::Chunk(Ok(0))
                ||| w.stage is StreamCheck && told == ToldView::Flag(OP_STOP)
            }
        }),
{
}

/// What was read is written before anything else is read: a piece of the source is followed by
/// its own write, and that by its own count.
pub proof fn worker_writes_what_it_read(w: WorkerView, n: u64, done: usize, bytes: u64)
    requires
        w.stage is Reading,
        n > 0,
    ensures
        ({
            let (a, sent_a) = w.next(ToldView::Chunk(Ok(n)));
            let (b, sent_b) = a.next(ToldView::Outcome(Ok(())));
            let (c, sent_c) = b.next(ToldView::Totals { done, bytes });
            &&& a.ask() == Ask::Write(n)
            &&& sent_a == Seq::<OpMsgView>::empty()
            &&& b.ask() == Ask::AddBytes(n)
            &&& sent_b == Seq::<OpMsgView>::empty()
            &&& c.ask() == Ask::ReadFlag
            &&& sent_c == seq![
                OpMsgView::SlotProgress { thread_id: w.slot, bytes_copied: n },
                OpMsgView::Progress {
                    done,
                    total: w.total,
                    bytes_done: bytes,
                    bytes_total: w.bytes_total,
                },
            ]
            &&& c.next(ToldView::Flag(OP_RUN)).0.next(ToldView::Flag(OP_RUN)).0 == w
        }),
{
}

/// Where copying, opening, reading, writing or removing fails, the worker takes back the last
/// answer, tells the file and the error, and waits for an answer.
pub proof fn worker_tells_failure(w: WorkerView, e: Seq<char>)
    requires
        w.ask() == Ask::CopyTree || w.ask() == Ask::Open || w.ask() is Write || w.ask()
            == Ask::RemoveTree || w.ask() == Ask::RemoveFile || w.ask() == Ask::Read,
    ensures
        ({
            let told = if w.ask() == Ask::Read {
                ToldView::Chunk(Err(e))
            } else {
                ToldView::Outcome(Err(e))
            };
            let (a, sent_a) = w.next(told);
            let (b, sent_b) = a.next(ToldView::Done);
            let (c, sent_c) = b.next(ToldView::Done);
            &&& a.ask() == Ask::ResetAnswer
            &&& sent_a == Seq::<OpMsgView>::empty()
            &&& b.ask() is Sleep
            &&& sent_b == seq![OpMsgView::ErrorWait { file: w.file_name(), error: e }]
            &&& c.ask() == Ask::ReadAnswer
            &&& sent_c == Seq::<OpMsgView>::empty()
            &&& c.kind == w.kind && c.src == w.src && c.dst_name == w.dst_name && c.file_size
                == w.file_size
        }),
{
}

/// A file that cannot be renamed is copied and removed instead; that is no failure.
pub proof fn worker_copies_across_disks(w: WorkerView, e: Seq<char>)
    requires
        w.ask() == Ask::Rename,
    ensures
        ({
            let (a, sent) = w.next(ToldView::Outcome(Err(e)));
            &&& a.ask() == Ask::IsDir
            &&& sent == Seq::<OpMsgView>::empty()
            &&& a.next(ToldView::Yes(true)).0.ask() == Ask::CopyTree
            &&& a.next(ToldView::Yes(true)).0.next(ToldView::Outcome(Ok(()))).0.ask()
                == Ask::RemoveTree
            &&& a.next(ToldView::Yes(false)).0.ask() == Ask::Open
        }),
{
}

/// Giving up after an error stops the whole operation and ends the worker; leaving the file out
/// ends the worker alone; neither counts the file or sends anything.
pub proof fn worker_gives_up(w: WorkerView)
    requires
        w.ask() == Ask::ReadAnswer,
    ensures
        ({
            let (a, sent) = w.next(ToldView::Answer(ERR_CANCEL));
            &&& a.ask() == Ask::SetStop
            &&& sent == Seq::<OpMsgView>::empty()
            &&& a.next(ToldView::Done).0.ask() == Ask::End
            &&& a.next(ToldView::Done).1 == Seq::<OpMsgView>::empty()
        }),
        w.next(ToldView::Answer(ERR_SKIP)).0.ask() == Ask::End,
        w.next(ToldView::Answer(ERR_SKIP)).1 == Seq::<OpMsgView>::empty(),
{
}

/// A worker that tries again does all of its work anew, the look at the target aside, and where
/// nothing fails then, the file is done and counted as if nothing had failed before.
pub proof fn retried_work_is_done(w: WorkerView, calm: Calm)
    requires
        w.ask() == Ask::ReadAnswer,
        calm.readable(),
    ensures
        ({
            let again = w.next(ToldView::Answer(ERR_RETRY)).0;
            let (asks, sent, end) = worked(again, calm, calm.answers(again));
            &&& asks == work_deeds(w.kind, w.file_size, calm)
            &&& sent == work_messages(w, calm)
            &&& end.ask() == Ask::End
        }),
{
    let again = w.next(ToldView::Answer(ERR_RETRY)).0;
    lemma_worked(again, calm);
    lemma_work_messages(again, w, calm);
}

/// What a worker does, the looks at the flag and the waiting aside.
pub open spec fn waking_deed(ask: Ask) -> Seq<Ask> {
    if ask == Ask::ReadFlag || ask is Sleep {
        seq![]
    } else {
        seq![ask]
    }
}

/// What a worker is told where the flag is answered by `flags`, one by one, and then by the flag
/// to run.
pub open spec fn told_with(w: WorkerView, calm: Calm, flags: Seq<u8>) -> ToldView {
    if w.ask() == Ask::ReadFlag && flags.len() > 0 {
        ToldView::Flag(flags[0])
    } else {
        calm.told(w)
    }
}

/// The answers to the flag that are left.
pub open spec fn flags_left(w: WorkerView, flags: Seq<u8>) -> Seq<u8> {
    if w.ask() == Ask::ReadFlag && flags.len() > 0 {
        flags.drop_first()
    } else {
        flags
    }
}

/// What a worker does and sends in the given number of answers, with pauses, and where it then
/// stands.
pub open spec fn worked_with_pauses(w: WorkerView, calm: Calm, flags: Seq<u8>, n: nat) -> (
    Seq<Ask>,
    Seq<OpMsgView>,
    WorkerView,
)
    decreases n,
{
    if n == 0 {
        (seq![], seq![], w)
    } else {
        let (next, sent) = w.next(told_with(w, calm, flags));
        let (asks, rest, end) = worked_with_pauses(
            next,
            calm.after(w),
            flags_left(w, flags),
            (n - 1) as nat,
        );
        (waking_deed(w.ask()) + asks, sent + rest, end)
    }
}

/// The worker as it was before it fell asleep.
spec fn woken(w: WorkerView) -> WorkerView {
    match w.stage {
        Stage::Paused => w.at(Stage::PauseCheck),
        Stage::StreamPaused { moving } => w.at(Stage::StreamPauseCheck { moving }),
        _ => w,
    }
}

proof fn lemma_paused_run(w: WorkerView, calm: Calm, flags: Seq<u8>) -> (n: nat)
    requires
        calm.agrees(woken(w)),
        forall|i: int| 0 <= i < flags.len() ==> #[trigger] flags[i] != OP_STOP,
    ensures
        ({
            let (asks, sent, end) = worked_with_pauses(w, calm, flags, n);
            &&& asks == deeds_left(woken(w), calm)
            &&& sent == messages_left(woken(w), calm)
            &&& end.stage == Stage::Ended
            &&& end.error == w.error
        }),
    decreases
            flags.len(),
            2 * calm.answers(woken(w)) + if woken(w) == w {
                0int
            } else {
                1
            },
{
    if w.stage == Stage::Ended {
        0
    } else if w.stage == Stage::Paused || w.stage is StreamPaused {
        let next = w.next(told_with(w, calm, flags)).0;
        assert(next == woken(w));
        assert(woken(next) == next);
        let m = lemma_paused_run(next, calm, flags);
        let (asks, sent, end) = worked_with_pauses(next, calm, flags, m);
        assert(Seq::<Ask>::empty() + asks =~= asks);
        assert(Seq::<OpMsgView>::empty() + sent =~= sent);
        m + 1
    } else if (w.stage == Stage::PauseCheck || w.stage is StreamPauseCheck) && flags.len() > 0
        && flags[0] == OP_PAUSE {
        let next = w.next(told_with(w, calm, flags)).0;
        assert(woken(next) == w);
        let left = flags.drop_first();
        assert forall|i: int| 0 <= i < left.len() implies #[trigger] left[i] != OP_STOP by {
            assert(left[i] == flags[i + 1]);
        }
        let m = lemma_paused_run(next, calm, left);
        let (asks, sent, end) = worked_with_pauses(next, calm, left, m);
        assert(Seq::<Ask>::empty() + asks =~= asks);
        assert(Seq::<OpMsgView>::empty() + sent =~= sent);
        m + 1
    } else {
        let told = told_with(w, calm, flags);
        assert(w.next(told) == w.next(calm.told(w)));
        lemma_answer_taken(w, calm);
        lemma_deed_done(w, calm);
        lemma_messages_sent(w, calm);
        let next = w.next(told).0;
        let left = flags_left(w, flags);
        assert forall|i: int| 0 <= i < left.len() implies #[trigger] left[i] != OP_STOP by {
            if left != flags {
                assert(left[i] == flags[i + 1]);
            }
        }
        assert(woken(next) == next);
        let m = lemma_paused_run(next, calm.after(w), left);
        assert(waking_deed(w.ask()) == deed(w.ask()));
        m + 1
    }
}

/// Pauses change nothing of what is done: whatever the answers to the flag are, as long as none
/// asks to stop and no pause lasts for ever, a worker ends, and it has done and told what it
/// does and tells without a pause.
pub proof fn pauses_change_nothing(w: WorkerView, calm: Calm, flags: Seq<u8>) -> (n: nat)
    requires
        w.stage == Stage::FirstCheck,
        calm.readable(),
        forall|i: int| 0 <= i < flags.len() ==> #[trigger] flags[i] != OP_STOP,
    ensures
        ({
            let (asks, sent, end) = worked_with_pauses(w, calm, flags, n);
            let (asks_run, sent_run, end_run) = worked(w, calm, calm.answers(w));
            &&& asks == asks_run
            &&& sent == sent_run
            &&& end.ask() == Ask::End
            &&& end.error == w.error
        }),
{
    calm_work_is_done(w, calm);
    lemma_paused_run(w, calm, flags)
}

// ---------------------------------------------------------------------------
// Laws of slots, conflicts and progress
// ---------------------------------------------------------------------------

/// An operation has a slot for each file, at least one and at most as many as there may be.
pub proof fn slots_are_bounded(total: int)
    ensures
        1 <= slots_for(total) <= MAX_SLOTS,
        1 <= total <= MAX_SLOTS ==> slots_for(total) == total,
        total > MAX_SLOTS ==> slots_for(total) == MAX_SLOTS,
{
}

/// Sizes add up, in whatever parts they are added.
pub proof fn sums_add_up(a: Seq<u64>, b: Seq<u64>, n: u64)
    ensures
        sum_of(a + b) == sum_of(a) + sum_of(b),
        sum_of(seq![n]) == n,
    decreases b.len(),
{
    if b.len() == 0 {
        assert(a + b =~= a);
    } else {
        assert((a + b).drop_last() =~= a + b.drop_last());
        assert((a + b).last() == b.last());
        sums_add_up(a, b.drop_last(), n);
    }
    assert(seq![n].drop_last() =~= Seq::<u64>::empty());
    assert(sum_of(Seq::<u64>::empty()) == 0);
}

/// A further file conflicts exactly where it has a name and something exists at its target; the
/// name told is the one that it gets there.
pub proof fn conflicts_file_by_file(
    files: Seq<PathView>,
    file: PathView,
    dst_name: Option<Seq<char>>,
    exists: Seq<bool>,
)
    ensures
        conflicting_files(Seq::<PathView>::empty(), dst_name, exists).len() == 0,
        exists[files.len() as int] && dst_name is Some ==> conflicting_files(
            files.push(file),
            dst_name,
            exists,
        ) == conflicting_files(files, dst_name, exists) + seq![dst_name->0],
        exists[files.len() as int] && dst_name is None && file.name() is Some
            ==> conflicting_files(files.push(file), dst_name, exists) == conflicting_files(
            files,
            dst_name,
            exists,
        ) + seq![file.name()->0],
        !exists[files.len() as int] || (dst_name is None && file.name() is None)
            ==> conflicting_files(files.push(file), dst_name, exists) == conflicting_files(
            files,
            dst_name,
            exists,
        ),
{
    assert(files.push(file).drop_last() =~= files);
    let front = conflicting_files(files, dst_name, exists);
    if dst_name is Some {
        assert(front.push(dst_name->0) =~= front + seq![dst_name->0]);
    } else if file.name() is Some {
        assert(front.push(file.name()->0) =~= front + seq![file.name()->0]);
    }
}

/// A further name conflicts exactly where something exists at its target.
pub proof fn conflicts_name_by_name(names: Seq<Seq<char>>, name: Seq<char>, exists: Seq<bool>)
    ensures
        conflicting_names(Seq::<Seq<char>>::empty(), exists).len() == 0,
        exists[names.len() as int] ==> conflicting_names(names.push(name), exists)
            == conflicting_names(names, exists) + seq![name],
        !exists[names.len() as int] ==> conflicting_names(names.push(name), exists)
            == conflicting_names(names, exists),
{
    assert(names.push(name).drop_last() =~= names);
    let front = conflicting_names(names, exists);
    assert(front.push(name) =~= front + seq![name]);
}

/// The life of a slot: it starts with nothing copied, what is told of it adds up, and at the end
/// it is free; the other slots and all else stay as they were.
pub proof fn slot_adds_up(
    p: ProgressView,
    thread_id: usize,
    file: Seq<char>,
    file_size: u64,
    n: u64,
    m: u64,
)
    requires
        thread_id < p.slots.len(),
        n + m <= u64::MAX,
    ensures
        ({
            let a = p.after(OpMsgView::SlotStart { thread_id, file, file_size });
            let b = a.after(OpMsgView::SlotProgress { thread_id, bytes_copied: n });
            let c = b.after(OpMsgView::SlotProgress { thread_id, bytes_copied: m });
            let d = c.after(OpMsgView::SlotDone { thread_id });
            &&& c.slots[thread_id as int] == Some(
                SlotView { file, size: file_size, copied: (n + m) as u64 },
            )
            &&& d.slots[thread_id as int] is None
            &&& d.slots.len() == p.slots.len()
            &&& c == (ProgressView { slots: c.slots, ..p })
            &&& d == (ProgressView { slots: d.slots, ..p })
            &&& forall|k: int|
                0 <= k < p.slots.len() && k != thread_id ==> #[trigger] c.slots[k] == p.slots[k]
            &&& forall|k: int|
                0 <= k < p.slots.len() && k != thread_id ==> #[trigger] d.slots[k] == p.slots[k]
        }),
{
}

/// What the other messages do: the totals are taken over, a file that was left out is counted as
/// done too, an error ends the operation and is kept, a failure is shown with the first answer
/// chosen.
pub proof fn messages_are_taken_in(p: ProgressView, msg: OpMsgView)
    ensures
        msg matches OpMsgView::Progress { done, total, bytes_done, bytes_total } ==> p.after(msg)
            == (ProgressView { done, total, bytes_done, bytes_total, ..p }),
        msg is Skipped && p.takes(msg) ==> p.after(msg).skipped == p.skipped + 1 && p.after(
            msg,
        ).total == p.total && (p.done < p.total ==> p.after(msg).done == p.done + 1),
        msg matches OpMsgView::Error(e) ==> p.after(msg).errors == p.errors + seq![e] && p.after(
            msg,
        ).slots.len() == 0 && p.after(msg).done == p.done && p.after(msg).skipped == p.skipped,
        msg matches OpMsgView::ErrorWait { file, error } ==> p.after(msg) == (ProgressView {
            err_wait: Some((file, error)),
            err_focus: 0,
            ..p
        }),
        effect_of(msg) == OpEffect::Over <==> msg is Finished || msg is Error,
        effect_of(msg) == OpEffect::Waiting <==> msg is ErrorWait,
        p.after(msg).kind_label == p.kind_label,
        p.after(msg).running == p.running,
        p.after(msg).show == p.show,
        !(msg is ErrorWait) ==> p.after(msg).err_wait == p.err_wait,
        !(msg is Error) ==> p.after(msg).errors == p.errors,
        !(msg is Skipped) ==> p.after(msg).skipped == p.skipped,
{
    if let OpMsgView::Error(e) = msg {
        assert(p.errors.push(e) =~= p.errors + seq![e]);
    }
}

/// A message on a slot that there is not, or that is not at work, changes nothing.
pub proof fn strange_slots_are_passed_over(p: ProgressView, thread_id: usize, n: u64)
    requires
        thread_id >= p.slots.len() || p.slots[thread_id as int] is None,
    ensures
        p.after(OpMsgView::SlotProgress { thread_id, bytes_copied: n }) == p,
        thread_id >= p.slots.len() ==> p.after(OpMsgView::SlotDone { thread_id }) == p,
{
}

/// An operation starts with nothing done and every slot free.
pub proof fn operation_starts_empty(label: Seq<char>, total: usize, err_focus: usize)
    ensures
        ({
            let p = ProgressView::started(label, total, err_focus);
            &&& p.running && p.show && p.stoppable
            &&& p.done == 0 && p.bytes_done == 0 && p.skipped == 0 && p.errors.len() == 0
            &&& p.total == total
            &&& p.kind_label == label
            &&& p.err_wait is None
            &&& p.slots.len() == slots_for(total as int)
            &&& forall|k: int| 0 <= k < p.slots.len() ==> #[trigger] p.slots[k] is None
        }),
{
}

/// A short name is shown whole; of a long one the last characters are, behind three points, and
/// what is shown is never longer than what is shown whole.
pub proof fn short_names(name: Seq<char>, head: Seq<char>, tail: Seq<char>)
    ensures
        short_name(name).len() <= 34,
        name.len() <= 34 ==> short_name(name) == name,
        head.len() > 3 && tail.len() == 31 ==> short_name(head + tail) == seq!['.', '.', '.']
            + tail,
{
    reveal_strlit("...");
    assert("..."@ =~= seq!['.', '.', '.']);
    if head.len() > 3 && tail.len() == 31 {
        let all = head + tail;
        assert(text::after(all, all.len() - 31) =~= tail);
    }
}

/// What a worker tells of its file: the slot, the name at the target, which is the new one where
/// there is one and else the file's own, and the size; of the operation, the totals as they were
/// counted.
pub proof fn worker_tells_its_file(w: WorkerView, done: usize, bytes: u64)
    ensures
        w.dst_name is Some ==> w.target_name() == w.dst_name->0,
        w.dst_name is None ==> w.target_name() == w.src.name_or_empty(),
        w.started() == (OpMsgView::SlotStart {
            thread_id: w.slot,
            file: w.target_name(),
            file_size: w.file_size,
        }),
        w.progress(done, bytes) == (OpMsgView::Progress {
            done,
            total: w.total,
            bytes_done: bytes,
            bytes_total: w.bytes_total,
        }),
{
}

/// A stop within a file ends its reading: a copy is then counted, and of a move the source is
/// removed first.
pub proof fn worker_stops_within_a_file(w: WorkerView)
    requires
        w.stage is StreamCheck,
        w.consistent(),
    ensures
        w.next(ToldView::Flag(OP_STOP)).1 == Seq::<OpMsgView>::empty(),
        w.kind == OpKind::Copy ==> w.next(ToldView::Flag(OP_STOP)).0.ask() == Ask::CountDone,
        w.kind == OpKind::Move ==> w.next(ToldView::Flag(OP_STOP)).0.ask() == Ask::RemoveFile,
{
}

/// The work of each kind: a copy and a deletion first look whether the source is a directory, a
/// move tries to rename it; a directory is copied or removed with all that is in it.
pub proof fn worker_works_by_kind(w: WorkerView, size: u64)
    requires
        w.ask() == Ask::Measure,
        w.overwrite || w.kind == OpKind::Delete,
    ensures
        ({
            let (a, sent) = w.next(ToldView::Size(size));
            &&& a.file_size == size
            &&& sent == seq![
                OpMsgView::SlotStart {
                    thread_id: w.slot,
                    file: w.target_name(),
                    file_size: size,
                },
            ]
            &&& w.kind == OpKind::Copy ==> {
                &&& a.ask() == Ask::IsDir
                &&& a.next(ToldView::Yes(true)).0.ask() == Ask::CopyTree
                &&& a.next(ToldView::Yes(false)).0.ask() == Ask::Open
            }
            &&& w.kind == OpKind::Delete ==> {
                &&& a.ask() == Ask::IsDir
                &&& a.next(ToldView::Yes(true)).0.ask() == Ask::RemoveTree
                &&& a.next(ToldView::Yes(false)).0.ask() == Ask::RemoveFile
            }
            &&& w.kind == OpKind::Move ==> {
                &&& a.ask() == Ask::Rename
                &&& a.next(ToldView::Outcome(Ok(()))).0.ask() == Ask::AddBytes(size)
            }
        }),
{
}

/// The answers of the error window, from the first button on.
pub proof fn answers_by_button(focus: usize)
    ensures
        focus == 0 ==> answer_at(focus) == ERR_RETRY,
        focus == 1 ==> answer_at(focus) == ERR_SKIP,
        focus >= 2 ==> answer_at(focus) == ERR_CANCEL,
        ProgressView::idle().done == 0,
        !ProgressView::idle().running,
        !ProgressView::idle().show,
        ProgressView::idle().slots.len() == 0,
        ProgressView::idle().err_wait is None,
{
}

/// Whether a reply is one to what was asked.
pub open spec fn replies_to(ask: Ask, told: ToldView) -> bool {
    match ask {
        Ask::ReadFlag => told is Flag,
        Ask::Sleep(_) | Ask::ResetAnswer | Ask::SetStop => told is Done,
        Ask::Measure => told is Size,
        Ask::Probe | Ask::IsDir => told is Yes,
        Ask::CopyTree | Ask::Open | Ask::Write(_) | Ask::Rename | Ask::RemoveTree
        | Ask::RemoveFile => told is Outcome,
        Ask::Read => told is Chunk,
        Ask::AddBytes(_) | Ask::CountDone => told is Totals,
        Ask::ReadAnswer => told is Answer,
        Ask::End => false,
    }
}

/// A reply to something else than what was asked changes nothing and sends nothing; every other
/// one brings the worker on.
pub proof fn worker_takes_only_replies(w: WorkerView, told: ToldView)
    ensures
        !replies_to(w.ask(), told) ==> w.next(told) == (w, Seq::<OpMsgView>::empty()),
        replies_to(w.ask(), told) ==> w.next(told).0.stage != w.stage,
{
}

/// Any answer to an error but the three that decide is none yet: the worker waits on.
pub proof fn worker_waits_for_an_answer(w: WorkerView, a: u8)
    requires
        w.stage == Stage::ErrorAnswer,
        a != ERR_RETRY,
        a != ERR_SKIP,
        a != ERR_CANCEL,
    ensures
        ({
            let (b, sent) = w.next(ToldView::Answer(a));
            &&& b.ask() is Sleep
            &&& sent == Seq::<OpMsgView>::empty()
            &&& b.next(ToldView::Done) == (w, Seq::<OpMsgView>::empty())
        }),
{
}

} // verus!
