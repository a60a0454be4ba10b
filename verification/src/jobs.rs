//! What the program asks of its surroundings: operations to run, files to look at, texts to
//! hand over.

use crate::file_op::{self, OpKind};
use crate::panel::{ActivePanel, Focus, FocusView, RenameRequest};
use crate::path::{DirPath, PathView};
use crate::text;
use vstd::prelude::*;

verus! {

broadcast use vstd::string::group_string_axioms;

/// Items to be taken out of an archive.
#[derive(Debug)]
pub struct ExtractJob {
    pub archive_path: DirPath,
    pub internal_dir: String,
    pub names: Vec<String>,
    pub dst: DirPath,
}

/// What an extraction is about.
#[verifier::ext_equal]
pub struct ExtractJobView {
    pub archive_path: PathView,
    pub internal_dir: Seq<char>,
    pub names: Seq<Seq<char>>,
    pub dst: PathView,
}

impl View for ExtractJob {
    type V = ExtractJobView;

    open spec fn view(&self) -> ExtractJobView {
        ExtractJobView {
            archive_path: self.archive_path@,
            internal_dir: self.internal_dir@,
            names: self.names.deep_view(),
            dst: self.dst@,
        }
    }
}

/// Files to be copied or moved. A single file may get another name.
#[derive(Debug)]
pub struct FileJob {
    pub kind: OpKind,
    pub files: Vec<DirPath>,
    pub dst: DirPath,
    pub dst_name: Option<String>,
}

/// What copying or moving is about.
#[verifier::ext_equal]
pub struct FileJobView {
    pub kind: OpKind,
    pub files: Seq<PathView>,
    pub dst: PathView,
    pub dst_name: Option<Seq<char>>,
}

impl View for FileJob {
    type V = FileJobView;

    open spec fn view(&self) -> FileJobView {
        FileJobView {
            kind: self.kind,
            files: self.files.deep_view(),
            dst: self.dst@,
            dst_name: self.dst_name.deep_view(),
        }
    }
}

impl FileJobView {
    /// Where the file at `i` goes: none for a path without a name.
    pub open spec fn target(self, i: int) -> Option<PathView> {
        match file_op::name_at_target(self.files[i], self.dst_name) {
            Some(name) => Some(self.dst.child(name)),
            None => None,
        }
    }
}

impl FileJob {
    /// Where each of the files goes: the places to be looked at before anything is overwritten.
    pub fn targets(&self) -> (r: Vec<Option<DirPath>>)
        ensures
            r.deep_view() == Seq::new(self@.files.len(), |i: int| self@.target(i)),
    {
        let mut out: Vec<Option<DirPath>> = Vec::new();
        let mut i: usize = 0;
        assert(self@.files.len() == self.files.len());
        while i < self.files.len()
            invariant
                i <= self.files.len(),
                self@.files.len() == self.files.len(),
                out.len() == i,
                forall|k: int|
                    0 <= k < i ==> (#[trigger] out[k]).deep_view() == self@.target(k),
            decreases self.files.len() - i,
        {
            assert(self@.files[i as int] == self.files[i as int]@);
            let place = match file_op::target_name_of(&self.files[i], &self.dst_name) {
                Some(name) => Some(self.dst.join(name.as_str())),
                None => None,
            };
            out.push(place);
            i += 1;
        }
        assert(out.deep_view() =~= Seq::new(self@.files.len(), |i: int| self@.target(i)));
        out
    }
}

/// An operation to be run in the background.
#[derive(Debug)]
pub enum Order {
    Files {
        kind: OpKind,
        files: Vec<DirPath>,
        dst: Option<DirPath>,
        overwrite: bool,
        dst_name: Option<String>,
    },
    Extract { job: ExtractJob, overwrite: bool },
    Pack { files: Vec<DirPath>, dst: DirPath, name: String },
}

/// What an operation is.
#[verifier::ext_equal]
pub enum OrderView {
    Files {
        kind: OpKind,
        files: Seq<PathView>,
        dst: Option<PathView>,
        overwrite: bool,
        dst_name: Option<Seq<char>>,
    },
    Extract { job: ExtractJobView, overwrite: bool },
    Pack { files: Seq<PathView>, dst: PathView, name: Seq<char> },
}

impl View for Order {
    type V = OrderView;

    open spec fn view(&self) -> OrderView {
        match *self {
            Order::Files { kind, files, dst, overwrite, dst_name } => OrderView::Files {
                kind,
                files: files.deep_view(),
                dst: dst.deep_view(),
                overwrite,
                dst_name: dst_name.deep_view(),
            },
            Order::Extract { job, overwrite } => OrderView::Extract { job: job@, overwrite },
            Order::Pack { files, dst, name } => OrderView::Pack {
                files: files.deep_view(),
                dst: dst@,
                name: name@,
            },
        }
    }
}

impl DeepView for Order {
    type V = OrderView;

    open spec fn deep_view(&self) -> OrderView {
        self.view()
    }
}

/// What is asked of the surroundings.
#[derive(Debug)]
pub enum Command {
    /// Nothing.
    Nothing,
    /// To read the listing of a panel again.
    Reload { side: ActivePanel, focus: Focus },
    /// To run an operation.
    Run(Order),
    /// Whether the names of an extraction exist in its target directory.
    ProbeExtract(ExtractJob),
    /// Whether something exists where files go.
    ProbeFiles(FileJob),
    /// To open a file with the application that the system has for it.
    OpenSystem(DirPath),
    /// To count the sizes of directories.
    CountSizes(Vec<DirPath>),
    /// Which of the paths are files, before their checksums are counted.
    ProbeHash(Vec<DirPath>),
    /// To create a directory.
    CreateDir { dir: DirPath, name: String },
    /// To create an empty file.
    CreateFile { dir: DirPath, name: String },
    /// To rename a file.
    RenameFile(RenameRequest),
    /// To read a file as text for the editor; `from_menu` tells whether the context menu asked
    /// for it.
    ReadText { path: DirPath, from_menu: bool },
    /// To start a program on a file.
    StartEditor { program: String, file: DirPath, name: String },
    /// To put a text on the clipboard.
    CopyText(String),
    /// To hand the answer on an error to the operation, and to stop it where told so.
    Answer { answer: u8, stop: bool },
    /// To stop counting checksums, where there is a count.
    StopHash { stop: bool },
}

/// What is asked.
#[verifier::ext_equal]
pub enum CommandView {
    Nothing,
    Reload { side: ActivePanel, focus: FocusView },
    Run(OrderView),
    ProbeExtract(ExtractJobView),
    ProbeFiles(FileJobView),
    OpenSystem(PathView),
    CountSizes(Seq<PathView>),
    ProbeHash(Seq<PathView>),
    CreateDir { dir: PathView, name: Seq<char> },
    CreateFile { dir: PathView, name: Seq<char> },
    RenameFile { dir: PathView, old_name: Seq<char>, new_name: Seq<char> },
    ReadText { path: PathView, from_menu: bool },
    StartEditor { program: Seq<char>, file: PathView, name: Seq<char> },
    CopyText(Seq<char>),
    Answer { answer: u8, stop: bool },
    StopHash { stop: bool },
}

impl View for Command {
    type V = CommandView;

    open spec fn view(&self) -> CommandView {
        match *self {
            Command::Nothing => CommandView::Nothing,
            Command::Reload { side, focus } => CommandView::Reload { side, focus: focus@ },
            Command::Run(order) => CommandView::Run(order@),
            Command::ProbeExtract(job) => CommandView::ProbeExtract(job@),
            Command::ProbeFiles(job) => CommandView::ProbeFiles(job@),
            Command::OpenSystem(path) => CommandView::OpenSystem(path@),
            Command::CountSizes(dirs) => CommandView::CountSizes(dirs.deep_view()),
            Command::ProbeHash(files) => CommandView::ProbeHash(files.deep_view()),
            Command::CreateDir { dir, name } => CommandView::CreateDir { dir: dir@, name: name@ },
            Command::CreateFile { dir, name } => CommandView::CreateFile { dir: dir@, name: name@ },
            Command::RenameFile(q) => CommandView::RenameFile {
                dir: q.dir@,
                old_name: q.old_name@,
                new_name: q.new_name@,
            },
            Command::ReadText { path, from_menu } => CommandView::ReadText {
                path: path@,
                from_menu,
            },
            Command::StartEditor { program, file, name } => CommandView::StartEditor {
                program: program@,
                file: file@,
                name: name@,
            },
            Command::CopyText(s) => CommandView::CopyText(s@),
            Command::Answer { answer, stop } => CommandView::Answer { answer, stop },
            Command::StopHash { stop } => CommandView::StopHash { stop },
        }
    }
}

/// An operation that waits for the decision whether existing files are overwritten.
#[derive(Debug)]
pub enum PendingAction {
    FsOp(FileJob),
    ZipExtract(ExtractJob),
}

/// What a waiting operation is.
#[verifier::ext_equal]
pub enum PendingView {
    FsOp(FileJobView),
    ZipExtract(ExtractJobView),
}

impl View for PendingAction {
    type V = PendingView;

    open spec fn view(&self) -> PendingView {
        match *self {
            PendingAction::FsOp(job) => PendingView::FsOp(job@),
            PendingAction::ZipExtract(job) => PendingView::ZipExtract(job@),
        }
    }
}

impl DeepView for PendingAction {
    type V = PendingView;

    open spec fn deep_view(&self) -> PendingView {
        self.view()
    }
}

impl PendingView {
    /// How many items the operation works on.
    pub open spec fn size(self) -> nat {
        match self {
            PendingView::FsOp(job) => job.files.len(),
            PendingView::ZipExtract(job) => job.names.len(),
        }
    }

    /// The label of the operation.
    pub open spec fn label(self) -> Seq<char> {
        match self {
            PendingView::FsOp(job) => kind_label(job.kind),
            PendingView::ZipExtract(_) => "Rozbaluji ZIP"@,
        }
    }

    /// The operation once it was decided whether existing files are overwritten.
    pub open spec fn order(self, overwrite: bool) -> OrderView {
        match self {
            PendingView::FsOp(job) => OrderView::Files {
                kind: job.kind,
                files: job.files,
                dst: Some(job.dst),
                overwrite,
                dst_name: job.dst_name,
            },
            PendingView::ZipExtract(job) => OrderView::Extract { job, overwrite },
        }
    }
}

/// The label of an operation on files.
pub open spec fn kind_label(kind: OpKind) -> Seq<char> {
    match kind {
        OpKind::Copy => "Kopírování"@,
        OpKind::Move => "Přesun"@,
        OpKind::Delete => "Mazání"@,
    }
}

/// The label of an operation on files.
pub fn label_of_kind(kind: OpKind) -> (r: &'static str)
    ensures
        r@ == kind_label(kind),
{
    match kind {
        OpKind::Copy => "Kopírování",
        OpKind::Move => "Přesun",
        OpKind::Delete => "Mazání",
    }
}

/// The name that a single file gets at its target, where another one than its own was typed
/// in.
pub open spec fn new_target_name(files: Seq<PathView>, typed: Seq<char>) -> Option<Seq<char>> {
    let name = text::trimmed(typed);
    if files.len() == 1 && name.len() > 0 && name != files[0].name_or_empty() {
        Some(name)
    } else {
        None
    }
}

/// The name that a single file gets at its target.
pub fn target_name(files: &Vec<DirPath>, typed: &str) -> (r: Option<String>)
    ensures
        r.deep_view() == new_target_name(files.deep_view(), typed@),
{
    let name = text::trim(typed);
    assert(files.deep_view().len() == files.len());
    if files.len() == 1 && name.as_str().unicode_len() > 0 {
        assert(files.deep_view()[0] == files[0]@);
        let own = files[0].file_name_or_empty();
        if !text::same(name.as_str(), own.as_str()) {
            return Some(name);
        }
    }
    None
}

/// The name that is offered for a single file at its target; none for several.
pub open spec fn offered_name(files: Seq<PathView>) -> Seq<char> {
    if files.len() == 1 {
        files[0].name_or_empty()
    } else {
        seq![]
    }
}

/// The name that is offered for a single file at its target.
pub fn offer_name(files: &Vec<DirPath>) -> (r: String)
    ensures
        r@ == offered_name(files.deep_view()),
{
    assert(files.deep_view().len() == files.len());
    if files.len() == 1 {
        assert(files.deep_view()[0] == files[0]@);
        files[0].file_name_or_empty()
    } else {
        String::new()
    }
}

/// The offered name, left as it is, changes nothing.
pub proof fn offered_name_changes_nothing(files: Seq<PathView>)
    requires
        files.len() == 1 ==> text::trimmed(files[0].name_or_empty()) == files[0].name_or_empty(),
    ensures
        new_target_name(files, offered_name(files)) is None,
{
}

/// A single file gets another name at its target exactly where a name was typed, blanks aside,
/// that is not its own; several files keep theirs.
pub proof fn typed_name_of_one(file: PathView, files: Seq<PathView>, typed: Seq<char>)
    ensures
        text::trimmed(typed).len() > 0 && text::trimmed(typed) != file.name_or_empty()
            ==> new_target_name(seq![file], typed) == Some(text::trimmed(typed)),
        text::trimmed(typed).len() == 0 || text::trimmed(typed) == file.name_or_empty()
            ==> new_target_name(seq![file], typed) is None,
        files.len() != 1 ==> new_target_name(files, typed) is None,
        offered_name(seq![file]) == file.name_or_empty(),
        files.len() != 1 ==> offered_name(files).len() == 0,
{
}

/// Where a file of a job goes: into the target directory, under the new name where there is one,
/// else under its own; a path without a name goes nowhere.
pub proof fn target_below_the_directory(job: FileJobView, i: int)
    requires
        0 <= i < job.files.len(),
    ensures
        job.dst_name is Some ==> job.target(i) == Some(job.dst.child(job.dst_name->0)),
        job.dst_name is None && job.files[i].name() is Some ==> job.target(i) == Some(
            job.dst.child(job.files[i].name()->0),
        ),
        job.dst_name is None && job.files[i].name() is None ==> job.target(i) is None,
{
}

/// The order that comes of a job that waited is the job itself, with the leave that was given.
pub proof fn waiting_job_is_ordered(p: PendingView, overwrite: bool)
    ensures
        p matches PendingView::FsOp(job) ==> p.order(overwrite) == (OrderView::Files {
            kind: job.kind,
            files: job.files,
            dst: Some(job.dst),
            overwrite,
            dst_name: job.dst_name,
        }) && p.size() == job.files.len(),
        p matches PendingView::ZipExtract(job) ==> p.order(overwrite) == (OrderView::Extract {
            job,
            overwrite,
        }) && p.size() == job.names.len(),
{
}

} // verus!
