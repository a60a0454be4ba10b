//! Starting operations on files, and answering their questions.

use crate::app::{CopyBox, DeleteBox, FileManagerApp, PackBox, PendingBox};
use crate::extract;
use crate::file_op::{self, OpEffect, OpKind, OpMsg, OpMsgView, ProgressView};
use crate::jobs::{
    self, Command, CommandView, ExtractJob, ExtractJobView, FileJob, FileJobView, Order, OrderView,
    PendingAction, PendingView,
};
use crate::panel;
use crate::path::{DirPath, PathView};
use crate::view::{StatusMsg, StatusView};
use vstd::prelude::*;

verus! {

broadcast use vstd::string::group_string_axioms;

/// The status that a message of an operation leaves behind; none where it leaves the old one.
pub open spec fn status_of(msg: OpMsgView) -> Option<StatusView> {
    match msg {
        OpMsgView::Finished => Some(StatusView::Info("Hotovo."@)),
        OpMsgView::Error(e) => Some(StatusView::Error("Chyba: "@ + e)),
        _ => None,
    }
}

// ---------------------------------------------------------------------------
// Models
// ---------------------------------------------------------------------------

impl FileManagerApp {
    /// Whether `after` is the program with an operation on `total` items started.
    pub open spec fn op_started(
        &self,
        after: &FileManagerApp,
        label: Seq<char>,
        total: nat,
    ) -> bool {
        &&& *after == (FileManagerApp { op: after.op, op_status: after.op_status, ..*self })
        &&& after.op@ == ProgressView::started(label, total as usize, self.op.err_focus)
        &&& after.op_status.deep_view() == Some(StatusView::Info(label + "..."@))
    }

    /// The files that an operation works on.
    pub open spec fn chosen_files(&self) -> Seq<PathView> {
        panel::paths_in(self.here().current_path@, self.here().effective_rows())
    }

    /// Whether `after` is the program with nothing changed but its status.
    pub open spec fn reported(&self, after: &FileManagerApp, status: StatusView) -> bool {
        &&& *after == (FileManagerApp { op_status: after.op_status, ..*self })
        &&& after.op_status.deep_view() == Some(status)
    }

    /// Whether `after` is the program that asks whether the chosen files are to be copied, or
    /// moved; without chosen files nothing happens.
    pub open spec fn transfer_asked(&self, after: &FileManagerApp, kind: OpKind) -> bool {
        let files = self.chosen_files();
        if files.len() == 0 {
            *after == *self
        } else {
            &&& *after == (FileManagerApp { copy: after.copy, ..*self })
            &&& after.copy.show
            &&& after.copy.kind == kind
            &&& after.copy.targets.deep_view() == files
            &&& after.copy.dst@ == self.there()
            &&& after.copy.focus == 0
            &&& after.copy.new_name@ == jobs::offered_name(files)
        }
    }

    /// Whether `after` is the program once copying was asked for, and `cmd` what is to be
    /// found out first: inside an archive the chosen items are to be taken out of it.
    pub open spec fn copy_started(&self, after: &FileManagerApp, cmd: CommandView) -> bool {
        match self.here().archive_location {
            Some(loc) => {
                let names = panel::names_of(self.here().effective_rows());
                *after == *self && cmd == if names.len() == 0 {
                    CommandView::Nothing
                } else {
                    CommandView::ProbeExtract(
                        ExtractJobView {
                            archive_path: loc.archive_path@,
                            internal_dir: loc.internal_dir@,
                            names,
                            dst: self.there(),
                        },
                    )
                }
            },
            None => self.transfer_asked(after, OpKind::Copy) && cmd == CommandView::Nothing,
        }
    }

    /// Whether `after` is the program once moving was asked for.
    pub open spec fn move_started(&self, after: &FileManagerApp) -> bool {
        if self.here().archive_location is Some {
            self.reported(after, StatusView::Error("Přesun uvnitř archivu není podporovaný."@))
        } else {
            self.transfer_asked(after, OpKind::Move)
        }
    }

    /// Whether `after` is the program that asks whether existing files are overwritten.
    pub open spec fn overwrite_asked(
        &self,
        after: &FileManagerApp,
        action: PendingView,
        conflicts: Seq<Seq<char>>,
    ) -> bool {
        &&& *after == (FileManagerApp { pending: after.pending, ..*self })
        &&& after.pending.action.deep_view() == Some(action)
        &&& after.pending.conflicts.deep_view() == conflicts
        &&& after.pending.focus == 0
    }

    /// Whether `after` is the program once it is known which names of an extraction exist,
    /// and `cmd` what is to be run.
    pub open spec fn extract_begun(
        &self,
        after: &FileManagerApp,
        job: ExtractJobView,
        exists: Seq<bool>,
        cmd: CommandView,
    ) -> bool {
        let conflicts = file_op::conflicting_names(job.names, exists);
        if conflicts.len() == 0 {
            &&& self.op_started(after, "Rozbaluji ZIP"@, job.names.len())
            &&& cmd == CommandView::Run(OrderView::Extract { job, overwrite: true })
        } else {
            &&& self.overwrite_asked(after, PendingView::ZipExtract(job), conflicts)
            &&& cmd == CommandView::Nothing
        }
    }

    /// Whether `after` is the program once it is known which files exist at their target, and
    /// `cmd` what is to be run.
    pub open spec fn transfer_begun(
        &self,
        after: &FileManagerApp,
        job: FileJobView,
        exists: Seq<bool>,
        cmd: CommandView,
    ) -> bool {
        let conflicts = file_op::conflicting_files(job.files, job.dst_name, exists);
        if conflicts.len() == 0 {
            let label = if job.kind == OpKind::Copy {
                "Kopírování"@
            } else {
                "Přesun"@
            };
            &&& self.op_started(after, label, job.files.len())
            &&& cmd == CommandView::Run(
                OrderView::Files {
                    kind: job.kind,
                    files: job.files,
                    dst: Some(job.dst),
                    overwrite: true,
                    dst_name: job.dst_name,
                },
            )
        } else {
            &&& self.overwrite_asked(after, PendingView::FsOp(job), conflicts)
            &&& cmd == CommandView::Nothing
        }
    }

    /// Whether `after` is the program once copying or moving was confirmed, and `cmd` what is
    /// to be found out first.
    pub open spec fn transfer_confirmed(&self, after: &FileManagerApp, cmd: CommandView) -> bool {
        &&& *after == (FileManagerApp {
            copy: CopyBox {
                show: false,
                targets: after.copy.targets,
                dst: after.copy.dst,
                ..self.copy
            },
            ..*self
        })
        &&& after.copy.targets@.len() == 0
        &&& after.copy.dst@ == (PathView { root: seq![], parts: seq![], sep: self.copy.dst.sep })
        &&& cmd == CommandView::ProbeFiles(
            FileJobView {
                kind: self.copy.kind,
                files: self.copy.targets.deep_view(),
                dst: self.copy.dst@,
                dst_name: jobs::new_target_name(
                    self.copy.targets.deep_view(),
                    self.copy.new_name@,
                ),
            },
        )
    }

    /// Whether `after` is the program once copying or moving was declined.
    pub open spec fn transfer_declined(&self, after: &FileManagerApp) -> bool {
        &&& *after == (FileManagerApp {
            copy: CopyBox { show: false, targets: after.copy.targets, ..self.copy },
            ..*self
        })
        &&& after.copy.targets@.len() == 0
    }

    /// Whether `after` is the program without an operation that waits for a decision.
    pub open spec fn pending_dropped(&self, after: &FileManagerApp) -> bool {
        &&& *after == (FileManagerApp {
            pending: PendingBox {
                action: None,
                conflicts: after.pending.conflicts,
                focus: self.pending.focus,
            },
            ..*self
        })
        &&& after.pending.conflicts@.len() == 0
    }

    /// Whether `after` is the program once it was decided whether existing files are
    /// overwritten, and `cmd` what is to be run.
    pub open spec fn pending_resolved(
        &self,
        after: &FileManagerApp,
        overwrite: bool,
        cmd: CommandView,
    ) -> bool {
        match self.pending.action.deep_view() {
            None => *after == *self && cmd == CommandView::Nothing,
            Some(action) => {
                &&& *after == (FileManagerApp {
                    op: after.op,
                    op_status: after.op_status,
                    pending: PendingBox {
                        action: None,
                        conflicts: after.pending.conflicts,
                        focus: self.pending.focus,
                    },
                    ..*self
                })
                &&& after.pending.conflicts@.len() == 0
                &&& after.op@ == ProgressView::started(
                    action.label(),
                    action.size() as usize,
                    self.op.err_focus,
                )
                &&& after.op_status.deep_view() == Some(StatusView::Info(action.label() + "..."@))
                &&& cmd == CommandView::Run(action.order(overwrite))
            },
        }
    }

    /// Whether `after` is the program that asks whether the chosen files are to be deleted.
    pub open spec fn delete_asked(&self, after: &FileManagerApp) -> bool {
        let files = self.chosen_files();
        if self.here().archive_location is Some {
            self.reported(after, StatusView::Error("Mazání uvnitř archivu není podporované."@))
        } else if files.len() == 0 {
            *after == *self
        } else {
            &&& *after == (FileManagerApp { delete: after.delete, ..*self })
            &&& after.delete.show
            &&& after.delete.targets.deep_view() == files
            &&& after.delete.focus == 0
        }
    }

    /// Whether `after` is the program once deleting was confirmed, and `cmd` what is to be
    /// run.
    pub open spec fn delete_confirmed(&self, after: &FileManagerApp, cmd: CommandView) -> bool {
        &&& *after == (FileManagerApp {
            op: after.op,
            op_status: after.op_status,
            delete: DeleteBox {
                show: false,
                targets: after.delete.targets,
                focus: self.delete.focus,
            },
            ..*self
        })
        &&& after.delete.targets@.len() == 0
        &&& after.op@ == ProgressView::started(
            "Mazání"@,
            self.delete.targets.len(),
            self.op.err_focus,
        )
        &&& after.op_status.deep_view() == Some(StatusView::Info("Mazání"@ + "..."@))
        &&& cmd == CommandView::Run(
            OrderView::Files {
                kind: OpKind::Delete,
                files: self.delete.targets.deep_view(),
                dst: None,
                overwrite: true,
                dst_name: None,
            },
        )
    }

    /// Whether `after` is the program once deleting was declined.
    pub open spec fn delete_declined(&self, after: &FileManagerApp) -> bool {
        &&& *after == (FileManagerApp {
            delete: DeleteBox {
                show: false,
                targets: after.delete.targets,
                focus: self.delete.focus,
            },
            ..*self
        })
        &&& after.delete.targets@.len() == 0
    }

    /// Whether `after` is the program that asks whether the chosen files are to be packed.
    pub open spec fn pack_asked(&self, after: &FileManagerApp) -> bool {
        let files = self.chosen_files();
        if files.len() == 0 {
            self.reported(after, StatusView::Warn("Nejsou označeny žádné soubory."@))
        } else {
            &&& *after == (FileManagerApp { pack: after.pack, ..*self })
            &&& after.pack.show
            &&& after.pack.files.deep_view() == files
            &&& after.pack.dst@ == self.there()
            &&& after.pack.name@ == extract::suggested_name(files)
            &&& after.pack.focus == 0
        }
    }

    /// Whether `after` is the program once packing was confirmed, and `cmd` what is to be
    /// run.
    pub open spec fn pack_confirmed(&self, after: &FileManagerApp, cmd: CommandView) -> bool {
        &&& *after == (FileManagerApp {
            op: after.op,
            op_status: after.op_status,
            pack: PackBox {
                show: false,
                files: after.pack.files,
                dst: after.pack.dst,
                ..self.pack
            },
            ..*self
        })
        &&& after.pack.files@.len() == 0
        &&& after.pack.dst@ == (PathView { root: seq![], parts: seq![], sep: self.pack.dst.sep })
        &&& after.op@ == ProgressView::started("Balím ZIP"@, 1, self.op.err_focus)
        &&& after.op_status.deep_view() == Some(StatusView::Info("Balím ZIP"@ + "..."@))
        &&& cmd == CommandView::Run(
            OrderView::Pack {
                files: self.pack.files.deep_view(),
                dst: self.pack.dst@,
                name: extract::archive_name(self.pack.name@),
            },
        )
    }

    /// Whether `after` is the program once packing was declined.
    pub open spec fn pack_declined(&self, after: &FileManagerApp) -> bool {
        &&& *after == (FileManagerApp {
            pack: PackBox { show: false, files: after.pack.files, ..self.pack },
            ..*self
        })
        &&& after.pack.files@.len() == 0
    }

    /// Whether `after` is the program after a message of the operation.
    pub open spec fn op_told(&self, after: &FileManagerApp, msg: OpMsgView) -> bool {
        &&& *after == (FileManagerApp { op: after.op, op_status: after.op_status, ..*self })
        &&& after.op@ == self.op@.after(msg)
        &&& match status_of(msg) {
            Some(status) => after.op_status.deep_view() == Some(status),
            None => after.op_status == self.op_status,
        }
    }

    /// Whether `after` is the program once an error of the operation was answered, and `cmd`
    /// what the operation is told.
    pub open spec fn error_answered(
        &self,
        after: &FileManagerApp,
        focus: usize,
        cmd: CommandView,
    ) -> bool {
        &&& *after == (FileManagerApp { op: after.op, ..*self })
        &&& after.op@ == (ProgressView { err_wait: None, err_focus: focus, ..self.op@ })
        &&& cmd == CommandView::Answer {
            answer: file_op::answer_at(focus),
            stop: file_op::answer_at(focus) == file_op::ERR_CANCEL && self.op.stoppable,
        }
    }
}

// ---------------------------------------------------------------------------
// Laws
// ---------------------------------------------------------------------------

/// Inside an archive nothing is ever moved or deleted: the request is only answered with a
/// message.
pub proof fn archives_stay_untouched(before: FileManagerApp, moved: FileManagerApp, deleted: FileManagerApp)
    requires
        before.here().archive_location is Some,
        before.move_started(&moved),
        before.delete_asked(&deleted),
    ensures
        moved.copy == before.copy,
        deleted.delete == before.delete,
        moved.op_status.deep_view() == Some(
            StatusView::Error("Přesun uvnitř archivu není podporovaný."@),
        ),
        deleted.op_status.deep_view() == Some(
            StatusView::Error("Mazání uvnitř archivu není podporované."@),
        ),
{
}

/// Nothing is overwritten without being asked: where a name exists at the target, the
/// operation is not run but waits for a decision.
pub proof fn conflicts_are_asked(
    before: FileManagerApp,
    after: FileManagerApp,
    job: FileJobView,
    exists: Seq<bool>,
    cmd: CommandView,
)
    requires
        before.transfer_begun(&after, job, exists, cmd),
        file_op::conflicting_files(job.files, job.dst_name, exists).len() > 0,
    ensures
        cmd == CommandView::Nothing,
        after.pending.action is Some,
        after.op == before.op,
{
}

/// Copying or moving a single file under a new name looks for that name only: where nothing of
/// it exists at the target, the operation runs at once, and it writes under the new name.
pub proof fn new_name_decides(
    before: FileManagerApp,
    after: FileManagerApp,
    job: FileJobView,
    exists: Seq<bool>,
    cmd: CommandView,
)
    requires
        job.files.len() == 1,
        exists.len() == 1,
        job.dst_name is Some,
        before.transfer_begun(&after, job, exists, cmd),
    ensures
        job.target(0) == Some(job.dst.child(job.dst_name->0)),
        !exists[0] ==> after.pending == before.pending && cmd == CommandView::Run(
            OrderView::Files {
                kind: job.kind,
                files: job.files,
                dst: Some(job.dst),
                overwrite: true,
                dst_name: job.dst_name,
            },
        ),
        exists[0] ==> after.pending.conflicts.deep_view() == seq![job.dst_name->0],
{
    let none = job.files.drop_last();
    assert(file_op::conflicting_files(none, job.dst_name, exists) =~= seq![]);
    let conflicts = file_op::conflicting_files(job.files, job.dst_name, exists);
    if exists[0] {
        assert(conflicts =~= seq![job.dst_name->0]);
    } else {
        assert(conflicts =~= seq![]);
    }
}

/// An operation that had to wait for the decision on existing files is the one that was asked
/// for: the same files, the same directory, the same new name.
pub proof fn waiting_changes_nothing(
    before: FileManagerApp,
    asked: FileManagerApp,
    after: FileManagerApp,
    job: FileJobView,
    exists: Seq<bool>,
    first: CommandView,
    overwrite: bool,
    cmd: CommandView,
)
    requires
        before.transfer_begun(&asked, job, exists, first),
        file_op::conflicting_files(job.files, job.dst_name, exists).len() > 0,
        asked.pending_resolved(&after, overwrite, cmd),
    ensures
        cmd == CommandView::Run(
            OrderView::Files {
                kind: job.kind,
                files: job.files,
                dst: Some(job.dst),
                overwrite,
                dst_name: job.dst_name,
            },
        ),
{
}

/// What is deleted are exactly the files that were asked about.
pub proof fn deletes_what_was_asked(
    before: FileManagerApp,
    asked: FileManagerApp,
    after: FileManagerApp,
    cmd: CommandView,
)
    requires
        before.here().archive_location is None,
        before.chosen_files().len() > 0,
        before.delete_asked(&asked),
        asked.delete_confirmed(&after, cmd),
    ensures
        cmd == CommandView::Run(
            OrderView::Files {
                kind: OpKind::Delete,
                files: before.chosen_files(),
                dst: None,
                overwrite: true,
                dst_name: None,
            },
        ),
{
}

/// What is copied are exactly the files that were asked about, into the directory of the
/// other panel.
pub proof fn copies_what_was_asked(
    before: FileManagerApp,
    asked: FileManagerApp,
    after: FileManagerApp,
    first: CommandView,
    cmd: CommandView,
)
    requires
        before.here().archive_location is None,
        before.chosen_files().len() > 0,
        before.copy_started(&asked, first),
        asked.transfer_confirmed(&after, cmd),
    ensures
        cmd matches CommandView::ProbeFiles(job) && job.kind == OpKind::Copy && job.files
            == before.chosen_files() && job.dst == before.there(),
{
}

/// A waiting operation is decided once: afterwards none waits.
pub proof fn pending_is_decided_once(
    before: FileManagerApp,
    after: FileManagerApp,
    overwrite: bool,
    cmd: CommandView,
)
    requires
        before.pending_resolved(&after, overwrite, cmd),
    ensures
        after.pending.action is None,
{
}

// ---------------------------------------------------------------------------
// Executable operations
// ---------------------------------------------------------------------------

impl FileManagerApp {
    /// Shows the start of an operation on `total` items.
    pub fn start_op(&mut self, label: &str, total: usize)
        ensures
            old(self).op_started(final(self), label@, total as nat),
    {
        self.op.start(label, total);
        let mut s = label.to_owned();
        s.append("...");
        self.op_status = Some(StatusMsg::Info(s));
    }

    /// Shows a message in the status line.
    pub fn report(&mut self, status: StatusMsg)
        ensures
            old(self).reported(final(self), status@),
    {
        self.op_status = Some(status);
    }

    fn ask_transfer(&mut self, kind: OpKind)
        requires
            old(self).here().sized(),
        ensures
            old(self).transfer_asked(final(self), kind),
    {
        let files = self.active_panel().effective_paths();
        assert(files.deep_view().len() == files.len());
        if files.len() == 0 {
            return;
        }
        let dst = self.inactive_dir();
        let new_name = jobs::offer_name(&files);
        self.copy = CopyBox { show: true, kind, targets: files, dst, focus: 0, new_name };
    }

    /// Copying: asks first; inside an archive, finds out what exists at the target.
    pub fn start_copy(&mut self) -> (r: Command)
        requires
            old(self).here().sized(),
        ensures
            old(self).copy_started(final(self), r@),
    {
        let panel = self.active_panel();
        match &panel.archive_location {
            Some(loc) => {
                let names = panel.effective_names();
                assert(names.deep_view().len() == names.len());
                if names.len() == 0 {
                    return Command::Nothing;
                }
                let dst = self.inactive_dir();
                Command::ProbeExtract(
                    ExtractJob {
                        archive_path: loc.archive_path.clone(),
                        internal_dir: loc.internal_dir.clone(),
                        names,
                        dst,
                    },
                )
            },
            None => {
                self.ask_transfer(OpKind::Copy);
                Command::Nothing
            },
        }
    }

    /// Moving: asks first; not inside an archive.
    pub fn start_move(&mut self)
        requires
            old(self).here().sized(),
        ensures
            old(self).move_started(final(self)),
    {
        if self.active_panel().archive_location.is_some() {
            self.report(StatusMsg::Error("Přesun uvnitř archivu není podporovaný.".to_owned()));
            return;
        }
        self.ask_transfer(OpKind::Move);
    }

    /// Starts an extraction, or asks whether existing files are overwritten. `exists` holds,
    /// for each name, whether the target directory has it.
    pub fn begin_extract(&mut self, job: ExtractJob, exists: &Vec<bool>) -> (r: Command)
        requires
            exists.len() == job.names.len(),
        ensures
            old(self).extract_begun(final(self), job@, exists@, r@),
    {
        let conflicts = file_op::names_conflicting(&job.names, exists);
        assert(conflicts.deep_view().len() == conflicts.len());
        if conflicts.len() == 0 {
            let n = job.names.len();
            assert(job@.names.len() == n);
            self.start_op("Rozbaluji ZIP", n);
            Command::Run(Order::Extract { job, overwrite: true })
        } else {
            self.pending = PendingBox {
                action: Some(PendingAction::ZipExtract(job)),
                conflicts,
                focus: 0,
            };
            Command::Nothing
        }
    }

    /// Copying or moving was confirmed: finds out what exists at the target.
    pub fn confirm_copy_move(&mut self) -> (r: Command)
        ensures
            old(self).transfer_confirmed(final(self), r@),
    {
        let mut files: Vec<DirPath> = Vec::new();
        let mut dst = DirPath::empty(self.copy.dst.sep);
        std::mem::swap(&mut files, &mut self.copy.targets);
        std::mem::swap(&mut dst, &mut self.copy.dst);
        let dst_name = jobs::target_name(&files, self.copy.new_name.as_str());
        self.copy.show = false;
        Command::ProbeFiles(FileJob { kind: self.copy.kind, files, dst, dst_name })
    }

    /// Copying or moving was declined.
    pub fn decline_copy_move(&mut self)
        ensures
            old(self).transfer_declined(final(self)),
    {
        self.copy.show = false;
        self.copy.targets = Vec::new();
    }

    /// Starts copying or moving, or asks whether existing files are overwritten. `exists`
    /// holds, for each file, whether the target directory has the name that the file gets there.
    pub fn begin_copy_move(&mut self, job: FileJob, exists: &Vec<bool>) -> (r: Command)
        requires
            exists.len() == job.files.len(),
        ensures
            old(self).transfer_begun(final(self), job@, exists@, r@),
    {
        let conflicts = file_op::paths_conflicting(&job.files, &job.dst_name, exists);
        assert(conflicts.deep_view().len() == conflicts.len());
        if conflicts.len() == 0 {
            let label = if job.kind == OpKind::Copy {
                "Kopírování"
            } else {
                "Přesun"
            };
            let n = job.files.len();
            assert(job@.files.len() == n);
            self.start_op(label, n);
            Command::Run(
                Order::Files {
                    kind: job.kind,
                    files: job.files,
                    dst: Some(job.dst),
                    overwrite: true,
                    dst_name: job.dst_name,
                },
            )
        } else {
            self.pending = PendingBox {
                action: Some(PendingAction::FsOp(job)),
                conflicts,
                focus: 0,
            };
            Command::Nothing
        }
    }

    /// Runs the operation that waits, with or without overwriting existing files.
    pub fn resolve_pending(&mut self, overwrite: bool) -> (r: Command)
        ensures
            old(self).pending_resolved(final(self), overwrite, r@),
    {
        let action = match self.pending.action.take() {
            Some(action) => action,
            None => {
                return Command::Nothing;
            },
        };
        self.pending.conflicts = Vec::new();
        match action {
            PendingAction::FsOp(job) => {
                let n = job.files.len();
                assert(job@.files.len() == n);
                self.start_op(jobs::label_of_kind(job.kind), n);
                Command::Run(
                    Order::Files {
                        kind: job.kind,
                        files: job.files,
                        dst: Some(job.dst),
                        overwrite,
                        dst_name: job.dst_name,
                    },
                )
            },
            PendingAction::ZipExtract(job) => {
                let n = job.names.len();
                assert(job@.names.len() == n);
                self.start_op("Rozbaluji ZIP", n);
                Command::Run(Order::Extract { job, overwrite })
            },
        }
    }

    /// Drops the operation that waits.
    pub fn cancel_pending(&mut self)
        ensures
            old(self).pending_dropped(final(self)),
    {
        self.pending.action = None;
        self.pending.conflicts = Vec::new();
    }

    /// Deleting: asks first; not inside an archive.
    pub fn request_delete(&mut self)
        requires
            old(self).here().sized(),
        ensures
            old(self).delete_asked(final(self)),
    {
        if self.active_panel().archive_location.is_some() {
            self.report(StatusMsg::Error("Mazání uvnitř archivu není podporované.".to_owned()));
            return;
        }
        let files = self.active_panel().effective_paths();
        assert(files.deep_view().len() == files.len());
        if files.len() == 0 {
            return;
        }
        self.delete = DeleteBox { show: true, targets: files, focus: 0 };
    }

    /// Deleting was confirmed.
    pub fn confirm_delete(&mut self) -> (r: Command)
        ensures
            old(self).delete_confirmed(final(self), r@),
    {
        let mut files: Vec<DirPath> = Vec::new();
        std::mem::swap(&mut files, &mut self.delete.targets);
        let n = files.len();
        self.start_op("Mazání", n);
        self.delete.show = false;
        Command::Run(
            Order::Files {
                kind: OpKind::Delete,
                files,
                dst: None,
                overwrite: true,
                dst_name: None,
            },
        )
    }

    /// Deleting was declined.
    pub fn decline_delete(&mut self)
        ensures
            old(self).delete_declined(final(self)),
    {
        self.delete.show = false;
        self.delete.targets = Vec::new();
    }

    /// Packing: asks first.
    pub fn start_zip_pack(&mut self)
        requires
            old(self).here().sized(),
        ensures
            old(self).pack_asked(final(self)),
    {
        let files = self.active_panel().effective_paths();
        assert(files.deep_view().len() == files.len());
        if files.len() == 0 {
            self.report(StatusMsg::Warn("Nejsou označeny žádné soubory.".to_owned()));
            return;
        }
        let dst = self.inactive_dir();
        let name = extract::suggest_name(&files);
        self.pack = PackBox { show: true, files, dst, name, focus: 0 };
    }

    /// Packing was confirmed.
    pub fn confirm_zip_pack(&mut self) -> (r: Command)
        ensures
            old(self).pack_confirmed(final(self), r@),
    {
        let mut files: Vec<DirPath> = Vec::new();
        let mut dst = DirPath::empty(self.pack.dst.sep);
        std::mem::swap(&mut files, &mut self.pack.files);
        std::mem::swap(&mut dst, &mut self.pack.dst);
        let name = extract::complete_name(self.pack.name.as_str());
        self.pack.show = false;
        self.start_op("Balím ZIP", 1);
        Command::Run(Order::Pack { files, dst, name })
    }

    /// Packing was declined.
    pub fn decline_zip_pack(&mut self)
        ensures
            old(self).pack_declined(final(self)),
    {
        self.pack.show = false;
        self.pack.files = Vec::new();
    }

    /// Takes in a message of the operation.
    pub fn poll_op_progress(&mut self, msg: OpMsg) -> (r: OpEffect)
        requires
            old(self).op@.takes(msg@),
        ensures
            old(self).op_told(final(self), msg@),
            r == file_op::effect_of(msg@),
    {
        let status = match &msg {
            OpMsg::Finished => Some(StatusMsg::Info("Hotovo.".to_owned())),
            OpMsg::Error(e) => {
                let mut s = "Chyba: ".to_owned();
                s.append(e.as_str());
                Some(StatusMsg::Error(s))
            },
            _ => None,
        };
        let effect = self.op.apply(msg);
        if status.is_some() {
            self.op_status = status;
        }
        effect
    }

    /// Answers the error of an operation with the choice at `focus`.
    pub fn answer_op_error(&mut self, focus: usize) -> (r: Command)
        ensures
            old(self).error_answered(final(self), focus, r@),
    {
        self.op.err_focus = focus;
        self.resolve_op_error()
    }

    /// Answers the error of an operation with the chosen answer.
    pub fn resolve_op_error(&mut self) -> (r: Command)
        ensures
            old(self).error_answered(final(self), old(self).op.err_focus, r@),
    {
        let (answer, stop) = self.op.resolve_op_error();
        Command::Answer { answer, stop }
    }
}

/// What is moved is what was chosen, to where the other panel stands, under the typed name.
pub proof fn moves_what_was_asked(
    before: FileManagerApp,
    asked: FileManagerApp,
    after: FileManagerApp,
    cmd: CommandView,
)
    requires
        before.here().archive_location is None,
        before.chosen_files().len() > 0,
        before.move_started(&asked),
        asked.transfer_confirmed(&after, cmd),
    ensures
        asked.copy.show,
        !after.copy.show,
        cmd matches CommandView::ProbeFiles(job) && job.kind == OpKind::Move && job.files
            == before.chosen_files() && job.dst == before.there() && job.dst_name
            == jobs::new_target_name(before.chosen_files(), jobs::offered_name(
            before.chosen_files(),
        )),
{
}

/// A transfer without anything in its way runs at once, with leave to overwrite; one with
/// something in its way runs nothing and asks, with the names that are in the way.
pub proof fn transfer_runs_or_asks(
    before: FileManagerApp,
    after: FileManagerApp,
    job: FileJobView,
    exists: Seq<bool>,
    cmd: CommandView,
)
    requires
        before.transfer_begun(&after, job, exists, cmd),
    ensures
        file_op::conflicting_files(job.files, job.dst_name, exists).len() == 0 ==> {
            &&& cmd == CommandView::Run(
                OrderView::Files {
                    kind: job.kind,
                    files: job.files,
                    dst: Some(job.dst),
                    overwrite: true,
                    dst_name: job.dst_name,
                },
            )
            &&& after.op.running
            &&& after.op.total == job.files.len() as usize
            &&& after.pending == before.pending
        },
        file_op::conflicting_files(job.files, job.dst_name, exists).len() > 0 ==> {
            &&& cmd == CommandView::Nothing
            &&& after.pending.action.deep_view() == Some(PendingView::FsOp(job))
            &&& after.pending.conflicts.deep_view() == file_op::conflicting_files(
                job.files,
                job.dst_name,
                exists,
            )
            &&& after.pending.focus == 0
            &&& after.op == before.op
        },
{
}

/// What is taken out of an archive is what was chosen in it, to where the other panel stands,
/// and with what is in the way it waits for leave like any transfer.
pub proof fn extracts_what_was_asked(
    before: FileManagerApp,
    asked: FileManagerApp,
    after: FileManagerApp,
    first: CommandView,
    exists: Seq<bool>,
    cmd: CommandView,
)
    requires
        before.here().archive_location is Some,
        before.here().effective_rows().len() > 0,
        before.copy_started(&asked, first),
        first matches CommandView::ProbeExtract(job) ==> asked.extract_begun(
            &after,
            job,
            exists,
            cmd,
        ),
    ensures
        first is ProbeExtract,
        first matches CommandView::ProbeExtract(job) ==> {
            &&& job.archive_path == before.here().archive_location->0.archive_path@
            &&& job.internal_dir == before.here().archive_location->0.internal_dir@
            &&& job.names == panel::names_of(before.here().effective_rows())
            &&& job.dst == before.there()
            &&& file_op::conflicting_names(job.names, exists).len() == 0 ==> cmd
                == CommandView::Run(OrderView::Extract { job, overwrite: true })
            &&& file_op::conflicting_names(job.names, exists).len() > 0 ==> cmd
                == CommandView::Nothing && after.pending.action.deep_view() == Some(
                PendingView::ZipExtract(job),
            ) && after.op == before.op
        },
{
}

/// What is packed is what was chosen, to where the other panel stands.
pub proof fn packs_what_was_asked(
    before: FileManagerApp,
    asked: FileManagerApp,
    after: FileManagerApp,
    cmd: CommandView,
)
    requires
        before.chosen_files().len() > 0,
        before.pack_asked(&asked),
        asked.pack_confirmed(&after, cmd),
    ensures
        asked.pack.show,
        !after.pack.show,
        cmd == CommandView::Run(
            OrderView::Pack {
                files: before.chosen_files(),
                dst: before.there(),
                name: extract::archive_name(extract::suggested_name(before.chosen_files())),
            },
        ),
        after.op.running,
{
}

/// Where nothing is chosen, nothing is asked; packing says so.
pub proof fn nothing_chosen_asks_nothing(
    before: FileManagerApp,
    copied: FileManagerApp,
    moved: FileManagerApp,
    deleted: FileManagerApp,
    packed: FileManagerApp,
    cmd: CommandView,
)
    requires
        before.here().archive_location is None,
        before.chosen_files().len() == 0,
        before.copy_started(&copied, cmd),
        before.move_started(&moved),
        before.delete_asked(&deleted),
        before.pack_asked(&packed),
    ensures
        copied == before,
        cmd == CommandView::Nothing,
        moved == before,
        deleted == before,
        packed.pack == before.pack,
        packed.op_status.deep_view() == Some(StatusView::Warn("Nejsou označeny žádné soubory."@)),
{
}

/// Saying no closes the window and forgets the files; nothing else changes.
pub proof fn declining_forgets(
    before: FileManagerApp,
    copied: FileManagerApp,
    deleted: FileManagerApp,
    packed: FileManagerApp,
    dropped: FileManagerApp,
)
    requires
        before.transfer_declined(&copied),
        before.delete_declined(&deleted),
        before.pack_declined(&packed),
        before.pending_dropped(&dropped),
    ensures
        !copied.copy.show && copied.copy.targets@.len() == 0 && copied.op == before.op,
        !deleted.delete.show && deleted.delete.targets@.len() == 0 && deleted.op == before.op,
        !packed.pack.show && packed.pack.files@.len() == 0 && packed.op == before.op,
        dropped.pending.action is None && dropped.pending.conflicts@.len() == 0 && dropped.op
            == before.op,
{
}

/// The answer to an error is the one at the chosen button: to try again, to leave out, to give
/// up; only giving up stops an operation that can be stopped.
pub proof fn error_answer_by_button(
    before: FileManagerApp,
    after: FileManagerApp,
    focus: usize,
    cmd: CommandView,
)
    requires
        before.error_answered(&after, focus, cmd),
    ensures
        after.op.err_wait is None,
        cmd is Answer,
        focus == 0 ==> cmd == (CommandView::Answer { answer: file_op::ERR_RETRY, stop: false }),
        focus == 1 ==> cmd == (CommandView::Answer { answer: file_op::ERR_SKIP, stop: false }),
        focus >= 2 ==> cmd == (CommandView::Answer {
            answer: file_op::ERR_CANCEL,
            stop: before.op.stoppable,
        }),
{
}

/// The end of an operation and its errors are shown in the status line, other messages are not.
pub proof fn status_tells_the_end(msg: OpMsgView)
    ensures
        msg is Finished ==> status_of(msg) == Some(StatusView::Info("Hotovo."@)),
        msg matches OpMsgView::Error(e) ==> status_of(msg) == Some(
            StatusView::Error("Chyba: "@ + e),
        ),
        !(msg is Finished) && !(msg is Error) ==> status_of(msg) is None,
{
}

/// A message of an operation goes to the progress window, and its end to the status line.
pub proof fn operation_is_told(before: FileManagerApp, after: FileManagerApp, msg: OpMsgView)
    requires
        before.op_told(&after, msg),
    ensures
        after.op@ == before.op@.after(msg),
        msg is Finished ==> after.op_status.deep_view() == Some(StatusView::Info("Hotovo."@)),
        msg matches OpMsgView::Error(e) ==> after.op_status.deep_view() == Some(
            StatusView::Error("Chyba: "@ + e),
        ),
        !(msg is Finished) && !(msg is Error) ==> after.op_status == before.op_status,
        after.left == before.left,
        after.right == before.right,
{
}

} // verus!
