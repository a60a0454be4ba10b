//! Installing a newer version over the running one, step by step.

use crate::path::{DirPath, PathView};
use crate::text;
use vstd::prelude::*;

verus! {

broadcast use vstd::string::group_string_axioms;

/// Where an installation stands.
#[derive(Clone, Copy, Debug, PartialEq, Eq, Structural)]
pub enum InstallStage {
    BuildingClient,
    Fetching,
    ReadingBody,
    FindingExe,
    WritingZip,
    OpeningZip,
    ReadingZip,
    ReadingEntry,
    CreatingExe,
    CopyingExe,
    RemovingZip { extracted: bool },
    WritingBat,
    RunningBat,
    ClearingTmp,
    MakingTmp,
    WritingArchive,
    RunningTar,
    ProbingBinary,
    SettingMode,
    Replacing,
    CleaningTmp,
    Launching,
    /// Taking the temporary directory away after a failure.
    DroppingTmp,
    Exiting,
    Failed,
}

/// What an installation asks for.
#[derive(Clone, Copy, Debug, PartialEq, Eq, Structural)]
pub enum InstallAsk {
    /// To set up a client for the network.
    BuildClient,
    /// To send the request for the new version.
    Fetch,
    /// To read the body of the reply.
    ReadBody,
    /// The path of the running program.
    FindExe,
    /// To write the body to the file for the archive.
    WriteZip,
    /// To open that file.
    OpenZip,
    /// To read it as an archive, and how many members it has.
    ReadZip,
    /// The name of the member at a position.
    ReadEntry(usize),
    /// To create the file for the new program.
    CreateExe,
    /// To write the member at a position to it.
    CopyExe(usize),
    /// To remove the file with the archive.
    RemoveZip,
    /// To write the script that swaps the programs.
    WriteBat,
    /// To start the script.
    RunBat,
    /// To remove the temporary directory.
    RemoveTmp,
    /// To create the temporary directory.
    MakeTmp,
    /// To write the body to a file in the temporary directory.
    WriteArchive,
    /// To unpack that file, and whether it worked.
    RunTar,
    /// Whether the new program is there.
    ProbeBinary,
    /// To make the new program executable.
    SetMode,
    /// To put the new program in the place of the running one.
    Replace,
    /// To start the new program.
    Launch,
    /// To leave the running program.
    Exit,
    /// Nothing: the installation has failed.
    Fail,
}

/// What an installation is told in reply.
#[derive(Debug)]
pub enum InstallTold {
    Outcome(Result<(), String>),
    /// Whether the status of a reply is one of success, and its text.
    Status(Result<(bool, String), String>),
    Exe(Result<DirPath, String>),
    Count(Result<usize, String>),
    Name(Result<String, String>),
    Ran(Result<bool, String>),
    Yes(bool),
    Done,
}

/// What a reply is.
#[verifier::ext_equal]
pub enum InstallToldView {
    Outcome(Result<(), Seq<char>>),
    Status(Result<(bool, Seq<char>), Seq<char>>),
    Exe(Result<PathView, Seq<char>>),
    Count(Result<usize, Seq<char>>),
    Name(Result<Seq<char>, Seq<char>>),
    Ran(Result<bool, Seq<char>>),
    Yes(bool),
    Done,
}

impl View for InstallTold {
    type V = InstallToldView;

    open spec fn view(&self) -> InstallToldView {
        match *self {
            InstallTold::Outcome(Ok(())) => InstallToldView::Outcome(Ok(())),
            InstallTold::Outcome(Err(e)) => InstallToldView::Outcome(Err(e@)),
            InstallTold::Status(Ok((ok, t))) => InstallToldView::Status(Ok((ok, t@))),
            InstallTold::Status(Err(e)) => InstallToldView::Status(Err(e@)),
            InstallTold::Exe(Ok(p)) => InstallToldView::Exe(Ok(p@)),
            InstallTold::Exe(Err(e)) => InstallToldView::Exe(Err(e@)),
            InstallTold::Count(Ok(n)) => InstallToldView::Count(Ok(n)),
            InstallTold::Count(Err(e)) => InstallToldView::Count(Err(e@)),
            InstallTold::Name(Ok(n)) => InstallToldView::Name(Ok(n@)),
            InstallTold::Name(Err(e)) => InstallToldView::Name(Err(e@)),
            InstallTold::Ran(Ok(b)) => InstallToldView::Ran(Ok(b)),
            InstallTold::Ran(Err(e)) => InstallToldView::Ran(Err(e@)),
            InstallTold::Yes(b) => InstallToldView::Yes(b),
            InstallTold::Done => InstallToldView::Done,
        }
    }
}

/// An installation: the platform, the program that runs, and how far it got.
#[derive(Debug)]
pub struct Install {
    pub windows: bool,
    pub exe: DirPath,
    pub total: usize,
    pub index: usize,
    /// What went wrong.
    pub error: String,
    pub stage: InstallStage,
}

/// What an installation is.
#[verifier::ext_equal]
pub struct InstallView {
    pub windows: bool,
    pub exe: PathView,
    pub total: usize,
    pub index: usize,
    pub error: Seq<char>,
    pub stage: InstallStage,
}

impl View for Install {
    type V = InstallView;

    open spec fn view(&self) -> InstallView {
        InstallView {
            windows: self.windows,
            exe: self.exe@,
            total: self.total,
            index: self.index,
            error: self.error@,
            stage: self.stage,
        }
    }
}

/// Whether the name of a member is that of a program.
pub open spec fn is_program(name: Seq<char>) -> bool {
    text::ends_with(text::lowercase(name), ".exe"@)
}

/// The script that puts the new program in the place of the running one and starts it.
pub open spec fn swap_script(new_name: Seq<char>, current_name: Seq<char>) -> Seq<char> {
    "@echo off\r\ntimeout /t 2 /nobreak >nul\r\nmove /y \""@ + new_name + "\" \""@ + current_name
        + "\"\r\nstart \"\" \""@ + current_name + "\"\r\ndel \"%~f0\""@
}

impl InstallView {
    /// What the installation asks for.
    pub open spec fn ask(self) -> InstallAsk {
        match self.stage {
            InstallStage::BuildingClient => InstallAsk::BuildClient,
            InstallStage::Fetching => InstallAsk::Fetch,
            InstallStage::ReadingBody => InstallAsk::ReadBody,
            InstallStage::FindingExe => InstallAsk::FindExe,
            InstallStage::WritingZip => InstallAsk::WriteZip,
            InstallStage::OpeningZip => InstallAsk::OpenZip,
            InstallStage::ReadingZip => InstallAsk::ReadZip,
            InstallStage::ReadingEntry => InstallAsk::ReadEntry(self.index),
            InstallStage::CreatingExe => InstallAsk::CreateExe,
            InstallStage::CopyingExe => InstallAsk::CopyExe(self.index),
            InstallStage::RemovingZip { extracted } => InstallAsk::RemoveZip,
            InstallStage::WritingBat => InstallAsk::WriteBat,
            InstallStage::RunningBat => InstallAsk::RunBat,
            InstallStage::ClearingTmp => InstallAsk::RemoveTmp,
            InstallStage::MakingTmp => InstallAsk::MakeTmp,
            InstallStage::WritingArchive => InstallAsk::WriteArchive,
            InstallStage::RunningTar => InstallAsk::RunTar,
            InstallStage::ProbingBinary => InstallAsk::ProbeBinary,
            InstallStage::SettingMode => InstallAsk::SetMode,
            InstallStage::Replacing => InstallAsk::Replace,
            InstallStage::CleaningTmp => InstallAsk::RemoveTmp,
            InstallStage::Launching => InstallAsk::Launch,
            InstallStage::DroppingTmp => InstallAsk::RemoveTmp,
            InstallStage::Exiting => InstallAsk::Exit,
            InstallStage::Failed => InstallAsk::Fail,
        }
    }

    /// The installation at another stage.
    pub open spec fn at(self, stage: InstallStage) -> InstallView {
        InstallView { stage, ..self }
    }

    /// The installation after a failure.
    pub open spec fn failed(self, error: Seq<char>) -> InstallView {
        InstallView { stage: InstallStage::Failed, error, ..self }
    }

    /// The installation after a failure that leaves the temporary directory to be removed.
    pub open spec fn dropped(self, error: Seq<char>) -> InstallView {
        InstallView { stage: InstallStage::DroppingTmp, error, ..self }
    }

    /// The installation after a step that came out one way or the other.
    pub open spec fn settled(
        self,
        outcome: Result<(), Seq<char>>,
        stage: InstallStage,
        prefix: Seq<char>,
    ) -> InstallView {
        match outcome {
            Ok(_) => self.at(stage),
            Err(e) => self.failed(prefix + e),
        }
    }

    /// At the member at a position, or past all of them.
    pub open spec fn at_entry(self, index: int) -> InstallView {
        if index < self.total {
            InstallView { index: index as usize, stage: InstallStage::ReadingEntry, ..self }
        } else {
            self.at(InstallStage::RemovingZip { extracted: false })
        }
    }

    /// The installation once the running program is known.
    pub open spec fn with_exe(self, exe: PathView) -> InstallView {
        let w = InstallView { exe, ..self };
        if self.windows {
            w.at(InstallStage::WritingZip)
        } else if exe.parent() is None {
            w.failed("Neznámý adresář aplikace"@)
        } else {
            w.at(InstallStage::ClearingTmp)
        }
    }

    /// The installation before the platforms part.
    pub open spec fn next_common(self, told: InstallToldView) -> InstallView {
        match (self.stage, told) {
            (InstallStage::BuildingClient, InstallToldView::Outcome(r)) => self.settled(
                r,
                InstallStage::Fetching,
                "HTTP klient: "@,
            ),
            (InstallStage::Fetching, InstallToldView::Status(r)) => match r {
                Ok((ok, status)) => if ok {
                    self.at(InstallStage::ReadingBody)
                } else {
                    self.failed("HTTP "@ + status)
                },
                Err(e) => self.failed("Stahování: "@ + e),
            },
            (InstallStage::ReadingBody, InstallToldView::Outcome(r)) => self.settled(
                r,
                InstallStage::FindingExe,
                "Čtení dat: "@,
            ),
            (InstallStage::FindingExe, InstallToldView::Exe(r)) => match r {
                Ok(exe) => self.with_exe(exe),
                Err(e) => self.failed("Cesta k exe: "@ + e),
            },
            _ => self,
        }
    }

    /// The installation on Windows: the program is taken out of an archive, and a script
    /// swaps it for the running one once that has ended.
    pub open spec fn next_windows(self, told: InstallToldView) -> InstallView {
        match (self.stage, told) {
            (InstallStage::WritingZip, InstallToldView::Outcome(r)) => self.settled(
                r,
                InstallStage::OpeningZip,
                "Zápis staženého ZIP: "@,
            ),
            (InstallStage::OpeningZip, InstallToldView::Outcome(r)) => self.settled(
                r,
                InstallStage::ReadingZip,
                "Otevření ZIP: "@,
            ),
            (InstallStage::ReadingZip, InstallToldView::Count(r)) => match r {
                Ok(total) => (InstallView { total, ..self }).at_entry(0),
                Err(e) => self.failed("Čtení ZIP: "@ + e),
            },
            (InstallStage::ReadingEntry, InstallToldView::Name(r)) => match r {
                Ok(name) => if is_program(name) {
                    self.at(InstallStage::CreatingExe)
                } else {
                    self.at_entry(self.index + 1)
                },
                Err(e) => self.failed("Čtení ZIP položky: "@ + e),
            },
            (InstallStage::CreatingExe, InstallToldView::Outcome(r)) => self.settled(
                r,
                InstallStage::CopyingExe,
                "Zápis nového exe: "@,
            ),
            (InstallStage::CopyingExe, InstallToldView::Outcome(r)) => self.settled(
                r,
                InstallStage::RemovingZip { extracted: true },
                "Rozbalení exe: "@,
            ),
            (InstallStage::RemovingZip { extracted }, InstallToldView::Done) => if extracted {
                self.at(InstallStage::WritingBat)
            } else {
                self.failed("V ZIP archivu nebyl nalezen .exe soubor"@)
            },
            (InstallStage::WritingBat, InstallToldView::Outcome(r)) => self.settled(
                r,
                InstallStage::RunningBat,
                "Zápis bat skriptu: "@,
            ),
            (InstallStage::RunningBat, InstallToldView::Outcome(r)) => self.settled(
                r,
                InstallStage::Exiting,
                "Spuštění updatéru: "@,
            ),
            _ => self,
        }
    }

    /// The installation elsewhere: an archive is unpacked next to the running program, which
    /// the new one then replaces.
    pub open spec fn next_unix(self, told: InstallToldView) -> InstallView {
        match (self.stage, told) {
            (InstallStage::ClearingTmp, InstallToldView::Done) => self.at(InstallStage::MakingTmp),
            (InstallStage::MakingTmp, InstallToldView::Outcome(r)) => self.settled(
                r,
                InstallStage::WritingArchive,
                "Vytvoření dočasného adresáře: "@,
            ),
            (InstallStage::WritingArchive, InstallToldView::Outcome(r)) => self.settled(
                r,
                InstallStage::RunningTar,
                "Zápis archivu: "@,
            ),
            (InstallStage::RunningTar, InstallToldView::Ran(r)) => match r {
                Ok(ok) => if !ok {
                    self.dropped("Rozbalení archivu selhalo"@)
                } else if self.exe.name() is None {
                    self.failed("Neznámý název binárky"@)
                } else {
                    self.at(InstallStage::ProbingBinary)
                },
                Err(e) => self.failed("Spuštění tar: "@ + e),
            },
            (InstallStage::ProbingBinary, InstallToldView::Yes(found)) => if found {
                self.at(InstallStage::SettingMode)
            } else {
                self.dropped("V archivu nebyla nalezena binárka"@)
            },
            (InstallStage::SettingMode, InstallToldView::Done) => self.at(InstallStage::Replacing),
            (InstallStage::Replacing, InstallToldView::Outcome(r)) => self.settled(
                r,
                InstallStage::CleaningTmp,
                "Nahrazení binárky: "@,
            ),
            (InstallStage::CleaningTmp, InstallToldView::Done) => self.at(InstallStage::Launching),
            (InstallStage::Launching, InstallToldView::Outcome(r)) => self.settled(
                r,
                InstallStage::Exiting,
                "Spuštění nové verze: "@,
            ),
            (InstallStage::DroppingTmp, InstallToldView::Done) => self.at(InstallStage::Failed),
            _ => self,
        }
    }

    /// The part of the installation that a stage belongs to.
    pub open spec fn is_common(self) -> bool {
        self.stage is BuildingClient || self.stage is Fetching || self.stage is ReadingBody
            || self.stage is FindingExe
    }

    /// Whether the stage is one of an installation on Windows.
    pub open spec fn is_windows(self) -> bool {
        self.stage is WritingZip || self.stage is OpeningZip || self.stage is ReadingZip
            || self.stage is ReadingEntry || self.stage is CreatingExe || self.stage is CopyingExe
            || self.stage is RemovingZip || self.stage is WritingBat || self.stage is RunningBat
    }

    /// The installation after a reply. A reply to another question than the one asked changes
    /// nothing.
    pub open spec fn next(self, told: InstallToldView) -> InstallView {
        if self.is_common() {
            self.next_common(told)
        } else if self.is_windows() {
            self.next_windows(told)
        } else {
            self.next_unix(told)
        }
    }

    /// What holds of an installation between two replies: it is on the path of its platform.
    pub open spec fn wf(self) -> bool {
        &&& self.is_windows() ==> self.windows
        &&& self.stage is ReadingEntry || self.stage is CreatingExe || self.stage is CopyingExe
            ==> self.index < self.total
        &&& !self.is_common() && !self.is_windows() && !(self.stage is Exiting)
            && !(self.stage is Failed) ==> !self.windows && self.exe.parent() is Some
        &&& self.stage is ProbingBinary || self.stage is SettingMode || self.stage is Replacing
            ==> self.exe.name() is Some
    }

    /// The directory that the new version is unpacked in.
    pub open spec fn tmp_dir(self) -> PathView {
        self.exe.parent()->0.child(".er_commander_update_tmp"@)
    }
}

/// An installation stays on the path of its platform.
pub proof fn install_stays_wf(w: InstallView, told: InstallToldView)
    requires
        w.wf(),
    ensures
        w.next(told).wf(),
        w.next(told).windows == w.windows,
{
}

/// The running program is replaced only after the new one was found.
pub proof fn install_replaces_with_found(w: InstallView, told: InstallToldView)
    requires
        w.stage != InstallStage::SettingMode,
        w.next(told).stage == InstallStage::SettingMode,
    ensures
        w.stage == InstallStage::ProbingBinary,
        told == InstallToldView::Yes(true),
{
}

/// The swapping script is written only after a program was taken out of the archive.
pub proof fn install_swaps_extracted(w: InstallView, told: InstallToldView)
    requires
        w.stage != InstallStage::WritingBat,
        w.next(told).stage == InstallStage::WritingBat,
    ensures
        w.stage == (InstallStage::RemovingZip { extracted: true }),
{
}

/// An installation that has failed, or that leaves the program, stays so.
pub proof fn install_ends(w: InstallView, told: InstallToldView)
    requires
        w.stage == InstallStage::Failed || w.stage == InstallStage::Exiting,
    ensures
        w.next(told) == w,
{
}

impl Install {
    /// The start of an installation.
    pub fn new(windows: bool, sep: char) -> (r: Install)
        ensures
            r@ == (InstallView {
                windows,
                exe: PathView { root: seq![], parts: seq![], sep },
                total: 0,
                index: 0,
                error: seq![],
                stage: InstallStage::BuildingClient,
            }),
            r@.wf(),
    {
        Install {
            windows,
            exe: DirPath::empty(sep),
            total: 0,
            index: 0,
            error: String::new(),
            stage: InstallStage::BuildingClient,
        }
    }

    /// What the installation asks for.
    pub fn ask(&self) -> (r: InstallAsk)
        ensures
            r == self@.ask(),
    {
        match self.stage {
            InstallStage::BuildingClient => InstallAsk::BuildClient,
            InstallStage::Fetching => InstallAsk::Fetch,
            InstallStage::ReadingBody => InstallAsk::ReadBody,
            InstallStage::FindingExe => InstallAsk::FindExe,
            InstallStage::WritingZip => InstallAsk::WriteZip,
            InstallStage::OpeningZip => InstallAsk::OpenZip,
            InstallStage::ReadingZip => InstallAsk::ReadZip,
            InstallStage::ReadingEntry => InstallAsk::ReadEntry(self.index),
            InstallStage::CreatingExe => InstallAsk::CreateExe,
            InstallStage::CopyingExe => InstallAsk::CopyExe(self.index),
            InstallStage::RemovingZip { extracted } => InstallAsk::RemoveZip,
            InstallStage::WritingBat => InstallAsk::WriteBat,
            InstallStage::RunningBat => InstallAsk::RunBat,
            InstallStage::ClearingTmp => InstallAsk::RemoveTmp,
            InstallStage::MakingTmp => InstallAsk::MakeTmp,
            InstallStage::WritingArchive => InstallAsk::WriteArchive,
            InstallStage::RunningTar => InstallAsk::RunTar,
            InstallStage::ProbingBinary => InstallAsk::ProbeBinary,
            InstallStage::SettingMode => InstallAsk::SetMode,
            InstallStage::Replacing => InstallAsk::Replace,
            InstallStage::CleaningTmp => InstallAsk::RemoveTmp,
            InstallStage::Launching => InstallAsk::Launch,
            InstallStage::DroppingTmp => InstallAsk::RemoveTmp,
            InstallStage::Exiting => InstallAsk::Exit,
            InstallStage::Failed => InstallAsk::Fail,
        }
    }

    fn fail(&mut self, prefix: &str, reason: &str)
        ensures
            final(self)@ == old(self)@.failed(prefix@ + reason@),
    {
        let mut e = prefix.to_owned();
        e.append(reason);
        self.error = e;
        self.stage = InstallStage::Failed;
    }

    fn settle(&mut self, outcome: Result<(), String>, stage: InstallStage, prefix: &str)
        ensures
            final(self)@ == old(self)@.settled(
                match outcome {
                    Ok(_) => Ok(()),
                    Err(e) => Err(e@),
                },
                stage,
                prefix@,
            ),
    {
        match outcome {
            Ok(_) => {
                self.stage = stage;
            },
            Err(e) => {
                self.fail(prefix, e.as_str());
            },
        }
    }

    fn fail_with(&mut self, error: &str)
        ensures
            final(self)@ == old(self)@.failed(error@),
    {
        self.error = error.to_owned();
        self.stage = InstallStage::Failed;
    }

    fn drop_with(&mut self, error: &str)
        ensures
            final(self)@ == old(self)@.dropped(error@),
    {
        self.error = error.to_owned();
        self.stage = InstallStage::DroppingTmp;
    }

    fn go_to_entry(&mut self, index: usize)
        ensures
            final(self)@ == old(self)@.at_entry(index as int),
    {
        if index < self.total {
            self.index = index;
            self.stage = InstallStage::ReadingEntry;
        } else {
            self.stage = InstallStage::RemovingZip { extracted: false };
        }
    }

    fn step_common(&mut self, told: InstallTold)
        ensures
            final(self)@ == old(self)@.next_common(told@),
    {
        match (self.stage, told) {
            (InstallStage::BuildingClient, InstallTold::Outcome(r)) => {
                self.settle(r, InstallStage::Fetching, "HTTP klient: ");
            },
            (InstallStage::Fetching, InstallTold::Status(r)) => {
                match r {
                    Ok((ok, status)) => {
                        if ok {
                            self.stage = InstallStage::ReadingBody;
                        } else {
                            self.fail("HTTP ", status.as_str());
                        }
                    },
                    Err(e) => {
                        self.fail("Stahování: ", e.as_str());
                    },
                }
            },
            (InstallStage::ReadingBody, InstallTold::Outcome(r)) => {
                self.settle(r, InstallStage::FindingExe, "Čtení dat: ");
            },
            (InstallStage::FindingExe, InstallTold::Exe(r)) => {
                match r {
                    Ok(exe) => {
                        let has_parent = exe.has_parent();
                        self.exe = exe;
                        if self.windows {
                            self.stage = InstallStage::WritingZip;
                        } else if !has_parent {
                            self.fail_with("Neznámý adresář aplikace");
                        } else {
                            self.stage = InstallStage::ClearingTmp;
                        }
                    },
                    Err(e) => {
                        self.fail("Cesta k exe: ", e.as_str());
                    },
                }
            },
            _ => {},
        }
    }

    fn step_windows(&mut self, told: InstallTold)
        requires
            old(self)@.wf(),
        ensures
            final(self)@ == old(self)@.next_windows(told@),
    {
        match (self.stage, told) {
            (InstallStage::WritingZip, InstallTold::Outcome(r)) => {
                self.settle(r, InstallStage::OpeningZip, "Zápis staženého ZIP: ");
            },
            (InstallStage::OpeningZip, InstallTold::Outcome(r)) => {
                self.settle(r, InstallStage::ReadingZip, "Otevření ZIP: ");
            },
            (InstallStage::ReadingZip, InstallTold::Count(r)) => {
                match r {
                    Ok(total) => {
                        self.total = total;
                        self.go_to_entry(0);
                    },
                    Err(e) => {
                        self.fail("Čtení ZIP: ", e.as_str());
                    },
                }
            },
            (InstallStage::ReadingEntry, InstallTold::Name(r)) => {
                match r {
                    Ok(name) => {
                        let lower = text::to_lower(name.as_str());
                        if text::ends(lower.as_str(), ".exe") {
                            self.stage = InstallStage::CreatingExe;
                        } else {
                            self.go_to_entry(self.index + 1);
                        }
                    },
                    Err(e) => {
                        self.fail("Čtení ZIP položky: ", e.as_str());
                    },
                }
            },
            (InstallStage::CreatingExe, InstallTold::Outcome(r)) => {
                self.settle(r, InstallStage::CopyingExe, "Zápis nového exe: ");
            },
            (InstallStage::CopyingExe, InstallTold::Outcome(r)) => {
                self.settle(
                    r,
                    InstallStage::RemovingZip { extracted: true },
                    "Rozbalení exe: ",
                );
            },
            (InstallStage::RemovingZip { extracted }, InstallTold::Done) => {
                if extracted {
                    self.stage = InstallStage::WritingBat;
                } else {
                    self.fail_with("V ZIP archivu nebyl nalezen .exe soubor");
                }
            },
            (InstallStage::WritingBat, InstallTold::Outcome(r)) => {
                self.settle(r, InstallStage::RunningBat, "Zápis bat skriptu: ");
            },
            (InstallStage::RunningBat, InstallTold::Outcome(r)) => {
                self.settle(r, InstallStage::Exiting, "Spuštění updatéru: ");
            },
            _ => {},
        }
    }

    fn step_unix(&mut self, told: InstallTold)
        ensures
            final(self)@ == old(self)@.next_unix(told@),
    {
        match (self.stage, told) {
            (InstallStage::ClearingTmp, InstallTold::Done) => {
                self.stage = InstallStage::MakingTmp;
            },
            (InstallStage::MakingTmp, InstallTold::Outcome(r)) => {
                self.settle(r, InstallStage::WritingArchive, "Vytvoření dočasného adresáře: ");
            },
            (InstallStage::WritingArchive, InstallTold::Outcome(r)) => {
                self.settle(r, InstallStage::RunningTar, "Zápis archivu: ");
            },
            (InstallStage::RunningTar, InstallTold::Ran(r)) => {
                match r {
                    Ok(ok) => {
                        if !ok {
                            self.drop_with("Rozbalení archivu selhalo");
                        } else if self.exe.file_name().is_none() {
                            self.fail_with("Neznámý název binárky");
                        } else {
                            self.stage = InstallStage::ProbingBinary;
                        }
                    },
                    Err(e) => {
                        self.fail("Spuštění tar: ", e.as_str());
                    },
                }
            },
            (InstallStage::ProbingBinary, InstallTold::Yes(found)) => {
                if found {
                    self.stage = InstallStage::SettingMode;
                } else {
                    self.drop_with("V archivu nebyla nalezena binárka");
                }
            },
            (InstallStage::SettingMode, InstallTold::Done) => {
                self.stage = InstallStage::Replacing;
            },
            (InstallStage::Replacing, InstallTold::Outcome(r)) => {
                self.settle(r, InstallStage::CleaningTmp, "Nahrazení binárky: ");
            },
            (InstallStage::CleaningTmp, InstallTold::Done) => {
                self.stage = InstallStage::Launching;
            },
            (InstallStage::Launching, InstallTold::Outcome(r)) => {
                self.settle(r, InstallStage::Exiting, "Spuštění nové verze: ");
            },
            (InstallStage::DroppingTmp, InstallTold::Done) => {
                self.stage = InstallStage::Failed;
            },
            _ => {},
        }
    }

    /// Takes in a reply.
    pub fn step(&mut self, told: InstallTold) -> (r: InstallAsk)
        requires
            old(self)@.wf(),
        ensures
            final(self)@ == old(self)@.next(told@),
            final(self)@.wf(),
            r == final(self)@.ask(),
    {
        proof {
            install_stays_wf(self@, told@);
        }
        match self.stage {
            InstallStage::BuildingClient
            | InstallStage::Fetching
            | InstallStage::ReadingBody
            | InstallStage::FindingExe => {
                self.step_common(told);
            },
            InstallStage::WritingZip
            | InstallStage::OpeningZip
            | InstallStage::ReadingZip
            | InstallStage::ReadingEntry
            | InstallStage::CreatingExe
            | InstallStage::CopyingExe
            | InstallStage::RemovingZip { .. }
            | InstallStage::WritingBat
            | InstallStage::RunningBat => {
                self.step_windows(told);
            },
            _ => {
                self.step_unix(told);
            },
        }
        self.ask()
    }

    /// The file that the archive with the new version is written to.
    pub fn zip_path(&self) -> (r: DirPath)
        ensures
            r@ == self@.exe.with_extension("zip.update"@),
    {
        self.exe.with_extension("zip.update")
    }

    /// The file that the new program is written to.
    pub fn new_exe(&self) -> (r: DirPath)
        ensures
            r@ == self@.exe.with_extension("exe.new"@),
    {
        self.exe.with_extension("exe.new")
    }

    /// The file that the swapping script is written to.
    pub fn bat_path(&self) -> (r: DirPath)
        ensures
            r@ == self@.exe.with_extension("update.bat"@),
    {
        self.exe.with_extension("update.bat")
    }

    /// The script that puts the new program in the place of the running one and starts it.
    pub fn bat_content(&self) -> (r: String)
        ensures
            r@ == swap_script(
                self@.exe.with_extension("exe.new"@).text(),
                self@.exe.text(),
            ),
    {
        let new_name = self.new_exe().text();
        let current = self.exe.text();
        let mut s = "@echo off\r\ntimeout /t 2 /nobreak >nul\r\nmove /y \"".to_owned();
        s.append(new_name.as_str());
        s.append("\" \"");
        s.append(current.as_str());
        s.append("\"\r\nstart \"\" \"");
        s.append(current.as_str());
        s.append("\"\r\ndel \"%~f0\"");
        s
    }

    /// The directory that the new version is unpacked in; none without a directory of the
    /// running program.
    pub fn tmp_dir(&self) -> (r: Option<DirPath>)
        ensures
            r is Some == self@.exe.parent() is Some,
            r matches Some(p) ==> p@ == self@.tmp_dir(),
    {
        match self.exe.parent() {
            Some(dir) => Some(dir.join(".er_commander_update_tmp")),
            None => None,
        }
    }

    /// The file that the packed new version is written to.
    pub fn archive_path(&self) -> (r: Option<DirPath>)
        ensures
            r is Some == self@.exe.parent() is Some,
            r matches Some(p) ==> p@ == self@.tmp_dir().child("update.tar.gz"@),
    {
        match self.tmp_dir() {
            Some(dir) => Some(dir.join("update.tar.gz")),
            None => None,
        }
    }

    /// Where the unpacked new program is looked for: under the name of the running one.
    pub fn new_binary(&self) -> (r: Option<DirPath>)
        ensures
            r is Some == (self@.exe.parent() is Some && self@.exe.name() is Some),
            r matches Some(p) ==> p@ == self@.tmp_dir().child(self@.exe.name()->0),
    {
        match (self.tmp_dir(), self.exe.file_name()) {
            (Some(dir), Some(name)) => Some(dir.join(name.as_str())),
            _ => None,
        }
    }
}

/// What fails ends the installation: the error is told, with what it happened on before it.
pub proof fn install_tells_failure(w: InstallView, e: Seq<char>)
    requires
        ({
            ||| w.ask() is BuildClient
            ||| w.ask() is ReadBody
            ||| w.ask() is WriteZip
            ||| w.ask() is OpenZip
            ||| w.ask() is CreateExe
            ||| w.ask() is CopyExe
            ||| w.ask() is WriteBat
            ||| w.ask() is RunBat
            ||| w.ask() is MakeTmp
            ||| w.ask() is WriteArchive
            ||| w.ask() is Replace
            ||| w.ask() is Launch
        }),
    ensures
        ({
            let after = w.next(InstallToldView::Outcome(Err(e)));
            &&& after.ask() == InstallAsk::Fail
            &&& exists|what: Seq<char>| after.error == #[trigger] (what + e)
        }),
{
    let after = w.next(InstallToldView::Outcome(Err(e)));
    let what = after.error.take(after.error.len() - e.len());
    assert(after.error =~= what + e);
}

/// An answer other than success is a failure to download, told by its status.
pub proof fn install_needs_success(w: InstallView, status: Seq<char>, e: Seq<char>)
    requires
        w.ask() == InstallAsk::Fetch,
    ensures
        w.next(InstallToldView::Status(Ok((true, status)))).ask() == InstallAsk::ReadBody,
        w.next(InstallToldView::Status(Ok((false, status)))).ask() == InstallAsk::Fail,
        w.next(InstallToldView::Status(Ok((false, status)))).error == "HTTP "@ + status,
        w.next(InstallToldView::Status(Err(e))).ask() == InstallAsk::Fail,
{
}

/// The way of an installation where nothing fails, up to the download: a client, the request,
/// the body, the program's own path; then, as the system asks, the archive is written.
pub proof fn install_downloads(w: InstallView, status: Seq<char>, exe: PathView)
    requires
        w.ask() == InstallAsk::BuildClient,
        exe.parent() is Some,
    ensures
        ({
            let ok = InstallToldView::Outcome(Ok(()));
            let a = w.next(ok);
            let b = a.next(InstallToldView::Status(Ok((true, status))));
            let c = b.next(ok);
            let d = c.next(InstallToldView::Exe(Ok(exe)));
            &&& a.ask() == InstallAsk::Fetch
            &&& b.ask() == InstallAsk::ReadBody
            &&& c.ask() == InstallAsk::FindExe
            &&& d.exe == exe
            &&& w.windows ==> d.ask() == InstallAsk::WriteZip
            &&& !w.windows ==> d.ask() == InstallAsk::RemoveTmp
        }),
{
}

/// The way of an installation from a zip archive where nothing fails: the archive is written,
/// opened and read, from its first member on.
pub proof fn install_reads_the_zip(w: InstallView, total: usize)
    requires
        w.ask() == InstallAsk::WriteZip,
    ensures
        ({
            let ok = InstallToldView::Outcome(Ok(()));
            let a = w.next(ok);
            let b = a.next(ok);
            let c = b.next(InstallToldView::Count(Ok(total)));
            &&& a.ask() == InstallAsk::OpenZip
            &&& b.ask() == InstallAsk::ReadZip
            &&& total > 0 ==> c.ask() == InstallAsk::ReadEntry(0)
            &&& total == 0 ==> c.ask() == InstallAsk::RemoveZip
        }),
{
}

/// A member is the program where its name ends so, whatever the case.
pub proof fn programs_by_their_ending(name: Seq<char>)
    ensures
        is_program(name) <==> exists|a: Seq<char>| text::lowercase(name) == #[trigger] (a
            + ".exe"@),
{
    text::ends_by_parting(text::lowercase(name), ".exe"@);
}

/// The state after the names of members were told one by one.
pub open spec fn after_names(w: InstallView, names: Seq<Seq<char>>) -> InstallView
    decreases names.len(),
{
    if names.len() == 0 {
        w
    } else {
        after_names(w, names.drop_last()).next(InstallToldView::Name(Ok(names.last())))
    }
}

/// Members are looked at one after the other until one is the program: that one is taken out.
pub proof fn install_takes_the_first_program(w: InstallView, names: Seq<Seq<char>>, name: Seq<char>)
    requires
        w.ask() == InstallAsk::ReadEntry(0),
        names.len() < w.total,
        forall|i: int| 0 <= i < names.len() ==> !is_program(#[trigger] names[i]),
        is_program(name),
    ensures
        after_names(w, names).ask() == InstallAsk::ReadEntry(names.len() as usize),
        ({
            let ok = InstallToldView::Outcome(Ok(()));
            let a = after_names(w, names).next(InstallToldView::Name(Ok(name)));
            let b = a.next(ok);
            let c = b.next(ok);
            let d = c.next(InstallToldView::Done);
            let e = d.next(ok);
            let f = e.next(ok);
            &&& a.ask() == InstallAsk::CreateExe
            &&& b.ask() == InstallAsk::CopyExe(names.len() as usize)
            &&& c.ask() == InstallAsk::RemoveZip
            &&& d.ask() == InstallAsk::WriteBat
            &&& e.ask() == InstallAsk::RunBat
            &&& f.ask() == InstallAsk::Exit
        }),
{
    lemma_names(w, names);
}

proof fn lemma_names(w: InstallView, names: Seq<Seq<char>>)
    requires
        w.ask() == InstallAsk::ReadEntry(0),
        names.len() < w.total,
        forall|i: int| 0 <= i < names.len() ==> !is_program(#[trigger] names[i]),
    ensures
        after_names(w, names) == (InstallView { index: names.len() as usize, ..w }),
    decreases names.len(),
{
    if names.len() > 0 {
        let front = names.drop_last();
        assert forall|i: int| 0 <= i < front.len() implies !is_program(#[trigger] front[i]) by {
            assert(front[i] == names[i]);
        }
        lemma_names(w, front);
        assert(!is_program(names[names.len() - 1]));
    }
}

/// An archive without a program is a failure, told after the archive was removed.
pub proof fn install_needs_a_program(w: InstallView, names: Seq<Seq<char>>, name: Seq<char>)
    requires
        w.ask() == InstallAsk::ReadEntry(0),
        names.len() + 1 == w.total,
        forall|i: int| 0 <= i < names.len() ==> !is_program(#[trigger] names[i]),
        !is_program(name),
    ensures
        ({
            let a = after_names(w, names).next(InstallToldView::Name(Ok(name)));
            let b = a.next(InstallToldView::Done);
            &&& a.ask() == InstallAsk::RemoveZip
            &&& b.ask() == InstallAsk::Fail
            &&& b.error == "V ZIP archivu nebyl nalezen .exe soubor"@
        }),
{
    lemma_names(w, names);
}

/// The way of an installation from a tar archive where nothing fails: a fresh directory, the
/// archive, its members, the binary found, made executable and put in the place of the old one;
/// then the directory is removed and the new version started.
pub proof fn install_unpacks_and_replaces(w: InstallView)
    requires
        w.stage == InstallStage::ClearingTmp,
        w.exe.name() is Some,
    ensures
        ({
            let ok = InstallToldView::Outcome(Ok(()));
            let a = w.next(InstallToldView::Done);
            let b = a.next(ok);
            let c = b.next(ok);
            let d = c.next(InstallToldView::Ran(Ok(true)));
            let e = d.next(InstallToldView::Yes(true));
            let f = e.next(InstallToldView::Done);
            let g = f.next(ok);
            let h = g.next(InstallToldView::Done);
            let i = h.next(ok);
            &&& a.ask() == InstallAsk::MakeTmp
            &&& b.ask() == InstallAsk::WriteArchive
            &&& c.ask() == InstallAsk::RunTar
            &&& d.ask() == InstallAsk::ProbeBinary
            &&& e.ask() == InstallAsk::SetMode
            &&& f.ask() == InstallAsk::Replace
            &&& g.ask() == InstallAsk::RemoveTmp
            &&& h.ask() == InstallAsk::Launch
            &&& i.ask() == InstallAsk::Exit
        }),
{
}

/// Where unpacking does not come out, or the binary is not in the archive, the directory is
/// removed before the failure is told.
pub proof fn install_cleans_up(w: InstallView)
    ensures
        w.ask() == InstallAsk::RunTar ==> {
            let a = w.next(InstallToldView::Ran(Ok(false)));
            a.ask() == InstallAsk::RemoveTmp && a.next(InstallToldView::Done).ask()
                == InstallAsk::Fail
        },
        w.ask() == InstallAsk::ProbeBinary ==> {
            let a = w.next(InstallToldView::Yes(false));
            a.ask() == InstallAsk::RemoveTmp && a.next(InstallToldView::Done).ask()
                == InstallAsk::Fail
        },
{
}

/// The directory in which an archive is unpacked lies beside the program.
pub proof fn unpacks_beside_the_program(w: InstallView)
    requires
        w.exe.parent() is Some,
        w.exe.sep == '/' || w.exe.sep == '\\',
    ensures
        w.tmp_dir().parent() == w.exe.parent(),
        w.tmp_dir().name() == Some(".er_commander_update_tmp"@),
{
    reveal_strlit(".er_commander_update_tmp");
    reveal_strlit(".");
    reveal_strlit("..");
    let name = ".er_commander_update_tmp"@;
    assert(name.len() > 2);
    assert(forall|i: int| 0 <= i < name.len() ==> name[i] != '/' && name[i] != '\\');
    assert(name[1] == 'e');
    crate::path::child_then_parent(w.exe.parent()->0, name);
    crate::path::child_has_name(w.exe.parent()->0, name);
}

} // verus!
