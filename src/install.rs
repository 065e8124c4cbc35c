//! The install pipeline as a state machine: the caller performs each step
//! it is handed (download, unpack, activate) and reports back.

use vstd::prelude::*;
use crate::catalogue::{MidnightArtifacts, MidnightCompiler, NotFoundError, selection};
use crate::cli::CommandLineArguments;
use crate::layout::{compiler_dir_of, CompilerAsset, ToolchainPath};
use crate::target::Target;
use crate::version::{Version, VersionSpec};

verus! {

/// Where the pipeline stands.
#[derive(Debug, Clone, Copy, PartialEq, Eq, Structural)]
pub enum Stage {
    /// Waiting to learn what is already on disk.
    Probing,
    /// Waiting for the archive to be downloaded.
    Downloading,
    /// Waiting for the archive to be unpacked.
    Unpacking,
    /// Waiting for the link to be updated.
    Activating,
    /// Nothing left to do.
    Done,
}

/// What the caller reports after performing a step.
#[derive(Debug, Clone, Copy, PartialEq, Eq, Structural)]
pub enum InstallEvent {
    /// Whether the compiler executable and the archive are present.
    Probed { entrypoint_present: bool, archive_present: bool },
    /// The archive was downloaded.
    Downloaded,
    /// The archive was unpacked.
    Unpacked,
    /// The link now points at the compiler and was checked.
    Activated,
}

/// What the caller is to do next.
#[derive(Debug, Clone, Copy, PartialEq, Eq, Structural)]
pub enum InstallStep {
    /// Fetch the artifact into the archive path.
    Download,
    /// Run the unpacker on the archive in the version's directory.
    Unpack,
    /// Point the link at the compiler executable.
    Activate,
    /// Stop; the outcome is ready.
    Finish,
}

/// What an install did.
#[derive(Debug, Clone, Copy, PartialEq, Eq, Structural)]
pub struct InstallOutcome {
    pub version: Version,
    /// False when the compiler was already present.
    pub installed: bool,
    pub activated: bool,
}

/// An event that does not fit the stage the pipeline is in.
#[derive(Debug, Clone, Copy, PartialEq, Eq, Structural)]
pub struct UnexpectedEvent {
    pub stage: Stage,
    pub event: InstallEvent,
}

/// The transition function: from a stage, whether activation was asked
/// for, and an event, to the next stage, whether something was installed,
/// and the step to perform.
pub open spec fn transition(stage: Stage, activate: bool, event: InstallEvent) -> Option<
    (Stage, bool, InstallStep),
> {
    match (stage, event) {
        (Stage::Probing, InstallEvent::Probed { entrypoint_present, archive_present }) => {
            if entrypoint_present {
                if activate {
                    Some((Stage::Activating, false, InstallStep::Activate))
                } else {
                    Some((Stage::Done, false, InstallStep::Finish))
                }
            } else if archive_present {
                Some((Stage::Unpacking, false, InstallStep::Unpack))
            } else {
                Some((Stage::Downloading, false, InstallStep::Download))
            }
        },
        (Stage::Downloading, InstallEvent::Downloaded) => Some(
            (Stage::Unpacking, false, InstallStep::Unpack),
        ),
        (Stage::Unpacking, InstallEvent::Unpacked) => if activate {
            Some((Stage::Activating, true, InstallStep::Activate))
        } else {
            Some((Stage::Done, true, InstallStep::Finish))
        },
        (Stage::Activating, InstallEvent::Activated) => Some((Stage::Done, false, InstallStep::Finish)),
        _ => None,
    }
}

/// One install of one version for one platform.
#[derive(Debug, Clone)]
pub struct InstallPipeline {
    pub compiler: CompilerAsset,
    pub target: Target,
    pub activate: bool,
    pub stage: Stage,
    pub installed: bool,
    pub activated: bool,
}

impl MidnightCompiler {
    /// The release's artifact for `target` placed in the layout under `directory`.
    pub fn compiler(&self, cfg: &CommandLineArguments) -> (r: CompilerAsset)
        ensures
            r.version == self.version,
            r.path@ == compiler_dir_of(cfg.directory.root(), self.version, cfg.target),
            r.asset@ == (if cfg.target.spec_is_macos() {
                self.macos@
            } else {
                self.linux@
            }),
    {
        let asset = if cfg.target.is_macos() {
            self.macos.duplicate()
        } else {
            self.linux.duplicate()
        };
        CompilerAsset {
            path: cfg.directory.compiler_dir(self.version, cfg.target),
            asset,
            version: self.version,
        }
    }
}

impl InstallPipeline {
    /// Selects the release to install from the catalogue (the newest one
    /// that satisfies `spec`, the newest of all without one) and starts the
    /// pipeline for it.
    pub fn start(
        cfg: &CommandLineArguments,
        catalogue: &mut MidnightArtifacts,
        spec: Option<VersionSpec>,
        activate: bool,
    ) -> (r: Result<InstallPipeline, NotFoundError>)
        requires
            old(catalogue).wf(),
        ensures
            final(catalogue).wf(),
            match r {
                Ok(p) => p.stage == Stage::Probing && !p.installed && !p.activated && p.activate
                    == activate && p.target == cfg.target && p.compiler.path@ == compiler_dir_of(
                    cfg.directory.root(),
                    p.compiler.version,
                    cfg.target,
                ) && exists|c: MidnightCompiler|
                    selection(old(catalogue)@, final(catalogue)@, spec, Ok((p.compiler.version, c)))
                        && p.compiler.asset@ == (if cfg.target.spec_is_macos() {
                        c.macos@
                    } else {
                        c.linux@
                    }),
                Err(e) => selection(old(catalogue)@, final(catalogue)@, spec, Err(e)),
            },
    {
        match catalogue.select(spec) {
            Ok((version, release)) => {
                let compiler = release.compiler(cfg);
                Ok(
                    InstallPipeline {
                        compiler,
                        target: cfg.target,
                        activate,
                        stage: Stage::Probing,
                        installed: false,
                        activated: false,
                    },
                )
            },
            Err(e) => Err(e),
        }
    }

    /// Moves the pipeline on by one event and says what to do next.
    pub fn advance(&mut self, event: InstallEvent) -> (r: Result<InstallStep, UnexpectedEvent>)
        ensures
            final(self).compiler == old(self).compiler,
            final(self).activate == old(self).activate,
            final(self).target == old(self).target,
            match transition(old(self).stage, old(self).activate, event) {
                Some((stage, installed, step)) => r == Ok::<InstallStep, UnexpectedEvent>(step)
                    && final(self).stage == stage && final(self).installed == (old(self).installed
                    || installed) && final(self).activated == (old(self).activated || event
                    == InstallEvent::Activated),
                None => r == Err::<InstallStep, UnexpectedEvent>(
                    UnexpectedEvent { stage: old(self).stage, event },
                ) && final(self).stage == old(self).stage && final(self).installed == old(
                    self,
                ).installed && final(self).activated == old(self).activated,
            },
    {
        let next: Option<(Stage, bool, InstallStep)> = match (self.stage, event) {
            (Stage::Probing, InstallEvent::Probed { entrypoint_present, archive_present }) => {
                if entrypoint_present {
                    if self.activate {
                        Some((Stage::Activating, false, InstallStep::Activate))
                    } else {
                        Some((Stage::Done, false, InstallStep::Finish))
                    }
                } else if archive_present {
                    Some((Stage::Unpacking, false, InstallStep::Unpack))
                } else {
                    Some((Stage::Downloading, false, InstallStep::Download))
                }
            },
            (Stage::Downloading, InstallEvent::Downloaded) => Some(
                (Stage::Unpacking, false, InstallStep::Unpack),
            ),
            (Stage::Unpacking, InstallEvent::Unpacked) => if self.activate {
                Some((Stage::Activating, true, InstallStep::Activate))
            } else {
                Some((Stage::Done, true, InstallStep::Finish))
            },
            (Stage::Activating, InstallEvent::Activated) => Some(
                (Stage::Done, false, InstallStep::Finish),
            ),
            _ => None,
        };
        match next {
            Some((stage, installed, step)) => {
                self.stage = stage;
                self.installed = self.installed || installed;
                self.activated = self.activated || event == InstallEvent::Activated;
                Ok(step)
            },
            None => Err(UnexpectedEvent { stage: self.stage, event }),
        }
    }

    /// What the install did, once it is done.
    pub fn outcome(&self) -> (r: InstallOutcome)
        ensures
            r == (InstallOutcome {
                version: self.compiler.version,
                installed: self.installed,
                activated: self.activated,
            }),
    {
        InstallOutcome {
            version: self.compiler.version,
            installed: self.installed,
            activated: self.activated,
        }
    }
}

/// Whether a step is work for the downloader or the unpacker.
pub open spec fn is_transfer(step: InstallStep) -> bool {
    step == InstallStep::Download || step == InstallStep::Unpack
}

/// When the compiler is already present, the pipeline hands out no
/// download and no unpack, whatever is reported afterwards, and records
/// nothing as installed.
pub proof fn law_present_compiler_needs_no_transfer(
    activate: bool,
    archive_present: bool,
    events: Seq<InstallEvent>,
)
    ensures
        ({
            let first = transition(
                Stage::Probing,
                activate,
                InstallEvent::Probed { entrypoint_present: true, archive_present },
            );
            &&& first matches Some((stage, installed, step))
            &&& !is_transfer(step) && !installed
            &&& (stage == Stage::Activating || stage == Stage::Done)
            &&& forall|i: int|
                0 <= i < events.len() ==> match transition(stage, activate, #[trigger] events[i]) {
                    Some((s2, inst2, step2)) => !is_transfer(step2) && !inst2 && s2 == Stage::Done,
                    None => true,
                }
        }),
{
}

/// What the unpacker reported.
pub struct UnpackReport {
    pub success: bool,
    pub status: String,
    pub stderr: String,
    pub program: String,
    pub working_dir: ToolchainPath,
}

/// The unpacker failed; everything needed to run it again by hand.
#[derive(Debug)]
pub struct ExtractionError {
    pub status: String,
    pub stderr: String,
    pub program: String,
    pub working_dir: ToolchainPath,
}

/// Turns the unpacker's report into success or an extraction error that
/// carries its status, its error output, the command and its directory.
pub fn check_unpack(report: UnpackReport) -> (r: Result<(), ExtractionError>)
    ensures
        report.success <==> r is Ok,
        r matches Err(e) ==> e.status@ == report.status@ && e.stderr@ == report.stderr@
            && e.program@ == report.program@ && e.working_dir@ == report.working_dir@,
{
    if report.success {
        Ok(())
    } else {
        Err(
            ExtractionError {
                status: report.status,
                stderr: report.stderr,
                program: report.program,
                working_dir: report.working_dir,
            },
        )
    }
}

/// How the current compiler compares with the newest release.
#[derive(Debug, Clone, Copy, PartialEq, Eq, Structural)]
pub enum CheckStatus {
    /// The current compiler is the newest release or newer.
    UpToDate { current: Version },
    /// A newer release than the current compiler exists.
    UpdateAvailable { current: Version, latest: Version },
    /// No compiler is current.
    NotInstalled { latest: Version },
}

/// Compares the current compiler (if any) with the newest release.
pub fn check_status(current: Option<Version>, latest: Version) -> (r: CheckStatus)
    ensures
        r == (match current {
            None => CheckStatus::NotInstalled { latest },
            Some(c) => if latest.at_most(c) {
                CheckStatus::UpToDate { current: c }
            } else {
                CheckStatus::UpdateAvailable { current: c, latest }
            },
        }),
{
    match current {
        None => CheckStatus::NotInstalled { latest },
        Some(c) => if latest.precedes(&c) || latest == c {
            CheckStatus::UpToDate { current: c }
        } else {
            CheckStatus::UpdateAvailable { current: c, latest }
        },
    }
}

} // verus!
