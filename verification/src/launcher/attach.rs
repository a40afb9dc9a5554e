//! Attaching to a launched game: which steps are performed, in which order, and what comes of them.
//!
//! An [`AttachRun`] names one step at a time. Whoever drives it performs the step and replies with
//! what came of it, until the run is finished.

use vstd::prelude::*;

use crate::launcher::stage::{attach_delay, AttachMode, LateGoal};
use crate::script::Script;

verus! {

/// A path that no DLL has. Loading it shows whether remote loading works at all.
pub const MISSING_PROBE_PATH: &'static str = "C:\\__ME3_NO_STEAM_DIAG_MISSING__.dll";

/// The parts of an attach request that the launcher itself acts on.
#[derive(Clone, Copy, Debug, PartialEq, Eq, Structural)]
pub struct AttachConfig {
    /// Steam is left out.
    pub no_steam: bool,
    /// The host holds the game until a debugger is there.
    pub suspend: bool,
}

/// What is loaded into the game.
#[derive(Clone, Copy, Debug, PartialEq, Eq, Structural)]
pub enum Dll {
    /// The DLL at [`MISSING_PROBE_PATH`].
    MissingProbe,
    /// The mod host.
    ModHost,
}

/// Why something is loaded into the game.
#[derive(Clone, Copy, Debug, PartialEq, Eq, Structural)]
pub enum Purpose {
    /// To see whether loading works in a game that has not run yet.
    Probe,
    /// As part of a late attach.
    Late,
    /// To have the mod host in a game that has not run yet.
    Host,
}

/// One step of an attach.
#[derive(Clone, Copy, Debug, PartialEq, Eq, Structural)]
pub enum AttachStep {
    /// Start the thread that relays the host's messages.
    StartMessagePump,
    /// Duplicate the handle of the game's process.
    DuplicateProcessHandle,
    /// Read the diagnostic stage from the environment.
    ReadDiagStage,
    /// Resume the main thread of the game.
    ResumeMainThread,
    /// Read the delay of a late attach from the environment.
    ReadAttachDelay,
    /// Wait.
    Sleep { ms: u64 },
    /// Have the game load a DLL.
    Inject { dll: Dll, purpose: Purpose },
    /// Tell the user that the game waits for a debugger.
    AnnounceSuspension,
    /// Send the attach request to the host and wait for its response.
    RequestAttach,
}

/// What came of a step.
pub enum AttachReply<E> {
    /// It was performed.
    Done,
    /// It read this value of an environment variable.
    Variable(Option<String>),
    /// The load was carried out, with this exit code.
    Loaded(u32),
    /// It failed.
    Failed(E),
    /// The host answered the attach request with an error.
    Refused(String),
}

/// The proof of a successful attach.
#[derive(Clone, Copy, Debug, PartialEq, Eq, Structural)]
pub struct Attachment;

/// Why an attach failed.
#[derive(Debug)]
pub enum AttachError<E> {
    /// The process handle could not be duplicated.
    ProcessHandle(E),
    /// A DLL could not be loaded.
    Injection { purpose: Purpose, source: E },
    /// The attach request did not reach the host, or its response did not come back.
    Bridge(E),
    /// The host answered with this error.
    Refused(String),
}

/// Where an attach stands after a reply.
pub enum AttachProgress<E> {
    Continue(AttachRun),
    Finished(Result<Attachment, AttachError<E>>),
}

/// An attach that is under way.
pub struct AttachRun {
    suspend: bool,
    script: Script<AttachStep>,
}

/// An attach that is under way: the setting that later steps depend on, and the steps that are
/// known to be left.
pub struct AttachRunView {
    pub suspend: bool,
    pub todo: Seq<AttachStep>,
}

impl View for AttachRun {
    type V = AttachRunView;

    closed spec fn view(&self) -> AttachRunView {
        AttachRunView { suspend: self.suspend, todo: self.script@ }
    }
}

/// The DLL that a late attach loads.
pub open spec fn late_dll(goal: LateGoal) -> Dll {
    if goal == LateGoal::Probe {
        Dll::MissingProbe
    } else {
        Dll::ModHost
    }
}

/// The steps of each mode, as far as they do not depend on what an earlier one reads.
pub open spec fn steps_of(mode: AttachMode, suspend: bool) -> Seq<AttachStep> {
    let inject = |dll: Dll, purpose: Purpose| AttachStep::Inject { dll, purpose };
    match mode {
        AttachMode::ResumeOnly => seq![AttachStep::ResumeMainThread],
        AttachMode::ProbeOnly => seq![
            inject(Dll::MissingProbe, Purpose::Probe),
            AttachStep::ResumeMainThread,
        ],
        AttachMode::Late(goal) => {
            let load = seq![
                AttachStep::ResumeMainThread,
                AttachStep::ReadAttachDelay,
                inject(late_dll(goal), Purpose::Late),
            ];
            if goal == LateGoal::Attach {
                load.push(AttachStep::RequestAttach)
            } else {
                load
            }
        },
        AttachMode::LoadOnly => seq![
            inject(Dll::ModHost, Purpose::Host),
            AttachStep::ResumeMainThread,
        ],
        AttachMode::Immediate => if suspend {
            seq![
                inject(Dll::ModHost, Purpose::Host),
                AttachStep::AnnounceSuspension,
                AttachStep::RequestAttach,
                AttachStep::ResumeMainThread,
            ]
        } else {
            seq![
                inject(Dll::ModHost, Purpose::Host),
                AttachStep::RequestAttach,
                AttachStep::ResumeMainThread,
            ]
        },
    }
}

/// The steps that are known before anything has been performed. Without Steam the diagnostic stage
/// decides on the rest.
pub open spec fn opening_steps(config: AttachConfig) -> Seq<AttachStep> {
    seq![AttachStep::StartMessagePump, AttachStep::DuplicateProcessHandle] + (if config.no_steam {
        seq![AttachStep::ReadDiagStage]
    } else {
        steps_of(AttachMode::Immediate, config.suspend)
    })
}

/// Whether a reply can come of a step. Only the process handle, a load and the attach request can
/// fail, and only the host refuses.
pub open spec fn fits<E>(step: AttachStep, reply: AttachReply<E>) -> bool {
    match step {
        AttachStep::ReadDiagStage | AttachStep::ReadAttachDelay => reply is Variable,
        AttachStep::DuplicateProcessHandle => reply is Done || reply is Failed,
        AttachStep::Inject { .. } => reply is Loaded || reply is Failed,
        AttachStep::RequestAttach => reply is Done || reply is Failed || reply is Refused,
        _ => reply is Done,
    }
}

/// Whether a reply ends the attach with an error. The exit code of a load does not.
pub open spec fn aborts<E>(reply: AttachReply<E>) -> bool {
    reply is Failed || reply is Refused
}

/// The error that a failed step ends the attach with.
pub open spec fn error_of<E>(step: AttachStep, reply: AttachReply<E>) -> AttachError<E> {
    match reply {
        AttachReply::Refused(message) => AttachError::Refused(message),
        _ => {
            let source = reply->Failed_0;
            match step {
                AttachStep::DuplicateProcessHandle => AttachError::ProcessHandle(source),
                AttachStep::Inject { purpose, .. } => AttachError::Injection { purpose, source },
                _ => AttachError::Bridge(source),
            }
        },
    }
}

/// The steps that a reply brings in: the rest of the attach after the stage was read, the wait
/// after the delay was.
pub open spec fn follow_up<E>(
    step: AttachStep,
    reply: AttachReply<E>,
    suspend: bool,
) -> Seq<AttachStep> {
    match reply {
        AttachReply::Variable(variable) => {
            let value = crate::launcher::stage::characters(variable);
            match step {
                AttachStep::ReadDiagStage => steps_of(
                    crate::launcher::stage::attach_mode(true, value),
                    suspend,
                ),
                AttachStep::ReadAttachDelay => seq![
                    AttachStep::Sleep { ms: crate::launcher::stage::delay_of(value) as u64 },
                ],
                _ => Seq::empty(),
            }
        },
        _ => Seq::empty(),
    }
}

/// The steps that are left after a reply to the first one.
pub open spec fn remaining<E>(run: AttachRunView, reply: AttachReply<E>) -> Seq<AttachStep> {
    follow_up(run.todo[0], reply, run.suspend) + run.todo.drop_first()
}

/// The UTF-16 units of a text of ASCII characters.
pub open spec fn ascii_units(text: Seq<char>) -> Seq<u16> {
    text.map_values(|c: char| c as u16)
}

impl Dll {
    /// The path to load, given that of the mod host, in UTF-16 units.
    pub fn path(self, mod_host: &Vec<u16>) -> (path: Vec<u16>)
        ensures
            path@ == (match self {
                Dll::MissingProbe => ascii_units(MISSING_PROBE_PATH@),
                Dll::ModHost => mod_host@,
            }),
    {
        match self {
            Dll::ModHost => mod_host.clone(),
            Dll::MissingProbe => {
                let count: usize = MISSING_PROBE_PATH.unicode_len();
                let mut path: Vec<u16> = Vec::new();
                let mut i: usize = 0;
                while i < count
                    invariant
                        i <= count == MISSING_PROBE_PATH@.len(),
                        path@ == ascii_units(MISSING_PROBE_PATH@).take(i as int),
                    decreases count - i,
                {
                    path.push(MISSING_PROBE_PATH.get_char(i) as u16);
                    assert(path@ =~= ascii_units(MISSING_PROBE_PATH@).take(i + 1));
                    i = i + 1;
                }
                assert(path@ =~= ascii_units(MISSING_PROBE_PATH@));
                path
            },
        }
    }
}

/// What is said above the cause when a load fails.
pub open spec fn injection_context(purpose: Purpose) -> Seq<char> {
    match purpose {
        Purpose::Probe => "failed to execute missing-DLL remote-thread probe"@,
        Purpose::Late => "failed delayed remote LoadLibraryW probe"@,
        Purpose::Host => "failed to inject mod host DLL"@,
    }
}

impl Purpose {
    /// What is said above the cause when a load fails.
    pub fn failure_context(self) -> (context: &'static str)
        ensures
            context@ == injection_context(self),
    {
        match self {
            Purpose::Probe => "failed to execute missing-DLL remote-thread probe",
            Purpose::Late => "failed delayed remote LoadLibraryW probe",
            Purpose::Host => "failed to inject mod host DLL",
        }
    }
}

impl AttachMode {
    /// The steps of the mode, as far as they do not depend on what an earlier one reads.
    pub fn steps(self, suspend: bool) -> (steps: Vec<AttachStep>)
        ensures
            steps@ == steps_of(self, suspend),
    {
        let mut steps: Vec<AttachStep> = Vec::new();
        match self {
            AttachMode::ResumeOnly => {
                steps.push(AttachStep::ResumeMainThread);
            },
            AttachMode::ProbeOnly => {
                steps.push(AttachStep::Inject { dll: Dll::MissingProbe, purpose: Purpose::Probe });
                steps.push(AttachStep::ResumeMainThread);
            },
            AttachMode::Late(goal) => {
                let dll: Dll = if goal == LateGoal::Probe {
                    Dll::MissingProbe
                } else {
                    Dll::ModHost
                };
                steps.push(AttachStep::ResumeMainThread);
                steps.push(AttachStep::ReadAttachDelay);
                steps.push(AttachStep::Inject { dll, purpose: Purpose::Late });
                if goal == LateGoal::Attach {
                    steps.push(AttachStep::RequestAttach);
                }
            },
            AttachMode::LoadOnly => {
                steps.push(AttachStep::Inject { dll: Dll::ModHost, purpose: Purpose::Host });
                steps.push(AttachStep::ResumeMainThread);
            },
            AttachMode::Immediate => {
                steps.push(AttachStep::Inject { dll: Dll::ModHost, purpose: Purpose::Host });
                if suspend {
                    steps.push(AttachStep::AnnounceSuspension);
                }
                steps.push(AttachStep::RequestAttach);
                steps.push(AttachStep::ResumeMainThread);
            },
        }
        assert(steps@ =~= steps_of(self, suspend));
        steps
    }
}

impl AttachRun {
    /// Begins an attach.
    pub fn begin(config: AttachConfig) -> (run: AttachRun)
        ensures
            run@.suspend == config.suspend,
            run@.todo == opening_steps(config),
    {
        let rest: Vec<AttachStep> = if config.no_steam {
            let mut rest: Vec<AttachStep> = Vec::new();
            rest.push(AttachStep::ReadDiagStage);
            rest
        } else {
            AttachMode::Immediate.steps(config.suspend)
        };
        let mut opening: Vec<AttachStep> = Vec::new();
        opening.push(AttachStep::StartMessagePump);
        opening.push(AttachStep::DuplicateProcessHandle);
        let count: usize = rest.len();
        let mut i: usize = 0;
        assert(opening@ =~= seq![AttachStep::StartMessagePump, AttachStep::DuplicateProcessHandle]
            + rest@.take(0));
        while i < count
            invariant
                i <= count == rest@.len(),
                opening@ == seq![
                    AttachStep::StartMessagePump,
                    AttachStep::DuplicateProcessHandle,
                ] + rest@.take(i as int),
            decreases count - i,
        {
            opening.push(rest[i]);
            assert(rest@.take(i as int).push(rest@[i as int]) =~= rest@.take(i + 1));
            i = i + 1;
        }
        assert(rest@.take(count as int) =~= rest@);
        assert(opening@ =~= opening_steps(config));
        AttachRun { suspend: config.suspend, script: Script::new(opening) }
    }

    /// The step to perform now.
    pub fn step(&self) -> (step: Option<AttachStep>)
        ensures
            step == (if self@.todo.len() > 0 {
                Some(self@.todo[0])
            } else {
                None
            }),
    {
        self.script.first()
    }

    /// Takes what came of the step and goes on. The attach ends with an error at the first step
    /// that fails, and with success when no step is left.
    pub fn reply<E>(self, reply: AttachReply<E>) -> (progress: AttachProgress<E>)
        requires
            self@.todo.len() > 0,
            fits(self@.todo[0], reply),
        ensures
            match progress {
                AttachProgress::Continue(run) => {
                    &&& !aborts(reply)
                    &&& remaining(self@, reply).len() > 0
                    &&& run@ == (AttachRunView {
                        suspend: self@.suspend,
                        todo: remaining(self@, reply),
                    })
                },
                AttachProgress::Finished(Ok(_)) => {
                    &&& !aborts(reply)
                    &&& remaining(self@, reply).len() == 0
                },
                AttachProgress::Finished(Err(error)) => {
                    &&& aborts(reply)
                    &&& error == error_of(self@.todo[0], reply)
                },
            },
    {
        let step: AttachStep = match self.script.first() {
            Some(step) => step,
            None => {
                return AttachProgress::Finished(Ok(Attachment));
            },
        };
        let mut inserted: Vec<AttachStep> = Vec::new();
        match reply {
            AttachReply::Refused(message) => {
                return AttachProgress::Finished(Err(AttachError::Refused(message)));
            },
            AttachReply::Failed(source) => {
                let error: AttachError<E> = match step {
                    AttachStep::DuplicateProcessHandle => AttachError::ProcessHandle(source),
                    AttachStep::Inject { purpose, .. } => AttachError::Injection { purpose, source },
                    _ => AttachError::Bridge(source),
                };
                return AttachProgress::Finished(Err(error));
            },
            AttachReply::Variable(variable) => match step {
                AttachStep::ReadDiagStage => {
                    inserted = AttachMode::of_variable(&variable).steps(self.suspend);
                },
                AttachStep::ReadAttachDelay => {
                    inserted.push(AttachStep::Sleep { ms: attach_delay(&variable) });
                },
                _ => {},
            },
            _ => {},
        }
        assert(inserted@ =~= follow_up(step, reply, self@.suspend));
        let script: Script<AttachStep> = self.script.advance(inserted);
        match script.first() {
            Some(_) => AttachProgress::Continue(AttachRun { suspend: self.suspend, script }),
            None => AttachProgress::Finished(Ok(Attachment)),
        }
    }
}

} // verus!
