//! Starting the game: what its process is started with, in which order things are set up, and what
//! comes of them.
//!
//! A [`LaunchRun`] names one step at a time. Whoever drives it performs the step and replies with
//! what came of it, until the run is finished. Paths are rows of UTF-16 units.

use vstd::prelude::*;

verus! {

/// The process starts with its main thread suspended.
pub const CREATE_SUSPENDED: u32 = 0x4;

/// How many messages the bridge to the game holds.
pub const BRIDGE_CAPACITY: u32 = 32;

/// The system error of a program that has to be run as an administrator.
pub const ERROR_ELEVATION_REQUIRED: i32 = 740;

/// What a standard stream of the game is connected to.
#[derive(Clone, Copy, Debug, PartialEq, Eq, Structural)]
pub enum Stream {
    Null,
    Inherit,
}

/// What the process of the game is started with.
pub struct GameCommand {
    pub program: Vec<u16>,
    pub args: Vec<String>,
    pub directory: Vec<u16>,
    pub creation_flags: u32,
    pub stdin: Stream,
    pub stdout: Stream,
    pub stderr: Stream,
}

/// One step of a launch.
#[derive(Clone, Copy, Debug, PartialEq, Eq, Structural)]
pub enum LaunchStep {
    /// Ask for the directory that the launcher runs in.
    ReadCurrentDirectory,
    /// Read the telemetry variables from the environment.
    ReadTelemetry,
    /// Put the launcher's own trace id among them.
    StampTraceId,
    /// Hand them to the game through its environment.
    StoreTelemetry,
    /// Set up the bridge to the game, for this many messages.
    CreateBridge { capacity: u32 },
    /// Start the process.
    Spawn,
}

/// What came of a step.
pub enum LaunchReply<E> {
    /// It was performed.
    Done,
    /// The launcher runs in this directory, if that can be told.
    Directory(Option<Vec<u16>>),
    /// It failed.
    Failed(E),
    /// The process could not be started, with this error of the system where there is one.
    SpawnFailed { os_error: Option<i32>, source: E },
}

/// Why a launch failed.
#[derive(Debug)]
pub enum LaunchError<E> {
    /// The telemetry variables could not be read.
    Telemetry(E),
    /// The bridge could not be set up.
    Bridge(E),
    /// The game has to be run as an administrator.
    ElevationRequired,
    /// The process could not be started for another reason.
    Spawn(E),
}

/// Where a launch stands after a reply.
pub enum LaunchProgress<E> {
    Continue(LaunchRun),
    Finished(Result<(), LaunchError<E>>),
}

/// A launch that is under way.
pub struct LaunchRun {
    command: GameCommand,
    step: LaunchStep,
}

/// A launch that is under way: what the game is started with as far as it is known, and the step to
/// perform now.
pub struct LaunchRunView {
    pub program: Seq<u16>,
    pub args: Seq<String>,
    pub directory: Seq<u16>,
    pub creation_flags: u32,
    pub stdin: Stream,
    pub stdout: Stream,
    pub stderr: Stream,
    pub step: LaunchStep,
}

impl View for LaunchRun {
    type V = LaunchRunView;

    closed spec fn view(&self) -> LaunchRunView {
        LaunchRunView {
            program: self.command.program@,
            args: self.command.args@,
            directory: self.command.directory@,
            creation_flags: self.command.creation_flags,
            stdin: self.command.stdin,
            stdout: self.command.stdout,
            stderr: self.command.stderr,
            step: self.step,
        }
    }
}

/// The path `.`.
pub open spec fn dot() -> Seq<u16> {
    seq![0x2e]
}

/// The directory of the game: the one that is given, else the launcher's own, else `.`.
pub open spec fn working_directory(
    given: Option<Seq<u16>>,
    current: Option<Seq<u16>>,
) -> Seq<u16> {
    match (given, current) {
        (Some(directory), _) => directory,
        (None, Some(directory)) => directory,
        (None, None) => dot(),
    }
}

/// The units of an optional path.
pub open spec fn units(path: Option<Vec<u16>>) -> Option<Seq<u16>> {
    match path {
        Some(units) => Some(units@),
        None => None,
    }
}

/// Whether a reply can come of a step. Only the telemetry variables, the bridge and the process can
/// fail.
pub open spec fn fits<E>(step: LaunchStep, reply: LaunchReply<E>) -> bool {
    match step {
        LaunchStep::ReadCurrentDirectory => reply is Directory,
        LaunchStep::ReadTelemetry => reply is Done || reply is Failed,
        LaunchStep::CreateBridge { .. } => reply is Done || reply is Failed,
        LaunchStep::Spawn => reply is Done || reply is SpawnFailed,
        _ => reply is Done,
    }
}

/// Whether a reply ends the launch with an error.
pub open spec fn aborts<E>(reply: LaunchReply<E>) -> bool {
    reply is Failed || reply is SpawnFailed
}

/// The error that a failed step ends the launch with.
pub open spec fn error_of<E>(step: LaunchStep, reply: LaunchReply<E>) -> LaunchError<E> {
    match reply {
        LaunchReply::SpawnFailed { os_error, source } => if os_error == Some(
            ERROR_ELEVATION_REQUIRED,
        ) {
            LaunchError::ElevationRequired
        } else {
            LaunchError::Spawn(source)
        },
        _ => {
            let source = reply->Failed_0;
            if step == LaunchStep::ReadTelemetry {
                LaunchError::Telemetry(source)
            } else {
                LaunchError::Bridge(source)
            }
        },
    }
}

/// The step that follows; starting the process is the last one.
pub open spec fn next_step(step: LaunchStep) -> Option<LaunchStep> {
    match step {
        LaunchStep::ReadCurrentDirectory => Some(LaunchStep::ReadTelemetry),
        LaunchStep::ReadTelemetry => Some(LaunchStep::StampTraceId),
        LaunchStep::StampTraceId => Some(LaunchStep::StoreTelemetry),
        LaunchStep::StoreTelemetry => Some(
            LaunchStep::CreateBridge { capacity: BRIDGE_CAPACITY },
        ),
        LaunchStep::CreateBridge { .. } => Some(LaunchStep::Spawn),
        LaunchStep::Spawn => None,
    }
}

/// The directory of the game after a reply.
pub open spec fn directory_after<E>(directory: Seq<u16>, reply: LaunchReply<E>) -> Seq<u16> {
    match reply {
        LaunchReply::Directory(Some(current)) => current@,
        _ => directory,
    }
}

impl LaunchRun {
    #[verifier::type_invariant]
    spec fn suspended_and_silent(self) -> bool {
        &&& self.command.creation_flags == CREATE_SUSPENDED
        &&& self.command.stdin == Stream::Null
        &&& self.command.stdout == Stream::Null
        &&& self.command.stderr == Stream::Null
    }

    /// Begins to launch `program`. The launcher's own directory is asked for only where none is
    /// given.
    pub fn begin(program: Vec<u16>, args: Vec<String>, directory: Option<Vec<u16>>) -> (run:
        LaunchRun)
        ensures
            run@ == (LaunchRunView {
                program: program@,
                args: args@,
                directory: working_directory(units(directory), None),
                creation_flags: CREATE_SUSPENDED,
                stdin: Stream::Null,
                stdout: Stream::Null,
                stderr: Stream::Null,
                step: if directory is Some {
                    LaunchStep::ReadTelemetry
                } else {
                    LaunchStep::ReadCurrentDirectory
                },
            }),
            directory matches Some(given) ==> run@.directory == given@,
            directory is None ==> run@.directory == seq![0x2eu16],
    {
        let (directory, step): (Vec<u16>, LaunchStep) = match directory {
            Some(directory) => (directory, LaunchStep::ReadTelemetry),
            None => {
                let mut here: Vec<u16> = Vec::new();
                here.push(0x2e);
                assert(here@ =~= dot());
                (here, LaunchStep::ReadCurrentDirectory)
            },
        };
        LaunchRun {
            command: GameCommand {
                program,
                args,
                directory,
                creation_flags: CREATE_SUSPENDED,
                stdin: Stream::Null,
                stdout: Stream::Null,
                stderr: Stream::Null,
            },
            step,
        }
    }

    /// The step to perform now.
    pub fn step(&self) -> (step: LaunchStep)
        ensures
            step == self@.step,
    {
        self.step
    }

    /// What the game is started with. Its main thread is suspended, and no stream is connected.
    pub fn command(&self) -> (command: &GameCommand)
        ensures
            command.program@ == self@.program,
            command.args@ == self@.args,
            command.directory@ == self@.directory,
            command.creation_flags == self@.creation_flags,
            command.stdin == self@.stdin,
            command.stdout == self@.stdout,
            command.stderr == self@.stderr,
            command.creation_flags == CREATE_SUSPENDED,
            command.stdin == Stream::Null,
            command.stdout == Stream::Null,
            command.stderr == Stream::Null,
    {
        proof {
            use_type_invariant(self);
        }
        &self.command
    }

    /// Takes what came of the step and goes on. The launch ends with an error at the first step that
    /// fails, and with success when the process was started.
    pub fn reply<E>(self, reply: LaunchReply<E>) -> (progress: LaunchProgress<E>)
        requires
            fits(self@.step, reply),
        ensures
            match progress {
                LaunchProgress::Continue(run) => {
                    &&& !aborts(reply)
                    &&& next_step(self@.step) == Some(run@.step)
                    &&& run@ == (LaunchRunView {
                        directory: directory_after(self@.directory, reply),
                        step: run@.step,
                        ..self@
                    })
                },
                LaunchProgress::Finished(Ok(_)) => {
                    &&& !aborts(reply)
                    &&& next_step(self@.step) is None
                },
                LaunchProgress::Finished(Err(error)) => {
                    &&& aborts(reply)
                    &&& error == error_of(self@.step, reply)
                },
            },
            progress is Finished && progress->Finished_0 is Err <==> reply is Failed
                || reply is SpawnFailed,
            progress is Finished && progress->Finished_0 is Ok <==> self@.step is Spawn
                && reply is Done,
            reply matches LaunchReply::SpawnFailed { os_error, source } ==> progress
                == LaunchProgress::<E>::Finished(
                Err(
                    if os_error == Some(740i32) {
                        LaunchError::ElevationRequired
                    } else {
                        LaunchError::Spawn(source)
                    },
                ),
            ),
    {
        proof {
            use_type_invariant(&self);
        }
        let LaunchRun { command, step } = self;
        let GameCommand {
            program,
            args,
            directory,
            creation_flags,
            stdin,
            stdout,
            stderr,
        } = command;
        let mut directory: Vec<u16> = directory;
        match reply {
            LaunchReply::SpawnFailed { os_error, source } => {
                return LaunchProgress::Finished(
                    Err(
                        match os_error {
                            Some(code) => if code == ERROR_ELEVATION_REQUIRED {
                                LaunchError::ElevationRequired
                            } else {
                                LaunchError::Spawn(source)
                            },
                            None => LaunchError::Spawn(source),
                        },
                    ),
                );
            },
            LaunchReply::Failed(source) => {
                return LaunchProgress::Finished(
                    Err(
                        if step == LaunchStep::ReadTelemetry {
                            LaunchError::Telemetry(source)
                        } else {
                            LaunchError::Bridge(source)
                        },
                    ),
                );
            },
            LaunchReply::Directory(Some(current)) => {
                directory = current;
            },
            _ => {},
        }
        let next: LaunchStep = match step {
            LaunchStep::ReadCurrentDirectory => LaunchStep::ReadTelemetry,
            LaunchStep::ReadTelemetry => LaunchStep::StampTraceId,
            LaunchStep::StampTraceId => LaunchStep::StoreTelemetry,
            LaunchStep::StoreTelemetry => LaunchStep::CreateBridge { capacity: BRIDGE_CAPACITY },
            LaunchStep::CreateBridge { .. } => LaunchStep::Spawn,
            LaunchStep::Spawn => {
                return LaunchProgress::Finished(Ok(()));
            },
        };
        LaunchProgress::Continue(
            LaunchRun {
                command: GameCommand {
                    program,
                    args,
                    directory,
                    creation_flags,
                    stdin,
                    stdout,
                    stderr,
                },
                step: next,
            },
        )
    }
}

/// What the user is told when the game has to be run as an administrator.
pub fn elevation_message() -> (message: &'static str)
    ensures
        message@
            == "Elevation is required to launch the game. Disable \"Run this program as an administrator\" and try again."@,
{
    "Elevation is required to launch the game. Disable \"Run this program as an administrator\" and try again."
}

/// A launch as it goes on while nothing fails: the step to perform, and the directory so far.
pub struct LaunchState {
    pub step: LaunchStep,
    pub directory: Seq<u16>,
}

/// The state that a launch begins in.
pub open spec fn opening(given: Option<Seq<u16>>) -> LaunchState {
    LaunchState {
        step: if given is Some {
            LaunchStep::ReadTelemetry
        } else {
            LaunchStep::ReadCurrentDirectory
        },
        directory: working_directory(given, None),
    }
}

/// Whether `replies` bring a launch from `state` to the start of its process, none of them failing;
/// the launcher runs in `current`.
pub open spec fn reaches_spawn<E>(
    state: LaunchState,
    replies: Seq<LaunchReply<E>>,
    current: Option<Seq<u16>>,
    spawned: LaunchState,
) -> bool
    decreases replies.len(),
{
    if replies.len() == 0 {
        spawned == state && state.step == LaunchStep::Spawn
    } else {
        &&& fits(state.step, replies[0])
        &&& !aborts(replies[0])
        &&& replies[0] matches LaunchReply::Directory(found) ==> units(found) == current
        &&& next_step(state.step) is Some
        &&& reaches_spawn(
            LaunchState {
                step: next_step(state.step)->0,
                directory: directory_after(state.directory, replies[0]),
            },
            replies.drop_first(),
            current,
            spawned,
        )
    }
}

/// The steps that `replies` answer.
pub open spec fn performed<E>(step: LaunchStep, replies: Seq<LaunchReply<E>>) -> Seq<LaunchStep>
    decreases replies.len(),
{
    if replies.len() == 0 {
        Seq::empty()
    } else {
        seq![step] + performed(next_step(step)->0, replies.drop_first())
    }
}

/// The game is started in the directory that is given, else in the launcher's own, else in `.`.
/// Before that its telemetry variables were read, stamped and handed over, and the bridge was set
/// up, each once and in this order.
pub proof fn game_starts_prepared<E>(
    given: Option<Seq<u16>>,
    current: Option<Seq<u16>>,
    replies: Seq<LaunchReply<E>>,
    spawned: LaunchState,
)
    requires
        reaches_spawn(opening(given), replies, current, spawned),
    ensures
        spawned.directory == working_directory(given, current),
        performed(opening(given).step, replies) == (if given is Some {
            Seq::empty()
        } else {
            seq![LaunchStep::ReadCurrentDirectory]
        }) + preparations(),
{
    if given is None {
        let next = LaunchState {
            step: LaunchStep::ReadTelemetry,
            directory: directory_after(dot(), replies[0]),
        };
        assert(next.directory == working_directory(given, current));
        assert(reaches_spawn(next, replies.drop_first(), current, spawned));
        lemma_from_telemetry(next, replies.drop_first(), current, spawned);
    } else {
        lemma_from_telemetry(opening(given), replies, current, spawned);
        assert(Seq::<LaunchStep>::empty() + preparations() =~= preparations());
    }
}

/// The steps between knowing the directory and starting the process.
pub open spec fn preparations() -> Seq<LaunchStep> {
    seq![
        LaunchStep::ReadTelemetry,
        LaunchStep::StampTraceId,
        LaunchStep::StoreTelemetry,
        LaunchStep::CreateBridge { capacity: BRIDGE_CAPACITY },
    ]
}

proof fn lemma_from_telemetry<E>(
    state: LaunchState,
    replies: Seq<LaunchReply<E>>,
    current: Option<Seq<u16>>,
    spawned: LaunchState,
)
    requires
        state.step == LaunchStep::ReadTelemetry,
        reaches_spawn(state, replies, current, spawned),
    ensures
        spawned.directory == state.directory,
        performed(state.step, replies) == preparations(),
{
    reveal_with_fuel(reaches_spawn, 6);
    reveal_with_fuel(performed, 6);
    assert(replies.len() == 4);
    assert(performed(state.step, replies) =~= preparations());
}

/// The directory that the game is started in, in plain terms: one that is given is used as it is,
/// the launcher's own only where none is given, and `.` only where neither is there.
pub proof fn game_starts_in_its_directory<E>(
    given: Option<Seq<u16>>,
    current: Option<Seq<u16>>,
    replies: Seq<LaunchReply<E>>,
    spawned: LaunchState,
)
    requires
        reaches_spawn(opening(given), replies, current, spawned),
    ensures
        given matches Some(directory) ==> spawned.directory == directory,
        given is None && current is Some ==> spawned.directory == current->0,
        given is None && current is None ==> spawned.directory == seq![0x2eu16],
{
    game_starts_prepared(given, current, replies, spawned);
}

/// Whether `replies` are what a driver can have answered so far, from `step` on, none of them a
/// failure.
pub open spec fn goes_on<E>(step: LaunchStep, replies: Seq<LaunchReply<E>>) -> bool
    decreases replies.len(),
{
    replies.len() > 0 ==> {
        &&& fits(step, replies[0])
        &&& !(replies[0] is Failed)
        &&& !(replies[0] is SpawnFailed)
        &&& match next_step(step) {
            Some(next) => goes_on(next, replies.drop_first()),
            None => replies.len() == 1,
        }
    }
}

/// While nothing fails, a launch reads the telemetry variables, stamps them, hands them over, sets
/// up a bridge for 32 messages and starts the process, in this order and each once; before that it
/// asks for the launcher's own directory where none is given. Only the start of the process ends
/// it.
pub proof fn launch_takes_its_course<E>(given: Option<Seq<u16>>, replies: Seq<LaunchReply<E>>)
    requires
        goes_on(opening(given).step, replies),
    ensures
        performed(opening(given).step, replies).len() == replies.len(),
        performed(opening(given).step, replies).is_prefix_of(
            (if given is None {
                seq![LaunchStep::ReadCurrentDirectory]
            } else {
                Seq::empty()
            }) + seq![
                LaunchStep::ReadTelemetry,
                LaunchStep::StampTraceId,
                LaunchStep::StoreTelemetry,
                LaunchStep::CreateBridge { capacity: 32 },
                LaunchStep::Spawn,
            ],
        ),
        forall|step: LaunchStep| #[trigger] next_step(step) is None <==> step is Spawn,
{
    let course = (if given is None {
        seq![LaunchStep::ReadCurrentDirectory]
    } else {
        Seq::empty()
    }) + seq![
        LaunchStep::ReadTelemetry,
        LaunchStep::StampTraceId,
        LaunchStep::StoreTelemetry,
        LaunchStep::CreateBridge { capacity: 32 },
        LaunchStep::Spawn,
    ];
    lemma_course_from(course, 0, replies);
    assert(course.skip(0) =~= course);
}

proof fn lemma_course_from<E>(course: Seq<LaunchStep>, at: int, replies: Seq<LaunchReply<E>>)
    requires
        0 <= at < course.len(),
        course.last() is Spawn,
        forall|i: int| 0 <= i < course.len() - 1 ==> next_step(#[trigger] course[i]) == Some(
            course[i + 1],
        ),
        goes_on(course[at], replies),
    ensures
        performed(course[at], replies).len() == replies.len(),
        performed(course[at], replies).is_prefix_of(course.skip(at)),
    decreases replies.len(),
{
    if replies.len() > 0 {
        let rest = replies.drop_first();
        if at < course.len() - 1 {
            assert(next_step(course[at]) == Some(course[at + 1]));
            lemma_course_from(course, at + 1, rest);
            assert(course.skip(at) =~= seq![course[at]] + course.skip(at + 1));
        } else {
            assert(performed(next_step(course[at])->0, rest) =~= Seq::empty());
        }
    }
}

/// A launch that fails tells what failed, with its cause. The system's error 740 alone, when the
/// process is started, means that the game has to be run as an administrator.
pub proof fn failed_launch_tells_why<E>(step: LaunchStep, reply: LaunchReply<E>)
    requires
        fits(step, reply),
    ensures
        aborts(reply) <==> reply is Failed || reply is SpawnFailed,
        reply matches LaunchReply::Failed(source) ==> error_of(step, reply) == (if step
            is ReadTelemetry {
            LaunchError::Telemetry(source)
        } else {
            LaunchError::Bridge(source)
        }),
        reply matches LaunchReply::SpawnFailed { os_error, source } ==> error_of(step, reply) == (
        if os_error == Some(740i32) {
            LaunchError::ElevationRequired
        } else {
            LaunchError::Spawn(source)
        }),
        error_of(step, reply) is ElevationRequired && reply is SpawnFailed
            ==> reply->os_error == Some(740i32),
{
}

/// The flag that suspends the main thread of a new process is the system's.
pub proof fn process_starts_suspended()
    ensures
        CREATE_SUSPENDED == 4,
{
}

} // verus!
