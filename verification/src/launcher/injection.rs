//! Having another process load a DLL: the path is written into its memory, and a thread is started
//! there that hands the path to `LoadLibraryW`.
//!
//! An [`InjectRun`] names one call of the system at a time. Whoever drives it makes the call and
//! replies with what came back, until the run is finished. Addresses and handles are numbers here.

use vstd::prelude::*;

verus! {

/// The module that holds the loading procedure.
pub const LOADER_MODULE: &'static str = "kernel32.dll";

/// The procedure that loads a DLL.
pub const LOADER_PROCEDURE: &'static str = "LoadLibraryW";

/// Memory is reserved and committed at once.
pub const ALLOCATION_TYPE: u32 = 0x3000;

/// Memory can be read, written and executed.
pub const MEMORY_PROTECTION: u32 = 0x40;

/// The wait for the thread has no limit.
pub const WAIT_TIMEOUT_MS: u32 = 0xffff_ffff;

/// What a wait returns when the thread has ended.
pub const WAIT_OBJECT_0: u32 = 0;

/// One call of the system, with what it takes and what later calls need.
#[derive(Clone, Copy, Debug, PartialEq, Eq, Structural)]
pub enum InjectStep {
    /// Find [`LOADER_MODULE`].
    FindModule,
    /// Find [`LOADER_PROCEDURE`] in the module.
    FindProcedure { module: usize },
    /// Allocate `size` bytes in the process.
    Allocate { start: usize, size: usize },
    /// Write the terminated path, `size` bytes, to `address` in the process.
    WritePath { start: usize, address: usize, size: usize },
    /// Start a thread in the process at `start`, with `parameter`.
    StartThread { start: usize, parameter: usize },
    /// Wait until the thread has ended.
    Wait { thread: usize },
    /// Ask for the error that ended the wait.
    FetchLastError,
    /// Read the exit code of the thread.
    ReadExitCode { thread: usize },
    /// Close the handle of the thread, which ended with `code`.
    CloseThread { thread: usize, code: u32 },
}

/// What came of a call.
pub enum InjectReply<E> {
    /// A module, a procedure, memory or a thread; 0 where a procedure or memory was not to be had.
    Address(usize),
    /// It was made.
    Done,
    /// The wait returned this.
    WaitResult(u32),
    /// The thread ended with this.
    ExitCode(u32),
    /// It failed.
    Failed(E),
}

/// Where an injection stands after a reply. A finished one has the exit code of the thread.
pub enum InjectProgress<E> {
    Continue(InjectRun),
    Finished(Result<u32, E>),
}

/// An injection that is under way.
pub struct InjectRun {
    path: Vec<u16>,
    step: InjectStep,
}

/// An injection that is under way: the path that is written, and the call to make now.
pub struct InjectRunView {
    pub path: Seq<u16>,
    pub step: InjectStep,
}

impl View for InjectRun {
    type V = InjectRunView;

    closed spec fn view(&self) -> InjectRunView {
        InjectRunView { path: self.path@, step: self.step }
    }
}

/// The bytes that a row of UTF-16 units takes.
pub open spec fn byte_size(units: Seq<u16>) -> int {
    2 * units.len() as int
}

/// Whether a reply can come of a call. The procedure and the memory are taken as they come, the
/// wait always returns, and the error that ended it is always there.
pub open spec fn fits<E>(step: InjectStep, reply: InjectReply<E>) -> bool {
    match step {
        InjectStep::FindModule => reply is Address || reply is Failed,
        InjectStep::FindProcedure { .. } => reply is Address,
        InjectStep::Allocate { .. } => reply is Address,
        InjectStep::WritePath { .. } => reply is Done || reply is Failed,
        InjectStep::StartThread { .. } => reply is Address || reply is Failed,
        InjectStep::Wait { .. } => reply is WaitResult,
        InjectStep::FetchLastError => reply is Failed,
        InjectStep::ReadExitCode { .. } => reply is ExitCode || reply is Failed,
        InjectStep::CloseThread { .. } => reply is Done || reply is Failed,
    }
}

/// The call that follows a call that did not fail, for a path of `size` bytes.
pub open spec fn next_step<E>(step: InjectStep, reply: InjectReply<E>, size: int) -> InjectStep {
    match step {
        InjectStep::FindModule => InjectStep::FindProcedure { module: reply->Address_0 },
        InjectStep::FindProcedure { .. } => InjectStep::Allocate {
            start: reply->Address_0,
            size: size as usize,
        },
        InjectStep::Allocate { start, size } => InjectStep::WritePath {
            start,
            address: reply->Address_0,
            size,
        },
        InjectStep::WritePath { start, address, .. } => InjectStep::StartThread {
            start,
            parameter: address,
        },
        InjectStep::StartThread { .. } => InjectStep::Wait { thread: reply->Address_0 },
        InjectStep::Wait { thread } => if reply->WaitResult_0 == WAIT_OBJECT_0 {
            InjectStep::ReadExitCode { thread }
        } else {
            InjectStep::FetchLastError
        },
        InjectStep::ReadExitCode { thread } => InjectStep::CloseThread {
            thread,
            code: reply->ExitCode_0,
        },
        _ => step,
    }
}

impl InjectRun {
    #[verifier::type_invariant]
    spec fn path_fits(self) -> bool {
        byte_size(self.path@) <= usize::MAX
    }

    /// Begins to load the DLL at `path`, given in UTF-16 units without a terminator.
    pub fn begin(path: Vec<u16>) -> (run: InjectRun)
        requires
            2 * (path@.len() + 1) <= usize::MAX,
        ensures
            run@.path == path@.push(0),
            run@.step == InjectStep::FindModule,
    {
        let mut terminated: Vec<u16> = path;
        terminated.push(0);
        InjectRun { path: terminated, step: InjectStep::FindModule }
    }

    /// The call to make now.
    pub fn step(&self) -> (step: InjectStep)
        ensures
            step == self@.step,
    {
        self.step
    }

    /// The units to write into the process.
    pub fn path(&self) -> (path: &Vec<u16>)
        ensures
            path@ == self@.path,
    {
        &self.path
    }

    /// Takes what came of the call and goes on. The injection ends with an error at the first call
    /// that fails, and with the exit code of the thread when its handle has been closed.
    pub fn reply<E>(self, reply: InjectReply<E>) -> (progress: InjectProgress<E>)
        requires
            fits(self@.step, reply),
        ensures
            match progress {
                InjectProgress::Continue(run) => {
                    &&& !(reply is Failed)
                    &&& !(self@.step is CloseThread)
                    &&& run@ == (InjectRunView {
                        path: self@.path,
                        step: next_step(self@.step, reply, byte_size(self@.path)),
                    })
                },
                InjectProgress::Finished(Ok(code)) => {
                    &&& !(reply is Failed)
                    &&& self@.step matches InjectStep::CloseThread { code: c, .. } && c == code
                },
                InjectProgress::Finished(Err(error)) => reply == InjectReply::<E>::Failed(error),
            },
    {
        proof {
            use_type_invariant(&self);
        }
        let size: usize = 2 * self.path.len();
        let step: InjectStep = match (self.step, reply) {
            (_, InjectReply::Failed(error)) => {
                return InjectProgress::Finished(Err(error));
            },
            (InjectStep::CloseThread { code, .. }, _) => {
                return InjectProgress::Finished(Ok(code));
            },
            (InjectStep::FindModule, InjectReply::Address(module)) => InjectStep::FindProcedure {
                module,
            },
            (InjectStep::FindProcedure { .. }, InjectReply::Address(start)) => {
                InjectStep::Allocate { start, size }
            },
            (InjectStep::Allocate { start, size }, InjectReply::Address(address)) => {
                InjectStep::WritePath { start, address, size }
            },
            (InjectStep::WritePath { start, address, .. }, _) => InjectStep::StartThread {
                start,
                parameter: address,
            },
            (InjectStep::StartThread { .. }, InjectReply::Address(thread)) => InjectStep::Wait {
                thread,
            },
            (InjectStep::Wait { thread }, InjectReply::WaitResult(result)) => {
                if result == WAIT_OBJECT_0 {
                    InjectStep::ReadExitCode { thread }
                } else {
                    InjectStep::FetchLastError
                }
            },
            (InjectStep::ReadExitCode { thread }, InjectReply::ExitCode(code)) => {
                InjectStep::CloseThread { thread, code }
            },
            (step, _) => step,
        };
        InjectProgress::Continue(InjectRun { path: self.path, step })
    }
}

/// What a reader of NUL-terminated UTF-16 text makes of a buffer: the units before the first 0.
pub open spec fn terminated_text(buffer: Seq<u16>) -> Seq<u16>
    decreases buffer.len(),
{
    if buffer.len() == 0 || buffer[0] == 0 {
        Seq::empty()
    } else {
        seq![buffer[0]] + terminated_text(buffer.drop_first())
    }
}

/// The loading procedure reads back the path that was given, unless that holds a 0 of its own.
pub proof fn path_reads_back(path: Seq<u16>)
    requires
        !path.contains(0),
    ensures
        terminated_text(path.push(0)) == path,
    decreases path.len(),
{
    if path.len() == 0 {
        assert(terminated_text(path.push(0)) =~= path);
    } else {
        let rest = path.drop_first();
        assert(path.contains(path[0]));
        assert(path.push(0).drop_first() =~= rest.push(0));
        assert(!rest.contains(0)) by {
            if rest.contains(0) {
                let i = choose|i: int| 0 <= i < rest.len() && rest[i] == 0;
                assert(path[i + 1] == 0);
            }
        }
        path_reads_back(rest);
        assert(terminated_text(path.push(0)) =~= path);
    }
}

/// What the system gives in the course of an injection.
pub struct Grants {
    pub module: usize,
    pub procedure: usize,
    pub address: usize,
    pub thread: usize,
    pub wait: u32,
    pub code: u32,
}

/// Whether a reply hands out what the system gives.
pub open spec fn grants<E>(step: InjectStep, reply: InjectReply<E>, given: Grants) -> bool {
    match reply {
        InjectReply::Address(address) => match step {
            InjectStep::FindModule => address == given.module,
            InjectStep::FindProcedure { .. } => address == given.procedure,
            InjectStep::Allocate { .. } => address == given.address,
            _ => address == given.thread,
        },
        InjectReply::WaitResult(result) => result == given.wait,
        InjectReply::ExitCode(code) => code == given.code,
        _ => true,
    }
}

/// Whether `replies` are what a driver can have answered so far: each fits its call and hands out
/// what the system gives, and none comes after the injection is over.
pub open spec fn answers<E>(
    step: InjectStep,
    size: int,
    replies: Seq<InjectReply<E>>,
    given: Grants,
) -> bool
    decreases replies.len(),
{
    replies.len() > 0 ==> {
        &&& fits(step, replies[0])
        &&& grants(step, replies[0], given)
        &&& if replies[0] is Failed || step is CloseThread {
            replies.len() == 1
        } else {
            answers(next_step(step, replies[0], size), size, replies.drop_first(), given)
        }
    }
}

/// The calls that `replies` answer.
pub open spec fn performed<E>(
    step: InjectStep,
    size: int,
    replies: Seq<InjectReply<E>>,
) -> Seq<InjectStep>
    decreases replies.len(),
{
    if replies.len() == 0 {
        Seq::empty()
    } else {
        seq![step] + performed(next_step(step, replies[0], size), size, replies.drop_first())
    }
}

/// Every call of an injection in which nothing fails but, at most, the wait.
pub open spec fn inject_script(size: int, given: Grants) -> Seq<InjectStep> {
    let start = given.procedure;
    let address = given.address;
    let thread = given.thread;
    seq![
        InjectStep::FindModule,
        InjectStep::FindProcedure { module: given.module },
        InjectStep::Allocate { start, size: size as usize },
        InjectStep::WritePath { start, address, size: size as usize },
        InjectStep::StartThread { start, parameter: address },
        InjectStep::Wait { thread },
    ] + if given.wait == WAIT_OBJECT_0 {
        seq![
            InjectStep::ReadExitCode { thread },
            InjectStep::CloseThread { thread, code: given.code },
        ]
    } else {
        seq![InjectStep::FetchLastError]
    }
}

proof fn lemma_performed_from<E>(
    at: int,
    size: int,
    replies: Seq<InjectReply<E>>,
    given: Grants,
)
    requires
        0 <= at < inject_script(size, given).len(),
        answers(inject_script(size, given)[at], size, replies, given),
    ensures
        performed(inject_script(size, given)[at], size, replies).is_prefix_of(
            inject_script(size, given).skip(at),
        ),
    decreases replies.len(),
{
    let script = inject_script(size, given);
    let step = script[at];
    if replies.len() > 0 {
        let rest = replies.drop_first();
        let next = next_step(step, replies[0], size);
        if replies[0] is Failed || step is CloseThread {
            assert(performed(next, size, rest) =~= Seq::empty());
        } else {
            assert(next == script[at + 1]);
            lemma_performed_from(at + 1, size, rest, given);
            assert(script.skip(at) =~= seq![step] + script.skip(at + 1));
        }
    }
}

/// Every injection makes the calls of its script, in their order, up to the one that fails.
pub proof fn injection_follows_script<E>(
    size: int,
    replies: Seq<InjectReply<E>>,
    given: Grants,
)
    requires
        answers(InjectStep::FindModule, size, replies, given),
    ensures
        performed(InjectStep::FindModule, size, replies).is_prefix_of(inject_script(size, given)),
{
    lemma_performed_from(0, size, replies, given);
    assert(inject_script(size, given).skip(0) =~= inject_script(size, given));
}

/// The exit code that an injection has ended with, where it has ended successfully.
pub open spec fn loaded<E>(
    step: InjectStep,
    size: int,
    replies: Seq<InjectReply<E>>,
) -> Option<u32>
    decreases replies.len(),
{
    if replies.len() == 0 || replies[0] is Failed {
        None
    } else {
        match step {
            InjectStep::CloseThread { code, .. } => Some(code),
            _ => loaded(next_step(step, replies[0], size), size, replies.drop_first()),
        }
    }
}

proof fn lemma_loaded_from<E>(
    at: int,
    size: int,
    replies: Seq<InjectReply<E>>,
    given: Grants,
)
    requires
        0 <= at < inject_script(size, given).len(),
        answers(inject_script(size, given)[at], size, replies, given),
        loaded(inject_script(size, given)[at], size, replies) is Some,
    ensures
        performed(inject_script(size, given)[at], size, replies) == inject_script(
            size,
            given,
        ).skip(at),
        loaded(inject_script(size, given)[at], size, replies) == Some(given.code),
    decreases replies.len(),
{
    let script = inject_script(size, given);
    let step = script[at];
    let rest = replies.drop_first();
    let next = next_step(step, replies[0], size);
    if step is CloseThread {
        assert(performed(next, size, rest) =~= Seq::empty());
        assert(performed(step, size, replies) =~= script.skip(at));
    } else {
        assert(next == script[at + 1]);
        lemma_loaded_from(at + 1, size, rest, given);
        assert(script.skip(at) =~= seq![step] + script.skip(at + 1));
    }
}

/// A successful injection makes every call of its script, and its result is the exit code of the
/// thread.
pub proof fn successful_injection_makes_every_call<E>(
    size: int,
    replies: Seq<InjectReply<E>>,
    given: Grants,
)
    requires
        answers(InjectStep::FindModule, size, replies, given),
        loaded(InjectStep::FindModule, size, replies) is Some,
    ensures
        performed(InjectStep::FindModule, size, replies) == inject_script(size, given),
        loaded(InjectStep::FindModule, size, replies) == Some(given.code),
        given.wait == WAIT_OBJECT_0,
{
    lemma_loaded_from(0, size, replies, given);
    assert(inject_script(size, given).skip(0) =~= inject_script(size, given));
    lemma_closing(InjectStep::FindModule, size, replies, given);
}

/// An injection succeeds exactly where the last reply answers the closing of the thread's handle
/// and is no failure.
pub proof fn closing_the_thread_is_success<E>(
    size: int,
    replies: Seq<InjectReply<E>>,
    given: Grants,
)
    requires
        answers(InjectStep::FindModule, size, replies, given),
        replies.len() > 0,
    ensures
        loaded(InjectStep::FindModule, size, replies) is Some <==> performed(
            InjectStep::FindModule,
            size,
            replies,
        ).last() is CloseThread && !(replies.last() is Failed),
{
    lemma_closing(InjectStep::FindModule, size, replies, given);
}

proof fn lemma_closing<E>(
    step: InjectStep,
    size: int,
    replies: Seq<InjectReply<E>>,
    given: Grants,
)
    requires
        answers(step, size, replies, given),
        replies.len() > 0,
    ensures
        performed(step, size, replies).len() > 0,
        loaded(step, size, replies) is Some <==> performed(step, size, replies).last() is CloseThread
            && !(replies.last() is Failed),
    decreases replies.len(),
{
    let rest = replies.drop_first();
    let next = next_step(step, replies[0], size);
    if rest.len() == 0 {
        assert(performed(next, size, rest) =~= Seq::empty());
        assert(performed(step, size, replies) =~= seq![step]);
    } else {
        lemma_closing(next, size, rest, given);
        assert(performed(step, size, replies).last() == performed(next, size, rest).last());
        assert(replies.last() == rest.last());
    }
}

/// The thread is started at the loading procedure, right after the whole path was written to the
/// address that the thread is given.
pub proof fn thread_finds_its_path<E>(
    size: int,
    replies: Seq<InjectReply<E>>,
    given: Grants,
    at: int,
)
    requires
        answers(InjectStep::FindModule, size, replies, given),
        0 <= at < performed(InjectStep::FindModule, size, replies).len(),
        performed(InjectStep::FindModule, size, replies)[at] is StartThread,
    ensures
        ({
            let calls = performed(InjectStep::FindModule, size, replies);
            &&& at > 0
            &&& calls[at] == InjectStep::StartThread {
                start: given.procedure,
                parameter: given.address,
            }
            &&& calls[at - 1] == InjectStep::WritePath {
                start: given.procedure,
                address: given.address,
                size: size as usize,
            }
        }),
{
    injection_follows_script(size, replies, given);
    let calls = performed(InjectStep::FindModule, size, replies);
    let script = inject_script(size, given);
    assert(calls[at] == script[at]);
    assert(at == 4);
    assert(calls[3] == script[3]);
}

/// No exit code is read of a thread whose end was not waited for.
pub proof fn failed_wait_reads_no_exit_code<E>(
    size: int,
    replies: Seq<InjectReply<E>>,
    given: Grants,
)
    requires
        answers(InjectStep::FindModule, size, replies, given),
        given.wait != WAIT_OBJECT_0,
    ensures
        forall|i: int|
            0 <= i < performed(InjectStep::FindModule, size, replies).len() ==> !(
            #[trigger] performed(InjectStep::FindModule, size, replies)[i] is ReadExitCode),
{
    injection_follows_script(size, replies, given);
    let calls = performed(InjectStep::FindModule, size, replies);
    let script = inject_script(size, given);
    assert forall|i: int| 0 <= i < calls.len() implies !(#[trigger] calls[i] is ReadExitCode) by {
        assert(calls[i] == script[i]);
    }
}

/// The course of having a process load the DLL at `path`. Room is made for the whole path with its
/// terminator, two bytes for each unit, and as much is written to where the room is; the thread
/// starts at the procedure with that address. Only after a wait that returns 0 is the exit code
/// read, and it is the result once the handle is closed.
pub proof fn injection_takes_its_course<E>(
    path: Seq<u16>,
    replies: Seq<InjectReply<E>>,
    given: Grants,
)
    requires
        2 * (path.len() + 1) <= usize::MAX,
        answers(InjectStep::FindModule, byte_size(path.push(0)), replies, given),
    ensures
        ({
            let size: usize = (2 * path.len() + 2) as usize;
            let calls = performed(InjectStep::FindModule, byte_size(path.push(0)), replies);
            let result = loaded(InjectStep::FindModule, byte_size(path.push(0)), replies);
            let opening = seq![
                InjectStep::FindModule,
                InjectStep::FindProcedure { module: given.module },
                InjectStep::Allocate { start: given.procedure, size },
                InjectStep::WritePath { start: given.procedure, address: given.address, size },
                InjectStep::StartThread { start: given.procedure, parameter: given.address },
                InjectStep::Wait { thread: given.thread },
            ];
            let course = if given.wait == 0 {
                opening + seq![
                    InjectStep::ReadExitCode { thread: given.thread },
                    InjectStep::CloseThread { thread: given.thread, code: given.code },
                ]
            } else {
                opening + seq![InjectStep::FetchLastError]
            };
            &&& calls.is_prefix_of(course)
            &&& calls.len() == replies.len()
            &&& result == (if given.wait == 0 && replies.len() == 8 && !(replies.last() is Failed) {
                Some(given.code)
            } else {
                None
            })
        }),
{
    let size = byte_size(path.push(0));
    injection_follows_script(size, replies, given);
    let script = inject_script(size, given);
    let calls = performed(InjectStep::FindModule, size, replies);
    lemma_as_many_calls(InjectStep::FindModule, size, replies, given);
    if replies.len() > 0 {
        lemma_closing(InjectStep::FindModule, size, replies, given);
        assert(calls.last() == script[calls.len() - 1]);
        if loaded(InjectStep::FindModule, size, replies) is Some {
            successful_injection_makes_every_call(size, replies, given);
        }
    }
    let opening = seq![
        InjectStep::FindModule,
        InjectStep::FindProcedure { module: given.module },
        InjectStep::Allocate { start: given.procedure, size: size as usize },
        InjectStep::WritePath {
            start: given.procedure,
            address: given.address,
            size: size as usize,
        },
        InjectStep::StartThread { start: given.procedure, parameter: given.address },
        InjectStep::Wait { thread: given.thread },
    ];
    if given.wait == 0 {
        assert(script =~= opening + seq![
            InjectStep::ReadExitCode { thread: given.thread },
            InjectStep::CloseThread { thread: given.thread, code: given.code },
        ]);
    } else {
        assert(script =~= opening + seq![InjectStep::FetchLastError]);
    }
}

proof fn lemma_as_many_calls<E>(
    step: InjectStep,
    size: int,
    replies: Seq<InjectReply<E>>,
    given: Grants,
)
    requires
        answers(step, size, replies, given),
    ensures
        performed(step, size, replies).len() == replies.len(),
    decreases replies.len(),
{
    if replies.len() > 0 {
        let rest = replies.drop_first();
        let next = next_step(step, replies[0], size);
        if rest.len() == 0 {
            assert(performed(next, size, rest) =~= Seq::empty());
        } else {
            lemma_as_many_calls(next, size, rest, given);
        }
    }
}

/// What the system is asked for by name and by number: `LoadLibraryW` of `kernel32.dll`, memory
/// that is committed (0x1000) and reserved (0x2000) at once and may be read, written and executed
/// (0x40), and a wait without limit.
pub proof fn system_is_asked_by_its_own_names()
    ensures
        LOADER_MODULE@ == "kernel32.dll"@,
        LOADER_PROCEDURE@ == "LoadLibraryW"@,
        ALLOCATION_TYPE == 0x1000 + 0x2000,
        MEMORY_PROTECTION == 0x40,
        WAIT_TIMEOUT_MS == u32::MAX,
        WAIT_OBJECT_0 == 0,
{
}

} // verus!
