//! What holds of every attach, whatever its steps come to.

use vstd::prelude::*;

use crate::launcher::attach::{
    AttachConfig, AttachError, AttachReply, AttachRunView, AttachStep, Attachment, Dll, Purpose,
};
use crate::launcher::stage::{AttachMode, LateGoal};

verus! {

/// A fresh attach.
pub open spec fn fresh(config: AttachConfig) -> AttachRunView {
    AttachRunView {
        suspend: config.suspend,
        todo: crate::launcher::attach::opening_steps(config),
    }
}

/// The attach after a reply that did not abort it.
pub open spec fn after<E>(run: AttachRunView, reply: AttachReply<E>) -> AttachRunView {
    AttachRunView {
        suspend: run.suspend,
        todo: crate::launcher::attach::remaining(run, reply),
    }
}

/// Whether a reply to `step` reads the environment as it is: the diagnostic stage variable holds
/// `stage`, and the delay variable `delay`.
pub open spec fn reads<E>(
    step: AttachStep,
    reply: AttachReply<E>,
    stage: Option<Seq<char>>,
    delay: Option<Seq<char>>,
) -> bool {
    match reply {
        AttachReply::Variable(variable) => {
            let value = crate::launcher::stage::characters(variable);
            &&& step == AttachStep::ReadDiagStage ==> value == stage
            &&& step == AttachStep::ReadAttachDelay ==> value == delay
        },
        _ => true,
    }
}

/// Whether `replies` are what a driver can have answered so far: each fits its step, reads the
/// environment as it is, and none comes after the attach is over.
pub open spec fn answers<E>(
    run: AttachRunView,
    replies: Seq<AttachReply<E>>,
    stage: Option<Seq<char>>,
    delay: Option<Seq<char>>,
) -> bool
    decreases replies.len(),
{
    replies.len() > 0 ==> {
        &&& run.todo.len() > 0
        &&& crate::launcher::attach::fits(run.todo[0], replies[0])
        &&& reads(run.todo[0], replies[0], stage, delay)
        &&& if crate::launcher::attach::aborts(replies[0]) {
            replies.len() == 1
        } else {
            answers(after(run, replies[0]), replies.drop_first(), stage, delay)
        }
    }
}

/// The steps that `replies` answer.
pub open spec fn performed<E>(
    run: AttachRunView,
    replies: Seq<AttachReply<E>>,
) -> Seq<AttachStep>
    decreases replies.len(),
{
    if replies.len() == 0 {
        Seq::empty()
    } else {
        seq![run.todo[0]] + performed(after(run, replies[0]), replies.drop_first())
    }
}

/// Whether the attach has come to its successful end.
pub open spec fn succeeded<E>(run: AttachRunView, replies: Seq<AttachReply<E>>) -> bool
    decreases replies.len(),
{
    if replies.len() == 0 {
        run.todo.len() == 0
    } else {
        &&& !crate::launcher::attach::aborts(replies[0])
        &&& succeeded(after(run, replies[0]), replies.drop_first())
    }
}

/// The steps of a mode in full, with the wait that the delay variable asks for.
pub open spec fn timed_steps(
    mode: AttachMode,
    suspend: bool,
    delay: Option<Seq<char>>,
) -> Seq<AttachStep> {
    match mode {
        AttachMode::Late(goal) => {
            let load = seq![
                AttachStep::ResumeMainThread,
                AttachStep::ReadAttachDelay,
                AttachStep::Sleep { ms: crate::launcher::stage::delay_of(delay) as u64 },
                AttachStep::Inject {
                    dll: crate::launcher::attach::late_dll(goal),
                    purpose: Purpose::Late,
                },
            ];
            if goal == LateGoal::Attach {
                load.push(AttachStep::RequestAttach)
            } else {
                load
            }
        },
        _ => crate::launcher::attach::steps_of(mode, suspend),
    }
}

/// Every step of an attach in which nothing fails.
pub open spec fn attach_script(
    config: AttachConfig,
    stage: Option<Seq<char>>,
    delay: Option<Seq<char>>,
) -> Seq<AttachStep> {
    let mode = crate::launcher::stage::attach_mode(config.no_steam, stage);
    let opening = seq![AttachStep::StartMessagePump, AttachStep::DuplicateProcessHandle];
    let rest = timed_steps(mode, config.suspend, delay);
    if config.no_steam {
        opening + seq![AttachStep::ReadDiagStage] + rest
    } else {
        opening + rest
    }
}

/// Whether no two steps resume the main thread.
pub open spec fn resumes_at_most_once(steps: Seq<AttachStep>) -> bool {
    forall|i: int, j: int|
        0 <= i < j < steps.len() ==> !(#[trigger] steps[i] == AttachStep::ResumeMainThread
            && #[trigger] steps[j] == AttachStep::ResumeMainThread)
}

/// Whether no two steps load a DLL.
pub open spec fn loads_at_most_once(steps: Seq<AttachStep>) -> bool {
    forall|i: int, j: int|
        0 <= i < j < steps.len() ==> !(#[trigger] steps[i] is Inject && #[trigger] steps[j] is Inject)
}

/// `todo` with the wait put behind every reading of the delay.
spec fn with_waits(todo: Seq<AttachStep>, delay: Option<Seq<char>>) -> Seq<AttachStep>
    decreases todo.len(),
{
    if todo.len() == 0 {
        Seq::empty()
    } else if todo[0] == AttachStep::ReadAttachDelay {
        seq![
            todo[0],
            AttachStep::Sleep { ms: crate::launcher::stage::delay_of(delay) as u64 },
        ] + with_waits(todo.drop_first(), delay)
    } else {
        seq![todo[0]] + with_waits(todo.drop_first(), delay)
    }
}

/// The steps that `run` still performs when nothing fails.
spec fn outlook(
    run: AttachRunView,
    stage: Option<Seq<char>>,
    delay: Option<Seq<char>>,
) -> Seq<AttachStep>
    decreases run.todo.len(),
{
    if run.todo.len() == 0 {
        Seq::empty()
    } else if run.todo[0] == AttachStep::ReadDiagStage {
        seq![run.todo[0]] + with_waits(
            crate::launcher::attach::steps_of(
                crate::launcher::stage::attach_mode(true, stage),
                run.suspend,
            ) + run.todo.drop_first(),
            delay,
        )
    } else if run.todo[0] == AttachStep::ReadAttachDelay {
        seq![
            run.todo[0],
            AttachStep::Sleep { ms: crate::launcher::stage::delay_of(delay) as u64 },
        ] + outlook(AttachRunView { todo: run.todo.drop_first(), ..run }, stage, delay)
    } else {
        seq![run.todo[0]] + outlook(
            AttachRunView { todo: run.todo.drop_first(), ..run },
            stage,
            delay,
        )
    }
}

/// Whether the stage is not read any more.
spec fn stage_known(todo: Seq<AttachStep>) -> bool {
    forall|i: int| 0 <= i < todo.len() ==> #[trigger] todo[i] != AttachStep::ReadDiagStage
}

/// The stage is read at most once, and last among the steps that are known before.
spec fn staged(todo: Seq<AttachStep>) -> bool {
    forall|i: int|
        0 <= i < todo.len() && #[trigger] todo[i] == AttachStep::ReadDiagStage ==> i == todo.len()
            - 1
}

proof fn lemma_outlook_without_stage(
    run: AttachRunView,
    stage: Option<Seq<char>>,
    delay: Option<Seq<char>>,
)
    requires
        stage_known(run.todo),
    ensures
        outlook(run, stage, delay) == with_waits(run.todo, delay),
    decreases run.todo.len(),
{
    if run.todo.len() > 0 {
        assert(run.todo[0] != AttachStep::ReadDiagStage);
        let rest = AttachRunView { todo: run.todo.drop_first(), ..run };
        assert forall|i: int| 0 <= i < rest.todo.len() implies #[trigger] rest.todo[i]
            != AttachStep::ReadDiagStage by {
            assert(run.todo[i + 1] != AttachStep::ReadDiagStage);
        }
        lemma_outlook_without_stage(rest, stage, delay);
    }
}

/// One reply takes one step off the outlook.
proof fn lemma_outlook_step<E>(
    run: AttachRunView,
    reply: AttachReply<E>,
    stage: Option<Seq<char>>,
    delay: Option<Seq<char>>,
)
    requires
        run.todo.len() > 0,
        staged(run.todo),
        crate::launcher::attach::fits(run.todo[0], reply),
        reads(run.todo[0], reply, stage, delay),
        !crate::launcher::attach::aborts(reply),
    ensures
        staged(after(run, reply).todo),
        outlook(run, stage, delay) == seq![run.todo[0]] + outlook(after(run, reply), stage, delay),
{
    let next = after(run, reply);
    let tail = run.todo.drop_first();
    let step = run.todo[0];
    assert(staged(tail)) by {
        assert forall|i: int| 0 <= i < tail.len() && #[trigger] tail[i]
            == AttachStep::ReadDiagStage implies i == tail.len() - 1 by {
            assert(run.todo[i + 1] == AttachStep::ReadDiagStage);
        }
    }
    if step == AttachStep::ReadDiagStage {
        assert(tail.len() == 0);
        let mode = crate::launcher::stage::attach_mode(true, stage);
        let steps = crate::launcher::attach::steps_of(mode, run.suspend);
        assert(next.todo =~= steps);
        assert(steps + tail =~= steps);
        assert(stage_known(steps));
        lemma_outlook_without_stage(next, stage, delay);
    } else if step == AttachStep::ReadAttachDelay {
        let wait = AttachStep::Sleep { ms: crate::launcher::stage::delay_of(delay) as u64 };
        assert(next.todo =~= seq![wait] + tail);
        assert(next.todo.drop_first() =~= tail);
        assert(staged(next.todo)) by {
            assert forall|i: int| 0 <= i < next.todo.len() && #[trigger] next.todo[i]
                == AttachStep::ReadDiagStage implies i == next.todo.len() - 1 by {
                assert(tail[i - 1] == AttachStep::ReadDiagStage);
            }
        }
        assert(outlook(next, stage, delay) == seq![wait] + outlook(
            AttachRunView { todo: tail, ..run },
            stage,
            delay,
        ));
        assert(outlook(run, stage, delay) =~= seq![step] + outlook(next, stage, delay));
    } else {
        assert(next.todo =~= tail);
    }
}

proof fn lemma_performed_within_outlook<E>(
    run: AttachRunView,
    replies: Seq<AttachReply<E>>,
    stage: Option<Seq<char>>,
    delay: Option<Seq<char>>,
)
    requires
        staged(run.todo),
        answers(run, replies, stage, delay),
    ensures
        performed(run, replies).is_prefix_of(outlook(run, stage, delay)),
        succeeded(run, replies) ==> performed(run, replies) == outlook(run, stage, delay),
    decreases replies.len(),
{
    if replies.len() > 0 {
        let reply = replies[0];
        let rest = replies.drop_first();
        if crate::launcher::attach::aborts(reply) {
            assert(rest.len() == 0);
            assert(performed(after(run, reply), rest) =~= Seq::empty());
        } else {
            lemma_outlook_step(run, reply, stage, delay);
            lemma_performed_within_outlook(after(run, reply), rest, stage, delay);
        }
    }
}

proof fn lemma_timed_steps(mode: AttachMode, suspend: bool, delay: Option<Seq<char>>)
    ensures
        with_waits(crate::launcher::attach::steps_of(mode, suspend), delay) == timed_steps(
            mode,
            suspend,
            delay,
        ),
{
    reveal_with_fuel(with_waits, 6);
    assert(with_waits(crate::launcher::attach::steps_of(mode, suspend), delay) =~= timed_steps(
        mode,
        suspend,
        delay,
    ));
}

proof fn lemma_outlook_of_fresh(
    config: AttachConfig,
    stage: Option<Seq<char>>,
    delay: Option<Seq<char>>,
)
    ensures
        staged(fresh(config).todo),
        outlook(fresh(config), stage, delay) == attach_script(config, stage, delay),
{
    let mode = crate::launcher::stage::attach_mode(config.no_steam, stage);
    let steps = crate::launcher::attach::steps_of(mode, config.suspend);
    lemma_timed_steps(mode, config.suspend, delay);
    let todo = fresh(config).todo;
    let run1 = AttachRunView { todo: todo.drop_first(), suspend: config.suspend };
    let run2 = AttachRunView { todo: todo.drop_first().drop_first(), suspend: config.suspend };
    if config.no_steam {
        assert(run2.todo =~= seq![AttachStep::ReadDiagStage]);
        assert(steps + run2.todo.drop_first() =~= steps);
        assert(outlook(run2, stage, delay) == seq![AttachStep::ReadDiagStage] + with_waits(
            steps,
            delay,
        ));
    } else {
        assert(run2.todo =~= steps);
        assert(stage_known(steps));
        lemma_outlook_without_stage(run2, stage, delay);
    }
    assert(outlook(run1, stage, delay) == seq![AttachStep::DuplicateProcessHandle] + outlook(
        run2,
        stage,
        delay,
    ));
    assert(outlook(fresh(config), stage, delay) == seq![AttachStep::StartMessagePump] + outlook(
        run1,
        stage,
        delay,
    ));
    assert(outlook(fresh(config), stage, delay) =~= attach_script(config, stage, delay));
}

/// Every attach performs the steps of its script, in their order, up to the one that fails; a
/// successful attach performs them all.
pub proof fn attach_follows_script<E>(
    config: AttachConfig,
    replies: Seq<AttachReply<E>>,
    stage: Option<Seq<char>>,
    delay: Option<Seq<char>>,
)
    requires
        answers(fresh(config), replies, stage, delay),
    ensures
        performed(fresh(config), replies).is_prefix_of(attach_script(config, stage, delay)),
        succeeded(fresh(config), replies) ==> performed(fresh(config), replies) == attach_script(
            config,
            stage,
            delay,
        ),
{
    lemma_outlook_of_fresh(config, stage, delay);
    lemma_performed_within_outlook(fresh(config), replies, stage, delay);
}

proof fn lemma_complete_attach_succeeds<E>(
    run: AttachRunView,
    replies: Seq<AttachReply<E>>,
    stage: Option<Seq<char>>,
    delay: Option<Seq<char>>,
)
    requires
        staged(run.todo),
        answers(run, replies, stage, delay),
    ensures
        performed(run, replies).len() == replies.len(),
        succeeded(run, replies) <==> replies.len() == outlook(run, stage, delay).len() && (
        replies.len() > 0 ==> !(replies.last() is Failed) && !(replies.last() is Refused)),
    decreases replies.len(),
{
    if replies.len() > 0 {
        let reply = replies[0];
        let rest = replies.drop_first();
        if crate::launcher::attach::aborts(reply) {
            assert(rest.len() == 0);
            assert(performed(after(run, reply), rest) =~= Seq::empty());
        } else {
            lemma_outlook_step(run, reply, stage, delay);
            lemma_complete_attach_succeeds(after(run, reply), rest, stage, delay);
            if rest.len() > 0 {
                assert(rest.last() == replies.last());
            }
        }
    }
}

/// An attach succeeds exactly where every step of its script has been performed and the last one
/// did not fail.
pub proof fn attach_succeeds_with_its_last_step<E>(
    config: AttachConfig,
    replies: Seq<AttachReply<E>>,
    stage: Option<Seq<char>>,
    delay: Option<Seq<char>>,
)
    requires
        answers(fresh(config), replies, stage, delay),
    ensures
        performed(fresh(config), replies).len() == replies.len(),
        succeeded(fresh(config), replies) <==> replies.len() == attach_script(
            config,
            stage,
            delay,
        ).len() && !(replies.last() is Failed) && !(replies.last() is Refused),
{
    lemma_outlook_of_fresh(config, stage, delay);
    lemma_complete_attach_succeeds(fresh(config), replies, stage, delay);
}

/// The shape of every script: the position of the one resumption, of the one load where there is
/// one, and of the request where there is one.
proof fn lemma_script_shape(
    config: AttachConfig,
    stage: Option<Seq<char>>,
    delay: Option<Seq<char>>,
)
    ensures
        ({
            let script = attach_script(config, stage, delay);
            let mode = crate::launcher::stage::attach_mode(config.no_steam, stage);
            let base: int = if config.no_steam {
                3
            } else {
                2
            };
            let rest = timed_steps(mode, config.suspend, delay);
            &&& script.len() == base + rest.len()
            &&& script[0] == AttachStep::StartMessagePump
            &&& script[1] == AttachStep::DuplicateProcessHandle
            &&& config.no_steam ==> script[2] == AttachStep::ReadDiagStage
            &&& forall|i: int| base <= i < script.len() ==> #[trigger] script[i] == rest[i - base]
        }),
{
}

/// The main thread of the game is resumed at most once, and an attach succeeds only after
/// resuming it: no successful attach leaves the game suspended.
pub proof fn main_thread_resumed_once<E>(
    config: AttachConfig,
    replies: Seq<AttachReply<E>>,
    stage: Option<Seq<char>>,
    delay: Option<Seq<char>>,
)
    requires
        answers(fresh(config), replies, stage, delay),
    ensures
        resumes_at_most_once(performed(fresh(config), replies)),
        succeeded(fresh(config), replies) ==> performed(fresh(config), replies).contains(
            AttachStep::ResumeMainThread,
        ),
{
    attach_follows_script(config, replies, stage, delay);
    lemma_script_shape(config, stage, delay);
    let script = attach_script(config, stage, delay);
    let mode = crate::launcher::stage::attach_mode(config.no_steam, stage);
    let rest = timed_steps(mode, config.suspend, delay);
    let base: int = script.len() - rest.len();
    let at: int = match mode {
        AttachMode::ResumeOnly | AttachMode::Late(_) => 0,
        _ => rest.len() - 1,
    };
    assert(rest[at] == AttachStep::ResumeMainThread);
    assert forall|i: int| 0 <= i < rest.len() && #[trigger] rest[i]
        == AttachStep::ResumeMainThread implies i == at by {}
    assert(script[base + at] == AttachStep::ResumeMainThread);
    assert forall|i: int| 0 <= i < script.len() && #[trigger] script[i]
        == AttachStep::ResumeMainThread implies i == base + at by {
        if i >= base {
            assert(rest[i - base] == AttachStep::ResumeMainThread);
        }
    }
    let steps = performed(fresh(config), replies);
    assert forall|i: int, j: int| 0 <= i < j < steps.len() implies !(#[trigger] steps[i]
        == AttachStep::ResumeMainThread && #[trigger] steps[j] == AttachStep::ResumeMainThread) by {
        assert(steps[i] == script[i] && steps[j] == script[j]);
    }
}

/// At most one DLL is loaded into the game.
pub proof fn at_most_one_load<E>(
    config: AttachConfig,
    replies: Seq<AttachReply<E>>,
    stage: Option<Seq<char>>,
    delay: Option<Seq<char>>,
)
    requires
        answers(fresh(config), replies, stage, delay),
    ensures
        loads_at_most_once(performed(fresh(config), replies)),
{
    attach_follows_script(config, replies, stage, delay);
    lemma_script_shape(config, stage, delay);
    let script = attach_script(config, stage, delay);
    let rest = timed_steps(
        crate::launcher::stage::attach_mode(config.no_steam, stage),
        config.suspend,
        delay,
    );
    let base: int = script.len() - rest.len();
    let steps = performed(fresh(config), replies);
    assert forall|i: int, j: int| 0 <= i < j < steps.len() implies !(#[trigger] steps[i] is Inject
        && #[trigger] steps[j] is Inject) by {
        assert(steps[i] == script[i] && steps[j] == script[j]);
        if i >= base {
            assert(script[i] == rest[i - base] && script[j] == rest[j - base]);
        }
    }
}

/// The host is asked to attach only once the mod host has been loaded, and never after the probe.
pub proof fn request_follows_host<E>(
    config: AttachConfig,
    replies: Seq<AttachReply<E>>,
    stage: Option<Seq<char>>,
    delay: Option<Seq<char>>,
    at: int,
)
    requires
        answers(fresh(config), replies, stage, delay),
        0 <= at < performed(fresh(config), replies).len(),
        performed(fresh(config), replies)[at] == AttachStep::RequestAttach,
    ensures
        exists|i: int|
            0 <= i < at && (#[trigger] performed(fresh(config), replies)[i] matches
                AttachStep::Inject { dll, .. } && dll == Dll::ModHost),
        forall|i: int|
            0 <= i < performed(fresh(config), replies).len() ==> !(
            #[trigger] performed(fresh(config), replies)[i] matches AttachStep::Inject { dll, .. }
                && dll == Dll::MissingProbe),
{
    attach_follows_script(config, replies, stage, delay);
    lemma_script_shape(config, stage, delay);
    let script = attach_script(config, stage, delay);
    let mode = crate::launcher::stage::attach_mode(config.no_steam, stage);
    let rest = timed_steps(mode, config.suspend, delay);
    let base: int = script.len() - rest.len();
    let steps = performed(fresh(config), replies);
    assert(steps[at] == script[at]);
    assert(at >= base && rest[at - base] == AttachStep::RequestAttach);
    let load: int = match mode {
        AttachMode::Late(_) => 3,
        _ => 0,
    };
    assert(rest[load] matches AttachStep::Inject { dll, .. } && dll == Dll::ModHost);
    assert(load < at - base);
    assert(steps[base + load] == script[base + load]);
    assert forall|i: int| 0 <= i < steps.len() implies !(#[trigger] steps[i] matches
        AttachStep::Inject { dll, .. } && dll == Dll::MissingProbe) by {
        assert(steps[i] == script[i]);
        if i >= base {
            assert(script[i] == rest[i - base]);
        }
    }
}

/// With Steam in the picture an attach is the same whatever the environment holds.
pub proof fn environment_without_say(
    config: AttachConfig,
    stage: Option<Seq<char>>,
    delay: Option<Seq<char>>,
    other_stage: Option<Seq<char>>,
    other_delay: Option<Seq<char>>,
)
    requires
        !config.no_steam,
    ensures
        attach_script(config, stage, delay) == attach_script(config, other_stage, other_delay),
        forall|i: int|
            0 <= i < attach_script(config, stage, delay).len() ==> {
                let step = #[trigger] attach_script(config, stage, delay)[i];
                step != AttachStep::ReadDiagStage && step != AttachStep::ReadAttachDelay
            },
{
}

/// An attach that is not a late one resumes the game as its last step: where it fails, the game
/// has not run.
pub proof fn failed_attach_leaves_game_suspended<E>(
    config: AttachConfig,
    replies: Seq<AttachReply<E>>,
    stage: Option<Seq<char>>,
    delay: Option<Seq<char>>,
)
    requires
        answers(fresh(config), replies, stage, delay),
        !(crate::launcher::stage::attach_mode(config.no_steam, stage) is Late),
        replies.len() > 0,
        crate::launcher::attach::aborts(replies.last()),
    ensures
        !performed(fresh(config), replies).contains(AttachStep::ResumeMainThread),
{
    attach_follows_script(config, replies, stage, delay);
    lemma_script_shape(config, stage, delay);
    lemma_last_reply_fits(fresh(config), replies, stage, delay);
    let script = attach_script(config, stage, delay);
    let mode = crate::launcher::stage::attach_mode(config.no_steam, stage);
    let rest = timed_steps(mode, config.suspend, delay);
    let base: int = script.len() - rest.len();
    let steps = performed(fresh(config), replies);
    assert forall|i: int| 0 <= i < steps.len() implies steps[i]
        != AttachStep::ResumeMainThread by {
        assert(steps[i] == script[i]);
        if steps[i] == AttachStep::ResumeMainThread {
            assert(i >= base && rest[i - base] == AttachStep::ResumeMainThread);
            assert(i == script.len() - 1);
            assert(steps.last() == AttachStep::ResumeMainThread);
        }
    }
}

proof fn lemma_last_reply_fits<E>(
    run: AttachRunView,
    replies: Seq<AttachReply<E>>,
    stage: Option<Seq<char>>,
    delay: Option<Seq<char>>,
)
    requires
        answers(run, replies, stage, delay),
        replies.len() > 0,
    ensures
        performed(run, replies).len() == replies.len(),
        crate::launcher::attach::fits(performed(run, replies).last(), replies.last()),
    decreases replies.len(),
{
    let rest = replies.drop_first();
    if rest.len() > 0 {
        lemma_last_reply_fits(after(run, replies[0]), rest, stage, delay);
        assert(rest.last() == replies.last());
        assert(performed(run, replies).last() == performed(after(run, replies[0]), rest).last());
    } else {
        assert(performed(after(run, replies[0]), rest) =~= Seq::empty());
    }
}

/// A late attach lets the game run and then waits as long as the delay variable says, before it
/// loads anything.
pub proof fn late_attach_waits<E>(
    config: AttachConfig,
    replies: Seq<AttachReply<E>>,
    stage: Option<Seq<char>>,
    delay: Option<Seq<char>>,
    at: int,
)
    requires
        answers(fresh(config), replies, stage, delay),
        crate::launcher::stage::attach_mode(config.no_steam, stage) is Late,
        0 <= at < performed(fresh(config), replies).len(),
        performed(fresh(config), replies)[at] is Inject,
    ensures
        at >= 3,
        performed(fresh(config), replies)[at - 3] == AttachStep::ResumeMainThread,
        performed(fresh(config), replies)[at - 1] == (AttachStep::Sleep {
            ms: crate::launcher::stage::delay_of(delay) as u64,
        }),
{
    attach_follows_script(config, replies, stage, delay);
    lemma_script_shape(config, stage, delay);
    let script = attach_script(config, stage, delay);
    let mode = crate::launcher::stage::attach_mode(config.no_steam, stage);
    let rest = timed_steps(mode, config.suspend, delay);
    let base: int = script.len() - rest.len();
    let steps = performed(fresh(config), replies);
    assert(steps[at] == script[at]);
    assert(at >= base && rest[at - base] is Inject);
    assert(at - base == 3);
    assert(steps[at - 3] == script[at - 3] && steps[at - 1] == script[at - 1]);
}

/// Waiting for a debugger adds its announcement in front of the request of an immediate attach,
/// and changes nothing else.
pub proof fn suspension_is_only_announced(
    no_steam: bool,
    stage: Option<Seq<char>>,
    delay: Option<Seq<char>>,
)
    ensures
        ({
            let held = attach_script(AttachConfig { no_steam, suspend: true }, stage, delay);
            let free = attach_script(AttachConfig { no_steam, suspend: false }, stage, delay);
            if crate::launcher::stage::attach_mode(no_steam, stage) == AttachMode::Immediate {
                &&& free[free.len() - 2] == AttachStep::RequestAttach
                &&& held == free.insert(free.len() - 2, AttachStep::AnnounceSuspension)
            } else {
                held == free
            }
        }),
{
    let held = attach_script(AttachConfig { no_steam, suspend: true }, stage, delay);
    let free = attach_script(AttachConfig { no_steam, suspend: false }, stage, delay);
    if crate::launcher::stage::attach_mode(no_steam, stage) == AttachMode::Immediate {
        assert(held =~= free.insert(free.len() - 2, AttachStep::AnnounceSuspension));
    }
}

/// How an attach ended, if it has.
pub open spec fn outcome<E>(
    run: AttachRunView,
    replies: Seq<AttachReply<E>>,
) -> Option<Result<Attachment, AttachError<E>>>
    decreases replies.len(),
{
    if run.todo.len() == 0 {
        Some(Ok(Attachment))
    } else if replies.len() == 0 {
        None
    } else if crate::launcher::attach::aborts(replies[0]) {
        Some(Err(crate::launcher::attach::error_of(run.todo[0], replies[0])))
    } else {
        outcome(after(run, replies[0]), replies.drop_first())
    }
}

/// Whether two replies differ at most in the exit code of a load.
pub open spec fn alike<E>(reply: AttachReply<E>, other: AttachReply<E>) -> bool {
    reply == other || (reply is Loaded && other is Loaded)
}

proof fn lemma_exit_code_is_ignored<E>(
    run: AttachRunView,
    replies: Seq<AttachReply<E>>,
    others: Seq<AttachReply<E>>,
    stage: Option<Seq<char>>,
    delay: Option<Seq<char>>,
)
    requires
        answers(run, replies, stage, delay),
        replies.len() == others.len(),
        forall|i: int| 0 <= i < replies.len() ==> alike(#[trigger] replies[i], others[i]),
    ensures
        answers(run, others, stage, delay),
        performed(run, replies) == performed(run, others),
        succeeded(run, replies) == succeeded(run, others),
        outcome(run, replies) == outcome(run, others),
    decreases replies.len(),
{
    if replies.len() > 0 {
        assert(alike(replies[0], others[0]));
        let rest = replies.drop_first();
        let other_rest = others.drop_first();
        assert(after(run, replies[0]) == after(run, others[0]));
        assert forall|i: int| 0 <= i < rest.len() implies alike(
            #[trigger] rest[i],
            other_rest[i],
        ) by {
            assert(alike(replies[i + 1], others[i + 1]));
        }
        if crate::launcher::attach::aborts(replies[0]) {
            assert(rest =~= other_rest);
        } else {
            lemma_exit_code_is_ignored(after(run, replies[0]), rest, other_rest, stage, delay);
        }
    }
}

/// The exit code of a load has no say: two attaches whose replies differ in nothing else perform
/// the same steps and end alike, whatever the codes.
pub proof fn exit_code_is_ignored<E>(
    config: AttachConfig,
    replies: Seq<AttachReply<E>>,
    others: Seq<AttachReply<E>>,
    stage: Option<Seq<char>>,
    delay: Option<Seq<char>>,
)
    requires
        answers(fresh(config), replies, stage, delay),
        replies.len() == others.len(),
        forall|i: int| 0 <= i < replies.len() ==> alike(#[trigger] replies[i], others[i]),
    ensures
        answers(fresh(config), others, stage, delay),
        performed(fresh(config), replies) == performed(fresh(config), others),
        succeeded(fresh(config), replies) == succeeded(fresh(config), others),
        outcome(fresh(config), replies) == outcome(fresh(config), others),
{
    lemma_exit_code_is_ignored(fresh(config), replies, others, stage, delay);
}

} // verus!
