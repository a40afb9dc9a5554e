//! The course of an attach, step by step, for every setting and every diagnostic stage.

use vstd::prelude::*;

use crate::launcher::attach::{
    AttachConfig, AttachError, AttachReply, AttachRunView, AttachStep, Attachment, Dll, Purpose,
};

verus! {

/// Whether an attach performs the steps of `course` in their order, up to one that fails, and
/// succeeds exactly where it has performed them all and the last one did not fail either.
pub open spec fn takes<E>(
    config: AttachConfig,
    replies: Seq<AttachReply<E>>,
    course: Seq<AttachStep>,
) -> bool {
    let fresh = crate::launcher::attach_laws::fresh(config);
    &&& crate::launcher::attach_laws::performed(fresh, replies).len() == replies.len()
    &&& crate::launcher::attach_laws::performed(fresh, replies).is_prefix_of(course)
    &&& crate::launcher::attach_laws::succeeded(fresh, replies) <==> replies.len() == course.len()
        && !(replies.last() is Failed) && !(replies.last() is Refused)
}

/// The wait of a late attach is what the delay variable writes down, for every number that fits,
/// whatever zeros and whether or not a `+` stand in front of it.
pub proof fn late_attach_waits_as_written<E>(
    config: AttachConfig,
    replies: Seq<AttachReply<E>>,
    stage: Option<Seq<char>>,
    ms: u64,
    zeros: nat,
    plus: bool,
    at: int,
)
    requires
        crate::launcher::attach_laws::answers(
            crate::launcher::attach_laws::fresh(config),
            replies,
            stage,
            Some(crate::text_laws::written(ms as int, zeros, plus)),
        ),
        0 <= at < replies.len(),
        crate::launcher::attach_laws::performed(
            crate::launcher::attach_laws::fresh(config),
            replies,
        )[at] is Sleep,
    ensures
        crate::launcher::attach_laws::performed(
            crate::launcher::attach_laws::fresh(config),
            replies,
        )[at] == (AttachStep::Sleep { ms }),
{
    let delay = Some(crate::text_laws::written(ms as int, zeros, plus));
    crate::text_laws::number_reads_back(ms as int, zeros, plus);
    lemma_wait(config, replies, stage, delay, at);
}

/// Without a delay variable, or with one that writes down no number that fits, a late attach waits
/// eight seconds.
pub proof fn late_attach_waits_eight_seconds<E>(
    config: AttachConfig,
    replies: Seq<AttachReply<E>>,
    stage: Option<Seq<char>>,
    delay: Option<Seq<char>>,
    at: int,
)
    requires
        crate::launcher::attach_laws::answers(
            crate::launcher::attach_laws::fresh(config),
            replies,
            stage,
            delay,
        ),
        delay matches Some(text) ==> !crate::text_laws::writes_a_number(text),
        0 <= at < replies.len(),
        crate::launcher::attach_laws::performed(
            crate::launcher::attach_laws::fresh(config),
            replies,
        )[at] is Sleep,
    ensures
        crate::launcher::attach_laws::performed(
            crate::launcher::attach_laws::fresh(config),
            replies,
        )[at] == (AttachStep::Sleep { ms: 8_000 }),
{
    match delay {
        Some(text) => {
            crate::text_laws::only_numbers_are_read(text);
        },
        None => {},
    }
    lemma_wait(config, replies, stage, delay, at);
}

proof fn lemma_wait<E>(
    config: AttachConfig,
    replies: Seq<AttachReply<E>>,
    stage: Option<Seq<char>>,
    delay: Option<Seq<char>>,
    at: int,
)
    requires
        crate::launcher::attach_laws::answers(
            crate::launcher::attach_laws::fresh(config),
            replies,
            stage,
            delay,
        ),
        0 <= at < replies.len(),
        crate::launcher::attach_laws::performed(
            crate::launcher::attach_laws::fresh(config),
            replies,
        )[at] is Sleep,
    ensures
        crate::launcher::attach_laws::performed(
            crate::launcher::attach_laws::fresh(config),
            replies,
        )[at] == (AttachStep::Sleep { ms: crate::launcher::stage::delay_of(delay) as u64 }),
{
    crate::launcher::attach_laws::attach_follows_script(config, replies, stage, delay);
    crate::launcher::attach_laws::attach_succeeds_with_its_last_step(
        config,
        replies,
        stage,
        delay,
    );
    let script = crate::launcher::attach_laws::attach_script(config, stage, delay);
    assert(crate::launcher::attach_laws::performed(
        crate::launcher::attach_laws::fresh(config),
        replies,
    )[at] == script[at]);
}

proof fn lemma_takes_script<E>(
    config: AttachConfig,
    replies: Seq<AttachReply<E>>,
    stage: Option<Seq<char>>,
    delay: Option<Seq<char>>,
)
    requires
        crate::launcher::attach_laws::answers(
            crate::launcher::attach_laws::fresh(config),
            replies,
            stage,
            delay,
        ),
    ensures
        takes(config, replies, crate::launcher::attach_laws::attach_script(config, stage, delay)),
{
    crate::launcher::attach_laws::attach_follows_script(config, replies, stage, delay);
    crate::launcher::attach_laws::attach_succeeds_with_its_last_step(
        config,
        replies,
        stage,
        delay,
    );
}

/// The names of the stages are different from each other.
proof fn lemma_stage_names()
    ensures
        forall|a: Seq<char>|
            #![trigger crate::launcher::stage::mode_of_stage(a)]
            (a == "load-only"@ || a == "resume-only"@ || a == "probe-only"@ || a
                == "late-probe-only"@ || a == "late-load-only"@)
                ==> !crate::launcher::stage::is_late_attach_stage(a) && a.len() > 0,
        "load-only"@ != "resume-only"@,
        "load-only"@ != "probe-only"@,
        "load-only"@ != "late-probe-only"@,
        "load-only"@ != "late-load-only"@,
        "resume-only"@ != "probe-only"@,
        "resume-only"@ != "late-probe-only"@,
        "resume-only"@ != "late-load-only"@,
        "probe-only"@ != "late-probe-only"@,
        "probe-only"@ != "late-load-only"@,
        "late-probe-only"@ != "late-load-only"@,
{
    reveal_strlit("load-only");
    reveal_strlit("resume-only");
    reveal_strlit("probe-only");
    reveal_strlit("late-probe-only");
    reveal_strlit("late-load-only");
    reveal_strlit("late-dll-only");
    reveal_strlit("late-host-only");
    reveal_strlit("late-dearxan-only");
    reveal_strlit("late-filesystem-only");
    reveal_strlit("late-full");
    reveal_strlit("late-full-immediate");
    assert("load-only"@[1] == 'o' && "resume-only"@[1] == 'e');
    assert("late-full"@[1] == 'a');
    assert("resume-only"@.len() == 11);
    assert("probe-only"@.len() == 10);
    assert("late-probe-only"@.len() == 15);
    assert("late-load-only"@.len() == 14);
    assert("late-host-only"@.len() == 14);
    assert("late-load-only"@[5] == 'l' && "late-host-only"@[5] == 'h');
}

/// With Steam in the picture the mod host is loaded into the suspended game and asked to attach,
/// after the announcement where the host waits for a debugger; then the game runs.
pub proof fn course_with_steam<E>(
    suspend: bool,
    replies: Seq<AttachReply<E>>,
    stage: Option<Seq<char>>,
    delay: Option<Seq<char>>,
)
    requires
        crate::launcher::attach_laws::answers(
            crate::launcher::attach_laws::fresh(AttachConfig { no_steam: false, suspend }),
            replies,
            stage,
            delay,
        ),
    ensures
        takes(
            AttachConfig { no_steam: false, suspend },
            replies,
            if suspend {
                seq![
                    AttachStep::StartMessagePump,
                    AttachStep::DuplicateProcessHandle,
                    AttachStep::Inject { dll: Dll::ModHost, purpose: Purpose::Host },
                    AttachStep::AnnounceSuspension,
                    AttachStep::RequestAttach,
                    AttachStep::ResumeMainThread,
                ]
            } else {
                seq![
                    AttachStep::StartMessagePump,
                    AttachStep::DuplicateProcessHandle,
                    AttachStep::Inject { dll: Dll::ModHost, purpose: Purpose::Host },
                    AttachStep::RequestAttach,
                    AttachStep::ResumeMainThread,
                ]
            },
        ),
{
    let config = AttachConfig { no_steam: false, suspend };
    lemma_takes_script(config, replies, stage, delay);
    let script = crate::launcher::attach_laws::attach_script(config, stage, delay);
    if suspend {
        assert(script =~= seq![
            AttachStep::StartMessagePump,
            AttachStep::DuplicateProcessHandle,
            AttachStep::Inject { dll: Dll::ModHost, purpose: Purpose::Host },
            AttachStep::AnnounceSuspension,
            AttachStep::RequestAttach,
            AttachStep::ResumeMainThread,
        ]);
    } else {
        assert(script =~= seq![
            AttachStep::StartMessagePump,
            AttachStep::DuplicateProcessHandle,
            AttachStep::Inject { dll: Dll::ModHost, purpose: Purpose::Host },
            AttachStep::RequestAttach,
            AttachStep::ResumeMainThread,
        ]);
    }
}

/// Without Steam, and with no stage or with one that is a late attach under another name, the game
/// runs first; after the wait the mod host is loaded and asked to attach.
pub proof fn course_without_steam<E>(
    suspend: bool,
    replies: Seq<AttachReply<E>>,
    stage: Option<Seq<char>>,
    delay: Option<Seq<char>>,
)
    requires
        crate::launcher::attach_laws::answers(
            crate::launcher::attach_laws::fresh(AttachConfig { no_steam: true, suspend }),
            replies,
            stage,
            delay,
        ),
        stage matches Some(name) ==> name == Seq::<char>::empty() || name == "late-dll-only"@
            || name == "late-host-only"@ || name == "late-dearxan-only"@ || name
            == "late-filesystem-only"@ || name == "late-full"@ || name == "late-full-immediate"@,
    ensures
        exists|ms: u64|
            takes(
                AttachConfig { no_steam: true, suspend },
                replies,
                #[trigger] seq![
                    AttachStep::StartMessagePump,
                    AttachStep::DuplicateProcessHandle,
                    AttachStep::ReadDiagStage,
                    AttachStep::ResumeMainThread,
                    AttachStep::ReadAttachDelay,
                    AttachStep::Sleep { ms },
                    AttachStep::Inject { dll: Dll::ModHost, purpose: Purpose::Late },
                    AttachStep::RequestAttach,
                ],
            ),
{
    let config = AttachConfig { no_steam: true, suspend };
    lemma_takes_script(config, replies, stage, delay);
    lemma_stage_names();
    let name = crate::launcher::stage::stage_of(stage);
    assert(crate::launcher::stage::mode_of_stage(name) == crate::launcher::stage::attach_mode(
        true,
        stage,
    ));
    let ms = crate::launcher::stage::delay_of(delay) as u64;
    let script = crate::launcher::attach_laws::attach_script(config, stage, delay);
    assert(script =~= seq![
        AttachStep::StartMessagePump,
        AttachStep::DuplicateProcessHandle,
        AttachStep::ReadDiagStage,
        AttachStep::ResumeMainThread,
        AttachStep::ReadAttachDelay,
        AttachStep::Sleep { ms },
        AttachStep::Inject { dll: Dll::ModHost, purpose: Purpose::Late },
        AttachStep::RequestAttach,
    ]);
}

/// The stage `late-load-only` leaves the mod host alone once it is loaded, and `late-probe-only`
/// loads the DLL that does not exist in its place; in both the game runs first.
pub proof fn course_of_late_loads<E>(
    suspend: bool,
    replies: Seq<AttachReply<E>>,
    name: Seq<char>,
    delay: Option<Seq<char>>,
)
    requires
        crate::launcher::attach_laws::answers(
            crate::launcher::attach_laws::fresh(AttachConfig { no_steam: true, suspend }),
            replies,
            Some(name),
            delay,
        ),
        name == "late-load-only"@ || name == "late-probe-only"@,
    ensures
        exists|ms: u64|
            takes(
                AttachConfig { no_steam: true, suspend },
                replies,
                #[trigger] seq![
                    AttachStep::StartMessagePump,
                    AttachStep::DuplicateProcessHandle,
                    AttachStep::ReadDiagStage,
                    AttachStep::ResumeMainThread,
                    AttachStep::ReadAttachDelay,
                    AttachStep::Sleep { ms },
                    AttachStep::Inject {
                        dll: if name == "late-probe-only"@ {
                            Dll::MissingProbe
                        } else {
                            Dll::ModHost
                        },
                        purpose: Purpose::Late,
                    },
                ],
            ),
{
    let config = AttachConfig { no_steam: true, suspend };
    lemma_takes_script(config, replies, Some(name), delay);
    lemma_stage_names();
    assert(crate::launcher::stage::mode_of_stage(name) == crate::launcher::stage::attach_mode(
        true,
        Some(name),
    ));
    let ms = crate::launcher::stage::delay_of(delay) as u64;
    let script = crate::launcher::attach_laws::attach_script(config, Some(name), delay);
    assert(script =~= seq![
        AttachStep::StartMessagePump,
        AttachStep::DuplicateProcessHandle,
        AttachStep::ReadDiagStage,
        AttachStep::ResumeMainThread,
        AttachStep::ReadAttachDelay,
        AttachStep::Sleep { ms },
        AttachStep::Inject {
            dll: if name == "late-probe-only"@ {
                Dll::MissingProbe
            } else {
                Dll::ModHost
            },
            purpose: Purpose::Late,
        },
    ]);
}

/// The stage `resume-only` loads nothing: the game just runs.
pub proof fn course_of_resume_only<E>(
    suspend: bool,
    replies: Seq<AttachReply<E>>,
    delay: Option<Seq<char>>,
)
    requires
        crate::launcher::attach_laws::answers(
            crate::launcher::attach_laws::fresh(AttachConfig { no_steam: true, suspend }),
            replies,
            Some("resume-only"@),
            delay,
        ),
    ensures
        takes(
            AttachConfig { no_steam: true, suspend },
            replies,
            seq![
                AttachStep::StartMessagePump,
                AttachStep::DuplicateProcessHandle,
                AttachStep::ReadDiagStage,
                AttachStep::ResumeMainThread,
            ],
        ),
{
    let config = AttachConfig { no_steam: true, suspend };
    let stage = Some("resume-only"@);
    lemma_takes_script(config, replies, stage, delay);
    assert(crate::launcher::attach_laws::attach_script(config, stage, delay) =~= seq![
        AttachStep::StartMessagePump,
        AttachStep::DuplicateProcessHandle,
        AttachStep::ReadDiagStage,
        AttachStep::ResumeMainThread,
    ]);
}

/// The stages `probe-only` and `load-only` load the DLL that does not exist, or the mod host, into
/// the suspended game. The host is not asked for anything; then the game runs.
pub proof fn course_of_loads<E>(
    suspend: bool,
    replies: Seq<AttachReply<E>>,
    name: Seq<char>,
    delay: Option<Seq<char>>,
)
    requires
        crate::launcher::attach_laws::answers(
            crate::launcher::attach_laws::fresh(AttachConfig { no_steam: true, suspend }),
            replies,
            Some(name),
            delay,
        ),
        name == "probe-only"@ || name == "load-only"@,
    ensures
        takes(
            AttachConfig { no_steam: true, suspend },
            replies,
            seq![
                AttachStep::StartMessagePump,
                AttachStep::DuplicateProcessHandle,
                AttachStep::ReadDiagStage,
                if name == "probe-only"@ {
                    AttachStep::Inject { dll: Dll::MissingProbe, purpose: Purpose::Probe }
                } else {
                    AttachStep::Inject { dll: Dll::ModHost, purpose: Purpose::Host }
                },
                AttachStep::ResumeMainThread,
            ],
        ),
{
    let config = AttachConfig { no_steam: true, suspend };
    lemma_takes_script(config, replies, Some(name), delay);
    lemma_stage_names();
    assert(crate::launcher::stage::mode_of_stage(name) == crate::launcher::stage::attach_mode(
        true,
        Some(name),
    ));
    assert(crate::launcher::attach_laws::attach_script(config, Some(name), delay) =~= seq![
        AttachStep::StartMessagePump,
        AttachStep::DuplicateProcessHandle,
        AttachStep::ReadDiagStage,
        if name == "probe-only"@ {
            AttachStep::Inject { dll: Dll::MissingProbe, purpose: Purpose::Probe }
        } else {
            AttachStep::Inject { dll: Dll::ModHost, purpose: Purpose::Host }
        },
        AttachStep::ResumeMainThread,
    ]);
}

/// A stage that nobody knows changes nothing about an attach with Steam but that it was read.
pub proof fn course_of_unknown_stage<E>(
    suspend: bool,
    replies: Seq<AttachReply<E>>,
    name: Seq<char>,
    delay: Option<Seq<char>>,
)
    requires
        crate::launcher::attach_laws::answers(
            crate::launcher::attach_laws::fresh(AttachConfig { no_steam: true, suspend }),
            replies,
            Some(name),
            delay,
        ),
        name.len() > 0,
        name != "resume-only"@,
        name != "probe-only"@,
        name != "load-only"@,
        name != "late-probe-only"@,
        name != "late-load-only"@,
        name != "late-dll-only"@,
        name != "late-host-only"@,
        name != "late-dearxan-only"@,
        name != "late-filesystem-only"@,
        name != "late-full"@,
        name != "late-full-immediate"@,
    ensures
        takes(
            AttachConfig { no_steam: true, suspend },
            replies,
            if suspend {
                seq![
                    AttachStep::StartMessagePump,
                    AttachStep::DuplicateProcessHandle,
                    AttachStep::ReadDiagStage,
                    AttachStep::Inject { dll: Dll::ModHost, purpose: Purpose::Host },
                    AttachStep::AnnounceSuspension,
                    AttachStep::RequestAttach,
                    AttachStep::ResumeMainThread,
                ]
            } else {
                seq![
                    AttachStep::StartMessagePump,
                    AttachStep::DuplicateProcessHandle,
                    AttachStep::ReadDiagStage,
                    AttachStep::Inject { dll: Dll::ModHost, purpose: Purpose::Host },
                    AttachStep::RequestAttach,
                    AttachStep::ResumeMainThread,
                ]
            },
        ),
{
    let config = AttachConfig { no_steam: true, suspend };
    lemma_takes_script(config, replies, Some(name), delay);
    let script = crate::launcher::attach_laws::attach_script(config, Some(name), delay);
    if suspend {
        assert(script =~= seq![
            AttachStep::StartMessagePump,
            AttachStep::DuplicateProcessHandle,
            AttachStep::ReadDiagStage,
            AttachStep::Inject { dll: Dll::ModHost, purpose: Purpose::Host },
            AttachStep::AnnounceSuspension,
            AttachStep::RequestAttach,
            AttachStep::ResumeMainThread,
        ]);
    } else {
        assert(script =~= seq![
            AttachStep::StartMessagePump,
            AttachStep::DuplicateProcessHandle,
            AttachStep::ReadDiagStage,
            AttachStep::Inject { dll: Dll::ModHost, purpose: Purpose::Host },
            AttachStep::RequestAttach,
            AttachStep::ResumeMainThread,
        ]);
    }
}

/// An attach fails exactly with its last reply: a refusal is handed on as it is, and a failure is
/// told by the step that failed, with its cause. An attach that is over without one has succeeded.
pub proof fn attach_ends_as_its_last_reply<E>(
    config: AttachConfig,
    replies: Seq<AttachReply<E>>,
    stage: Option<Seq<char>>,
    delay: Option<Seq<char>>,
)
    requires
        crate::launcher::attach_laws::answers(
            crate::launcher::attach_laws::fresh(config),
            replies,
            stage,
            delay,
        ),
        replies.len() > 0,
    ensures
        ({
            let fresh = crate::launcher::attach_laws::fresh(config);
            let outcome = crate::launcher::attach_laws::outcome(fresh, replies);
            let step = crate::launcher::attach_laws::performed(fresh, replies).last();
            match replies.last() {
                AttachReply::Refused(message) => {
                    &&& step is RequestAttach
                    &&& outcome == Some(
                        Err::<Attachment, AttachError<E>>(AttachError::Refused(message)),
                    )
                },
                AttachReply::Failed(source) => match step {
                    AttachStep::DuplicateProcessHandle => outcome == Some(
                        Err::<Attachment, AttachError<E>>(AttachError::ProcessHandle(source)),
                    ),
                    AttachStep::Inject { purpose, .. } => outcome == Some(
                        Err::<Attachment, AttachError<E>>(
                            AttachError::Injection { purpose, source },
                        ),
                    ),
                    AttachStep::RequestAttach => outcome == Some(
                        Err::<Attachment, AttachError<E>>(AttachError::Bridge(source)),
                    ),
                    _ => false,
                },
                _ => outcome == (if crate::launcher::attach_laws::succeeded(fresh, replies) {
                    Some(Ok::<Attachment, AttachError<E>>(Attachment))
                } else {
                    None
                }),
            }
        }),
{
    lemma_ends_as_its_last_reply(
        crate::launcher::attach_laws::fresh(config),
        replies,
        stage,
        delay,
    );
}

proof fn lemma_ends_as_its_last_reply<E>(
    run: AttachRunView,
    replies: Seq<AttachReply<E>>,
    stage: Option<Seq<char>>,
    delay: Option<Seq<char>>,
)
    requires
        crate::launcher::attach_laws::answers(run, replies, stage, delay),
        replies.len() > 0,
    ensures
        ({
            let outcome = crate::launcher::attach_laws::outcome(run, replies);
            let step = crate::launcher::attach_laws::performed(run, replies).last();
            &&& crate::launcher::attach_laws::performed(run, replies).len() == replies.len()
            &&& crate::launcher::attach::fits(step, replies.last())
            &&& if replies.last() is Failed || replies.last() is Refused {
                outcome == Some(
                    Err::<Attachment, AttachError<E>>(
                        crate::launcher::attach::error_of(step, replies.last()),
                    ),
                )
            } else {
                outcome == (if crate::launcher::attach_laws::succeeded(run, replies) {
                    Some(Ok::<Attachment, AttachError<E>>(Attachment))
                } else {
                    None
                })
            }
        }),
    decreases replies.len(),
{
    let rest = replies.drop_first();
    let next = crate::launcher::attach_laws::after(run, replies[0]);
    if rest.len() > 0 {
        lemma_ends_as_its_last_reply(next, rest, stage, delay);
        assert(rest.last() == replies.last());
        assert(crate::launcher::attach_laws::performed(run, replies).last()
            == crate::launcher::attach_laws::performed(next, rest).last());
    } else {
        assert(crate::launcher::attach_laws::performed(next, rest) =~= Seq::empty());
        assert(crate::launcher::attach_laws::outcome(next, rest) == (if next.todo.len() == 0 {
            Some(Ok::<Attachment, AttachError<E>>(Attachment))
        } else {
            None
        }));
        assert(crate::launcher::attach_laws::succeeded(next, rest) == (next.todo.len() == 0));
    }
}

/// Each failed load is told in the words of what it was for.
pub proof fn failed_loads_are_told_apart(purpose: Purpose)
    ensures
        purpose is Probe ==> crate::launcher::attach::injection_context(purpose)
            == "failed to execute missing-DLL remote-thread probe"@,
        purpose is Late ==> crate::launcher::attach::injection_context(purpose)
            == "failed delayed remote LoadLibraryW probe"@,
        purpose is Host ==> crate::launcher::attach::injection_context(purpose)
            == "failed to inject mod host DLL"@,
{
}

/// The DLL that does not exist is looked for under one fixed path, unit by unit.
pub proof fn missing_dll_has_a_fixed_path(text: Seq<char>, at: int)
    requires
        0 <= at < text.len(),
    ensures
        crate::launcher::attach::MISSING_PROBE_PATH@ == "C:\\__ME3_NO_STEAM_DIAG_MISSING__.dll"@,
        crate::launcher::attach::ascii_units(text).len() == text.len(),
        crate::launcher::attach::ascii_units(text)[at] == text[at] as u16,
{
}

/// The value of a variable is taken as it is, character by character; an absent one is not taken
/// for any value.
pub proof fn variables_are_read_as_they_are(variable: Option<String>)
    ensures
        variable matches Some(value) ==> crate::launcher::stage::characters(variable) == Some(
            value@,
        ),
        variable is None ==> crate::launcher::stage::characters(variable) is None,
{
}

/// The two variables of the environment that a late attach goes by.
pub proof fn attach_variables_have_fixed_names()
    ensures
        crate::launcher::stage::DIAG_STAGE_VARIABLE@ == "ME3_NO_STEAM_DIAG_STAGE"@,
        crate::launcher::stage::ATTACH_DELAY_VARIABLE@ == "ME3_NO_STEAM_ATTACH_DELAY_MS"@,
{
}

} // verus!
