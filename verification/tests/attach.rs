use me3_attach::launcher::attach::{
    AttachConfig, AttachError, AttachProgress, AttachReply, AttachRun, AttachStep, Dll, Purpose,
};
use me3_attach::launcher::stage::{
    attach_delay, stage_label, AttachMode, LateGoal, DEFAULT_ATTACH_DELAY_MS,
};

fn text(value: &str) -> Option<String> {
    Some(value.to_string())
}

/// Drives an attach in an environment, failing at the step `fail_at` where one is given.
fn drive(
    no_steam: bool,
    suspend: bool,
    stage: Option<String>,
    delay: Option<String>,
    fail_at: Option<AttachStep>,
) -> (Vec<AttachStep>, Result<(), AttachError<&'static str>>) {
    let mut run = AttachRun::begin(AttachConfig { no_steam, suspend });
    let mut steps = Vec::new();
    loop {
        let step = run.step().unwrap();
        steps.push(step);
        let reply = if Some(step) == fail_at {
            AttachReply::Failed("broken")
        } else {
            match step {
                AttachStep::ReadDiagStage => AttachReply::Variable(stage.clone()),
                AttachStep::ReadAttachDelay => AttachReply::Variable(delay.clone()),
                AttachStep::Inject { .. } => AttachReply::Loaded(7),
                _ => AttachReply::Done,
            }
        };
        match run.reply(reply) {
            AttachProgress::Continue(next) => run = next,
            AttachProgress::Finished(result) => return (steps, result.map(|_| ())),
        }
    }
}

const HOST: AttachStep = AttachStep::Inject { dll: Dll::ModHost, purpose: Purpose::Host };
const LATE_HOST: AttachStep = AttachStep::Inject { dll: Dll::ModHost, purpose: Purpose::Late };

#[test]
fn attach_with_steam_is_immediate() {
    let (steps, result) = drive(false, false, text("resume-only"), text("1"), None);
    assert!(result.is_ok());
    assert_eq!(
        steps,
        vec![
            AttachStep::StartMessagePump,
            AttachStep::DuplicateProcessHandle,
            HOST,
            AttachStep::RequestAttach,
            AttachStep::ResumeMainThread,
        ]
    );
}

#[test]
fn suspension_is_announced_before_the_request() {
    let (steps, _) = drive(false, true, None, None, None);
    assert_eq!(
        steps[2..],
        [
            HOST,
            AttachStep::AnnounceSuspension,
            AttachStep::RequestAttach,
            AttachStep::ResumeMainThread,
        ]
    );
    let (held, _) = drive(true, true, None, None, None);
    let (free, _) = drive(true, false, None, None, None);
    assert_eq!(held, free);
}

#[test]
fn attach_without_steam_is_late() {
    for stage in [None, text("")] {
        let (steps, result) = drive(true, false, stage, None, None);
        assert!(result.is_ok());
        assert_eq!(
            steps,
            vec![
                AttachStep::StartMessagePump,
                AttachStep::DuplicateProcessHandle,
                AttachStep::ReadDiagStage,
                AttachStep::ResumeMainThread,
                AttachStep::ReadAttachDelay,
                AttachStep::Sleep { ms: 8_000 },
                LATE_HOST,
                AttachStep::RequestAttach,
            ]
        );
    }
}

#[test]
fn resume_only_loads_nothing() {
    let (steps, result) = drive(true, true, text("resume-only"), None, None);
    assert!(result.is_ok());
    assert_eq!(steps[2..], [AttachStep::ReadDiagStage, AttachStep::ResumeMainThread]);
}

#[test]
fn probe_only_loads_the_missing_dll_first() {
    let (steps, result) = drive(true, false, text("probe-only"), None, None);
    assert!(result.is_ok());
    assert_eq!(
        steps[3..],
        [
            AttachStep::Inject { dll: Dll::MissingProbe, purpose: Purpose::Probe },
            AttachStep::ResumeMainThread,
        ]
    );
}

#[test]
fn load_only_skips_the_request() {
    let (steps, result) = drive(true, true, text("load-only"), None, None);
    assert!(result.is_ok());
    assert_eq!(steps[3..], [HOST, AttachStep::ResumeMainThread]);
}

#[test]
fn late_stages_wait_and_load() {
    let (probe, _) = drive(true, false, text("late-probe-only"), text("40"), None);
    assert_eq!(
        probe[3..],
        [
            AttachStep::ResumeMainThread,
            AttachStep::ReadAttachDelay,
            AttachStep::Sleep { ms: 40 },
            AttachStep::Inject { dll: Dll::MissingProbe, purpose: Purpose::Late },
        ]
    );
    let (load, _) = drive(true, false, text("late-load-only"), text("none"), None);
    assert_eq!(load[5..], [AttachStep::Sleep { ms: 8_000 }, LATE_HOST]);
    for stage in [
        "late-dll-only",
        "late-host-only",
        "late-dearxan-only",
        "late-filesystem-only",
        "late-full",
        "late-full-immediate",
    ] {
        let (steps, result) = drive(true, false, text(stage), text("0"), None);
        assert!(result.is_ok());
        assert_eq!(
            steps[5..],
            [AttachStep::Sleep { ms: 0 }, LATE_HOST, AttachStep::RequestAttach]
        );
    }
}

#[test]
fn unknown_stage_is_immediate() {
    for stage in ["full", "late", "Resume-Only", "late-full "] {
        assert_eq!(AttachMode::of_stage(stage), AttachMode::Immediate);
    }
    assert_eq!(AttachMode::of_stage("late-probe-only"), AttachMode::Late(LateGoal::Probe));
    assert_eq!(AttachMode::of_variable(&None), AttachMode::Late(LateGoal::Attach));
    let (steps, _) = drive(true, false, text("full"), None, None);
    assert_eq!(steps[3..], [HOST, AttachStep::RequestAttach, AttachStep::ResumeMainThread]);
}

#[test]
fn the_game_is_resumed_once_and_loaded_into_at_most_once() {
    let stages = ["", "resume-only", "probe-only", "load-only", "late-load-only", "late-full", "?"];
    for no_steam in [false, true] {
        for stage in stages {
            let (steps, _) = drive(no_steam, true, text(stage), None, None);
            let resumed = steps.iter().filter(|s| **s == AttachStep::ResumeMainThread).count();
            let loaded = steps.iter().filter(|s| matches!(s, AttachStep::Inject { .. })).count();
            assert_eq!(resumed, 1);
            assert!(loaded <= 1);
        }
    }
}

#[test]
fn failed_handle_ends_the_attach() {
    let (steps, result) =
        drive(true, false, None, None, Some(AttachStep::DuplicateProcessHandle));
    assert_eq!(steps.len(), 2);
    assert!(matches!(result, Err(AttachError::ProcessHandle("broken"))));
}

#[test]
fn failed_load_ends_the_attach_before_the_game_runs() {
    let (steps, result) = drive(false, false, None, None, Some(HOST));
    assert!(!steps.contains(&AttachStep::ResumeMainThread));
    assert!(matches!(
        result,
        Err(AttachError::Injection { purpose: Purpose::Host, source: "broken" })
    ));
    let (steps, result) = drive(true, false, None, None, Some(LATE_HOST));
    assert!(steps.contains(&AttachStep::ResumeMainThread));
    assert!(matches!(result, Err(AttachError::Injection { purpose: Purpose::Late, .. })));
}

#[test]
fn failed_bridge_ends_the_attach() {
    let (_, result) = drive(false, false, None, None, Some(AttachStep::RequestAttach));
    assert!(matches!(result, Err(AttachError::Bridge("broken"))));
}

#[test]
fn refusal_is_handed_on() {
    let mut run = AttachRun::begin(AttachConfig { no_steam: false, suspend: false });
    let result = loop {
        let reply: AttachReply<()> = match run.step().unwrap() {
            AttachStep::Inject { .. } => AttachReply::Loaded(0),
            AttachStep::RequestAttach => AttachReply::Refused("wrong version".to_string()),
            _ => AttachReply::Done,
        };
        match run.reply(reply) {
            AttachProgress::Continue(next) => run = next,
            AttachProgress::Finished(result) => break result,
        }
    };
    assert!(matches!(result, Err(AttachError::Refused(m)) if m == "wrong version"));
}

#[test]
fn a_failed_load_by_exit_code_is_no_error() {
    let mut run = AttachRun::begin(AttachConfig { no_steam: false, suspend: false });
    loop {
        let reply: AttachReply<()> = match run.step().unwrap() {
            AttachStep::Inject { .. } => AttachReply::Loaded(0),
            _ => AttachReply::Done,
        };
        match run.reply(reply) {
            AttachProgress::Continue(next) => run = next,
            AttachProgress::Finished(result) => {
                assert!(result.is_ok());
                break;
            }
        }
    }
}

#[test]
fn exit_code_is_ignored() {
    for stage in ["", "probe-only", "late-load-only", "load-only", "unknown"] {
        let courses: Vec<_> = [0, 7, u32::MAX]
            .into_iter()
            .map(|code| {
                let mut run = AttachRun::begin(AttachConfig { no_steam: true, suspend: false });
                let mut steps = Vec::new();
                loop {
                    let step = run.step().unwrap();
                    steps.push(step);
                    let reply: AttachReply<()> = match step {
                        AttachStep::ReadDiagStage => AttachReply::Variable(text(stage)),
                        AttachStep::ReadAttachDelay => AttachReply::Variable(text("1")),
                        AttachStep::Inject { .. } => AttachReply::Loaded(code),
                        _ => AttachReply::Done,
                    };
                    match run.reply(reply) {
                        AttachProgress::Continue(next) => run = next,
                        AttachProgress::Finished(result) => return (steps, result.is_ok()),
                    }
                }
            })
            .collect();
        assert!(courses[0].0.iter().any(|step| matches!(step, AttachStep::Inject { .. })));
        assert!(courses[0].1);
        assert_eq!(courses[0], courses[1]);
        assert_eq!(courses[0], courses[2]);
    }
}

#[test]
fn delay_and_label_come_from_the_environment() {
    assert_eq!(DEFAULT_ATTACH_DELAY_MS, 8_000);
    assert_eq!(attach_delay(&None), 8_000);
    assert_eq!(attach_delay(&text("1500")), 1_500);
    assert_eq!(attach_delay(&text("1.5")), 8_000);
    assert_eq!(attach_delay(&text("")), 8_000);
    assert_eq!(stage_label(&None), "no-steam-default");
    assert_eq!(stage_label(&text("")), "no-steam-default");
    assert_eq!(stage_label(&text("late-full")), "late-full");
}

#[test]
fn paths_and_contexts() {
    let host: Vec<u16> = "D:\\me3\\host.dll".encode_utf16().collect();
    assert_eq!(Dll::ModHost.path(&host), host);
    assert_eq!(
        String::from_utf16(&Dll::MissingProbe.path(&host)).unwrap(),
        r"C:\__ME3_NO_STEAM_DIAG_MISSING__.dll"
    );
    assert_eq!(
        Purpose::Probe.failure_context(),
        "failed to execute missing-DLL remote-thread probe"
    );
    assert_eq!(Purpose::Late.failure_context(), "failed delayed remote LoadLibraryW probe");
    assert_eq!(Purpose::Host.failure_context(), "failed to inject mod host DLL");
}
