use me3_attach::launcher::injection::{InjectProgress, InjectReply, InjectRun, InjectStep};

fn drive(
    wait: u32,
    fail_at: Option<usize>,
) -> (Vec<InjectStep>, Vec<u16>, Result<u32, &'static str>) {
    let path: Vec<u16> = "a.dll".encode_utf16().collect();
    let mut run = InjectRun::begin(path);
    let written = run.path().clone();
    let mut steps = Vec::new();
    loop {
        let step = run.step();
        steps.push(step);
        let reply = if fail_at == Some(steps.len() - 1) {
            InjectReply::Failed("broken")
        } else {
            match step {
                InjectStep::FindModule => InjectReply::Address(10),
                InjectStep::FindProcedure { .. } => InjectReply::Address(20),
                InjectStep::Allocate { .. } => InjectReply::Address(30),
                InjectStep::StartThread { .. } => InjectReply::Address(40),
                InjectStep::Wait { .. } => InjectReply::WaitResult(wait),
                InjectStep::FetchLastError => InjectReply::Failed("wait"),
                InjectStep::ReadExitCode { .. } => InjectReply::ExitCode(5),
                InjectStep::WritePath { .. } | InjectStep::CloseThread { .. } => InjectReply::Done,
            }
        };
        match run.reply(reply) {
            InjectProgress::Continue(next) => run = next,
            InjectProgress::Finished(result) => return (steps, written, result),
        }
    }
}

#[test]
fn injection_makes_its_calls_in_order() {
    let (steps, written, result) = drive(0, None);
    assert_eq!(result, Ok(5));
    assert_eq!(written, vec![0x61, 0x2e, 0x64, 0x6c, 0x6c, 0]);
    assert_eq!(
        steps,
        vec![
            InjectStep::FindModule,
            InjectStep::FindProcedure { module: 10 },
            InjectStep::Allocate { start: 20, size: 12 },
            InjectStep::WritePath { start: 20, address: 30, size: 12 },
            InjectStep::StartThread { start: 20, parameter: 30 },
            InjectStep::Wait { thread: 40 },
            InjectStep::ReadExitCode { thread: 40 },
            InjectStep::CloseThread { thread: 40, code: 5 },
        ]
    );
}

#[test]
fn failed_wait_fetches_the_error() {
    for wait in [0x80, 0x102, 0xffff_ffff] {
        let (steps, _, result) = drive(wait, None);
        assert_eq!(result, Err("wait"));
        assert_eq!(steps.len(), 7);
        assert_eq!(steps[6], InjectStep::FetchLastError);
    }
}

#[test]
fn first_failure_ends_the_injection() {
    for at in [0, 3, 4, 6, 7] {
        let (steps, _, result) = drive(0, Some(at));
        assert_eq!(result, Err("broken"));
        assert_eq!(steps.len(), at + 1);
    }
}

#[test]
fn empty_path_is_a_terminator() {
    let run = InjectRun::begin(Vec::new());
    assert_eq!(*run.path(), vec![0]);
    assert_eq!(run.step(), InjectStep::FindModule);
}
