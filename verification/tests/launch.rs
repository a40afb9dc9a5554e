use me3_attach::launcher::launch::{
    elevation_message, LaunchError, LaunchProgress, LaunchReply, LaunchRun, LaunchStep, Stream,
};
use me3_attach::launcher::messages::{relay, MsgToParent, RelayAction, Sink};

fn wide(text: &str) -> Vec<u16> {
    text.encode_utf16().collect()
}

struct Launched {
    steps: Vec<LaunchStep>,
    directory: Vec<u16>,
    result: Result<(), LaunchError<&'static str>>,
}

fn drive(
    directory: Option<Vec<u16>>,
    current: Option<Vec<u16>>,
    fail_at: Option<LaunchStep>,
    os_error: Option<i32>,
) -> Launched {
    let args = vec!["-a".to_string(), "b".to_string()];
    let mut run = LaunchRun::begin(wide("game.exe"), args.clone(), directory);
    let mut steps = Vec::new();
    loop {
        let step = run.step();
        steps.push(step);
        let command = run.command();
        assert_eq!(command.program, wide("game.exe"));
        assert_eq!(command.args, args);
        assert_eq!(command.creation_flags, 4);
        assert_eq!(
            (command.stdin, command.stdout, command.stderr),
            (Stream::Null, Stream::Null, Stream::Null)
        );
        let seen = command.directory.clone();
        let reply = match step {
            LaunchStep::ReadCurrentDirectory => LaunchReply::Directory(current.clone()),
            LaunchStep::Spawn if fail_at == Some(step) => {
                LaunchReply::SpawnFailed { os_error, source: "spawn" }
            }
            _ if fail_at == Some(step) => LaunchReply::Failed("broken"),
            _ => LaunchReply::Done,
        };
        match run.reply(reply) {
            LaunchProgress::Continue(next) => run = next,
            LaunchProgress::Finished(result) => {
                return Launched { steps, directory: seen, result };
            }
        }
    }
}

#[test]
fn launch_prepares_and_spawns() {
    let launched = drive(Some(wide("D:\\game")), Some(wide("C:\\")), None, None);
    assert!(launched.result.is_ok());
    assert_eq!(launched.directory, wide("D:\\game"));
    assert_eq!(
        launched.steps,
        vec![
            LaunchStep::ReadTelemetry,
            LaunchStep::StampTraceId,
            LaunchStep::StoreTelemetry,
            LaunchStep::CreateBridge { capacity: 32 },
            LaunchStep::Spawn,
        ]
    );
}

#[test]
fn directory_falls_back() {
    let here = drive(None, Some(wide("C:\\here")), None, None);
    assert_eq!(here.steps[0], LaunchStep::ReadCurrentDirectory);
    assert_eq!(here.directory, wide("C:\\here"));
    let nowhere = drive(None, None, None, None);
    assert_eq!(nowhere.directory, wide("."));
}

#[test]
fn launch_errors_say_what_failed() {
    let telemetry = drive(None, None, Some(LaunchStep::ReadTelemetry), None);
    assert!(matches!(telemetry.result, Err(LaunchError::Telemetry("broken"))));
    let bridge = drive(None, None, Some(LaunchStep::CreateBridge { capacity: 32 }), None);
    assert!(matches!(bridge.result, Err(LaunchError::Bridge("broken"))));
    let elevation = drive(None, None, Some(LaunchStep::Spawn), Some(740));
    assert!(matches!(elevation.result, Err(LaunchError::ElevationRequired)));
    for os_error in [None, Some(2), Some(-740)] {
        let spawn = drive(None, None, Some(LaunchStep::Spawn), os_error);
        assert!(matches!(spawn.result, Err(LaunchError::Spawn("spawn"))));
    }
    assert_eq!(
        elevation_message(),
        "Elevation is required to launch the game. Disable \"Run this program as an administrator\" and try again."
    );
}

#[test]
fn messages_are_relayed() {
    assert!(matches!(
        relay::<u8, ()>(Ok(MsgToParent::Response(9))),
        RelayAction::Forward(9)
    ));
    assert!(matches!(
        relay::<u8, ()>(Ok(MsgToParent::ConsoleLog("h\u{e9}".to_string()))),
        RelayAction::Write { sink: Sink::Console, bytes } if bytes == [0x68, 0xc3, 0xa9]
    ));
    assert!(matches!(
        relay::<u8, ()>(Ok(MsgToParent::FileLog("f\n".to_string()))),
        RelayAction::Write { sink: Sink::File, bytes } if bytes == b"f\n"
    ));
    assert!(matches!(relay::<u8, i32>(Err(3)), RelayAction::ReportFailure(3)));
}

#[test]
fn responses_are_forwarded_in_order() {
    let received: Vec<Result<MsgToParent<u8>, ()>> = vec![
        Ok(MsgToParent::Response(3)),
        Err(()),
        Ok(MsgToParent::FileLog("x".to_string())),
        Ok(MsgToParent::Response(1)),
        Ok(MsgToParent::Response(3)),
    ];
    let mut forwarded = Vec::new();
    for r in received {
        if let RelayAction::Forward(response) = relay(r) {
            forwarded.push(response);
        }
    }
    assert_eq!(forwarded, [3, 1, 3]);
}

#[test]
fn sinks_do_not_mix() {
    let received: Vec<Result<MsgToParent<u8>, ()>> = vec![
        Ok(MsgToParent::ConsoleLog("a".to_string())),
        Ok(MsgToParent::FileLog("1".to_string())),
        Err(()),
        Ok(MsgToParent::ConsoleLog("b".to_string())),
        Ok(MsgToParent::Response(0)),
        Ok(MsgToParent::FileLog("2".to_string())),
    ];
    let mut console = Vec::new();
    let mut file = Vec::new();
    for r in received {
        match relay(r) {
            RelayAction::Write { sink: Sink::Console, bytes } => console.extend(bytes),
            RelayAction::Write { sink: Sink::File, bytes } => file.extend(bytes),
            _ => {}
        }
    }
    assert_eq!(console, b"ab");
    assert_eq!(file, b"12");
}
