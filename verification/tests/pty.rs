use eclipse_core::callback::{Callback, Report};
use eclipse_core::environment::EnvOp;
use eclipse_core::pty::{
    error_screen_json, pack_size, unpack_size, LaunchPhase, LaunchStage, LaunchStep, OutputReader,
    PtyLaunch, PtySession, ReadAction, ReadEvent, ReadOutcome, ReadStep, ReaderPhase, TermSize,
};

fn size(cols: u16, rows: u16) -> TermSize {
    TermSize { cols, rows }
}

fn report(target: u64, callbacks: Vec<Callback>) -> Option<Report> {
    Some(Report { target, callbacks })
}

fn pair(name: &str, value: &str) -> (String, String) {
    (name.to_string(), value.to_string())
}

fn assign(name: &str, value: &str) -> EnvOp {
    EnvOp::Assign(name.to_string(), value.to_string())
}

fn planned(session: &PtySession, cols: u16, rows: u16) -> PtyLaunch {
    session.start("sh".to_string(), vec![], &vec![], "/work".to_string(), cols, rows, &vec![])
}

/// A session with a listener on which a command was launched, and the reader of its output.
fn launched(cols: u16, rows: u16) -> (PtySession, OutputReader) {
    let mut session = PtySession::new();
    session.register_callbacks(9);
    let mut launch = planned(&session, cols, rows);
    loop {
        match launch.step(&mut session, Ok(())) {
            LaunchStep::Next(_) => {}
            LaunchStep::Running(reader) => return (session, reader),
            LaunchStep::Failed(_) => unreachable!(),
        }
    }
}

/// The same, with the reader waiting for output.
fn reading(cols: u16, rows: u16) -> (PtySession, OutputReader) {
    let (mut session, mut reader) = launched(cols, rows);
    assert_eq!(
        reader.step(&mut session, ReadEvent::Begin),
        quiet(ReadAction::Open(size(cols, rows)))
    );
    assert_eq!(reader.step(&mut session, ReadEvent::Ready), quiet(ReadAction::Read));
    (session, reader)
}

fn quiet(action: ReadAction) -> ReadStep {
    ReadStep { report: None, action }
}

/// Reads the given number of bytes, which change nothing on the screen, and goes on.
fn read(session: &mut PtySession, reader: &mut OutputReader, n: usize) -> ReadAction {
    let step = reader.step(session, ReadEvent::Read(ReadOutcome::Bytes(n)));
    assert_eq!(step.report, None);
    assert_eq!(reader.step(session, ReadEvent::Processed(None)), quiet(ReadAction::GoOn));
    assert_eq!(reader.step(session, ReadEvent::Ready), quiet(ReadAction::Read));
    step.action
}

#[test]
fn sizes_are_packed_and_unpacked() {
    assert_eq!(pack_size(80, 24), 0x0050_0018);
    assert_eq!(unpack_size(0x0050_0018), (80, 24));
    assert_eq!(pack_size(0, 0), 0);
    assert_eq!(pack_size(65535, 65535), u32::MAX);
    for (cols, rows) in [(0, 1), (1, 0), (120, 40), (65535, 0), (0, 65535)] {
        assert_eq!(unpack_size(pack_size(cols, rows)), (cols, rows));
    }
}

#[test]
fn a_launch_goes_through_its_stages() {
    let mut session = PtySession::new();
    let mut launch = planned(&session, 80, 24);
    assert_eq!(launch.phase(), LaunchPhase::At(LaunchStage::Open));
    for stage in [LaunchStage::Spawn, LaunchStage::TakeWriter, LaunchStage::CloneReader] {
        assert_eq!(launch.step(&mut session, Ok(())), LaunchStep::Next(stage));
        assert_eq!(launch.phase(), LaunchPhase::At(stage));
        assert_eq!(session.write_input(b"x"), None);
        assert_eq!(session.resize(1, 1), None);
        assert!(!session.kill());
    }
    let mut session = PtySession::new();
    let mut reader = match launch.step(&mut session, Ok(())) {
        LaunchStep::Running(reader) => reader,
        step => panic!("{:?}", step),
    };
    assert_eq!(launch.phase(), LaunchPhase::Running);
    assert_eq!(session.write_input(b"x"), Some(&b"x"[..]));
    assert_eq!(reader.phase(), ReaderPhase::Starting);
    assert_eq!(
        reader.step(&mut session, ReadEvent::Begin),
        quiet(ReadAction::Open(size(80, 24)))
    );
    assert!(session.kill());
}

#[test]
fn a_launch_is_planned() {
    let session = PtySession::new();
    let launch = session.start(
        "sh".to_string(),
        vec!["-c".to_string(), "ls".to_string()],
        &vec![pair("A", "1"), pair("PATH", "/bin")],
        "/work".to_string(),
        80,
        24,
        &vec![pair("PATH", "/opt/bin")],
    );
    assert_eq!(launch.size(), size(80, 24));
    assert_eq!(launch.command().program, "sh");
    assert_eq!(launch.command().args, vec!["-c".to_string(), "ls".to_string()]);
    assert_eq!(launch.command().cwd, "/work");
    assert_eq!(
        launch.command().env,
        vec![assign("A", "1"), assign("PATH", "/bin"), assign("PATH", "/opt/bin")]
    );
}

#[test]
fn a_stage_that_fails_is_reported() {
    let messages = [
        "openpty failed: why",
        "spawn failed: why",
        "take_writer failed: why",
        "try_clone_reader failed: why",
    ];
    for (at, message) in messages.iter().enumerate() {
        for listens in [false, true] {
            let mut session = PtySession::new();
            if listens {
                session.register_callbacks(5);
            }
            let mut launch = planned(&session, 1, 1);
            for _ in 0..at {
                assert!(matches!(launch.step(&mut session, Ok(())), LaunchStep::Next(_)));
            }
            let expected = if listens {
                let screen = error_screen_json(message);
                report(5, vec![Callback::ScreenUpdate(screen), Callback::Exit])
            } else {
                None
            };
            assert_eq!(
                launch.step(&mut session, Err("why".to_string())),
                LaunchStep::Failed(expected)
            );
            assert_eq!(launch.phase(), LaunchPhase::Failed);
            assert_eq!(session.write_input(b"x"), None);
            assert_eq!(session.resize(2, 2), None);
            assert!(!session.kill());
        }
    }
}

#[test]
fn errors_are_shown_on_one_line() {
    assert_eq!(
        error_screen_json("a \"b\"\r\nc"),
        "{\"rows\":1,\"cols\":80,\"cy\":0,\"cx\":0,\"cv\":true,\"lines\":[{\"t\":\" Error: a \\\"b\\\" c \",\"s\":[]}]}"
    );
}

#[test]
fn error_screens_are_made_as_by_replacing() {
    for msg in ["", "plain", "q\"uote", "back\\slash", "\r\n\n\r", "\u{e9}\"\u{1f600}\n"] {
        let text = format!("\r\nError: {}\r\n", msg);
        let json = format!(
            "{{\"rows\":1,\"cols\":80,\"cy\":0,\"cx\":0,\"cv\":true,\"lines\":[{{\"t\":\"{}\",\"s\":[]}}]}}",
            text.replace('"', "\\\"").replace('\r', "").replace('\n', " ")
        );
        assert_eq!(error_screen_json(msg), json);
    }
}

#[test]
fn an_error_screen_is_json() {
    let json = error_screen_json("no \"such\" file\nhere");
    let value: serde_json::Value = serde_json::from_str(&json).unwrap();
    assert_eq!(value["lines"][0]["t"].as_str(), Some(" Error: no \"such\" file here "));
    assert_eq!(value["rows"].as_u64(), Some(1));
}

#[test]
fn a_message_without_backslashes_stays_in_its_string() {
    for msg in ["\"", "\"\"", "a\"},{\"b", "\r\"\n\""] {
        let value: serde_json::Value = serde_json::from_str(&error_screen_json(msg)).unwrap();
        let shown = format!(" Error: {} ", msg.replace('\r', "").replace('\n', " "));
        assert_eq!(value["lines"][0]["t"].as_str(), Some(shown.as_str()));
    }
}

#[test]
fn the_last_resize_is_taken_over_once() {
    let (mut session, mut reader) = reading(80, 24);
    assert_eq!(read(&mut session, &mut reader, 10), ReadAction::Process(None, 10));
    assert_eq!(session.resize(100, 30), Some(size(100, 30)));
    assert_eq!(session.resize(120, 40), Some(size(120, 40)));
    assert_eq!(
        read(&mut session, &mut reader, 7),
        ReadAction::Process(Some(size(120, 40)), 7)
    );
    assert_eq!(read(&mut session, &mut reader, 7), ReadAction::Process(None, 7));
    assert_eq!(session.resize(0, 0), Some(size(0, 0)));
    assert_eq!(read(&mut session, &mut reader, 7), ReadAction::Process(None, 7));
    assert_eq!(session.resize(0, 5), Some(size(0, 5)));
    assert_eq!(read(&mut session, &mut reader, 1), ReadAction::Process(Some(size(0, 5)), 1));
}

#[test]
fn a_resize_before_reading_begins_is_the_first_size() {
    let (mut session, mut reader) = launched(80, 24);
    session.resize(100, 30);
    assert_eq!(
        reader.step(&mut session, ReadEvent::Begin),
        quiet(ReadAction::Open(size(100, 30)))
    );
}

#[test]
fn reading_stops_at_the_end_and_on_errors() {
    for outcome in [ReadOutcome::Bytes(0), ReadOutcome::Failed] {
        let (mut session, mut reader) = reading(80, 24);
        assert_eq!(
            reader.step(&mut session, ReadEvent::Read(outcome)),
            ReadStep { report: report(9, vec![Callback::Exit]), action: ReadAction::Finish }
        );
        assert_eq!(reader.phase(), ReaderPhase::Done);
        assert!(!reader.accepts(&ReadEvent::Read(outcome)));
    }
}

#[test]
fn the_exit_is_reported_once_and_after_every_screen() {
    let (mut session, mut reader) = reading(80, 24);
    let mut made = vec![];
    for screen in [Some("one"), None, Some("two")] {
        let step = reader.step(&mut session, ReadEvent::Read(ReadOutcome::Bytes(3)));
        assert_eq!(step, quiet(ReadAction::Process(None, 3)));
        let screen = screen.map(|s| s.to_string());
        let step = reader.step(&mut session, ReadEvent::Processed(screen));
        made.extend(step.report);
        assert_eq!(step.action, ReadAction::GoOn);
        session.register_callbacks(10);
        assert_eq!(reader.step(&mut session, ReadEvent::Ready), quiet(ReadAction::Read));
    }
    let step = reader.step(&mut session, ReadEvent::Read(ReadOutcome::Bytes(0)));
    made.extend(step.report);
    assert_eq!(step.action, ReadAction::Finish);
    let made: Vec<(u64, Vec<Callback>)> =
        made.into_iter().map(|r| (r.target, r.callbacks)).collect();
    assert_eq!(
        made,
        vec![
            (9, vec![Callback::ScreenUpdate("one".to_string())]),
            (10, vec![Callback::ScreenUpdate("two".to_string())]),
            (10, vec![Callback::Exit]),
        ]
    );
}

#[test]
fn a_reader_takes_only_events_that_it_waits_for() {
    let accepted = |reader: &OutputReader| -> Vec<bool> {
        [
            ReadEvent::Begin,
            ReadEvent::Ready,
            ReadEvent::Read(ReadOutcome::Failed),
            ReadEvent::Processed(None),
        ]
        .iter()
        .map(|e| reader.accepts(e))
        .collect()
    };
    let (mut session, mut reader) = launched(80, 24);
    assert_eq!(accepted(&reader), [true, false, false, false]);
    reader.step(&mut session, ReadEvent::Begin);
    assert_eq!(accepted(&reader), [false, true, false, false]);
    reader.step(&mut session, ReadEvent::Ready);
    assert_eq!(accepted(&reader), [false, false, true, false]);
    reader.step(&mut session, ReadEvent::Read(ReadOutcome::Bytes(1)));
    assert_eq!(accepted(&reader), [false, false, false, true]);
    reader.step(&mut session, ReadEvent::Processed(None));
    reader.step(&mut session, ReadEvent::Ready);
    reader.step(&mut session, ReadEvent::Read(ReadOutcome::Failed));
    assert_eq!(accepted(&reader), [false; 4]);
}

#[test]
fn without_a_listener_nothing_is_reported() {
    let mut session = PtySession::new();
    let mut launch = planned(&session, 80, 24);
    let mut reader = loop {
        if let LaunchStep::Running(reader) = launch.step(&mut session, Ok(())) {
            break reader;
        }
    };
    reader.step(&mut session, ReadEvent::Begin);
    reader.step(&mut session, ReadEvent::Ready);
    reader.step(&mut session, ReadEvent::Read(ReadOutcome::Bytes(1)));
    assert_eq!(
        reader.step(&mut session, ReadEvent::Processed(Some("{}".to_string()))),
        quiet(ReadAction::GoOn)
    );
    reader.step(&mut session, ReadEvent::Ready);
    assert_eq!(
        reader.step(&mut session, ReadEvent::Read(ReadOutcome::Failed)),
        quiet(ReadAction::Finish)
    );
}

#[test]
fn a_session_that_was_ended_is_silent() {
    let (mut session, mut reader) = reading(80, 24);
    assert!(session.kill());
    assert_eq!(session.resize(1, 1), None);
    assert_eq!(session.write_input(b"x"), Some(&b"x"[..]));
    assert_eq!(
        reader.step(&mut session, ReadEvent::Read(ReadOutcome::Bytes(0))),
        quiet(ReadAction::Finish)
    );
    assert_eq!(reader.phase(), ReaderPhase::Done);
}

#[test]
fn an_ended_session_shows_what_was_read_and_stops() {
    let (mut session, mut reader) = reading(80, 24);
    reader.step(&mut session, ReadEvent::Read(ReadOutcome::Bytes(2)));
    session.kill();
    assert_eq!(
        reader.step(&mut session, ReadEvent::Processed(Some("{}".to_string()))).report,
        report(9, vec![Callback::ScreenUpdate("{}".to_string())])
    );
    assert_eq!(reader.step(&mut session, ReadEvent::Ready), quiet(ReadAction::Finish));
    assert_eq!(reader.phase(), ReaderPhase::Done);
}

#[test]
fn a_session_that_was_ended_stays_ended() {
    let mut session = PtySession::new();
    assert!(!session.kill());
    let mut launch = planned(&session, 1, 1);
    let mut reader = loop {
        if let LaunchStep::Running(reader) = launch.step(&mut session, Ok(())) {
            break reader;
        }
    };
    reader.step(&mut session, ReadEvent::Begin);
    assert_eq!(reader.step(&mut session, ReadEvent::Ready), quiet(ReadAction::Finish));
}

#[test]
fn errors_are_reported_to_the_latest_listener() {
    let mut session = PtySession::new();
    assert_eq!(session.write_error("x"), None);
    session.register_callbacks(1);
    session.register_callbacks(2);
    assert_eq!(
        session.write_error("x"),
        report(2, vec![Callback::ScreenUpdate(error_screen_json("x")), Callback::Exit])
    );
}
