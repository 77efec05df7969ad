use issue_marionette::engine::{
    EngineError, OutputEvent, PtyCommand, SessionEngine, SessionKind, SetupOutcome,
};
use issue_marionette::models::agent::{AgentMode, AgentStatus};
use issue_marionette::pump::Transport;

fn ready_shell(engine: &mut SessionEngine, wd: &str) -> String {
    engine
        .create_session(
            SessionKind::Shell,
            wd.to_string(),
            "",
            SetupOutcome::Ready,
        )
        .expect("shell session should register")
}

#[test]
fn create_registers_a_fresh_id() {
    let mut engine = SessionEngine::new();
    let id = ready_shell(&mut engine, "/tmp/x");
    assert_eq!(id.len(), 36);
    assert_eq!(engine.get_status(&id), Some(AgentStatus::Running));
}

#[test]
fn create_failure_leaves_registry_unchanged() {
    let mut engine = SessionEngine::new();
    let survivor = ready_shell(&mut engine, "/tmp/x");
    let r = engine.create_session(
        SessionKind::Shell,
        "/definitely/not/there".to_string(),
        "",
        SetupOutcome::Failed("Failed to open PTY: no such directory".to_string()),
    );
    match r {
        Err(EngineError::Setup(m)) => {
            assert_eq!(m, "Failed to open PTY: no such directory");
        }
        _ => panic!("setup failure must surface as a setup error"),
    }
    // the registry is exactly as it was: the earlier session is still there
    assert_eq!(engine.get_status(&survivor), Some(AgentStatus::Running));
}

#[test]
fn register_rejects_a_taken_id() {
    let mut engine = SessionEngine::new();
    let first = engine
        .register_session(
            "fixed-id".to_string(),
            SessionKind::Shell,
            "/tmp/x".to_string(),
            "",
            "t".to_string(),
            SetupOutcome::Ready,
        )
        .expect("first registration succeeds");
    assert_eq!(first, "fixed-id");
    let second = engine.register_session(
        "fixed-id".to_string(),
        SessionKind::Shell,
        "/tmp/y".to_string(),
        "",
        "t".to_string(),
        SetupOutcome::Ready,
    );
    match second {
        Err(EngineError::Setup(m)) => assert_eq!(m, "session id already registered"),
        _ => panic!("an identifier maps to at most one live session"),
    }
}

#[test]
fn close_makes_id_unreachable() {
    let mut engine = SessionEngine::new();
    let id = ready_shell(&mut engine, "/tmp/x");
    engine.close(&id).expect("closing a live session succeeds");
    assert_eq!(engine.get_status(&id), None);
    match engine.write(&id, b"hello") {
        Err(EngineError::NotFound(s)) => assert_eq!(s, id),
        _ => panic!("a write to a closed session must report not found"),
    }
}

#[test]
fn close_twice_reports_not_found() {
    let mut engine = SessionEngine::new();
    let id = ready_shell(&mut engine, "/tmp/x");
    assert!(engine.close(&id).is_ok());
    match engine.close(&id) {
        Err(EngineError::NotFound(_)) => {}
        _ => panic!("a second close is not a silent success"),
    }
}

#[test]
fn close_unknown_reports_not_found() {
    let mut engine = SessionEngine::new();
    match engine.close("nobody-home") {
        Err(EngineError::NotFound(s)) => assert_eq!(s, "nobody-home"),
        _ => panic!("closing an unknown id must report not found"),
    }
}

#[test]
fn writes_reach_transport_in_order() {
    let mut engine = SessionEngine::new();
    let id = ready_shell(&mut engine, "/tmp/x");
    engine.write(&id, b"A").unwrap();
    engine.write(&id, b"B").unwrap();
    engine.write(&id, b"C").unwrap();
    let cmds = engine.take_commands(&id).unwrap();
    let mut transport = Transport::new(80, 24);
    transport.run_queue(&cmds);
    assert_eq!(transport.written, b"ABC".to_vec());
    assert!(!transport.shut);
}

#[test]
fn resize_and_close_apply_in_queue_order() {
    let mut engine = SessionEngine::new();
    let id = ready_shell(&mut engine, "/tmp/x");
    engine.resize(&id, 100, 50).unwrap();
    engine.resize(&id, 120, 40).unwrap();
    engine.write(&id, b"after resizes").unwrap();
    let cmds = engine.take_commands(&id).unwrap();
    let mut transport = Transport::new(80, 24);
    transport.run_queue(&cmds);
    // both resizes applied, in order: the later one wins
    assert_eq!((transport.cols, transport.rows), (120, 40));
    assert_eq!(transport.written, b"after resizes".to_vec());
}

#[test]
fn nothing_is_applied_after_a_close_command() {
    let cmds = vec![
        PtyCommand::Write(b"kept".to_vec()),
        PtyCommand::Close,
        PtyCommand::Write(b"dropped".to_vec()),
        PtyCommand::Resize(10, 10),
    ];
    let mut transport = Transport::new(80, 24);
    transport.run_queue(&cmds);
    assert_eq!(transport.written, b"kept".to_vec());
    assert!(transport.shut);
    assert_eq!((transport.cols, transport.rows), (80, 24));
}

#[test]
fn eof_completes_and_read_failure_errors() {
    let mut engine = SessionEngine::new();
    let done = ready_shell(&mut engine, "/tmp/x");
    let broken = ready_shell(&mut engine, "/tmp/y");

    let d = engine.on_output_event(&done, OutputEvent::Eof, "t1".to_string());
    assert!(d.stop);
    assert_eq!(engine.get_status(&done), Some(AgentStatus::Completed));

    let d = engine.on_output_event(&broken, OutputEvent::ReadFailed, "t1".to_string());
    assert!(d.stop);
    assert_eq!(engine.get_status(&broken), Some(AgentStatus::Error));
}

#[test]
fn rejected_emission_errors_the_session() {
    let mut engine = SessionEngine::new();
    let id = engine
        .create_session(
            SessionKind::Agent(AgentMode::Act),
            "/tmp/x".to_string(),
            "",
            SetupOutcome::Ready,
        )
        .unwrap();
    let d = engine.on_output_event(&id, OutputEvent::EmitRejected, "t1".to_string());
    assert!(d.stop);
    assert_eq!(d.emit_status, Some(AgentStatus::Error));
    assert_eq!(engine.get_status(&id), Some(AgentStatus::Error));
}

#[test]
fn data_is_forwarded_and_session_stays_running() {
    let mut engine = SessionEngine::new();
    let id = ready_shell(&mut engine, "/tmp/x");
    let d = engine.on_output_event(&id, OutputEvent::Data(b"out".to_vec()), "t1".to_string());
    assert_eq!(d.emit_output, Some(b"out".to_vec()));
    assert_eq!(d.emit_status, None);
    assert!(!d.stop);
    assert_eq!(engine.get_status(&id), Some(AgentStatus::Running));
}

#[test]
fn shell_sessions_report_no_status_event() {
    let mut engine = SessionEngine::new();
    let id = ready_shell(&mut engine, "/tmp/x");
    let d = engine.on_output_event(&id, OutputEvent::Eof, "t1".to_string());
    assert_eq!(d.emit_status, None);
    // the registry still records the terminal state
    assert_eq!(engine.get_status(&id), Some(AgentStatus::Completed));
}

#[test]
fn agent_sessions_report_their_completion() {
    let mut engine = SessionEngine::new();
    let id = engine
        .create_session(
            SessionKind::Agent(AgentMode::Plan),
            "/tmp/x".to_string(),
            "",
            SetupOutcome::Ready,
        )
        .unwrap();
    let d = engine.on_output_event(&id, OutputEvent::Eof, "t1".to_string());
    assert_eq!(d.emit_status, Some(AgentStatus::Completed));
}

#[test]
fn terminal_states_are_never_left() {
    let mut engine = SessionEngine::new();
    let id = ready_shell(&mut engine, "/tmp/x");
    engine.on_output_event(&id, OutputEvent::Eof, "t1".to_string());
    assert_eq!(engine.get_status(&id), Some(AgentStatus::Completed));
    // a stale failure arriving later changes nothing
    let d = engine.on_output_event(&id, OutputEvent::ReadFailed, "t2".to_string());
    assert!(d.stop);
    assert_eq!(d.emit_status, None);
    assert_eq!(engine.get_status(&id), Some(AgentStatus::Completed));
}

#[test]
fn events_for_closed_sessions_are_swallowed() {
    let mut engine = SessionEngine::new();
    let id = ready_shell(&mut engine, "/tmp/x");
    engine.close(&id).unwrap();
    let d = engine.on_output_event(&id, OutputEvent::Data(b"late".to_vec()), "t1".to_string());
    assert_eq!(d.emit_output, None);
    assert_eq!(d.emit_status, None);
    assert!(d.stop);
    assert_eq!(engine.get_status(&id), None);
}

#[test]
fn two_sessions_have_distinct_ids_and_independent_queues() {
    let mut engine = SessionEngine::new();
    let one = ready_shell(&mut engine, "/tmp/one");
    let two = ready_shell(&mut engine, "/tmp/two");
    assert_ne!(one, two);

    // a long write queued for session one never touches session two
    engine.write(&one, &vec![b'x'; 1 << 16]).unwrap();
    let cmds_two = engine.take_commands(&two).unwrap();
    assert!(cmds_two.is_empty());
    assert_eq!(engine.get_status(&two), Some(AgentStatus::Running));

    let cmds_one = engine.take_commands(&one).unwrap();
    let mut transport = Transport::new(80, 24);
    transport.run_queue(&cmds_one);
    assert_eq!(transport.written.len(), 1 << 16);
}

#[test]
fn shell_session_round_trip() {
    let mut engine = SessionEngine::new();
    let id = engine
        .create_session(
            SessionKind::Shell,
            "/tmp/x".to_string(),
            "",
            SetupOutcome::Ready,
        )
        .expect("create returns an id");
    assert_eq!(engine.get_status(&id), Some(AgentStatus::Running));

    engine.write(&id, b"echo hi\n").unwrap();
    let cmds = engine.take_commands(&id).unwrap();
    let mut transport = Transport::new(80, 24);
    transport.run_queue(&cmds);
    assert_eq!(transport.written, b"echo hi\n".to_vec());

    engine.close(&id).unwrap();
    assert_eq!(engine.get_status(&id), None);
}

#[test]
fn agent_context_is_the_first_write() {
    let mut engine = SessionEngine::new();
    let id = engine
        .create_session(
            SessionKind::Agent(AgentMode::Act),
            "/tmp/wt".to_string(),
            "fix bug #3",
            SetupOutcome::Ready,
        )
        .unwrap();
    // a caller-issued write lands behind the initial context
    engine.write(&id, b"and then this").unwrap();
    let cmds = engine.take_commands(&id).unwrap();
    let mut transport = Transport::new(80, 24);
    transport.run_queue(&cmds);
    assert!(transport.written.starts_with(b"fix bug #3\n"));
    assert_eq!(transport.written, b"fix bug #3\nand then this".to_vec());
}

#[test]
fn empty_context_queues_nothing() {
    let mut engine = SessionEngine::new();
    let id = engine
        .create_session(
            SessionKind::Agent(AgentMode::Act),
            "/tmp/wt".to_string(),
            "",
            SetupOutcome::Ready,
        )
        .unwrap();
    let cmds = engine.take_commands(&id).unwrap();
    assert!(cmds.is_empty());
}

#[test]
fn invalid_working_directory_registers_nothing() {
    let mut engine = SessionEngine::new();
    let r = engine.create_session(
        SessionKind::Shell,
        "/no/such/dir".to_string(),
        "",
        SetupOutcome::Failed("Failed to spawn command: no such directory".to_string()),
    );
    let err = r.expect_err("a failed spawn is a failed create");
    assert_eq!(
        err.message(),
        "Failed to create session: Failed to spawn command: no such directory"
    );
    // no partial session: nothing new answers to any status query we can make
    match engine.write("anything", b"x") {
        Err(EngineError::NotFound(_)) => {}
        _ => panic!("the registry must be unchanged"),
    }
}

#[test]
fn get_session_reports_agent_sessions_only() {
    let mut engine = SessionEngine::new();
    let agent = engine
        .create_session(
            SessionKind::Agent(AgentMode::Plan),
            "/tmp/wt".to_string(),
            "",
            SetupOutcome::Ready,
        )
        .unwrap();
    let shell = ready_shell(&mut engine, "/tmp/x");

    let record = engine.get_session(&agent).expect("agent sessions have a record");
    assert_eq!(record.id, agent);
    assert_eq!(record.worktree_path, "/tmp/wt");
    assert_eq!(record.mode, AgentMode::Plan);
    assert_eq!(record.status, AgentStatus::Running);
    assert!(!record.started_at.is_empty());
    assert!(record.completed_at.is_none());

    assert!(engine.get_session(&shell).is_none());
    assert!(engine.get_session("unknown").is_none());

    engine.on_output_event(&agent, OutputEvent::Eof, "t9".to_string());
    let finished = engine.get_session(&agent).unwrap();
    assert_eq!(finished.status, AgentStatus::Completed);
    assert_eq!(finished.completed_at, Some("t9".to_string()));
}

#[test]
fn creation_announces_running_for_agents_only() {
    assert_eq!(
        SessionKind::Agent(AgentMode::Plan).creation_status(),
        Some(AgentStatus::Running)
    );
    assert_eq!(
        SessionKind::Agent(AgentMode::Act).creation_status(),
        Some(AgentStatus::Running)
    );
    assert_eq!(SessionKind::Shell.creation_status(), None);
}
