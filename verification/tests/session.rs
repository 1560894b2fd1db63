use cloudguard::errors::SessionError;
use cloudguard::session::Session;
use cloudguard::session::SessionAction;
use cloudguard::session::SessionEvent;
use cloudguard::session::SessionState;
use cloudguard::session::shell_command;
use cloudguard::session::sync_command;

fn s(v: &str) -> String {
    String::from(v)
}

#[test]
fn stopped_instance_fails_before_any_spawn() {
    // a stopped instance resolves no endpoint: the session must abort at
    // resolution, with no copy and no shell command ever issued
    let session = Session::new(s("i-123"), None);
    let (session, a1) = session.step(SessionEvent::ConfigLoaded { key_path: Some(s("/keys/dev.pem")) });
    assert!(matches!(a1, SessionAction::HardenKey { .. }));
    let (session, a2) = session.step(SessionEvent::HardenDone { ok: true });
    assert!(matches!(a2, SessionAction::ResolveEndpoint { .. }));
    let (session, a3) = session.step(SessionEvent::EndpointResolved { endpoint: None });
    assert!(matches!(a3, SessionAction::Abort { error: SessionError::NoEndpoint }));
    assert_eq!(session.state, SessionState::Failed);
    // none of the three actions was a process spawn
    for a in [&a1, &a2, &a3] {
        assert!(!matches!(a, SessionAction::RunSync { .. }));
        assert!(!matches!(a, SessionAction::RunShell { .. }));
    }
}

#[test]
fn mounted_session_syncs_before_shell() {
    let session = Session::new(s("i-42"), Some(s("/local/data")));
    let (session, a) = session.step(SessionEvent::ConfigLoaded { key_path: Some(s("/k")) });
    match &a {
        SessionAction::HardenKey { key_path } => assert_eq!(key_path, "/k"),
        _ => panic!("expected the hardening step first"),
    }
    let (session, a) = session.step(SessionEvent::HardenDone { ok: true });
    match &a {
        SessionAction::ResolveEndpoint { instance_id } => assert_eq!(instance_id, "i-42"),
        _ => panic!("expected endpoint resolution after hardening"),
    }
    let (session, a) = session.step(SessionEvent::EndpointResolved { endpoint: Some(s("1.2.3.4")) });
    // the copy targets the remote home directory, before any shell step
    match &a {
        SessionAction::RunSync { command } => {
            assert_eq!(command, "scp -i /k -r /local/data ubuntu@1.2.3.4:/home/ubuntu");
        },
        _ => panic!("expected the sync step before the shell"),
    }
    let (session, a) = session.step(SessionEvent::SyncDone { ok: true });
    assert_eq!(session.state, SessionState::Synced);
    match &a {
        SessionAction::RunShell { command } => {
            assert_eq!(command, "ssh -t -o StrictHostKeyChecking=no -i /k ubuntu@1.2.3.4");
        },
        _ => panic!("expected the shell step after the sync completed"),
    }
    let (session, a) = session.step(SessionEvent::ShellStarted { ok: true });
    assert_eq!(session.state, SessionState::Connected);
    assert!(matches!(a, SessionAction::WaitShell));
    let (session, a) = session.step(SessionEvent::ShellExited);
    assert_eq!(session.state, SessionState::Closed);
    assert!(matches!(a, SessionAction::Finish));
}

#[test]
fn unmounted_session_skips_sync() {
    let session = Session::new(s("i-7"), None);
    let (session, _) = session.step(SessionEvent::ConfigLoaded { key_path: Some(s("/id")) });
    let (session, _) = session.step(SessionEvent::HardenDone { ok: true });
    let (session, a) = session.step(SessionEvent::EndpointResolved { endpoint: Some(s("host.example")) });
    match &a {
        SessionAction::RunShell { command } => {
            assert_eq!(command, "ssh -t -o StrictHostKeyChecking=no -i /id ubuntu@host.example");
        },
        _ => panic!("expected the shell directly when no mount was requested"),
    }
    let (session, _) = session.step(SessionEvent::ShellStarted { ok: true });
    let (session, a) = session.step(SessionEvent::ShellExited);
    assert_eq!(session.state, SessionState::Closed);
    assert!(matches!(a, SessionAction::Finish));
}

#[test]
fn missing_key_configuration_is_fatal() {
    let session = Session::new(s("i-1"), None);
    let (session, a) = session.step(SessionEvent::ConfigLoaded { key_path: None });
    assert!(matches!(a, SessionAction::Abort { error: SessionError::MissingKeyConfig }));
    assert_eq!(session.state, SessionState::Failed);
}

#[test]
fn failed_hardening_is_fatal() {
    let session = Session::new(s("i-1"), None);
    let (session, _) = session.step(SessionEvent::ConfigLoaded { key_path: Some(s("/k")) });
    let (session, a) = session.step(SessionEvent::HardenDone { ok: false });
    assert!(matches!(a, SessionAction::Abort { error: SessionError::HardenFailed }));
    assert_eq!(session.state, SessionState::Failed);
}

#[test]
fn failed_sync_is_fatal_and_no_shell_follows() {
    let session = Session::new(s("i-1"), Some(s("/d")));
    let (session, _) = session.step(SessionEvent::ConfigLoaded { key_path: Some(s("/k")) });
    let (session, _) = session.step(SessionEvent::HardenDone { ok: true });
    let (session, _) = session.step(SessionEvent::EndpointResolved { endpoint: Some(s("9.9.9.9")) });
    let (session, a) = session.step(SessionEvent::SyncDone { ok: false });
    assert!(matches!(a, SessionAction::Abort { error: SessionError::SyncFailed }));
    assert_eq!(session.state, SessionState::Failed);
}

#[test]
fn failed_shell_spawn_is_fatal() {
    let session = Session::new(s("i-1"), None);
    let (session, _) = session.step(SessionEvent::ConfigLoaded { key_path: Some(s("/k")) });
    let (session, _) = session.step(SessionEvent::HardenDone { ok: true });
    let (session, _) = session.step(SessionEvent::EndpointResolved { endpoint: Some(s("h")) });
    let (session, a) = session.step(SessionEvent::ShellStarted { ok: false });
    assert!(matches!(a, SessionAction::Abort { error: SessionError::ShellFailed }));
    assert_eq!(session.state, SessionState::Failed);
}

#[test]
fn command_builders_produce_exact_strings() {
    assert_eq!(
        sync_command(&s("/home/me/key.pem"), &s("./models"), &s("ec2-3-4.compute.amazonaws.com")),
        "scp -i /home/me/key.pem -r ./models ubuntu@ec2-3-4.compute.amazonaws.com:/home/ubuntu"
    );
    assert_eq!(
        shell_command(&s("/home/me/key.pem"), &s("ec2-3-4.compute.amazonaws.com")),
        "ssh -t -o StrictHostKeyChecking=no -i /home/me/key.pem ubuntu@ec2-3-4.compute.amazonaws.com"
    );
}
