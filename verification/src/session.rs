//! The remote-session orchestrator.
//!
//! A session provisions a local-to-remote working environment against a
//! running instance: it hardens the permissions of a credential file, then —
//! only after the instance's public endpoint resolves — optionally copies a
//! local directory to the remote home directory, and finally opens an
//! interactive remote shell. The orchestration is a state machine: `step`
//! consumes the outcome of the previous external action and decides the next
//! one, and the surrounding program performs the I/O. Every failure — missing
//! configuration, failed hardening, unresolved endpoint, failed copy or
//! spawn — aborts the remaining sequence with no rollback.

use crate::errors::SessionError;
use vstd::prelude::*;
use vstd::string::StringExecFns;

verus! {

/// How far the session has come. `Synced` occurs only when a directory
/// synchronization was requested; `Failed` is terminal, as is `Closed`.
#[derive(Clone, Copy, Debug, PartialEq, Eq, Structural)]
pub enum SessionState {
    /// Nothing established yet; configuration and hardening are pending.
    Idle,
    /// The credential file's permissions are hardened.
    KeyHardened,
    /// The requested directory synchronization has completed.
    Synced,
    /// The interactive remote shell is open.
    Connected,
    /// The shell has exited; the session is over.
    Closed,
    /// A step failed; the remaining sequence is abandoned.
    Failed,
}

/// A session in progress: the milestone reached and the values established
/// so far. The credential path appears once configuration is read, the
/// endpoint once resolution succeeds.
pub struct Session {
    pub state: SessionState,
    pub instance_id: String,
    pub mount_dir: Option<String>,
    pub key_path: Option<String>,
    pub endpoint: Option<String>,
}

/// The outcome of the external action the orchestrator asked for last.
pub enum SessionEvent {
    /// The credential-file path was read from configuration, if set.
    ConfigLoaded { key_path: Option<String> },
    /// The permission-hardening command completed, or failed to.
    HardenDone { ok: bool },
    /// Endpoint resolution returned an address, or found none.
    EndpointResolved { endpoint: Option<String> },
    /// The directory copy process ran to completion, or failed to.
    SyncDone { ok: bool },
    /// The shell process was spawned, or could not be.
    ShellStarted { ok: bool },
    /// The shell process exited, with whatever status.
    ShellExited,
}

/// What the orchestrator asks the surrounding program to do next.
pub enum SessionAction {
    /// Restrict the credential file at this path to owner-read-only, and
    /// wait for the change to complete before going on.
    HardenKey { key_path: String },
    /// Describe this instance and resolve its public endpoint.
    ResolveEndpoint { instance_id: String },
    /// Run this copy command and block until it exits.
    RunSync { command: String },
    /// Spawn this interactive shell command.
    RunShell { command: String },
    /// Block until the shell process exits.
    WaitShell,
    /// Abandon the session and report this failure.
    Abort { error: SessionError },
    /// The session is over; report completion.
    Finish,
}

/// The copy command that synchronizes a local directory to the remote home
/// directory, authenticated with the hardened credential file.
pub open spec fn sync_command_spec(key: Seq<char>, mount: Seq<char>, endpoint: Seq<char>) -> Seq<
    char,
> {
    "scp -i "@ + key + " -r "@ + mount + " ubuntu@"@ + endpoint + ":/home/ubuntu"@
}

/// The interactive shell command, with host-key strictness relaxed so that
/// no interactive prompt blocks automation.
pub open spec fn shell_command_spec(key: Seq<char>, endpoint: Seq<char>) -> Seq<char> {
    "ssh -t -o StrictHostKeyChecking=no -i "@ + key + " ubuntu@"@ + endpoint
}

/// Builds the directory synchronization command.
pub fn sync_command(key: &String, mount: &String, endpoint: &String) -> (r: String)
    ensures
        r@ == sync_command_spec(key@, mount@, endpoint@),
{
    let mut c: String = "scp -i ".to_owned();
    c.append(key.as_str());
    c.append(" -r ");
    c.append(mount.as_str());
    c.append(" ubuntu@");
    c.append(endpoint.as_str());
    c.append(":/home/ubuntu");
    c
}

/// Builds the interactive shell command.
pub fn shell_command(key: &String, endpoint: &String) -> (r: String)
    ensures
        r@ == shell_command_spec(key@, endpoint@),
{
    let mut c: String = "ssh -t -o StrictHostKeyChecking=no -i ".to_owned();
    c.append(key.as_str());
    c.append(" ubuntu@");
    c.append(endpoint.as_str());
    c
}

impl Session {
    /// Internal consistency: each milestone implies the values it rests on.
    pub open spec fn wf(self) -> bool {
        &&& (self.state is Idle ==> self.endpoint is None)
        &&& (self.state is KeyHardened ==> self.key_path is Some)
        &&& (self.state is Synced ==> self.key_path is Some && self.endpoint is Some
            && self.mount_dir is Some)
        &&& (self.state is Connected ==> self.key_path is Some && self.endpoint is Some)
    }

    /// Which event may answer the session in its current state: exactly the
    /// outcome of the action that `step` asked for last.
    pub open spec fn expects(self, ev: SessionEvent) -> bool {
        match self.state {
            SessionState::Idle => match ev {
                SessionEvent::ConfigLoaded { .. } => self.key_path is None,
                SessionEvent::HardenDone { .. } => self.key_path is Some,
                _ => false,
            },
            SessionState::KeyHardened => match ev {
                SessionEvent::EndpointResolved { .. } => self.endpoint is None,
                SessionEvent::SyncDone { .. } => self.endpoint is Some && self.mount_dir is Some,
                SessionEvent::ShellStarted { .. } => self.endpoint is Some
                    && self.mount_dir is None,
                _ => false,
            },
            SessionState::Synced => ev matches SessionEvent::ShellStarted { .. },
            SessionState::Connected => ev matches SessionEvent::ShellExited,
            SessionState::Closed => false,
            SessionState::Failed => false,
        }
    }

    /// Opens a session for this instance, with an optional local directory
    /// to synchronize. Nothing is established yet.
    pub fn new(instance_id: String, mount_dir: Option<String>) -> (s: Session)
        ensures
            s.state is Idle,
            s.instance_id == instance_id,
            s.mount_dir == mount_dir,
            s.key_path is None,
            s.endpoint is None,
            s.wf(),
    {
        Session { state: SessionState::Idle, instance_id, mount_dir, key_path: None, endpoint: None }
    }

    /// Advances the session by one external outcome and decides the next
    /// action. The contract walks the whole protocol: configuration must be
    /// present, hardening must complete, the endpoint must resolve before any
    /// copy or shell command is issued, a requested synchronization runs —
    /// and blocks — before the shell opens, and any failure abandons the
    /// rest. The commands issued are pinned exactly.
    pub fn step(self, ev: SessionEvent) -> (r: (Session, SessionAction))
        requires
            self.wf(),
            self.expects(ev),
        ensures
            r.0.wf(),
            r.0.instance_id == self.instance_id,
            r.0.mount_dir == self.mount_dir,
            ev matches SessionEvent::ConfigLoaded { key_path: None } ==> (r.0.state is Failed
                && r.1 == (SessionAction::Abort { error: SessionError::MissingKeyConfig })),
            ev matches SessionEvent::ConfigLoaded { key_path: Some(p) } ==> (r.0.state is Idle
                && r.0.key_path == Some(p) && r.0.endpoint is None && r.1 == (
            SessionAction::HardenKey { key_path: p })),
            ev matches SessionEvent::HardenDone { ok: false } ==> (r.0.state is Failed && r.1 == (
            SessionAction::Abort { error: SessionError::HardenFailed })),
            ev matches SessionEvent::HardenDone { ok: true } ==> (r.0.state is KeyHardened
                && r.0.key_path == self.key_path && r.0.endpoint is None && r.1 == (
            SessionAction::ResolveEndpoint { instance_id: self.instance_id })),
            ev matches SessionEvent::EndpointResolved { endpoint: None } ==> (r.0.state is Failed
                && r.1 == (SessionAction::Abort { error: SessionError::NoEndpoint })),
            ev matches SessionEvent::EndpointResolved { endpoint: Some(ep) } ==> (
            r.0.state is KeyHardened && r.0.key_path == self.key_path && r.0.endpoint == Some(ep)
                && (self.mount_dir is Some ==> (r.1 matches SessionAction::RunSync { command }
                && command@ == sync_command_spec(
                self.key_path->Some_0@,
                self.mount_dir->Some_0@,
                ep@,
            ))) && (self.mount_dir is None ==> (r.1 matches SessionAction::RunShell { command }
                && command@ == shell_command_spec(self.key_path->Some_0@, ep@)))),
            ev matches SessionEvent::SyncDone { ok: false } ==> (r.0.state is Failed && r.1 == (
            SessionAction::Abort { error: SessionError::SyncFailed })),
            ev matches SessionEvent::SyncDone { ok: true } ==> (r.0.state is Synced
                && r.0.key_path == self.key_path && r.0.endpoint == self.endpoint && (
            r.1 matches SessionAction::RunShell { command } && command@ == shell_command_spec(
                self.key_path->Some_0@,
                self.endpoint->Some_0@,
            ))),
            ev matches SessionEvent::ShellStarted { ok: false } ==> (r.0.state is Failed && r.1
                == (SessionAction::Abort { error: SessionError::ShellFailed })),
            ev matches SessionEvent::ShellStarted { ok: true } ==> (r.0.state is Connected
                && r.0.key_path == self.key_path && r.0.endpoint == self.endpoint && r.1
                == SessionAction::WaitShell),
            ev matches SessionEvent::ShellExited ==> (r.0.state is Closed && r.1
                == SessionAction::Finish),
    {
        match ev {
            SessionEvent::ConfigLoaded { key_path } => match key_path {
                None => (
                    Session { state: SessionState::Failed, ..self },
                    SessionAction::Abort { error: SessionError::MissingKeyConfig },
                ),
                Some(p) => {
                    let announced = p.clone();
                    (
                        Session { state: SessionState::Idle, key_path: Some(p), ..self },
                        SessionAction::HardenKey { key_path: announced },
                    )
                },
            },
            SessionEvent::HardenDone { ok } => {
                if ok {
                    let id = self.instance_id.clone();
                    (
                        Session { state: SessionState::KeyHardened, ..self },
                        SessionAction::ResolveEndpoint { instance_id: id },
                    )
                } else {
                    (
                        Session { state: SessionState::Failed, ..self },
                        SessionAction::Abort { error: SessionError::HardenFailed },
                    )
                }
            },
            SessionEvent::EndpointResolved { endpoint } => match endpoint {
                None => (
                    Session { state: SessionState::Failed, ..self },
                    SessionAction::Abort { error: SessionError::NoEndpoint },
                ),
                Some(ep) => {
                    let action = match (&self.key_path, &self.mount_dir) {
                        (Some(kp), Some(m)) => SessionAction::RunSync {
                            command: sync_command(kp, m, &ep),
                        },
                        (Some(kp), None) => SessionAction::RunShell {
                            command: shell_command(kp, &ep),
                        },
                        (None, _) => {
                            proof {
                                assert(false);
                            }
                            SessionAction::Finish
                        },
                    };
                    (
                        Session { state: SessionState::KeyHardened, endpoint: Some(ep), ..self },
                        action,
                    )
                },
            },
            SessionEvent::SyncDone { ok } => {
                if ok {
                    let action = match (&self.key_path, &self.endpoint) {
                        (Some(kp), Some(ep)) => SessionAction::RunShell {
                            command: shell_command(kp, ep),
                        },
                        _ => {
                            proof {
                                assert(false);
                            }
                            SessionAction::Finish
                        },
                    };
                    (Session { state: SessionState::Synced, ..self }, action)
                } else {
                    (
                        Session { state: SessionState::Failed, ..self },
                        SessionAction::Abort { error: SessionError::SyncFailed },
                    )
                }
            },
            SessionEvent::ShellStarted { ok } => {
                if ok {
                    (Session { state: SessionState::Connected, ..self }, SessionAction::WaitShell)
                } else {
                    (
                        Session { state: SessionState::Failed, ..self },
                        SessionAction::Abort { error: SessionError::ShellFailed },
                    )
                }
            },
            SessionEvent::ShellExited => (
                Session { state: SessionState::Closed, ..self },
                SessionAction::Finish,
            ),
        }
    }
}

} // verus!
