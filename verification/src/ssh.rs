//! The decisions of the pool of SSH connections.
//!
//! Connecting, authenticating and running commands are the caller's part;
//! what to try, what an outcome means and what a command's output amounts
//! to is decided here.

use crate::text::{lossy_text, strict_text, str_eq, utf8_lossy, utf8_strict};
use vstd::prelude::*;
use vstd::string::*;

verus! {

/// How to reach a host.
#[derive(Debug, Clone, PartialEq, Eq)]
pub struct SshHostConfig {
    pub id: String,
    pub label: String,
    pub host: String,
    pub port: u16,
    pub username: String,
    /// `key` or `ssh_config`.
    pub auth_method: String,
    pub key_path: Option<String>,
}

/// What a remote command printed, and how it ended.
#[derive(Debug, Clone, PartialEq, Eq)]
pub struct SshExecResult {
    pub stdout: String,
    pub stderr: String,
    pub exit_code: u32,
}

/// One entry of a remote directory.
#[derive(Debug, Clone, PartialEq, Eq)]
pub struct SftpEntry {
    pub name: String,
    pub is_dir: bool,
    pub size: u64,
}

/// Seconds without traffic after which a connection is given up.
pub const INACTIVITY_TIMEOUT_SECS: u64 = 300;

/// Seconds between two keep-alive messages.
pub const KEEPALIVE_INTERVAL_SECS: u64 = 30;

/// How many keep-alive messages may go unanswered.
pub const KEEPALIVE_MAX: usize = 5;

/// The exit code of a command that reported none.
pub const DEFAULT_EXIT_CODE: u32 = 1;

/// The kind of extended data that is the error stream.
pub const STDERR_EXT: u32 = 1;

/// How to authenticate.
#[derive(Debug, Clone, PartialEq, Eq)]
pub enum AuthPlan {
    /// With the private key in the file `path`.
    Key { path: String },
    /// With the keys that the agent offers.
    Agent,
}

/// Mathematical model of an [`AuthPlan`].
pub enum AuthPlanView {
    Key { path: Seq<char> },
    Agent,
}

impl View for AuthPlan {
    type V = AuthPlanView;

    open spec fn view(&self) -> AuthPlanView {
        match self {
            AuthPlan::Key { path } => AuthPlanView::Key { path: path@ },
            AuthPlan::Agent => AuthPlanView::Agent,
        }
    }
}

/// The key file that is used where a host names none.
pub open spec fn default_key_path() -> Seq<char> {
    "~/.ssh/id_rsa"@
}

/// The error of an unknown way to authenticate.
pub open spec fn unknown_auth_method(method: Seq<char>) -> Seq<char> {
    "Unknown auth_method: "@ + method
}

/// How to authenticate with a host: `key` asks for its key file or the
/// default one, `ssh_config` for the agent; anything else is an error.
pub open spec fn auth_plan_of(method: Seq<char>, key_path: Option<Seq<char>>) -> Result<
    AuthPlanView,
    Seq<char>,
> {
    if method == "key"@ {
        Ok(
            AuthPlanView::Key {
                path: match key_path {
                    Some(p) => p,
                    None => default_key_path(),
                },
            },
        )
    } else if method == "ssh_config"@ {
        Ok(AuthPlanView::Agent)
    } else {
        Err(unknown_auth_method(method))
    }
}

/// The view of a plan or an error.
pub open spec fn plan_view(r: Result<AuthPlan, String>) -> Result<AuthPlanView, Seq<char>> {
    match r {
        Ok(plan) => Ok(plan@),
        Err(e) => Err(e@),
    }
}

/// Decides how to authenticate with a host.
pub fn auth_plan(config: &SshHostConfig) -> (r: Result<AuthPlan, String>)
    ensures
        plan_view(r) == auth_plan_of(
            config.auth_method@,
            crate::session::opt_str_view(config.key_path),
        ),
{
    let method = config.auth_method.as_str();
    if str_eq(method, "key") {
        let path = match &config.key_path {
            Some(p) => p.clone(),
            None => String::from_str("~/.ssh/id_rsa"),
        };
        Ok(AuthPlan::Key { path })
    } else if str_eq(method, "ssh_config") {
        Ok(AuthPlan::Agent)
    } else {
        Err(String::from_str("Unknown auth_method: ").concat(method))
    }
}

/// Replaces a leading `~` by the home directory with `shellexpand::tilde`.
/// What the home directory is depends on the machine; a path that does not
/// begin with `~` comes back as it is.
#[verifier::external_body]
pub(crate) fn expand_tilde(path: &str) -> (r: String)
    ensures
        path@.len() == 0 || path@[0] != '~' ==> r@ == path@,
{
    shellexpand::tilde(path).into_owned()
}

/// The key file to read for a plan that asks for one, with a leading `~`
/// replaced by the home directory.
pub fn key_file(plan: &AuthPlan) -> (r: Option<String>)
    ensures
        match plan {
            AuthPlan::Key { path } => r is Some && (path@.len() == 0 || path@[0] != '~'
                ==> r->0@ == path@),
            AuthPlan::Agent => r is None,
        },
{
    match plan {
        AuthPlan::Key { path } => Some(expand_tilde(path.as_str())),
        AuthPlan::Agent => None,
    }
}

/// The error of a server that rejected the authentication.
pub open spec fn auth_rejected() -> Seq<char> {
    "SSH authentication failed (rejected by server)"@
}

/// Judges the outcome of an authentication.
pub fn check_authenticated(authenticated: bool) -> (r: Result<(), String>)
    ensures
        match r {
            Ok(_) => authenticated,
            Err(e) => !authenticated && e@ == auth_rejected(),
        },
{
    if authenticated {
        Ok(())
    } else {
        Err(String::from_str("SSH authentication failed (rejected by server)"))
    }
}

/// The error of an agent without keys.
pub open spec fn no_identities() -> Seq<char> {
    "SSH agent has no identities loaded"@
}

/// What to do next while the keys of the agent are tried one by one.
#[derive(Debug, PartialEq, Eq)]
pub enum AgentStep {
    /// Try the key at this index.
    Try { index: usize },
    /// Stop with this outcome.
    Done(Result<bool, String>),
}

/// Whether an attempt succeeded: the server accepted the key. An attempt
/// that the server refused or that failed does not end the search.
pub open spec fn accepted(attempt: Option<bool>) -> bool {
    attempt == Some(true)
}

/// Whether `step` is the next step after `attempts`, one per key tried so
/// far (`None` for an attempt that failed): an agent without keys is an
/// error; the first accepted key ends the search with success; otherwise
/// the next key is tried, and after the last the search ends without
/// success.
pub open spec fn is_agent_step(identities: nat, attempts: Seq<Option<bool>>, step: AgentStep) -> bool {
    if identities == 0 {
        step matches AgentStep::Done(Err(e)) && e@ == no_identities()
    } else if exists|i: int| 0 <= i < attempts.len() && accepted(attempts[i]) {
        step matches AgentStep::Done(Ok(found)) && found
    } else if attempts.len() < identities {
        step matches AgentStep::Try { index } && index == attempts.len()
    } else {
        step matches AgentStep::Done(Ok(found)) && !found
    }
}

/// Decides the next step of the authentication with the agent.
pub fn agent_next(identities: usize, attempts: &Vec<Option<bool>>) -> (step: AgentStep)
    ensures
        is_agent_step(identities as nat, attempts@, step),
{
    if identities == 0 {
        return AgentStep::Done(Err(String::from_str("SSH agent has no identities loaded")));
    }
    let mut i: usize = 0;
    while i < attempts.len()
        invariant
            i <= attempts.len(),
            identities != 0,
            forall|k: int| 0 <= k < i ==> !accepted(attempts@[k]),
        decreases attempts.len() - i,
    {
        match attempts[i] {
            Some(true) => {
                assert(accepted(attempts@[i as int]));
                return AgentStep::Done(Ok(true));
            },
            _ => {},
        }
        i = i + 1;
    }
    if attempts.len() < identities {
        AgentStep::Try { index: attempts.len() }
    } else {
        AgentStep::Done(Ok(false))
    }
}

/// A message of the channel on which a command runs.
#[derive(Debug, Clone, PartialEq, Eq)]
pub enum ChannelEvent {
    /// Bytes of the output stream.
    Data(Vec<u8>),
    /// Bytes of another stream; kind 1 is the error stream.
    ExtendedData { data: Vec<u8>, ext: u32 },
    /// The exit status of the command.
    ExitStatus(u32),
    /// Anything else.
    Other,
}

/// What a command has printed so far.
#[derive(Debug, Clone, PartialEq, Eq)]
pub struct ExecOutput {
    pub stdout: Vec<u8>,
    pub stderr: Vec<u8>,
    pub exit_code: u32,
}

impl ExecOutput {
    /// Nothing printed, and the exit code of a command that reports none.
    pub fn new() -> (out: ExecOutput)
        ensures
            out.stdout@ == Seq::<u8>::empty(),
            out.stderr@ == Seq::<u8>::empty(),
            out.exit_code == DEFAULT_EXIT_CODE,
    {
        ExecOutput { stdout: Vec::new(), stderr: Vec::new(), exit_code: DEFAULT_EXIT_CODE }
    }

    /// Takes one message in: output goes to the output, extended data of
    /// kind [`STDERR_EXT`] to the errors, an exit status replaces the exit
    /// code, and everything else is passed over.
    pub fn record(&mut self, event: &ChannelEvent)
        ensures
            final(self).stdout@ == match event {
                ChannelEvent::Data(data) => old(self).stdout@ + data@,
                _ => old(self).stdout@,
            },
            final(self).stderr@ == match event {
                ChannelEvent::ExtendedData { data, ext } if *ext == STDERR_EXT => old(self).stderr@
                    + data@,
                _ => old(self).stderr@,
            },
            final(self).exit_code == match event {
                ChannelEvent::ExitStatus(status) => *status,
                _ => old(self).exit_code,
            },
    {
        match event {
            ChannelEvent::Data(data) => {
                append_bytes(&mut self.stdout, data);
            },
            ChannelEvent::ExtendedData { data, ext } => {
                if *ext == STDERR_EXT {
                    append_bytes(&mut self.stderr, data);
                }
            },
            ChannelEvent::ExitStatus(status) => {
                self.exit_code = *status;
            },
            ChannelEvent::Other => {},
        }
    }

    /// The result of the command: both streams read as text, with the
    /// replacement character in place of what is no UTF-8.
    pub fn finish(&self) -> (r: SshExecResult)
        ensures
            r.stdout@ == utf8_lossy(self.stdout@),
            r.stderr@ == utf8_lossy(self.stderr@),
            r.exit_code == self.exit_code,
    {
        SshExecResult {
            stdout: lossy_text(&self.stdout),
            stderr: lossy_text(&self.stderr),
            exit_code: self.exit_code,
        }
    }
}

/// Appends bytes to a buffer.
fn append_bytes(out: &mut Vec<u8>, more: &Vec<u8>)
    ensures
        final(out)@ == old(out)@ + more@,
{
    let mut i: usize = 0;
    while i < more.len()
        invariant
            i <= more.len(),
            out@ == old(out)@ + more@.take(i as int),
        decreases more.len() - i,
    {
        out.push(more[i]);
        i = i + 1;
        assert(out@ =~= old(out)@ + more@.take(i as int));
    }
    assert(more@.take(more@.len() as int) =~= more@);
}

/// The entry of a remote directory; a size that is not known counts as 0.
pub fn sftp_entry(name: String, is_dir: bool, size: Option<u64>) -> (entry: SftpEntry)
    ensures
        entry.name == name,
        entry.is_dir == is_dir,
        entry.size == match size {
            Some(s) => s,
            None => 0,
        },
{
    SftpEntry {
        name,
        is_dir,
        size: match size {
            Some(s) => s,
            None => 0,
        },
    }
}

/// The error of a remote file that is no text.
pub open spec fn not_utf8(reason: Seq<char>) -> Seq<char> {
    "File is not valid UTF-8: "@ + reason
}

/// What the bytes of a remote file amount to, given what they decode to.
pub fn file_text(decoded: Result<String, String>) -> (r: Result<String, String>)
    ensures
        match decoded {
            Ok(text) => r == Ok::<String, String>(text),
            Err(reason) => r is Err && r->Err_0@ == not_utf8(reason@),
        },
{
    match decoded {
        Ok(text) => Ok(text),
        Err(reason) => Err(String::from_str("File is not valid UTF-8: ").concat(reason.as_str())),
    }
}

/// Reads the bytes of a remote file as text.
pub fn sftp_read(data: Vec<u8>) -> (r: Result<String, String>)
    ensures
        match utf8_strict(data@) {
            Ok(text) => r is Ok && r->Ok_0@ == text,
            Err(reason) => r is Err && r->Err_0@ == not_utf8(reason),
        },
{
    file_text(strict_text(data))
}

/// The error of a host without a connection.
pub open spec fn no_connection(id: Seq<char>) -> Seq<char> {
    "No connection for id: "@ + id
}

/// Writes the error of a host without a connection.
pub fn no_connection_error(id: &str) -> (e: String)
    ensures
        e@ == no_connection(id@),
{
    String::from_str("No connection for id: ").concat(id)
}

} // verus!
