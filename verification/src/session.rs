//! A capture session: its identity, the files it writes, and the order in
//! which its controller runs capture, merge, cleanup and report.

use vstd::prelude::*;
use vstd::string::StringExecFns;
use crate::instant::Instant;
use crate::stamp::chrono_now;

verus! {

/// The log that the system capture task writes, before the session's token.
pub const SYSTEM_LOG_NAME: &'static str = "/tmp/dmerg.syslog";

/// The log that the input capture task writes, before the session's token.
pub const INPUT_LOG_NAME: &'static str = "/tmp/dmerg.stdin";

/// The merged output where the operator names none, before the session's
/// token.
pub const MERGED_LOG_NAME: &'static str = "dmerged";

/// What is said before the path of the merged output.
pub const NOTICE: &'static str = "\n+ Output written to ";

/// The number of characters of a session token.
pub const TOKEN_LENGTH: usize = 16;

/// One run of the tool, from capture to cleanup.
#[derive(Clone, Debug, PartialEq, Eq)]
pub struct CaptureSession {
    /// The random token that tells this session's files from another's.
    pub session_id: String,
    /// When the session began.
    pub start_instant: Instant,
    /// Whether the system log's backlog from before the session is kept.
    pub full_mode: bool,
    /// Whether each record is mirrored to the console.
    pub echo_enabled: bool,
}

/// An ASCII letter or digit.
pub open spec fn is_alphanumeric(b: u8) -> bool {
    ||| 0x30 <= b <= 0x39
    ||| 0x41 <= b <= 0x5a
    ||| 0x61 <= b <= 0x7a
}

/// A character that is an ASCII letter or digit.
pub open spec fn is_token_char(c: char) -> bool {
    let n = c as u32;
    ||| 0x30 <= n <= 0x39
    ||| 0x41 <= n <= 0x5a
    ||| 0x61 <= n <= 0x7a
}

/// The name of a session's file: the fixed name, a full stop and the token.
pub open spec fn logfile_name(name: Seq<char>, token: Seq<char>) -> Seq<char> {
    name + seq!['.'] + token
}

/// `rand::Rng::sample` of `rand::distributions::Alphanumeric` on
/// `rand::thread_rng()`. Whatever is drawn is an ASCII letter or digit;
/// nothing else is known of it.
#[verifier::external_body]
fn draw_alphanumeric() -> (b: u8)
    ensures
        is_alphanumeric(b),
{
    rand::Rng::sample(&mut rand::thread_rng(), rand::distributions::Alphanumeric)
}

/// The token whose characters are the given bytes.
pub fn token_of(draws: &Vec<u8>) -> (token: String)
    ensures
        token@.len() == draws.len(),
        forall|i: int| 0 <= i < draws.len() ==> token@[i] == draws[i] as char,
{
    let mut token = String::new();
    let mut i: usize = 0;
    while i < draws.len()
        invariant
            i <= draws.len(),
            token@.len() == i,
            forall|k: int| 0 <= k < i ==> token@[k] == draws[k] as char,
        decreases draws.len() - i,
    {
        token.push(draws[i] as char);
        i += 1;
    }
    token
}

/// A fresh session token: [`TOKEN_LENGTH`] random letters and digits.
pub fn session_token() -> (token: String)
    ensures
        token@.len() == TOKEN_LENGTH,
        forall|i: int| 0 <= i < token@.len() ==> is_token_char(#[trigger] token@[i]),
{
    let mut draws: Vec<u8> = Vec::new();
    while draws.len() < TOKEN_LENGTH
        invariant
            draws.len() <= TOKEN_LENGTH,
            forall|k: int| 0 <= k < draws.len() ==> is_alphanumeric(#[trigger] draws[k]),
        decreases TOKEN_LENGTH - draws.len(),
    {
        draws.push(draw_alphanumeric());
    }
    let token = token_of(&draws);
    assert forall|i: int| 0 <= i < token@.len() implies is_token_char(#[trigger] token@[i]) by {
        assert(is_alphanumeric(draws[i]));
    }
    token
}

/// The name of a session's file.
pub fn get_logfile(name: &str, rand: &str) -> (filename: String)
    ensures
        filename@ == logfile_name(name@, rand@),
{
    let mut filename = String::from_str(name);
    filename.push('.');
    filename.append(rand);
    filename
}

/// The path of the merged output: the one the operator named, or else one
/// named after the session.
pub fn output_path(output: &Option<String>, rand: &str) -> (path: String)
    ensures
        path@ == match *output {
            Some(named) => named@,
            None => logfile_name(MERGED_LOG_NAME@, rand@),
        },
{
    match output {
        Some(named) => named.clone(),
        None => get_logfile(MERGED_LOG_NAME, rand),
    }
}

/// What the operator is told once the merged output is written: where it
/// is. The notice is due after every merge, whether or not the console
/// shows the captured lines.
pub fn notify_result(rand: &str, output: &Option<String>) -> (notice: String)
    ensures
        notice@ == NOTICE@ + match *output {
            Some(named) => named@,
            None => logfile_name(MERGED_LOG_NAME@, rand@),
        },
{
    let mut notice = String::from_str(NOTICE);
    let path = output_path(output, rand);
    notice.append(path.as_str());
    notice
}

impl CaptureSession {
    /// A session with the given identity and settings.
    pub fn new(session_id: String, start_instant: Instant, full_mode: bool, echo_enabled: bool) -> (s:
        CaptureSession)
        ensures
            s.session_id == session_id,
            s.start_instant == start_instant,
            s.full_mode == full_mode,
            s.echo_enabled == echo_enabled,
    {
        CaptureSession { session_id, start_instant, full_mode, echo_enabled }
    }

    /// A session that begins at the instant of the call, under a fresh
    /// token.
    pub fn begin(full_mode: bool, echo_enabled: bool) -> (s: CaptureSession)
        ensures
            s.session_id@.len() == TOKEN_LENGTH,
            forall|i: int|
                0 <= i < s.session_id@.len() ==> is_token_char(#[trigger] s.session_id@[i]),
            s.full_mode == full_mode,
            s.echo_enabled == echo_enabled,
    {
        CaptureSession {
            session_id: session_token(),
            start_instant: chrono_now(),
            full_mode,
            echo_enabled,
        }
    }

    /// The log that the session's system capture task writes.
    pub fn system_log(&self) -> (path: String)
        ensures
            path@ == logfile_name(SYSTEM_LOG_NAME@, self.session_id@),
    {
        get_logfile(SYSTEM_LOG_NAME, self.session_id.as_str())
    }

    /// The log that the session's input capture task writes.
    pub fn input_log(&self) -> (path: String)
        ensures
            path@ == logfile_name(INPUT_LOG_NAME@, self.session_id@),
    {
        get_logfile(INPUT_LOG_NAME, self.session_id.as_str())
    }

    /// Whether a system record stamped `stamp` belongs to the session: in
    /// full mode every record does, else those at or after its start.
    pub fn admits(&self, stamp: &Instant) -> (r: bool)
        ensures
            r == (self.full_mode || !stamp.precedes(self.start_instant)),
    {
        self.full_mode || stamp.is_at_or_after(&self.start_instant)
    }
}

/// The steps of a session, in the order its controller takes them.
#[derive(Clone, Copy, Debug, PartialEq, Eq, Structural)]
pub enum Stage {
    /// Both capture tasks run until they are cancelled.
    Capture,
    /// The two sealed logs are merged.
    Merge,
    /// The two logs are removed after a merge.
    Cleanup,
    /// The two logs are removed after a failure.
    Salvage,
    /// The operator is told where the output is.
    Report,
    /// The session ended well.
    Done,
    /// The session ended with an error.
    Failed,
}

impl Stage {
    /// The stage that follows `self` once it has succeeded or failed.
    ///
    /// A merge follows only a capture that succeeded, and a report only a
    /// cleanup that did. A failed capture or merge leads to the removal of
    /// the logs and then to failure, whatever the removal's outcome.
    pub open spec fn followed_by(self, succeeded: bool) -> Stage {
        match self {
            Stage::Capture => if succeeded { Stage::Merge } else { Stage::Salvage },
            Stage::Merge => if succeeded { Stage::Cleanup } else { Stage::Salvage },
            Stage::Cleanup => if succeeded { Stage::Report } else { Stage::Failed },
            Stage::Salvage => Stage::Failed,
            Stage::Report => if succeeded { Stage::Done } else { Stage::Failed },
            Stage::Done => Stage::Done,
            Stage::Failed => Stage::Failed,
        }
    }

    /// The stage at which a session starts.
    pub fn first() -> (stage: Stage)
        ensures
            stage == Stage::Capture,
    {
        Stage::Capture
    }

    /// The stage to go to from `self`, given how it went.
    pub fn next(self, succeeded: bool) -> (stage: Stage)
        ensures
            stage == self.followed_by(succeeded),
    {
        match self {
            Stage::Capture => if succeeded { Stage::Merge } else { Stage::Salvage },
            Stage::Merge => if succeeded { Stage::Cleanup } else { Stage::Salvage },
            Stage::Cleanup => if succeeded { Stage::Report } else { Stage::Failed },
            Stage::Salvage => Stage::Failed,
            Stage::Report => if succeeded { Stage::Done } else { Stage::Failed },
            Stage::Done => Stage::Done,
            Stage::Failed => Stage::Failed,
        }
    }

    /// Whether the session is over.
    pub fn is_final(self) -> (r: bool)
        ensures
            r == (self == Stage::Done || self == Stage::Failed),
    {
        match self {
            Stage::Done => true,
            Stage::Failed => true,
            _ => false,
        }
    }
}

} // verus!
