//! The decisions of the PTY server: its settings, which WebSocket handshakes
//! it accepts, token authentication, what each client frame asks of the
//! PTY, when an idle session ends, and which connections it admits.
use vstd::prelude::*;
use crate::protocol::{parse_client_message, parse_spec, ClientMessage, ClientMessageModel};
use crate::rate_limit::{allows, IpKey, RateLimiter};

verus! {

/// Settings of the PTY server.
#[derive(Debug)]
pub struct Args {
    /// Address to bind to.
    pub bind: String,
    /// Port to listen on.
    pub port: u16,
    /// Shell command to spawn.
    pub shell: Option<String>,
    /// Optional shared-secret token; the client must send it as its first
    /// WebSocket message.
    pub token: Option<String>,
    /// Maximum number of concurrent sessions.
    pub max_sessions: usize,
    /// Idle timeout in seconds: sessions with no input for this long end.
    pub idle_timeout: u64,
    /// Allowed WebSocket Origin values; when empty, only requests without
    /// an Origin header are accepted.
    pub allowed_origins: Vec<String>,
    /// Most new connections per address within the rate window; zero turns
    /// rate limiting off.
    pub rate_limit_max: usize,
}

impl Args {
    /// The shell to spawn: the configured one, else `env_shell` (the value
    /// of `$SHELL`, when it is set), else `/bin/sh`.
    pub fn shell(&self, env_shell: Option<String>) -> (s: String)
        ensures
            s@ == match self.shell {
                Some(c) => c@,
                None => match env_shell {
                    Some(e) => e@,
                    None => "/bin/sh"@,
                },
            },
    {
        match &self.shell {
            Some(c) => c.clone(),
            None => match env_shell {
                Some(e) => e,
                None => "/bin/sh".to_owned(),
            },
        }
    }
}

/// Whether a WebSocket handshake may proceed, given its Origin header: a
/// request without one is always accepted (same origin or a non-browser
/// client); one with an Origin is accepted only when that value is in the
/// allow-list, so with an empty list every such request is refused.
pub open spec fn origin_allowed_spec(origin: Option<Seq<char>>, allowed: Seq<Seq<char>>) -> bool {
    match origin {
        None => true,
        Some(o) => exists|i: int| 0 <= i < allowed.len() && allowed[i] == o,
    }
}

/// The views of a list of strings.
pub open spec fn string_views(v: Seq<String>) -> Seq<Seq<char>> {
    v.map_values(|s: String| s@)
}

/// Check the Origin header of a WebSocket upgrade request against the
/// allow-list.
pub fn origin_allowed(origin: &Option<String>, allowed: &Vec<String>) -> (ok: bool)
    ensures
        ok == origin_allowed_spec(
            match origin {
                Some(o) => Some(o@),
                None => None,
            },
            string_views(allowed@),
        ),
{
    match origin {
        None => true,
        Some(o) => {
            let mut i: usize = 0;
            while i < allowed.len()
                invariant
                    i <= allowed@.len(),
                    match origin {
                        Some(x) => x@ == o@,
                        None => false,
                    },
                    forall|k: int| 0 <= k < i ==> allowed@[k]@ != o@,
                decreases allowed@.len() - i,
            {
                if allowed[i].eq(o) {
                    proof {
                        let v = string_views(allowed@);
                        assert(v[i as int] == o@);
                    }
                    return true;
                }
                i = i + 1;
            }
            proof {
                assert forall|k: int| 0 <= k < allowed@.len() implies string_views(allowed@)[k]
                    != o@ by {
                    assert(string_views(allowed@)[k] == allowed@[k]@);
                }
            }
            false
        },
    }
}

/// Unicode White_Space, the characters that `str::trim` removes.
pub open spec fn is_white_space(c: char) -> bool {
    let u = c as u32;
    ||| 9 <= u <= 13
    ||| u == 0x20
    ||| u == 0x85
    ||| u == 0xa0
    ||| u == 0x1680
    ||| 0x2000 <= u <= 0x200a
    ||| u == 0x2028
    ||| u == 0x2029
    ||| u == 0x202f
    ||| u == 0x205f
    ||| u == 0x3000
}

/// `s` without its leading white space.
pub open spec fn trim_start_ws(s: Seq<char>) -> Seq<char>
    decreases s.len(),
{
    if s.len() > 0 && is_white_space(s[0]) {
        trim_start_ws(s.drop_first())
    } else {
        s
    }
}

/// `s` without its trailing white space.
pub open spec fn trim_end_ws(s: Seq<char>) -> Seq<char>
    decreases s.len(),
{
    if s.len() > 0 && is_white_space(s.last()) {
        trim_end_ws(s.drop_last())
    } else {
        s
    }
}

/// `s` without its leading and trailing white space.
pub open spec fn trim_ws(s: Seq<char>) -> Seq<char> {
    trim_end_ws(trim_start_ws(s))
}

/// `str::trim`: the string slice without its leading and trailing
/// whitespace, as std's documentation defines it (the Unicode White_Space
/// property).
#[verifier::external_body]
pub(crate) fn str_trim(s: &str) -> (t: &str)
    ensures
        t@ == trim_ws(s@),
{
    s.trim()
}

/// `subtle::ConstantTimeEq::ct_eq` on byte slices, read as a `bool`:
/// true exactly when both slices hold the same bytes. The comparison takes
/// time that depends on the lengths only.
#[verifier::external_body]
fn bytes_ct_eq(a: &[u8], b: &[u8]) -> (eq: bool)
    ensures
        eq == (a@ == b@),
{
    bool::from(subtle::ConstantTimeEq::ct_eq(a, b))
}

/// Whether the token a client sent matches the expected one: the sent
/// text, without surrounding white space, must equal the token exactly.
pub open spec fn token_matches_spec(provided: Seq<char>, expected: Seq<char>) -> bool {
    trim_ws(provided) == expected
}

/// Compare a client's token with the expected one, in time independent of
/// their contents.
pub fn token_matches(provided: &str, expected: &str) -> (ok: bool)
    ensures
        ok == token_matches_spec(provided@, expected@),
{
    let p = str_trim(provided);
    let pb = p.as_bytes();
    let eb = expected.as_bytes();
    let ok = pb.len() == eb.len() && bytes_ct_eq(pb, eb);
    proof {
        vstd::utf8::encode_utf8_decode_utf8(p@);
        vstd::utf8::encode_utf8_decode_utf8(expected@);
    }
    ok
}

/// Decide token authentication from the first WebSocket message: `first`
/// is the text of that message when it was a text frame, `None` when it was
/// anything else or the stream ended.
pub fn authenticate(first: Option<&str>, expected: &str) -> (ok: bool)
    ensures
        ok == match first {
            Some(t) => token_matches_spec(t@, expected@),
            None => false,
        },
{
    match first {
        Some(t) => token_matches(t, expected),
        None => false,
    }
}

/// A frame, or the lack of one, from the client side of a session.
#[derive(Debug)]
pub enum ClientEvent {
    /// A binary frame.
    Binary(Vec<u8>),
    /// A close frame.
    Close,
    /// A text, ping or pong frame.
    OtherFrame,
    /// The WebSocket reported an error.
    ReadError,
    /// The stream ended.
    End,
    /// No input arrived within the idle timeout.
    IdleTimeout,
}

/// What the session does with a client event.
#[derive(Debug)]
pub enum SessionAction {
    /// Write these bytes to the PTY.
    WritePty(Vec<u8>),
    /// Resize the PTY.
    ResizePty { cols: u16, rows: u16, cell_w: u16, cell_h: u16 },
    /// Nothing to do.
    Ignore,
    /// End the session.
    Stop,
}

/// The mathematical form of a session action.
pub enum SessionActionModel {
    WritePty(Seq<u8>),
    ResizePty { cols: u16, rows: u16, cell_w: u16, cell_h: u16 },
    Ignore,
    Stop,
}

impl View for SessionAction {
    type V = SessionActionModel;

    open spec fn view(&self) -> SessionActionModel {
        match self {
            SessionAction::WritePty(b) => SessionActionModel::WritePty(b@),
            SessionAction::ResizePty { cols, rows, cell_w, cell_h } => SessionActionModel::ResizePty {
                cols: *cols,
                rows: *rows,
                cell_w: *cell_w,
                cell_h: *cell_h,
            },
            SessionAction::Ignore => SessionActionModel::Ignore,
            SessionAction::Stop => SessionActionModel::Stop,
        }
    }
}

/// The action for a client event, and whether the event counts as
/// activity for the idle timeout: PTY data and resizes are written through
/// and count as activity; frames that do not parse and non-binary frames
/// are ignored; a close, an error, the end of the stream and the idle
/// timeout end the session.
pub open spec fn session_step_spec(event: ClientEvent) -> (SessionActionModel, bool) {
    match event {
        ClientEvent::Binary(data) => match parse_spec(data@) {
            Some(ClientMessageModel::Data(p)) => (SessionActionModel::WritePty(p), true),
            Some(ClientMessageModel::Resize { cols, rows, cell_w, cell_h }) => (
                SessionActionModel::ResizePty { cols, rows, cell_w, cell_h },
                true,
            ),
            None => (SessionActionModel::Ignore, false),
        },
        ClientEvent::OtherFrame => (SessionActionModel::Ignore, false),
        _ => (SessionActionModel::Stop, false),
    }
}

/// Decide what a client event asks of the session.
pub fn session_step(event: ClientEvent) -> (r: (SessionAction, bool))
    ensures
        (r.0@, r.1) == session_step_spec(event),
{
    match event {
        ClientEvent::Binary(data) => {
            let parsed = parse_client_message(data.as_slice());
            match parsed {
                Some(ClientMessage::Data(payload)) => (SessionAction::WritePty(payload), true),
                Some(ClientMessage::Resize { cols, rows, cell_w, cell_h }) => (
                    SessionAction::ResizePty { cols, rows, cell_w, cell_h },
                    true,
                ),
                None => (SessionAction::Ignore, false),
            }
        },
        ClientEvent::OtherFrame => (SessionAction::Ignore, false),
        _ => (SessionAction::Stop, false),
    }
}

/// Nanoseconds in a second.
pub const NANOS_PER_SEC: u128 = 1_000_000_000;

/// How long a session may still wait for input, in nanoseconds: the idle
/// timeout less the time since the last input, and zero once that is spent.
pub fn idle_remaining(idle_timeout_secs: u64, elapsed_nanos: u128) -> (r: u128)
    ensures
        r == if idle_timeout_secs * 1_000_000_000 > elapsed_nanos {
            idle_timeout_secs * 1_000_000_000 - elapsed_nanos
        } else {
            0
        },
{
    let timeout = (idle_timeout_secs as u128) * NANOS_PER_SEC;
    if timeout > elapsed_nanos {
        timeout - elapsed_nanos
    } else {
        0
    }
}

/// The exit code the server reports for the shell: its status code when
/// that fits a byte (0 to 255), 255 for a larger one, and none when waiting
/// for the shell failed. `waited` is the status code, or `None` when waiting
/// failed.
pub fn exit_code_for(waited: Option<u32>) -> (code: Option<u8>)
    ensures
        code == match waited {
            Some(k) => Some(if k <= 255 {
                k as u8
            } else {
                255u8
            }),
            None => None::<u8>,
        },
{
    match waited {
        Some(k) => {
            if k <= 255 {
                Some(k as u8)
            } else {
                Some(255)
            }
        },
        None => None,
    }
}

/// Whether the server takes a new TCP connection.
#[derive(Debug, Clone, Copy, PartialEq, Eq, Structural)]
pub enum Admission {
    /// The peer opened too many connections within the rate window.
    RateLimited,
    /// The server already runs its maximum number of sessions.
    TooManySessions,
    /// Start a session.
    Accept,
}

/// Decide whether to take a connection from `ip` at `now`, with `active`
/// sessions running out of at most `max_sessions`. The rate limiter is
/// consulted, and records the connection, before the session count is.
pub fn admission(
    limiter: &mut RateLimiter,
    ip: IpKey,
    now: u64,
    active: usize,
    max_sessions: usize,
) -> (a: Admission)
    requires
        old(limiter).wf(),
    ensures
        final(limiter).wf(),
        final(limiter).limit() == old(limiter).limit(),
        a == if !allows(now, old(limiter).stamps(ip), old(limiter).limit()) {
            Admission::RateLimited
        } else if active >= max_sessions {
            Admission::TooManySessions
        } else {
            Admission::Accept
        },
        old(limiter).limit() == 0 ==> final(limiter).entries() == old(limiter).entries(),
        old(limiter).limit() > 0 ==> forall|k: IpKey|
            #[trigger] final(limiter).stamps(k) == crate::rate_limit::stamps_after(
                old(limiter).stamps(k),
                k,
                ip,
                now,
                allows(now, old(limiter).stamps(ip), old(limiter).limit()),
            ),
{
    if !limiter.check_and_record_at(ip, now) {
        return Admission::RateLimited;
    }
    if active >= max_sessions {
        return Admission::TooManySessions;
    }
    Admission::Accept
}

} // verus!
