//! The bounded-wait authentication flow: which platforms are supported, and
//! the state machine that turns observed events and a deadline into exactly
//! one result, with exactly one cleanup.
use vstd::prelude::*;

verus! {

/// Overall deadline of one authentication attempt, in seconds.
pub const AUTH_TIMEOUT_SECS: u64 = 180;

/// The credentials one authentication yields.
pub struct AuthData {
    pub uid: String,
    pub email: String,
    pub token: String,
}

/// Why an authentication attempt failed.
pub enum AuthError {
    /// The platform is not one this service knows; nothing was started.
    UnsupportedPlatform(String),
    /// No credentials arrived before the deadline.
    Timeout,
}

/// The human-readable text of an error.
pub open spec fn error_text(e: AuthError) -> Seq<char> {
    match e {
        AuthError::UnsupportedPlatform(p) => "Platform '"@ + p@ + "' is not supported."@,
        AuthError::Timeout => "Authentication timed out after 3 minutes"@,
    }
}

impl AuthError {
    /// The human-readable text of the error.
    pub fn message(&self) -> (r: String)
        ensures
            r@ == error_text(*self),
    {
        match self {
            AuthError::UnsupportedPlatform(p) => {
                let mut s = String::from_str("Platform '");
                s.append(p.as_str());
                s.append("' is not supported.");
                s
            },
            AuthError::Timeout => String::from_str("Authentication timed out after 3 minutes"),
        }
    }
}

/// The platforms this service can authenticate with.
#[derive(PartialEq, Eq, Structural, Clone, Copy, Debug)]
pub enum Platform {
    Contra,
}

/// Entry point of authentication.
pub struct AuthService;

impl AuthService {
    /// The platform named `platform`; any other name is refused before
    /// anything is started.
    pub fn platform(platform: &str) -> (r: Result<Platform, AuthError>)
        ensures
            platform@ == "contra"@ <==> r == Ok::<Platform, AuthError>(Platform::Contra),
            platform@ != "contra"@ ==> (r matches Err(AuthError::UnsupportedPlatform(p)) && p@
                == platform@),
    {
        proof {
            reveal_strlit("contra");
        }
        if platform.unicode_len() == 6 && platform.get_char(0) == 'c' && platform.get_char(1)
            == 'o' && platform.get_char(2) == 'n' && platform.get_char(3) == 't'
            && platform.get_char(4) == 'r' && platform.get_char(5) == 'a' {
            assert(platform@ =~= "contra"@);
            Ok(Platform::Contra)
        } else {
            Err(AuthError::UnsupportedPlatform(String::from_str(platform)))
        }
    }
}

/// Where an attempt stands.
#[derive(PartialEq, Eq, Structural, Clone, Copy, Debug)]
pub enum Phase {
    /// Proxy, subscription and window are being set up.
    Starting,
    /// Set up; waiting for credentials or the deadline.
    Waiting,
    /// A result was given and cleanup was asked for.
    Resolved,
}

/// What happens to an attempt.
pub enum AuthEvent {
    /// Proxy, subscription and window are in place.
    Ready,
    /// An event with all three credential fields arrived.
    Credentials(AuthData),
    /// An event arrived whose credentials could not be read.
    Malformed,
    /// The deadline passed.
    Deadline,
}

/// What the driver of an attempt does next.
pub enum AuthAction {
    /// Keep waiting.
    Continue,
    /// Unsubscribe, close the window, shut the proxy down, then return this.
    Finish(Result<AuthData, AuthError>),
}

/// One authentication attempt.
pub struct AuthAttempt {
    pub phase: Phase,
}

/// The event ends the attempt in this phase.
pub open spec fn finishes(p: Phase, e: AuthEvent) -> bool {
    p != Phase::Resolved && (e is Credentials || e is Deadline)
}

/// The phase after the event.
pub open spec fn next_phase(p: Phase, e: AuthEvent) -> Phase {
    if p == Phase::Resolved || finishes(p, e) {
        Phase::Resolved
    } else if e is Ready {
        Phase::Waiting
    } else {
        p
    }
}

/// The phase after a run of events.
pub open spec fn phase_after(p: Phase, es: Seq<AuthEvent>) -> Phase
    decreases es.len(),
{
    if es.len() == 0 {
        p
    } else {
        phase_after(next_phase(p, es[0]), es.drop_first())
    }
}

/// How many times a run of events asks for cleanup.
pub open spec fn finish_count(p: Phase, es: Seq<AuthEvent>) -> nat
    decreases es.len(),
{
    if es.len() == 0 {
        0
    } else {
        (if finishes(p, es[0]) {
            1nat
        } else {
            0nat
        }) + finish_count(next_phase(p, es[0]), es.drop_first())
    }
}

impl AuthAttempt {
    /// A new attempt, still setting up.
    pub fn new() -> (a: AuthAttempt)
        ensures
            a.phase == Phase::Starting,
    {
        AuthAttempt { phase: Phase::Starting }
    }

    /// Takes one event: the first credentials or the deadline, whichever
    /// comes first, resolve the attempt; malformed events are passed over;
    /// after resolution nothing more happens.
    pub fn step(&mut self, e: AuthEvent) -> (a: AuthAction)
        ensures
            final(self).phase == next_phase(old(self).phase, e),
            a is Finish <==> finishes(old(self).phase, e),
            old(self).phase != Phase::Resolved ==> (e matches AuthEvent::Credentials(d) ==> a
                == AuthAction::Finish(Ok(d))),
            old(self).phase != Phase::Resolved ==> (e is Deadline ==> a == AuthAction::Finish(
                Err(AuthError::Timeout),
            )),
    {
        if self.phase == Phase::Resolved {
            return AuthAction::Continue;
        }
        match e {
            AuthEvent::Ready => {
                self.phase = Phase::Waiting;
                AuthAction::Continue
            },
            AuthEvent::Credentials(d) => {
                self.phase = Phase::Resolved;
                AuthAction::Finish(Ok(d))
            },
            AuthEvent::Malformed => AuthAction::Continue,
            AuthEvent::Deadline => {
                self.phase = Phase::Resolved;
                AuthAction::Finish(Err(AuthError::Timeout))
            },
        }
    }
}

/// Cleanup is asked for at most once over any run of events, and never
/// again once the attempt is resolved.
pub proof fn lemma_cleanup_at_most_once(p: Phase, es: Seq<AuthEvent>)
    ensures
        finish_count(p, es) <= 1,
        p == Phase::Resolved ==> finish_count(p, es) == 0,
        finish_count(p, es) == 1 <==> phase_after(p, es) == Phase::Resolved && p != Phase::Resolved,
    decreases es.len(),
{
    if es.len() > 0 {
        lemma_cleanup_at_most_once(next_phase(p, es[0]), es.drop_first());
        lemma_resolved_stays(next_phase(p, es[0]), es.drop_first());
        if !finishes(p, es[0]) && p != Phase::Resolved {
            assert(next_phase(p, es[0]) != Phase::Resolved);
        }
    }
}

/// A run of events that reaches the deadline resolves the attempt, with
/// exactly one cleanup.
pub proof fn lemma_deadline_resolves(p: Phase, es: Seq<AuthEvent>, k: int)
    requires
        p != Phase::Resolved,
        0 <= k < es.len(),
        es[k] is Deadline,
    ensures
        phase_after(p, es) == Phase::Resolved,
        finish_count(p, es) == 1,
    decreases es.len(),
{
    lemma_resolved_stays(next_phase(p, es[0]), es.drop_first());
    if k > 0 && next_phase(p, es[0]) != Phase::Resolved {
        assert(es.drop_first()[k - 1] is Deadline);
        lemma_deadline_resolves(next_phase(p, es[0]), es.drop_first(), k - 1);
    }
    lemma_cleanup_at_most_once(p, es);
}

/// Once resolved, an attempt stays resolved.
pub proof fn lemma_resolved_stays(p: Phase, es: Seq<AuthEvent>)
    ensures
        p == Phase::Resolved ==> phase_after(p, es) == Phase::Resolved,
    decreases es.len(),
{
    if es.len() > 0 {
        lemma_resolved_stays(next_phase(p, es[0]), es.drop_first());
    }
}

} // verus!
