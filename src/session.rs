//! The connection session: what to do on open, on each frame, on close and on
//! error. The caller owns the connection, hands each event to `Session::handle`
//! and carries out the action that comes back.
use vstd::prelude::*;
use crate::channels::{plan_requests, views, copy_all, SubscriptionPlan};
use crate::clock::{stamp_text_spec, CaptureTime};
use crate::text::{push_char, push_text};
use crate::writer::{recorded, RotatingWriter, WritePlan};

verus! {

/// When and how fast to reconnect after the connection closes.
#[derive(Clone, Copy, Debug, PartialEq, Eq, Structural)]
pub struct RetryPolicy {
    /// The most reconnects in a row without a successful open; `None`: no limit.
    pub max_attempts: Option<u64>,
    /// The wait before the first reconnect, doubled for each later one.
    pub base_delay_ms: u64,
    /// The longest wait.
    pub max_delay_ms: u64,
}

/// The wait before reconnect number `n + 1` of a run.
pub open spec fn backoff_spec(base: nat, cap: nat, n: nat) -> nat
    decreases n,
{
    if n == 0 {
        if base <= cap { base } else { cap }
    } else {
        let d = 2 * backoff_spec(base, cap, (n - 1) as nat);
        if d <= cap { d } else { cap }
    }
}

proof fn lemma_backoff_settles(base: nat, cap: nat, k: nat, n: nat)
    requires
        k <= n,
        ({
            let d = backoff_spec(base, cap, k);
            (if 2 * d <= cap { 2 * d } else { cap }) == d
        }),
    ensures
        backoff_spec(base, cap, n) == backoff_spec(base, cap, k),
    decreases n - k,
{
    if k < n {
        lemma_backoff_settles(base, cap, k, (n - 1) as nat);
    }
}

impl RetryPolicy {
    /// Reconnect at once, without limit.
    pub fn immediate() -> (r: RetryPolicy)
        ensures
            r.max_attempts is None,
            r.base_delay_ms == 0,
            r.max_delay_ms == 0,
    {
        RetryPolicy { max_attempts: None, base_delay_ms: 0, max_delay_ms: 0 }
    }

    /// Whether another reconnect is allowed after `attempts` in a row.
    pub open spec fn allows(&self, attempts: u64) -> bool {
        match self.max_attempts {
            Some(m) => attempts < m,
            None => true,
        }
    }

    /// The wait before the reconnect that follows `attempts` earlier ones.
    pub fn backoff(&self, attempts: u64) -> (r: u64)
        ensures
            r == backoff_spec(self.base_delay_ms as nat, self.max_delay_ms as nat, attempts as nat),
    {
        let cap = self.max_delay_ms;
        let mut d: u64 = if self.base_delay_ms <= cap { self.base_delay_ms } else { cap };
        let mut i: u64 = 0;
        while i < attempts
            invariant
                i <= attempts,
                cap == self.max_delay_ms,
                d <= cap,
                d == backoff_spec(self.base_delay_ms as nat, cap as nat, i as nat),
            decreases attempts - i,
        {
            let next: u64 = if d <= cap / 2 { 2 * d } else { cap };
            if next == d {
                proof {
                    lemma_backoff_settles(
                        self.base_delay_ms as nat,
                        cap as nat,
                        i as nat,
                        attempts as nat,
                    );
                }
                return d;
            }
            d = next;
            i = i + 1;
        }
        d
    }
}

#[derive(Clone, Copy, Debug, PartialEq, Eq, Structural)]
pub enum SessionState {
    Connecting,
    Open,
    Closed,
    /// The retry policy gave up.
    Stopped,
}

/// What the connection reports.
pub enum Event {
    /// The handshake succeeded.
    Opened,
    /// A text frame, with the time it was received.
    Text { time: CaptureTime, text: String },
    /// A frame that is not text (binary, ping, pong), as described by the caller.
    NonText { description: String },
    /// The connection closed, with its close code and reason.
    Closed { code: u16, reason: String },
    /// A transport error; it does not close the connection.
    Error { description: String },
}

/// What the caller does next.
pub enum Action {
    /// Send these subscribe requests, in order.
    Subscribe(Vec<String>),
    /// Carry out this write on the log files.
    Persist(WritePlan),
    /// Connect again to the same endpoint after the wait.
    Reconnect { delay_ms: u64 },
    /// Log the event as an anomaly; nothing else changes.
    Report,
    /// Stop: the retry policy allows no more reconnects.
    GiveUp,
}

/// The line stored for a text frame: `<timestamp>, <text>` and a line end.
pub open spec fn line_spec(time: CaptureTime, text: Seq<char>) -> Seq<char> {
    stamp_text_spec(time) + seq![',', ' '] + text + seq!['\n']
}

/// The line stored for a text frame received at `time`.
pub fn capture_line(time: &CaptureTime, text: &str) -> (r: String)
    requires
        time.wf(),
    ensures
        r@ == line_spec(*time, text@),
{
    let mut s = time.stamp_text();
    push_char(&mut s, ',');
    push_char(&mut s, ' ');
    push_text(&mut s, text);
    push_char(&mut s, '\n');
    assert(s@ =~= line_spec(*time, text@));
    s
}

pub struct Session {
    pub state: SessionState,
    /// The subscribe requests, built once from the instruments at start.
    pub requests: Vec<String>,
    pub writer: RotatingWriter,
    pub policy: RetryPolicy,
    /// Reconnects since the last successful open.
    pub attempts: u64,
}

/// How one event takes session `s` to `t` with action `a`.
pub open spec fn handled(s: Session, e: Event, t: Session, a: Action) -> bool {
    &&& t.requests == s.requests
    &&& t.policy == s.policy
    &&& match e {
        Event::Opened => {
            &&& t.state == SessionState::Open
            &&& t.attempts == 0
            &&& t.writer == s.writer
            &&& a matches Action::Subscribe(v) && views(v@) == views(s.requests@)
        },
        Event::Text { time, text } => {
            &&& t.state == s.state
            &&& t.attempts == s.attempts
            &&& a matches Action::Persist(plan) && recorded(
                s.writer,
                time,
                line_spec(time, text@),
                t.writer,
                plan,
            )
        },
        Event::Closed { .. } => {
            &&& t.writer == s.writer
            &&& if s.policy.allows(s.attempts) {
                &&& t.state == SessionState::Connecting
                &&& t.attempts == if s.attempts < u64::MAX { (s.attempts + 1) as u64 } else { s.attempts }
                &&& a == Action::Reconnect {
                    delay_ms: backoff_spec(
                        s.policy.base_delay_ms as nat,
                        s.policy.max_delay_ms as nat,
                        s.attempts as nat,
                    ) as u64,
                }
            } else {
                &&& t.state == SessionState::Stopped
                &&& t.attempts == s.attempts
                &&& a == Action::GiveUp
            }
        },
        _ => {
            &&& t.state == s.state
            &&& t.attempts == s.attempts
            &&& t.writer == s.writer
            &&& a == Action::Report
        },
    }
}

impl Session {
    /// A session about to connect, with the requests of `plan` for the
    /// discovered instruments.
    pub fn new(
        plan: &SubscriptionPlan,
        instruments: &Vec<String>,
        writer: RotatingWriter,
        policy: RetryPolicy,
    ) -> (r: Session)
        requires
            writer.wf(),
        ensures
            r.wf(),
            r.state == SessionState::Connecting,
            views(r.requests@) == plan_requests(*plan, views(instruments@)),
            r.writer == writer,
            r.policy == policy,
            r.attempts == 0,
    {
        let requests = plan.requests(instruments);
        Session { state: SessionState::Connecting, requests, writer, policy, attempts: 0 }
    }

    pub open spec fn wf(&self) -> bool {
        self.writer.wf()
    }

    /// Handles one event and says what to do about it.
    pub fn handle(&mut self, event: Event) -> (a: Action)
        requires
            old(self).wf(),
            event matches Event::Text { time, .. } ==> time.wf(),
        ensures
            final(self).wf(),
            handled(*old(self), event, *final(self), a),
    {
        match event {
            Event::Opened => {
                self.state = SessionState::Open;
                self.attempts = 0;
                Action::Subscribe(copy_all(&self.requests))
            },
            Event::Text { time, text } => {
                let line = capture_line(&time, text.as_str());
                let plan = self.writer.record(&time, line);
                Action::Persist(plan)
            },
            Event::Closed { .. } => {
                let allowed = match self.policy.max_attempts {
                    Some(m) => self.attempts < m,
                    None => true,
                };
                if allowed {
                    let delay_ms = self.policy.backoff(self.attempts);
                    self.state = SessionState::Connecting;
                    if self.attempts < u64::MAX {
                        self.attempts = self.attempts + 1;
                    }
                    Action::Reconnect { delay_ms }
                } else {
                    self.state = SessionState::Stopped;
                    Action::GiveUp
                }
            },
            _ => Action::Report,
        }
    }
}

/// After a close that the policy allows a reconnect for, the session asks for
/// exactly one reconnect; on the open that follows it sends again the full set
/// of requests that it was built with.
pub proof fn lemma_reconnect_resubscribes(
    s0: Session,
    close: Event,
    s1: Session,
    a1: Action,
    s2: Session,
    a2: Action,
)
    requires
        close is Closed,
        s0.policy.allows(s0.attempts),
        handled(s0, close, s1, a1),
        handled(s1, Event::Opened, s2, a2),
    ensures
        a1 is Reconnect,
        s0.policy.max_delay_ms == 0 ==> (a1 == (Action::Reconnect { delay_ms: 0 })),
        s1.state == SessionState::Connecting,
        s2.state == SessionState::Open,
        s2.requests == s0.requests,
        a2 matches Action::Subscribe(v) && views(v@) == views(s0.requests@),
{
}

} // verus!
