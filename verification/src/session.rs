//! The debug session: sequence numbering, the single-session slot, the
//! caller-facing operations, and the event loop's decision step.
//!
//! A session owns a monotonically increasing sequence counter.  Every
//! request it builds carries the next number, so over the life of a session
//! the numbers handed out are exactly 1, 2, ... in send order.  All access
//! goes through the `SessionSlot`, which holds at most one live session:
//! operations on an empty slot report `NoActiveSession`, starting over a
//! live session is refused, and stopping an empty slot quietly succeeds.

use vstd::prelude::*;
use crate::protocol::AdapterEvent;
use crate::protocol::Breakpoint;
use crate::protocol::JValue;
use crate::protocol::MessageKind;
use crate::protocol::Scope;
use crate::protocol::StackFrame;
use crate::protocol::Variable;
use crate::protocol::classify;
use crate::protocol::is_frame_of;
use crate::protocol::is_scope_of;
use crate::protocol::is_variable_of;
use crate::protocol::jfield_or_null;
use crate::protocol::message_kind;
use crate::protocol::parse_event;
use crate::protocol::parse_scopes;
use crate::protocol::parse_stack_frames;
use crate::protocol::parse_variables;
use crate::protocol::spec_body_arr;
use crate::protocol::spec_str_field_or;
use crate::protocol::spec_u64_field_or;
use crate::protocol::str_eq;
use crate::supervise::MAX_CONNECT_ATTEMPTS;
use crate::supervise::first_success_from;
use crate::encode::ascii_seq;
use crate::encode::args_empty;
use crate::encode::args_initialize;
use crate::encode::args_launch;
use crate::encode::args_set_breakpoints;
use crate::encode::args_uint;
use crate::encode::build_payload;
use crate::encode::initialize_args;
use crate::encode::launch_args_of;
use crate::encode::payload_of;
use crate::encode::set_breakpoints_args_of;
use crate::encode::uint_args_of;
use crate::frame::FramingError;
use crate::frame::encode_frame;
use crate::frame::frame_of;

verus! {

/// The error taxonomy of the session core.
#[derive(Clone, Debug)]
pub enum DebugError {
    /// A required collaborator is missing; carries remediation guidance.
    Precondition { guidance: String },
    /// Connecting to the adapter failed after the bounded retries; carries
    /// whatever the debugger process wrote to its error stream.
    Connection { attempts: u64, detail: String },
    /// The byte stream no longer frames correctly.
    Framing { error: FramingError },
    /// A response lacked the expected structure; names the request it
    /// answered.  The session stays alive.
    Protocol { what: String },
    /// An operation was attempted while no session is active.
    NoActiveSession,
}

/// The bytes of one fully framed request.
pub open spec fn framed_request(seq_no: u64, command: Seq<char>, args: Seq<u8>) -> Seq<u8> {
    frame_of(payload_of(seq_no, command, args))
}

/// One debug session: the sequence counter, the chosen port, and which of
/// the two owned resources (socket, child process) are currently attached.
/// The ghost record keeps every sequence number handed out, in send order.
pub struct DebugSession {
    pub seq: u64,
    pub port: u16,
    pub has_transport: bool,
    pub has_process: bool,
    pub sent: Ghost<Seq<u64>>,
}

impl DebugSession {
    /// The counter starts at one and the record grows with each send, so it
    /// holds exactly 1, 2, ... in order.
    pub open spec fn wf(self) -> bool {
        &&& self.seq >= 1
        &&& self.seq == self.sent@.len() + 1
        &&& forall|i: int| 0 <= i < self.sent@.len() ==> #[trigger] self.sent@[i] == i + 1
    }

    /// A fresh session for the chosen port, before spawn and connect.
    pub fn new(port: u16) -> (r: DebugSession)
        ensures
            r.wf(),
            r.seq == 1,
            r.sent@ == Seq::<u64>::empty(),
            r.port == port,
            !r.has_transport,
            !r.has_process,
    {
        DebugSession { seq: 1, port, has_transport: false, has_process: false, sent: Ghost(Seq::empty()) }
    }

    /// Record that the socket to the adapter is connected.
    pub fn mark_connected(&mut self)
        ensures
            *final(self) == (DebugSession { has_transport: true, ..*old(self) }),
    {
        self.has_transport = true;
    }

    /// Record that the debugger child process is attached.
    pub fn set_process(&mut self)
        ensures
            *final(self) == (DebugSession { has_process: true, ..*old(self) }),
    {
        self.has_process = true;
    }

    /// Release both owned resources; the driver performs the best-effort
    /// disconnect and the kill around this.
    pub fn disconnect(&mut self)
        ensures
            *final(self) == (DebugSession {
                has_transport: false,
                has_process: false,
                ..*old(self)
            }),
    {
        self.has_transport = false;
        self.has_process = false;
    }

    /// Hand out the next sequence number.
    pub fn next_seq(&mut self) -> (r: u64)
        requires
            old(self).wf(),
            old(self).seq < u64::MAX,
        ensures
            final(self).wf(),
            r == old(self).seq,
            *final(self) == (DebugSession {
                seq: (old(self).seq + 1) as u64,
                sent: Ghost(old(self).sent@.push(r)),
                ..*old(self)
            }),
    {
        let r = self.seq;
        self.seq = self.seq + 1;
        proof {
            self.sent@ = self.sent@.push(r);
        }
        r
    }

    /// Build one framed request carrying `command` and `args`, numbered
    /// with the next sequence number.
    pub fn build_request(&mut self, command: &str, args: &Vec<u8>) -> (r: Vec<u8>)
        requires
            old(self).wf(),
            old(self).seq < u64::MAX,
            vstd::utf8::is_ascii_chars(command@),
        ensures
            final(self).wf(),
            r@ == framed_request(old(self).seq, command@, args@),
            *final(self) == (DebugSession {
                seq: (old(self).seq + 1) as u64,
                sent: Ghost(old(self).sent@.push(old(self).seq)),
                ..*old(self)
            }),
    {
        let n = self.next_seq();
        let payload = build_payload(n, command, args);
        encode_frame(&payload)
    }
}

/// Sequence numbering law: on any session, the numbers handed out so far
/// are exactly 1 up to their count, in send order -- none skipped, none
/// reused.
pub proof fn lemma_request_numbering(s: DebugSession)
    requires
        s.wf(),
    ensures
        forall|i: int| 0 <= i < s.sent@.len() ==> #[trigger] s.sent@[i] == i + 1,
        forall|i: int, j: int| 0 <= i < j < s.sent@.len() ==> s.sent@[i] != s.sent@[j],
{
    assert forall|i: int, j: int| 0 <= i < j < s.sent@.len() implies s.sent@[i] != s.sent@[j] by {
        assert(s.sent@[i] == i + 1);
        assert(s.sent@[j] == j + 1);
    }
}

/// The single-session slot: it holds at most one live session, and every
/// caller-facing operation goes through it.
pub struct SessionSlot {
    pub session: Option<DebugSession>,
}

/// The contract every slot request shares: on a live session the request
/// bytes carry the session's next sequence number and the counter advances
/// by one; on an empty slot nothing changes and the caller hears
/// `NoActiveSession`.
pub open spec fn slot_request_ensures(
    pre: SessionSlot,
    post: SessionSlot,
    r: Result<Vec<u8>, DebugError>,
    command: Seq<char>,
    args: Seq<u8>,
) -> bool {
    match r {
        Ok(bytes) => {
            &&& pre.is_active()
            &&& post.is_active()
            &&& bytes@ == framed_request(pre.session->Some_0.seq, command, args)
            &&& post.session->Some_0 == (DebugSession {
                seq: (pre.session->Some_0.seq + 1) as u64,
                sent: Ghost(pre.session->Some_0.sent@.push(pre.session->Some_0.seq)),
                ..pre.session->Some_0
            })
        },
        Err(e) => {
            &&& e is NoActiveSession
            &&& !pre.is_active()
            &&& post == pre
        },
    }
}

impl SessionSlot {
    pub open spec fn is_active(self) -> bool {
        self.session is Some
    }

    pub open spec fn wf(self) -> bool {
        self.session matches Some(s) ==> s.wf()
    }

    /// The live session, if any, can still number another request.
    pub open spec fn can_send(self) -> bool {
        self.session matches Some(s) ==> s.seq < u64::MAX
    }

    /// An empty slot.
    pub fn new() -> (r: SessionSlot)
        ensures
            !r.is_active(),
            r.wf(),
    {
        SessionSlot { session: None }
    }

    /// Store a freshly started session.  Refused while one is live: the
    /// live session must be stopped first, or its process and socket would
    /// leak.
    pub fn store(&mut self, s: DebugSession) -> (r: Result<(), DebugError>)
        requires
            old(self).wf(),
            s.wf(),
        ensures
            final(self).wf(),
            old(self).is_active() ==> (r matches Err(DebugError::Precondition { .. }))
                && *final(self) == *old(self),
            !old(self).is_active() ==> (r is Ok) && final(self).session == Some(s),
    {
        if self.session.is_some() {
            Err(
                DebugError::Precondition {
                    guidance:
                        "a debug session is already active; stop it before starting another".to_owned(),
                },
            )
        } else {
            self.session = Some(s);
            Ok(())
        }
    }

    /// Stop the session: empty the slot and hand the session out for the
    /// driver's best-effort teardown.  On an already-empty slot there is
    /// nothing to do, and nothing to report: stop never fails.
    pub fn stop(&mut self) -> (r: Option<DebugSession>)
        requires
            old(self).wf(),
        ensures
            !final(self).is_active(),
            final(self).wf(),
            r == old(self).session,
    {
        self.session.take()
    }

    /// Build the framed request of a command that carries one
    /// unsigned-integer argument.
    fn request_uint(&mut self, command: &str, key: &str, value: u64) -> (r: Result<
        Vec<u8>,
        DebugError,
    >)
        requires
            old(self).wf(),
            old(self).can_send(),
            vstd::utf8::is_ascii_chars(command@),
            vstd::utf8::is_ascii_chars(key@),
        ensures
            final(self).wf(),
            slot_request_ensures(*old(self), *final(self), r, command@, uint_args_of(key@, value)),
    {
        match &mut self.session {
            Some(s) => {
                let args = args_uint(key, value);
                Ok(s.build_request(command, &args))
            },
            None => Err(DebugError::NoActiveSession),
        }
    }

    /// The `continue` request for `thread_id`.
    pub fn request_continue(&mut self, thread_id: u32) -> (r: Result<Vec<u8>, DebugError>)
        requires
            old(self).wf(),
            old(self).can_send(),
        ensures
            final(self).wf(),
            slot_request_ensures(
                *old(self),
                *final(self),
                r,
                "continue"@,
                uint_args_of("threadId"@, thread_id as u64),
            ),
    {
        proof {
            reveal_strlit("continue");
            reveal_strlit("threadId");
            assert(vstd::utf8::is_ascii_chars("continue"@));
            assert(vstd::utf8::is_ascii_chars("threadId"@));
        }
        self.request_uint("continue", "threadId", thread_id as u64)
    }

    /// The step-over (`next`) request for `thread_id`.
    pub fn request_step_over(&mut self, thread_id: u32) -> (r: Result<Vec<u8>, DebugError>)
        requires
            old(self).wf(),
            old(self).can_send(),
        ensures
            final(self).wf(),
            slot_request_ensures(
                *old(self),
                *final(self),
                r,
                "next"@,
                uint_args_of("threadId"@, thread_id as u64),
            ),
    {
        proof {
            reveal_strlit("next");
            reveal_strlit("threadId");
            assert(vstd::utf8::is_ascii_chars("next"@));
            assert(vstd::utf8::is_ascii_chars("threadId"@));
        }
        self.request_uint("next", "threadId", thread_id as u64)
    }

    /// The step-into (`stepIn`) request for `thread_id`.
    pub fn request_step_into(&mut self, thread_id: u32) -> (r: Result<Vec<u8>, DebugError>)
        requires
            old(self).wf(),
            old(self).can_send(),
        ensures
            final(self).wf(),
            slot_request_ensures(
                *old(self),
                *final(self),
                r,
                "stepIn"@,
                uint_args_of("threadId"@, thread_id as u64),
            ),
    {
        proof {
            reveal_strlit("stepIn");
            reveal_strlit("threadId");
            assert(vstd::utf8::is_ascii_chars("stepIn"@));
            assert(vstd::utf8::is_ascii_chars("threadId"@));
        }
        self.request_uint("stepIn", "threadId", thread_id as u64)
    }

    /// The step-out (`stepOut`) request for `thread_id`.
    pub fn request_step_out(&mut self, thread_id: u32) -> (r: Result<Vec<u8>, DebugError>)
        requires
            old(self).wf(),
            old(self).can_send(),
        ensures
            final(self).wf(),
            slot_request_ensures(
                *old(self),
                *final(self),
                r,
                "stepOut"@,
                uint_args_of("threadId"@, thread_id as u64),
            ),
    {
        proof {
            reveal_strlit("stepOut");
            reveal_strlit("threadId");
            assert(vstd::utf8::is_ascii_chars("stepOut"@));
            assert(vstd::utf8::is_ascii_chars("threadId"@));
        }
        self.request_uint("stepOut", "threadId", thread_id as u64)
    }

    /// The `stackTrace` request for `thread_id`.
    pub fn request_stack_trace(&mut self, thread_id: u32) -> (r: Result<Vec<u8>, DebugError>)
        requires
            old(self).wf(),
            old(self).can_send(),
        ensures
            final(self).wf(),
            slot_request_ensures(
                *old(self),
                *final(self),
                r,
                "stackTrace"@,
                uint_args_of("threadId"@, thread_id as u64),
            ),
    {
        proof {
            reveal_strlit("stackTrace");
            reveal_strlit("threadId");
            assert(vstd::utf8::is_ascii_chars("stackTrace"@));
            assert(vstd::utf8::is_ascii_chars("threadId"@));
        }
        self.request_uint("stackTrace", "threadId", thread_id as u64)
    }

    /// The `scopes` request for `frame_id`.
    pub fn request_scopes(&mut self, frame_id: u32) -> (r: Result<Vec<u8>, DebugError>)
        requires
            old(self).wf(),
            old(self).can_send(),
        ensures
            final(self).wf(),
            slot_request_ensures(
                *old(self),
                *final(self),
                r,
                "scopes"@,
                uint_args_of("frameId"@, frame_id as u64),
            ),
    {
        proof {
            reveal_strlit("scopes");
            reveal_strlit("frameId");
            assert(vstd::utf8::is_ascii_chars("scopes"@));
            assert(vstd::utf8::is_ascii_chars("frameId"@));
        }
        self.request_uint("scopes", "frameId", frame_id as u64)
    }

    /// The `variables` request for `variables_reference`.
    pub fn request_variables(&mut self, variables_reference: u32) -> (r: Result<
        Vec<u8>,
        DebugError,
    >)
        requires
            old(self).wf(),
            old(self).can_send(),
        ensures
            final(self).wf(),
            slot_request_ensures(
                *old(self),
                *final(self),
                r,
                "variables"@,
                uint_args_of("variablesReference"@, variables_reference as u64),
            ),
    {
        proof {
            reveal_strlit("variables");
            reveal_strlit("variablesReference");
            assert(vstd::utf8::is_ascii_chars("variables"@));
            assert(vstd::utf8::is_ascii_chars("variablesReference"@));
        }
        self.request_uint("variables", "variablesReference", variables_reference as u64)
    }
}

/// Interpret a `stackTrace` response for the caller: the typed frames, or
/// the protocol error a body without `stackFrames` surfaces.  The session
/// stays alive either way.
pub fn stack_trace_from_response(m: &JValue) -> (r: Result<Vec<StackFrame>, DebugError>)
    ensures
        match r {
            Ok(frames) => spec_body_arr(*m, "stackFrames"@) matches Some(a) && frames@.len()
                == a.len() && (forall|j: int|
                0 <= j < a.len() ==> is_frame_of(a[j], #[trigger] frames@[j])),
            Err(e) => (e matches DebugError::Protocol { what } && what@ == "stackTrace"@)
                && spec_body_arr(*m, "stackFrames"@) is None,
        },
{
    match parse_stack_frames(m) {
        Some(frames) => Ok(frames),
        None => Err(DebugError::Protocol { what: "stackTrace".to_owned() }),
    }
}

/// Interpret a `scopes` response for the caller.
pub fn scopes_from_response(m: &JValue) -> (r: Result<Vec<Scope>, DebugError>)
    ensures
        match r {
            Ok(scopes) => spec_body_arr(*m, "scopes"@) matches Some(a) && scopes@.len() == a.len()
                && (forall|j: int| 0 <= j < a.len() ==> is_scope_of(a[j], #[trigger] scopes@[j])),
            Err(e) => (e matches DebugError::Protocol { what } && what@ == "scopes"@)
                && spec_body_arr(*m, "scopes"@) is None,
        },
{
    match parse_scopes(m) {
        Some(scopes) => Ok(scopes),
        None => Err(DebugError::Protocol { what: "scopes".to_owned() }),
    }
}

/// Interpret a `variables` response for the caller.
pub fn variables_from_response(m: &JValue) -> (r: Result<Vec<Variable>, DebugError>)
    ensures
        match r {
            Ok(vars) => spec_body_arr(*m, "variables"@) matches Some(a) && vars@.len() == a.len()
                && (forall|j: int| 0 <= j < a.len() ==> is_variable_of(a[j], #[trigger] vars@[j])),
            Err(e) => (e matches DebugError::Protocol { what } && what@ == "variables"@)
                && spec_body_arr(*m, "variables"@) is None,
        },
{
    match parse_variables(m) {
        Some(vars) => Ok(vars),
        None => Err(DebugError::Protocol { what: "variables".to_owned() }),
    }
}

/// An outward notification, as the front end observes the session.
#[derive(Clone, Debug)]
pub enum Notification {
    Stopped { reason: String, thread_id: u64 },
    Continued,
    Terminated,
    Output { category: String, output: String },
}

/// What one turn of the event loop decides: the notifications to emit, and
/// whether the loop exits because the session ended.
pub struct EventStep {
    pub notifications: Vec<Notification>,
    pub exit: bool,
}

/// The contract of one event-loop turn.  A failed read ends the session:
/// observers hear `Terminated` and the slot empties.  A `terminated` event
/// does the same.  `stopped`, `continued` and non-empty `output` events
/// surface as notifications with the session intact; every other message --
/// `exited` and `initialized` included -- is noted and changes nothing.
pub open spec fn event_step_ensures(
    pre: SessionSlot,
    post: SessionSlot,
    read: Option<JValue>,
    r: EventStep,
) -> bool {
    match read {
        None => {
            &&& !post.is_active()
            &&& r.exit
            &&& r.notifications@.len() == 1
            &&& r.notifications@[0] is Terminated
        },
        Some(m) => {
            let name = spec_str_field_or(m, "event"@, Seq::<char>::empty());
            let body = jfield_or_null(m, "body"@);
            if message_kind(m) != MessageKind::Event {
                post == pre && !r.exit && r.notifications@.len() == 0
            } else if name == "terminated"@ {
                &&& !post.is_active()
                &&& r.exit
                &&& r.notifications@.len() == 1
                &&& r.notifications@[0] is Terminated
            } else if name == "stopped"@ {
                &&& post == pre
                &&& !r.exit
                &&& r.notifications@.len() == 1
                &&& (r.notifications@[0] matches Notification::Stopped { reason, thread_id }
                    && reason@ == spec_str_field_or(body, "reason"@, "unknown"@) && thread_id
                    == spec_u64_field_or(body, "threadId"@, 0))
            } else if name == "continued"@ {
                &&& post == pre
                &&& !r.exit
                &&& r.notifications@.len() == 1
                &&& r.notifications@[0] is Continued
            } else if name == "output"@ {
                let out = spec_str_field_or(body, "output"@, Seq::<char>::empty());
                &&& post == pre
                &&& !r.exit
                &&& if out.len() == 0 {
                    r.notifications@.len() == 0
                } else {
                    r.notifications@.len() == 1 && (r.notifications@[0]
                        matches Notification::Output { category, output } && category@
                        == spec_str_field_or(body, "category"@, "stdout"@) && output@ == out)
                }
            } else {
                post == pre && !r.exit && r.notifications@.len() == 0
            }
        },
    }
}

/// One turn of the event loop: interpret what the transport read produced,
/// collect the notifications to emit, and clear the slot when the session
/// ended.  After a `terminated` event the slot is empty, so any operation
/// attempted afterwards reports `NoActiveSession`.
pub fn event_loop_step(slot: &mut SessionSlot, read: &Result<JValue, DebugError>) -> (r: EventStep)
    requires
        old(slot).wf(),
    ensures
        final(slot).wf(),
        event_step_ensures(
            *old(slot),
            *final(slot),
            (match read {
                Ok(m) => Some(*m),
                Err(_) => None,
            }),
            r,
        ),
{
    proof {
        reveal_strlit("");
        reveal_strlit("stopped");
        reveal_strlit("continued");
        reveal_strlit("terminated");
        reveal_strlit("exited");
        reveal_strlit("output");
        reveal_strlit("initialized");
        reveal_strlit("process");
        reveal_strlit("unknown");
        reveal_strlit("stdout");
        assert(""@ =~= Seq::<char>::empty());
        assert("stopped"@.len() == 7);
        assert("continued"@.len() == 9);
        assert("terminated"@.len() == 10);
        assert("exited"@.len() == 6);
        assert("output"@.len() == 6);
        assert("initialized"@.len() == 11);
        assert("process"@.len() == 7);
        assert("stopped"@[0] == 's');
        assert("process"@[0] == 'p');
        assert("exited"@[0] == 'e');
        assert("output"@[0] == 'o');
    }
    let mut notifications: Vec<Notification> = Vec::new();
    match read {
        Err(_) => {
            slot.session = None;
            notifications.push(Notification::Terminated);
            EventStep { notifications, exit: true }
        },
        Ok(m) => {
            match classify(m) {
                MessageKind::Event => {
                    let ev = parse_event(m);
                    match ev {
                        AdapterEvent::Stopped { reason, thread_id } => {
                            notifications.push(Notification::Stopped { reason, thread_id });
                            EventStep { notifications, exit: false }
                        },
                        AdapterEvent::Continued => {
                            notifications.push(Notification::Continued);
                            EventStep { notifications, exit: false }
                        },
                        AdapterEvent::Terminated => {
                            slot.session = None;
                            notifications.push(Notification::Terminated);
                            EventStep { notifications, exit: true }
                        },
                        AdapterEvent::Exited { .. } => EventStep { notifications, exit: false },
                        AdapterEvent::Output { category, output } => {
                            if output.as_str().is_empty() {
                                EventStep { notifications, exit: false }
                            } else {
                                notifications.push(Notification::Output { category, output });
                                EventStep { notifications, exit: false }
                            }
                        },
                        AdapterEvent::Initialized => EventStep { notifications, exit: false },
                        AdapterEvent::Process { .. } => EventStep { notifications, exit: false },
                        AdapterEvent::Unknown { .. } => EventStep { notifications, exit: false },
                    }
                },
                _ => EventStep { notifications, exit: false },
            }
        },
    }
}

/// Session-end law: once the event loop has processed a `terminated` event,
/// the slot is empty, and whatever operation is attempted next reports
/// `NoActiveSession` and leaves the empty slot unchanged.
pub proof fn lemma_terminated_then_no_active_session(
    pre: SessionSlot,
    mid: SessionSlot,
    post: SessionSlot,
    m: JValue,
    step_result: EventStep,
    op: Result<Vec<u8>, DebugError>,
    command: Seq<char>,
    args: Seq<u8>,
)
    requires
        message_kind(m) == MessageKind::Event,
        spec_str_field_or(m, "event"@, Seq::<char>::empty()) == "terminated"@,
        event_step_ensures(pre, mid, Some(m), step_result),
        slot_request_ensures(mid, post, op, command, args),
    ensures
        !mid.is_active(),
        op matches Err(e) && e is NoActiveSession,
        post == mid,
{
}

/// Run the bounded connect-retry policy over the would-be outcome of each
/// attempt.  Attempts are tried in order, half a second apart, at most ten:
/// the first success ends the retry and reports how many attempts were
/// used; when all ten fail, the result is a connection error carrying the
/// ten-attempt count and whatever the debugger wrote to its error stream.
pub fn connect_with_retries(outcomes: &Vec<bool>, captured_stderr: &str) -> (r: Result<
    u64,
    DebugError,
>)
    requires
        outcomes@.len() >= MAX_CONNECT_ATTEMPTS,
    ensures
        match first_success_from(outcomes@, MAX_CONNECT_ATTEMPTS as int, 0) {
            Some(i) => r == Ok::<u64, DebugError>((i + 1) as u64),
            None => r matches Err(e) && (e matches DebugError::Connection { attempts, detail }
                && attempts == MAX_CONNECT_ATTEMPTS && detail@ == captured_stderr@),
        },
{
    let mut i: u64 = 0;
    while i < MAX_CONNECT_ATTEMPTS
        invariant
            0 <= i <= MAX_CONNECT_ATTEMPTS,
            outcomes@.len() >= MAX_CONNECT_ATTEMPTS,
            first_success_from(outcomes@, MAX_CONNECT_ATTEMPTS as int, 0) == first_success_from(
                outcomes@,
                MAX_CONNECT_ATTEMPTS as int,
                i as int,
            ),
        decreases MAX_CONNECT_ATTEMPTS - i,
    {
        let ok = outcomes[i as usize];
        if ok {
            return Ok(i + 1);
        }
        i = i + 1;
    }
    Err(
        DebugError::Connection {
            attempts: MAX_CONNECT_ATTEMPTS,
            detail: captured_stderr.to_owned(),
        },
    )
}

/// One outgoing request of the start sequence: the command it carries and
/// its framed bytes.
pub struct PlannedRequest {
    pub command: String,
    pub frame: Vec<u8>,
}

/// The distinct source files of the requested breakpoints, in
/// first-appearance order.
pub open spec fn distinct_files(bps: Seq<Breakpoint>) -> Seq<Seq<char>>
    decreases bps.len(),
{
    if bps.len() == 0 {
        Seq::empty()
    } else {
        let prev = distinct_files(bps.drop_last());
        if prev.contains(bps.last().file@) {
            prev
        } else {
            prev.push(bps.last().file@)
        }
    }
}

/// The requested lines of `file`, in request order.
pub open spec fn lines_for_file(bps: Seq<Breakpoint>, file: Seq<char>) -> Seq<u32>
    decreases bps.len(),
{
    if bps.len() == 0 {
        Seq::empty()
    } else {
        let prev = lines_for_file(bps.drop_last(), file);
        if bps.last().file@ == file {
            prev.push(bps.last().line)
        } else {
            prev
        }
    }
}

/// There are never more distinct files than breakpoints.
proof fn lemma_distinct_files_len(bps: Seq<Breakpoint>)
    ensures
        distinct_files(bps).len() <= bps.len(),
    decreases bps.len(),
{
    if bps.len() > 0 {
        lemma_distinct_files_len(bps.drop_last());
    }
}

fn contains_file(files: &Vec<String>, name: &str) -> (r: bool)
    ensures
        r == files@.map_values(|s: String| s@).contains(name@),
{
    let ghost views = files@.map_values(|s: String| s@);
    let mut i: usize = 0;
    while i < files.len()
        invariant
            i <= files@.len(),
            views == files@.map_values(|s: String| s@),
            forall|j: int| 0 <= j < i ==> #[trigger] views[j] != name@,
        decreases files@.len() - i,
    {
        if str_eq(files[i].as_str(), name) {
            proof {
                assert(views[i as int] == name@);
            }
            return true;
        }
        i = i + 1;
    }
    proof {
        assert forall|j: int| 0 <= j < views.len() implies #[trigger] views[j] != name@ by {}
    }
    false
}

/// Collect the distinct source files of the breakpoints, in
/// first-appearance order.
fn distinct_file_list(breakpoints: &Vec<Breakpoint>) -> (r: Vec<String>)
    ensures
        r@.map_values(|s: String| s@) == distinct_files(breakpoints@),
{
    let mut files: Vec<String> = Vec::new();
    proof {
        assert(files@.map_values(|s: String| s@) =~= distinct_files(breakpoints@.take(0)));
    }
    let mut i: usize = 0;
    while i < breakpoints.len()
        invariant
            i <= breakpoints@.len(),
            files@.map_values(|s: String| s@) == distinct_files(breakpoints@.take(i as int)),
        decreases breakpoints@.len() - i,
    {
        let ghost pre_views = files@.map_values(|s: String| s@);
        let seen = contains_file(&files, breakpoints[i].file.as_str());
        if !seen {
            files.push(breakpoints[i].file.clone());
        }
        i = i + 1;
        proof {
            let pre = breakpoints@.take(i as int);
            assert(pre.drop_last() =~= breakpoints@.take(i - 1));
            assert(pre.last() == breakpoints@[i - 1]);
            if !seen {
                assert(files@.map_values(|s: String| s@) =~= pre_views.push(
                    breakpoints@[i - 1].file@,
                ));
            }
        }
    }
    proof {
        assert(breakpoints@.take(breakpoints@.len() as int) =~= breakpoints@);
    }
    files
}

/// Collect the requested lines of `file`, in request order.
fn group_lines(breakpoints: &Vec<Breakpoint>, file: &str) -> (r: Vec<u32>)
    ensures
        r@ == lines_for_file(breakpoints@, file@),
{
    let mut lines: Vec<u32> = Vec::new();
    proof {
        assert(lines@ =~= lines_for_file(breakpoints@.take(0), file@));
    }
    let mut i: usize = 0;
    while i < breakpoints.len()
        invariant
            i <= breakpoints@.len(),
            lines@ == lines_for_file(breakpoints@.take(i as int), file@),
        decreases breakpoints@.len() - i,
    {
        if str_eq(breakpoints[i].file.as_str(), file) {
            lines.push(breakpoints[i].line);
        }
        i = i + 1;
        proof {
            let pre = breakpoints@.take(i as int);
            assert(pre.drop_last() =~= breakpoints@.take(i - 1));
            assert(pre.last() == breakpoints@[i - 1]);
        }
    }
    proof {
        assert(breakpoints@.take(breakpoints@.len() as int) =~= breakpoints@);
    }
    lines
}

/// Build the initialization conversation of a fresh session, in protocol
/// order: `initialize`, then `launch` (required even though the debuggee
/// already waits for a client), then one `setBreakpoints` per distinct
/// source file -- in first-appearance order, each carrying that file's
/// requested lines -- then `configurationDone`, which releases the
/// debuggee.
pub fn start_request_plan(
    session: &mut DebugSession,
    script_path: &str,
    project_path: &str,
    breakpoints: &Vec<Breakpoint>,
) -> (r: Vec<PlannedRequest>)
    requires
        old(session).wf(),
        old(session).seq + 3 + breakpoints@.len() <= u64::MAX,
    ensures
        final(session).wf(),
        final(session).seq == old(session).seq + r@.len(),
        r@.len() == distinct_files(breakpoints@).len() + 3,
        r@[0].command@ == "initialize"@,
        r@[0].frame@ == framed_request(old(session).seq, "initialize"@, initialize_args()),
        r@[1].command@ == "launch"@,
        r@[1].frame@ == framed_request(
            (old(session).seq + 1) as u64,
            "launch"@,
            launch_args_of(script_path@, project_path@),
        ),
        forall|g: int|
            0 <= g < distinct_files(breakpoints@).len() ==> (#[trigger] r@[2 + g]).command@
                == "setBreakpoints"@ && r@[2 + g].frame@ == framed_request(
                (old(session).seq + 2 + g) as u64,
                "setBreakpoints"@,
                set_breakpoints_args_of(
                    distinct_files(breakpoints@)[g],
                    lines_for_file(breakpoints@, distinct_files(breakpoints@)[g]),
                ),
            ),
        r@[r@.len() - 1].command@ == "configurationDone"@,
        r@[r@.len() - 1].frame@ == framed_request(
            (old(session).seq + r@.len() - 1) as u64,
            "configurationDone"@,
            ascii_seq("{}"@),
        ),
{
    proof {
        reveal_strlit("initialize");
        reveal_strlit("launch");
        reveal_strlit("setBreakpoints");
        reveal_strlit("configurationDone");
        assert(vstd::utf8::is_ascii_chars("initialize"@));
        assert(vstd::utf8::is_ascii_chars("launch"@));
        assert(vstd::utf8::is_ascii_chars("setBreakpoints"@));
        assert(vstd::utf8::is_ascii_chars("configurationDone"@));
        lemma_distinct_files_len(breakpoints@);
    }
    let mut plan: Vec<PlannedRequest> = Vec::new();
    let init_args = args_initialize();
    let init_frame = session.build_request("initialize", &init_args);
    plan.push(PlannedRequest { command: "initialize".to_owned(), frame: init_frame });
    let launch_args = args_launch(script_path, project_path);
    let launch_frame = session.build_request("launch", &launch_args);
    plan.push(PlannedRequest { command: "launch".to_owned(), frame: launch_frame });
    let files = distinct_file_list(breakpoints);
    let ghost file_views = distinct_files(breakpoints@);
    let ghost seq0 = old(session).seq;
    let mut g: usize = 0;
    while g < files.len()
        invariant
            g <= files@.len(),
            files@.map_values(|s: String| s@) == file_views,
            file_views == distinct_files(breakpoints@),
            file_views.len() <= breakpoints@.len(),
            seq0 == old(session).seq,
            seq0 + 3 + breakpoints@.len() <= u64::MAX,
            session.wf(),
            session.seq == seq0 + 2 + g,
            plan@.len() == 2 + g,
            plan@[0].command@ == "initialize"@,
            plan@[0].frame@ == framed_request(seq0, "initialize"@, initialize_args()),
            plan@[1].command@ == "launch"@,
            plan@[1].frame@ == framed_request(
                (seq0 + 1) as u64,
                "launch"@,
                launch_args_of(script_path@, project_path@),
            ),
            forall|k: int|
                0 <= k < g ==> (#[trigger] plan@[2 + k]).command@ == "setBreakpoints"@ && plan@[2
                    + k].frame@ == framed_request(
                    (seq0 + 2 + k) as u64,
                    "setBreakpoints"@,
                    set_breakpoints_args_of(
                        file_views[k],
                        lines_for_file(breakpoints@, file_views[k]),
                    ),
                ),
            vstd::utf8::is_ascii_chars("setBreakpoints"@),
        decreases files@.len() - g,
    {
        let lines = group_lines(breakpoints, files[g].as_str());
        let bp_args = args_set_breakpoints(files[g].as_str(), &lines);
        let bp_frame = session.build_request("setBreakpoints", &bp_args);
        plan.push(PlannedRequest { command: "setBreakpoints".to_owned(), frame: bp_frame });
        g = g + 1;
        proof {
            assert(files@.map_values(|s: String| s@)[g - 1] == files@[g - 1]@);
        }
    }
    let done_args = args_empty();
    let done_frame = session.build_request("configurationDone", &done_args);
    plan.push(PlannedRequest { command: "configurationDone".to_owned(), frame: done_frame });
    plan
}

/// The interpreter path a session requires: the project's own virtual
/// environment's Python, laid out per platform.
pub fn venv_python_path(project_path: &str, windows: bool) -> (r: String)
    ensures
        windows ==> r@ == project_path@ + "/.venv/Scripts/python.exe"@,
        !windows ==> r@ == project_path@ + "/.venv/bin/python"@,
{
    let mut path = project_path.to_owned();
    if windows {
        path.append("/.venv/Scripts/python.exe");
    } else {
        path.append("/.venv/bin/python");
    }
    path
}

/// The fatal report for a missing interpreter: names the path that was
/// checked and how to set the environment up.
pub fn missing_interpreter_error(python_exe: &str) -> (r: DebugError)
    ensures
        r matches DebugError::Precondition { guidance } && guidance@ == "Python executable not found: "@
            + python_exe@ + "\n\nCreate the virtual environment first: open the project settings and create a Python virtual environment."@,
{
    let mut guidance = String::from_str("Python executable not found: ");
    guidance.append(python_exe);
    guidance.append(
        "\n\nCreate the virtual environment first: open the project settings and create a Python virtual environment.",
    );
    DebugError::Precondition { guidance }
}

/// The fatal report for a missing debug support library: carries the
/// installation guidance and what the interpreter printed.
pub fn missing_debugpy_error(stderr: &str) -> (r: DebugError)
    ensures
        r matches DebugError::Precondition { guidance } && guidance@ == "debugpy is not installed. Install it from the package manager toolbar: search for \"debugpy\" and install it.\n\nError: "@
            + stderr@,
{
    let mut guidance = String::from_str(
        "debugpy is not installed. Install it from the package manager toolbar: search for \"debugpy\" and install it.\n\nError: ",
    );
    guidance.append(stderr);
    DebugError::Precondition { guidance }
}

} // verus!
