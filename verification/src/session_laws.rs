//! What holds of every session, whatever it is asked.

use vstd::prelude::*;
use crate::backend::BackendView;
use crate::session::{
    can_number, handled, response, session_step, unknown_command, OutboundView, RequestView,
    SessionEventView, SessionStepView, SessionView, MESSAGES_PER_STEP,
};

verus! {

/// The number of a message.
pub open spec fn seq_of(m: OutboundView) -> i64 {
    match m {
        OutboundView::Response { seq, .. } => seq,
        OutboundView::Event { seq, .. } => seq,
    }
}

/// The messages that a step sends to the editor.
pub open spec fn messages_of(step: SessionStepView) -> Seq<OutboundView> {
    match step {
        SessionStepView::Reply { messages, .. } => messages,
        _ => Seq::empty(),
    }
}

/// Whether `messages` are numbered `first`, `first + 1`, and so on.
pub open spec fn numbered_from(messages: Seq<OutboundView>, first: int) -> bool {
    forall|i: int| 0 <= i < messages.len() ==> seq_of(#[trigger] messages[i]) == first + i
}

/// Whether a step from `before` to `after` that sent `messages` numbered
/// them with the next numbers of the session, and counted them.
pub open spec fn counts(
    before: SessionView,
    after: SessionView,
    messages: Seq<OutboundView>,
) -> bool {
    &&& messages.len() <= MESSAGES_PER_STEP
    &&& numbered_from(messages, before.next_seq as int)
    &&& after.next_seq == before.next_seq + messages.len()
}

/// The messages that answer a request carry the next numbers of the
/// session, in order, and the session counts them.
pub proof fn lemma_request_numbers(s: SessionView, r: RequestView)
    requires
        can_number(s),
    ensures
        counts(s, handled(s, r).0, messages_of(handled(s, r).1)),
{
}

/// The messages that follow an event carry the next numbers of the
/// session, in order, and the session counts them.
pub proof fn lemma_event_numbers(s: SessionView, e: SessionEventView)
    requires
        can_number(s),
    ensures
        counts(s, session_step(s, e).0, messages_of(session_step(s, e).1)),
{
}

/// What a session is given: a request of the editor, or what came of the
/// session's own last request.
pub enum SessionInput {
    Request(RequestView),
    Event(SessionEventView),
}

/// The session after one input, and the messages that it sends.
pub open spec fn fed(s: SessionView, input: SessionInput) -> (SessionView, Seq<OutboundView>) {
    match input {
        SessionInput::Request(r) => (handled(s, r).0, messages_of(handled(s, r).1)),
        SessionInput::Event(e) => (session_step(s, e).0, messages_of(session_step(s, e).1)),
    }
}

/// The session after a run of inputs, and all the messages that it sends,
/// in order.
pub open spec fn run(s: SessionView, inputs: Seq<SessionInput>) -> (SessionView, Seq<OutboundView>)
    decreases inputs.len(),
{
    if inputs.len() == 0 {
        (s, Seq::empty())
    } else {
        let (next, first) = fed(s, inputs[0]);
        let (last, rest) = run(next, inputs.drop_first());
        (last, first + rest)
    }
}

/// A session that has not sent anything yet.
pub open spec fn fresh_session(backend: BackendView) -> SessionView {
    SessionView { next_seq: 1, initialized: false, backend, pending: None }
}

proof fn lemma_run_numbers(s: SessionView, inputs: Seq<SessionInput>)
    requires
        1 <= s.next_seq,
        s.next_seq + MESSAGES_PER_STEP * inputs.len() <= i64::MAX - MESSAGES_PER_STEP,
    ensures
        numbered_from(run(s, inputs).1, s.next_seq as int),
        run(s, inputs).0.next_seq == s.next_seq + run(s, inputs).1.len(),
        run(s, inputs).1.len() <= MESSAGES_PER_STEP * inputs.len(),
    decreases inputs.len(),
{
    if inputs.len() > 0 {
        let (next, first) = fed(s, inputs[0]);
        match inputs[0] {
            SessionInput::Request(r) => lemma_request_numbers(s, r),
            SessionInput::Event(e) => lemma_event_numbers(s, e),
        }
        lemma_run_numbers(next, inputs.drop_first());
        let (last, rest) = run(next, inputs.drop_first());
        let all = first + rest;
        assert forall|i: int| 0 <= i < all.len() implies seq_of(#[trigger] all[i]) == s.next_seq
            + i by {
            if i >= first.len() {
                assert(all[i] == rest[i - first.len()]);
            } else {
                assert(all[i] == first[i]);
            }
        }
    }
}

/// The messages of a session are numbered 1, 2, 3 and so on, in the order
/// in which they are sent, whatever the session is given, as long as the
/// numbers fit in 64 bits.
pub proof fn lemma_session_numbers(backend: BackendView, inputs: Seq<SessionInput>)
    requires
        1 + MESSAGES_PER_STEP * inputs.len() <= i64::MAX - MESSAGES_PER_STEP,
    ensures
        numbered_from(run(fresh_session(backend), inputs).1, 1),
{
    lemma_run_numbers(fresh_session(backend), inputs);
}

/// Whether `command` is one that the session knows.
pub open spec fn is_known(command: Seq<char>) -> bool {
    ||| command == "initialize"@
    ||| command == "launch"@
    ||| command == "attach"@
    ||| command == "setBreakpoints"@
    ||| command == "configurationDone"@
    ||| command == "threads"@
    ||| command == "stackTrace"@
    ||| command == "scopes"@
    ||| command == "variables"@
    ||| command == "continue"@
    ||| command == "next"@
    ||| command == "stepIn"@
    ||| command == "disconnect"@
}

/// A request with a command that the session does not know is answered
/// with one response that reports failure and names the command, and the
/// session goes on; nothing else of the session changes.
pub proof fn lemma_unknown_command(s: SessionView, r: RequestView)
    requires
        !is_known(r.command),
    ensures
        handled(s, r).1 == (SessionStepView::Reply {
            messages: seq![
                response(s, r.seq, r.command, false, None, Some(unknown_command(r.command))),
            ],
            running: true,
        }),
        handled(s, r).0.backend == s.backend,
        handled(s, r).0.initialized == s.initialized,
{
}

/// Whether `messages` are a response, or a response and then an event, or
/// nothing.
pub open spec fn response_first(messages: Seq<OutboundView>) -> bool {
    &&& messages.len() <= 2
    &&& messages.len() >= 1 ==> messages[0] is Response
    &&& messages.len() == 2 ==> messages[1] is Event
}

/// The response to a request is sent before any event that the request
/// causes: what a request brings forth at once is its response, then at
/// most one event.
pub proof fn lemma_response_before_event(s: SessionView, r: RequestView)
    ensures
        response_first(messages_of(handled(s, r).1)),
{
}

/// What an event brings forth is the response to the request that waited
/// for it, then at most one event.
pub proof fn lemma_response_before_event_later(s: SessionView, e: SessionEventView)
    ensures
        response_first(messages_of(session_step(s, e).1)),
{
}

} // verus!
