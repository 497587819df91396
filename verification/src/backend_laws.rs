//! What holds of every backend, whatever it is asked.

use vstd::prelude::*;
use crate::backend::{
    backend_step, connect_begun, disconnected, resume_begun, update_begun, BackendEventView,
    BackendResultView, BackendStepView, BackendView,
};

verus! {

/// The table of breakpoints holds for each source file what the editor
/// asked for last: an update replaces the lines of its file and leaves the
/// lines of every other file alone, whatever becomes of the planting.
pub proof fn lemma_update_replaces_lines(b: BackendView, path: Seq<char>, lines: Seq<i64>)
    ensures
        update_begun(b, path, lines).0.breakpoints == b.breakpoints.insert(path, lines),
{
}

/// Without a connection, an update of breakpoints on a backend that has
/// its line index ends at once, and ends well.
pub proof fn lemma_update_needs_no_connection(b: BackendView, path: Seq<char>, lines: Seq<i64>)
    requires
        b.line_index is Some,
        b.client is None,
    ensures
        update_begun(b, path, lines).1 == BackendStepView::Finished(BackendResultView::Done),
{
}

/// No operation of the backend and no event changes the image: where it
/// was linked and how far it has slid stay as they are.
pub proof fn lemma_operations_keep_the_image(
    b: BackendView,
    event: BackendEventView,
    path: Seq<char>,
    lines: Seq<i64>,
    port: u16,
    payload: Seq<char>,
)
    ensures
        backend_step(b, event).0.ctx == b.ctx,
        update_begun(b, path, lines).0.ctx == b.ctx,
        connect_begun(b, port).0.ctx == b.ctx,
        resume_begun(b, payload).0.ctx == b.ctx,
        disconnected(b).0.ctx == b.ctx,
{
}

/// A connection that is being made does not touch the connection in use
/// until its handshake has ended well: while the backend asks for more on
/// the wire, and when the handshake fails, the connection in use and its
/// port are what they were.
pub proof fn lemma_connecting_keeps_the_connection(b: BackendView, event: BackendEventView)
    requires
        b.pending == crate::backend::Pending::Connecting,
    ensures
        backend_step(b, event).1 is Wire || backend_step(b, event).1
            is Finished && backend_step(b, event).1->Finished_0 is Failed ==> backend_step(
            b,
            event,
        ).0.client == b.client && backend_step(b, event).0.connected_port == b.connected_port,
{
}

} // verus!
