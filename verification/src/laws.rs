//! What holds of the manager and of the streamer whatever is asked of them.

use vstd::prelude::*;
use crate::error::SessionError;
use crate::geometry::Dimensions;
use crate::model::IoOutcome;
use crate::model::ManagerState;
use crate::model::Request;
use crate::streamer::PtyOutputView;
use crate::streamer::ReadEventView;
use crate::streamer::StreamerState;

verus! {

/// A request leaves a valid state valid.
pub proof fn law_request_keeps_validity<H>(state: ManagerState<H>, request: Request<H>)
    requires
        state.valid(),
    ensures
        state.after(request).valid(),
{
}

/// Any run of requests leaves a valid state valid.
pub proof fn law_requests_keep_validity<H>(state: ManagerState<H>, requests: Seq<Request<H>>)
    requires
        state.valid(),
    ensures
        state.after_all(requests).valid(),
    decreases requests.len(),
{
    if requests.len() > 0 {
        law_requests_keep_validity(state, requests.drop_last());
        law_request_keeps_validity(state.after_all(requests.drop_last()), requests.last());
    }
}

/// An identifier that was issued stays issued, whatever is requested later:
/// closing its session does not free it.
pub proof fn law_issued_stays_issued<H>(
    state: ManagerState<H>,
    requests: Seq<Request<H>>,
    id: Seq<char>,
)
    requires
        state.issued.contains(id),
    ensures
        state.after_all(requests).issued.contains(id),
    decreases requests.len(),
{
    if requests.len() > 0 {
        law_issued_stays_issued(state, requests.drop_last(), id);
    }
}

/// A candidate is accepted exactly when it was not issued before; a manager
/// that has issued nothing accepts every candidate.
pub proof fn law_unissued_candidate_is_accepted<H>(
    state: ManagerState<H>,
    id: Seq<char>,
    handles: H,
)
    ensures
        state.register(id, handles).1.is_ok() == !state.issued.contains(id),
        state.register(id, handles).1.is_err() ==> state.register(id, handles).1 == Err::<
            Seq<char>,
            SessionError,
        >(SessionError::IdentifierUnavailable) && state.register(id, handles).0 == state,
        ManagerState::<H>::empty().register(id, handles).1 == Ok::<Seq<char>, SessionError>(id),
{
}

/// The identifier that an open hands out was never issued before, and it is
/// issued and open afterwards.
pub proof fn law_opened_identifier_is_new<H>(state: ManagerState<H>, request: Request<H>)
    ensures
        state.issues(request) matches Some(id) ==> !state.issued.contains(id) && state.after(
            request,
        ).issued.contains(id) && state.after(request).is_open(id),
{
}

/// A session that was just opened has the initial size and the handles it
/// was opened with; every other session is as it was.
pub proof fn law_open_adds_one_session<H>(
    state: ManagerState<H>,
    id: Seq<char>,
    handles: H,
    other: Seq<char>,
)
    requires
        other != id,
    ensures
        state.registered(id, handles).dimensions_of(id) == Ok::<Dimensions, SessionError>(
            Dimensions::initial(),
        ),
        state.registered(id, handles).handles_of(id) == Ok::<H, SessionError>(handles),
        state.registered(id, handles).is_open(other) == state.is_open(other),
        state.is_open(other) ==> state.registered(id, handles).sessions[other]
            == state.sessions[other],
{
}

/// In any run of requests, no two opens hand out the same identifier, and
/// none hands out one that was issued before the run.
pub proof fn law_identifiers_are_never_reused<H>(
    state: ManagerState<H>,
    requests: Seq<Request<H>>,
    i: int,
    j: int,
)
    requires
        0 <= i < j < requests.len(),
    ensures
        state.after_all(requests.take(i)).issues(requests[i]) matches Some(first) ==> {
            &&& !state.issued.contains(first)
            &&& state.after_all(requests.take(j)).issues(requests[j]) != Some(first)
        },
{
    let before_i = state.after_all(requests.take(i));
    if let Some(first) = before_i.issues(requests[i]) {
        if state.issued.contains(first) {
            law_issued_stays_issued(state, requests.take(i), first);
        }
        // From the state after request `i`, the requests `i + 1 .. j` lead to
        // the state in which request `j` is answered.
        let between = requests.subrange(i + 1, j);
        lemma_after_all_splits(state, requests.take(i + 1), between);
        assert(requests.take(i + 1) + between =~= requests.take(j));
        assert(requests.take(i + 1).drop_last() =~= requests.take(i));
        law_issued_stays_issued(before_i.after(requests[i]), between, first);
    }
}

/// Running two runs of requests one after the other is running their
/// concatenation.
proof fn lemma_after_all_splits<H>(
    state: ManagerState<H>,
    first: Seq<Request<H>>,
    second: Seq<Request<H>>,
)
    ensures
        state.after_all(first + second) == state.after_all(first).after_all(second),
    decreases second.len(),
{
    if second.len() == 0 {
        assert(first + second =~= first);
    } else {
        lemma_after_all_splits(state, first, second.drop_last());
        assert((first + second).drop_last() =~= first + second.drop_last());
    }
}

/// Once a session is closed, a write to it, a resize of it and a query of
/// its size are answered with `SessionNotFound`, however the system's part
/// of the resize ended.
pub proof fn law_closed_session_is_not_found<H>(
    state: ManagerState<H>,
    id: Seq<char>,
    dimensions: Dimensions,
    applied: IoOutcome,
)
    ensures
        !state.closed(id).is_open(id),
        state.closed(id).handles_of(id) == Err::<H, SessionError>(SessionError::SessionNotFound),
        state.closed(id).resize(id, dimensions, applied).1 == Err::<(), SessionError>(
            SessionError::SessionNotFound,
        ),
        state.closed(id).resize(id, dimensions, applied).0 == state.closed(id),
        state.closed(id).dimensions_of(id) == Err::<Dimensions, SessionError>(
            SessionError::SessionNotFound,
        ),
{
}

/// A session that was closed is never open again, whatever is requested
/// later: its identifier is not given to another session.
pub proof fn law_closed_session_stays_closed<H>(
    state: ManagerState<H>,
    id: Seq<char>,
    requests: Seq<Request<H>>,
)
    requires
        state.valid(),
        state.is_open(id),
    ensures
        !state.closed(id).after_all(requests).is_open(id),
    decreases requests.len(),
{
    if requests.len() > 0 {
        law_closed_session_stays_closed(state, id, requests.drop_last());
        law_issued_stays_issued(state.closed(id), requests.drop_last(), id);
    }
}

/// Closing is idempotent: a second close of the same identifier finds no
/// session and changes nothing.
pub proof fn law_close_is_idempotent<H>(state: ManagerState<H>, id: Seq<char>)
    ensures
        !state.closed(id).is_open(id),
        state.closed(id).closed(id) == state.closed(id),
{
    assert(state.closed(id).closed(id) =~= state.closed(id));
}

/// Closing one session leaves every other session as it was.
pub proof fn law_close_spares_other_sessions<H>(
    state: ManagerState<H>,
    id: Seq<char>,
    other: Seq<char>,
)
    requires
        other != id,
    ensures
        state.closed(id).is_open(other) == state.is_open(other),
        state.is_open(other) ==> state.closed(id).sessions[other] == state.sessions[other],
{
}

/// After a resize that succeeded, the size on record for the session is the
/// new one; its handles and the other sessions are as before.
pub proof fn law_resize_is_recorded<H>(
    state: ManagerState<H>,
    id: Seq<char>,
    dimensions: Dimensions,
    applied: IoOutcome,
    other: Seq<char>,
)
    requires
        state.resize(id, dimensions, applied).1.is_ok(),
        other != id,
    ensures
        state.resize(id, dimensions, applied).0.dimensions_of(id) == Ok::<
            Dimensions,
            SessionError,
        >(dimensions),
        state.resize(id, dimensions, applied).0.handles_of(id) == state.handles_of(id),
        state.resize(id, dimensions, applied).0.is_open(other) == state.is_open(other),
        state.is_open(other) ==> state.resize(id, dimensions, applied).0.sessions[other]
            == state.sessions[other],
{
}

/// A resize that failed on the system's side is answered with `ResizeFailed`
/// and leaves every session open and as it was.
pub proof fn law_failed_resize_keeps_session<H>(
    state: ManagerState<H>,
    id: Seq<char>,
    dimensions: Dimensions,
)
    requires
        state.is_open(id),
    ensures
        state.resize(id, dimensions, IoOutcome::Failed).1 == Err::<(), SessionError>(
            SessionError::ResizeFailed,
        ),
        state.resize(id, dimensions, IoOutcome::Failed).0 == state,
{
}

/// A running streamer stops exactly at the end of the stream or at a failed
/// read; a streamer that has stopped does not start again.
pub proof fn law_streamer_stops_with_stream(streamer: StreamerState, event: ReadEventView)
    ensures
        streamer.step(event).0.running == (streamer.running && !event.ends_stream()),
        streamer.step(event).0.id == streamer.id,
        streamer.step(event).1.is_some() == streamer.step(event).0.running,
{
}

/// A streamer that has stopped delivers nothing, whatever it is shown.
pub proof fn law_stopped_streamer_is_silent(streamer: StreamerState, events: Seq<ReadEventView>)
    requires
        !streamer.running,
    ensures
        streamer.run(events) == Seq::<PtyOutputView>::empty(),
    decreases events.len(),
{
    if events.len() > 0 {
        law_stopped_streamer_is_silent(streamer.step(events[0]).0, events.drop_first());
    }
}

/// A running streamer delivers one output for each read up to the first that
/// ends the stream, in the order of the reads, each chunk whole, and nothing
/// after that.
pub proof fn law_streamer_delivers_in_order(
    streamer: StreamerState,
    events: Seq<ReadEventView>,
    end: int,
)
    requires
        streamer.running,
        0 <= end <= events.len(),
        forall|k: int| 0 <= k < end ==> !(#[trigger] events[k]).ends_stream(),
        end < events.len() ==> events[end].ends_stream(),
    ensures
        streamer.run(events) == Seq::new(
            end as nat,
            |k: int| streamer.output_for(events[k]->Data_0),
        ),
    decreases events.len(),
{
    let expected = Seq::new(end as nat, |k: int| streamer.output_for(events[k]->Data_0));
    if events.len() == 0 {
        assert(streamer.run(events) =~= expected);
    } else if end == 0 {
        law_stopped_streamer_is_silent(streamer.stopped(), events.drop_first());
        assert(streamer.run(events) =~= expected);
    } else {
        let rest = events.drop_first();
        assert(!events[0].ends_stream());
        assert forall|k: int| 0 <= k < end - 1 implies !(#[trigger] rest[k]).ends_stream() by {
            assert(rest[k] == events[k + 1]);
        }
        law_streamer_delivers_in_order(streamer, rest, end - 1);
        let tail = Seq::new((end - 1) as nat, |k: int| streamer.output_for(rest[k]->Data_0));
        assert(seq![streamer.output_for(events[0]->Data_0)] + tail =~= expected);
    }
}

} // verus!
