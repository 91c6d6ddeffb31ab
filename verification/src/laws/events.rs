//! What the user interface is told, and what the watch over requests is for.

use crate::events::{
    ProgressAction, ProgressEvent, ProgressState, RequestUpdate, Told, UiEvent,
};
use vstd::prelude::*;

verus! {

/// The name of an event is that of its kind, whatever the event carries.
pub proof fn law_event_is_named_by_its_kind(event: Told)
    ensures
        crate::events::event_name(event) == match event {
            Told::RequestStart(..) => "request-start"@,
            Told::RequestProgress(..) => "request-progress"@,
            Told::RequestComplete(..) => "request-complete"@,
            Told::RequestAbort(..) => "request-abort"@,
            Told::ImportStart(_) => "import-start"@,
            Told::ImportProgress(_) => "import-progress"@,
            Told::CouponStart => "coupon-start"@,
            Told::CouponAvailable(_) => "coupon-available"@,
            Told::ConnectionWait => "connection-wait"@,
            Told::ConnectionGot => "connection-got"@,
            Told::Teardown => "teardown"@,
            Told::Connect => "connect"@,
            Told::TotalSize(_) => "total-size"@,
            Told::CurrentSize(_) => "current-size"@,
            Told::ExportTotal(_) => "export-total"@,
            Told::ExportCurrent(_) => "export-current"@,
        },
{
}

/// Every update of a request is told with the connection and the number of that request; its start
/// with the size, its progress with how far it has come.
pub proof fn law_updates_are_told(connection: u64, request: u64, amount: u64)
    ensures
        crate::events::update_told(connection, request, RequestUpdate::Started { size: amount })
            == Told::RequestStart(connection, request, amount),
        crate::events::update_told(
            connection,
            request,
            RequestUpdate::Progress { end_offset: amount },
        ) == Told::RequestProgress(connection, request, amount),
        crate::events::update_told(connection, request, RequestUpdate::Completed)
            == Told::RequestComplete(connection, request),
        crate::events::update_told(connection, request, RequestUpdate::Aborted)
            == Told::RequestAbort(connection, request),
{
}

/// What the watch does, one event after the other.
pub open spec fn run(state: ProgressState, events: Seq<ProgressEvent>) -> Seq<ProgressAction>
    decreases events.len(),
{
    if events.len() == 0 {
        seq![]
    } else {
        let step = crate::events::progress_next(state, events[0]);
        seq![step.1] + run(step.0, events.drop_first())
    }
}

/// The requests among the events, as they are to be followed, in order.
pub open spec fn requests(events: Seq<ProgressEvent>) -> Seq<ProgressAction>
    decreases events.len(),
{
    if events.len() == 0 {
        seq![]
    } else {
        match events[0] {
            ProgressEvent::GetRequest { connection_id, request_id } => seq![
                ProgressAction::Follow { connection_id, request_id },
            ] + requests(events.drop_first()),
            _ => requests(events.drop_first()),
        }
    }
}

/// The requests that are followed, in order.
pub open spec fn follows(actions: Seq<ProgressAction>) -> Seq<ProgressAction>
    decreases actions.len(),
{
    if actions.len() == 0 {
        seq![]
    } else if actions[0] is Follow {
        seq![actions[0]] + follows(actions.drop_first())
    } else {
        follows(actions.drop_first())
    }
}

/// As long as messages may come, the watch follows every request that is made, in order, and
/// nothing else; and it never stops.
pub proof fn law_every_request_is_followed(running: usize, events: Seq<ProgressEvent>)
    requires
        running + events.len() < usize::MAX,
        forall|i: int| 0 <= i < events.len() ==> !((#[trigger] events[i]) is Closed),
    ensures
        follows(run(ProgressState::Watching { running }, events)) == requests(events),
        run(ProgressState::Watching { running }, events).len() == events.len(),
        forall|i: int|
            0 <= i < events.len() ==> !((#[trigger] run(
                ProgressState::Watching { running },
                events,
            )[i]) is Done),
    decreases events.len(),
{
    let here = ProgressState::Watching { running };
    if events.len() > 0 {
        let rest = events.drop_first();
        let step = crate::events::progress_next(here, events[0]);
        let later = run(step.0, rest);
        assert(!(events[0] is Closed));
        assert forall|i: int| 0 <= i < rest.len() implies !((#[trigger] rest[i]) is Closed) by {
            assert(rest[i] == events[i + 1]);
        }
        assert(step.0 is Watching);
        law_every_request_is_followed(step.0->Watching_running, rest);
        let all = run(here, events);
        assert(all.drop_first() =~= later);
        assert forall|i: int| 0 <= i < events.len() implies !((#[trigger] all[i]) is Done) by {
            if i > 0 {
                assert(all[i] == later[i - 1]);
            }
        }
    }
}

/// The watch knows how many requests it follows: one more with each request, one less with each
/// that ends. It waits for the end of requests exactly if it follows some; when nothing is
/// reported any more it waits for the last of them, and then stops.
pub proof fn law_watch_counts_its_requests(state: ProgressState, event: ProgressEvent)
    requires
        crate::events::running(state) < usize::MAX,
        !(state is Ended),
    ensures
        ({
            let (next, action) = crate::events::progress_next(state, event);
            let before = crate::events::running(state) as int;
            let after: int = if event is GetRequest && state is Watching {
                before + 1
            } else if event is Finished && before > 0 {
                before - 1
            } else {
                before
            };
            &&& crate::events::running(next) == after
            &&& state is Watching && !(event is Closed) <==> next is Watching
            &&& !(next is Watching) ==> (next is Ended <==> after == 0)
            &&& match action {
                ProgressAction::Follow { connection_id, request_id } => state is Watching && event
                    == (ProgressEvent::GetRequest { connection_id, request_id }),
                ProgressAction::Wait { requests } => next is Watching && !(event is GetRequest)
                    && requests == (after > 0),
                ProgressAction::Drain => next is Draining,
                ProgressAction::Done => next is Ended,
            }
        }),
{
}

/// Once it has stopped, the watch stays stopped.
pub proof fn law_watch_stays_stopped(event: ProgressEvent)
    ensures
        crate::events::progress_next(ProgressState::Ended, event) == (
            ProgressState::Ended,
            ProgressAction::Done,
        ),
{
}

/// How many requests are being followed is what the state says.
pub proof fn law_running_is_what_the_state_says(n: usize)
    ensures
        crate::events::running(ProgressState::Watching { running: n }) == n,
        crate::events::running(ProgressState::Draining { running: n }) == n,
        crate::events::running(ProgressState::Ended) == 0,
{
}

/// The contracts speak of what the user interface is told as it is.
pub proof fn law_told_as_it_is(event: UiEvent, events: Seq<UiEvent>)
    ensures
        crate::events::told(events).len() == events.len(),
        forall|i: int|
            0 <= i < events.len() ==> (#[trigger] crate::events::told(events)[i]) == events[i]@,
        match event {
            UiEvent::RequestStart(c, r, n) => event@ == Told::RequestStart(c, r, n),
            UiEvent::RequestProgress(c, r, n) => event@ == Told::RequestProgress(c, r, n),
            UiEvent::RequestComplete(c, r) => event@ == Told::RequestComplete(c, r),
            UiEvent::RequestAbort(c, r) => event@ == Told::RequestAbort(c, r),
            UiEvent::ImportStart(n) => event@ == Told::ImportStart(n as nat),
            UiEvent::ImportProgress(n) => event@ == Told::ImportProgress(n as nat),
            UiEvent::CouponStart => event@ is CouponStart,
            UiEvent::CouponAvailable(coupon) => event@ == Told::CouponAvailable(coupon@),
            UiEvent::ConnectionWait => event@ is ConnectionWait,
            UiEvent::ConnectionGot => event@ is ConnectionGot,
            UiEvent::Teardown => event@ is Teardown,
            UiEvent::Connect => event@ is Connect,
            UiEvent::TotalSize(n) => event@ == Told::TotalSize(n as nat),
            UiEvent::CurrentSize(n) => event@ == Told::CurrentSize(n as nat),
            UiEvent::ExportTotal(n) => event@ == Told::ExportTotal(n as nat),
            UiEvent::ExportCurrent(n) => event@ == Told::ExportCurrent(n as nat),
        },
{
}

} // verus!
