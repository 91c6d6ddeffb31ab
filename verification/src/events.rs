//! What the user interface is told, and the watch over the requests that peers make.

use vstd::prelude::*;

verus! {

/// What the user interface is told.
#[derive(Clone, Debug, PartialEq, Eq)]
pub enum UiEvent {
    /// A request began: its connection, its number and the size of what it asks for.
    RequestStart(u64, u64, u64),
    /// A request went on: its connection, its number and how far it has come.
    RequestProgress(u64, u64, u64),
    /// A request ended well: its connection and its number.
    RequestComplete(u64, u64),
    /// A request was broken off: its connection and its number.
    RequestAbort(u64, u64),
    /// This many files will be read.
    ImportStart(usize),
    /// The file with this index is being read.
    ImportProgress(usize),
    /// A coupon is being made.
    CouponStart,
    /// This is the coupon.
    CouponAvailable(String),
    /// The peer is awaited.
    ConnectionWait,
    /// The peer has come.
    ConnectionGot,
    /// The share is being taken down.
    Teardown,
    /// The peer is being called.
    Connect,
    /// This many bytes are shared.
    TotalSize(u64),
    /// This many bytes are here.
    CurrentSize(u64),
    /// This many files will be saved.
    ExportTotal(usize),
    /// The file with this index is being saved.
    ExportCurrent(usize),
}

/// An event for the user interface as the contracts speak of it.
pub enum Told {
    RequestStart(u64, u64, u64),
    RequestProgress(u64, u64, u64),
    RequestComplete(u64, u64),
    RequestAbort(u64, u64),
    ImportStart(nat),
    ImportProgress(nat),
    CouponStart,
    CouponAvailable(Seq<char>),
    ConnectionWait,
    ConnectionGot,
    Teardown,
    Connect,
    TotalSize(nat),
    CurrentSize(nat),
    ExportTotal(nat),
    ExportCurrent(nat),
}

impl View for UiEvent {
    type V = Told;

    open spec fn view(&self) -> Told {
        match self {
            UiEvent::RequestStart(connection, request, size) => Told::RequestStart(
                *connection,
                *request,
                *size,
            ),
            UiEvent::RequestProgress(connection, request, end) => Told::RequestProgress(
                *connection,
                *request,
                *end,
            ),
            UiEvent::RequestComplete(connection, request) => Told::RequestComplete(
                *connection,
                *request,
            ),
            UiEvent::RequestAbort(connection, request) => Told::RequestAbort(*connection, *request),
            UiEvent::ImportStart(count) => Told::ImportStart(*count as nat),
            UiEvent::ImportProgress(i) => Told::ImportProgress(*i as nat),
            UiEvent::CouponStart => Told::CouponStart,
            UiEvent::CouponAvailable(coupon) => Told::CouponAvailable(coupon@),
            UiEvent::ConnectionWait => Told::ConnectionWait,
            UiEvent::ConnectionGot => Told::ConnectionGot,
            UiEvent::Teardown => Told::Teardown,
            UiEvent::Connect => Told::Connect,
            UiEvent::TotalSize(size) => Told::TotalSize(*size as nat),
            UiEvent::CurrentSize(size) => Told::CurrentSize(*size as nat),
            UiEvent::ExportTotal(count) => Told::ExportTotal(*count as nat),
            UiEvent::ExportCurrent(i) => Told::ExportCurrent(*i as nat),
        }
    }
}

/// What the user interface is told, in order.
pub open spec fn told(events: Seq<UiEvent>) -> Seq<Told> {
    events.map_values(|e: UiEvent| e@)
}

/// The name under which the user interface listens for an event.
pub open spec fn event_name(event: Told) -> Seq<char> {
    match event {
        Told::RequestStart(..) => "request-start"@,
        Told::RequestProgress(..) => "request-progress"@,
        Told::RequestComplete(..) => "request-complete"@,
        Told::RequestAbort(..) => "request-abort"@,
        Told::ImportStart(_) => "import-start"@,
        Told::ImportProgress(_) => "import-progress"@,
        Told::CouponStart => "coupon-start"@,
        Told::CouponAvailable(_) => "coupon-available"@,
        Told::ConnectionWait => "connection-wait"@,
        Told::ConnectionGot => "connection-got"@,
        Told::Teardown => "teardown"@,
        Told::Connect => "connect"@,
        Told::TotalSize(_) => "total-size"@,
        Told::CurrentSize(_) => "current-size"@,
        Told::ExportTotal(_) => "export-total"@,
        Told::ExportCurrent(_) => "export-current"@,
    }
}

impl UiEvent {
    /// The name under which the user interface listens for the event.
    pub fn name(&self) -> (r: &'static str)
        ensures
            r@ == event_name(self@),
    {
        match self {
            UiEvent::RequestStart(..) => "request-start",
            UiEvent::RequestProgress(..) => "request-progress",
            UiEvent::RequestComplete(..) => "request-complete",
            UiEvent::RequestAbort(..) => "request-abort",
            UiEvent::ImportStart(_) => "import-start",
            UiEvent::ImportProgress(_) => "import-progress",
            UiEvent::CouponStart => "coupon-start",
            UiEvent::CouponAvailable(_) => "coupon-available",
            UiEvent::ConnectionWait => "connection-wait",
            UiEvent::ConnectionGot => "connection-got",
            UiEvent::Teardown => "teardown",
            UiEvent::Connect => "connect",
            UiEvent::TotalSize(_) => "total-size",
            UiEvent::CurrentSize(_) => "current-size",
            UiEvent::ExportTotal(_) => "export-total",
            UiEvent::ExportCurrent(_) => "export-current",
        }
    }
}

/// What became of a request.
pub enum RequestUpdate {
    Started { size: u64 },
    Progress { end_offset: u64 },
    Completed,
    Aborted,
}

/// What the user interface is told of an update of a request.
pub open spec fn update_told(
    connection_id: u64,
    request_id: u64,
    update: RequestUpdate,
) -> Told {
    match update {
        RequestUpdate::Started { size } => Told::RequestStart(connection_id, request_id, size),
        RequestUpdate::Progress { end_offset } => Told::RequestProgress(
            connection_id,
            request_id,
            end_offset,
        ),
        RequestUpdate::Completed => Told::RequestComplete(connection_id, request_id),
        RequestUpdate::Aborted => Told::RequestAbort(connection_id, request_id),
    }
}

/// Says what to tell the user interface of an update of a request.
pub fn per_request_progress(connection_id: u64, request_id: u64, update: RequestUpdate) -> (r:
    UiEvent)
    ensures
        r@ == update_told(connection_id, request_id, update),
{
    match update {
        RequestUpdate::Started { size } => UiEvent::RequestStart(connection_id, request_id, size),
        RequestUpdate::Progress { end_offset } => UiEvent::RequestProgress(
            connection_id,
            request_id,
            end_offset,
        ),
        RequestUpdate::Completed => UiEvent::RequestComplete(connection_id, request_id),
        RequestUpdate::Aborted => UiEvent::RequestAbort(connection_id, request_id),
    }
}

/// Where the watch over requests stands, and how many requests are being followed.
pub enum ProgressState {
    /// Messages may still come.
    Watching { running: usize },
    /// No message comes any more, and what is followed comes to its end.
    Draining { running: usize },
    /// The watch is over.
    Ended,
}

/// What happens to the watch over requests.
pub enum ProgressEvent {
    /// A peer made a request.
    GetRequest { connection_id: u64, request_id: u64 },
    /// Anything else was reported.
    OtherMessage,
    /// Nothing will be reported any more.
    Closed,
    /// A request that was followed came to its end.
    Finished,
}

/// What the watch over requests does next.
pub enum ProgressAction {
    /// Follow this request, then wait for a message or for the end of what is followed.
    Follow { connection_id: u64, request_id: u64 },
    /// Wait for a message; where nothing has come and `requests` is set, for the end of what is
    /// followed, too.
    Wait { requests: bool },
    /// Wait for the end of what is followed.
    Drain,
    /// Stop.
    Done,
}

/// How many requests are being followed.
pub open spec fn running(state: ProgressState) -> nat {
    match state {
        ProgressState::Watching { running } => running as nat,
        ProgressState::Draining { running } => running as nat,
        ProgressState::Ended => 0,
    }
}

/// How many requests are being followed after a step that leaves out the one that ended.
pub open spec fn one_less(running: usize) -> usize {
    if running > 0 {
        (running - 1) as usize
    } else {
        0
    }
}

/// What is left to do once no message comes any more.
pub open spec fn drain_next(running: usize) -> (ProgressState, ProgressAction) {
    if running > 0 {
        (ProgressState::Draining { running }, ProgressAction::Drain)
    } else {
        (ProgressState::Ended, ProgressAction::Done)
    }
}

/// What the watch over requests makes of an event.
pub open spec fn progress_next(state: ProgressState, event: ProgressEvent) -> (
    ProgressState,
    ProgressAction,
) {
    match (state, event) {
        (
            ProgressState::Watching { running },
            ProgressEvent::GetRequest { connection_id, request_id },
        ) => (
            ProgressState::Watching { running: (running + 1) as usize },
            ProgressAction::Follow { connection_id, request_id },
        ),
        (ProgressState::Watching { running }, ProgressEvent::OtherMessage) => (
            ProgressState::Watching { running },
            ProgressAction::Wait { requests: running > 0 },
        ),
        (ProgressState::Watching { running }, ProgressEvent::Finished) => (
            ProgressState::Watching { running: one_less(running) },
            ProgressAction::Wait { requests: one_less(running) > 0 },
        ),
        (ProgressState::Watching { running }, ProgressEvent::Closed) => drain_next(running),
        (ProgressState::Draining { running }, ProgressEvent::Finished) => drain_next(
            one_less(running),
        ),
        (ProgressState::Draining { running }, _) => drain_next(running),
        (ProgressState::Ended, _) => (ProgressState::Ended, ProgressAction::Done),
    }
}

fn drain(running: usize) -> (r: (ProgressState, ProgressAction))
    ensures
        r == drain_next(running),
{
    if running > 0 {
        (ProgressState::Draining { running }, ProgressAction::Drain)
    } else {
        (ProgressState::Ended, ProgressAction::Done)
    }
}

/// Takes the watch over requests one step further. It begins with `Watching` and none followed,
/// and with waiting for a message.
pub fn show_provide_progress(state: ProgressState, event: ProgressEvent) -> (r: (
    ProgressState,
    ProgressAction,
))
    requires
        running(state) < usize::MAX,
    ensures
        r == progress_next(state, event),
{
    match (state, event) {
        (
            ProgressState::Watching { running },
            ProgressEvent::GetRequest { connection_id, request_id },
        ) => (
            ProgressState::Watching { running: running + 1 },
            ProgressAction::Follow { connection_id, request_id },
        ),
        (ProgressState::Watching { running }, ProgressEvent::OtherMessage) => (
            ProgressState::Watching { running },
            ProgressAction::Wait { requests: running > 0 },
        ),
        (ProgressState::Watching { running }, ProgressEvent::Finished) => {
            let left: usize = if running > 0 {
                running - 1
            } else {
                0
            };
            (
                ProgressState::Watching { running: left },
                ProgressAction::Wait { requests: left > 0 },
            )
        },
        (ProgressState::Watching { running }, ProgressEvent::Closed) => drain(running),
        (ProgressState::Draining { running }, ProgressEvent::Finished) => {
            if running > 0 {
                drain(running - 1)
            } else {
                drain(0)
            }
        },
        (ProgressState::Draining { running }, _) => drain(running),
        (ProgressState::Ended, _) => (ProgressState::Ended, ProgressAction::Done),
    }
}

/// The watch over requests does not stop while a request is being followed: it stops only when
/// nothing is reported any more and what it followed has come to its end.
pub proof fn law_watch_ends_after_its_requests(state: ProgressState, event: ProgressEvent)
    requires
        !(state is Ended),
        progress_next(state, event).0 is Ended,
    ensures
        event is Finished ==> running(state) <= 1,
        !(event is Finished) ==> running(state) == 0,
        state is Watching ==> event is Closed,
{
}

/// Two events with the same name carry the same kind of thing: events of different kinds have
/// different names.
pub proof fn law_event_names_differ(a: Told, b: Told)
    requires
        event_name(a) == event_name(b),
    ensures
        a is RequestStart <==> b is RequestStart,
        a is RequestProgress <==> b is RequestProgress,
        a is RequestComplete <==> b is RequestComplete,
        a is RequestAbort <==> b is RequestAbort,
        a is ImportStart <==> b is ImportStart,
        a is ImportProgress <==> b is ImportProgress,
        a is CouponStart <==> b is CouponStart,
        a is CouponAvailable <==> b is CouponAvailable,
        a is ConnectionWait <==> b is ConnectionWait,
        a is ConnectionGot <==> b is ConnectionGot,
        a is Teardown <==> b is Teardown,
        a is Connect <==> b is Connect,
        a is TotalSize <==> b is TotalSize,
        a is CurrentSize <==> b is CurrentSize,
        a is ExportTotal <==> b is ExportTotal,
        a is ExportCurrent <==> b is ExportCurrent,
{
    reveal_strlit("request-start");
    reveal_strlit("request-progress");
    reveal_strlit("request-complete");
    reveal_strlit("request-abort");
    reveal_strlit("import-start");
    reveal_strlit("import-progress");
    reveal_strlit("coupon-start");
    reveal_strlit("coupon-available");
    reveal_strlit("connection-wait");
    reveal_strlit("connection-got");
    reveal_strlit("teardown");
    reveal_strlit("connect");
    reveal_strlit("total-size");
    reveal_strlit("current-size");
    reveal_strlit("export-total");
    reveal_strlit("export-current");
    let (s, t) = (event_name(a), event_name(b));
    assert(s.len() == t.len() && s[0] == t[0] && s[1] == t[1] && s[8] == t[8]);
    assert("request-start"@.len() == 13 && "request-start"@[8] == 's');
    assert("request-abort"@.len() == 13 && "request-abort"@[8] == 'a');
    assert("request-progress"@.len() == 16 && "request-progress"@[8] == 'p');
    assert("request-complete"@.len() == 16 && "request-complete"@[8] == 'c');
    assert("coupon-available"@.len() == 16 && "coupon-available"@[8] == 'v');
    assert("import-start"@.len() == 12 && "import-start"@[0] == 'i');
    assert("export-total"@.len() == 12 && "export-total"@[0] == 'e');
    assert("coupon-start"@.len() == 12 && "coupon-start"@[0] == 'c' && "coupon-start"@[1] == 'o');
    assert("current-size"@.len() == 12 && "current-size"@[0] == 'c' && "current-size"@[1] == 'u');
    assert("import-progress"@.len() == 15 && "import-progress"@[0] == 'i');
    assert("connection-wait"@.len() == 15 && "connection-wait"@[0] == 'c');
    assert("connection-got"@.len() == 14 && "connection-got"@[0] == 'c');
    assert("export-current"@.len() == 14 && "export-current"@[0] == 'e');
}

} // verus!
