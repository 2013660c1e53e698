//! How the server ends: it lets the transfers under way finish, begins no more, and
//! saves its records when the last one is over.

use crate::http::{Reply, Status};
use vstd::prelude::*;
use vstd::string::*;

verus! {

/// The transfers under way, and whether the server is to end. A request for work
/// counts as a transfer that records nothing.
#[derive(Clone, Copy, Debug, PartialEq, Eq, Structural)]
pub struct Shutdown {
    /// The number of transfers under way.
    pub active: u64,
    /// Whether the user asked for an end.
    pub stopping: bool,
}

/// What the server does next.
#[derive(Clone, Copy, Debug, PartialEq, Eq, Structural)]
pub enum ShutdownAction {
    /// It takes requests.
    Serve,
    /// It waits for the transfers under way.
    Wait,
    /// It saves its records and exits.
    SaveAndExit,
}

impl Shutdown {
    /// No transfer is under way, and the server is to go on.
    pub open spec fn idle() -> Shutdown {
        Shutdown { active: 0, stopping: false }
    }

    /// What the server does next.
    pub open spec fn due(self) -> ShutdownAction {
        if !self.stopping {
            ShutdownAction::Serve
        } else if self.active > 0 {
            ShutdownAction::Wait
        } else {
            ShutdownAction::SaveAndExit
        }
    }

    /// Whether a transfer may begin.
    pub open spec fn admits(self) -> bool {
        !self.stopping && self.active < u64::MAX
    }

    /// The state after a request to begin a transfer.
    pub open spec fn begun(self) -> Shutdown {
        if self.admits() {
            Shutdown { active: (self.active + 1) as u64, ..self }
        } else {
            self
        }
    }

    /// The state after the end of a transfer.
    pub open spec fn ended(self) -> Shutdown {
        Shutdown { active: (self.active - 1) as u64, ..self }
    }

    /// No transfer is under way, and the server is to go on.
    pub fn new() -> (r: Self)
        ensures
            r == Shutdown::idle(),
    {
        Shutdown { active: 0, stopping: false }
    }

    /// Begins a transfer, if one may begin.
    pub fn begin(&mut self) -> (admitted: bool)
        ensures
            admitted == (!old(self).stopping && old(self).active < u64::MAX),
            *final(self) == old(self).begun(),
            admitted ==> final(self).active == old(self).active + 1,
            !admitted ==> *final(self) == *old(self),
    {
        if !self.stopping && self.active < u64::MAX {
            self.active = self.active + 1;
            true
        } else {
            false
        }
    }

    /// Ends a transfer that was begun.
    pub fn end(&mut self)
        requires
            old(self).active > 0,
        ensures
            *final(self) == old(self).ended(),
            final(self).active == old(self).active - 1,
    {
        self.active = self.active - 1;
    }

    /// Takes in that the user asked for an end.
    pub fn interrupt(&mut self)
        ensures
            *final(self) == (Shutdown { stopping: true, ..*old(self) }),
    {
        self.stopping = true;
    }

    /// What the server does next.
    pub fn action(&self) -> (r: ShutdownAction)
        ensures
            r == self.due(),
    {
        if !self.stopping {
            ShutdownAction::Serve
        } else if self.active > 0 {
            ShutdownAction::Wait
        } else {
            ShutdownAction::SaveAndExit
        }
    }
}

/// The reply to a request for a transfer that may not begin.
pub fn refusal() -> (r: Reply)
    ensures
        r.status == Status::ServiceUnavailable,
        r.body@ == "Server is shutting down"@,
{
    Reply { status: Status::ServiceUnavailable, body: "Server is shutting down".to_owned() }
}

/// What happens at a server, as far as its transfers go.
pub enum ServerEvent {
    /// A transfer asks to begin.
    Begin,
    /// A transfer under way records this path as downloaded.
    Downloaded(Seq<char>),
    /// A transfer under way records this path as uploaded.
    Uploaded(Seq<char>),
    /// A transfer under way ends.
    End,
    /// The user asks for an end.
    Interrupt,
}

/// The transfers and the records of a server.
#[verifier::ext_equal]
pub struct ServerModel {
    pub transfers: Shutdown,
    pub downloaded: Set<Seq<char>>,
    pub uploaded: Set<Seq<char>>,
}

impl ServerEvent {
    /// Whether the event is one of a transfer under way.
    pub open spec fn of_transfer(self) -> bool {
        self is Downloaded || self is Uploaded || self is End
    }
}

impl ServerModel {
    /// The server after `event`.
    pub open spec fn next(self, event: ServerEvent) -> ServerModel {
        match event {
            ServerEvent::Begin => ServerModel { transfers: self.transfers.begun(), ..self },
            ServerEvent::Downloaded(path) => ServerModel {
                downloaded: self.downloaded.insert(path),
                ..self
            },
            ServerEvent::Uploaded(path) => ServerModel {
                uploaded: self.uploaded.insert(path),
                ..self
            },
            ServerEvent::End => ServerModel { transfers: self.transfers.ended(), ..self },
            ServerEvent::Interrupt => ServerModel {
                transfers: Shutdown { stopping: true, ..self.transfers },
                ..self
            },
        }
    }
}

/// The server `start` after `events`, in that order.
pub open spec fn run(start: ServerModel, events: Seq<ServerEvent>) -> ServerModel
    decreases events.len(),
{
    if events.len() == 0 {
        start
    } else {
        run(start, events.drop_last()).next(events.last())
    }
}

/// Whether nothing in the course of `events` is of a transfer that was not under way.
pub open spec fn possible(start: ServerModel, events: Seq<ServerEvent>) -> bool
    decreases events.len(),
{
    events.len() > 0 ==> {
        &&& possible(start, events.drop_last())
        &&& events.last().of_transfer() ==> run(start, events.drop_last()).transfers.active > 0
    }
}

/// The number of transfers that began in the course of `events`.
pub open spec fn begun(start: ServerModel, events: Seq<ServerEvent>) -> nat
    decreases events.len(),
{
    if events.len() == 0 {
        0
    } else {
        begun(start, events.drop_last()) + if events.last() is Begin && run(
            start,
            events.drop_last(),
        ).transfers.admits() {
            1nat
        } else {
            0nat
        }
    }
}

/// The number of transfers that ended in the course of `events`.
pub open spec fn ended(events: Seq<ServerEvent>) -> nat
    decreases events.len(),
{
    if events.len() == 0 {
        0
    } else {
        ended(events.drop_last()) + if events.last() is End {
            1nat
        } else {
            0nat
        }
    }
}

/// A server counts the transfers that began and have not ended, and is to end exactly
/// if it was interrupted.
pub proof fn law_transfers_are_counted(start: ServerModel, events: Seq<ServerEvent>)
    requires
        start.transfers == Shutdown::idle(),
        possible(start, events),
    ensures
        run(start, events).transfers.active == begun(start, events) - ended(events),
        run(start, events).transfers.stopping <==> exists|i: int|
            0 <= i < events.len() && events[i] is Interrupt,
    decreases events.len(),
{
    if events.len() > 0 {
        let before = events.drop_last();
        law_transfers_are_counted(start, before);
        if run(start, events).transfers.stopping {
            if events.last() is Interrupt {
                assert(events[events.len() - 1] is Interrupt);
            } else {
                let i = choose|i: int| 0 <= i < before.len() && before[i] is Interrupt;
                assert(events[i] is Interrupt);
            }
        }
        if exists|i: int| 0 <= i < events.len() && events[i] is Interrupt {
            let i = choose|i: int| 0 <= i < events.len() && events[i] is Interrupt;
            if i < before.len() {
                assert(before[i] is Interrupt);
            }
        }
    }
}

/// The records of a server hold what they held at the start and the path of each
/// transfer that recorded one, and nothing else.
pub proof fn law_records_hold_each_transfer(
    start: ServerModel,
    events: Seq<ServerEvent>,
    path: Seq<char>,
)
    ensures
        run(start, events).downloaded.contains(path) <==> start.downloaded.contains(path)
            || events.contains(ServerEvent::Downloaded(path)),
        run(start, events).uploaded.contains(path) <==> start.uploaded.contains(path)
            || events.contains(ServerEvent::Uploaded(path)),
    decreases events.len(),
{
    if events.len() > 0 {
        let before = events.drop_last();
        law_records_hold_each_transfer(start, before, path);
        assert(before.push(events.last()) =~= events);
        assert forall|e: ServerEvent| events.contains(e) <==> before.contains(e) || e
            == events.last() by {
            if before.contains(e) {
                let i = choose|i: int| 0 <= i < before.len() && before[i] == e;
                assert(events[i] == e);
            }
            if e == events.last() {
                assert(events[events.len() - 1] == e);
            }
            if events.contains(e) {
                let i = choose|i: int| 0 <= i < events.len() && events[i] == e;
                if i < before.len() {
                    assert(before[i] == e);
                }
            }
        }
    } else {
        assert(forall|e: ServerEvent| !events.contains(e));
    }
}

/// A server saves and exits only when each transfer that began has ended. The records that it then saves hold the path of each transfer that recorded
/// one, and nothing that can still happen changes them.
pub proof fn law_server_saves_when_all_is_over(
    start: ServerModel,
    events: Seq<ServerEvent>,
    later: Seq<ServerEvent>,
)
    requires
        start.transfers == Shutdown::idle(),
        possible(start, events + later),
        run(start, events).transfers.due() == ShutdownAction::SaveAndExit,
    ensures
        begun(start, events) == ended(events),
        forall|i: int|
            0 <= i < events.len() ==> match #[trigger] events[i] {
                ServerEvent::Downloaded(path) => run(start, events).downloaded.contains(path),
                ServerEvent::Uploaded(path) => run(start, events).uploaded.contains(path),
                _ => true,
            },
        run(start, events + later) == run(start, events),
    decreases later.len(),
{
    lemma_possible_prefix(start, events, later);
    law_transfers_are_counted(start, events);
    assert forall|i: int| 0 <= i < events.len() implies match #[trigger] events[i] {
        ServerEvent::Downloaded(path) => run(start, events).downloaded.contains(path),
        ServerEvent::Uploaded(path) => run(start, events).uploaded.contains(path),
        _ => true,
    } by {
        match events[i] {
            ServerEvent::Downloaded(path) => {
                law_records_hold_each_transfer(start, events, path);
            },
            ServerEvent::Uploaded(path) => {
                law_records_hold_each_transfer(start, events, path);
            },
            _ => {},
        }
    }
    if later.len() == 0 {
        assert(events + later =~= events);
    } else {
        assert((events + later).drop_last() =~= events + later.drop_last());
        law_server_saves_when_all_is_over(start, events, later.drop_last());
    }
}

proof fn lemma_possible_prefix(
    start: ServerModel,
    events: Seq<ServerEvent>,
    later: Seq<ServerEvent>,
)
    requires
        possible(start, events + later),
    ensures
        possible(start, events),
    decreases later.len(),
{
    if later.len() == 0 {
        assert(events + later =~= events);
    } else {
        assert((events + later).drop_last() =~= events + later.drop_last());
        lemma_possible_prefix(start, events, later.drop_last());
    }
}

/// A server takes requests until it is interrupted. From then on it waits if and only if a
/// transfer is under way, and saves and exits if and only if none is.
pub proof fn law_server_ends_when_due(s: Shutdown)
    ensures
        s.due() == ShutdownAction::Serve <==> !s.stopping,
        s.due() == ShutdownAction::Wait <==> s.stopping && s.active > 0,
        s.due() == ShutdownAction::SaveAndExit <==> s.stopping && s.active == 0,
        Shutdown::idle().due() == ShutdownAction::Serve,
        Shutdown::idle().active == 0,
{
}

/// A transfer may begin if and only if the server goes on, as long as it can be counted. It
/// then counts as one more, and its end takes that one off again.
pub proof fn law_transfer_begins_and_ends(s: Shutdown)
    ensures
        s.admits() <==> !s.stopping && s.active < u64::MAX,
        s.admits() ==> s.begun().active == s.active + 1 && s.begun().ended() == s,
        !s.admits() ==> s.begun() == s,
        s.begun().stopping == s.stopping,
{
}

/// What each event does to a server: a transfer that may begin is counted, a path goes to the
/// record of its kind and nowhere else, an end is counted off, and an interruption makes the
/// server end. A server after one more event goes on from where it stood.
pub proof fn law_server_event_by_event(
    start: ServerModel,
    events: Seq<ServerEvent>,
    event: ServerEvent,
    path: Seq<char>,
)
    ensures
        run(start, Seq::empty()) == start,
        run(start, events.push(event)) == run(start, events).next(event),
        ({
            let then = start.next(ServerEvent::Downloaded(path));
            &&& then.downloaded == start.downloaded.insert(path)
            &&& then.uploaded == start.uploaded && then.transfers == start.transfers
        }),
        ({
            let then = start.next(ServerEvent::Uploaded(path));
            &&& then.uploaded == start.uploaded.insert(path)
            &&& then.downloaded == start.downloaded && then.transfers == start.transfers
        }),
        event is Begin || event is End || event is Interrupt ==> start.next(event).downloaded
            == start.downloaded && start.next(event).uploaded == start.uploaded,
        start.transfers.active > 0 ==> start.next(ServerEvent::End).transfers.active
            == start.transfers.active - 1,
        start.next(ServerEvent::Interrupt).transfers.stopping,
        start.next(ServerEvent::Interrupt).transfers.active == start.transfers.active,
        !start.transfers.stopping && start.transfers.active < u64::MAX ==> start.next(
            ServerEvent::Begin,
        ).transfers.active == start.transfers.active + 1,
{
    assert(events.push(event).drop_last() =~= events);
}

} // verus!
