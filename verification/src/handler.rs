//! The handler: the core of the RPC protocol engine.
//!
//! Given a transport able to carry text messages, the handler makes
//! remote calls: it assigns each call a fresh identifier, serializes and
//! sends the request envelope, and keeps a completion slot that receives
//! the call's outcome — the matching response once it arrives, or a
//! lost-connection failure if the transport closes first. Inbound frames
//! are fed to [`Handler::process_incoming_message`] in arrival order;
//! notifications and protocol irregularities come back out of the ordered
//! event queue via [`Handler::next_event`].
//!
//! The handler has two states: open, and — after
//! [`Handler::on_transport_closed`] — permanently closed. Closing resolves
//! every outstanding call with [`RpcError::LostConnection`]; calls made on
//! a closed handler fail the same way at once, without touching the
//! transport.

use vstd::prelude::*;

use crate::decoder;
use crate::decoder::spec_decode;
use crate::encoder;
use crate::encoder::spec_request_text;
use crate::error::HandlingError;
use crate::error::HandlingErrorV;
use crate::error::RpcError;
use crate::error::RpcErrorV;
use crate::messages::Id;
use crate::messages::IncomingMessage;
use crate::messages::IncomingV;
use crate::messages::MethodCall;
use crate::messages::Notification;
use crate::messages::NotificationV;
use crate::messages::RawResult;
use crate::messages::RawResultV;
use crate::messages::Response;
use crate::pending::CompletionSlot;
use crate::pending::EntryV;
use crate::pending::PendingTable;
use crate::pending::Reply;
use crate::pending::ReplyV;
use crate::pending::close_model;
use crate::pending::lemma_lookup_found;
use crate::pending::lemma_lookup_not_found;
use crate::pending::reply_view;
use crate::pending::resolve_model;
use crate::pending::table_ids_distinct;
use crate::pending::table_lookup;
use crate::transport::SendingError;
use crate::transport::Transport;

verus! {

/// Identifier generator for outgoing calls.
///
/// Hands out the sequence 0, 1, 2, ... — every identifier is issued at most
/// once over the generator's lifetime.
#[derive(Debug)]
pub struct IdGenerator {
    /// Next identifier value to be returned.
    pub counter: i64,
}

impl IdGenerator {
    /// Create a new generator counting from 0.
    pub fn new() -> (r: IdGenerator)
        ensures
            r.counter == 0,
    {
        IdGenerator { counter: 0 }
    }

    /// Obtain a fresh identifier.
    pub fn next(&mut self) -> (r: Id)
        requires
            old(self).counter < i64::MAX,
        ensures
            r == Id(old(self).counter),
            final(self).counter == old(self).counter + 1,
    {
        let id = self.counter;
        self.counter = self.counter + 1;
        Id(id)
    }
}

/// An item of the handler's event queue: traffic not tied to any one
/// pending call.
#[derive(Clone, Debug, PartialEq)]
pub enum Event {
    /// The peer sent a notification.
    Notification(Notification),
    /// The handler ran into a protocol irregularity.
    Error(HandlingError),
}

/// Model of [`Event`].
pub ghost enum EventV {
    /// The peer sent a notification.
    Notification(NotificationV),
    /// The handler ran into a protocol irregularity.
    Error(HandlingErrorV),
}

impl View for Event {
    type V = EventV;

    open spec fn view(&self) -> EventV {
        match self {
            Event::Notification(n) => EventV::Notification(n@),
            Event::Error(e) => EventV::Error(e@),
        }
    }
}

/// Converts a protocol-level reply into the call's result: the payload
/// text of a success, or the peer's error report as an [`RpcError`].
pub fn decode_result(result: RawResult) -> (r: Result<String, RpcError>)
    ensures
        match result@ {
            RawResultV::Success(p) => r is Ok && r->Ok_0@ == p,
            RawResultV::Error(e) => r is Err && r->Err_0@ == RpcErrorV::RemoteError(e),
        },
{
    match result {
        RawResult::Success(s) => Ok(s.result),
        RawResult::Error(e) => Err(RpcError::RemoteError(e)),
    }
}

/// The main provider of the RPC protocol. Given a transport capable of
/// carrying text messages, it manages the whole communication with a
/// peer.
pub struct Handler<T: Transport> {
    /// Transports text messages between this handler and the peer.
    pub transport: T,
    /// Provides identifiers for requests.
    pub id_generator: IdGenerator,
    /// Holds a completion slot for every call that was made, pending
    /// until its response comes or the connection is lost.
    pub ongoing_calls: PendingTable,
    /// Whether the transport was reported closed; final once set.
    pub closed: bool,
    /// Queued events, oldest first.
    pub events: Vec<Event>,
    /// Every identifier ever issued, in order.
    pub issued: Ghost<Seq<int>>,
}

impl<T: Transport> Handler<T> {
    /// The pending-call table's model.
    pub open spec fn table(&self) -> Seq<EntryV> {
        self.ongoing_calls@
    }

    /// The event queue's model.
    pub open spec fn events_view(&self) -> Seq<EventV> {
        Seq::new(self.events@.len(), |k: int| self.events@[k]@)
    }

    /// The handler's invariant: identifiers count up from zero and are
    /// recorded in issue order, table entries carry distinct identifiers
    /// already issued, and nothing stays pending after closure.
    pub open spec fn wf(&self) -> bool {
        &&& 0 <= self.id_generator.counter
        &&& table_ids_distinct(self.table())
        &&& (forall|k: int|
            0 <= k < self.table().len() ==> 0 <= (#[trigger] self.table()[k]).0
                < self.id_generator.counter)
        &&& self.issued@ == Seq::new(self.id_generator.counter as nat, |k: int| k)
        &&& (self.closed ==> forall|k: int|
            0 <= k < self.table().len() ==> (#[trigger] self.table()[k]).1 is Some)
    }

    /// A new handler over the given transport: open, with no calls made
    /// and no events queued.
    pub fn new(transport: T) -> (r: Handler<T>)
        ensures
            r.wf(),
            !r.closed,
            r.id_generator.counter == 0,
            r.table() == Seq::<EntryV>::empty(),
            r.events_view() == Seq::<EventV>::empty(),
            r.transport == transport,
            r.issued@ == Seq::<int>::empty(),
    {
        let r = Handler {
            transport,
            id_generator: IdGenerator::new(),
            ongoing_calls: PendingTable::new(),
            closed: false,
            events: Vec::new(),
            issued: Ghost(Seq::empty()),
        };
        proof {
            assert(r.events_view() =~= Seq::<EventV>::empty());
            assert(r.issued@ =~= Seq::new(0nat, |k: int| k));
        }
        r
    }

    /// Make a remote call.
    ///
    /// Allocates the next identifier, registers a pending completion slot,
    /// serializes the request envelope and asks the transport to send it.
    /// The identifier is the caller's handle on the call's eventual
    /// outcome, observed through [`Handler::reply_for`].
    ///
    /// On a closed handler the call fails immediately: its slot is born
    /// resolved with [`RpcError::LostConnection`] and the transport is not
    /// touched. A transport refusal is returned synchronously and leaves
    /// no pending entry behind.
    pub fn open_request(&mut self, method: String, params: String) -> (r: Result<
        Id,
        SendingError,
    >)
        requires
            old(self).wf(),
            old(self).id_generator.counter < i64::MAX,
        ensures
            final(self).wf(),
            final(self).id_generator.counter == old(self).id_generator.counter + 1,
            final(self).issued@ == old(self).issued@.push(old(self).id_generator.counter as int),
            final(self).closed == old(self).closed,
            final(self).events == old(self).events,
            old(self).closed ==> {
                &&& r == Ok::<Id, SendingError>(Id(old(self).id_generator.counter))
                &&& final(self).transport == old(self).transport
                &&& final(self).table() == old(self).table().push(
                    (
                        old(self).id_generator.counter as int,
                        Some(Err::<RawResultV, RpcErrorV>(RpcErrorV::LostConnection)),
                    ),
                )
            },
            !old(self).closed && r is Ok ==> {
                &&& r == Ok::<Id, SendingError>(Id(old(self).id_generator.counter))
                &&& final(self).table() == old(self).table().push(
                    (old(self).id_generator.counter as int, None::<ReplyV>),
                )
                &&& final(self).transport.sent() == old(self).transport.sent().push(
                    spec_request_text(old(self).id_generator.counter as int, method@, params@),
                )
            },
            !old(self).closed && r is Err ==> {
                &&& final(self).table() == old(self).table()
                &&& final(self).transport.sent() == old(self).transport.sent()
            },
    {
        let ghost pre = *self;
        let id = self.id_generator.next();
        self.issued = Ghost(self.issued@.push(id@));
        proof {
            assert(self.issued@ =~= Seq::new(
                self.id_generator.counter as nat,
                |k: int| k,
            ));
            assert(forall|k: int|
                0 <= k < self.table().len() ==> (#[trigger] self.table()[k]).0 != id@);
            lemma_lookup_not_found(self.table(), id@);
        }
        if self.closed {
            self.ongoing_calls.register(
                id,
                CompletionSlot::resolved(Err(RpcError::LostConnection)),
            );
            Ok(id)
        } else {
            let message = crate::api::into_request_message(
                MethodCall { method, input: params },
                id,
            );
            let text = encoder::serialize_request(&message);
            match self.transport.send_text(text) {
                Ok(_) => {
                    self.ongoing_calls.register(id, CompletionSlot::new());
                    Ok(id)
                },
                Err(e) => Err(e),
            }
        }
    }

    /// Record an event for the host application to observe.
    pub fn error_occurred(&mut self, error: HandlingError)
        requires
            old(self).wf(),
        ensures
            final(self).wf(),
            final(self).transport == old(self).transport,
            final(self).id_generator == old(self).id_generator,
            final(self).issued == old(self).issued,
            final(self).closed == old(self).closed,
            final(self).table() == old(self).table(),
            final(self).events_view() == old(self).events_view().push(EventV::Error(error@)),
    {
        let ghost pre = self.events_view();
        let ghost ev = error@;
        self.events.push(Event::Error(error));
        proof {
            assert(self.events_view() =~= pre.push(EventV::Error(ev)));
        }
    }

    /// Handle a decoded response: deliver it to the pending call it
    /// answers, or record an unexpected-response event when no call
    /// awaits that identifier.
    pub fn process_response(&mut self, response: Response)
        requires
            old(self).wf(),
        ensures
            final(self).wf(),
            final(self).transport == old(self).transport,
            final(self).id_generator == old(self).id_generator,
            final(self).issued == old(self).issued,
            final(self).closed == old(self).closed,
            table_lookup(old(self).table(), response.id@) == Some(None::<ReplyV>) ==> {
                &&& final(self).table() == resolve_model(
                    old(self).table(),
                    response.id@,
                    Ok::<RawResultV, RpcErrorV>(response.res@),
                )
                &&& final(self).events == old(self).events
            },
            table_lookup(old(self).table(), response.id@) != Some(None::<ReplyV>) ==> {
                &&& final(self).table() == old(self).table()
                &&& final(self).events_view() == old(self).events_view().push(
                    EventV::Error(HandlingErrorV::UnexpectedResponse(response@)),
                )
            },
    {
        if self.ongoing_calls.has_pending(response.id) {
            let id = response.id;
            let _found = self.ongoing_calls.resolve(id, Ok(response.res));
            proof {
                if old(self).closed {
                    lemma_lookup_found(old(self).table(), id@);
                }
                assert(forall|k: int|
                    0 <= k < self.table().len() ==> (#[trigger] self.table()[k]).0 == old(
                        self,
                    ).table()[k].0);
            }
        } else {
            self.error_occurred(HandlingError::UnexpectedResponse(response));
        }
    }

    /// Handle a decoded notification: queue it for the host application.
    pub fn process_notification(&mut self, message: Notification)
        requires
            old(self).wf(),
        ensures
            final(self).wf(),
            final(self).transport == old(self).transport,
            final(self).id_generator == old(self).id_generator,
            final(self).issued == old(self).issued,
            final(self).closed == old(self).closed,
            final(self).table() == old(self).table(),
            final(self).events_view() == old(self).events_view().push(
                EventV::Notification(message@),
            ),
    {
        let ghost pre = self.events_view();
        let ghost nv = message@;
        self.events.push(Event::Notification(message));
        proof {
            assert(self.events_view() =~= pre.push(EventV::Notification(nv)));
        }
    }

    /// Feed one inbound text frame to the handler.
    ///
    /// The frame is decoded and dispatched: a response resolves the
    /// pending call it answers, or yields an unexpected-response event; a
    /// notification is queued; an undecodable frame yields an
    /// invalid-message event. Nothing here is fatal to the handler.
    pub fn process_incoming_message(&mut self, message: String)
        requires
            old(self).wf(),
        ensures
            final(self).wf(),
            final(self).transport == old(self).transport,
            final(self).id_generator == old(self).id_generator,
            final(self).issued == old(self).issued,
            final(self).closed == old(self).closed,
            spec_decode(message@) is None ==> {
                &&& final(self).table() == old(self).table()
                &&& final(self).events_view() == old(self).events_view().push(
                    EventV::Error(HandlingErrorV::InvalidMessage(message@)),
                )
            },
            (match spec_decode(message@) {
                Some(IncomingV::Notification(nv)) => {
                    &&& final(self).table() == old(self).table()
                    &&& final(self).events_view() == old(self).events_view().push(
                        EventV::Notification(nv),
                    )
                },
                _ => true,
            }),
            (match spec_decode(message@) {
                Some(IncomingV::Response(rv)) => {
                    &&& (table_lookup(old(self).table(), rv.id) == Some(None::<ReplyV>) ==> {
                        &&& final(self).table() == resolve_model(
                            old(self).table(),
                            rv.id,
                            Ok::<RawResultV, RpcErrorV>(rv.res),
                        )
                        &&& final(self).events == old(self).events
                    })
                    &&& (table_lookup(old(self).table(), rv.id) != Some(None::<ReplyV>) ==> {
                        &&& final(self).table() == old(self).table()
                        &&& final(self).events_view() == old(self).events_view().push(
                            EventV::Error(HandlingErrorV::UnexpectedResponse(rv)),
                        )
                    })
                },
                _ => true,
            }),
    {
        match decoder::decode(message.as_str()) {
            Ok(IncomingMessage::Response(response)) => self.process_response(response),
            Ok(IncomingMessage::Notification(notification)) => self.process_notification(
                notification,
            ),
            Err(_) => self.error_occurred(HandlingError::InvalidMessage(message)),
        }
    }

    /// React to the transport reporting closure: the handler becomes
    /// permanently closed and every outstanding call is resolved with
    /// [`RpcError::LostConnection`]. Calling this again changes nothing —
    /// a closed handler has no pending calls left to resolve.
    pub fn on_transport_closed(&mut self)
        requires
            old(self).wf(),
        ensures
            final(self).wf(),
            final(self).closed,
            final(self).table() == close_model(old(self).table()),
            final(self).transport == old(self).transport,
            final(self).id_generator == old(self).id_generator,
            final(self).issued == old(self).issued,
            final(self).events == old(self).events,
    {
        self.closed = true;
        self.ongoing_calls.drain_all();
        proof {
            assert(forall|k: int|
                0 <= k < self.table().len() ==> (#[trigger] self.table()[k]).0 == old(
                    self,
                ).table()[k].0 && self.table()[k].1 is Some);
        }
    }

    /// Take the oldest queued event, if any. Events come out in exactly
    /// the order [`Handler::process_incoming_message`] produced them.
    pub fn next_event(&mut self) -> (r: Option<Event>)
        requires
            old(self).wf(),
        ensures
            final(self).wf(),
            final(self).transport == old(self).transport,
            final(self).id_generator == old(self).id_generator,
            final(self).issued == old(self).issued,
            final(self).closed == old(self).closed,
            final(self).table() == old(self).table(),
            old(self).events@.len() == 0 ==> r is None && final(self).events == old(self).events,
            old(self).events@.len() > 0 ==> r is Some && r->0@ == old(self).events_view()[0]
                && final(self).events_view() == old(self).events_view().drop_first(),
    {
        if self.events.len() > 0 {
            let ghost pre = self.events_view();
            let e = self.events.remove(0);
            proof {
                assert(self.events_view() =~= pre.drop_first());
            }
            Some(e)
        } else {
            None
        }
    }

    /// Observe a call's outcome: `None` while the call is still pending
    /// (or the identifier was never issued), the delivered reply once it
    /// is resolved. Observation never changes anything, so a resolved
    /// call yields the same reply on every look.
    pub fn reply_for(&self, id: Id) -> (r: Option<&Reply>)
        requires
            self.wf(),
        ensures
            match r {
                Some(x) => table_lookup(self.table(), id@) == Some(Some(reply_view(*x))),
                None => table_lookup(self.table(), id@) is None || table_lookup(
                    self.table(),
                    id@,
                ) == Some(None::<ReplyV>),
            },
    {
        match self.ongoing_calls.slot_of(id) {
            Some(slot) => match slot.value() {
                Some(x) => Some(x),
                None => None,
            },
            None => None,
        }
    }
}

/// Notification delivery order: queuing the event for a newly processed
/// frame appends exactly one item and leaves every item already queued at
/// its position, so notifications are observed in the order the frames
/// arrived.
pub proof fn lemma_event_queue_preserves_order(q: Seq<EventV>, e: EventV, i: int)
    requires
        0 <= i < q.len(),
    ensures
        q.push(e).len() == q.len() + 1,
        q.push(e)[i] == q[i],
        q.push(e)[q.len() as int] == e,
{
}

/// Identifier uniqueness: over any run of calls on one handler, the
/// identifiers issued are pairwise distinct and strictly increasing — the
/// later of two calls always carries the larger identifier.
pub proof fn lemma_issued_ids_strictly_increasing<T: Transport>(h: &Handler<T>, i: int, j: int)
    requires
        h.wf(),
        0 <= i < j < h.issued@.len(),
    ensures
        h.issued@[i] < h.issued@[j],
{
}

} // verus!
