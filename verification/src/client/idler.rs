//! The client that listens for changes.

use std::sync::Arc;

use vstd::prelude::*;
use vstd::string::StringExecFns;

use tokio::sync::mpsc::UnboundedReceiver;

use crate::channel::is_receiver_closed;
use crate::client::runtime::{
    closing_error, idle_run, is_idle_run, law_changes_then_at_most_one_error,
    law_ended_idle_loop_stays_ended, IdleEvent,
};
use crate::client::subsystem::ConnectionEvent;
use crate::text::{quote, quoted, share};

verus! {

/// A handle to a connection that the server reports changes over.
///
/// The default one belongs to no connection, and serves to open one.
pub struct ClientIdler {
    state_changes: Option<UnboundedReceiver<ConnectionEvent>>,
    protocol_version: Arc<str>,
}

impl Default for ClientIdler {
    fn default() -> (client: ClientIdler)
        ensures
            !client.is_open(),
            client.version().len() == 0,
    {
        proof {
            reveal_strlit("");
        }
        ClientIdler { state_changes: None, protocol_version: share("") }
    }
}

impl ClientIdler {
    /// Whether the handle belongs to a connection.
    pub closed spec fn is_open(self) -> bool {
        self.state_changes is Some
    }

    /// The protocol version that the connection uses.
    pub closed spec fn version(self) -> Seq<char> {
        (*self.protocol_version)@
    }

    /// The queue that the connection reports its events to.
    pub closed spec fn queue(self) -> UnboundedReceiver<ConnectionEvent>
        recommends
            self.is_open(),
    {
        self.state_changes->0
    }

    /// Whether `closed` is what the queue of this connection may report when it is asked whether its
    /// other end is closed.
    pub closed spec fn queue_reports_closed(self, closed: bool) -> bool {
        call_ensures(
            is_receiver_closed::<ConnectionEvent>,
            (&self.queue(),),
            closed,
        )
    }

    /// The handle to a connection that reports its events to `state_changes`.
    pub fn new(
        state_changes: UnboundedReceiver<ConnectionEvent>,
        protocol_version: &str,
    ) -> (client: ClientIdler)
        ensures
            client.is_open(),
            client.queue() == state_changes,
            client.version() == protocol_version@,
    {
        ClientIdler {
            state_changes: Some(state_changes),
            protocol_version: share(protocol_version),
        }
    }

    /// Tells whether the handle belongs to a connection.
    pub fn has_connection(&self) -> (open: bool)
        ensures
            open == self.is_open(),
    {
        self.state_changes.is_some()
    }

    /// Get the protocol version the underlying connection is using.
    pub fn protocol_version(&self) -> (version: &str)
        ensures
            version@ == self.version(),
    {
        &self.protocol_version
    }

    /// Returns `true` if the connection to the server has been closed (by the server or due to an
    /// error).
    ///
    /// This is what the queue reports at the moment: the loop that drives the connection decides it,
    /// as `queue_is_closed_after` says. That the queue reports it so is up to the channel.
    pub fn is_connection_closed(&self) -> (closed: bool)
        requires
            self.is_open(),
        ensures
            self.queue_reports_closed(closed),
    {
        is_receiver_closed(self.state_changes.as_ref().unwrap())
    }

    /// A text that describes the handle.
    pub fn describe(&self) -> (text: String)
        ensures
            text@ == "Client { protocol_version: "@ + quoted(self.version()) + ", .. }"@,
    {
        let mut text = "Client { protocol_version: ".to_owned();
        text.append(quote(&self.protocol_version).as_str());
        text.append(", .. }");
        text
    }
}

impl ClientIdler {
    /// Whether the queue of a connection is closed after the given events: the idle loop keeps its
    /// other end until it has ended.
    pub open spec fn queue_is_closed_after(events: Seq<IdleEvent>) -> bool {
        idle_run(events).state is None
    }
}

/// The queue of a connection is closed exactly when the idle loop has ended: the server closed the
/// connection cleanly, sending or receiving failed, or `idle` was answered with an error. It stays
/// closed, and nothing more is reported.
pub proof fn law_queue_is_closed_once_the_idle_loop_has_ended(
    events: Seq<IdleEvent>,
    more: Seq<IdleEvent>,
)
    requires
        is_idle_run(events),
    ensures
        ClientIdler::queue_is_closed_after(events) <==> events.len() > 0 && (events.last()
            == IdleEvent::Received(Ok(None)) || closing_error(events.last()) is Some),
        ClientIdler::queue_is_closed_after(events) ==> {
            &&& ClientIdler::queue_is_closed_after(events + more)
            &&& idle_run(events + more).reports == idle_run(events).reports
        },
{
    law_changes_then_at_most_one_error(events);
    if idle_run(events).state is None {
        law_ended_idle_loop_stays_ended(events, more);
    }
}

/// A handle tells the protocol version that it was made with. A default handle has no connection and
/// tells no version.
pub proof fn law_a_handle_tells_its_protocol_version(
    receiver: UnboundedReceiver<ConnectionEvent>,
    protocol_version: &str,
    client: ClientIdler,
    none: ClientIdler,
    versions: (&str, &str),
    open: (bool, bool),
    text: String,
)
    requires
        call_ensures(ClientIdler::new, (receiver, protocol_version), client),
        call_ensures(<ClientIdler as Default>::default, (), none),
        call_ensures(ClientIdler::protocol_version, (&client,), versions.0),
        call_ensures(ClientIdler::protocol_version, (&none,), versions.1),
        call_ensures(ClientIdler::has_connection, (&client,), open.0),
        call_ensures(ClientIdler::has_connection, (&none,), open.1),
        call_ensures(ClientIdler::describe, (&client,), text),
    ensures
        versions.0@ == protocol_version@,
        versions.1@.len() == 0,
        open == (true, false),
        text@ == "Client { protocol_version: "@ + quoted(protocol_version@) + ", .. }"@,
{
}

/// The queue that a handle was made with tells whether the connection is closed.
pub(crate) proof fn law_a_handle_uses_its_queue(
    receiver: UnboundedReceiver<ConnectionEvent>,
    protocol_version: &str,
    client: ClientIdler,
    closed: bool,
)
    requires
        call_ensures(ClientIdler::new, (receiver, protocol_version), client),
        call_ensures(ClientIdler::is_connection_closed, (&client,), closed),
    ensures
        call_ensures(is_receiver_closed::<ConnectionEvent>, (&receiver,), closed),
{
}

} // verus!
