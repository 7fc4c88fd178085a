//! The connection panel: the client of a widget together with the address of
//! the backend that the widget is meant to reach.

use crate::connection::client::WidgetClient;
use crate::widget::contract::{Broker, ClientArena};
use vstd::prelude::*;
use vstd::string::StringExecFns;

verus! {

/// The address that a panel starts with.
pub open spec fn default_broker_address() -> Seq<char> {
    "0.0.0.0:9000"@
}

/// The connection of one widget.
pub struct ConnectionPanel {
    broker_address: String,
    client: WidgetClient,
}

impl ConnectionPanel {
    /// The address of the backend.
    pub closed spec fn spec_broker_address(&self) -> Seq<char> {
        self.broker_address@
    }

    /// The client of the widget.
    pub closed spec fn spec_client(&self) -> WidgetClient {
        self.client
    }

    /// A panel with the default address and a new client, whose mailbox is
    /// made in `arena`.
    pub fn new(arena: &mut ClientArena) -> (panel: Self)
        requires
            old(arena).wf(),
        ensures
            final(arena).wf(),
            final(arena)@.len() == old(arena)@.len() + 1,
            final(arena)@.drop_last() == old(arena)@,
            panel.spec_broker_address() == default_broker_address(),
            panel.spec_client().handle().index() == old(arena)@.len(),
            panel.spec_client().spec_id() is None,
            !panel.spec_client().is_subscribed(),
    {
        Self { broker_address: String::from_str("0.0.0.0:9000"), client: WidgetClient::new(arena) }
    }

    /// The address of the backend.
    pub fn broker_address(&self) -> (address: &str)
        ensures
            address@ == self.spec_broker_address(),
    {
        self.broker_address.as_str()
    }

    /// The client of the widget.
    pub fn client(&self) -> (client: &WidgetClient)
        ensures
            *client == self.spec_client(),
    {
        &self.client
    }

    /// The client of the widget, to work with.
    pub fn client_mut(&mut self) -> (client: &mut WidgetClient)
        ensures
            *client == old(self).spec_client(),
            final(self).spec_client() == *final(client),
            final(self).spec_broker_address() == old(self).spec_broker_address(),
    {
        &mut self.client
    }

    /// One tick of the panel: the tick of its client.
    pub fn update(&mut self, broker: &mut Broker, arena: &ClientArena)
        requires
            old(broker).wf(),
        ensures
            final(broker).wf(),
            final(broker)@ == old(self).spec_client().listening(old(broker)@),
            final(self).spec_broker_address() == old(self).spec_broker_address(),
            final(self).spec_client().is_subscribed(),
            final(self).spec_client().same_identity(&old(self).spec_client()),
    {
        self.client.update(broker, arena);
    }
}

} // verus!
