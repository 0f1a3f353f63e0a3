//! The supervisor's core: it owns the component collection and the registry
//! of live client handles, dispatches every bus event, and says which
//! clients a broadcast goes to.  The sockets, channels, and tasks around it
//! live in the embedding application, which reports a client whose queue
//! failed so the registry can drop it.

use vstd::prelude::*;
use crate::components::{spec_manager_outputs, spec_manager_states, ComponentManager,
    ComponentUpdate};
use crate::messages::SubscribeLogsResponse;
use crate::session::Device;

verus! {

/// The live-client registry after dropping the handle `id`.
pub open spec fn spec_clients_without(clients: Seq<u64>, id: u64) -> Seq<u64> {
    clients.filter(|c: u64| c != id)
}

/// The shared state behind all sessions: the identity record, the owned
/// components, and the outbound-queue handles of the live clients.
pub struct EspHomeApiServer {
    pub device: Device,
    pub components: ComponentManager,
    pub clients: Vec<u64>,
}

impl EspHomeApiServer {
    /// The component collection is well formed.
    pub open spec fn wf(&self) -> bool {
        self.components.wf()
    }

    /// A supervisor with no clients yet.
    pub fn new(device: Device, components: ComponentManager) -> (r: EspHomeApiServer)
        requires
            components.wf(),
        ensures
            r.device == device,
            r.components == components,
            r.clients@ == Seq::<u64>::empty(),
            r.wf(),
    {
        EspHomeApiServer { device, components, clients: Vec::new() }
    }

    /// Dispatches one event from the shared inbound channel: a closing note
    /// is dropped, a new connection registers its handle, a log line goes
    /// out to the clients as it is, and everything else is presented to the
    /// component collection, whose emissions are what the clients get.
    pub fn handle_bus_event(&mut self, upd: &ComponentUpdate, now: u64) -> (r: Vec<
        ComponentUpdate,
    >)
        requires
            old(self).wf(),
        ensures
            final(self).wf(),
            final(self).device == old(self).device,
            match upd {
                ComponentUpdate::Closing => r@.len() == 0 && *final(self) == *old(self),
                ComponentUpdate::Connection(id) => {
                    &&& r@.len() == 0
                    &&& final(self).clients@ == old(self).clients@.push(*id)
                    &&& final(self).components == old(self).components
                },
                ComponentUpdate::Log(m) => {
                    &&& r@.len() == 1
                    &&& (r@[0] matches ComponentUpdate::Log(m2) && m2.level == m.level
                        && m2.message@ == m.message@)
                    &&& *final(self) == *old(self)
                },
                _ => {
                    &&& final(self).components.components@ == spec_manager_states(
                        old(self).components.components@,
                        *upd,
                        now,
                    )
                    &&& r@ == spec_manager_outputs(old(self).components.components@, *upd, now)
                    &&& final(self).clients@ == old(self).clients@
                },
            },
    {
        match upd {
            ComponentUpdate::Closing => Vec::new(),
            ComponentUpdate::Connection(id) => {
                self.clients.push(*id);
                Vec::new()
            },
            ComponentUpdate::Log(m) => {
                let mut message: Vec<u8> = Vec::new();
                message.extend_from_slice(m.message.as_slice());
                let mut r: Vec<ComponentUpdate> = Vec::new();
                r.push(
                    ComponentUpdate::Log(SubscribeLogsResponse { level: m.level, message }),
                );
                r
            },
            _ => self.components.hanlde(upd, now),
        }
    }

    /// The handles a broadcast currently goes to, in registration order.
    pub fn broadcast_targets(&self) -> (r: Vec<u64>)
        ensures
            r@ == self.clients@,
    {
        let mut r: Vec<u64> = Vec::new();
        let mut i: usize = 0;
        while i < self.clients.len()
            invariant
                i <= self.clients@.len(),
                r@ =~= self.clients@.take(i as int),
            decreases self.clients@.len() - i,
        {
            r.push(self.clients[i]);
            proof {
                assert(r@ =~= self.clients@.take(i + 1));
            }
            i = i + 1;
        }
        proof {
            assert(self.clients@.take(self.clients@.len() as int) =~= self.clients@);
        }
        r
    }

    /// Drops a client whose outbound queue is closed or failing; a client
    /// going away is a silent disconnect, never a supervisor error.
    pub fn remove_client(&mut self, id: u64)
        ensures
            final(self).clients@ == spec_clients_without(old(self).clients@, id),
            final(self).components == old(self).components,
            final(self).device == old(self).device,
            final(self).wf() == old(self).wf(),
    {
        let ghost orig = self.clients@;
        let mut kept: Vec<u64> = Vec::new();
        let mut i: usize = 0;
        proof {
            reveal(Seq::filter);
            assert(orig.take(0) =~= Seq::<u64>::empty());
            assert(kept@ =~= spec_clients_without(orig.take(0), id));
        }
        while i < self.clients.len()
            invariant
                i <= orig.len(),
                self.clients@ == orig,
                kept@ == spec_clients_without(orig.take(i as int), id),
            decreases orig.len() - i,
        {
            let c = self.clients[i];
            if c != id {
                kept.push(c);
            }
            proof {
                reveal(Seq::filter);
                assert(orig.take(i + 1).drop_last() =~= orig.take(i as int));
                assert(orig.take(i + 1).last() == orig[i as int]);
            }
            i = i + 1;
        }
        proof {
            assert(orig.take(orig.len() as int) =~= orig);
        }
        self.clients = kept;
    }
}

} // verus!
