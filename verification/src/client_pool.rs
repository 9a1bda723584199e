//! The bounded pool of reusable external-service clients.
//!
//! The pool hands out idle clients, constructs new ones lazily until the
//! configured cap is reached, and never exceeds it: at any moment the
//! constructed clients — idle plus checked out — number at most the cap.
//! Callers that find the pool exhausted wait on the pool's notifier and
//! retry `raw_client`; every release returns the client to the idle set
//! and fires one notification. The waiting itself is async and happens
//! outside the library.

use vstd::prelude::*;
use std::sync::Arc;
use tokio::sync::Notify;
use crate::config::Gpt;
use crate::notify::{clone_notifier, new_notify, notify_one};

verus! {

/// The factory the embedding program supplies: it builds one client and
/// knows the pool's configuration.
pub trait PollableClientFactory<Client> {
    fn build_client(&self) -> Client;

    fn get_config(&self) -> &Gpt;
}

pub struct ClientsPool<Client, F> {
    clients: Vec<Client>,
    clients_total: u32,
    max_clients: u32,
    notify: Arc<Notify>,
    factory: F,
}

impl<Client, F: PollableClientFactory<Client>> ClientsPool<Client, F> {
    /// The idle clients, most recently returned last.
    pub closed spec fn spec_idle(self) -> Seq<Client> {
        self.clients@
    }

    /// How many clients have ever been constructed.
    pub closed spec fn spec_total(self) -> u32 {
        self.clients_total
    }

    /// The cap the pool was configured with.
    pub closed spec fn spec_cap(self) -> u32 {
        self.max_clients
    }

    pub closed spec fn spec_notifier(self) -> Arc<Notify> {
        self.notify
    }

    /// The capacity invariant: no more clients are out or idle than were
    /// ever constructed, and no more were constructed than the cap allows.
    pub open spec fn wf(self) -> bool {
        self.spec_idle().len() <= self.spec_total() && self.spec_total() <= self.spec_cap()
    }

    /// How many clients are checked out right now.
    pub open spec fn spec_leased(self) -> int {
        self.spec_total() - self.spec_idle().len()
    }

    pub fn new(factory: F) -> (r: Self)
        ensures
            r.wf(),
            r.spec_idle() =~= Seq::<Client>::empty(),
            r.spec_total() == 0,
    {
        let max_clients = factory.get_config().max_clients_count;
        ClientsPool {
            clients: Vec::new(),
            clients_total: 0,
            max_clients,
            notify: new_notify(),
            factory,
        }
    }

    /// Takes a client: an idle one if there is one; a newly constructed
    /// one while the cap is not consumed; none otherwise, and the caller
    /// must wait for a release. A consumed cap slot is never given back.
    pub fn pop(&mut self) -> (r: Option<Client>)
        requires
            old(self).wf(),
        ensures
            final(self).wf(),
            final(self).spec_cap() == old(self).spec_cap(),
            final(self).spec_notifier() == old(self).spec_notifier(),
            if old(self).spec_idle().len() > 0 {
                &&& r == Some(old(self).spec_idle().last())
                &&& final(self).spec_idle() == old(self).spec_idle().drop_last()
                &&& final(self).spec_total() == old(self).spec_total()
            } else if old(self).spec_total() < old(self).spec_cap() {
                &&& r is Some
                &&& final(self).spec_idle() == old(self).spec_idle()
                &&& final(self).spec_total() == old(self).spec_total() + 1
            } else {
                &&& r is None
                &&& final(self).spec_idle() == old(self).spec_idle()
                &&& final(self).spec_total() == old(self).spec_total()
            },
    {
        match self.clients.pop() {
            Some(client) => Some(client),
            None => {
                if self.clients_total >= self.max_clients {
                    return None;
                }
                self.clients_total = self.clients_total + 1;
                Some(self.factory.build_client())
            },
        }
    }

    /// Pops an idle client only; never constructs. This is what a waiter
    /// retries after being notified, racing other waiters for the freed
    /// client.
    pub fn raw_client(&mut self) -> (r: Option<Client>)
        requires
            old(self).wf(),
        ensures
            final(self).wf(),
            final(self).spec_cap() == old(self).spec_cap(),
            final(self).spec_total() == old(self).spec_total(),
            final(self).spec_notifier() == old(self).spec_notifier(),
            if old(self).spec_idle().len() > 0 {
                r == Some(old(self).spec_idle().last()) && final(self).spec_idle() == old(
                    self,
                ).spec_idle().drop_last()
            } else {
                r is None && final(self).spec_idle() == old(self).spec_idle()
            },
    {
        self.clients.pop()
    }

    /// Returns a checked-out client to the idle set, unconditionally, and
    /// fires one notification for a waiter.
    pub fn return_client(&mut self, client: Client)
        requires
            old(self).wf(),
            old(self).spec_leased() > 0,
        ensures
            final(self).wf(),
            final(self).spec_idle() == old(self).spec_idle().push(client),
            final(self).spec_total() == old(self).spec_total(),
            final(self).spec_cap() == old(self).spec_cap(),
            final(self).spec_notifier() == old(self).spec_notifier(),
    {
        self.clients.push(client);
        notify_one(&self.notify);
    }

    /// The notifier a caller waits on when the pool is exhausted.
    pub fn notifier(&self) -> (r: Arc<Notify>)
        ensures
            r == self.spec_notifier(),
    {
        clone_notifier(&self.notify)
    }
}

/// The pool capacity law: however the pool has been used, the clients that
/// exist — checked out plus idle — never number more than the cap, and the
/// checked-out count is never negative.
pub proof fn lemma_pool_capacity<Client, F: PollableClientFactory<Client>>(
    p: ClientsPool<Client, F>,
)
    requires
        p.wf(),
    ensures
        p.spec_leased() + p.spec_idle().len() == p.spec_total(),
        p.spec_total() <= p.spec_cap(),
        p.spec_leased() >= 0,
{
}

} // verus!
