//! The clients of an exchange.

use crate::client::{fetched, Client, ClientID};
use crate::error::ExchangeError;
use std::collections::HashMap;
use vstd::prelude::*;
use vstd::std_specs::iter::IteratorSpec;

verus! {

broadcast use vstd::std_specs::hash::group_hash_axioms;

/// Holds the account of every client, by the client's identifier.
#[derive(Debug, Clone)]
pub struct Registry {
    /// The accounts.
    pub clients: HashMap<ClientID, Client>,
}

impl View for Registry {
    type V = Map<ClientID, Client>;

    open spec fn view(&self) -> Map<ClientID, Client> {
        self.clients@
    }
}

impl Registry {
    /// Whether `id` has an account and the account is locked.
    pub open spec fn is_locked(&self, id: ClientID) -> bool {
        self@.contains_key(id) && self@[id].locked
    }

    /// A registry without clients.
    pub fn new() -> (r: Self)
        ensures
            r@ == Map::<ClientID, Client>::empty(),
    {
        let clients = HashMap::new();
        Registry { clients }
    }

    /// The account of `id` for changing it. A client without an account gets
    /// a new one without funds. A locked account cannot be changed: it comes
    /// back inside the error, and the registry stays as it is.
    pub fn get_mut(&mut self, id: &ClientID) -> (r: Result<&mut Client, ExchangeError>)
        ensures
            match r {
                Ok(client) => {
                    &&& !old(self).is_locked(*id)
                    &&& *client == fetched(old(self)@, *id)
                    &&& final(self)@ == old(self)@.insert(*id, *final(client))
                },
                Err(e) => {
                    &&& old(self).is_locked(*id)
                    &&& e == ExchangeError::Locked(old(self)@[*id])
                    &&& final(self)@ == old(self)@
                },
            },
    {
        let client = self.clients.entry(*id).or_insert(Client::new(*id));
        if client.locked {
            return Err(ExchangeError::Locked(*client));
        }
        Ok(client)
    }

    /// The account of `id`, if there is one.
    pub fn get(&mut self, id: &ClientID) -> (r: Option<&Client>)
        ensures
            final(self)@ == old(self)@,
            match r {
                Some(client) => old(self)@.contains_key(*id) && *client == old(self)@[*id],
                None => !old(self)@.contains_key(*id),
            },
    {
        self.clients.get(id)
    }

    /// All accounts, in no particular order: each stored account once.
    pub fn iter(&self) -> (r: Vec<Client>)
        ensures
            r@.to_set() == self@.values(),
            r@.len() == self@.len(),
    {
        let mut all: Vec<Client> = Vec::new();
        for client in it: self.clients.values()
            invariant
                all@ == it.seq().take(it.index()).unref(),
                it.seq() == self.clients.values().remaining(),
        {
            all.push(*client);
        }
        proof {
            let stored = self.clients.values().remaining();
            assert(stored.take(stored.len() as int) == stored);
        }
        all
    }

    /// Stores `client` under its identifier and returns the account that was
    /// stored there before.
    pub fn register(&mut self, client: Client) -> (r: Option<Client>)
        ensures
            final(self)@ == old(self)@.insert(client.id, client),
            match r {
                Some(previous) => old(self)@.contains_key(client.id) && previous == old(self)@[client.id],
                None => !old(self)@.contains_key(client.id),
            },
    {
        self.clients.insert(client.id, client)
    }
}

} // verus!
