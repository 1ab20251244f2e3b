//! The balances of one client.

use crate::amount::{decimal_text, pow10, Amount};
use vstd::prelude::*;

verus! {

/// The number of decimal places with which balances are written out.
pub const PRECISION: u32 = 4;

/// Identifies a client.
pub type ClientID = u16;

/// The state of one client's account.
#[derive(Debug, Copy, Clone, PartialEq)]
pub struct Client {
    /// Identifies the client.
    pub id: ClientID,
    /// Funds that can be withdrawn or disputed.
    pub available: Amount,
    /// Funds frozen by disputes.
    pub held: Amount,
    /// Available and held funds together.
    pub total: Amount,
    /// Set by a chargeback; a locked account never changes again.
    pub locked: bool,
}

impl Client {
    /// An unlocked client without funds.
    pub open spec fn spec_new(id: ClientID) -> Client {
        Client {
            id,
            available: Amount::spec_zero(),
            held: Amount::spec_zero(),
            total: Amount::spec_zero(),
            locked: false,
        }
    }

    /// All three balances are valid amounts.
    pub open spec fn valid(self) -> bool {
        &&& self.available.wf()
        &&& self.held.wf()
        &&& self.total.wf()
    }

    /// The total is the sum of available and held funds.
    pub open spec fn balanced(self) -> bool {
        self.total@ == self.available@ + self.held@
    }

    /// Whether `amount` can be added to the total and to the available funds.
    pub open spec fn can_deposit(self, amount: Amount) -> bool {
        self.total.sum_fits(amount) && self.available.sum_fits(amount)
    }

    /// The client after a deposit of `amount`.
    pub open spec fn deposited(self, amount: Amount) -> Client {
        Client {
            total: self.total.plus(amount),
            available: self.available.plus(amount),
            ..self
        }
    }

    /// Whether `amount` can be taken from the total and from the available
    /// funds.
    pub open spec fn can_withdraw(self, amount: Amount) -> bool {
        self.total.diff_fits(amount) && self.available.diff_fits(amount)
    }

    /// The client after a withdrawal of `amount`.
    pub open spec fn withdrawn(self, amount: Amount) -> Client {
        Client {
            total: self.total.minus(amount),
            available: self.available.minus(amount),
            ..self
        }
    }

    /// Whether `amount` can be moved from the available to the held funds.
    pub open spec fn can_dispute(self, amount: Amount) -> bool {
        self.available.diff_fits(amount) && self.held.sum_fits(amount)
    }

    /// The client after `amount` has been disputed.
    pub open spec fn disputed(self, amount: Amount) -> Client {
        Client {
            available: self.available.minus(amount),
            held: self.held.plus(amount),
            ..self
        }
    }

    /// Whether `amount` can be moved from the held to the available funds.
    pub open spec fn can_resolve(self, amount: Amount) -> bool {
        self.held.diff_fits(amount) && self.available.sum_fits(amount)
    }

    /// The client after a dispute over `amount` has been resolved.
    pub open spec fn resolved(self, amount: Amount) -> Client {
        Client {
            held: self.held.minus(amount),
            available: self.available.plus(amount),
            ..self
        }
    }

    /// Whether `amount` can be taken from the held funds and from the total.
    pub open spec fn can_chargeback(self, amount: Amount) -> bool {
        self.held.diff_fits(amount) && self.total.diff_fits(amount)
    }

    /// The client after `amount` has been charged back: the account is locked.
    pub open spec fn charged_back(self, amount: Amount) -> Client {
        Client {
            held: self.held.minus(amount),
            total: self.total.minus(amount),
            locked: true,
            ..self
        }
    }

    /// A new client without funds.
    pub fn new(id: ClientID) -> (r: Self)
        ensures
            r == Client::spec_new(id),
    {
        Self {
            id,
            available: Amount::default(),
            held: Amount::default(),
            total: Amount::default(),
            locked: false,
        }
    }
}

/// The client stored under `id`, or a new client where there is none.
pub open spec fn fetched(clients: Map<ClientID, Client>, id: ClientID) -> Client {
    if clients.contains_key(id) {
        clients[id]
    } else {
        Client::spec_new(id)
    }
}

/// The text of a balance for output: the amount rounded to `PRECISION`
/// decimal places and written with exactly that many digits behind the point.
pub fn serialize_amount(amount: &Amount) -> (r: String)
    ensures
        r@ == decimal_text(
            amount.rounded(PRECISION).mantissa() * pow10(
                (PRECISION - amount.rounded(PRECISION).scale()) as nat,
            ),
            PRECISION as nat,
        ),
{
    amount.to_fixed(PRECISION)
}

} // verus!
