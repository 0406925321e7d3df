//! Token balances, sponsorship grants and their recipients. These read the
//! ledger's outcomes; they hold no admission logic.

use vstd::prelude::*;

verus! {

/// A holder of CHURCH and PWR tokens.
#[derive(Clone, Debug, PartialEq, Eq)]
pub struct Account {
    pub id: String,
    pub owner: String,
    pub balance_church: u64,
    pub balance_pwr: u64,
}

impl Account {
    /// An account with empty balances.
    pub fn new(id: String, owner: String) -> (r: Account)
        ensures
            r.id == id,
            r.owner == owner,
            r.balance_church == 0,
            r.balance_pwr == 0,
    {
        Account { id, owner, balance_church: 0, balance_pwr: 0 }
    }

    /// Adds `amount` CHURCH, stopping at the largest balance.
    pub fn credit_church(&mut self, amount: u64)
        ensures
            final(self).balance_church == if old(self).balance_church + amount > u64::MAX {
                u64::MAX as int
            } else {
                old(self).balance_church + amount
            },
            final(self).balance_pwr == old(self).balance_pwr,
            final(self).id == old(self).id,
            final(self).owner == old(self).owner,
    {
        self.balance_church = self.balance_church.saturating_add(amount);
    }

    /// Takes `amount` CHURCH, stopping at zero.
    pub fn debit_church(&mut self, amount: u64)
        ensures
            final(self).balance_church == if old(self).balance_church < amount {
                0
            } else {
                old(self).balance_church - amount
            },
            final(self).balance_pwr == old(self).balance_pwr,
            final(self).id == old(self).id,
            final(self).owner == old(self).owner,
    {
        self.balance_church = self.balance_church.saturating_sub(amount);
    }

    /// Adds `amount` PWR, stopping at the largest balance.
    pub fn credit_pwr(&mut self, amount: u64)
        ensures
            final(self).balance_pwr == if old(self).balance_pwr + amount > u64::MAX {
                u64::MAX as int
            } else {
                old(self).balance_pwr + amount
            },
            final(self).balance_church == old(self).balance_church,
            final(self).id == old(self).id,
            final(self).owner == old(self).owner,
    {
        self.balance_pwr = self.balance_pwr.saturating_add(amount);
    }
}

/// A PWR grant made to a recipient.
#[derive(Clone, Debug, PartialEq, Eq)]
pub struct Grant {
    pub id: String,
    pub recipient_id: String,
    pub amount_pwr: u64,
    pub description: String,
}

impl Grant {
    pub fn new(id: String, recipient_id: String, amount_pwr: u64, description: String) -> (r:
        Grant)
        ensures
            r.id == id,
            r.recipient_id == recipient_id,
            r.amount_pwr == amount_pwr,
            r.description == description,
    {
        Grant { id, recipient_id, amount_pwr, description }
    }
}

/// Someone a grant can go to.
#[derive(Clone, Debug, PartialEq, Eq)]
pub struct Recipient {
    pub id: String,
    pub name: String,
    pub project: String,
}

impl Recipient {
    pub fn new(id: String, name: String, project: String) -> (r: Recipient)
        ensures
            r.id == id,
            r.name == name,
            r.project == project,
    {
        Recipient { id, name, project }
    }
}

} // verus!
