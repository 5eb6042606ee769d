use vstd::prelude::*;

verus! {

/// A lobby member: account id, display name, and gold balance.
#[derive(Clone, Debug)]
pub struct Player {
    pub id: i64,
    pub username: String,
    pub gold: u32,
}

impl Player {
    /// Whether the balance covers `amount`.
    pub fn can_afford(&self, amount: u32) -> (b: bool)
        ensures
            b == (self.gold >= amount),
    {
        self.gold >= amount
    }

    /// Debits `amount` if the balance covers it; otherwise leaves the
    /// balance untouched. Reports whether the debit happened.
    pub fn try_spend_gold(&mut self, amount: u32) -> (b: bool)
        ensures
            b == (old(self).gold >= amount),
            b ==> final(self).gold == old(self).gold - amount,
            !b ==> final(self).gold == old(self).gold,
            final(self).id == old(self).id,
            final(self).username == old(self).username,
    {
        if self.can_afford(amount) {
            self.gold = self.gold - amount;
            true
        } else {
            false
        }
    }

    /// Credits `amount` to the balance.
    pub fn add_gold(&mut self, amount: u32)
        requires
            old(self).gold + amount <= u32::MAX,
        ensures
            final(self).gold == old(self).gold + amount,
            final(self).id == old(self).id,
            final(self).username == old(self).username,
    {
        self.gold = self.gold + amount;
    }

    /// Credits `amount`, stopping at the largest representable balance.
    /// The simulation uses this for worker deposits and wave bonuses so
    /// that a long game can never fault.
    pub fn add_gold_saturating(&mut self, amount: u32)
        ensures
            final(self).gold == if old(self).gold + amount <= u32::MAX {
                old(self).gold + amount
            } else {
                u32::MAX as int
            },
            final(self).id == old(self).id,
            final(self).username == old(self).username,
    {
        if self.gold <= u32::MAX - amount {
            self.gold = self.gold + amount;
        } else {
            self.gold = u32::MAX;
        }
    }
}

} // verus!
