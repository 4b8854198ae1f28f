use vstd::prelude::*;

use std::collections::HashMap;

verus! {

broadcast use vstd::std_specs::hash::group_hash_axioms;

/// Per-account bookkeeping: how many grid cells each account currently
/// owns. Accounts without an entry own no cell. The game keeps every
/// entry equal to the true number of owned cells by updating the ledger
/// in the same atomic step as each ownership change.
pub struct AccountLedger {
    pub counts: HashMap<u64, u64>,
}

impl AccountLedger {
    /// The recorded cell count of `account`; unknown accounts count zero.
    pub open spec fn count_spec(self, account: u64) -> u64 {
        if self.counts@.contains_key(account) {
            self.counts@[account]
        } else {
            0
        }
    }

    pub fn new() -> (r: AccountLedger)
        ensures
            forall|a: u64| #[trigger] r.count_spec(a) == 0,
    {
        AccountLedger { counts: HashMap::new() }
    }

    /// Read-only view of one account's count.
    pub fn count_of(&self, account: u64) -> (r: u64)
        ensures
            r == self.count_spec(account),
    {
        match self.counts.get(&account) {
            Some(c) => *c,
            None => 0,
        }
    }

    /// Bookkeeping for one ownership transfer of a single cell, invoked
    /// exactly once per successful claim. A recolor by the standing owner
    /// changes no count; otherwise the new owner gains one cell and the
    /// previous owner, if there was one, loses one. No other account's
    /// count moves.
    pub fn transfer_cell_credit(&mut self, previous_owner: Option<u64>, new_owner: u64)
        requires
            match previous_owner {
                Some(p) => p != new_owner ==> old(self).count_spec(p) >= 1,
                None => true,
            },
            previous_owner != Some(new_owner) ==> old(self).count_spec(new_owner) < u64::MAX,
        ensures
            previous_owner == Some(new_owner) ==> forall|a: u64|
                #[trigger] final(self).count_spec(a) == old(self).count_spec(a),
            previous_owner != Some(new_owner) ==> {
                &&& final(self).count_spec(new_owner) == old(self).count_spec(new_owner) + 1
                &&& forall|p: u64| previous_owner == Some(p)
                    ==> #[trigger] final(self).count_spec(p) == old(self).count_spec(p) - 1
                &&& forall|a: u64| a != new_owner && previous_owner != Some(a)
                    ==> #[trigger] final(self).count_spec(a) == old(self).count_spec(a)
            },
    {
        if let Some(p) = previous_owner {
            if p == new_owner {
                return ;
            }
            let c = self.count_of(p);
            self.counts.insert(p, c - 1);
        }
        let c = self.count_of(new_owner);
        self.counts.insert(new_owner, c + 1);
    }
}

} // verus!
