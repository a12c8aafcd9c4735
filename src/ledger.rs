use crate::address::Address;
use crate::state::{OfferRecord, TokenAccount};
use std::collections::HashMap;
use vstd::prelude::*;

verus! {

broadcast use vstd::std_specs::hash::group_hash_axioms;

/// The accounts that the escrow reads and writes: token balances by owner and
/// mint, and the open offers by id, each with its holding.
pub struct Ledger {
    program_id: Address,
    accounts: Vec<TokenAccount>,
    offers: HashMap<u64, OfferRecord>,
}

/// The largest amount of a token that one balance can hold.
pub open spec fn max_amount() -> int {
    u64::MAX as int
}

impl Ledger {
    /// The program whose derived addresses hold the offers.
    pub closed spec fn program_id(self) -> Address {
        self.program_id
    }

    /// The open offers, by id.
    pub closed spec fn offers(self) -> Map<u64, OfferRecord> {
        self.offers@
    }

    /// How much of `mint` `owner` holds outside of any offer.
    pub closed spec fn balance(self, owner: Address, mint: Address) -> nat {
        balance_in(self.accounts@, owner, mint)
    }

    /// Each owner and mint has at most one balance; each open offer is filed
    /// under its own id, exchanges two distinct mints, holds a positive amount
    /// and wants a positive amount.
    pub closed spec fn wf(self) -> bool {
        &&& forall|i: int, j: int|
            0 <= i < self.accounts@.len() && 0 <= j < self.accounts@.len() && i != j
                ==> !(#[trigger] self.accounts@[i].owner == #[trigger] self.accounts@[j].owner
                && self.accounts@[i].mint == self.accounts@[j].mint)
        &&& forall|id: u64| #[trigger] self.offers@.contains_key(id) ==> record_ok(id, self.offers@[id])
    }

    proof fn lemma_balance_at(self, i: int, owner: Address, mint: Address)
        requires
            self.wf(),
            slot_in(self.accounts@, i, owner, mint),
        ensures
            self.balance(owner, mint) == self.accounts@[i].amount,
    {
        let k = choose|k: int| slot_in(self.accounts@, k, owner, mint);
        assert(slot_in(self.accounts@, k, owner, mint));
        if k != i {
            assert(self.accounts@[i].owner == self.accounts@[k].owner);
        }
    }

    /// Every open offer of a well-formed ledger is fit to stand under its id.
    pub proof fn lemma_records_ok(self)
        requires
            self.wf(),
        ensures
            forall|id: u64| #[trigger]
                self.offers().contains_key(id) ==> record_ok(id, self.offers()[id]),
    {
    }

    /// No balance exceeds the largest token amount.
    pub proof fn lemma_balance_bounded(self, owner: Address, mint: Address)
        ensures
            self.balance(owner, mint) <= max_amount(),
    {
    }

    /// An empty ledger for the program `program_id`.
    pub fn new(program_id: Address) -> (r: Ledger)
        ensures
            r.wf(),
            r.program_id() == program_id,
            r.offers() == Map::<u64, OfferRecord>::empty(),
            forall|o: Address, m: Address| #[trigger] r.balance(o, m) == 0,
    {
        let r = Ledger { program_id, accounts: Vec::new(), offers: HashMap::new() };
        assert(r.offers@ =~= Map::<u64, OfferRecord>::empty());
        r
    }

    pub fn program_address(&self) -> (r: Address)
        ensures
            r == self.program_id(),
    {
        self.program_id
    }

    fn find_account(&self, owner: &Address, mint: &Address) -> (r: Option<usize>)
        ensures
            match r {
                Some(i) => slot_in(self.accounts@, i as int, *owner, *mint),
                None => forall|i: int| !slot_in(self.accounts@, i, *owner, *mint),
            },
    {
        let mut i: usize = 0;
        while i < self.accounts.len()
            invariant
                0 <= i <= self.accounts@.len(),
                forall|j: int| 0 <= j < i ==> !slot_in(self.accounts@, j, *owner, *mint),
            decreases self.accounts@.len() - i,
        {
            let a = &self.accounts[i];
            if a.owner.same(owner) && a.mint.same(mint) {
                return Some(i);
            }
            i += 1;
        }
        None
    }

    /// How much of `mint` `owner` holds.
    pub fn balance_of(&self, owner: &Address, mint: &Address) -> (r: u64)
        requires
            self.wf(),
        ensures
            r == self.balance(*owner, *mint),
    {
        match self.find_account(owner, mint) {
            Some(i) => {
                proof {
                    self.lemma_balance_at(i as int, *owner, *mint);
                }
                self.accounts[i].amount
            },
            None => 0,
        }
    }

    /// Sets what `owner` holds of `mint` to `amount`; nothing else changes.
    pub(crate) fn set_balance(&mut self, owner: &Address, mint: &Address, amount: u64)
        requires
            old(self).wf(),
        ensures
            final(self).wf(),
            final(self).program_id() == old(self).program_id(),
            final(self).offers() == old(self).offers(),
            final(self).balance(*owner, *mint) == amount,
            forall|o: Address, m: Address|
                !(o == *owner && m == *mint) ==> #[trigger] final(self).balance(o, m) == old(
                    self,
                ).balance(o, m),
    {
        let entry = TokenAccount { owner: *owner, mint: *mint, amount };
        let found = self.find_account(owner, mint);
        match found {
            Some(i) => {
                self.accounts.set(i, entry);
            },
            None => {
                self.accounts.push(entry);
            },
        }
        let ghost pre = *old(self);
        let ghost idx: int = match found {
            Some(i) => i as int,
            None => pre.accounts@.len() as int,
        };
        proof {
            assert forall|i: int, j: int|
                0 <= i < self.accounts@.len() && 0 <= j < self.accounts@.len() && i != j
                    implies !(#[trigger] self.accounts@[i].owner
                    == #[trigger] self.accounts@[j].owner && self.accounts@[i].mint
                    == self.accounts@[j].mint) by {
                if i != idx && j != idx {
                    assert(self.accounts@[i] == pre.accounts@[i]);
                    assert(self.accounts@[j] == pre.accounts@[j]);
                } else if i == idx {
                    if j < pre.accounts@.len() {
                        assert(self.accounts@[j] == pre.accounts@[j]);
                        assert(!slot_in(pre.accounts@, j, *owner, *mint));
                    }
                } else {
                    if i < pre.accounts@.len() {
                        assert(self.accounts@[i] == pre.accounts@[i]);
                        assert(!slot_in(pre.accounts@, i, *owner, *mint));
                    }
                }
            }
            assert(self.wf());
            assert(slot_in(self.accounts@, idx, *owner, *mint));
            self.lemma_balance_at(idx, *owner, *mint);
            assert forall|o: Address, m: Address|
                !(o == *owner && m == *mint) implies #[trigger] self.balance(o, m)
                == pre.balance(o, m) by {
                if exists|k: int| slot_in(pre.accounts@, k, o, m) {
                    let k = choose|k: int| slot_in(pre.accounts@, k, o, m);
                    pre.lemma_balance_at(k, o, m);
                    assert(slot_in(self.accounts@, k, o, m));
                    self.lemma_balance_at(k, o, m);
                } else {
                    assert forall|k: int| !slot_in(self.accounts@, k, o, m) by {
                        if slot_in(self.accounts@, k, o, m) {
                            assert(slot_in(pre.accounts@, k, o, m));
                        }
                    }
                }
            }
        }
    }

    /// Credits `amount` of `mint` to `owner`, as a mint authority issuing
    /// tokens would; refused where the balance would pass the largest amount.
    pub fn mint_to(&mut self, owner: &Address, mint: &Address, amount: u64) -> (r: bool)
        requires
            old(self).wf(),
        ensures
            final(self).wf(),
            final(self).program_id() == old(self).program_id(),
            final(self).offers() == old(self).offers(),
            r == (old(self).balance(*owner, *mint) + amount <= max_amount()),
            forall|o: Address, m: Address| #[trigger]
                final(self).balance(o, m) == old(self).balance(o, m) + (if r && o == *owner && m
                    == *mint {
                    amount as int
                } else {
                    0
                }),
    {
        let have = self.balance_of(owner, mint);
        if have > u64::MAX - amount {
            return false;
        }
        self.set_balance(owner, mint, have + amount);
        true
    }

    /// The record of the open offer `id`, if there is one.
    pub fn record(&self, id: u64) -> (r: Option<OfferRecord>)
        ensures
            r == (if self.offers().contains_key(id) {
                Some(self.offers()[id])
            } else {
                None::<OfferRecord>
            }),
    {
        match self.offers.get(&id) {
            Some(rec) => Some(*rec),
            None => None,
        }
    }

    pub(crate) fn insert_record(&mut self, id: u64, rec: OfferRecord)
        requires
            old(self).wf(),
            record_ok(id, rec),
        ensures
            final(self).wf(),
            final(self).program_id() == old(self).program_id(),
            final(self).offers() == old(self).offers().insert(id, rec),
            forall|o: Address, m: Address| #[trigger]
                final(self).balance(o, m) == old(self).balance(o, m),
    {
        self.offers.insert(id, rec);
        proof {
            let pre = *old(self);
            assert(self.accounts@ == pre.accounts@);
        }
    }

    pub(crate) fn remove_record(&mut self, id: u64)
        requires
            old(self).wf(),
        ensures
            final(self).wf(),
            final(self).program_id() == old(self).program_id(),
            final(self).offers() == old(self).offers().remove(id),
            forall|o: Address, m: Address| #[trigger]
                final(self).balance(o, m) == old(self).balance(o, m),
    {
        self.offers.remove(&id);
        proof {
            let pre = *old(self);
            assert(self.accounts@ == pre.accounts@);
        }
    }
}

spec fn slot_in(s: Seq<TokenAccount>, i: int, owner: Address, mint: Address) -> bool {
    &&& 0 <= i < s.len()
    &&& s[i].owner == owner
    &&& s[i].mint == mint
}

spec fn balance_in(s: Seq<TokenAccount>, owner: Address, mint: Address) -> nat {
    if exists|i: int| slot_in(s, i, owner, mint) {
        s[choose|i: int| slot_in(s, i, owner, mint)].amount as nat
    } else {
        0
    }
}

/// A record fit to stand under `id`: it is that offer's record, it trades two
/// distinct mints, and both amounts are positive.
pub open spec fn record_ok(id: u64, rec: OfferRecord) -> bool {
    &&& rec.offer.id == id
    &&& rec.offer.token_mint_a != rec.offer.token_mint_b
    &&& rec.held > 0
    &&& rec.offer.token_b_wanted_amount > 0
}

} // verus!
