//! This module implements services related to accounts.

use std::collections::HashMap;

use vstd::prelude::*;

use super::model::account_init;
use super::model::apply_model;
use super::model::Account;
use super::model::ClientId;
use super::model::Error;
use super::model::Transaction;

verus! {

broadcast use vstd::std_specs::hash::group_hash_axioms;

/// Storage service for client accounts.
pub struct AccountStorage {
    /// The store uses a hash map for fast access to accounts.
    accounts: HashMap<u16, Account>,

    /// The owners of the stored accounts, each exactly once, kept
    /// beside the map so that iteration can be reasoned about.
    owners: Vec<u16>,
}

impl View for AccountStorage {
    type V = Map<u16, Account>;

    closed spec fn view(&self) -> Map<u16, Account> {
        self.accounts@
    }
}

impl AccountStorage {
    /// The owner list mirrors the map's domain, each owner once.
    pub closed spec fn wf(&self) -> bool {
        &&& self.owners@.no_duplicates()
        &&& forall|k: u16| self.accounts@.dom().contains(k) <==> self.owners@.contains(k)
    }

    /// Creates an empty account storage.
    pub fn new() -> (r: Self)
        ensures
            r@ == Map::<u16, Account>::empty(),
            r.wf(),
    {
        AccountStorage { accounts: HashMap::new(), owners: Vec::new() }
    }

    /// Gets a client's account, creating one if it doesn't exist yet.
    /// The account is handed out by value; the caller stores it back.
    fn get_client_account(&mut self, client_id: &ClientId) -> (acc: Account)
        requires
            old(self).wf(),
        ensures
            final(self)@ == old(self)@.remove(client_id@),
            acc@ == (if old(self)@.contains_key(client_id@) {
                old(self)@[client_id@]@
            } else {
                account_init(client_id@)
            }),
            final(self).owners_spec().no_duplicates(),
            forall|k: u16|
                final(self).owners_spec().contains(k) <==> old(self)@.dom().contains(k) || k
                    == client_id@,
    {
        let key = client_id.as_u16();
        match self.accounts.remove(&key) {
            Some(acc) => {
                proof {
                    assert(old(self)@.dom().contains(client_id@));
                }
                acc
            },
            None => {
                proof {
                    assert(!old(self).owners_spec().contains(key));
                }
                self.owners.push(key);
                proof {
                    assert(old(self)@.remove(client_id@) =~= old(self)@);
                    assert forall|k: u16| self.owners@.contains(k) implies old(
                        self,
                    )@.dom().contains(k) || k == client_id@ by {
                        let idx = choose|idx: int|
                            0 <= idx < self.owners@.len() && self.owners@[idx] == k;
                        if idx < old(self).owners@.len() {
                            assert(old(self).owners@[idx] == k);
                            assert(old(self).owners@.contains(k));
                        }
                    }
                    assert forall|k: u16| old(self)@.dom().contains(k) || k == client_id@
                        implies self.owners@.contains(k) by {
                        if old(self)@.dom().contains(k) {
                            assert(old(self).owners@.contains(k));
                            let idx = choose|idx: int|
                                0 <= idx < old(self).owners@.len() && old(self).owners@[idx] == k;
                            assert(self.owners@[idx] == k);
                        } else {
                            assert(self.owners@[old(self).owners@.len() as int] == k);
                        }
                    }
                }
                Account::new(*client_id)
            },
        }
    }

    /// The owners of the stored accounts, in insertion order.
    pub closed spec fn owners_spec(&self) -> Seq<u16> {
        self.owners@
    }

    /// Apply a single transaction to the correct client account,
    /// creating the account on first reference. The step and its
    /// result are the ones `apply_model` describes; a failed step
    /// still leaves the (possibly fresh) account stored.
    pub fn apply_transaction(&mut self, client_id: &ClientId, tx: Transaction) -> (r: Result<
        (),
        Error,
    >)
        requires
            old(self).wf(),
        ensures
            final(self).wf(),
            final(self)@.dom() == old(self)@.dom().insert(client_id@),
            ({
                let prev = if old(self)@.contains_key(client_id@) {
                    old(self)@[client_id@]@
                } else {
                    account_init(client_id@)
                };
                &&& final(self)@[client_id@]@ == apply_model(prev, tx).0
                &&& r == apply_model(prev, tx).1
            }),
            forall|k: u16|
                #[trigger] old(self)@.contains_key(k) && k != client_id@
                    ==> final(self)@.contains_key(k) && final(self)@[k] == old(self)@[k],
    {
        let mut acc = self.get_client_account(client_id);
        let r = acc.apply(tx);
        self.accounts.insert(client_id.as_u16(), acc);
        proof {
            assert(self@.dom() =~= old(self)@.dom().insert(client_id@));
            assert forall|k: u16| self@.dom().contains(k) <==> self.owners@.contains(k) by {
                assert(self.owners@.contains(k) <==> old(self)@.dom().contains(k) || k
                    == client_id@);
            }
        }
        r
    }

    /// Return an iterator over a snapshot of all user accounts: each
    /// stored account exactly once, in unspecified order.
    pub fn iter(&self) -> (it: AccountStorageIter)
        requires
            self.wf(),
        ensures
            it.pos_spec() == 0,
            it.pairs_spec().len() == self@.dom().len(),
            forall|i: int|
                #![trigger it.pairs_spec()[i]]
                0 <= i < it.pairs_spec().len() ==> self@.contains_key(it.pairs_spec()[i].0@)
                    && it.pairs_spec()[i].1@ == self@[it.pairs_spec()[i].0@]@,
            forall|i: int, j: int|
                #![trigger it.pairs_spec()[i], it.pairs_spec()[j]]
                0 <= i < j < it.pairs_spec().len()
                    ==> it.pairs_spec()[i].0@ != it.pairs_spec()[j].0@,
            forall|k: u16|
                #[trigger] self@.contains_key(k) ==> exists|i: int|
                    0 <= i < it.pairs_spec().len() && #[trigger] it.pairs_spec()[i].0@ == k,
    {
        let mut pairs: Vec<(ClientId, Account)> = Vec::new();
        let mut i: usize = 0;
        while i < self.owners.len()
            invariant
                self.wf(),
                i <= self.owners@.len(),
                pairs@.len() == i,
                forall|j: int|
                    #![trigger pairs@[j]]
                    0 <= j < i ==> pairs@[j].0@ == self.owners@[j] && self@.contains_key(
                        self.owners@[j],
                    ) && pairs@[j].1@ == self@[self.owners@[j]]@,
            decreases self.owners@.len() - i,
        {
            let key = self.owners[i];
            proof {
                assert(self.owners@.contains(key));
            }
            let acc = self.accounts.get(&key).unwrap();
            pairs.push((ClientId::from(key), acc.clone()));
            i += 1;
        }
        proof {
            self.owners@.unique_seq_to_set();
            assert(self.owners@.to_set() =~= self@.dom());
            assert forall|k: u16| self@.contains_key(k) implies exists|i: int|
                0 <= i < pairs@.len() && #[trigger] pairs@[i].0@ == k by {
                assert(self.owners@.contains(k));
                let idx = choose|idx: int|
                    0 <= idx < self.owners@.len() && self.owners@[idx] == k;
                assert(pairs@[idx].0@ == k);
            }
        }
        AccountStorageIter { pairs, pos: 0 }
    }
}

/// A one-pass snapshot iterator over all user accounts.
pub struct AccountStorageIter {
    /// The snapshot pairs, in the order they will be handed out.
    pairs: Vec<(ClientId, Account)>,

    /// How many pairs were handed out already.
    pos: usize,
}

impl AccountStorageIter {
    /// The snapshot pairs this iterator walks.
    pub closed spec fn pairs_spec(&self) -> Seq<(ClientId, Account)> {
        self.pairs@
    }

    /// How many pairs were handed out already.
    pub closed spec fn pos_spec(&self) -> int {
        self.pos as int
    }

    /// Hands out the next client/account pair, if one is left.
    pub fn next(&mut self) -> (r: Option<(ClientId, Account)>)
        ensures
            final(self).pairs_spec() == old(self).pairs_spec(),
            old(self).pos_spec() < old(self).pairs_spec().len() ==> ({
                &&& final(self).pos_spec() == old(self).pos_spec() + 1
                &&& r matches Some(p) && p.0 == old(self).pairs_spec()[old(self).pos_spec()].0
                    && p.1@ == old(self).pairs_spec()[old(self).pos_spec()].1@
            }),
            old(self).pos_spec() >= old(self).pairs_spec().len()
                ==> r is None && final(self).pos_spec() == old(self).pos_spec(),
    {
        if self.pos < self.pairs.len() {
            let idx = self.pos;
            let client = self.pairs[idx].0;
            let account = self.pairs[idx].1.clone();
            self.pos = idx + 1;
            Some((client, account))
        } else {
            None
        }
    }
}

} // verus!
