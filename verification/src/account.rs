use vstd::prelude::*;

verus! {

/// A transferable parcel of one fungible resource: the unit in which value
/// moves between the vesting engine, the pool and accounts.  A resource is
/// named by an opaque numeric address.
#[derive(Clone, Copy, PartialEq, Eq, Structural, Debug)]
pub struct Bucket {
    pub resource: u64,
    pub amount: u64,
}

/// First-match balance of `resource` in an association list of
/// `(resource, amount)` entries; zero when the resource is absent.
pub open spec fn balance_in(entries: Seq<(u64, u64)>, resource: u64) -> int
    decreases entries.len(),
{
    if entries.len() == 0 {
        0
    } else if entries[0].0 == resource {
        entries[0].1 as int
    } else {
        balance_in(entries.drop_first(), resource)
    }
}

/// An account identified by an opaque address, holding a balance per
/// resource.  It stands in for an external ledger account: deliveries land
/// here and redemptions draw from here.
pub struct DummyAccount {
    pub address: u64,
    pub balances: Vec<(u64, u64)>,
}

/// Skipping entries that do not mention `resource` leaves its balance
/// unchanged.
proof fn lemma_balance_skip(entries: Seq<(u64, u64)>, resource: u64, i: int)
    requires
        0 <= i <= entries.len(),
        forall|k: int| 0 <= k < i ==> (#[trigger] entries[k]).0 != resource,
    ensures
        balance_in(entries.skip(i), resource) == balance_in(entries, resource),
    decreases i,
{
    if i > 0 {
        let tail = entries.drop_first();
        assert(entries[0].0 != resource);
        assert forall|k: int| 0 <= k < i - 1 implies (#[trigger] tail[k]).0 != resource by {
            assert(entries[k + 1].0 != resource);
        }
        lemma_balance_skip(tail, resource, i - 1);
        assert(tail.skip(i - 1) =~= entries.skip(i));
    } else {
        assert(entries.skip(0) =~= entries);
    }
}

/// The balance of a resource is the amount in its first entry.
proof fn lemma_balance_found(entries: Seq<(u64, u64)>, resource: u64, i: int)
    requires
        0 <= i < entries.len(),
        forall|k: int| 0 <= k < i ==> (#[trigger] entries[k]).0 != resource,
        entries[i].0 == resource,
    ensures
        balance_in(entries, resource) == entries[i].1,
{
    lemma_balance_skip(entries, resource, i);
    let rest = entries.skip(i);
    assert(rest.len() > 0);
    assert(rest[0] == entries[i]);
    assert(balance_in(rest, resource) == entries[i].1);
}

/// The balance of a resource that appears in no entry is zero.
proof fn lemma_balance_absent(entries: Seq<(u64, u64)>, resource: u64)
    requires
        forall|k: int| 0 <= k < entries.len() ==> (#[trigger] entries[k]).0 != resource,
    ensures
        balance_in(entries, resource) == 0,
{
    lemma_balance_skip(entries, resource, entries.len() as int);
    assert(entries.skip(entries.len() as int) =~= Seq::<(u64, u64)>::empty());
    assert(balance_in(Seq::<(u64, u64)>::empty(), resource) == 0);
}

/// Appending an entry for a different resource leaves a balance unchanged.
proof fn lemma_balance_push_other(entries: Seq<(u64, u64)>, entry: (u64, u64), resource: u64)
    requires
        resource != entry.0,
    ensures
        balance_in(entries.push(entry), resource) == balance_in(entries, resource),
    decreases entries.len(),
{
    let pushed = entries.push(entry);
    if entries.len() == 0 {
        assert(pushed[0] == entry);
        assert(pushed.drop_first() =~= Seq::<(u64, u64)>::empty());
        assert(balance_in(pushed.drop_first(), resource) == 0);
        assert(balance_in(pushed, resource) == 0);
    } else {
        assert(pushed[0] == entries[0]);
        assert(pushed.drop_first() =~= entries.drop_first().push(entry));
        lemma_balance_push_other(entries.drop_first(), entry, resource);
    }
}

/// Appending an entry for a resource that is absent makes that entry its
/// balance.
proof fn lemma_balance_push_new(entries: Seq<(u64, u64)>, entry: (u64, u64))
    requires
        forall|k: int| 0 <= k < entries.len() ==> (#[trigger] entries[k]).0 != entry.0,
    ensures
        balance_in(entries.push(entry), entry.0) == entry.1,
    decreases entries.len(),
{
    let pushed = entries.push(entry);
    if entries.len() == 0 {
        assert(pushed[0] == entry);
        assert(balance_in(pushed, entry.0) == entry.1);
    } else {
        let tail = entries.drop_first();
        assert(pushed[0] == entries[0]);
        assert(entries[0].0 != entry.0);
        assert(pushed.drop_first() =~= tail.push(entry));
        assert forall|k: int| 0 <= k < tail.len() implies (#[trigger] tail[k]).0 != entry.0 by {
            assert(entries[k + 1].0 != entry.0);
        }
        lemma_balance_push_new(tail, entry);
    }
}

/// Overwriting the amount of the first entry for a resource sets that
/// resource's balance and leaves every other balance unchanged.
proof fn lemma_balance_update_one(entries: Seq<(u64, u64)>, i: int, value: u64, resource: u64)
    requires
        0 <= i < entries.len(),
        forall|k: int| 0 <= k < i ==> (#[trigger] entries[k]).0 != entries[i].0,
    ensures
        balance_in(entries.update(i, (entries[i].0, value)), resource) == if resource
            == entries[i].0 {
            value as int
        } else {
            balance_in(entries, resource)
        },
    decreases i,
{
    let updated = entries.update(i, (entries[i].0, value));
    if i == 0 {
        assert(updated[0] == (entries[0].0, value));
        if resource != entries[0].0 {
            assert(updated.drop_first() =~= entries.drop_first());
        }
    } else {
        assert(updated[0] == entries[0]);
        assert(entries[0].0 != entries[i].0);
        if entries[0].0 != resource {
            let tail = entries.drop_first();
            assert(updated.drop_first() =~= tail.update(i - 1, (tail[i - 1].0, value)));
            assert forall|k: int| 0 <= k < i - 1 implies (#[trigger] tail[k]).0 != tail[i - 1].0 by {
                assert(entries[k + 1].0 != entries[i].0);
            }
            lemma_balance_update_one(tail, i - 1, value, resource);
        }
    }
}

impl DummyAccount {
    /// Each resource appears in at most one entry.
    pub open spec fn wf(self) -> bool {
        forall|i: int, j: int|
            0 <= i < j < self.balances@.len() ==> (#[trigger] self.balances@[i]).0 != (
            #[trigger] self.balances@[j]).0
    }

    /// The balance this account holds in `resource`.
    pub open spec fn balance_of(self, resource: u64) -> int {
        balance_in(self.balances@, resource)
    }

    /// A fresh account with the given address, holding nothing.
    pub fn instantiate_account(address: u64) -> (account: DummyAccount)
        ensures
            account.wf(),
            account.address == address,
            forall|r: u64| account.balance_of(r) == 0,
    {
        let account = DummyAccount { address, balances: Vec::new() };
        proof {
            assert forall|r: u64| account.balance_of(r) == 0 by {
                assert(account.balances@.len() == 0);
            }
        }
        account
    }

    /// The balance held in `resource`.
    #[verifier::loop_isolation(false)]
    pub fn balance(&self, resource: u64) -> (amount: u64)
        ensures
            amount == self.balance_of(resource),
    {
        let n: usize = self.balances.len();
        let mut i: usize = 0;
        while i < n
            invariant
                i <= n,
                forall|k: int| 0 <= k < i ==> (#[trigger] self.balances@[k]).0 != resource,
            decreases n - i,
        {
            let entry: (u64, u64) = self.balances[i];
            if entry.0 == resource {
                proof {
                    lemma_balance_found(self.balances@, resource, i as int);
                }
                return entry.1;
            }
            i = i + 1;
        }
        proof {
            lemma_balance_absent(self.balances@, resource);
        }
        0
    }

    /// Accepts a delivered bucket, crediting its amount to its resource.
    #[verifier::loop_isolation(false)]
    pub fn deposit(&mut self, tokens: Bucket)
        requires
            old(self).wf(),
            old(self).balance_of(tokens.resource) + tokens.amount <= u64::MAX,
        ensures
            final(self).wf(),
            final(self).address == old(self).address,
            final(self).balance_of(tokens.resource) == old(self).balance_of(tokens.resource)
                + tokens.amount,
            forall|r: u64|
                r != tokens.resource ==> final(self).balance_of(r) == old(self).balance_of(r),
    {
        let ghost entries0 = self.balances@;
        let n: usize = self.balances.len();
        let mut i: usize = 0;
        while i < n
            invariant
                i <= n,
                self.address == old(self).address,
                self.balances@ == entries0,
                forall|k: int| 0 <= k < i ==> (#[trigger] entries0[k]).0 != tokens.resource,
            decreases n - i,
        {
            let entry: (u64, u64) = self.balances[i];
            if entry.0 == tokens.resource {
                proof {
                    lemma_balance_found(entries0, tokens.resource, i as int);
                }
                let updated: u64 = entry.1 + tokens.amount;
                let slot = &mut self.balances[i];
                *slot = (entry.0, updated);
                proof {
                    assert(self.balances@ =~= entries0.update(
                        i as int,
                        (entries0[i as int].0, updated),
                    ));
                    assert forall|r: u64|
                        balance_in(self.balances@, r) == if r == tokens.resource {
                            updated as int
                        } else {
                            balance_in(entries0, r)
                        } by {
                        lemma_balance_update_one(entries0, i as int, updated, r);
                    }
                    assert forall|a: int, b: int|
                        0 <= a < b < self.balances@.len() implies (#[trigger] self.balances@[a]).0
                        != (#[trigger] self.balances@[b]).0 by {
                        assert(entries0[a].0 != entries0[b].0);
                    }
                }
                return ;
            }
            i = i + 1;
        }
        proof {
            lemma_balance_absent(entries0, tokens.resource);
        }
        self.balances.push((tokens.resource, tokens.amount));
        proof {
            lemma_balance_push_new(entries0, (tokens.resource, tokens.amount));
            assert forall|r: u64| r != tokens.resource implies balance_in(self.balances@, r)
                == balance_in(entries0, r) by {
                lemma_balance_push_other(entries0, (tokens.resource, tokens.amount), r);
            }
            assert forall|a: int, b: int|
                0 <= a < b < self.balances@.len() implies (#[trigger] self.balances@[a]).0 != (
            #[trigger] self.balances@[b]).0 by {
                if b < entries0.len() {
                    assert(entries0[a].0 != entries0[b].0);
                } else {
                    assert(entries0[a].0 != tokens.resource);
                }
            }
        }
    }

    /// Withdraws `amount` of `resource` into a bucket.
    #[verifier::loop_isolation(false)]
    pub fn withdraw(&mut self, resource: u64, amount: u64) -> (tokens: Bucket)
        requires
            old(self).wf(),
            amount <= old(self).balance_of(resource),
        ensures
            final(self).wf(),
            final(self).address == old(self).address,
            tokens == (Bucket { resource, amount }),
            final(self).balance_of(resource) == old(self).balance_of(resource) - amount,
            forall|r: u64| r != resource ==> final(self).balance_of(r) == old(self).balance_of(r),
    {
        let ghost entries0 = self.balances@;
        let n: usize = self.balances.len();
        let mut i: usize = 0;
        while i < n
            invariant
                i <= n,
                self.address == old(self).address,
                self.balances@ == entries0,
                forall|k: int| 0 <= k < i ==> (#[trigger] entries0[k]).0 != resource,
            decreases n - i,
        {
            let entry: (u64, u64) = self.balances[i];
            if entry.0 == resource {
                proof {
                    lemma_balance_found(entries0, resource, i as int);
                }
                let updated: u64 = entry.1 - amount;
                let slot = &mut self.balances[i];
                *slot = (entry.0, updated);
                proof {
                    assert(self.balances@ =~= entries0.update(
                        i as int,
                        (entries0[i as int].0, updated),
                    ));
                    assert forall|r: u64|
                        balance_in(self.balances@, r) == if r == resource {
                            updated as int
                        } else {
                            balance_in(entries0, r)
                        } by {
                        lemma_balance_update_one(entries0, i as int, updated, r);
                    }
                    assert forall|a: int, b: int|
                        0 <= a < b < self.balances@.len() implies (#[trigger] self.balances@[a]).0
                        != (#[trigger] self.balances@[b]).0 by {
                        assert(entries0[a].0 != entries0[b].0);
                    }
                }
                return Bucket { resource, amount };
            }
            i = i + 1;
        }
        proof {
            lemma_balance_absent(entries0, resource);
        }
        Bucket { resource, amount }
    }
}

} // verus!
