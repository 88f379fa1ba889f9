//! The per-client account registry, and the routing rule of the sharded
//! processor.
//!
//! [`AccountManager::process`] looks the event's account up — creating
//! it on the first *successful* event for that client, so a refused
//! first event leaves no trace — and delegates to
//! [`Account::process`].  Its whole effect is the pure function
//! [`registry_step`]; folding that function over an event sequence
//! ([`registry_run`]) is the sequential semantics that the sharded,
//! concurrent deployment is proved equivalent to, client by client.

use vstd::prelude::*;

use vstd::std_specs::cmp::OrdSpec;
use vstd::std_specs::iter::IteratorSpec;

use std::collections::BTreeMap;

use crate::account::{account_step, step_in_range, Account, AccountView};
use crate::error::ProcessorError;
use crate::tx_amount::TxAmount;
use crate::{ClientID, LedgerItem};

verus! {

broadcast use
    {vstd::std_specs::btree::group_btree_axioms, vstd::laws_cmp::group_laws_cmp};

/// The account an event for client `c` is applied to: the registered one,
/// or a fresh account if the client is unknown.
pub open spec fn registry_pre(m: Map<ClientID, AccountView>, c: ClientID) -> AccountView {
    if m.contains_key(c) {
        m[c]
    } else {
        AccountView::initial()
    }
}

/// The complete effect of one ledger event on the registry: the registry
/// afterwards, and the event's outcome.  An account is recorded only
/// when its event succeeds, so a refused first event creates nothing.
pub open spec fn registry_step(m: Map<ClientID, AccountView>, item: LedgerItem) -> (Map<
    ClientID,
    AccountView,
>, Result<(), ProcessorError>) {
    match account_step(registry_pre(m, item.client_id), item) {
        Ok(post) => (m.insert(item.client_id, post), Ok(())),
        Err(e) => (m, Err(e)),
    }
}

/// Every registered account is well formed.
pub open spec fn registry_wf(m: Map<ClientID, AccountView>) -> bool {
    forall|c: ClientID| #[trigger] m.contains_key(c) ==> m[c].inv()
}

/// Whether applying `item` keeps the addressed account's balances
/// representable.
pub open spec fn registry_step_in_range(m: Map<ClientID, AccountView>, item: LedgerItem) -> bool {
    step_in_range(registry_pre(m, item.client_id), item)
}

/// The registry after a whole event sequence, applied in order; refused
/// events change nothing.
pub open spec fn registry_run(m: Map<ClientID, AccountView>, items: Seq<LedgerItem>) -> Map<
    ClientID,
    AccountView,
>
    decreases items.len(),
{
    if items.len() == 0 {
        m
    } else {
        registry_step(registry_run(m, items.drop_last()), items.last()).0
    }
}

/// The directory of every client's account, keyed and enumerated by
/// client id.
pub struct AccountManager {
    accounts: BTreeMap<ClientID, Account>,
}

impl View for AccountManager {
    type V = Map<ClientID, AccountView>;

    closed spec fn view(&self) -> Map<ClientID, AccountView> {
        self.accounts@.map_values(|a: Account| a@)
    }
}

proof fn lemma_map_values_dom(m: Map<ClientID, Account>)
    ensures
        m.map_values(|a: Account| a@).dom() == m.dom(),
{
    assert(m.map_values(|a: Account| a@).dom() =~= m.dom());
}

proof fn lemma_map_values_contains(m: Map<ClientID, Account>, c: ClientID)
    ensures
        m.map_values(|a: Account| a@).contains_key(c) == m.contains_key(c),
        m.contains_key(c) ==> m.map_values(|a: Account| a@)[c] == m[c]@,
{
}

proof fn lemma_map_values_insert(m: Map<ClientID, Account>, k: ClientID, v: Account)
    ensures
        m.insert(k, v).map_values(|a: Account| a@) == m.map_values(|a: Account| a@).insert(k, v@),
{
    assert(m.insert(k, v).map_values(|a: Account| a@) =~= m.map_values(|a: Account| a@).insert(
        k,
        v@,
    ));
}

proof fn lemma_map_values_remove(m: Map<ClientID, Account>, k: ClientID)
    ensures
        m.remove(k).map_values(|a: Account| a@) == m.map_values(|a: Account| a@).remove(k),
{
    assert(m.remove(k).map_values(|a: Account| a@) =~= m.map_values(|a: Account| a@).remove(k));
}

impl AccountManager {
    /// Creates an empty registry.
    pub fn new() -> (r: AccountManager)
        ensures
            r@ == Map::<ClientID, AccountView>::empty(),
    {
        let r = AccountManager { accounts: BTreeMap::new() };
        proof {
            assert(r@ =~= Map::<ClientID, AccountView>::empty());
        }
        r
    }

    /// Applies one ledger event to its client's account.  The whole
    /// effect, success or error, is exactly [`registry_step`].
    pub fn process(&mut self, item: LedgerItem) -> (r: Result<(), ProcessorError>)
        requires
            registry_wf(old(self)@),
            registry_step_in_range(old(self)@, item),
        ensures
            registry_wf(final(self)@),
            final(self)@ == registry_step(old(self)@, item).0,
            r == registry_step(old(self)@, item).1,
    {
        let removed = self.accounts.remove(&item.client_id);
        if let Some(mut account) = removed {
            proof {
                lemma_map_values_remove(old(self).accounts@, item.client_id);
                lemma_map_values_contains(old(self).accounts@, item.client_id);
                assert(old(self)@[item.client_id] == account@);
            }
            let r = account.process(item);
            self.accounts.insert(item.client_id, account);
            proof {
                lemma_map_values_insert(
                    old(self).accounts@.remove(item.client_id),
                    item.client_id,
                    account,
                );
                assert(final(self)@ =~= old(self)@.insert(item.client_id, account@));
                if r is Err {
                    assert(final(self)@ =~= old(self)@);
                }
                if let Ok(u) = r {
                    assert(u == ());
                }
            }
            r
        } else {
            let mut account = Account::new();
            proof {
                lemma_map_values_contains(old(self).accounts@, item.client_id);
                assert(!old(self)@.contains_key(item.client_id));
            }
            match account.process(item) {
                Err(e) => {
                    proof {
                        lemma_map_values_remove(old(self).accounts@, item.client_id);
                        assert(final(self)@ =~= old(self)@);
                    }
                    Err(e)
                },
                Ok(()) => {
                    self.accounts.insert(item.client_id, account);
                    proof {
                        lemma_map_values_remove(old(self).accounts@, item.client_id);
                        lemma_map_values_insert(
                            old(self).accounts@.remove(item.client_id),
                            item.client_id,
                            account,
                        );
                        assert(final(self)@ =~= old(self)@.insert(item.client_id, account@));
                    }
                    Ok(())
                },
            }
        }
    }

    /// One summary row per account, in ascending client-id order:
    /// client id, available, held, total and lock status, with the
    /// total always the sum of the other two balances.
    pub fn dump_records(&self) -> (out: Vec<(ClientID, TxAmount, TxAmount, TxAmount, bool)>)
        requires
            registry_wf(self@),
        ensures
            out@.len() == self@.dom().len(),
            forall|i: int| 0 <= i < out@.len() ==> #[trigger] record_matches(self@, out@[i]),
            forall|i: int, j: int| 0 <= i < j < out@.len() ==> out@[i].0 < out@[j].0,
            forall|c: ClientID| #[trigger]
                self@.contains_key(c) ==> exists|i: int|
                    0 <= i < out@.len() && (#[trigger] out@[i]).0 == c,
    {
        let mut out: Vec<(ClientID, TxAmount, TxAmount, TxAmount, bool)> = Vec::new();
        proof {
            lemma_map_values_dom(self.accounts@);
        }
        for kv in it: self.accounts.iter()
            invariant
                registry_wf(self@),
                self@ == self.accounts@.map_values(|a: Account| a@),
                out@.len() == it.index(),
                it.seq() == self.accounts.iter().remaining(),
                forall|i: int|
                    0 <= i < out@.len() ==> {
                        &&& (#[trigger] out@[i]).0 == *it.seq()[i].0
                        &&& out@[i].1@ == (*it.seq()[i].1)@.available
                        &&& out@[i].2@ == (*it.seq()[i].1)@.held
                        &&& out@[i].3@ == (*it.seq()[i].1)@.available + (*it.seq()[i].1)@.held
                        &&& out@[i].4 == (*it.seq()[i].1)@.locked
                    },
        {
            let (c, a) = kv;
            proof {
                lemma_map_values_contains(self.accounts@, *c);
            }
            let available = a.available();
            let held = a.held();
            let total = a.total();
            let locked = a.is_locked();
            out.push((*c, available, held, total, locked));
        }
        proof {
            let v = self.accounts.iter().remaining();
            assert(out@.len() == v.len());
            assert forall|i: int| 0 <= i < out@.len() implies #[trigger] record_matches(
                self@,
                out@[i],
            ) by {
                assert(self.accounts@.contains_key(*v[i].0) && self.accounts@[*v[i].0]
                    == *v[i].1);
                lemma_map_values_contains(self.accounts@, *v[i].0);
            }
            assert forall|i: int, j: int| 0 <= i < j < out@.len() implies out@[i].0 < out@[j].0 by {
                let keys = v.map_values(|kv: (&ClientID, &Account)| *kv.0);
                assert(keys[i] == *v[i].0 && keys[j] == *v[j].0);
                assert(keys[i].cmp_spec(&keys[j]) is Less);
            }
            assert forall|c: ClientID| #[trigger] self@.contains_key(c) implies exists|i: int|
                0 <= i < out@.len() && (#[trigger] out@[i]).0 == c by {
                lemma_map_values_contains(self.accounts@, c);
                assert(v.contains((&c, &self.accounts@[c])));
                let i = choose|i: int| 0 <= i < v.len() && v[i] == (&c, &self.accounts@[c]);
                assert(out@[i].0 == c);
            }
        }
        out
    }

    /// An iterator over the registered accounts in ascending client-id
    /// order, yielding each client id with its account.
    pub fn iter(&self) -> (r: std::collections::btree_map::Iter<'_, ClientID, Account>)
        ensures
            r.remaining().len() == self@.dom().len(),
            forall|i: int|
                0 <= i < r.remaining().len() ==> {
                    &&& #[trigger] self@.contains_key(*r.remaining()[i].0)
                    &&& self@[*r.remaining()[i].0] == (*r.remaining()[i].1)@
                },
            forall|i: int, j: int|
                0 <= i < j < r.remaining().len() ==> *r.remaining()[i].0 < *r.remaining()[j].0,
            forall|c: ClientID| #[trigger]
                self@.contains_key(c) ==> exists|i: int|
                    0 <= i < r.remaining().len() && *(#[trigger] r.remaining()[i]).0 == c,
    {
        let r = self.accounts.iter();
        proof {
            lemma_map_values_dom(self.accounts@);
            let v = r.remaining();
            assert forall|i: int| 0 <= i < v.len() implies {
                &&& #[trigger] self@.contains_key(*v[i].0)
                &&& self@[*v[i].0] == (*v[i].1)@
            } by {
                assert(self.accounts@.contains_key(*v[i].0) && self.accounts@[*v[i].0]
                    == *v[i].1);
                lemma_map_values_contains(self.accounts@, *v[i].0);
            }
            assert forall|i: int, j: int| 0 <= i < j < v.len() implies *v[i].0 < *v[j].0 by {
                let keys = v.map_values(|kv: (&ClientID, &Account)| *kv.0);
                assert(keys[i] == *v[i].0 && keys[j] == *v[j].0);
                assert(keys[i].cmp_spec(&keys[j]) is Less);
            }
            assert forall|c: ClientID| #[trigger] self@.contains_key(c) implies exists|i: int|
                0 <= i < v.len() && *(#[trigger] v[i]).0 == c by {
                lemma_map_values_contains(self.accounts@, c);
                assert(v.contains((&c, &self.accounts@[c])));
                let i = choose|i: int| 0 <= i < v.len() && v[i] == (&c, &self.accounts@[c]);
                assert(*v[i].0 == c);
            }
        }
        r
    }

    /// Whether applying `item` would keep the addressed account's
    /// balances representable; decides [`registry_step_in_range`] at run
    /// time, so a caller can refuse an event instead of violating
    /// [`AccountManager::process`]'s precondition.
    pub fn fits(&self, item: &LedgerItem) -> (b: bool)
        requires
            registry_wf(self@),
        ensures
            b == registry_step_in_range(self@, *item),
    {
        if let Some(account) = self.accounts.get(&item.client_id) {
            proof {
                lemma_map_values_contains(self.accounts@, item.client_id);
                assert(self@[item.client_id] == account@);
            }
            account.fits(item)
        } else {
            proof {
                lemma_map_values_contains(self.accounts@, item.client_id);
            }
            let fresh = Account::new();
            fresh.fits(item)
        }
    }
}

/// The shard index of client `c`, for `mask` one less than the
/// power-of-two shard count: the low bits of the client id, which equal
/// the id modulo the shard count.
pub open spec fn route_spec(c: ClientID, mask: ClientID) -> int {
    c as int % (mask as int + 1)
}

/// Whether `mask` consists of a run of low one-bits, i.e. is one less
/// than a power of two.
pub open spec fn valid_mask(mask: ClientID) -> bool {
    (mask as u32) & ((mask as u32 + 1) as u32) == 0
}

/// Whether `count` is a usable shard count: a power of two no larger
/// than the number of distinct client ids.
pub open spec fn valid_shard_count(count: usize) -> bool {
    &&& 1 <= count <= 0x10000
    &&& (count as u32) & ((count as u32 - 1) as u32) == 0
}

/// Turns a shard count into the routing mask, rejecting anything that is
/// not a power of two (or that exceeds the client id space) with the
/// fatal `InvalidShardCount` configuration error.
pub fn shard_mask(count: usize) -> (r: Result<ClientID, ProcessorError>)
    ensures
        match r {
            Ok(mask) => {
                &&& valid_shard_count(count)
                &&& mask as int == count - 1
                &&& valid_mask(mask)
            },
            Err(e) => !valid_shard_count(count) && e == ProcessorError::InvalidShardCount,
        },
{
    if 1 <= count && count <= 0x10000 {
        let c32 = count as u32;
        if (c32 & (c32 - 1)) == 0 {
            let mask = (count - 1) as u16;
            proof {
                let m32 = mask as u32;
                assert(m32 & ((m32 + 1) as u32) == 0) by (bit_vector)
                    requires
                        c32 & ((c32 - 1) as u32) == 0,
                        1 <= c32 <= 0x10000,
                        m32 == (c32 - 1) as u32,
                ;
            }
            Ok(mask)
        } else {
            Err(ProcessorError::InvalidShardCount)
        }
    } else {
        Err(ProcessorError::InvalidShardCount)
    }
}

/// Routes a client id to its shard by masking the id's low bits; the
/// result is exactly the id modulo the shard count, so a client's shard
/// is the same on every call.
pub fn route(client_id: ClientID, mask: ClientID) -> (r: usize)
    requires
        valid_mask(mask),
    ensures
        r as int == route_spec(client_id, mask),
        r <= mask as usize,
{
    let r = client_id & mask;
    proof {
        let c32 = client_id as u32;
        let m32 = mask as u32;
        assert(c32 & m32 == c32 % ((m32 + 1) as u32)) by (bit_vector)
            requires
                m32 & ((m32 + 1) as u32) == 0,
                c32 < 0x10000,
                m32 < 0x10000,
        ;
        assert((client_id & mask) as u32 == c32 & m32) by (bit_vector)
            requires
                c32 == client_id as u32,
                m32 == mask as u32,
        ;
    }
    r as usize
}

/// Events of `items` that belong to client `c`, in their original order.
pub open spec fn client_events(items: Seq<LedgerItem>, c: ClientID) -> Seq<LedgerItem> {
    items.filter(|i: LedgerItem| i.client_id == c)
}

/// Events of `items` that are routed to the shard of client `c`.
pub open spec fn shard_events(items: Seq<LedgerItem>, mask: ClientID, c: ClientID) -> Seq<
    LedgerItem,
> {
    items.filter(|i: LedgerItem| route_spec(i.client_id, mask) == route_spec(c, mask))
}

/// Whether one dump row faithfully reports one account of `m`: the row
/// names a registered client and carries its balances, their sum as the
/// total, and its lock status.
pub open spec fn record_matches(
    m: Map<ClientID, AccountView>,
    rec: (ClientID, TxAmount, TxAmount, TxAmount, bool),
) -> bool {
    &&& m.contains_key(rec.0)
    &&& rec.1@ == m[rec.0].available
    &&& rec.2@ == m[rec.0].held
    &&& rec.3@ == m[rec.0].available + m[rec.0].held
    &&& rec.4 == m[rec.0].locked
}

/// The account registered for `c`, if any.
pub open spec fn registry_get(m: Map<ClientID, AccountView>, c: ClientID) -> Option<AccountView> {
    if m.contains_key(c) {
        Some(m[c])
    } else {
        None
    }
}

/// Law (projection): what the registry ends up holding for client `c`
/// depends only on `c`'s own events, in their original order; events of
/// every other client, wherever they are interleaved, change nothing
/// for `c`.
pub proof fn lemma_registry_run_projection(
    m: Map<ClientID, AccountView>,
    items: Seq<LedgerItem>,
    c: ClientID,
)
    ensures
        registry_get(registry_run(m, items), c) == registry_get(
            registry_run(m, client_events(items, c)),
            c,
        ),
    decreases items.len(),
{
    reveal(Seq::filter);
    if items.len() != 0 {
        let prefix = items.drop_last();
        let x = items.last();
        lemma_registry_run_projection(m, prefix, c);
        if x.client_id == c {
            let own = client_events(prefix, c);
            assert(client_events(items, c) == own.push(x));
            assert(own.push(x).drop_last() =~= own);
            let a = registry_run(m, prefix);
            let b = registry_run(m, own);
            assert(registry_pre(a, c) == registry_pre(b, c));
            assert(registry_run(m, own.push(x)) == registry_step(b, x).0);
        } else {
            assert(client_events(items, c) == client_events(prefix, c));
        }
    }
}

/// Law (sharding): feeding a shard only the events routed to it gives
/// that shard exactly the account that a single sequential registry,
/// fed the full event stream, gives for the same client.  Together with
/// [`lemma_registry_run_projection`], this is why the sharded deployment
/// and the sequential one report the same balances.
pub proof fn lemma_shard_equals_sequential(items: Seq<LedgerItem>, mask: ClientID, c: ClientID)
    ensures
        registry_get(registry_run(Map::empty(), shard_events(items, mask, c)), c) == registry_get(
            registry_run(Map::empty(), items),
            c,
        ),
    decreases items.len(),
{
    lemma_client_events_of_shard(items, mask, c);
    lemma_registry_run_projection(Map::empty(), items, c);
    lemma_registry_run_projection(Map::empty(), shard_events(items, mask, c), c);
}

/// Restricting the stream to one shard keeps exactly the events of each
/// client routed there.
proof fn lemma_client_events_of_shard(items: Seq<LedgerItem>, mask: ClientID, c: ClientID)
    ensures
        client_events(shard_events(items, mask, c), c) == client_events(items, c),
    decreases items.len(),
{
    reveal(Seq::filter);
    if items.len() != 0 {
        let prefix = items.drop_last();
        let x = items.last();
        lemma_client_events_of_shard(prefix, mask, c);
        if route_spec(x.client_id, mask) == route_spec(c, mask) {
            assert(shard_events(items, mask, c) == shard_events(prefix, mask, c).push(x));
            assert(shard_events(prefix, mask, c).push(x).drop_last() =~= shard_events(
                prefix,
                mask,
                c,
            ));
        } else {
            assert(shard_events(items, mask, c) == shard_events(prefix, mask, c));
            assert(x.client_id != c);
        }
    }
}

} // verus!
