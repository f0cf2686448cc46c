//! The adapters that are taken over, with the proofs and the native pools of
//! each.

use std::collections::HashMap;
use std::sync::Arc;

use vstd::prelude::*;
use vstd::string::StringExecFns;

use crate::adapter_state::{exact_dict, AdapterState};
use crate::adapter_state::{exact_dict_of, AdapterView};
use crate::heap::{Check, Failure, Heap, Pair};
use crate::heap::both;
use crate::managers::{
    canonical_http_proxy_manager_is_pristine, canonical_socks_proxy_manager_is_pristine,
    exact_dict_snapshot_is_current, is_socks_url, manager_configuration_is_pristine,
    manager_identity_is_pristine, manager_immutable_proof_is_pristine, manager_proof,
    manager_proof_is_pristine, stable_manager_pools_proof, ManagerAttempt, ManagerPools,
    ManagerRecord, ProofAttempts, ProxyManagerConfiguration, MANAGER_PROOF_ATTEMPTS,
};
use crate::managers::{
    adapter_configured, immutable_pristine, is_http_proxy_manager, is_socks_proxy_manager,
    length_is, manager_attempted, manager_identity, record_pristine, stable_pools, still_current,
    AttemptView, PoolsView, RecordView,
};
use crate::pools::PoolRealm;
use crate::pools::{admitted, is_well_formed, RealmView};
use crate::tables::{lemma_kept_pairs, lemma_value_has_place, lemma_without};
use crate::tables::{value_at, without};
use crate::text::same_text;
use crate::text::lowered;

verus! {

/// The manager of a proxy.
pub struct ProxyRecord {
    pub url: String,
    pub record: ManagerRecord,
}

/// What a list of proxies' managers says.
pub open spec fn proxy_views(records: Seq<ProxyRecord>) -> Seq<(Seq<char>, RecordView)> {
    records.map_values(|proxy: ProxyRecord| (proxy.url@, proxy.record@))
}

/// The record of a proxy's manager.
pub fn find_record<'a>(records: &'a Vec<ProxyRecord>, url: &str) -> (found: Option<&'a ManagerRecord>)
    ensures
        match found {
            Some(found) => value_at(proxy_views(records@), url@) == Some(found@),
            None => value_at(proxy_views(records@), url@) is None,
        },
{
    let mut index: usize = records.len();
    let ghost views = proxy_views(records@);
    assert(views.take(index as int) =~= views);
    while index > 0
        invariant
            index <= records.len(),
            views == proxy_views(records@),
            value_at(views, url@) == value_at(views.take(index as int), url@),
        decreases index,
    {
        index = index - 1;
        assert(views.take(index + 1).drop_last() =~= views.take(index as int));
        assert(views.take(index + 1).last() == (
            records@[index as int].url@,
            records@[index as int].record@,
        ));
        if same_text(records[index].url.as_str(), url) {
            return Some(&records[index].record);
        }
    }
    None
}

/// The proofs of an adapter.
pub struct EntryProofs {
    /// A weak reference to the adapter.
    pub weak_adapter: usize,
    /// The dict that holds the adapter's proxy managers.
    pub proxy_mapping: usize,
    pub manager: ManagerRecord,
    pub proxy_managers: Vec<ProxyRecord>,
}

/// What the proofs of an adapter say.
pub struct ProofsView {
    pub weak_adapter: usize,
    pub proxy_mapping: usize,
    pub manager: RecordView,
    pub proxy_managers: Seq<(Seq<char>, RecordView)>,
}

impl View for EntryProofs {
    type V = ProofsView;

    open spec fn view(&self) -> ProofsView {
        ProofsView {
            weak_adapter: self.weak_adapter,
            proxy_mapping: self.proxy_mapping,
            manager: self.manager@,
            proxy_managers: proxy_views(self.proxy_managers@),
        }
    }
}

impl EntryProofs {
    /// The same proofs once more.
    pub fn share(&self) -> (shared: EntryProofs)
        ensures
            shared@ == self@,
    {
        let mut proxy_managers: Vec<ProxyRecord> = Vec::new();
        let mut index: usize = 0;
        while index < self.proxy_managers.len()
            invariant
                index <= self.proxy_managers.len(),
                proxy_views(proxy_managers@) == proxy_views(self.proxy_managers@).take(
                    index as int,
                ),
            decreases self.proxy_managers.len() - index,
        {
            let ghost before = proxy_views(proxy_managers@);
            let ghost views = proxy_views(self.proxy_managers@);
            let proxy = &self.proxy_managers[index];
            let copy = ProxyRecord {
                url: String::from_str(proxy.url.as_str()),
                record: proxy.record.share(),
            };
            proxy_managers.push(copy);
            proof {
                assert(views[index as int] == (copy.url@, copy.record@));
                assert(proxy_views(proxy_managers@) =~= before.push((copy.url@, copy.record@)));
                assert(views.take(index + 1) =~= views.take(index as int).push(
                    views[index as int],
                ));
            }
            index = index + 1;
        }
        assert(proxy_views(self.proxy_managers@).take(index as int) =~= proxy_views(
            self.proxy_managers@,
        ));
        EntryProofs {
            weak_adapter: self.weak_adapter,
            proxy_mapping: self.proxy_mapping,
            manager: self.manager.share(),
            proxy_managers,
        }
    }
}

/// The native pools that connect through one proxy.
pub struct ProxyPools {
    pub proxy: String,
    pub realm: PoolRealm,
}

/// What a list of proxies' pools says.
pub open spec fn proxy_pool_views(pools: Seq<ProxyPools>) -> Seq<(Seq<char>, RealmView)> {
    pools.map_values(|pool: ProxyPools| (pool.proxy@, pool.realm@))
}

/// What is kept for one adapter.
pub struct SideEntry {
    /// Changes whenever the adapter is registered or closed.
    pub lifecycle_epoch: u64,
    /// Changes whenever a pool is asked for.
    pub admission_revision: u64,
    /// Changes whenever a proof is replaced.
    pub proof_revision: u64,
    pub proofs: EntryProofs,
    pub direct_pools: PoolRealm,
    pub proxy_pools: Vec<ProxyPools>,
}

/// What is known of one adapter.
pub struct EntryView {
    pub lifecycle_epoch: u64,
    pub admission_revision: u64,
    pub proof_revision: u64,
    pub proofs: ProofsView,
    pub direct_pools: RealmView,
    pub proxy_pools: Seq<(Seq<char>, RealmView)>,
}

impl View for SideEntry {
    type V = EntryView;

    open spec fn view(&self) -> EntryView {
        EntryView {
            lifecycle_epoch: self.lifecycle_epoch,
            admission_revision: self.admission_revision,
            proof_revision: self.proof_revision,
            proofs: self.proofs@,
            direct_pools: self.direct_pools@,
            proxy_pools: proxy_pool_views(self.proxy_pools@),
        }
    }
}

/// A realm without pools.
pub open spec fn empty_realm() -> RealmView {
    RealmView { slots: Seq::empty(), order: Seq::empty() }
}

/// How many pools a list of realms holds.
pub open spec fn pool_sum(pools: Seq<(Seq<char>, RealmView)>) -> nat
    decreases pools.len(),
{
    if pools.len() == 0 {
        0
    } else {
        pool_sum(pools.drop_last()) + pools.last().1.slots.len()
    }
}

/// How many pools an adapter has.
pub open spec fn pool_count(entry: EntryView) -> nat {
    entry.direct_pools.slots.len() + pool_sum(entry.proxy_pools)
}

/// The pools of a realm.
pub open spec fn realm_pools(realm: RealmView) -> Seq<usize> {
    realm.slots.map_values(|slot: (Seq<char>, usize)| slot.1)
}

/// The pools of a list of realms.
pub open spec fn listed_pools(pools: Seq<(Seq<char>, RealmView)>) -> Seq<usize>
    decreases pools.len(),
{
    if pools.len() == 0 {
        Seq::empty()
    } else {
        listed_pools(pools.drop_last()) + realm_pools(pools.last().1)
    }
}

/// The pools of an adapter.
pub open spec fn entry_pools(entry: EntryView) -> Seq<usize> {
    realm_pools(entry.direct_pools) + listed_pools(entry.proxy_pools)
}

/// An adapter has as many pools as there are.
pub proof fn law_pools_are_counted(entry: EntryView)
    ensures
        entry_pools(entry).len() == pool_count(entry),
{
    lemma_listed_pools_counted(entry.proxy_pools);
}

/// A list of realms has as many pools as there are.
proof fn lemma_listed_pools_counted(pools: Seq<(Seq<char>, RealmView)>)
    ensures
        listed_pools(pools).len() == pool_sum(pools),
    decreases pools.len(),
{
    if pools.len() > 0 {
        lemma_listed_pools_counted(pools.drop_last());
    }
}

impl SideEntry {
    /// The pools of this adapter.
    pub fn pools(&self) -> (pools: Vec<usize>)
        ensures
            pools@ == entry_pools(self@),
    {
        let mut pools = self.direct_pools.pools();
        let ghost direct = realm_pools(self.direct_pools@);
        let ghost views = proxy_pool_views(self.proxy_pools@);
        let mut index: usize = 0;
        assert(views.take(0) =~= Seq::<(Seq<char>, RealmView)>::empty());
        assert(pools@ =~= direct + listed_pools(views.take(0)));
        while index < self.proxy_pools.len()
            invariant
                index <= self.proxy_pools.len(),
                views == proxy_pool_views(self.proxy_pools@),
                pools@ == direct + listed_pools(views.take(index as int)),
            decreases self.proxy_pools.len() - index,
        {
            let ghost before = pools@;
            let mut more = self.proxy_pools[index].realm.pools();
            let ghost added = more@;
            pools.append(&mut more);
            proof {
                assert(views.take(index + 1).drop_last() =~= views.take(index as int));
                assert(views.take(index + 1).last() == views[index as int]);
                assert(added == realm_pools(views[index as int].1));
                assert(before + added =~= direct + listed_pools(views.take(index + 1)));
            }
            index = index + 1;
        }
        assert(views.take(index as int) =~= views);
        pools
    }
}

/// The number after another one; the largest is followed by zero.
pub open spec fn next_number(number: u64) -> u64 {
    if number == u64::MAX {
        0
    } else {
        (number + 1) as u64
    }
}

/// The number after another one.
fn number_after(number: u64) -> (next: u64)
    ensures
        next == next_number(number),
{
    if number == u64::MAX {
        0
    } else {
        number + 1
    }
}

/// The adapters that are taken over, under their identities.
pub struct Registry {
    pub slots: HashMap<usize, SideEntry>,
    pub next_epoch: u64,
    /// Whether no epoch was drawn twice so far.
    pub fresh: Ghost<bool>,
}

impl View for Registry {
    type V = Map<usize, EntryView>;

    open spec fn view(&self) -> Map<usize, EntryView> {
        self.slots@.map_values(|entry: SideEntry| entry@)
    }
}

/// Whether each realm of an adapter is well formed.
pub open spec fn is_sound(entry: EntryView) -> bool {
    &&& is_well_formed(entry.direct_pools)
    &&& forall|index: int|
        0 <= index < entry.proxy_pools.len() ==> is_well_formed(
            (#[trigger] entry.proxy_pools[index]).1,
        )
}

/// Whether the epochs of all adapters were drawn before the next one.
pub open spec fn are_behind(table: Map<usize, EntryView>, next_epoch: u64) -> bool {
    forall|identity: usize| #[trigger]
        table.contains_key(identity) ==> table[identity].lifecycle_epoch < next_epoch
}

impl Registry {
    /// Each realm of each adapter is well formed, and the next epoch is a new
    /// one until the largest was drawn.
    pub open spec fn well_formed(&self) -> bool {
        &&& forall|identity: usize| #[trigger]
            self@.contains_key(identity) ==> is_sound(self@[identity])
        &&& self.fresh@ ==> are_behind(self@, self.next_epoch)
    }
}

/// Whether no epoch is drawn twice after another one was drawn.
pub open spec fn stays_fresh(fresh: bool, next_epoch: u64) -> bool {
    fresh && next_epoch < u64::MAX
}

/// The pools of an adapter that connect directly or through a proxy.
pub open spec fn realm_for(entry: EntryView, proxy: Option<Seq<char>>) -> RealmView {
    match proxy {
        None => entry.direct_pools,
        Some(proxy) => match value_at(entry.proxy_pools, proxy) {
            Some(realm) => realm,
            None => empty_realm(),
        },
    }
}

/// An adapter after the pools for a proxy, or the direct ones, were replaced.
pub open spec fn with_realm(entry: EntryView, proxy: Option<Seq<char>>, realm: RealmView) -> EntryView {
    match proxy {
        None => EntryView { direct_pools: realm, ..entry },
        Some(proxy) => EntryView {
            proxy_pools: without(entry.proxy_pools, proxy).push((proxy, realm)),
            ..entry
        },
    }
}

/// The characters of a proxy's URL that may be missing.
pub open spec fn proxy_text(proxy: Option<&str>) -> Option<Seq<char>> {
    match proxy {
        Some(proxy) => Some(proxy@),
        None => None,
    }
}

impl SideEntry {
    /// The pool of a key, for a proxy or directly.
    fn find_pool(&self, proxy: Option<&str>, key: &str) -> (pool: Option<usize>)
        ensures
            pool == value_at(realm_for(self@, proxy_text(proxy)).slots, key@),
    {
        match proxy {
            None => self.direct_pools.pool(key),
            Some(named) => {
                let mut index: usize = self.proxy_pools.len();
                let ghost views = proxy_pool_views(self.proxy_pools@);
                assert(views.take(index as int) =~= views);
                while index > 0
                    invariant
                        index <= self.proxy_pools.len(),
                        views == proxy_pool_views(self.proxy_pools@),
                        proxy_text(proxy) == Some(named@),
                        value_at(views, named@) == value_at(views.take(index as int), named@),
                    decreases index,
                {
                    index = index - 1;
                    assert(views.take(index + 1).drop_last() =~= views.take(index as int));
                    assert(views.take(index + 1).last() == (
                        self.proxy_pools@[index as int].proxy@,
                        self.proxy_pools@[index as int].realm@,
                    ));
                    if same_text(self.proxy_pools[index].proxy.as_str(), named) {
                        return self.proxy_pools[index].realm.pool(key);
                    }
                }
                assert(value_at(empty_realm().slots, key@) is None);
                None
            },
        }
    }

    /// Takes the pools of a proxy out.
    fn take_realm(&mut self, proxy: &str) -> (realm: PoolRealm)
        ensures
            realm@ == realm_for(old(self)@, Some(proxy@)),
            final(self)@ == (EntryView {
                proxy_pools: without(old(self)@.proxy_pools, proxy@),
                ..old(self)@
            }),
            is_sound(old(self)@) ==> is_sound(final(self)@) && is_well_formed(realm@),
    {
        let ghost start = self@;
        let ghost views = self@.proxy_pools;
        let mut rest: Vec<ProxyPools> = Vec::new();
        std::mem::swap(&mut rest, &mut self.proxy_pools);
        let mut kept: Vec<ProxyPools> = Vec::new();
        let mut found = PoolRealm::new();
        let ghost mut count: int = 0;
        assert(proxy_pool_views(kept@) =~= Seq::<(Seq<char>, RealmView)>::empty());
        assert(views.take(0) =~= Seq::<(Seq<char>, RealmView)>::empty());
        assert(proxy_pool_views(rest@) =~= views.skip(0));
        while rest.len() > 0
            invariant
                0 <= count <= views.len(),
                rest.len() == views.len() - count,
                proxy_pool_views(rest@) == views.skip(count),
                proxy_pool_views(kept@) == without(views.take(count), proxy@),
                found@ == (match value_at(views.take(count), proxy@) {
                    Some(realm) => realm,
                    None => empty_realm(),
                }),
            decreases rest.len(),
        {
            let ghost before = proxy_pool_views(kept@);
            let ghost remaining = proxy_pool_views(rest@);
            let ghost whole = rest@;
            let first = rest.remove(0);
            proof {
                assert(rest@ =~= whole.drop_first());
                assert(proxy_pool_views(rest@) =~= remaining.drop_first());
                assert(views.take(count + 1).drop_last() =~= views.take(count));
                assert(remaining[0] == views[count]);
                assert(remaining[0] == (first.proxy@, first.realm@));
                assert(views.take(count + 1).last() == (first.proxy@, first.realm@));
                assert(proxy_pool_views(rest@) =~= views.skip(count + 1));
            }
            if same_text(first.proxy.as_str(), proxy) {
                found = first.realm;
            } else {
                kept.push(first);
                assert(proxy_pool_views(kept@) =~= before.push(views[count]));
            }
            proof {
                count = count + 1;
            }
        }
        assert(views.take(count) =~= views);
        self.proxy_pools = kept;
        proof {
            lemma_kept_pairs(views, proxy@);
            assert(self@.proxy_pools == without(views, proxy@));
            if is_sound(start) {
                if value_at(views, proxy@) is Some {
                    let place = lemma_value_has_place(views, proxy@);
                    assert(is_well_formed(views[place].1));
                }
                assert forall|index: int| 0 <= index < self@.proxy_pools.len() implies is_well_formed(
                    (#[trigger] self@.proxy_pools[index]).1,
                ) by {
                    let place = choose|place: int|
                        0 <= place < views.len() && views[place] == self@.proxy_pools[index];
                    assert(is_well_formed(views[place].1));
                }
            }
        }
        found
    }
}

/// What is known before a pool is asked for.
#[derive(Clone, Copy, Debug, PartialEq, Eq, Structural)]
pub struct PoolQuery {
    pub lifecycle_epoch: u64,
    pub weak_adapter: usize,
    pub manager: usize,
    pub has_pool: bool,
}

/// Why there is no pool for a request.
#[derive(Clone, Copy, Debug, PartialEq, Eq, Structural)]
pub enum PoolRefusal {
    NotRegistered,
    IdentityChanged,
    Disappeared,
    Changed,
}

impl PoolRefusal {
    /// The reason in words.
    pub open spec fn words(self) -> Seq<char> {
        match self {
            PoolRefusal::NotRegistered => "adapter was not registered at initialization"@,
            PoolRefusal::IdentityChanged => "visible pool manager identity changed"@,
            PoolRefusal::Disappeared => "adapter pool state disappeared during admission"@,
            PoolRefusal::Changed => "adapter pool state changed during admission"@,
        }
    }

    /// The reason in words.
    pub fn message(&self) -> (text: String)
        ensures
            text@ == self.words(),
    {
        let words: &'static str = match self {
            PoolRefusal::NotRegistered => "adapter was not registered at initialization",
            PoolRefusal::IdentityChanged => "visible pool manager identity changed",
            PoolRefusal::Disappeared => "adapter pool state disappeared during admission",
            PoolRefusal::Changed => "adapter pool state changed during admission",
        };
        String::from_str(words)
    }
}

/// A pool for a request, and the pools that were given up for it.
pub struct PoolSelection {
    pub pool: usize,
    pub lifecycle_epoch: u64,
    pub evicted: Vec<usize>,
}

/// What is known before a pool is asked for, where the adapter and its manager
/// are the registered ones. `referent` is what the weak reference to the
/// adapter gives.
pub fn visible_query(query: Option<PoolQuery>, adapter: usize, referent: usize, manager: usize) -> (
    result: Result<PoolQuery, PoolRefusal>)
    ensures
        result == (match query {
            None => Err::<PoolQuery, PoolRefusal>(PoolRefusal::NotRegistered),
            Some(query) => if referent != adapter || query.manager != manager {
                Err(PoolRefusal::IdentityChanged)
            } else {
                Ok(query)
            },
        }),
{
    match query {
        None => Err(PoolRefusal::NotRegistered),
        Some(query) => if referent != adapter || query.manager != manager {
            Err(PoolRefusal::IdentityChanged)
        } else {
            Ok(query)
        },
    }
}

/// What became of a replacement of proofs.
#[derive(Clone, Copy, Debug, PartialEq, Eq, Structural)]
pub enum Commit {
    Done,
    Refused,
    /// The proofs were replaced meanwhile.
    Again,
}

/// Whether the entry of an adapter may be replaced by a proof that was taken at
/// an epoch and a revision.
pub open spec fn may_commit(entry: Option<EntryView>, epoch: u64, revision: u64) -> Commit {
    match entry {
        None => Commit::Refused,
        Some(entry) => if entry.lifecycle_epoch != epoch {
            Commit::Refused
        } else if entry.proof_revision != revision {
            Commit::Again
        } else {
            Commit::Done
        },
    }
}

/// What became of closing an adapter.
pub enum CloseStep {
    /// The adapter is not registered.
    Absent,
    /// Something else changed meanwhile.
    Changed,
    /// The proofs were replaced meanwhile.
    Again,
    /// The adapter is closed; these were its pools.
    Closed { count: usize, pools: Vec<usize> },
}

/// What is known before an adapter is closed.
pub struct CloseQuery {
    pub lifecycle_epoch: u64,
    pub admission_revision: u64,
    pub proof_revision: u64,
    pub manager: usize,
    pub proxies: Vec<ProxyManager>,
}

/// A proxy with its manager.
pub struct ProxyManager {
    pub url: String,
    pub manager: usize,
}

/// What a list of proxies with their managers says.
pub open spec fn proxy_manager_views(proxies: Seq<ProxyManager>) -> Seq<(Seq<char>, usize)> {
    proxies.map_values(|proxy: ProxyManager| (proxy.url@, proxy.manager))
}

/// The managers of a list of records.
pub open spec fn managers_of(records: Seq<(Seq<char>, RecordView)>) -> Seq<(Seq<char>, usize)> {
    records.map_values(|proxy: (Seq<char>, RecordView)| (proxy.0, proxy.1.manager.manager))
}

/// What a list of proofs of pools says.
pub open spec fn pools_views(pools: Seq<ManagerPools>) -> Seq<PoolsView> {
    pools.map_values(|pool: ManagerPools| pool@)
}

/// A list of records with their pools replaced.
pub open spec fn with_pools(records: Seq<(Seq<char>, RecordView)>, pools: Seq<PoolsView>) -> Seq<
    (Seq<char>, RecordView),
> {
    Seq::new(
        records.len(),
        |index: int|
            (
                records[index].0,
                RecordView { manager: records[index].1.manager, pools: pools[index] },
            ),
    )
}

/// An adapter after it was closed.
pub open spec fn closed_entry(
    entry: EntryView,
    epoch: u64,
    pools: PoolsView,
    proxy_pools: Seq<PoolsView>,
) -> EntryView {
    EntryView {
        lifecycle_epoch: epoch,
        admission_revision: entry.admission_revision,
        proof_revision: next_number(entry.proof_revision),
        proofs: ProofsView {
            manager: RecordView { manager: entry.proofs.manager.manager, pools },
            proxy_managers: with_pools(entry.proofs.proxy_managers, proxy_pools),
            ..entry.proofs
        },
        direct_pools: empty_realm(),
        proxy_pools: Seq::empty(),
    }
}

impl Registry {
    /// No adapter is taken over.
    pub fn new() -> (registry: Self)
        ensures
            registry@ == Map::<usize, EntryView>::empty(),
            registry.next_epoch == 1,
            registry.fresh@,
            registry.well_formed(),
    {
        let registry = Registry { slots: HashMap::new(), next_epoch: 1, fresh: Ghost(true) };
        assert(registry@ =~= Map::<usize, EntryView>::empty());
        registry
    }

    /// The entry of an adapter.
    pub fn find(&self, identity: usize) -> (entry: Option<&SideEntry>)
        ensures
            match entry {
                Some(entry) => self@.get(identity) == Some(entry@),
                None => self@.get(identity) is None,
            },
    {
        broadcast use vstd::std_specs::hash::group_hash_axioms;

        self.slots.get(&identity)
    }

    /// Takes the entry of an adapter out.
    fn take(&mut self, identity: usize) -> (entry: Option<SideEntry>)
        ensures
            match entry {
                Some(entry) => old(self)@.get(identity) == Some(entry@),
                None => old(self)@.get(identity) is None,
            },
            final(self)@ == old(self)@.remove(identity),
            final(self).next_epoch == old(self).next_epoch,
            final(self).fresh == old(self).fresh,
    {
        broadcast use vstd::std_specs::hash::group_hash_axioms;

        let ghost before = self@;
        let entry = self.slots.remove(&identity);
        assert(self@ =~= before.remove(identity));
        entry
    }

    /// Puts the entry of an adapter in.
    fn put(&mut self, identity: usize, entry: SideEntry)
        ensures
            final(self)@ == old(self)@.insert(identity, entry@),
            final(self).next_epoch == old(self).next_epoch,
            final(self).fresh == old(self).fresh,
    {
        broadcast use vstd::std_specs::hash::group_hash_axioms;

        let ghost before = self@;
        let replaced = self.slots.insert(identity, entry);
        assert(self@ =~= before.insert(identity, entry@));
    }

    /// The next epoch.
    fn next_adapter_lifecycle_epoch(&mut self) -> (epoch: u64)
        ensures
            epoch == old(self).next_epoch,
            final(self).next_epoch == next_number(old(self).next_epoch),
            final(self).fresh@ == stays_fresh(old(self).fresh@, old(self).next_epoch),
            final(self)@ == old(self)@,
    {
        let epoch: u64 = self.next_epoch;
        self.fresh = Ghost(stays_fresh(self.fresh@, epoch));
        self.next_epoch = number_after(epoch);
        epoch
    }

    /// Takes an adapter over. The pools of an adapter that had its identity
    /// before are given back.
    pub fn register(&mut self, identity: usize, proofs: EntryProofs) -> (previous: Vec<usize>)
        requires
            old(self).well_formed(),
        ensures
            final(self).well_formed(),
            final(self)@ == old(self)@.insert(
                identity,
                EntryView {
                    lifecycle_epoch: old(self).next_epoch,
                    admission_revision: 0,
                    proof_revision: 0,
                    proofs: proofs@,
                    direct_pools: empty_realm(),
                    proxy_pools: Seq::empty(),
                },
            ),
            final(self).next_epoch == next_number(old(self).next_epoch),
            final(self).fresh@ == stays_fresh(old(self).fresh@, old(self).next_epoch),
            previous@ == (match old(self)@.get(identity) {
                Some(entry) => entry_pools(entry),
                None => Seq::empty(),
            }),
    {
        let lifecycle_epoch = self.next_adapter_lifecycle_epoch();
        let previous: Vec<usize> = match self.take(identity) {
            Some(entry) => entry.pools(),
            None => Vec::new(),
        };
        let entry = SideEntry {
            lifecycle_epoch,
            admission_revision: 0,
            proof_revision: 0,
            proofs,
            direct_pools: PoolRealm::new(),
            proxy_pools: Vec::new(),
        };
        assert(entry@.proxy_pools =~= Seq::<(Seq<char>, RealmView)>::empty());
        self.put(identity, entry);
        assert(previous@ =~= (match old(self)@.get(identity) {
            Some(entry) => entry_pools(entry),
            None => Seq::empty(),
        }));
        previous
    }

    /// Gives an adapter up, and its pools back.
    pub fn drop_adapter(&mut self, identity: usize) -> (pools: Vec<usize>)
        requires
            old(self).well_formed(),
        ensures
            final(self).well_formed(),
            final(self)@ == old(self)@.remove(identity),
            final(self).next_epoch == old(self).next_epoch,
            final(self).fresh == old(self).fresh,
            pools@ == (match old(self)@.get(identity) {
                Some(entry) => entry_pools(entry),
                None => Seq::empty(),
            }),
    {
        match self.take(identity) {
            Some(entry) => entry.pools(),
            None => {
                let pools: Vec<usize> = Vec::new();
                assert(pools@ =~= Seq::<usize>::empty());
                pools
            },
        }
    }

    /// Gives up an adapter that was found dead, where it was not replaced since.
    pub fn reap(&mut self, identity: usize, lifecycle_epoch: u64) -> (pools: Vec<usize>)
        requires
            old(self).well_formed(),
        ensures
            final(self).well_formed(),
            final(self).next_epoch == old(self).next_epoch,
            final(self).fresh == old(self).fresh,
            match old(self)@.get(identity) {
                Some(entry) => if entry.lifecycle_epoch == lifecycle_epoch {
                    final(self)@ == old(self)@.remove(identity) && pools@ == entry_pools(entry)
                } else {
                    final(self)@ == old(self)@ && pools@ == Seq::<usize>::empty()
                },
                None => final(self)@ == old(self)@ && pools@ == Seq::<usize>::empty(),
            },
    {
        let alive = match self.find(identity) {
            Some(entry) => entry.lifecycle_epoch == lifecycle_epoch,
            None => false,
        };
        if alive {
            self.drop_adapter(identity)
        } else {
            let pools: Vec<usize> = Vec::new();
            assert(pools@ =~= Seq::<usize>::empty());
            pools
        }
    }

    /// The identities of all adapters, each once.
    pub fn identities(&self) -> (identities: Vec<usize>)
        ensures
            identities@.no_duplicates(),
            identities@.to_set() == self@.dom(),
    {
        broadcast use vstd::std_specs::hash::group_hash_axioms;

        let mut identities: Vec<usize> = Vec::new();
        let ghost whole = vstd::std_specs::iter::IteratorSpec::remaining(&self.slots.keys()).unref();
        for identity in keys: self.slots.keys()
            invariant
                keys.seq().unref() == whole,
                identities@ == whole.take(keys.index() as int),
        {
            identities.push(*identity);
        }
        assert(identities@ =~= whole);
        assert(self@.dom() =~= self.slots@.dom());
        identities
    }

    /// How many adapters have a pool.
    pub fn adapters_with_pools(&self) -> (count: usize)
        ensures
            count == self@.dom().filter(|identity: usize| pool_count(self@[identity]) != 0).len(),
    {
        let identities = self.identities();
        let mut count: usize = 0;
        let mut index: usize = 0;
        let ghost wanted = |identity: usize| pool_count(self@[identity]) != 0;
        let ghost mut found: Set<usize> = Set::empty();
        while index < identities.len()
            invariant
                index <= identities.len(),
                count <= index,
                identities@.no_duplicates(),
                identities@.to_set() == self@.dom(),
                wanted == (|identity: usize| pool_count(self@[identity]) != 0),
                found.finite(),
                count == found.len(),
                found == identities@.take(index as int).to_set().filter(wanted),
            decreases identities.len() - index,
        {
            let identity: usize = identities[index];
            assert(identities@.to_set().contains(identity));
            let ghost before = found;
            if let Some(entry) = self.find(identity) {
                let pools = entry.pools();
                proof {
                    law_pools_are_counted(entry@);
                }
                if pools.len() != 0 {
                    count = count + 1;
                    proof {
                        found = found.insert(identity);
                    }
                }
            }
            proof {
                let taken = identities@.take(index as int);
                assert(!taken.contains(identity));
                assert(identities@.take(index + 1) =~= taken.push(identity));
                assert forall|other: usize| #[trigger]
                    taken.push(identity).contains(other) == (taken.contains(other) || other
                        == identity) by {
                    if taken.contains(other) {
                        let at = choose|at: int| 0 <= at < taken.len() && taken[at] == other;
                        assert(taken.push(identity)[at] == other);
                    }
                    assert(taken.push(identity)[taken.len() as int] == identity);
                }
                assert(found =~= taken.push(identity).to_set().filter(wanted));
            }
            index = index + 1;
        }
        assert(identities@.take(index as int) =~= identities@);
        count
    }

    /// What is known of an adapter before a pool is asked for.
    pub fn query_pool(&self, identity: usize, proxy: Option<&str>, key: &str) -> (query: Option<
        PoolQuery,
    >)
        ensures
            query == (match self@.get(identity) {
                None => None,
                Some(entry) => Some(
                    PoolQuery {
                        lifecycle_epoch: entry.lifecycle_epoch,
                        weak_adapter: entry.proofs.weak_adapter,
                        manager: entry.proofs.manager.manager.manager,
                        has_pool: value_at(realm_for(entry, proxy_text(proxy)).slots, key@) is Some,
                    },
                ),
            }),
    {
        match self.find(identity) {
            None => None,
            Some(entry) => Some(
                PoolQuery {
                    lifecycle_epoch: entry.lifecycle_epoch,
                    weak_adapter: entry.proofs.weak_adapter,
                    manager: entry.proofs.manager.manager.manager,
                    has_pool: entry.find_pool(proxy, key).is_some(),
                },
            ),
        }
    }

    /// Gives the pool of a key to a request, for a proxy or directly, where the
    /// adapter is as it was. A candidate is needed where there is no pool yet.
    pub fn adapter_pool(
        &mut self,
        identity: usize,
        query: PoolQuery,
        proxy: Option<&str>,
        key: &str,
        connections: usize,
        candidate: Option<usize>,
    ) -> (selection: Result<PoolSelection, PoolRefusal>)
        requires
            old(self).well_formed(),
            candidate is Some || (old(self)@.get(identity) matches Some(entry) ==> value_at(
                realm_for(entry, proxy_text(proxy)).slots,
                key@,
            ) is Some),
        ensures
            final(self).well_formed(),
            final(self).next_epoch == old(self).next_epoch,
            final(self).fresh == old(self).fresh,
            match old(self)@.get(identity) {
                None => selection matches Err(PoolRefusal::Disappeared) && final(self)@
                    == old(self)@,
                Some(entry) => if entry.lifecycle_epoch != query.lifecycle_epoch
                    || entry.proofs.manager.manager.manager != query.manager {
                    selection matches Err(PoolRefusal::Changed) && final(self)@ == old(self)@
                } else {
                    let expected = admitted(
                        realm_for(entry, proxy_text(proxy)),
                        key@,
                        connections as nat,
                        match candidate {
                            Some(candidate) => candidate,
                            None => 0,
                        },
                    );
                    &&& selection matches Ok(selection)
                    &&& selection.pool == expected.pool
                    &&& selection.lifecycle_epoch == query.lifecycle_epoch
                    &&& selection.evicted@ == expected.evicted
                    &&& final(self)@ == old(self)@.insert(
                        identity,
                        EntryView {
                            admission_revision: next_number(entry.admission_revision),
                            ..with_realm(entry, proxy_text(proxy), expected.realm)
                        },
                    )
                },
            },
    {
        match self.find(identity) {
            None => {
                return Err(PoolRefusal::Disappeared);
            },
            Some(entry) => {
                if entry.lifecycle_epoch != query.lifecycle_epoch
                    || entry.proofs.manager.manager.manager != query.manager {
                    return Err(PoolRefusal::Changed);
                }
            },
        }
        match self.take(identity) {
            None => Err(PoolRefusal::Disappeared),
            Some(taken) => {
                let mut entry = taken;
                let ghost before = entry@;
                let (pool, evicted) = match proxy {
                    None => {
                        let result = entry.direct_pools.obtain(key, connections, candidate);
                        result
                    },
                    Some(proxy) => {
                        let mut realm = entry.take_realm(proxy);
                        let result = realm.obtain(key, connections, candidate);
                        let ghost kept = entry@.proxy_pools;
                        entry.proxy_pools.push(
                            ProxyPools { proxy: String::from_str(proxy), realm },
                        );
                        assert(entry@.proxy_pools =~= kept.push((proxy@, realm@)));
                        result
                    },
                };
                entry.admission_revision = number_after(entry.admission_revision);
                self.put(identity, entry);
                Ok(PoolSelection { pool, lifecycle_epoch: query.lifecycle_epoch, evicted })
            },
        }
    }

    /// Replaces the proof of the direct manager's pools.
    pub fn record_visible_direct_manager(
        &mut self,
        identity: usize,
        epoch: u64,
        revision: u64,
        manager: usize,
        pools: ManagerPools,
    ) -> (commit: Commit)
        requires
            old(self).well_formed(),
        ensures
            final(self).well_formed(),
            final(self).next_epoch == old(self).next_epoch,
            final(self).fresh == old(self).fresh,
            commit == (match old(self)@.get(identity) {
                Some(entry) => if entry.proofs.manager.manager.manager != manager {
                    Commit::Refused
                } else {
                    may_commit(Some(entry), epoch, revision)
                },
                None => Commit::Refused,
            }),
            match (commit, old(self)@.get(identity)) {
                (Commit::Done, Some(entry)) => final(self)@ == old(self)@.insert(
                    identity,
                    EntryView {
                        proof_revision: next_number(entry.proof_revision),
                        proofs: ProofsView {
                            manager: RecordView {
                                manager: entry.proofs.manager.manager,
                                pools: pools@,
                            },
                            ..entry.proofs
                        },
                        ..entry
                    },
                ),
                _ => final(self)@ == old(self)@,
            },
    {
        match self.find(identity) {
            None => {
                return Commit::Refused;
            },
            Some(entry) => {
                if entry.lifecycle_epoch != epoch || entry.proofs.manager.manager.manager
                    != manager {
                    return Commit::Refused;
                }
                if entry.proof_revision != revision {
                    return Commit::Again;
                }
            },
        }
        match self.take(identity) {
            None => Commit::Refused,
            Some(taken) => {
                let mut entry = taken;
                entry.proofs.manager.pools = Arc::new(pools);
                entry.proof_revision = number_after(entry.proof_revision);
                self.put(identity, entry);
                Commit::Done
            },
        }
    }

    /// What is known of an adapter before it is closed.
    pub fn query_close(&self, identity: usize) -> (query: Option<CloseQuery>)
        ensures
            match (query, self@.get(identity)) {
                (None, None) => true,
                (Some(query), Some(entry)) => query.lifecycle_epoch == entry.lifecycle_epoch
                    && query.admission_revision == entry.admission_revision && query.proof_revision
                    == entry.proof_revision && query.manager == entry.proofs.manager.manager.manager
                    && proxy_manager_views(query.proxies@) == managers_of(
                    entry.proofs.proxy_managers,
                ),
                _ => false,
            },
    {
        match self.find(identity) {
            None => None,
            Some(entry) => {
                let mut proxies: Vec<ProxyManager> = Vec::new();
                let ghost expected = managers_of(entry@.proofs.proxy_managers);
                let mut index: usize = 0;
                while index < entry.proofs.proxy_managers.len()
                    invariant
                        index <= entry.proofs.proxy_managers.len(),
                        expected == managers_of(entry@.proofs.proxy_managers),
                        expected.len() == entry.proofs.proxy_managers.len(),
                        proxy_manager_views(proxies@) == expected.take(index as int),
                    decreases entry.proofs.proxy_managers.len() - index,
                {
                    let ghost before = proxy_manager_views(proxies@);
                    let proxy = &entry.proofs.proxy_managers[index];
                    let named = ProxyManager {
                        url: String::from_str(proxy.url.as_str()),
                        manager: proxy.record.manager.manager,
                    };
                    proxies.push(named);
                    proof {
                        assert(entry@.proofs.proxy_managers[index as int] == (
                            proxy.url@,
                            proxy.record@,
                        ));
                        assert(expected[index as int] == (named.url@, named.manager));
                        assert(proxy_manager_views(proxies@) =~= before.push(
                            (named.url@, named.manager),
                        ));
                        assert(expected.take(index + 1) =~= expected.take(index as int).push(
                            expected[index as int],
                        ));
                    }
                    index = index + 1;
                }
                assert(expected.take(index as int) =~= expected);
                Some(
                    CloseQuery {
                        lifecycle_epoch: entry.lifecycle_epoch,
                        admission_revision: entry.admission_revision,
                        proof_revision: entry.proof_revision,
                        manager: entry.proofs.manager.manager.manager,
                        proxies,
                    },
                )
            },
        }
    }

    /// Closes an adapter: its pools are given back, the proofs of its managers'
    /// pools are replaced, and a new epoch begins. Nothing is changed where the
    /// adapter is not as it was.
    pub fn close(
        &mut self,
        identity: usize,
        query: &CloseQuery,
        pools: ManagerPools,
        proxy_pools: Vec<ManagerPools>,
    ) -> (step: CloseStep)
        requires
            old(self).well_formed(),
        ensures
            final(self).well_formed(),
            match old(self)@.get(identity) {
                None => step is Absent && *final(self) == *old(self),
                Some(entry) => if entry.lifecycle_epoch != query.lifecycle_epoch
                    || entry.admission_revision != query.admission_revision {
                    step is Changed && *final(self) == *old(self)
                } else if entry.proof_revision != query.proof_revision {
                    step is Again && *final(self) == *old(self)
                } else if entry.proofs.manager.manager.manager != query.manager
                    || proxy_pools@.len() != query.proxies@.len() || managers_of(
                    entry.proofs.proxy_managers,
                ) != proxy_manager_views(query.proxies@) {
                    step is Changed && *final(self) == *old(self)
                } else {
                    &&& step matches CloseStep::Closed { count, pools: given }
                    &&& count == pool_count(entry)
                    &&& given@ == entry_pools(entry)
                    &&& final(self).next_epoch == next_number(old(self).next_epoch)
                    &&& final(self).fresh@ == stays_fresh(
                        old(self).fresh@,
                        old(self).next_epoch,
                    )
                    &&& final(self)@ == old(self)@.insert(
                        identity,
                        closed_entry(
                            entry,
                            old(self).next_epoch,
                            pools@,
                            pools_views(proxy_pools@),
                        ),
                    )
                },
            },
    {
        match self.find(identity) {
            None => {
                return CloseStep::Absent;
            },
            Some(entry) => {
                if entry.lifecycle_epoch != query.lifecycle_epoch || entry.admission_revision
                    != query.admission_revision {
                    return CloseStep::Changed;
                }
                if entry.proof_revision != query.proof_revision {
                    return CloseStep::Again;
                }
                if entry.proofs.manager.manager.manager != query.manager || proxy_pools.len()
                    != query.proxies.len() || !same_managers(
                    &entry.proofs.proxy_managers,
                    &query.proxies,
                ) {
                    return CloseStep::Changed;
                }
            },
        }
        match self.take(identity) {
            None => CloseStep::Absent,
            Some(entry) => {
                let given = entry.pools();
                let count: usize = given.len();
                proof {
                    law_pools_are_counted(entry@);
                }
                let lifecycle_epoch = self.next_adapter_lifecycle_epoch();
                let ghost proxy_views_before = entry@.proofs.proxy_managers;
                let ghost pools_before = pools_views(proxy_pools@);
                assert(managers_of(proxy_views_before).len() == proxy_views_before.len());
                assert(proxy_manager_views(query.proxies@).len() == query.proxies@.len());
                let proxy_managers = replace_pools(entry.proofs.proxy_managers, proxy_pools);
                let closed = SideEntry {
                    lifecycle_epoch,
                    admission_revision: entry.admission_revision,
                    proof_revision: number_after(entry.proof_revision),
                    proofs: EntryProofs {
                        weak_adapter: entry.proofs.weak_adapter,
                        proxy_mapping: entry.proofs.proxy_mapping,
                        manager: ManagerRecord {
                            manager: entry.proofs.manager.manager,
                            pools: Arc::new(pools),
                        },
                        proxy_managers,
                    },
                    direct_pools: PoolRealm::new(),
                    proxy_pools: Vec::new(),
                };
                assert(closed@.proxy_pools =~= Seq::<(Seq<char>, RealmView)>::empty());
                self.put(identity, closed);
                CloseStep::Closed { count, pools: given }
            },
        }
    }

    /// Replaces the records of the proxies' managers, where the adapter and the
    /// managers are as they were.
    pub fn record_proxy_managers(
        &mut self,
        identity: usize,
        epoch: u64,
        revision: u64,
        expected: &EntryProofs,
        records: Vec<ProxyRecord>,
    ) -> (commit: Commit)
        requires
            old(self).well_formed(),
        ensures
            final(self).well_formed(),
            final(self).next_epoch == old(self).next_epoch,
            final(self).fresh == old(self).fresh,
            commit == (match old(self)@.get(identity) {
                None => Commit::Refused,
                Some(entry) => match may_commit(Some(entry), epoch, revision) {
                    Commit::Done => if entry.proofs.proxy_mapping == expected.proxy_mapping
                        && have_same_managers(
                        entry.proofs.proxy_managers,
                        expected@.proxy_managers,
                    ) {
                        Commit::Done
                    } else {
                        Commit::Refused
                    },
                    other => other,
                },
            }),
            match (commit, old(self)@.get(identity)) {
                (Commit::Done, Some(entry)) => final(self)@ == old(self)@.insert(
                    identity,
                    EntryView {
                        proof_revision: next_number(entry.proof_revision),
                        proofs: ProofsView {
                            proxy_managers: proxy_views(records@),
                            ..entry.proofs
                        },
                        ..entry
                    },
                ),
                _ => final(self)@ == old(self)@,
            },
    {
        match self.find(identity) {
            None => {
                return Commit::Refused;
            },
            Some(entry) => {
                if entry.lifecycle_epoch != epoch {
                    return Commit::Refused;
                }
                if entry.proof_revision != revision {
                    return Commit::Again;
                }
                if entry.proofs.proxy_mapping != expected.proxy_mapping || !managers_agree(
                    &entry.proofs.proxy_managers,
                    &expected.proxy_managers,
                ) {
                    return Commit::Refused;
                }
            },
        }
        match self.take(identity) {
            None => Commit::Refused,
            Some(taken) => {
                let mut entry = taken;
                entry.proofs.proxy_managers = records;
                entry.proof_revision = number_after(entry.proof_revision);
                self.put(identity, entry);
                Commit::Done
            },
        }
    }
}

/// Whether as many proxies as expected have the managers that are expected.
pub open spec fn have_same_managers(
    current: Seq<(Seq<char>, RecordView)>,
    expected: Seq<(Seq<char>, RecordView)>,
) -> bool {
    current.len() == expected.len() && forall|index: int|
        0 <= index < current.len() ==> (value_at(expected, (#[trigger] current[index]).0) matches Some(
            record,
        ) && record.manager.manager == current[index].1.manager.manager)
}

/// Whether as many proxies as expected have the managers that are expected.
fn managers_agree(current: &Vec<ProxyRecord>, expected: &Vec<ProxyRecord>) -> (agree: bool)
    ensures
        agree == have_same_managers(proxy_views(current@), proxy_views(expected@)),
{
    if current.len() != expected.len() {
        return false;
    }
    let ghost views = proxy_views(current@);
    let mut index: usize = 0;
    while index < current.len()
        invariant
            index <= current.len(),
            current.len() == expected.len(),
            views == proxy_views(current@),
            forall|i: int|
                0 <= i < index ==> (value_at(proxy_views(expected@), (#[trigger] views[i]).0)
                    matches Some(record) && record.manager.manager
                    == views[i].1.manager.manager),
        decreases current.len() - index,
    {
        assert(views[index as int] == (
            current@[index as int].url@,
            current@[index as int].record@,
        ));
        match find_record(expected, current[index].url.as_str()) {
            None => {
                return false;
            },
            Some(record) => {
                if record.manager.manager != current[index].record.manager.manager {
                    return false;
                }
            },
        }
        index = index + 1;
    }
    true
}

/// Whether a list of records is of these proxies and managers, in order.
fn same_managers(records: &Vec<ProxyRecord>, proxies: &Vec<ProxyManager>) -> (same: bool)
    ensures
        same == (managers_of(proxy_views(records@)) == proxy_manager_views(proxies@)),
{
    let ghost left = managers_of(proxy_views(records@));
    let ghost right = proxy_manager_views(proxies@);
    assert(left.len() == records@.len());
    assert(right.len() == proxies@.len());
    if records.len() != proxies.len() {
        return false;
    }
    let mut index: usize = 0;
    while index < records.len()
        invariant
            index <= records.len(),
            records.len() == proxies.len(),
            left == managers_of(proxy_views(records@)),
            right == proxy_manager_views(proxies@),
            left.len() == records@.len(),
            right.len() == proxies@.len(),
            left.take(index as int) =~= right.take(index as int),
        decreases records.len() - index,
    {
        assert(left[index as int] == (
            records@[index as int].url@,
            records@[index as int].record.manager.manager,
        ));
        assert(right[index as int] == (
            proxies@[index as int].url@,
            proxies@[index as int].manager,
        ));
        if !same_text(records[index].url.as_str(), proxies[index].url.as_str())
            || records[index].record.manager.manager != proxies[index].manager {
            return false;
        }
        index = index + 1;
    }
    assert(left.take(index as int) =~= left);
    assert(right.take(index as int) =~= right);
    true
}

/// Replaces the pools of a list of records.
fn replace_pools(records: Vec<ProxyRecord>, pools: Vec<ManagerPools>) -> (replaced: Vec<ProxyRecord>)
    requires
        records@.len() == pools@.len(),
    ensures
        proxy_views(replaced@) == with_pools(proxy_views(records@), pools_views(pools@)),
{
    let ghost record_views = proxy_views(records@);
    let ghost pool_views = pools_views(pools@);
    let mut left = records;
    let mut fresh = pools;
    let mut replaced: Vec<ProxyRecord> = Vec::new();
    let ghost mut count: int = 0;
    assert(proxy_views(left@) =~= record_views.skip(0));
    assert(pools_views(fresh@) =~= pool_views.skip(0));
    assert(proxy_views(replaced@) =~= with_pools(record_views, pool_views).take(0));
    while left.len() > 0
        invariant
            0 <= count <= record_views.len(),
            record_views.len() == pool_views.len(),
            left.len() == record_views.len() - count,
            fresh.len() == left.len(),
            proxy_views(left@) == record_views.skip(count),
            pools_views(fresh@) == pool_views.skip(count),
            proxy_views(replaced@) == with_pools(record_views, pool_views).take(count),
        decreases left.len(),
    {
        let ghost before = proxy_views(replaced@);
        let ghost first_record = proxy_views(left@)[0];
        let ghost first_pool = pools_views(fresh@)[0];
        let ghost old_left = left@;
        let ghost old_fresh = fresh@;
        let record = left.remove(0);
        let pool = fresh.remove(0);
        proof {
            assert(left@ =~= old_left.drop_first());
            assert(fresh@ =~= old_fresh.drop_first());
            assert(proxy_views(left@) =~= proxy_views(old_left).drop_first());
            assert(pools_views(fresh@) =~= pools_views(old_fresh).drop_first());
            assert(first_record == record_views[count]);
            assert(first_pool == pool_views[count]);
            assert(first_record == (record.url@, record.record@));
            assert(first_pool == pool@);
            assert(proxy_views(left@) =~= record_views.skip(count + 1));
            assert(pools_views(fresh@) =~= pool_views.skip(count + 1));
        }
        let renewed = ProxyRecord {
            url: record.url,
            record: ManagerRecord { manager: record.record.manager, pools: Arc::new(pool) },
        };
        replaced.push(renewed);
        proof {
            let expected = with_pools(record_views, pool_views);
            assert(proxy_views(replaced@) =~= before.push((renewed.url@, renewed.record@)));
            assert(expected[count] == (renewed.url@, renewed.record@));
            assert(expected.take(count + 1) =~= expected.take(count).push(expected[count]));
            count = count + 1;
        }
    }
    assert(with_pools(record_views, pool_views).take(count) =~= with_pools(
        record_views,
        pool_views,
    ));
    replaced
}

/// Whether an adapter can be taken over: it is of the remembered class, its
/// manager is of the remembered class and configured as it says, and it has no
/// proxy manager yet.
pub open spec fn is_registrable(heap: Heap, state: AdapterView, adapter: usize) -> Check {
    if !heap.is_exactly(adapter, state.adapter_type) {
        Ok(false)
    } else {
        match heap.attribute_of(adapter, "poolmanager"@) {
            None => Err(Failure::Attribute),
            Some(manager) => both(
                manager_identity(heap, state, manager),
                both(
                    adapter_configured(heap, adapter, manager),
                    match heap.attribute_of(adapter, "proxy_manager"@) {
                        None => Err(Failure::Attribute),
                        Some(proxies) => match exact_dict_of(heap, proxies) {
                            None => Ok(false),
                            Some(entries) => Ok(entries.len() == 0),
                        },
                    },
                ),
            ),
        }
    }
}

/// Whether an adapter can be taken over.
pub fn adapter_register_trial(heap: &Heap, state: &AdapterState, adapter: usize) -> (check: Check)
    ensures
        check == is_registrable(*heap, state@, adapter),
{
    if !heap.exactly(adapter, state.adapter_type) {
        return Ok(false);
    }
    let manager = match heap.attribute(adapter, "poolmanager") {
        Some(manager) => manager,
        None => {
            return Err(Failure::Attribute);
        },
    };
    match manager_identity_is_pristine(heap, state, manager) {
        Ok(true) => {},
        other => {
            return other;
        },
    }
    match manager_configuration_is_pristine(heap, adapter, manager) {
        Ok(true) => {},
        other => {
            return other;
        },
    }
    match heap.attribute(adapter, "proxy_manager") {
        None => Err(Failure::Attribute),
        Some(proxies) => match exact_dict(heap, proxies) {
            None => Ok(false),
            Some(entries) => Ok(entries.len() == 0),
        },
    }
}

/// Whether the proxy manager of an entry is the recorded one, unchanged.
pub open spec fn proxy_pristine(heap: Heap, pair: Pair, records: Seq<(Seq<char>, RecordView)>) -> Check {
    if !heap.is_exactly(pair.key, heap.intrinsics.text) {
        Ok(false)
    } else {
        match heap.text_of(pair.key) {
            None => Err(Failure::Kind),
            Some(url) => match value_at(records, url) {
                None => Ok(false),
                Some(record) => record_pristine(heap, pair.value, record),
            },
        }
    }
}

/// Whether the proxy managers of a dict are the recorded ones, asked in order.
pub open spec fn proxies_pristine(
    heap: Heap,
    entries: Seq<Pair>,
    records: Seq<(Seq<char>, RecordView)>,
) -> Check
    decreases entries.len(),
{
    if entries.len() == 0 {
        Ok(true)
    } else {
        both(
            proxy_pristine(heap, entries[0], records),
            proxies_pristine(heap, entries.drop_first(), records),
        )
    }
}

/// Whether the proxy managers of a dict are the recorded ones.
fn check_proxies(heap: &Heap, entries: &Vec<Pair>, records: &Vec<ProxyRecord>) -> (check: Check)
    ensures
        check == proxies_pristine(*heap, entries@, proxy_views(records@)),
{
    let mut index: usize = 0;
    assert(entries@.skip(0) =~= entries@);
    while index < entries.len()
        invariant
            index <= entries.len(),
            proxies_pristine(*heap, entries@, proxy_views(records@)) == proxies_pristine(
                *heap,
                entries@.skip(index as int),
                proxy_views(records@),
            ),
        decreases entries.len() - index,
    {
        assert(entries@.skip(index as int).drop_first() =~= entries@.skip(index + 1));
        let pair = entries[index];
        if !heap.exactly(pair.key, heap.intrinsics.text) {
            return Ok(false);
        }
        match heap.text(pair.key) {
            None => {
                return Err(Failure::Kind);
            },
            Some(url) => match find_record(records, url.as_str()) {
                None => {
                    return Ok(false);
                },
                Some(record) => match manager_proof_is_pristine(heap, pair.value, record) {
                    Ok(true) => {},
                    other => {
                        return other;
                    },
                },
            },
        }
        index = index + 1;
    }
    Ok(true)
}

/// Whether the direct manager is the recorded one, configured as the adapter
/// says, with as many pools as recorded.
pub open spec fn direct_pristine(
    heap: Heap,
    state: AdapterView,
    adapter: usize,
    referent: usize,
    manager: usize,
    record: RecordView,
) -> Check {
    both(
        Ok(referent == adapter && record.manager.manager == manager),
        both(
            manager_identity(heap, state, manager),
            both(
                adapter_configured(heap, adapter, manager),
                match heap.attribute_of(manager, "pools"@) {
                    None => Err(Failure::Attribute),
                    Some(pools) => length_is(heap, pools, record.pools.count),
                },
            ),
        ),
    )
}

/// Whether the direct manager is the recorded one.
fn check_direct(
    heap: &Heap,
    state: &AdapterState,
    adapter: usize,
    referent: usize,
    manager: usize,
    record: &ManagerRecord,
) -> (check: Check)
    ensures
        check == direct_pristine(*heap, state@, adapter, referent, manager, record@),
{
    if referent != adapter || record.manager.manager != manager {
        return Ok(false);
    }
    match manager_identity_is_pristine(heap, state, manager) {
        Ok(true) => {},
        other => {
            return other;
        },
    }
    match manager_configuration_is_pristine(heap, adapter, manager) {
        Ok(true) => {},
        other => {
            return other;
        },
    }
    match heap.attribute(manager, "pools") {
        None => Err(Failure::Attribute),
        Some(pools) => crate::managers::check_length(heap, pools, record.pools.count),
    }
}

/// One try at whether a registered adapter is what it was: read from one
/// snapshot, no answer where its proxy managers are others in a later one.
/// `referent` is what its weak reference gives.
pub open spec fn registered_pristine(
    seen: Heap,
    later: Heap,
    state: AdapterView,
    adapter: usize,
    referent: usize,
    proofs: ProofsView,
) -> Result<Option<bool>, Failure> {
    match (seen.attribute_of(adapter, "poolmanager"@), seen.attribute_of(adapter, "proxy_manager"@)) {
        (Some(manager), Some(proxies)) => match exact_dict_of(seen, proxies) {
            None => Ok(Some(false)),
            Some(entries) => if proxies != proofs.proxy_mapping || entries.len()
                != proofs.proxy_managers.len() {
                Ok(Some(false))
            } else {
                match both(
                    proxies_pristine(seen, entries, proofs.proxy_managers),
                    record_pristine(seen, manager, proofs.manager),
                ) {
                    Err(failure) => Err(failure),
                    Ok(false) => Ok(Some(false)),
                    Ok(true) => match later.attribute_of(adapter, "proxy_manager"@) {
                        None => Err(Failure::Attribute),
                        Some(current) => if exact_dict_of(later, current) is None || current
                            != proofs.proxy_mapping {
                            Ok(Some(false))
                        } else if !still_current(seen, entries, later, current) {
                            Ok(None)
                        } else {
                            match direct_pristine(
                                later,
                                state,
                                adapter,
                                referent,
                                manager,
                                proofs.manager,
                            ) {
                                Err(failure) => Err(failure),
                                Ok(pristine) => Ok(Some(pristine)),
                            }
                        },
                    },
                }
            },
        },
        _ => Err(Failure::Attribute),
    }
}

/// One try at whether a registered adapter is what it was.
pub fn registered_adapter_pristine(
    seen: &Heap,
    later: &Heap,
    state: &AdapterState,
    adapter: usize,
    referent: usize,
    proofs: &EntryProofs,
) -> (result: Result<Option<bool>, Failure>)
    ensures
        result == registered_pristine(*seen, *later, state@, adapter, referent, proofs@),
{
    let (manager, proxies) = match (
        seen.attribute(adapter, "poolmanager"),
        seen.attribute(adapter, "proxy_manager"),
    ) {
        (Some(manager), Some(proxies)) => (manager, proxies),
        _ => {
            return Err(Failure::Attribute);
        },
    };
    let entries = match exact_dict(seen, proxies) {
        Some(entries) => entries,
        None => {
            return Ok(Some(false));
        },
    };
    if proxies != proofs.proxy_mapping || entries.len() != proofs.proxy_managers.len() {
        return Ok(Some(false));
    }
    match check_proxies(seen, entries, &proofs.proxy_managers) {
        Err(failure) => {
            return Err(failure);
        },
        Ok(pristine) => {
            if !pristine {
                return Ok(Some(false));
            }
        },
    }
    match manager_proof_is_pristine(seen, manager, &proofs.manager) {
        Err(failure) => {
            return Err(failure);
        },
        Ok(pristine) => {
            if !pristine {
                return Ok(Some(false));
            }
        },
    }
    let current = match later.attribute(adapter, "proxy_manager") {
        Some(current) => current,
        None => {
            return Err(Failure::Attribute);
        },
    };
    if exact_dict(later, current).is_none() || current != proofs.proxy_mapping {
        return Ok(Some(false));
    }
    if !exact_dict_snapshot_is_current(seen, entries, later, current) {
        return Ok(None);
    }
    match check_direct(later, state, adapter, referent, manager, &proofs.manager) {
        Err(failure) => Err(failure),
        Ok(pristine) => Ok(Some(pristine)),
    }
}

/// What a finding about a registered adapter is worth, once it was made.
#[derive(Clone, Copy, Debug, PartialEq, Eq, Structural)]
pub enum Confirmation {
    Answer(bool),
    /// The proofs were replaced meanwhile.
    Again,
}

/// What a finding about a registered adapter is worth: nothing where the adapter
/// was closed or registered anew, and it is repeated where proofs were replaced.
pub open spec fn confirmed(
    entry: Option<EntryView>,
    epoch: u64,
    revision: u64,
    mapping: usize,
    pristine: bool,
) -> Confirmation {
    match entry {
        None => Confirmation::Answer(false),
        Some(entry) => if entry.lifecycle_epoch != epoch {
            Confirmation::Answer(false)
        } else if entry.proof_revision != revision {
            Confirmation::Again
        } else if entry.proofs.proxy_mapping != mapping {
            Confirmation::Answer(false)
        } else {
            Confirmation::Answer(pristine)
        },
    }
}

/// What a finding about a registered adapter is worth.
pub fn confirm(
    registry: &Registry,
    identity: usize,
    epoch: u64,
    revision: u64,
    mapping: usize,
    pristine: bool,
) -> (confirmation: Confirmation)
    ensures
        confirmation == confirmed(registry@.get(identity), epoch, revision, mapping, pristine),
{
    match registry.find(identity) {
        None => Confirmation::Answer(false),
        Some(entry) => if entry.lifecycle_epoch != epoch {
            Confirmation::Answer(false)
        } else if entry.proof_revision != revision {
            Confirmation::Again
        } else if entry.proofs.proxy_mapping != mapping {
            Confirmation::Answer(false)
        } else {
            Confirmation::Answer(pristine)
        },
    }
}

/// What Python gave for the URL of a proxy: what it parses to, and the headers
/// of an HTTP proxy or the credentials of a SOCKS proxy.
#[derive(Clone, Copy, Debug, PartialEq, Eq, Structural)]
pub struct ProxyCalls {
    pub parsed: usize,
    pub extra: usize,
}

/// What one proxy manager, or all, came to.
pub enum VisibleView {
    Taken(Seq<(Seq<char>, RecordView)>),
    Refused,
    Again,
}

/// Whether a proxy's URL is of a SOCKS proxy.
pub open spec fn names_socks(url: Seq<char>) -> bool {
    "socks"@.is_prefix_of(lowered(url))
}

/// Whether a manager is the one that the adapter would make for a proxy.
pub open spec fn is_canonical_proxy(
    heap: Heap,
    state: AdapterView,
    url: Seq<char>,
    pair: Pair,
    configuration: ProxyManagerConfiguration,
    calls: ProxyCalls,
) -> Check {
    if names_socks(url) {
        is_socks_proxy_manager(
            heap,
            state,
            pair.key,
            pair.value,
            configuration,
            calls.parsed,
            calls.extra,
        )
    } else {
        is_http_proxy_manager(heap, state, pair.value, configuration, calls.parsed, calls.extra)
    }
}

/// Whether a manager is the one that the adapter would make for a proxy.
pub fn canonical_proxy_manager_is_pristine(
    heap: &Heap,
    state: &AdapterState,
    url: &str,
    pair: Pair,
    configuration: ProxyManagerConfiguration,
    calls: ProxyCalls,
) -> (check: Check)
    ensures
        check == is_canonical_proxy(*heap, state@, url@, pair, configuration, calls),
{
    if is_socks_url(url) {
        canonical_socks_proxy_manager_is_pristine(
            heap,
            state,
            pair.key,
            pair.value,
            configuration,
            calls.parsed,
            calls.extra,
        )
    } else {
        canonical_http_proxy_manager_is_pristine(
            heap,
            state,
            pair.value,
            configuration,
            calls.parsed,
            calls.extra,
        )
    }
}

/// The record of a manager that is known, or else is the one that the adapter
/// would make.
pub open spec fn visible_record(
    seen: Heap,
    later: Heap,
    state: AdapterView,
    pair: Pair,
    url: Seq<char>,
    expected: Seq<(Seq<char>, RecordView)>,
    configuration: ProxyManagerConfiguration,
    calls: ProxyCalls,
) -> Result<AttemptView, Failure> {
    match value_at(expected, url) {
        Some(known) => if known.manager.manager != pair.value {
            Ok(AttemptView::Refused)
        } else {
            match immutable_pristine(seen, pair.value, known.manager) {
                Err(failure) => Err(failure),
                Ok(false) => Ok(AttemptView::Refused),
                Ok(true) => match stable_pools(seen, later, pair.value) {
                    Err(failure) => Err(failure),
                    Ok(None) => Ok(AttemptView::Again),
                    Ok(Some(pools)) => Ok(
                        AttemptView::Taken(RecordView { manager: known.manager, pools }),
                    ),
                },
            }
        },
        None => match is_canonical_proxy(seen, state, url, pair, configuration, calls) {
            Err(failure) => Err(failure),
            Ok(false) => Ok(AttemptView::Refused),
            Ok(true) => if names_socks(url) {
                match state.socks_pool_classes {
                    None => Ok(AttemptView::Refused),
                    Some(classes) => manager_attempted(
                        seen,
                        later,
                        pair.value,
                        classes,
                        state.key_functions,
                    ),
                }
            } else {
                manager_attempted(
                    seen,
                    later,
                    pair.value,
                    state.http_pool_classes,
                    state.key_functions,
                )
            },
        },
    }
}

/// Takes the record of a manager.
fn take_visible_record(
    seen: &Heap,
    later: &Heap,
    state: &AdapterState,
    pair: Pair,
    url: &str,
    expected: &Vec<ProxyRecord>,
    configuration: ProxyManagerConfiguration,
    calls: ProxyCalls,
) -> (result: Result<ManagerAttempt, Failure>)
    ensures
        match result {
            Ok(attempt) => visible_record(
                *seen,
                *later,
                state@,
                pair,
                url@,
                proxy_views(expected@),
                configuration,
                calls,
            ) == Ok::<AttemptView, Failure>(attempt@),
            Err(failure) => visible_record(
                *seen,
                *later,
                state@,
                pair,
                url@,
                proxy_views(expected@),
                configuration,
                calls,
            ) == Err::<AttemptView, Failure>(failure),
        },
{
    match find_record(expected, url) {
        Some(known) => {
            if known.manager.manager != pair.value {
                return Ok(ManagerAttempt::Refused);
            }
            match manager_immutable_proof_is_pristine(seen, pair.value, &known.manager) {
                Err(failure) => {
                    return Err(failure);
                },
                Ok(pristine) => {
                    if !pristine {
                        return Ok(ManagerAttempt::Refused);
                    }
                },
            }
            match stable_manager_pools_proof(seen, later, pair.value) {
                Err(failure) => Err(failure),
                Ok(None) => Ok(ManagerAttempt::Again),
                Ok(Some(pools)) => Ok(
                    ManagerAttempt::Taken(
                        ManagerRecord {
                            manager: Arc::clone(&known.manager),
                            pools: Arc::new(pools),
                        },
                    ),
                ),
            }
        },
        None => {
            match canonical_proxy_manager_is_pristine(
                seen,
                state,
                url,
                pair,
                configuration,
                calls,
            ) {
                Err(failure) => {
                    return Err(failure);
                },
                Ok(pristine) => {
                    if !pristine {
                        return Ok(ManagerAttempt::Refused);
                    }
                },
            }
            if is_socks_url(url) {
                match &state.socks_pool_classes {
                    None => Ok(ManagerAttempt::Refused),
                    Some(classes) => manager_proof(
                        seen,
                        later,
                        pair.value,
                        classes,
                        &state.key_functions,
                    ),
                }
            } else {
                manager_proof(
                    seen,
                    later,
                    pair.value,
                    &state.http_pool_classes,
                    &state.key_functions,
                )
            }
        },
    }
}

/// The records of the managers of a dict, in order.
pub open spec fn visible_records(
    seen: Heap,
    later: Heap,
    state: AdapterView,
    entries: Seq<Pair>,
    expected: Seq<(Seq<char>, RecordView)>,
    configuration: ProxyManagerConfiguration,
    calls: Seq<ProxyCalls>,
) -> Result<VisibleView, Failure>
    decreases entries.len(),
{
    if entries.len() == 0 {
        Ok(VisibleView::Taken(Seq::empty()))
    } else {
        match visible_records(
            seen,
            later,
            state,
            entries.drop_last(),
            expected,
            configuration,
            calls,
        ) {
            Ok(VisibleView::Taken(before)) => {
                let pair = entries.last();
                if !seen.is_exactly(pair.key, seen.intrinsics.text) {
                    Ok(VisibleView::Refused)
                } else {
                    match seen.text_of(pair.key) {
                        None => Err(Failure::Kind),
                        Some(url) => if entries.len() > calls.len() {
                            Err(Failure::Item)
                        } else {
                            match visible_record(
                                seen,
                                later,
                                state,
                                pair,
                                url,
                                expected,
                                configuration,
                                calls[entries.len() - 1],
                            ) {
                                Err(failure) => Err(failure),
                                Ok(AttemptView::Refused) => Ok(VisibleView::Refused),
                                Ok(AttemptView::Again) => Ok(VisibleView::Again),
                                Ok(AttemptView::Taken(record)) => Ok(
                                    VisibleView::Taken(before.push((url, record))),
                                ),
                            }
                        },
                    }
                }
            },
            other => other,
        }
    }
}

/// What stops the reading of managers stops every longer one.
proof fn lemma_records_stop(
    seen: Heap,
    later: Heap,
    state: AdapterView,
    entries: Seq<Pair>,
    expected: Seq<(Seq<char>, RecordView)>,
    configuration: ProxyManagerConfiguration,
    calls: Seq<ProxyCalls>,
    count: int,
)
    requires
        0 <= count <= entries.len(),
        !(visible_records(
            seen,
            later,
            state,
            entries.take(count),
            expected,
            configuration,
            calls,
        ) matches Ok(VisibleView::Taken(_))),
    ensures
        visible_records(seen, later, state, entries, expected, configuration, calls)
            == visible_records(
            seen,
            later,
            state,
            entries.take(count),
            expected,
            configuration,
            calls,
        ),
    decreases entries.len() - count,
{
    if count < entries.len() {
        assert(entries.take(count + 1).drop_last() =~= entries.take(count));
        lemma_records_stop(
            seen,
            later,
            state,
            entries,
            expected,
            configuration,
            calls,
            count + 1,
        );
    } else {
        assert(entries.take(count) =~= entries);
    }
}

/// What the proxy managers of an adapter came to.
pub enum VisibleAttempt {
    Taken(Vec<ProxyRecord>),
    Refused,
    Again,
}

impl View for VisibleAttempt {
    type V = VisibleView;

    open spec fn view(&self) -> VisibleView {
        match *self {
            VisibleAttempt::Taken(records) => VisibleView::Taken(proxy_views(records@)),
            VisibleAttempt::Refused => VisibleView::Refused,
            VisibleAttempt::Again => VisibleView::Again,
        }
    }
}

/// Takes the records of the managers of a dict.
fn take_visible_records(
    seen: &Heap,
    later: &Heap,
    state: &AdapterState,
    entries: &Vec<Pair>,
    expected: &Vec<ProxyRecord>,
    configuration: ProxyManagerConfiguration,
    calls: &Vec<ProxyCalls>,
) -> (result: Result<VisibleAttempt, Failure>)
    ensures
        match result {
            Ok(attempt) => visible_records(
                *seen,
                *later,
                state@,
                entries@,
                proxy_views(expected@),
                configuration,
                calls@,
            ) == Ok::<VisibleView, Failure>(attempt@),
            Err(failure) => visible_records(
                *seen,
                *later,
                state@,
                entries@,
                proxy_views(expected@),
                configuration,
                calls@,
            ) == Err::<VisibleView, Failure>(failure),
        },
{
    let mut records: Vec<ProxyRecord> = Vec::new();
    let mut index: usize = 0;
    let ghost known = proxy_views(expected@);
    assert(entries@.take(0) =~= Seq::<Pair>::empty());
    assert(proxy_views(records@) =~= Seq::<(Seq<char>, RecordView)>::empty());
    while index < entries.len()
        invariant
            index <= entries.len(),
            known == proxy_views(expected@),
            visible_records(
                *seen,
                *later,
                state@,
                entries@.take(index as int),
                known,
                configuration,
                calls@,
            ) == Ok::<VisibleView, Failure>(VisibleView::Taken(proxy_views(records@))),
        decreases entries.len() - index,
    {
        let ghost before = proxy_views(records@);
        proof {
            assert(entries@.take(index + 1).drop_last() =~= entries@.take(index as int));
            assert(entries@.take(index + 1).last() == entries@[index as int]);
            if !(visible_records(
                *seen,
                *later,
                state@,
                entries@.take(index + 1),
                known,
                configuration,
                calls@,
            ) matches Ok(VisibleView::Taken(_))) {
                lemma_records_stop(
                    *seen,
                    *later,
                    state@,
                    entries@,
                    known,
                    configuration,
                    calls@,
                    index + 1,
                );
            }
        }
        let pair = entries[index];
        if !seen.exactly(pair.key, seen.intrinsics.text) {
            return Ok(VisibleAttempt::Refused);
        }
        let url = match seen.text(pair.key) {
            Some(url) => url,
            None => {
                return Err(Failure::Kind);
            },
        };
        if index >= calls.len() {
            return Err(Failure::Item);
        }
        match take_visible_record(
            seen,
            later,
            state,
            pair,
            url.as_str(),
            expected,
            configuration,
            calls[index],
        ) {
            Err(failure) => {
                return Err(failure);
            },
            Ok(ManagerAttempt::Refused) => {
                return Ok(VisibleAttempt::Refused);
            },
            Ok(ManagerAttempt::Again) => {
                return Ok(VisibleAttempt::Again);
            },
            Ok(ManagerAttempt::Taken(record)) => {
                let taken = ProxyRecord { url: String::from_str(url.as_str()), record };
                records.push(taken);
                assert(proxy_views(records@) =~= before.push((url@, record@)));
            },
        }
        index = index + 1;
    }
    assert(entries@.take(index as int) =~= entries@);
    Ok(VisibleAttempt::Taken(records))
}

/// Whether every expected manager is still there.
pub open spec fn keeps_managers(
    expected: Seq<(Seq<char>, RecordView)>,
    records: Seq<(Seq<char>, RecordView)>,
) -> bool {
    forall|index: int|
        0 <= index < expected.len() ==> (value_at(records, (#[trigger] expected[index]).0) matches Some(
            record,
        ) && record.manager.manager == expected[index].1.manager.manager)
}

/// Whether every expected manager is still there.
fn managers_are_kept(expected: &Vec<ProxyRecord>, records: &Vec<ProxyRecord>) -> (kept: bool)
    ensures
        kept == keeps_managers(proxy_views(expected@), proxy_views(records@)),
{
    let ghost views = proxy_views(expected@);
    let mut index: usize = 0;
    while index < expected.len()
        invariant
            index <= expected.len(),
            views == proxy_views(expected@),
            forall|i: int|
                0 <= i < index ==> (value_at(proxy_views(records@), (#[trigger] views[i]).0)
                    matches Some(record) && record.manager.manager
                    == views[i].1.manager.manager),
        decreases expected.len() - index,
    {
        assert(views[index as int] == (
            expected@[index as int].url@,
            expected@[index as int].record@,
        ));
        match find_record(records, expected[index].url.as_str()) {
            None => {
                return false;
            },
            Some(record) => {
                if record.manager.manager != expected[index].record.manager.manager {
                    return false;
                }
            },
        }
        index = index + 1;
    }
    true
}

/// Whether every record still holds of its manager, asked in order.
pub open spec fn records_pristine(heap: Heap, records: Seq<(Seq<char>, RecordView)>) -> Check
    decreases records.len(),
{
    if records.len() == 0 {
        Ok(true)
    } else {
        both(
            record_pristine(heap, records[0].1.manager.manager, records[0].1),
            records_pristine(heap, records.drop_first()),
        )
    }
}

/// Whether every record still holds of its manager.
fn check_records(heap: &Heap, records: &Vec<ProxyRecord>) -> (check: Check)
    ensures
        check == records_pristine(*heap, proxy_views(records@)),
{
    let mut index: usize = 0;
    let ghost views = proxy_views(records@);
    assert(views.skip(0) =~= views);
    while index < records.len()
        invariant
            index <= records.len(),
            views == proxy_views(records@),
            records_pristine(*heap, views) == records_pristine(*heap, views.skip(index as int)),
        decreases records.len() - index,
    {
        assert(views.skip(index as int).drop_first() =~= views.skip(index + 1));
        assert(views.skip(index as int)[0] == (
            records@[index as int].url@,
            records@[index as int].record@,
        ));
        match manager_proof_is_pristine(
            heap,
            records[index].record.manager.manager,
            &records[index].record,
        ) {
            Ok(true) => {},
            other => {
                return other;
            },
        }
        index = index + 1;
    }
    Ok(true)
}

/// One try at the records of an adapter's proxy managers after the manager of
/// `proxy_url` was asked for: read from one snapshot, they count where they
/// still hold in a later one.
pub open spec fn visible_managers(
    seen: Heap,
    later: Heap,
    state: AdapterView,
    adapter: usize,
    proxy_url: Seq<char>,
    proofs: ProofsView,
    configuration: ProxyManagerConfiguration,
    calls: Seq<ProxyCalls>,
) -> Result<VisibleView, Failure> {
    match seen.attribute_of(adapter, "proxy_manager"@) {
        None => Err(Failure::Attribute),
        Some(proxies) => match exact_dict_of(seen, proxies) {
            None => Ok(VisibleView::Refused),
            Some(entries) => if proxies != proofs.proxy_mapping {
                Ok(VisibleView::Refused)
            } else {
                match visible_records(
                    seen,
                    later,
                    state,
                    entries,
                    proofs.proxy_managers,
                    configuration,
                    calls,
                ) {
                    Ok(VisibleView::Taken(records)) => if value_at(records, proxy_url) is None
                        || !keeps_managers(proofs.proxy_managers, records) {
                        Ok(VisibleView::Refused)
                    } else {
                        match records_pristine(later, records) {
                            Err(failure) => Err(failure),
                            Ok(false) => Ok(VisibleView::Refused),
                            Ok(true) => match later.attribute_of(adapter, "proxy_manager"@) {
                                None => Err(Failure::Attribute),
                                Some(current) => if exact_dict_of(later, current) is None || current
                                    != proofs.proxy_mapping {
                                    Ok(VisibleView::Refused)
                                } else if !still_current(seen, entries, later, current) {
                                    Ok(VisibleView::Again)
                                } else {
                                    Ok(VisibleView::Taken(records))
                                },
                            },
                        }
                    },
                    other => other,
                }
            },
        },
    }
}

/// One try at the records of an adapter's proxy managers.
pub fn record_visible_proxy_manager(
    seen: &Heap,
    later: &Heap,
    state: &AdapterState,
    adapter: usize,
    proxy_url: &str,
    proofs: &EntryProofs,
    configuration: ProxyManagerConfiguration,
    calls: &Vec<ProxyCalls>,
) -> (result: Result<VisibleAttempt, Failure>)
    ensures
        match result {
            Ok(attempt) => visible_managers(
                *seen,
                *later,
                state@,
                adapter,
                proxy_url@,
                proofs@,
                configuration,
                calls@,
            ) == Ok::<VisibleView, Failure>(attempt@),
            Err(failure) => visible_managers(
                *seen,
                *later,
                state@,
                adapter,
                proxy_url@,
                proofs@,
                configuration,
                calls@,
            ) == Err::<VisibleView, Failure>(failure),
        },
{
    let proxies = match seen.attribute(adapter, "proxy_manager") {
        Some(proxies) => proxies,
        None => {
            return Err(Failure::Attribute);
        },
    };
    let entries = match exact_dict(seen, proxies) {
        Some(entries) => entries,
        None => {
            return Ok(VisibleAttempt::Refused);
        },
    };
    if proxies != proofs.proxy_mapping {
        return Ok(VisibleAttempt::Refused);
    }
    let records = match take_visible_records(
        seen,
        later,
        state,
        entries,
        &proofs.proxy_managers,
        configuration,
        calls,
    ) {
        Err(failure) => {
            return Err(failure);
        },
        Ok(VisibleAttempt::Taken(records)) => records,
        Ok(other) => {
            return Ok(other);
        },
    };
    if find_record(&records, proxy_url).is_none() || !managers_are_kept(
        &proofs.proxy_managers,
        &records,
    ) {
        return Ok(VisibleAttempt::Refused);
    }
    match check_records(later, &records) {
        Err(failure) => {
            return Err(failure);
        },
        Ok(pristine) => {
            if !pristine {
                return Ok(VisibleAttempt::Refused);
            }
        },
    }
    let current = match later.attribute(adapter, "proxy_manager") {
        Some(current) => current,
        None => {
            return Err(Failure::Attribute);
        },
    };
    if exact_dict(later, current).is_none() || current != proofs.proxy_mapping {
        return Ok(VisibleAttempt::Refused);
    }
    if !exact_dict_snapshot_is_current(seen, entries, later, current) {
        return Ok(VisibleAttempt::Again);
    }
    Ok(VisibleAttempt::Taken(records))
}

/// The message for an adapter that changed while it was closed.
pub fn closing_changed_message() -> (text: String)
    ensures
        text@ == "adapter pool state changed while closing"@,
{
    String::from_str("adapter pool state changed while closing")
}

/// What is done to the entry of one adapter leaves every other as it was.
pub proof fn law_other_adapters_are_untouched(
    table: Map<usize, EntryView>,
    identity: usize,
    entry: EntryView,
)
    ensures
        table.remove(identity).get(identity) is None,
        table.insert(identity, entry).get(identity) == Some(entry),
        forall|other: usize|
            other != identity ==> #[trigger] table.remove(identity).get(other) == table.get(other),
        forall|other: usize|
            other != identity ==> #[trigger] table.insert(identity, entry).get(other) == table.get(
                other,
            ),
{
}

/// A finding that was made before an adapter was closed is worth nothing
/// afterwards, as long as epochs are not used up.
pub proof fn law_closing_ends_what_was_found(
    registry: Registry,
    identity: usize,
    pools: PoolsView,
    proxy_pools: Seq<PoolsView>,
    revision: u64,
    mapping: usize,
    pristine: bool,
)
    requires
        registry.well_formed(),
        registry.fresh@,
        registry@.contains_key(identity),
    ensures
        ({
            let entry = registry@[identity];
            let closed = closed_entry(entry, registry.next_epoch, pools, proxy_pools);
            &&& confirmed(Some(closed), entry.lifecycle_epoch, revision, mapping, pristine)
                == Confirmation::Answer(false)
            &&& may_commit(Some(closed), entry.lifecycle_epoch, revision) == Commit::Refused
            &&& pool_count(closed) == 0
        }),
{
}

/// Registering an adapter anew ends what was found of the one before it, as long
/// as epochs are not used up.
pub proof fn law_registering_ends_what_was_found(
    registry: Registry,
    identity: usize,
    entry: EntryView,
    revision: u64,
    mapping: usize,
    pristine: bool,
)
    requires
        registry.well_formed(),
        registry.fresh@,
        registry@.contains_key(identity),
        entry.lifecycle_epoch == registry.next_epoch,
    ensures
        confirmed(
            Some(entry),
            registry@[identity].lifecycle_epoch,
            revision,
            mapping,
            pristine,
        ) == Confirmation::Answer(false),
        may_commit(Some(entry), registry@[identity].lifecycle_epoch, revision) == Commit::Refused,
{
}

/// What the closing of an adapter does next.
#[derive(Clone, Copy, Debug, PartialEq, Eq, Structural)]
pub enum CloseCall {
    /// Is the adapter of exactly the remembered class?
    CheckClass,
    /// Read what is known of the adapter.
    Query,
    /// Take the proofs of the managers' pools.
    Prove,
    /// Close the adapter in the registry.
    Commit,
    /// Clear this pool.
    Clear(usize),
    /// Return how many pools were closed.
    Return(usize),
    /// Raise the error for an adapter that changed meanwhile.
    RaiseChanged,
    /// The error goes on.
    RaiseCurrent,
}

/// What happened.
pub enum CloseEvent {
    /// The answer on the adapter's class.
    Exact(bool),
    /// Whether the adapter is registered.
    Registered(bool),
    /// Whether the managers' pools stood still.
    Stable(bool),
    /// What became of the closing in the registry.
    Step(CloseStep),
    Cleared,
    Raised,
}

/// Where the closing of an adapter stands.
pub struct CloseState {
    pub call: CloseCall,
    pub attempts: ProofAttempts,
    /// How many pools were closed.
    pub count: usize,
    /// The pools that were closed.
    pub pools: Vec<usize>,
    /// How many of them are cleared.
    pub cleared: usize,
}

/// What the state of a closing says.
pub struct CloseView {
    pub call: CloseCall,
    pub made: nat,
    pub count: usize,
    pub pools: Seq<usize>,
    pub cleared: nat,
}

impl View for CloseState {
    type V = CloseView;

    open spec fn view(&self) -> CloseView {
        CloseView {
            call: self.call,
            made: self.attempts.made as nat,
            count: self.count,
            pools: self.pools@,
            cleared: self.cleared as nat,
        }
    }
}

/// A closing that looks at the adapter once more, where a try is left.
pub open spec fn tries_to_close(state: CloseView) -> CloseView {
    if state.made < MANAGER_PROOF_ATTEMPTS {
        CloseView { call: CloseCall::Query, made: state.made + 1, ..state }
    } else {
        CloseView { call: CloseCall::RaiseChanged, ..state }
    }
}

/// A closing that goes on with the first pool that is not cleared, or ends.
pub open spec fn clears(state: CloseView) -> CloseView {
    CloseView {
        call: if state.cleared < state.pools.len() {
            CloseCall::Clear(state.pools[state.cleared as int])
        } else {
            CloseCall::Return(state.count)
        },
        ..state
    }
}

/// Where the closing of an adapter stands after something happened.
pub open spec fn next_close(state: CloseView, event: CloseEvent) -> CloseView {
    match (state.call, event) {
        (CloseCall::CheckClass, CloseEvent::Exact(exact)) => if exact {
            tries_to_close(state)
        } else {
            CloseView { call: CloseCall::Return(0), ..state }
        },
        (CloseCall::Query, CloseEvent::Registered(registered)) => CloseView {
            call: if registered {
                CloseCall::Prove
            } else {
                CloseCall::Return(0)
            },
            ..state
        },
        (CloseCall::Prove, CloseEvent::Stable(stable)) => CloseView {
            call: if stable {
                CloseCall::Commit
            } else {
                CloseCall::RaiseChanged
            },
            ..state
        },
        (CloseCall::Commit, CloseEvent::Step(step)) => match step {
            CloseStep::Absent => CloseView { call: CloseCall::Return(0), ..state },
            CloseStep::Changed => CloseView { call: CloseCall::RaiseChanged, ..state },
            CloseStep::Again => tries_to_close(state),
            CloseStep::Closed { count, pools } => clears(
                CloseView { count, pools: pools@, cleared: 0, ..state },
            ),
        },
        (CloseCall::Clear(_), CloseEvent::Cleared) => clears(
            CloseView { cleared: state.cleared + 1, ..state },
        ),
        _ => CloseView { call: CloseCall::RaiseCurrent, ..state },
    }
}

impl CloseState {
    /// No more pools are cleared than were closed, and the one that is cleared
    /// next is the first of the rest.
    pub open spec fn well_formed(&self) -> bool {
        &&& self.cleared <= self.pools@.len()
        &&& self.call is Clear ==> self.cleared < self.pools@.len()
    }

    /// Begins to close an adapter.
    pub fn new() -> (state: Self)
        ensures
            state.well_formed(),
            state@ == (CloseView {
                call: CloseCall::CheckClass,
                made: 0,
                count: 0,
                pools: Seq::empty(),
                cleared: 0,
            }),
    {
        let state = CloseState {
            call: CloseCall::CheckClass,
            attempts: ProofAttempts::new(),
            count: 0,
            pools: Vec::new(),
            cleared: 0,
        };
        assert(state.pools@ =~= Seq::<usize>::empty());
        state
    }

    /// Looks at the adapter once more, where a try is left.
    fn try_again(&mut self)
        requires
            old(self).well_formed(),
        ensures
            final(self)@ == tries_to_close(old(self)@),
            final(self).well_formed(),
    {
        if self.attempts.begin() {
            self.call = CloseCall::Query;
        } else {
            self.call = CloseCall::RaiseChanged;
        }
    }

    /// Goes on with the first pool that is not cleared, or ends.
    fn clear_next(&mut self)
        requires
            old(self).cleared <= old(self).pools@.len(),
        ensures
            final(self)@ == clears(old(self)@),
            final(self).well_formed(),
    {
        if self.cleared < self.pools.len() {
            self.call = CloseCall::Clear(self.pools[self.cleared]);
        } else {
            self.call = CloseCall::Return(self.count);
        }
    }

    /// Goes on after something happened.
    pub fn adapter_close(&mut self, event: CloseEvent)
        requires
            old(self).well_formed(),
        ensures
            final(self)@ == next_close(old(self)@, event),
            final(self).well_formed(),
    {
        match (self.call, event) {
            (CloseCall::CheckClass, CloseEvent::Exact(exact)) => {
                if exact {
                    self.try_again();
                } else {
                    self.call = CloseCall::Return(0);
                }
            },
            (CloseCall::Query, CloseEvent::Registered(registered)) => {
                self.call = if registered {
                    CloseCall::Prove
                } else {
                    CloseCall::Return(0)
                };
            },
            (CloseCall::Prove, CloseEvent::Stable(stable)) => {
                self.call = if stable {
                    CloseCall::Commit
                } else {
                    CloseCall::RaiseChanged
                };
            },
            (CloseCall::Commit, CloseEvent::Step(step)) => match step {
                CloseStep::Absent => {
                    self.call = CloseCall::Return(0);
                },
                CloseStep::Changed => {
                    self.call = CloseCall::RaiseChanged;
                },
                CloseStep::Again => {
                    self.try_again();
                },
                CloseStep::Closed { count, pools } => {
                    self.count = count;
                    self.pools = pools;
                    self.cleared = 0;
                    self.clear_next();
                },
            },
            (CloseCall::Clear(_), CloseEvent::Cleared) => {
                let length: usize = self.pools.len();
                assert(self.cleared < length);
                self.cleared = self.cleared + 1;
                self.clear_next();
            },
            _ => {
                self.call = CloseCall::RaiseCurrent;
            },
        }
    }
}

/// Whether an adapter is of exactly the remembered class, so that its closing
/// closes native pools.
pub fn closes_natively(heap: &Heap, state: &AdapterState, adapter: usize) -> (event: CloseEvent)
    ensures
        event == CloseEvent::Exact(heap.is_exactly(adapter, state.adapter_type)),
{
    CloseEvent::Exact(heap.exactly(adapter, state.adapter_type))
}

/// Where a closing stands after so many pools were cleared.
pub open spec fn close_after(state: CloseView, cleared: nat) -> CloseView
    decreases cleared,
{
    if cleared == 0 {
        state
    } else {
        next_close(close_after(state, (cleared - 1) as nat), CloseEvent::Cleared)
    }
}

/// Each pool of a closed adapter is cleared, in order and once; then the closing
/// returns how many there were.
pub proof fn law_closing_clears_every_pool(
    state: CloseView,
    count: usize,
    pools: Vec<usize>,
    cleared: nat,
)
    requires
        state.call is Commit,
        cleared <= pools@.len(),
    ensures
        ({
            let closed = next_close(state, CloseEvent::Step(CloseStep::Closed { count, pools }));
            close_after(closed, cleared).call == (if cleared < pools@.len() {
                CloseCall::Clear(pools@[cleared as int])
            } else {
                CloseCall::Return(count)
            })
        }),
{
    lemma_clearing(
        next_close(state, CloseEvent::Step(CloseStep::Closed { count, pools })),
        cleared,
    );
}

/// What a closing clears next.
proof fn lemma_clearing(state: CloseView, cleared: nat)
    requires
        state == clears(state),
        state.cleared == 0,
        cleared <= state.pools.len(),
    ensures
        close_after(state, cleared) == clears(CloseView { cleared, ..state }),
    decreases cleared,
{
    if cleared > 0 {
        lemma_clearing(state, (cleared - 1) as nat);
    }
}

/// An adapter of another class, or one that is not registered, closes nothing.
/// One that is registered and closed stays registered, under a new epoch and
/// without pools: closing it again closes none.
pub proof fn law_closing_twice_closes_once(
    table: Map<usize, EntryView>,
    identity: usize,
    entry: EntryView,
    epoch: u64,
    pools: PoolsView,
    proxy_pools: Seq<PoolsView>,
    state: CloseView,
)
    ensures
        state.call is CheckClass ==> next_close(state, CloseEvent::Exact(false)).call
            == CloseCall::Return(0),
        state.call is Query ==> next_close(state, CloseEvent::Registered(false)).call
            == CloseCall::Return(0),
        table.insert(identity, closed_entry(entry, epoch, pools, proxy_pools)).get(identity)
            == Some(closed_entry(entry, epoch, pools, proxy_pools)),
        closed_entry(entry, epoch, pools, proxy_pools).lifecycle_epoch == epoch,
        pool_count(closed_entry(entry, epoch, pools, proxy_pools)) == 0,
        entry_pools(closed_entry(entry, epoch, pools, proxy_pools)) == Seq::<usize>::empty(),
{
    let closed = closed_entry(entry, epoch, pools, proxy_pools);
    law_pools_are_counted(closed);
    assert(entry_pools(closed) =~= Seq::<usize>::empty());
}

/// What the recording of an adapter's managers does next.
#[derive(Clone, Copy, Debug, PartialEq, Eq, Structural)]
pub enum RecordCall {
    /// Read what is known of the adapter.
    Query,
    /// Take the proofs, and replace those that are known by them.
    Replace,
    /// Return whether the managers are recorded.
    Return(bool),
    /// The error goes on.
    RaiseCurrent,
}

/// What happened.
#[derive(Clone, Copy, Debug, PartialEq, Eq, Structural)]
pub enum RecordEvent {
    /// The epoch of the adapter, where it is registered.
    Epoch(Option<u64>),
    /// What became of the replacement.
    Replaced(Commit),
    Raised,
}

/// Where the recording of an adapter's managers stands.
pub struct RecordState {
    pub call: RecordCall,
    pub attempts: ProofAttempts,
    /// The epoch at which the pool was selected.
    pub epoch: u64,
}

/// What the state of a recording says.
pub struct RecordingView {
    pub call: RecordCall,
    pub made: nat,
    pub epoch: u64,
}

impl View for RecordState {
    type V = RecordingView;

    open spec fn view(&self) -> RecordingView {
        RecordingView { call: self.call, made: self.attempts.made as nat, epoch: self.epoch }
    }
}

/// A recording that is tried once more, where a try is left.
pub open spec fn tries_to_record(state: RecordingView) -> RecordingView {
    if state.made < MANAGER_PROOF_ATTEMPTS {
        RecordingView { call: RecordCall::Query, made: state.made + 1, ..state }
    } else {
        RecordingView { call: RecordCall::Return(false), ..state }
    }
}

/// Where a recording begins.
pub open spec fn first_record(epoch: u64) -> RecordingView {
    RecordingView { call: RecordCall::Query, made: 1, epoch }
}

/// Where a recording stands after something happened. It fails where the adapter
/// is gone or of another epoch, or where the replacement is refused, and it is
/// tried again where proofs were replaced meanwhile. One that has ended stays as
/// it is.
pub open spec fn next_record(state: RecordingView, event: RecordEvent) -> RecordingView {
    match (state.call, event) {
        (RecordCall::Return(_), _) => state,
        (RecordCall::Query, RecordEvent::Epoch(epoch)) => RecordingView {
            call: if epoch == Some(state.epoch) {
                RecordCall::Replace
            } else {
                RecordCall::Return(false)
            },
            ..state
        },
        (RecordCall::Replace, RecordEvent::Replaced(commit)) => match commit {
            Commit::Done => RecordingView { call: RecordCall::Return(true), ..state },
            Commit::Refused => RecordingView { call: RecordCall::Return(false), ..state },
            Commit::Again => tries_to_record(state),
        },
        _ => RecordingView { call: RecordCall::RaiseCurrent, ..state },
    }
}

impl RecordState {
    /// Begins to record the managers of an adapter.
    pub fn new(epoch: u64) -> (state: Self)
        ensures
            state@ == first_record(epoch),
    {
        let mut attempts = ProofAttempts::new();
        let more = attempts.begin();
        RecordState { call: RecordCall::Query, attempts, epoch }
    }

    /// Goes on after something happened.
    pub fn record(&mut self, event: RecordEvent)
        ensures
            final(self)@ == next_record(old(self)@, event),
    {
        match (self.call, event) {
            (RecordCall::Return(_), _) => {},
            (RecordCall::Query, RecordEvent::Epoch(epoch)) => {
                self.call = match epoch {
                    Some(epoch) => if epoch == self.epoch {
                        RecordCall::Replace
                    } else {
                        RecordCall::Return(false)
                    },
                    None => RecordCall::Return(false),
                };
            },
            (RecordCall::Replace, RecordEvent::Replaced(Commit::Done)) => {
                self.call = RecordCall::Return(true);
            },
            (RecordCall::Replace, RecordEvent::Replaced(Commit::Refused)) => {
                self.call = RecordCall::Return(false);
            },
            (RecordCall::Replace, RecordEvent::Replaced(Commit::Again)) => {
                self.call = if self.attempts.begin() {
                    RecordCall::Query
                } else {
                    RecordCall::Return(false)
                };
            },
            _ => {
                self.call = RecordCall::RaiseCurrent;
            },
        }
    }
}

/// Where a recording stands after a list of events.
pub open spec fn record_after(epoch: u64, events: Seq<RecordEvent>) -> RecordingView
    decreases events.len(),
{
    if events.len() == 0 {
        first_record(epoch)
    } else {
        next_record(record_after(epoch, events.drop_last()), events.last())
    }
}

/// How often a list of events lets a recording replace proofs.
pub open spec fn replacements(epoch: u64, events: Seq<RecordEvent>) -> nat
    decreases events.len(),
{
    if events.len() == 0 {
        0
    } else {
        replacements(epoch, events.drop_last()) + (if record_after(
            epoch,
            events.drop_last(),
        ).call is Query && record_after(epoch, events).call is Replace {
            1nat
        } else {
            0nat
        })
    }
}

/// A recording replaces proofs at most as often as is allowed, at no other epoch
/// than its own, and it succeeds only where a replacement was done.
pub proof fn law_recording_is_tried_so_often(epoch: u64, events: Seq<RecordEvent>)
    ensures
        replacements(epoch, events) <= record_after(epoch, events).made
            <= MANAGER_PROOF_ATTEMPTS,
        record_after(epoch, events).call is Query ==> replacements(epoch, events) < record_after(
            epoch,
            events,
        ).made,
        record_after(epoch, events).epoch == epoch,
        record_after(epoch, events).call is Replace ==> events.len() > 0 && events.last()
            == RecordEvent::Epoch(Some(epoch)),
        record_after(epoch, events).call == RecordCall::Return(true) ==> events.contains(
            RecordEvent::Replaced(Commit::Done),
        ),
    decreases events.len(),
{
    if events.len() > 0 {
        let before = events.drop_last();
        law_recording_is_tried_so_often(epoch, before);
        if record_after(epoch, events).call == RecordCall::Return(true) {
            if before.contains(RecordEvent::Replaced(Commit::Done)) {
                let place = choose|place: int|
                    0 <= place < before.len() && before[place] == RecordEvent::Replaced(
                        Commit::Done,
                    );
                assert(events[place] == before[place]);
            } else {
                assert(events[events.len() - 1] == RecordEvent::Replaced(Commit::Done));
            }
        }
    }
}

/// What the inspection of a registered adapter does next.
#[derive(Clone, Copy, Debug, PartialEq, Eq, Structural)]
pub enum InspectCall {
    /// Read what is known of the adapter.
    Query,
    /// Hold the adapter against it.
    Inspect,
    /// Ask what the finding is worth.
    Confirm(bool),
    /// Return whether the adapter is what it was.
    Return(bool),
    /// Raise what made an inspection fail.
    Fail(Failure),
    /// The error goes on.
    RaiseCurrent,
}

/// What happened.
#[derive(Clone, Copy, Debug)]
pub enum InspectEvent {
    /// Whether the adapter is registered.
    Registered(bool),
    /// The finding, or none where the adapter changed meanwhile.
    Found(Result<Option<bool>, Failure>),
    Confirmed(Confirmation),
    Raised,
}

/// Where the inspection of a registered adapter stands.
pub struct InspectState {
    pub call: InspectCall,
    pub attempts: ProofAttempts,
}

/// What the state of an inspection says.
pub struct InspectionView {
    pub call: InspectCall,
    pub made: nat,
}

impl View for InspectState {
    type V = InspectionView;

    open spec fn view(&self) -> InspectionView {
        InspectionView { call: self.call, made: self.attempts.made as nat }
    }
}

/// An inspection that is tried once more, where a try is left.
pub open spec fn tries_to_inspect(state: InspectionView) -> InspectionView {
    if state.made < MANAGER_PROOF_ATTEMPTS {
        InspectionView { call: InspectCall::Query, made: state.made + 1 }
    } else {
        InspectionView { call: InspectCall::Return(false), ..state }
    }
}

/// Where an inspection stands after something happened. It is tried again where
/// the adapter or its proofs changed meanwhile. One that has ended stays as it
/// is.
pub open spec fn next_inspection(state: InspectionView, event: InspectEvent) -> InspectionView {
    match (state.call, event) {
        (InspectCall::Return(_), _) => state,
        (InspectCall::Fail(_), _) => state,
        (InspectCall::Query, InspectEvent::Registered(registered)) => InspectionView {
            call: if registered {
                InspectCall::Inspect
            } else {
                InspectCall::Return(false)
            },
            ..state
        },
        (InspectCall::Inspect, InspectEvent::Found(found)) => match found {
            Err(failure) => InspectionView { call: InspectCall::Fail(failure), ..state },
            Ok(None) => tries_to_inspect(state),
            Ok(Some(pristine)) => InspectionView { call: InspectCall::Confirm(pristine), ..state },
        },
        (InspectCall::Confirm(_), InspectEvent::Confirmed(confirmation)) => match confirmation {
            Confirmation::Answer(answer) => InspectionView {
                call: InspectCall::Return(answer),
                ..state
            },
            Confirmation::Again => tries_to_inspect(state),
        },
        _ => InspectionView { call: InspectCall::RaiseCurrent, ..state },
    }
}

impl InspectState {
    /// Begins to inspect an adapter.
    pub fn new() -> (state: Self)
        ensures
            state@ == (InspectionView { call: InspectCall::Query, made: 1 }),
    {
        let mut attempts = ProofAttempts::new();
        let more = attempts.begin();
        InspectState { call: InspectCall::Query, attempts }
    }

    /// Inspects the adapter once more, where a try is left.
    fn try_again(&mut self)
        ensures
            final(self)@ == tries_to_inspect(old(self)@),
    {
        self.call = if self.attempts.begin() {
            InspectCall::Query
        } else {
            InspectCall::Return(false)
        };
    }

    /// Goes on after something happened.
    pub fn inspect(&mut self, event: InspectEvent)
        ensures
            final(self)@ == next_inspection(old(self)@, event),
    {
        match (self.call, event) {
            (InspectCall::Return(_), _) => {},
            (InspectCall::Fail(_), _) => {},
            (InspectCall::Query, InspectEvent::Registered(registered)) => {
                self.call = if registered {
                    InspectCall::Inspect
                } else {
                    InspectCall::Return(false)
                };
            },
            (InspectCall::Inspect, InspectEvent::Found(found)) => match found {
                Err(failure) => {
                    self.call = InspectCall::Fail(failure);
                },
                Ok(None) => {
                    self.try_again();
                },
                Ok(Some(pristine)) => {
                    self.call = InspectCall::Confirm(pristine);
                },
            },
            (InspectCall::Confirm(_), InspectEvent::Confirmed(confirmation)) => match confirmation {
                Confirmation::Answer(answer) => {
                    self.call = InspectCall::Return(answer);
                },
                Confirmation::Again => {
                    self.try_again();
                },
            },
            _ => {
                self.call = InspectCall::RaiseCurrent;
            },
        }
    }
}

/// Where an inspection stands after a list of events.
pub open spec fn inspection_after(events: Seq<InspectEvent>) -> InspectionView
    decreases events.len(),
{
    if events.len() == 0 {
        InspectionView { call: InspectCall::Query, made: 1 }
    } else {
        next_inspection(inspection_after(events.drop_last()), events.last())
    }
}

/// An adapter is found to be what it was only where a finding says so and is
/// confirmed; it is looked at no more often than is allowed.
pub proof fn law_inspections_are_confirmed(events: Seq<InspectEvent>)
    ensures
        1 <= inspection_after(events).made <= MANAGER_PROOF_ATTEMPTS,
        inspection_after(events).call matches InspectCall::Confirm(pristine) ==> events.len() > 0
            && events.last() == InspectEvent::Found(Ok::<Option<bool>, Failure>(Some(pristine))),
        inspection_after(events).call == InspectCall::Return(true) ==> events.contains(
            InspectEvent::Confirmed(Confirmation::Answer(true)),
        ),
    decreases events.len(),
{
    if events.len() > 0 {
        let before = events.drop_last();
        law_inspections_are_confirmed(before);
        if inspection_after(events).call == InspectCall::Return(true) {
            let wanted = InspectEvent::Confirmed(Confirmation::Answer(true));
            if before.contains(wanted) {
                let place = choose|place: int|
                    0 <= place < before.len() && before[place] == wanted;
                assert(events[place] == before[place]);
            } else {
                assert(events[events.len() - 1] == wanted);
            }
        }
    }
}

/// What is put in a realm's place is found there, the other realms stay, and so
/// does everything else about the adapter.
pub proof fn law_realms_are_found_where_they_were_put(
    entry: EntryView,
    proxy: Option<Seq<char>>,
    realm: RealmView,
    other: Option<Seq<char>>,
)
    ensures
        realm_for(with_realm(entry, proxy, realm), proxy) == realm,
        other != proxy ==> realm_for(with_realm(entry, proxy, realm), other) == realm_for(
            entry,
            other,
        ),
        with_realm(entry, proxy, realm).proofs == entry.proofs,
        with_realm(entry, proxy, realm).lifecycle_epoch == entry.lifecycle_epoch,
        with_realm(entry, proxy, realm).admission_revision == entry.admission_revision,
        with_realm(entry, proxy, realm).proof_revision == entry.proof_revision,
        proxy is Some ==> with_realm(entry, proxy, realm).direct_pools == entry.direct_pools,
        proxy is None ==> with_realm(entry, proxy, realm).proxy_pools == entry.proxy_pools,
        entry.proxy_pools.len() == 0 && proxy is Some ==> realm_for(entry, proxy).slots.len() == 0
            && realm_for(entry, proxy).order.len() == 0,
{
    if let Some(url) = proxy {
        let kept = without(entry.proxy_pools, url);
        lemma_without(entry.proxy_pools, url);
        assert(kept.push((url, realm)).drop_last() =~= kept);
        if let Some(second) = other {
            if second != url {
                assert(value_at(kept, second) == value_at(entry.proxy_pools, second));
            }
        }
    }
}

/// The number after a number is another one: one more, or zero where there is no
/// greater one.
pub proof fn law_numbers_go_on(number: u64, other: u64)
    ensures
        next_number(number) != number,
        next_number(number) == next_number(other) ==> number == other,
        next_number(number) == 0 || next_number(number) == number + 1,
        next_number(number) == 0 ==> number == u64::MAX,
{
}

/// An adapter can be registered exactly where it is of the class that was first
/// met, its manager is one of that kind, made as the adapter says, and it has no
/// proxy managers yet.
pub proof fn law_adapters_that_can_be_registered(heap: Heap, state: AdapterView, adapter: usize)
    ensures
        is_registrable(heap, state, adapter) == Ok::<bool, Failure>(true) <==> {
            &&& heap.is_exactly(adapter, state.adapter_type)
            &&& heap.attribute_of(adapter, "poolmanager"@) matches Some(manager)
            &&& manager_identity(heap, state, manager) == Ok::<bool, Failure>(true)
            &&& adapter_configured(heap, adapter, manager) == Ok::<bool, Failure>(true)
            &&& heap.attribute_of(adapter, "proxy_manager"@) matches Some(proxies)
            &&& exact_dict_of(heap, proxies) matches Some(entries)
            &&& entries.len() == 0
        },
{
}

/// Whether a proxy manager is the one that is recorded for its URL, unchanged.
pub open spec fn is_recorded(heap: Heap, pair: Pair, records: Seq<(Seq<char>, RecordView)>) -> bool {
    &&& heap.is_exactly(pair.key, heap.intrinsics.text)
    &&& heap.text_of(pair.key) matches Some(url)
    &&& value_at(records, url) matches Some(record)
    &&& record_pristine(heap, pair.value, record) == Ok::<bool, Failure>(true)
}

/// Proxy managers are what they were exactly where each of them is.
pub proof fn law_proxy_managers_are_what_they_were(
    heap: Heap,
    entries: Seq<Pair>,
    records: Seq<(Seq<char>, RecordView)>,
)
    ensures
        proxies_pristine(heap, entries, records) == Ok::<bool, Failure>(true) <==> forall|index: int|
            0 <= index < entries.len() ==> is_recorded(heap, #[trigger] entries[index], records),
    decreases entries.len(),
{
    if entries.len() > 0 {
        let rest = entries.drop_first();
        law_proxy_managers_are_what_they_were(heap, rest, records);
        assert(proxy_pristine(heap, entries[0], records) == Ok::<bool, Failure>(true)
            <==> is_recorded(heap, entries[0], records));
        if proxies_pristine(heap, entries, records) == Ok::<bool, Failure>(true) {
            assert forall|index: int| 0 <= index < entries.len() implies is_recorded(
                heap,
                #[trigger] entries[index],
                records,
            ) by {
                if index > 0 {
                    assert(rest[index - 1] == entries[index]);
                }
            }
        } else if forall|index: int|
            0 <= index < entries.len() ==> is_recorded(heap, #[trigger] entries[index], records) {
            assert(is_recorded(heap, entries[0], records));
            assert forall|index: int| 0 <= index < rest.len() implies is_recorded(
                heap,
                #[trigger] rest[index],
                records,
            ) by {
                assert(rest[index] == entries[index + 1]);
            }
        }
    }
}

/// Records hold exactly where each holds of its own manager.
pub proof fn law_records_hold_of_their_managers(heap: Heap, records: Seq<(Seq<char>, RecordView)>)
    ensures
        records_pristine(heap, records) == Ok::<bool, Failure>(true) <==> forall|index: int|
            0 <= index < records.len() ==> record_pristine(
                heap,
                (#[trigger] records[index]).1.manager.manager,
                records[index].1,
            ) == Ok::<bool, Failure>(true),
    decreases records.len(),
{
    if records.len() > 0 {
        let rest = records.drop_first();
        law_records_hold_of_their_managers(heap, rest);
        assert(forall|index: int|
            0 <= index < rest.len() ==> #[trigger] rest[index] == records[index + 1]);
        assert(forall|index: int|
            0 < index < records.len() ==> #[trigger] records[index] == rest[index - 1]);
        if records_pristine(heap, records) != Ok::<bool, Failure>(true) {
            if forall|index: int|
                0 <= index < records.len() ==> record_pristine(
                    heap,
                    (#[trigger] records[index]).1.manager.manager,
                    records[index].1,
                ) == Ok::<bool, Failure>(true) {
                assert(records[0] == records[0]);
                assert forall|index: int| 0 <= index < rest.len() implies record_pristine(
                    heap,
                    (#[trigger] rest[index]).1.manager.manager,
                    rest[index].1,
                ) == Ok::<bool, Failure>(true) by {
                    assert(rest[index] == records[index + 1]);
                }
            }
        }
    }
}

/// An adapter is found to be what it was only where each of its managers is: the
/// proxy managers as they are recorded, as many as that, none of them replaced
/// meanwhile, and its own manager, which is still that of the adapter.
pub proof fn law_registered_adapters_are_what_they_were(
    seen: Heap,
    later: Heap,
    state: AdapterView,
    adapter: usize,
    referent: usize,
    proofs: ProofsView,
)
    ensures
        registered_pristine(seen, later, state, adapter, referent, proofs) == Ok::<
            Option<bool>,
            Failure,
        >(Some(true)) <==> {
            &&& seen.attribute_of(adapter, "poolmanager"@) matches Some(manager)
            &&& seen.attribute_of(adapter, "proxy_manager"@) == Some(proofs.proxy_mapping)
            &&& exact_dict_of(seen, proofs.proxy_mapping) matches Some(entries)
            &&& entries.len() == proofs.proxy_managers.len()
            &&& proxies_pristine(seen, entries, proofs.proxy_managers) == Ok::<bool, Failure>(true)
            &&& record_pristine(seen, manager, proofs.manager) == Ok::<bool, Failure>(true)
            &&& later.attribute_of(adapter, "proxy_manager"@) == Some(proofs.proxy_mapping)
            &&& exact_dict_of(later, proofs.proxy_mapping) is Some
            &&& still_current(seen, entries, later, proofs.proxy_mapping)
            &&& referent == adapter
            &&& proofs.manager.manager.manager == manager
            &&& manager_identity(later, state, manager) == Ok::<bool, Failure>(true)
            &&& adapter_configured(later, adapter, manager) == Ok::<bool, Failure>(true)
            &&& later.attribute_of(manager, "pools"@) matches Some(pools)
            &&& length_is(later, pools, proofs.manager.pools.count) == Ok::<bool, Failure>(true)
        },
{
}

/// What was found may be written down exactly where the adapter is registered as
/// it was then and its proofs are those of then. Where only the proofs are newer,
/// it is worth another try.
pub proof fn law_findings_are_worth_something(
    entry: Option<EntryView>,
    epoch: u64,
    revision: u64,
    mapping: usize,
    pristine: bool,
)
    ensures
        may_commit(entry, epoch, revision) == Commit::Done <==> (entry matches Some(known)
            && known.lifecycle_epoch == epoch && known.proof_revision == revision),
        may_commit(entry, epoch, revision) == Commit::Again <==> (entry matches Some(known)
            && known.lifecycle_epoch == epoch && known.proof_revision != revision),
        confirmed(entry, epoch, revision, mapping, pristine) == Confirmation::Again
            <==> may_commit(entry, epoch, revision) == Commit::Again,
        confirmed(entry, epoch, revision, mapping, pristine) == Confirmation::Answer(true)
            <==> pristine && may_commit(entry, epoch, revision) == Commit::Done && (
        entry matches Some(known) && known.proofs.proxy_mapping == mapping),
{
}

/// A proxy's manager is held to the kind that the URL's first letters name,
/// whatever their case.
pub proof fn law_kinds_of_proxies(
    heap: Heap,
    state: AdapterView,
    url: Seq<char>,
    pair: Pair,
    configuration: ProxyManagerConfiguration,
    calls: ProxyCalls,
)
    ensures
        names_socks(url) <==> url.len() >= 5 && lowered(url).take(5) == "socks"@,
        names_socks(url) && is_canonical_proxy(heap, state, url, pair, configuration, calls)
            == Ok::<bool, Failure>(true) ==> heap.attribute_of(pair.value, "proxy_url"@) == Some(
            pair.key,
        ) && heap.is_exactly(pair.value, state.socks_manager.object),
        !names_socks(url) && is_canonical_proxy(heap, state, url, pair, configuration, calls)
            == Ok::<bool, Failure>(true) ==> heap.is_exactly(
            pair.value,
            state.proxy_manager.object,
        ),
{
    reveal_strlit("socks");
    assert("socks"@.len() == 5);
    assert(lowered(url).len() == url.len());
    if names_socks(url) {
        assert(lowered(url).take(5) =~= "socks"@);
    }
    if url.len() >= 5 && lowered(url).take(5) == "socks"@ {
        assert(lowered(url).subrange(0, 5) =~= "socks"@);
    }
}

/// Records of proxy managers stand in the order of the managers, one for each,
/// under its URL, and each is that manager's own.
pub proof fn law_records_stand_in_order(
    seen: Heap,
    later: Heap,
    state: AdapterView,
    entries: Seq<Pair>,
    expected: Seq<(Seq<char>, RecordView)>,
    configuration: ProxyManagerConfiguration,
    calls: Seq<ProxyCalls>,
    records: Seq<(Seq<char>, RecordView)>,
)
    requires
        visible_records(seen, later, state, entries, expected, configuration, calls) == Ok::<
            VisibleView,
            Failure,
        >(VisibleView::Taken(records)),
    ensures
        records.len() == entries.len() <= calls.len() || entries.len() == 0 == records.len(),
        forall|index: int|
            0 <= index < records.len() ==> seen.text_of(entries[index].key) == Some(
                (#[trigger] records[index]).0,
            ),
        forall|index: int|
            0 <= index < records.len() ==> (#[trigger] records[index]).1.manager.manager
                == entries[index].value,
        forall|index: int|
            0 <= index < records.len() ==> (value_at(
                expected,
                (#[trigger] records[index]).0,
            ) matches Some(known) ==> records[index].1.manager == known.manager),
        forall|index: int|
            0 <= index < records.len() ==> (value_at(expected, (#[trigger] records[index]).0)
                is None ==> is_canonical_proxy(
                seen,
                state,
                records[index].0,
                entries[index],
                configuration,
                calls[index],
            ) == Ok::<bool, Failure>(true)),
    decreases entries.len(),
{
    if entries.len() > 0 {
        let front = entries.drop_last();
        match visible_records(seen, later, state, front, expected, configuration, calls) {
            Ok(VisibleView::Taken(before)) => {
                law_records_stand_in_order(
                    seen,
                    later,
                    state,
                    front,
                    expected,
                    configuration,
                    calls,
                    before,
                );
                assert(records.drop_last() =~= before);
                assert(forall|index: int|
                    0 <= index < before.len() ==> #[trigger] records[index] == before[index]
                        && entries[index] == front[index]);
            },
            _ => {},
        }
    }
}

/// Proxy managers are taken as they are seen only where the asked one is among
/// them, none that was known is gone or replaced, and all of them are unchanged
/// later.
pub proof fn law_visible_managers(
    seen: Heap,
    later: Heap,
    state: AdapterView,
    adapter: usize,
    proxy_url: Seq<char>,
    proofs: ProofsView,
    configuration: ProxyManagerConfiguration,
    calls: Seq<ProxyCalls>,
    records: Seq<(Seq<char>, RecordView)>,
)
    ensures
        visible_managers(seen, later, state, adapter, proxy_url, proofs, configuration, calls)
            == Ok::<VisibleView, Failure>(VisibleView::Taken(records)) <==> {
            &&& seen.attribute_of(adapter, "proxy_manager"@) == Some(proofs.proxy_mapping)
            &&& exact_dict_of(seen, proofs.proxy_mapping) matches Some(entries)
            &&& visible_records(
                seen,
                later,
                state,
                entries,
                proofs.proxy_managers,
                configuration,
                calls,
            ) == Ok::<VisibleView, Failure>(VisibleView::Taken(records))
            &&& value_at(records, proxy_url) is Some
            &&& keeps_managers(proofs.proxy_managers, records)
            &&& records_pristine(later, records) == Ok::<bool, Failure>(true)
            &&& later.attribute_of(adapter, "proxy_manager"@) == Some(proofs.proxy_mapping)
            &&& exact_dict_of(later, proofs.proxy_mapping) is Some
            &&& still_current(seen, entries, later, proofs.proxy_mapping)
        },
{
}

/// Every pool of an adapter is among its pools, whether it is reached directly or
/// through a proxy, and no others are.
pub proof fn law_all_pools_are_listed(entry: EntryView, pool: usize)
    ensures
        entry_pools(entry).contains(pool) <==> is_in(entry.direct_pools, pool) || exists|index: int|
            0 <= index < entry.proxy_pools.len() && is_in(
                (#[trigger] entry.proxy_pools[index]).1,
                pool,
            ),
{
    let direct = realm_pools(entry.direct_pools);
    let listed = listed_pools(entry.proxy_pools);
    lemma_in_realm(entry.direct_pools, pool);
    lemma_all_listed(entry.proxy_pools, pool);
    assert(entry_pools(entry) =~= direct + listed);
    if direct.contains(pool) {
        let place = choose|place: int| 0 <= place < direct.len() && direct[place] == pool;
        assert((direct + listed)[place] == pool);
    }
    if listed.contains(pool) {
        let place = choose|place: int| 0 <= place < listed.len() && listed[place] == pool;
        assert((direct + listed)[place + direct.len()] == pool);
    }
    if (direct + listed).contains(pool) {
        let place = choose|place: int|
            0 <= place < (direct + listed).len() && (direct + listed)[place] == pool;
        if place < direct.len() {
            assert(direct[place] == pool);
        } else {
            assert(listed[place - direct.len()] == pool);
        }
    }
}

/// Whether a realm holds a pool.
pub open spec fn is_in(realm: RealmView, pool: usize) -> bool {
    exists|slot: int| 0 <= slot < realm.slots.len() && (#[trigger] realm.slots[slot]).1 == pool
}

proof fn lemma_in_realm(realm: RealmView, pool: usize)
    ensures
        realm_pools(realm).contains(pool) <==> is_in(realm, pool),
{
    let pools = realm_pools(realm);
    if pools.contains(pool) {
        let place = choose|place: int| 0 <= place < pools.len() && pools[place] == pool;
        assert(realm.slots[place].1 == pool);
    }
    if is_in(realm, pool) {
        let slot = choose|slot: int|
            0 <= slot < realm.slots.len() && (#[trigger] realm.slots[slot]).1 == pool;
        assert(pools[slot] == pool);
    }
}

proof fn lemma_all_listed(pools: Seq<(Seq<char>, RealmView)>, pool: usize)
    ensures
        listed_pools(pools).contains(pool) <==> exists|index: int|
            0 <= index < pools.len() && is_in((#[trigger] pools[index]).1, pool),
    decreases pools.len(),
{
    if pools.len() > 0 {
        let front = pools.drop_last();
        let before = listed_pools(front);
        let last = realm_pools(pools.last().1);
        lemma_all_listed(front, pool);
        lemma_in_realm(pools.last().1, pool);
        assert(listed_pools(pools) =~= before + last);
        if (before + last).contains(pool) {
            let place = choose|place: int|
                0 <= place < (before + last).len() && (before + last)[place] == pool;
            if place < before.len() {
                assert(before[place] == pool);
                let index = choose|index: int|
                    0 <= index < front.len() && is_in((#[trigger] front[index]).1, pool);
                assert(is_in(pools[index].1, pool));
            } else {
                assert(last[place - before.len()] == pool);
                assert(is_in(pools[pools.len() - 1].1, pool));
            }
        }
        if exists|index: int| 0 <= index < pools.len() && is_in((#[trigger] pools[index]).1, pool) {
            let index = choose|index: int|
                0 <= index < pools.len() && is_in((#[trigger] pools[index]).1, pool);
            if index < front.len() {
                assert(is_in(front[index].1, pool));
                let place = choose|place: int| 0 <= place < before.len() && before[place] == pool;
                assert((before + last)[place] == pool);
            } else {
                let place = choose|place: int| 0 <= place < last.len() && last[place] == pool;
                assert((before + last)[place + before.len()] == pool);
            }
        }
    }
}

/// A closed adapter keeps its managers, each with its own newly seen pools, and
/// what was found of it before is out of date.
pub proof fn law_closed_adapters_keep_their_managers(
    entry: EntryView,
    epoch: u64,
    pools: PoolsView,
    proxy_pools: Seq<PoolsView>,
)
    ensures
        ({
            let closed = closed_entry(entry, epoch, pools, proxy_pools);
            &&& closed.proof_revision != entry.proof_revision
            &&& closed.admission_revision == entry.admission_revision
            &&& closed.proofs.weak_adapter == entry.proofs.weak_adapter
            &&& closed.proofs.proxy_mapping == entry.proofs.proxy_mapping
            &&& closed.proofs.manager.manager == entry.proofs.manager.manager
            &&& closed.proofs.manager.pools == pools
            &&& closed.proofs.proxy_managers.len() == entry.proofs.proxy_managers.len()
            &&& forall|index: int|
                0 <= index < closed.proofs.proxy_managers.len() ==> (
                #[trigger] closed.proofs.proxy_managers[index]).0
                    == entry.proofs.proxy_managers[index].0
                    && closed.proofs.proxy_managers[index].1.manager
                    == entry.proofs.proxy_managers[index].1.manager
                    && closed.proofs.proxy_managers[index].1.pools == proxy_pools[index]
            &&& managers_of(closed.proofs.proxy_managers) == managers_of(
                entry.proofs.proxy_managers,
            )
        }),
{
    let closed = closed_entry(entry, epoch, pools, proxy_pools);
    assert(managers_of(closed.proofs.proxy_managers) =~= managers_of(entry.proofs.proxy_managers));
}

/// An adapter is closed in this order: its class is asked for, it is looked up,
/// its managers are proved, the closing is committed. It is closed as often as it
/// takes, up to a limit, and what is left open is an error.
pub proof fn law_closing_takes_its_course(state: CloseView, event: CloseEvent)
    ensures
        state.call is CheckClass && event == CloseEvent::Exact(true) && state.made
            < MANAGER_PROOF_ATTEMPTS ==> next_close(state, event).call is Query && next_close(
            state,
            event,
        ).made == state.made + 1,
        state.call is Query && event == CloseEvent::Registered(true) ==> next_close(
            state,
            event,
        ).call is Prove,
        state.call is Prove && event == CloseEvent::Stable(true) ==> next_close(state, event).call
            is Commit,
        state.call is Prove && event == CloseEvent::Stable(false) ==> next_close(state, event).call
            is RaiseChanged,
        state.call is Commit && event == CloseEvent::Step(CloseStep::Changed) ==> next_close(
            state,
            event,
        ).call is RaiseChanged,
        state.call is Commit && event == CloseEvent::Step(CloseStep::Absent) ==> next_close(
            state,
            event,
        ).call == CloseCall::Return(0),
        state.call is Commit && event == CloseEvent::Step(CloseStep::Again) ==> next_close(
            state,
            event,
        ).call == (if state.made < MANAGER_PROOF_ATTEMPTS {
            CloseCall::Query
        } else {
            CloseCall::RaiseChanged
        }),
        next_close(state, event).call is Commit ==> state.call is Prove && event
            == CloseEvent::Stable(true),
        next_close(state, event).call is Prove ==> state.call is Query && event
            == CloseEvent::Registered(true),
        next_close(state, event).made != state.made ==> next_close(state, event).call is Query
            && next_close(state, event).made == state.made + 1 && state.made
            < MANAGER_PROOF_ATTEMPTS,
        event is Raised ==> next_close(state, event).call is RaiseCurrent,
{
}

/// Recording goes on exactly so: a replacement is made only at the epoch of the
/// selection, what it gave decides, and a newer proof leads to another try while
/// there is one left.
pub proof fn law_recording_takes_its_course(state: RecordingView, event: RecordEvent)
    ensures
        state.call is Query && event == RecordEvent::Epoch(Some(state.epoch)) ==> next_record(
            state,
            event,
        ).call is Replace,
        state.call is Query ==> (event matches RecordEvent::Epoch(epoch) ==> epoch != Some(
            state.epoch,
        ) ==> next_record(state, event).call == RecordCall::Return(false)),
        state.call is Replace && event == RecordEvent::Replaced(Commit::Done) ==> next_record(
            state,
            event,
        ).call == RecordCall::Return(true),
        state.call is Replace && event == RecordEvent::Replaced(Commit::Refused) ==> next_record(
            state,
            event,
        ).call == RecordCall::Return(false),
        state.call is Replace && event == RecordEvent::Replaced(Commit::Again) ==> next_record(
            state,
            event,
        ).call == (if state.made < MANAGER_PROOF_ATTEMPTS {
            RecordCall::Query
        } else {
            RecordCall::Return(false)
        }),
        !(state.call is Return) && event is Raised ==> next_record(state, event).call
            is RaiseCurrent,
{
}

/// Inspecting goes on exactly so: only a registered adapter is inspected, what was
/// found is what is confirmed, what is confirmed is returned, and a change
/// meanwhile leads to another try while there is one left.
pub proof fn law_inspecting_takes_its_course(state: InspectionView, event: InspectEvent)
    ensures
        state.call is Query ==> (event == InspectEvent::Registered(true) <==> next_inspection(
            state,
            event,
        ).call is Inspect),
        state.call is Query && event == InspectEvent::Registered(false) ==> next_inspection(
            state,
            event,
        ).call == InspectCall::Return(false),
        state.call is Inspect ==> (event matches InspectEvent::Found(Err(failure))
            ==> next_inspection(state, event).call == InspectCall::Fail(failure)),
        state.call is Inspect ==> (event matches InspectEvent::Found(Ok(Some(pristine)))
            ==> next_inspection(state, event).call == InspectCall::Confirm(pristine)),
        state.call is Confirm ==> (event matches InspectEvent::Confirmed(
            Confirmation::Answer(answer),
        ) ==> next_inspection(state, event).call == InspectCall::Return(answer)),
        (state.call is Inspect && event == InspectEvent::Found(Ok::<Option<bool>, Failure>(None)))
            || (state.call is Confirm && event == InspectEvent::Confirmed(Confirmation::Again))
            ==> next_inspection(state, event).call == (if state.made < MANAGER_PROOF_ATTEMPTS {
            InspectCall::Query
        } else {
            InspectCall::Return(false)
        }),
        (state.call is Query || state.call is Inspect || state.call is Confirm) && event is Raised
            ==> next_inspection(state, event).call is RaiseCurrent,
{
}

/// The words of the four refusals differ.
pub proof fn law_refusals_are_told_apart(refusal: PoolRefusal, other: PoolRefusal)
    ensures
        refusal.words() == other.words() ==> refusal == other,
{
    reveal_strlit("adapter was not registered at initialization");
    reveal_strlit("visible pool manager identity changed");
    reveal_strlit("adapter pool state disappeared during admission");
    reveal_strlit("adapter pool state changed during admission");
    assert(PoolRefusal::NotRegistered.words().len() == 44);
    assert(PoolRefusal::IdentityChanged.words().len() == 37);
    assert(PoolRefusal::Disappeared.words().len() == 47);
    assert(PoolRefusal::Changed.words().len() == 43);
}

/// Each pool refusal has its own words.
pub proof fn law_words_of_pool_refusal()
    ensures
        PoolRefusal::NotRegistered.words() == "adapter was not registered at initialization"@,
        PoolRefusal::IdentityChanged.words() == "visible pool manager identity changed"@,
        PoolRefusal::Disappeared.words() == "adapter pool state disappeared during admission"@,
        PoolRefusal::Changed.words() == "adapter pool state changed during admission"@,
{
}

} // verus!
