//! The native connection pools of an adapter, the least recently used of which
//! are given up first.

use vstd::prelude::*;
use vstd::string::StringExecFns;

use crate::tables::{lemma_one_fewer, lemma_place_has_value, lemma_value_has_place, lemma_without};
use crate::tables::{value_at, without};
use crate::text::same_text;
use crate::text::text_views;

verus! {

/// A pool under its key. The pool is known by a number.
pub struct PoolSlot {
    pub key: String,
    pub pool: usize,
}

/// The pools that connect directly, or through one proxy.
pub struct PoolRealm {
    pub slots: Vec<PoolSlot>,
    /// The keys, the least recently used first.
    pub order: Vec<String>,
}

/// What a realm holds.
pub struct RealmView {
    pub slots: Seq<(Seq<char>, usize)>,
    pub order: Seq<Seq<char>>,
}

/// What a list of slots holds.
pub open spec fn slot_views(slots: Seq<PoolSlot>) -> Seq<(Seq<char>, usize)> {
    slots.map_values(|slot: PoolSlot| (slot.key@, slot.pool))
}

impl View for PoolRealm {
    type V = RealmView;

    open spec fn view(&self) -> RealmView {
        RealmView { slots: slot_views(self.slots@), order: text_views(self.order@) }
    }
}

/// The other texts of a list.
pub open spec fn without_text(texts: Seq<Seq<char>>, text: Seq<char>) -> Seq<Seq<char>>
    decreases texts.len(),
{
    if texts.len() == 0 {
        texts
    } else if texts.last() == text {
        without_text(texts.drop_last(), text)
    } else {
        without_text(texts.drop_last(), text).push(texts.last())
    }
}

/// A realm with room for one more pool, and the pools that were given up for
/// it, the least recently used first.
pub open spec fn made_room(realm: RealmView, connections: nat) -> (RealmView, Seq<usize>)
    decreases realm.order.len(),
{
    if connections > 0 && realm.slots.len() >= connections && realm.order.len() > 0 {
        let key = realm.order[0];
        let (rest, evicted) = made_room(
            RealmView {
                slots: without(realm.slots, key),
                order: realm.order.drop_first(),
            },
            connections,
        );
        match value_at(realm.slots, key) {
            Some(pool) => (rest, seq![pool] + evicted),
            None => (rest, evicted),
        }
    } else {
        (realm, Seq::empty())
    }
}

/// The order after a key was used. Where no connection may be kept, neither is
/// its place.
pub open spec fn used(order: Seq<Seq<char>>, key: Seq<char>, connections: nat) -> Seq<Seq<char>> {
    if connections > 0 {
        without_text(order, key).push(key)
    } else {
        without_text(order, key)
    }
}

/// What becomes of a realm when the pool of a key is asked for.
pub struct Admitted {
    pub realm: RealmView,
    pub pool: usize,
    pub evicted: Seq<usize>,
}

/// The pool of a key: the one that there is, else the candidate, for which the
/// least recently used are given up.
pub open spec fn admitted(realm: RealmView, key: Seq<char>, connections: nat, candidate: usize) -> Admitted {
    match value_at(realm.slots, key) {
        Some(pool) => Admitted {
            realm: RealmView { slots: realm.slots, order: used(realm.order, key, connections) },
            pool,
            evicted: Seq::empty(),
        },
        None => {
            let (roomy, evicted) = made_room(realm, connections);
            Admitted {
                realm: RealmView {
                    slots: if connections > 0 {
                        without(roomy.slots, key).push((key, candidate))
                    } else {
                        roomy.slots
                    },
                    order: used(roomy.order, key, connections),
                },
                pool: candidate,
                evicted,
            }
        },
    }
}

impl PoolRealm {
    /// A realm without pools.
    pub fn new() -> (realm: Self)
        ensures
            realm@.slots == Seq::<(Seq<char>, usize)>::empty(),
            realm@.order == Seq::<Seq<char>>::empty(),
            is_ordered(realm@),
    {
        let realm = PoolRealm { slots: Vec::new(), order: Vec::new() };
        assert(realm@.slots =~= Seq::<(Seq<char>, usize)>::empty());
        assert(realm@.order =~= Seq::<Seq<char>>::empty());
        realm
    }

    /// The pool of a key.
    pub fn pool(&self, key: &str) -> (pool: Option<usize>)
        ensures
            pool == value_at(self@.slots, key@),
    {
        let mut index: usize = self.slots.len();
        let ghost views = self@.slots;
        assert(views.take(index as int) =~= views);
        while index > 0
            invariant
                index <= self.slots.len(),
                views == self@.slots,
                value_at(views, key@) == value_at(views.take(index as int), key@),
            decreases index,
        {
            index = index - 1;
            assert(views.take(index + 1).drop_last() =~= views.take(index as int));
            assert(views.take(index + 1).last() == (
                self.slots@[index as int].key@,
                self.slots@[index as int].pool,
            ));
            if same_text(self.slots[index].key.as_str(), key) {
                return Some(self.slots[index].pool);
            }
        }
        None
    }

    /// Takes the slots of a key away.
    fn remove(&mut self, key: &str)
        ensures
            final(self)@ == (RealmView {
                slots: without(old(self)@.slots, key@),
                order: old(self)@.order,
            }),
    {
        let ghost views = self@.slots;
        let ghost order = self.order@;
        let mut kept: Vec<PoolSlot> = Vec::new();
        let mut index: usize = 0;
        assert(slot_views(kept@) =~= Seq::<(Seq<char>, usize)>::empty());
        assert(views.take(0) =~= Seq::<(Seq<char>, usize)>::empty());
        while index < self.slots.len()
            invariant
                index <= self.slots.len(),
                views == self@.slots,
                order == self.order@,
                slot_views(kept@) == without(views.take(index as int), key@),
            decreases self.slots.len() - index,
        {
            let ghost before = slot_views(kept@);
            proof {
                assert(views.take(index + 1).drop_last() =~= views.take(index as int));
                assert(views.take(index + 1).last() == (
                    self.slots@[index as int].key@,
                    self.slots@[index as int].pool,
                ));
            }
            if !same_text(self.slots[index].key.as_str(), key) {
                kept.push(
                    PoolSlot {
                        key: String::from_str(self.slots[index].key.as_str()),
                        pool: self.slots[index].pool,
                    },
                );
                assert(slot_views(kept@) =~= before.push(views[index as int]));
            }
            index = index + 1;
        }
        assert(views.take(index as int) =~= views);
        self.slots = kept;
    }

    /// Gives up the least recently used pools until there is room for one more.
    fn make_room(&mut self, connections: usize) -> (evicted: Vec<usize>)
        ensures
            made_room(old(self)@, connections as nat) == (final(self)@, evicted@),
    {
        let mut evicted: Vec<usize> = Vec::new();
        let ghost start = self@;
        while connections > 0 && self.slots.len() >= connections && self.order.len() > 0
            invariant
                made_room(start, connections as nat).0 == made_room(self@, connections as nat).0,
                made_room(start, connections as nat).1 == evicted@ + made_room(
                    self@,
                    connections as nat,
                ).1,
            decreases self.order.len(),
        {
            let ghost before = self@;
            let ghost gone = evicted@;
            let key = self.order.remove(0);
            assert(self@.order =~= before.order.drop_first());
            assert(key@ == before.order[0]);
            match self.pool(key.as_str()) {
                Some(pool) => {
                    evicted.push(pool);
                },
                None => {},
            }
            self.remove(key.as_str());
            proof {
                let rest = made_room(self@, connections as nat);
                match value_at(before.slots, key@) {
                    Some(pool) => {
                        assert(gone + (seq![pool] + rest.1) =~= evicted@ + rest.1);
                    },
                    None => {},
                }
            }
        }
        assert(evicted@ + Seq::<usize>::empty() =~= evicted@);
        evicted
    }

    /// Puts a key at the end of the order, where a connection may be kept.
    fn touch(&mut self, key: &str, connections: usize)
        ensures
            final(self)@ == (RealmView {
                slots: old(self)@.slots,
                order: used(old(self)@.order, key@, connections as nat),
            }),
    {
        let ghost views = self@.order;
        let mut kept: Vec<String> = Vec::new();
        let mut index: usize = 0;
        assert(text_views(kept@) =~= Seq::<Seq<char>>::empty());
        assert(views.take(0) =~= Seq::<Seq<char>>::empty());
        while index < self.order.len()
            invariant
                index <= self.order.len(),
                views == self@.order,
                text_views(kept@) == without_text(views.take(index as int), key@),
            decreases self.order.len() - index,
        {
            let ghost before = text_views(kept@);
            proof {
                assert(views.take(index + 1).drop_last() =~= views.take(index as int));
                assert(views.take(index + 1).last() == self.order@[index as int]@);
            }
            if !same_text(self.order[index].as_str(), key) {
                kept.push(String::from_str(self.order[index].as_str()));
                assert(text_views(kept@) =~= before.push(views[index as int]));
            }
            index = index + 1;
        }
        assert(views.take(index as int) =~= views);
        if connections > 0 {
            let ghost before = text_views(kept@);
            kept.push(String::from_str(key));
            assert(text_views(kept@) =~= before.push(key@));
        }
        self.order = kept;
    }

    /// Asks for the pool of a key. A candidate is needed where there is none.
    pub fn obtain(&mut self, key: &str, connections: usize, candidate: Option<usize>) -> (result: (
        usize,
        Vec<usize>,
    ))
        requires
            is_well_formed(old(self)@),
            candidate is Some || value_at(old(self)@.slots, key@) is Some,
        ensures
            is_well_formed(final(self)@),
            is_ordered(old(self)@) && (connections > 0 || value_at(old(self)@.slots, key@) is None)
                ==> is_ordered(final(self)@),
            ({
                let expected = admitted(
                    old(self)@,
                    key@,
                    connections as nat,
                    match candidate {
                        Some(candidate) => candidate,
                        None => 0,
                    },
                );
                final(self)@ == expected.realm && result.0 == expected.pool && result.1@
                    == expected.evicted
            }),
    {
        proof {
            lemma_admission_is_well_formed(
                self@,
                key@,
                connections as nat,
                match candidate {
                    Some(candidate) => candidate,
                    None => 0,
                },
            );
        }
        match self.pool(key) {
            Some(pool) => {
                self.touch(key, connections);
                let evicted: Vec<usize> = Vec::new();
                assert(evicted@ =~= Seq::<usize>::empty());
                (pool, evicted)
            },
            None => {
                let candidate: usize = match candidate {
                    Some(candidate) => candidate,
                    None => 0,
                };
                let evicted = self.make_room(connections);
                if connections > 0 {
                    self.remove(key);
                    let ghost before = self@.slots;
                    self.slots.push(PoolSlot { key: String::from_str(key), pool: candidate });
                    assert(self@.slots =~= before.push((key@, candidate)));
                }
                self.touch(key, connections);
                (candidate, evicted)
            },
        }
    }

    /// The pools of this realm.
    pub fn pools(&self) -> (pools: Vec<usize>)
        ensures
            pools@ == self@.slots.map_values(|slot: (Seq<char>, usize)| slot.1),
    {
        let mut pools: Vec<usize> = Vec::new();
        let mut index: usize = 0;
        while index < self.slots.len()
            invariant
                index <= self.slots.len(),
                pools@ == self@.slots.take(index as int).map_values(
                    |slot: (Seq<char>, usize)| slot.1,
                ),
            decreases self.slots.len() - index,
        {
            pools.push(self.slots[index].pool);
            index = index + 1;
            assert(pools@ =~= self@.slots.take(index as int).map_values(
                |slot: (Seq<char>, usize)| slot.1,
            ));
        }
        assert(self@.slots.take(index as int) =~= self@.slots);
        pools
    }
}

/// Whether no key occurs twice, neither among the slots nor in the order, and
/// every key in the order has its pool.
pub open spec fn is_well_formed(realm: RealmView) -> bool {
    &&& forall|first: int, second: int|
        0 <= first < second < realm.order.len() ==> realm.order[first] != realm.order[second]
    &&& forall|first: int, second: int|
        0 <= first < second < realm.slots.len() ==> (#[trigger] realm.slots[first]).0 != (
        #[trigger] realm.slots[second]).0
    &&& forall|index: int|
        0 <= index < realm.order.len() ==> value_at(realm.slots, #[trigger] realm.order[index])
            is Some
}

/// Whether, besides, every slot's key has its place in the order. That is lost
/// for a key whose pool is used while no connection may be kept.
pub open spec fn is_ordered(realm: RealmView) -> bool {
    &&& is_well_formed(realm)
    &&& realm.order.len() == realm.slots.len()
    &&& forall|index: int|
        0 <= index < realm.slots.len() ==> realm.order.contains((#[trigger] realm.slots[index]).0)
}

/// A text that is not in a list is not taken away from it.
proof fn lemma_without_text(texts: Seq<Seq<char>>, text: Seq<char>)
    ensures
        !texts.contains(text) ==> without_text(texts, text) == texts,
        !without_text(texts, text).contains(text),
        forall|other: Seq<char>|
            other != text ==> #[trigger] without_text(texts, text).contains(other)
                == texts.contains(other),
    decreases texts.len(),
{
    if texts.len() > 0 {
        let rest = texts.drop_last();
        lemma_without_text(rest, text);
        let kept = without_text(rest, text);
        let result = without_text(texts, text);
        if texts.last() == text {
            assert(texts[texts.len() - 1] == text);
            assert(texts.contains(text));
            assert forall|other: Seq<char>| other != text implies #[trigger] result.contains(other)
                == texts.contains(other) by {
                assert(result.contains(other) == rest.contains(other));
                if rest.contains(other) {
                    let at = choose|at: int| 0 <= at < rest.len() && rest[at] == other;
                    assert(texts[at] == other);
                }
                if texts.contains(other) {
                    let at = choose|at: int| 0 <= at < texts.len() && texts[at] == other;
                    assert(rest[at] == other);
                }
            }
        } else {
            assert(result == kept.push(texts.last()));
            if !texts.contains(text) {
                assert(!rest.contains(text)) by {
                    if rest.contains(text) {
                        let at = choose|at: int| 0 <= at < rest.len() && rest[at] == text;
                        assert(texts[at] == text);
                    }
                }
                assert(result =~= texts);
            }
            assert(!result.contains(text)) by {
                if result.contains(text) {
                    let at = choose|at: int| 0 <= at < result.len() && result[at] == text;
                    assert(at < kept.len());
                    assert(kept[at] == text);
                }
            }
            assert forall|other: Seq<char>| other != text implies #[trigger] result.contains(other)
                == texts.contains(other) by {
                assert(kept.contains(other) == rest.contains(other));
                if result.contains(other) {
                    let at = choose|at: int| 0 <= at < result.len() && result[at] == other;
                    if at < kept.len() {
                        assert(kept[at] == other);
                        let place = choose|place: int|
                            0 <= place < rest.len() && rest[place] == other;
                        assert(texts[place] == other);
                    } else {
                        assert(texts[texts.len() - 1] == other);
                    }
                }
                if texts.contains(other) {
                    let at = choose|at: int| 0 <= at < texts.len() && texts[at] == other;
                    if at < rest.len() {
                        assert(rest[at] == other);
                        let place = choose|place: int|
                            0 <= place < kept.len() && kept[place] == other;
                        assert(result[place] == other);
                    } else {
                        assert(result[kept.len() as int] == other);
                    }
                }
            }
        }
    }
}

/// Taking a text out of distinct ones leaves distinct ones, one fewer.
proof fn lemma_without_one_text(texts: Seq<Seq<char>>, text: Seq<char>)
    requires
        forall|first: int, second: int|
            0 <= first < second < texts.len() ==> texts[first] != texts[second],
    ensures
        forall|first: int, second: int|
            0 <= first < second < without_text(texts, text).len() ==> without_text(
                texts,
                text,
            )[first] != without_text(texts, text)[second],
        without_text(texts, text).len() == (if texts.contains(text) {
            texts.len() - 1
        } else {
            texts.len() as int
        }),
    decreases texts.len(),
{
    if texts.len() > 0 {
        let rest = texts.drop_last();
        lemma_without_one_text(rest, text);
        lemma_without_text(rest, text);
        let kept = without_text(rest, text);
        let result = without_text(texts, text);
        if texts.last() == text {
            assert(texts[texts.len() - 1] == text);
            assert(!rest.contains(text)) by {
                if rest.contains(text) {
                    let at = choose|at: int| 0 <= at < rest.len() && rest[at] == text;
                    assert(texts[at] != texts[texts.len() - 1]);
                }
            }
        } else {
            assert(rest.contains(text) == texts.contains(text)) by {
                if texts.contains(text) {
                    let at = choose|at: int| 0 <= at < texts.len() && texts[at] == text;
                    assert(rest[at] == text);
                }
                if rest.contains(text) {
                    let at = choose|at: int| 0 <= at < rest.len() && rest[at] == text;
                    assert(texts[at] == text);
                }
            }
            assert(!kept.contains(texts.last())) by {
                if kept.contains(texts.last()) {
                    assert(rest.contains(texts.last()));
                    let at = choose|at: int| 0 <= at < rest.len() && rest[at] == texts.last();
                    assert(texts[at] != texts[texts.len() - 1]);
                }
            }
            assert forall|first: int, second: int| 0 <= first < second < result.len() implies
                result[first] != result[second] by {
                if second == kept.len() {
                    assert(kept[first] == result[first]);
                    if result[first] == result[second] {
                        assert(kept.contains(texts.last()));
                    }
                } else {
                    assert(kept[first] == result[first]);
                    assert(kept[second] == result[second]);
                }
            }
        }
    }
}

/// Giving up the least recently used pool leaves the rest as it should be.
proof fn lemma_eviction_keeps_order(realm: RealmView)
    requires
        is_well_formed(realm),
        realm.order.len() > 0,
    ensures
        ({
            let rest = RealmView {
                slots: without(realm.slots, realm.order[0]),
                order: realm.order.drop_first(),
            };
            &&& is_well_formed(rest)
            &&& is_ordered(realm) ==> is_ordered(rest)
        }),
        value_at(realm.slots, realm.order[0]) is Some,
        without(realm.slots, realm.order[0]).len() == realm.slots.len() - 1,
{
    let key = realm.order[0];
    let slots = without(realm.slots, key);
    let order = realm.order.drop_first();
    assert(value_at(realm.slots, realm.order[0]) is Some);
    lemma_one_fewer(realm.slots, key);
    lemma_without(realm.slots, key);
    assert forall|index: int| 0 <= index < slots.len() && is_ordered(realm) implies order.contains(
        (#[trigger] slots[index]).0,
    ) by {
        let at = choose|at: int| 0 <= at < realm.slots.len() && realm.slots[at] == slots[index];
        assert(realm.order.contains(realm.slots[at].0));
        let place = choose|place: int|
            0 <= place < realm.order.len() && realm.order[place] == slots[index].0;
        assert(place != 0);
        assert(order[place - 1] == slots[index].0);
    }
    assert forall|index: int| 0 <= index < order.len() implies value_at(
        slots,
        #[trigger] order[index],
    ) is Some by {
        assert(order[index] == realm.order[index + 1]);
        assert(realm.order[0] != realm.order[index + 1]);
        assert(value_at(realm.slots, realm.order[index + 1]) is Some);
    }
    assert forall|first: int, second: int| 0 <= first < second < order.len() implies order[first]
        != order[second] by {
        assert(realm.order[first + 1] != realm.order[second + 1]);
    }
}

/// Using a key leaves a realm as it should be, where its pool is there.
proof fn lemma_use_keeps_order(realm: RealmView, key: Seq<char>, connections: nat)
    requires
        is_well_formed(realm),
        value_at(realm.slots, key) is Some,
    ensures
        ({
            let later = RealmView {
                slots: realm.slots,
                order: used(realm.order, key, connections),
            };
            &&& is_well_formed(later)
            &&& connections > 0 && is_ordered(realm) ==> is_ordered(later)
            &&& connections > 0 ==> later.order.last() == key
        }),
{
    let order = used(realm.order, key, connections);
    let kept = without_text(realm.order, key);
    let at = lemma_value_has_place(realm.slots, key);
    if is_ordered(realm) {
        assert(realm.order.contains(realm.slots[at].0));
    }
    lemma_without_one_text(realm.order, key);
    lemma_without_text(realm.order, key);
    assert forall|index: int|
        0 <= index < realm.slots.len() && connections > 0 && is_ordered(
            realm,
        ) implies order.contains((#[trigger] realm.slots[index]).0) by {
        let own = realm.slots[index].0;
        assert(realm.order.contains(own));
        if own == key {
            assert(order[order.len() - 1] == own);
        } else {
            assert(kept.contains(own));
            let place = choose|place: int| 0 <= place < kept.len() && kept[place] == own;
            assert(order[place] == own);
        }
    }
    assert forall|index: int| 0 <= index < order.len() implies value_at(
        realm.slots,
        #[trigger] order[index],
    ) is Some by {
        if index < kept.len() {
            assert(kept[index] == order[index]);
            assert(kept.contains(order[index]));
            assert(order[index] != key);
            assert(realm.order.contains(order[index]));
            let place = choose|place: int|
                0 <= place < realm.order.len() && realm.order[place] == order[index];
            assert(value_at(realm.slots, realm.order[place]) is Some);
        }
    }
    assert forall|first: int, second: int| 0 <= first < second < order.len() implies order[first]
        != order[second] by {
        if second == kept.len() {
            if order[first] == key {
                assert(kept[first] == key);
                assert(kept.contains(key));
            }
        } else {
            assert(kept[first] != kept[second]);
        }
    }
}

/// How many pools have to go before another one has a place.
pub open spec fn too_many(realm: RealmView, connections: nat) -> nat {
    if connections > 0 && realm.slots.len() >= connections {
        (realm.slots.len() - connections + 1) as nat
    } else {
        0
    }
}

/// The least recently used pools, so many, the least recent first.
pub open spec fn least_recent(realm: RealmView, count: nat) -> Seq<usize> {
    Seq::new(count, |index: int| value_at(realm.slots, realm.order[index])->Some_0)
}

/// How many pools are given up for another one: as many as are too many, but
/// only those that have a place in the order.
pub open spec fn given_up(realm: RealmView, connections: nat) -> nat {
    if too_many(realm, connections) <= realm.order.len() {
        too_many(realm, connections)
    } else {
        realm.order.len()
    }
}

/// Making room gives up the least recently used pools, as many as are too many,
/// and no other.
proof fn lemma_room(realm: RealmView, connections: nat)
    requires
        is_well_formed(realm),
    ensures
        is_well_formed(made_room(realm, connections).0),
        is_ordered(realm) ==> is_ordered(made_room(realm, connections).0),
        made_room(realm, connections).0.slots.len() == realm.slots.len() - given_up(
            realm,
            connections,
        ),
        made_room(realm, connections).1 == least_recent(realm, given_up(realm, connections)),
        forall|key: Seq<char>|
            value_at(realm.slots, key) is None ==> #[trigger] value_at(
                made_room(realm, connections).0.slots,
                key,
            ) is None,
    decreases realm.order.len(),
{
    if connections > 0 && realm.slots.len() >= connections && realm.order.len() > 0 {
        lemma_eviction_keeps_order(realm);
        lemma_without(realm.slots, realm.order[0]);
        let rest = RealmView {
            slots: without(realm.slots, realm.order[0]),
            order: realm.order.drop_first(),
        };
        lemma_room(rest, connections);
        let count = given_up(rest, connections);
        assert(given_up(realm, connections) == count + 1);
        assert forall|index: int| 0 <= index < count implies least_recent(rest, count)[index]
            == least_recent(realm, count + 1)[index + 1] by {
            assert(rest.order[index] == realm.order[index + 1]);
            assert(realm.order[0] != realm.order[index + 1]);
        }
        assert(seq![value_at(realm.slots, realm.order[0])->Some_0] + least_recent(rest, count)
            =~= least_recent(realm, count + 1));
        assert forall|key: Seq<char>| value_at(realm.slots, key) is None implies #[trigger] value_at(
            made_room(realm, connections).0.slots,
            key,
        ) is None by {
            assert(value_at(rest.slots, key) is None);
        }
    } else {
        assert(least_recent(realm, 0) =~= Seq::<usize>::empty());
    }
}

/// Asking for a pool gives the one of its key; afterwards that key has it and is
/// the most recently used, and no more pools are kept than connections allow,
/// or than there were where the key had its pool. Where it had none, the least
/// recently used pools are given up, as many as are too many, and no other; in
/// an ordered realm there are always as many.
pub proof fn law_least_recently_used_is_given_up(
    realm: RealmView,
    key: Seq<char>,
    connections: nat,
    candidate: usize,
)
    requires
        is_well_formed(realm),
        connections > 0,
    ensures
        is_well_formed(admitted(realm, key, connections, candidate).realm),
        is_ordered(realm) ==> is_ordered(admitted(realm, key, connections, candidate).realm),
        admitted(realm, key, connections, candidate).realm.slots.len() == (if value_at(
            realm.slots,
            key,
        ) is Some {
            realm.slots.len() as int
        } else {
            realm.slots.len() - given_up(realm, connections) + 1
        }),
        is_ordered(realm) ==> given_up(realm, connections) == too_many(realm, connections),
        is_ordered(realm) && value_at(realm.slots, key) is None ==> admitted(
            realm,
            key,
            connections,
            candidate,
        ).realm.slots.len() <= connections,
        value_at(admitted(realm, key, connections, candidate).realm.slots, key) == Some(
            admitted(realm, key, connections, candidate).pool,
        ),
        admitted(realm, key, connections, candidate).realm.order.last() == key,
        admitted(realm, key, connections, candidate).pool == (match value_at(realm.slots, key) {
            Some(pool) => pool,
            None => candidate,
        }),
        admitted(realm, key, connections, candidate).evicted == (if value_at(realm.slots, key) is None {
            least_recent(realm, given_up(realm, connections))
        } else {
            Seq::empty()
        }),
{
    if value_at(realm.slots, key) is Some {
        lemma_use_keeps_order(realm, key, connections);
    } else {
        lemma_room(realm, connections);
        let roomy = made_room(realm, connections).0;
        assert(value_at(roomy.slots, key) is None);
        lemma_without(roomy.slots, key);
        let slots = roomy.slots.push((key, candidate));
        assert(slots.drop_last() =~= roomy.slots);
        let order = used(roomy.order, key, connections);
        assert(!roomy.order.contains(key)) by {
            if roomy.order.contains(key) {
                let at = choose|at: int| 0 <= at < roomy.order.len() && roomy.order[at] == key;
                assert(value_at(roomy.slots, roomy.order[at]) is Some);
            }
        }
        lemma_without_text(roomy.order, key);
        assert(order =~= roomy.order.push(key));
        assert forall|index: int| 0 <= index < slots.len() && is_ordered(
            realm,
        ) implies order.contains((#[trigger] slots[index]).0) by {
            if index < roomy.slots.len() {
                assert(slots[index] == roomy.slots[index]);
                assert(roomy.order.contains(roomy.slots[index].0));
                let at = choose|at: int|
                    0 <= at < roomy.order.len() && roomy.order[at] == slots[index].0;
                assert(order[at] == slots[index].0);
            } else {
                assert(order[order.len() - 1] == key);
            }
        }
        assert forall|index: int| 0 <= index < order.len() implies value_at(
            slots,
            #[trigger] order[index],
        ) is Some by {
            if index < roomy.order.len() {
                assert(order[index] == roomy.order[index]);
                assert(value_at(roomy.slots, roomy.order[index]) is Some);
            }
        }
        assert forall|first: int, second: int| 0 <= first < second < slots.len() implies (
        #[trigger] slots[first]).0 != (#[trigger] slots[second]).0 by {
            if second == roomy.slots.len() {
                assert(slots[first] == roomy.slots[first]);
                lemma_place_has_value(roomy.slots, first);
            } else {
                assert(slots[first] == roomy.slots[first]);
                assert(slots[second] == roomy.slots[second]);
            }
        }
        assert forall|first: int, second: int| 0 <= first < second < order.len() implies
            order[first] != order[second] by {
            if second == roomy.order.len() {
                if order[first] == key {
                    assert(roomy.order[first] == key);
                    assert(roomy.order.contains(key));
                }
            } else {
                assert(roomy.order[first] != roomy.order[second]);
            }
        }
    }
}

/// Asking for a pool leaves a realm as it should be.
proof fn lemma_admission_is_well_formed(
    realm: RealmView,
    key: Seq<char>,
    connections: nat,
    candidate: usize,
)
    requires
        is_well_formed(realm),
    ensures
        is_well_formed(admitted(realm, key, connections, candidate).realm),
        is_ordered(realm) && (connections > 0 || value_at(realm.slots, key) is None)
            ==> is_ordered(admitted(realm, key, connections, candidate).realm),
{
    if connections > 0 {
        law_least_recently_used_is_given_up(realm, key, connections, candidate);
    } else if value_at(realm.slots, key) is Some {
        lemma_use_keeps_order(realm, key, connections);
    } else {
        assert(!realm.order.contains(key)) by {
            if realm.order.contains(key) {
                let at = choose|at: int| 0 <= at < realm.order.len() && realm.order[at] == key;
                assert(value_at(realm.slots, realm.order[at]) is Some);
            }
        }
        lemma_without_text(realm.order, key);
    }
}

/// Where no connection may be kept, asking for a pool keeps none and gives none
/// up.
pub proof fn law_without_connections_nothing_is_kept(
    realm: RealmView,
    key: Seq<char>,
    candidate: usize,
)
    ensures
        admitted(realm, key, 0, candidate).realm.slots == realm.slots,
        !admitted(realm, key, 0, candidate).realm.order.contains(key),
        admitted(realm, key, 0, candidate).evicted == Seq::<usize>::empty(),
        value_at(realm.slots, key) is None ==> admitted(realm, key, 0, candidate).pool == candidate,
{
    lemma_without_text(realm.order, key);
}

} // verus!
