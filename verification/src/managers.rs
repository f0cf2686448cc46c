//! Whether the connection managers of an adapter are what they were.

use std::sync::Arc;

use vstd::prelude::*;
use vstd::string::StringExecFns;

use crate::adapter_state::{
    canonical_routing_mapping_is_pristine, exact_dict, routing_mapping_snapshot, AdapterState,
    BehaviorProof, RoutingProof,
};
use crate::adapter_state::{
    exact_dict_of, is_canonical_routing, is_pristine, proof_of, routing_matches,
    routing_snapshot_of, AdapterView, BehaviorView, RoutingView,
};
use crate::behavior::{check_facts, copied_pairs, dict_proof, mapping_proof, same_pairs, Fact};
use crate::behavior::{checked, fact_views, mapping_of, namespace_of, Observation};
use crate::heap::{Check, Failure, Heap, Pair};
use crate::heap::{both, keys_of, lemma_same_members};
use crate::retry::exact_bool;
use crate::retry::exact_bool_value;
use crate::text::{lower_text, same_text};
use crate::text::lowered;

verus! {

/// How often a proof of a changing object is tried.
pub const MANAGER_PROOF_ATTEMPTS: usize = 8;

/// Counts the tries of a proof.
#[derive(Clone, Copy, Debug, PartialEq, Eq, Structural)]
pub struct ProofAttempts {
    pub made: usize,
}

impl ProofAttempts {
    /// No try was made.
    pub fn new() -> (attempts: Self)
        ensures
            attempts.made == 0,
    {
        ProofAttempts { made: 0 }
    }

    /// Begins another try, where one is left.
    pub fn begin(&mut self) -> (more: bool)
        ensures
            more == (old(self).made < MANAGER_PROOF_ATTEMPTS),
            final(self).made == (if more {
                old(self).made + 1
            } else {
                old(self).made as int
            }),
    {
        if self.made < MANAGER_PROOF_ATTEMPTS {
            self.made = self.made + 1;
            true
        } else {
            false
        }
    }
}

/// The type of an object.
pub open spec fn class_of(heap: Heap, object: usize) -> Option<usize> {
    match heap.at(object) {
        Some(found) => Some(found.class),
        None => None,
    }
}

/// The type of an object.
fn object_class(heap: &Heap, object: usize) -> (class: Option<usize>)
    ensures
        class == class_of(*heap, object),
{
    match heap.get(object) {
        Some(found) => Some(found.class),
        None => None,
    }
}

/// The number that an object stands for, where it is an exact integer of the
/// machine's width.
pub open spec fn usize_value(heap: Heap, value: usize) -> Option<usize> {
    if heap.is_exactly(value, heap.intrinsics.int) && !heap.is_exactly(
        value,
        heap.intrinsics.boolean,
    ) {
        match heap.int_of(value) {
            Some(number) => if 0 <= number <= usize::MAX {
                Some(number as usize)
            } else {
                None
            },
            None => None,
        }
    } else {
        None
    }
}

/// The number that an object stands for.
pub fn exact_usize(heap: &Heap, value: usize) -> (number: Option<usize>)
    ensures
        number == usize_value(*heap, value),
{
    if !heap.exactly(value, heap.intrinsics.int) || heap.exactly(value, heap.intrinsics.boolean) {
        return None;
    }
    match heap.int_value(value) {
        Some(number) => if 0 <= number && number <= usize::MAX as i128 {
            Some(number as usize)
        } else {
            None
        },
        None => None,
    }
}

/// The proof of a mapping with its entries.
pub open spec fn mapping_view_of(heap: Heap, mapping: usize) -> Result<RoutingView, Failure> {
    match mapping_of(heap, mapping) {
        Err(failure) => Err(failure),
        Ok(facts) => match heap.pairs_of(mapping) {
            None => Err(Failure::Kind),
            Some(entries) => Ok(RoutingView { mapping, entries, facts }),
        },
    }
}

/// Takes the proof of a mapping.
fn take_mapping(heap: &Heap, mapping: usize) -> (result: Result<RoutingProof, Failure>)
    ensures
        match result {
            Ok(taken) => mapping_view_of(*heap, mapping) == Ok::<RoutingView, Failure>(taken@),
            Err(failure) => mapping_view_of(*heap, mapping) == Err::<RoutingView, Failure>(failure),
        },
{
    match mapping_proof(heap, mapping) {
        Err(failure) => Err(failure),
        Ok(facts) => match heap.pairs(mapping) {
            None => Err(Failure::Kind),
            Some(pairs) => Ok(RoutingProof { mapping, entries: copied_pairs(pairs), facts }),
        },
    }
}

/// Whether an object is the mapping of a proof and is unchanged.
pub open spec fn mapping_pristine(heap: Heap, value: usize, mapping: RoutingView) -> Check {
    both(Ok(value == mapping.mapping), checked(heap, mapping.facts))
}

/// Whether an object is the mapping of a proof and is unchanged.
fn mapping_proof_is_pristine(heap: &Heap, value: usize, mapping: &RoutingProof) -> (check: Check)
    ensures
        check == mapping_pristine(*heap, value, mapping@),
{
    if value != mapping.mapping {
        return Ok(false);
    }
    check_facts(heap, &mapping.facts)
}

/// A mapping that a manager holds under a name.
pub struct NamedMapping {
    pub name: String,
    pub mapping: RoutingProof,
}

/// What a manager's mapping says.
pub struct NamedMappingView {
    pub name: Seq<char>,
    pub mapping: RoutingView,
}

impl View for NamedMapping {
    type V = NamedMappingView;

    open spec fn view(&self) -> NamedMappingView {
        NamedMappingView { name: self.name@, mapping: self.mapping@ }
    }
}

/// What a list of a manager's mappings says.
pub open spec fn mapping_views(mappings: Seq<NamedMapping>) -> Seq<NamedMappingView> {
    mappings.map_values(|named: NamedMapping| named@)
}

/// The mappings that a manager may hold.
pub open spec fn mapping_names() -> Seq<Seq<char>> {
    seq![
        "headers"@,
        "connection_pool_kw"@,
        "pool_classes_by_scheme"@,
        "key_fn_by_scheme"@,
        "proxy_headers"@,
    ]
}

/// Whether a mapping of a manager is one that it routes by.
pub open spec fn is_routing_name(name: Seq<char>) -> bool {
    name == "pool_classes_by_scheme"@ || name == "key_fn_by_scheme"@
}

/// The proof of one mapping of a manager; none where a routing mapping is no
/// exact dict of texts.
pub open spec fn manager_mapping(heap: Heap, mapping: usize, name: Seq<char>) -> Result<
    Option<RoutingView>,
    Failure,
> {
    if is_routing_name(name) {
        Ok(routing_snapshot_of(heap, mapping))
    } else {
        match mapping_view_of(heap, mapping) {
            Ok(view) => Ok(Some(view)),
            Err(failure) => Err(failure),
        }
    }
}

/// The mappings that a manager holds, in order.
pub open spec fn manager_mappings(heap: Heap, manager: usize, names: Seq<Seq<char>>) -> Result<
    Option<Seq<NamedMappingView>>,
    Failure,
>
    decreases names.len(),
{
    if names.len() == 0 {
        Ok(Some(Seq::empty()))
    } else {
        match manager_mappings(heap, manager, names.drop_last()) {
            Ok(Some(before)) => match heap.attribute_of(manager, names.last()) {
                None => Ok(Some(before)),
                Some(mapping) => match manager_mapping(heap, mapping, names.last()) {
                    Err(failure) => Err(failure),
                    Ok(None) => Ok(None),
                    Ok(Some(view)) => Ok(
                        Some(before.push(NamedMappingView { name: names.last(), mapping: view })),
                    ),
                },
            },
            other => other,
        }
    }
}

/// What stops the reading of a manager's mappings stops every longer one.
proof fn lemma_mappings_stop(heap: Heap, manager: usize, names: Seq<Seq<char>>, count: int)
    requires
        0 <= count <= names.len(),
        !(manager_mappings(heap, manager, names.take(count)) matches Ok(Some(_))),
    ensures
        manager_mappings(heap, manager, names) == manager_mappings(
            heap,
            manager,
            names.take(count),
        ),
    decreases names.len() - count,
{
    if count < names.len() {
        assert(names.take(count + 1).drop_last() =~= names.take(count));
        lemma_mappings_stop(heap, manager, names, count + 1);
    } else {
        assert(names.take(count) =~= names);
    }
}

/// Takes the mappings that a manager holds.
fn take_manager_mappings(heap: &Heap, manager: usize) -> (result: Result<
    Option<Vec<NamedMapping>>,
    Failure,
>)
    ensures
        match result {
            Ok(Some(mappings)) => manager_mappings(*heap, manager, mapping_names()) == Ok::<
                Option<Seq<NamedMappingView>>,
                Failure,
            >(Some(mapping_views(mappings@))),
            Ok(None) => manager_mappings(*heap, manager, mapping_names()) == Ok::<
                Option<Seq<NamedMappingView>>,
                Failure,
            >(None),
            Err(failure) => manager_mappings(*heap, manager, mapping_names()) == Err::<
                Option<Seq<NamedMappingView>>,
                Failure,
            >(failure),
        },
{
    let names: Vec<&'static str> = vec![
        "headers",
        "connection_pool_kw",
        "pool_classes_by_scheme",
        "key_fn_by_scheme",
        "proxy_headers",
    ];
    let ghost views = mapping_names();
    assert(forall|i: int| 0 <= i < names@.len() ==> (#[trigger] names@[i])@ == views[i]);
    let mut mappings: Vec<NamedMapping> = Vec::new();
    let mut index: usize = 0;
    assert(views.take(0) =~= Seq::<Seq<char>>::empty());
    assert(mapping_views(mappings@) =~= Seq::<NamedMappingView>::empty());
    while index < names.len()
        invariant
            index <= names.len(),
            names.len() == views.len(),
            views == mapping_names(),
            forall|i: int| 0 <= i < names@.len() ==> (#[trigger] names@[i])@ == views[i],
            manager_mappings(*heap, manager, views.take(index as int)) == Ok::<
                Option<Seq<NamedMappingView>>,
                Failure,
            >(Some(mapping_views(mappings@))),
        decreases names.len() - index,
    {
        let ghost before = mapping_views(mappings@);
        let name: &'static str = names[index];
        proof {
            assert(views.take(index + 1).drop_last() =~= views.take(index as int));
            assert(views.take(index + 1).last() == name@);
        }
        match heap.attribute(manager, name) {
            None => {},
            Some(mapping) => {
                let taken = if same_text(name, "pool_classes_by_scheme") || same_text(
                    name,
                    "key_fn_by_scheme",
                ) {
                    match routing_mapping_snapshot(heap, mapping) {
                        Some(taken) => taken,
                        None => {
                            proof {
                                lemma_mappings_stop(*heap, manager, views, index + 1);
                            }
                            return Ok(None);
                        },
                    }
                } else {
                    match take_mapping(heap, mapping) {
                        Ok(taken) => taken,
                        Err(failure) => {
                            proof {
                                lemma_mappings_stop(*heap, manager, views, index + 1);
                            }
                            return Err(failure);
                        },
                    }
                };
                let named = NamedMapping { name: String::from_str(name), mapping: taken };
                mappings.push(named);
                assert(mapping_views(mappings@) =~= before.push(named@));
            },
        }
        index = index + 1;
    }
    assert(views.take(index as int) =~= views);
    Ok(Some(mappings))
}

/// The first mapping of a name.
pub open spec fn mapping_named(mappings: Seq<NamedMappingView>, name: Seq<char>) -> Option<RoutingView>
    decreases mappings.len(),
{
    if mappings.len() == 0 {
        None
    } else if mappings[0].name == name {
        Some(mappings[0].mapping)
    } else {
        mapping_named(mappings.drop_first(), name)
    }
}

/// The first mapping of a name.
fn find_mapping<'a>(mappings: &'a Vec<NamedMapping>, name: &str) -> (found: Option<&'a RoutingProof>)
    ensures
        match found {
            Some(found) => mapping_named(mapping_views(mappings@), name@) == Some(found@),
            None => mapping_named(mapping_views(mappings@), name@) is None,
        },
{
    let mut index: usize = 0;
    let ghost views = mapping_views(mappings@);
    assert(views.skip(0) =~= views);
    while index < mappings.len()
        invariant
            index <= mappings.len(),
            views == mapping_views(mappings@),
            mapping_named(views, name@) == mapping_named(views.skip(index as int), name@),
        decreases mappings.len() - index,
    {
        assert(views.skip(index as int).drop_first() =~= views.skip(index + 1));
        assert(views.skip(index as int)[0] == mappings@[index as int]@);
        if same_text(mappings[index].name.as_str(), name) {
            return Some(&mappings[index].mapping);
        }
        index = index + 1;
    }
    None
}

/// The proof of what does not change in a manager.
pub struct ManagerProof {
    pub manager: usize,
    pub manager_type: usize,
    pub class_behavior: BehaviorProof,
    pub objects: Vec<Fact>,
    pub mappings: Vec<NamedMapping>,
    pub pools_behavior: BehaviorProof,
}

/// What the proof of a manager says.
pub struct ManagerView {
    pub manager: usize,
    pub manager_type: usize,
    pub class_behavior: BehaviorView,
    pub objects: Seq<Observation>,
    pub mappings: Seq<NamedMappingView>,
    pub pools_behavior: BehaviorView,
}

impl View for ManagerProof {
    type V = ManagerView;

    open spec fn view(&self) -> ManagerView {
        ManagerView {
            manager: self.manager,
            manager_type: self.manager_type,
            class_behavior: self.class_behavior@,
            objects: fact_views(self.objects@),
            mappings: mapping_views(self.mappings@),
            pools_behavior: self.pools_behavior@,
        }
    }
}

/// The proof of a manager's pools, which change with every new connection.
pub struct ManagerPools {
    pub pools: usize,
    pub namespace: Vec<Fact>,
    pub container: RoutingProof,
    pub count: usize,
}

/// What the proof of a manager's pools says.
pub struct PoolsView {
    pub pools: usize,
    pub namespace: Seq<Observation>,
    pub container: RoutingView,
    pub count: nat,
}

impl View for ManagerPools {
    type V = PoolsView;

    open spec fn view(&self) -> PoolsView {
        PoolsView {
            pools: self.pools,
            namespace: fact_views(self.namespace@),
            container: self.container@,
            count: self.count as nat,
        }
    }
}

/// The proof of a manager's pools.
pub open spec fn pools_of(heap: Heap, manager: usize) -> Result<PoolsView, Failure> {
    match heap.attribute_of(manager, "pools"@) {
        None => Err(Failure::Attribute),
        Some(pools) => match heap.attribute_of(pools, "_container"@) {
            None => Err(Failure::Attribute),
            Some(mapping) => match mapping_view_of(heap, mapping) {
                Err(failure) => Err(failure),
                Ok(container) => match namespace_of(heap, pools) {
                    Err(failure) => Err(failure),
                    Ok(namespace) => Ok(
                        PoolsView { pools, namespace, container, count: container.entries.len() },
                    ),
                },
            },
        },
    }
}

/// Takes the proof of a manager's pools.
pub fn manager_pools_proof(heap: &Heap, manager: usize) -> (result: Result<ManagerPools, Failure>)
    ensures
        match result {
            Ok(taken) => pools_of(*heap, manager) == Ok::<PoolsView, Failure>(taken@),
            Err(failure) => pools_of(*heap, manager) == Err::<PoolsView, Failure>(failure),
        },
{
    let pools = match heap.attribute(manager, "pools") {
        Some(pools) => pools,
        None => {
            return Err(Failure::Attribute);
        },
    };
    let mapping = match heap.attribute(pools, "_container") {
        Some(mapping) => mapping,
        None => {
            return Err(Failure::Attribute);
        },
    };
    let container = match take_mapping(heap, mapping) {
        Ok(container) => container,
        Err(failure) => {
            return Err(failure);
        },
    };
    match dict_proof(heap, pools) {
        Ok(namespace) => {
            let count: usize = container.entries.len();
            Ok(ManagerPools { pools, namespace, container, count })
        },
        Err(failure) => Err(failure),
    }
}

/// The length that an object reports, which stands as the attribute `len()`.
pub open spec fn length_of(heap: Heap, object: usize) -> Result<nat, Failure> {
    match heap.attribute_of(object, "len()"@) {
        None => Err(Failure::Attribute),
        Some(length) => match heap.int_of(length) {
            Some(number) => if number >= 0 {
                Ok(number as nat)
            } else {
                Err(Failure::Kind)
            },
            None => Err(Failure::Kind),
        },
    }
}

/// Whether an object reports a length.
pub open spec fn length_is(heap: Heap, object: usize, expected: nat) -> Check {
    match length_of(heap, object) {
        Err(failure) => Err(failure),
        Ok(length) => Ok(length == expected),
    }
}

/// Whether an object reports a length.
pub fn check_length(heap: &Heap, object: usize, expected: usize) -> (check: Check)
    ensures
        check == length_is(*heap, object, expected as nat),
{
    match heap.attribute(object, "len()") {
        None => Err(Failure::Attribute),
        Some(length) => match heap.int_value(length) {
            Some(number) => if number >= 0 {
                Ok(number == expected as i128)
            } else {
                Err(Failure::Kind)
            },
            None => Err(Failure::Kind),
        },
    }
}

/// Whether a manager's pools are those of a proof.
pub open spec fn pools_pristine(heap: Heap, manager: usize, pools: PoolsView) -> Check {
    match heap.attribute_of(manager, "pools"@) {
        None => Err(Failure::Attribute),
        Some(current) => both(
            Ok(current == pools.pools),
            both(
                checked(heap, pools.namespace),
                match heap.attribute_of(current, "_container"@) {
                    None => Err(Failure::Attribute),
                    Some(container) => both(
                        mapping_pristine(heap, container, pools.container),
                        match heap.pairs_of(container) {
                            None => Err(Failure::Kind),
                            Some(visible) => both(
                                Ok(visible == pools.container.entries),
                                length_is(heap, current, pools.count),
                            ),
                        },
                    ),
                },
            ),
        ),
    }
}

/// Whether a manager's pools are those of a proof.
pub fn manager_pools_proof_is_pristine(heap: &Heap, manager: usize, pools: &ManagerPools) -> (check:
    Check)
    ensures
        check == pools_pristine(*heap, manager, pools@),
{
    let current = match heap.attribute(manager, "pools") {
        Some(current) => current,
        None => {
            return Err(Failure::Attribute);
        },
    };
    if current != pools.pools {
        return Ok(false);
    }
    match check_facts(heap, &pools.namespace) {
        Ok(true) => {},
        other => {
            return other;
        },
    }
    let container = match heap.attribute(current, "_container") {
        Some(container) => container,
        None => {
            return Err(Failure::Attribute);
        },
    };
    match mapping_proof_is_pristine(heap, container, &pools.container) {
        Ok(true) => {},
        other => {
            return other;
        },
    }
    match heap.pairs(container) {
        None => Err(Failure::Kind),
        Some(visible) => {
            if !same_pairs(visible, &pools.container.entries) {
                return Ok(false);
            }
            check_length(heap, current, pools.count)
        },
    }
}

/// One try at a proof of a manager's pools: taken from one snapshot, it counts
/// where it still holds in a later one.
pub open spec fn stable_pools(seen: Heap, later: Heap, manager: usize) -> Result<
    Option<PoolsView>,
    Failure,
> {
    match pools_of(seen, manager) {
        Err(failure) => Err(failure),
        Ok(pools) => match pools_pristine(later, manager, pools) {
            Err(failure) => Err(failure),
            Ok(true) => Ok(Some(pools)),
            Ok(false) => Ok(None),
        },
    }
}

/// One try at a proof of a manager's pools.
pub fn stable_manager_pools_proof(seen: &Heap, later: &Heap, manager: usize) -> (result: Result<
    Option<ManagerPools>,
    Failure,
>)
    ensures
        match result {
            Ok(Some(pools)) => stable_pools(*seen, *later, manager) == Ok::<
                Option<PoolsView>,
                Failure,
            >(Some(pools@)),
            Ok(None) => stable_pools(*seen, *later, manager) == Ok::<Option<PoolsView>, Failure>(
                None,
            ),
            Err(failure) => stable_pools(*seen, *later, manager) == Err::<
                Option<PoolsView>,
                Failure,
            >(failure),
        },
{
    let pools = match manager_pools_proof(seen, manager) {
        Ok(pools) => pools,
        Err(failure) => {
            return Err(failure);
        },
    };
    match manager_pools_proof_is_pristine(later, manager, &pools) {
        Err(failure) => Err(failure),
        Ok(pristine) => if pristine {
            Ok(Some(pools))
        } else {
            Ok(None)
        },
    }
}

/// Whether a manager's mappings are unchanged, asked in order.
pub open spec fn mappings_pristine(heap: Heap, manager: usize, mappings: Seq<NamedMappingView>) -> Check
    decreases mappings.len(),
{
    if mappings.len() == 0 {
        Ok(true)
    } else {
        both(
            match heap.attribute_of(manager, mappings[0].name) {
                None => Err(Failure::Attribute),
                Some(current) => mapping_pristine(heap, current, mappings[0].mapping),
            },
            mappings_pristine(heap, manager, mappings.drop_first()),
        )
    }
}

/// Whether a manager's mappings are unchanged.
fn check_mappings(heap: &Heap, manager: usize, mappings: &Vec<NamedMapping>) -> (check: Check)
    ensures
        check == mappings_pristine(*heap, manager, mapping_views(mappings@)),
{
    let mut index: usize = 0;
    let ghost views = mapping_views(mappings@);
    assert(views.skip(0) =~= views);
    while index < mappings.len()
        invariant
            index <= mappings.len(),
            views == mapping_views(mappings@),
            mappings_pristine(*heap, manager, views) == mappings_pristine(
                *heap,
                manager,
                views.skip(index as int),
            ),
        decreases mappings.len() - index,
    {
        assert(views.skip(index as int).drop_first() =~= views.skip(index + 1));
        assert(views.skip(index as int)[0] == mappings@[index as int]@);
        let checked = match heap.attribute(manager, mappings[index].name.as_str()) {
            None => Err(Failure::Attribute),
            Some(current) => mapping_proof_is_pristine(heap, current, &mappings[index].mapping),
        };
        match checked {
            Ok(true) => {},
            other => {
                return other;
            },
        }
        index = index + 1;
    }
    Ok(true)
}

/// Whether what does not change in a manager is unchanged.
pub open spec fn immutable_pristine(heap: Heap, manager: usize, expected: ManagerView) -> Check {
    if manager != expected.manager || class_of(heap, manager) != Some(expected.manager_type) {
        Ok(false)
    } else {
        both(
            is_pristine(heap, expected.manager_type, expected.class_behavior),
            both(
                checked(heap, expected.objects),
                both(
                    mappings_pristine(heap, manager, expected.mappings),
                    match heap.attribute_of(manager, "pools"@) {
                        None => Err(Failure::Attribute),
                        Some(pools) => match class_of(heap, pools) {
                            None => Err(Failure::Kind),
                            Some(class) => is_pristine(heap, class, expected.pools_behavior),
                        },
                    },
                ),
            ),
        )
    }
}

/// Whether what does not change in a manager is unchanged.
pub fn manager_immutable_proof_is_pristine(heap: &Heap, manager: usize, expected: &ManagerProof) -> (
    check: Check)
    ensures
        check == immutable_pristine(*heap, manager, expected@),
{
    if manager != expected.manager {
        return Ok(false);
    }
    match object_class(heap, manager) {
        Some(class) => {
            if class != expected.manager_type {
                return Ok(false);
            }
        },
        None => {
            return Ok(false);
        },
    }
    match expected.class_behavior.behavior_proof_is_pristine(heap, expected.manager_type) {
        Ok(true) => {},
        other => {
            return other;
        },
    }
    match check_facts(heap, &expected.objects) {
        Ok(true) => {},
        other => {
            return other;
        },
    }
    match check_mappings(heap, manager, &expected.mappings) {
        Ok(true) => {},
        other => {
            return other;
        },
    }
    match heap.attribute(manager, "pools") {
        None => Err(Failure::Attribute),
        Some(pools) => match object_class(heap, pools) {
            None => Err(Failure::Kind),
            Some(class) => expected.pools_behavior.behavior_proof_is_pristine(heap, class),
        },
    }
}

/// A manager with its pools. Both proofs may be shared.
pub struct ManagerRecord {
    pub manager: Arc<ManagerProof>,
    pub pools: Arc<ManagerPools>,
}

impl ManagerRecord {
    /// The same record once more.
    pub fn share(&self) -> (shared: ManagerRecord)
        ensures
            shared == *self,
    {
        ManagerRecord { manager: Arc::clone(&self.manager), pools: Arc::clone(&self.pools) }
    }
}

/// What the record of a manager says.
pub struct RecordView {
    pub manager: ManagerView,
    pub pools: PoolsView,
}

impl View for ManagerRecord {
    type V = RecordView;

    open spec fn view(&self) -> RecordView {
        RecordView { manager: self.manager@, pools: self.pools@ }
    }
}

/// Whether a manager and its pools are those of a record.
pub open spec fn record_pristine(heap: Heap, manager: usize, record: RecordView) -> Check {
    both(
        immutable_pristine(heap, manager, record.manager),
        pools_pristine(heap, manager, record.pools),
    )
}

/// Whether a manager and its pools are those of a record.
pub fn manager_proof_is_pristine(heap: &Heap, manager: usize, record: &ManagerRecord) -> (check:
    Check)
    ensures
        check == record_pristine(*heap, manager, record@),
{
    match manager_immutable_proof_is_pristine(heap, manager, &record.manager) {
        Ok(true) => {},
        other => {
            return other;
        },
    }
    manager_pools_proof_is_pristine(heap, manager, &record.pools)
}

/// What one try at the record of a manager came to.
pub enum ManagerAttempt {
    Taken(ManagerRecord),
    /// The manager routes by other mappings.
    Refused,
    /// Something changed meanwhile.
    Again,
}

/// What a try says.
pub enum AttemptView {
    Taken(RecordView),
    Refused,
    Again,
}

impl View for ManagerAttempt {
    type V = AttemptView;

    open spec fn view(&self) -> AttemptView {
        match *self {
            ManagerAttempt::Taken(record) => AttemptView::Taken(record@),
            ManagerAttempt::Refused => AttemptView::Refused,
            ManagerAttempt::Again => AttemptView::Again,
        }
    }
}

/// Whether the mappings that a manager routes by are the canonical ones.
pub open spec fn routes_canonically(
    heap: Heap,
    mappings: Seq<NamedMappingView>,
    pool_classes: RoutingView,
    key_functions: RoutingView,
) -> Check {
    match (
        mapping_named(mappings, "pool_classes_by_scheme"@),
        mapping_named(mappings, "key_fn_by_scheme"@),
    ) {
        (Some(classes), Some(keys)) => both(
            routing_matches(heap, classes, pool_classes),
            routing_matches(heap, keys, key_functions),
        ),
        _ => Ok(false),
    }
}

/// The proof of what does not change in a manager, beside its mappings.
pub open spec fn manager_view_of(heap: Heap, manager: usize, mappings: Seq<NamedMappingView>) -> Result<
    ManagerView,
    Failure,
> {
    match heap.attribute_of(manager, "pools"@) {
        None => Err(Failure::Attribute),
        Some(pools) => match (class_of(heap, manager), class_of(heap, pools)) {
            (Some(manager_type), Some(pools_type)) => match proof_of(heap, manager_type) {
                Err(failure) => Err(failure),
                Ok(class_behavior) => match namespace_of(heap, manager) {
                    Err(failure) => Err(failure),
                    Ok(objects) => match proof_of(heap, pools_type) {
                        Err(failure) => Err(failure),
                        Ok(pools_behavior) => Ok(
                            ManagerView {
                                manager,
                                manager_type,
                                class_behavior,
                                objects,
                                mappings,
                                pools_behavior,
                            },
                        ),
                    },
                },
            },
            _ => Err(Failure::Kind),
        },
    }
}

/// Takes the proof of what does not change in a manager.
fn take_manager(heap: &Heap, manager: usize, mappings: Vec<NamedMapping>) -> (result: Result<
    ManagerProof,
    Failure,
>)
    ensures
        match result {
            Ok(taken) => manager_view_of(*heap, manager, mapping_views(mappings@)) == Ok::<
                ManagerView,
                Failure,
            >(taken@),
            Err(failure) => manager_view_of(*heap, manager, mapping_views(mappings@)) == Err::<
                ManagerView,
                Failure,
            >(failure),
        },
{
    let pools = match heap.attribute(manager, "pools") {
        Some(pools) => pools,
        None => {
            return Err(Failure::Attribute);
        },
    };
    let (manager_type, pools_type) = match (object_class(heap, manager), object_class(heap, pools)) {
        (Some(manager_type), Some(pools_type)) => (manager_type, pools_type),
        _ => {
            return Err(Failure::Kind);
        },
    };
    let class_behavior = match BehaviorProof::take(heap, manager_type) {
        Ok(taken) => taken,
        Err(failure) => {
            return Err(failure);
        },
    };
    let objects = match dict_proof(heap, manager) {
        Ok(taken) => taken,
        Err(failure) => {
            return Err(failure);
        },
    };
    match BehaviorProof::take(heap, pools_type) {
        Ok(pools_behavior) => Ok(
            ManagerProof {
                manager,
                manager_type,
                class_behavior,
                objects,
                mappings,
                pools_behavior,
            },
        ),
        Err(failure) => Err(failure),
    }
}

/// One try at the record of a manager: taken from one snapshot, it counts where
/// it still holds in a later one.
pub open spec fn manager_attempted(
    seen: Heap,
    later: Heap,
    manager: usize,
    pool_classes: RoutingView,
    key_functions: RoutingView,
) -> Result<AttemptView, Failure> {
    match manager_mappings(seen, manager, mapping_names()) {
        Err(failure) => Err(failure),
        Ok(None) => Ok(AttemptView::Refused),
        Ok(Some(mappings)) => match routes_canonically(seen, mappings, pool_classes, key_functions) {
            Err(failure) => Err(failure),
            Ok(false) => Ok(AttemptView::Refused),
            Ok(true) => match manager_view_of(seen, manager, mappings) {
                Err(failure) => Err(failure),
                Ok(view) => match stable_pools(seen, later, manager) {
                    Err(failure) => Err(failure),
                    Ok(None) => Ok(AttemptView::Again),
                    Ok(Some(pools)) => {
                        let record = RecordView { manager: view, pools };
                        match record_pristine(later, manager, record) {
                            Err(failure) => Err(failure),
                            Ok(true) => Ok(AttemptView::Taken(record)),
                            Ok(false) => Ok(AttemptView::Again),
                        }
                    },
                },
            },
        },
    }
}

/// One try at the record of a manager.
pub fn manager_proof(
    seen: &Heap,
    later: &Heap,
    manager: usize,
    pool_classes: &RoutingProof,
    key_functions: &RoutingProof,
) -> (result: Result<ManagerAttempt, Failure>)
    ensures
        match result {
            Ok(attempt) => manager_attempted(
                *seen,
                *later,
                manager,
                pool_classes@,
                key_functions@,
            ) == Ok::<AttemptView, Failure>(attempt@),
            Err(failure) => manager_attempted(
                *seen,
                *later,
                manager,
                pool_classes@,
                key_functions@,
            ) == Err::<AttemptView, Failure>(failure),
        },
{
    let mappings = match take_manager_mappings(seen, manager) {
        Err(failure) => {
            return Err(failure);
        },
        Ok(None) => {
            return Ok(ManagerAttempt::Refused);
        },
        Ok(Some(mappings)) => mappings,
    };
    match (
        find_mapping(&mappings, "pool_classes_by_scheme"),
        find_mapping(&mappings, "key_fn_by_scheme"),
    ) {
        (Some(classes), Some(keys)) => {
            match classes.routing_mapping_matches_canonical(seen, pool_classes) {
                Err(failure) => {
                    return Err(failure);
                },
                Ok(matches) => {
                    if !matches {
                        return Ok(ManagerAttempt::Refused);
                    }
                },
            }
            match keys.routing_mapping_matches_canonical(seen, key_functions) {
                Err(failure) => {
                    return Err(failure);
                },
                Ok(matches) => {
                    if !matches {
                        return Ok(ManagerAttempt::Refused);
                    }
                },
            }
        },
        _ => {
            return Ok(ManagerAttempt::Refused);
        },
    }
    let taken = match take_manager(seen, manager, mappings) {
        Ok(taken) => taken,
        Err(failure) => {
            return Err(failure);
        },
    };
    let pools = match stable_manager_pools_proof(seen, later, manager) {
        Err(failure) => {
            return Err(failure);
        },
        Ok(None) => {
            return Ok(ManagerAttempt::Again);
        },
        Ok(Some(pools)) => pools,
    };
    let record = ManagerRecord { manager: Arc::new(taken), pools: Arc::new(pools) };
    match manager_proof_is_pristine(later, manager, &record) {
        Err(failure) => Err(failure),
        Ok(pristine) => if pristine {
            Ok(ManagerAttempt::Taken(record))
        } else {
            Ok(ManagerAttempt::Again)
        },
    }
}

/// How the pools of a manager are configured.
#[derive(Clone, Copy, Debug, PartialEq, Eq, Structural)]
pub struct ProxyManagerConfiguration {
    pub pool_connections: usize,
    pub pool_maxsize: usize,
    pub pool_block: bool,
}

/// Whether a manager's pools hold at most so many connections and dispose of
/// none in a way of their own.
pub open spec fn pools_configured(heap: Heap, manager: usize, connections: usize) -> Check {
    match heap.attribute_of(manager, "pools"@) {
        None => Err(Failure::Attribute),
        Some(pools) => match heap.attribute_of(pools, "_maxsize"@) {
            None => Err(Failure::Attribute),
            Some(maxsize) => if usize_value(heap, maxsize) != Some(connections) {
                Ok(false)
            } else {
                match heap.attribute_of(pools, "dispose_func"@) {
                    None => Err(Failure::Attribute),
                    Some(dispose) => Ok(heap.is_none_value(dispose)),
                }
            },
        },
    }
}

/// Whether a manager's pools hold at most so many connections.
fn check_pools_configured(heap: &Heap, manager: usize, connections: usize) -> (check: Check)
    ensures
        check == pools_configured(*heap, manager, connections),
{
    let pools = match heap.attribute(manager, "pools") {
        Some(pools) => pools,
        None => {
            return Err(Failure::Attribute);
        },
    };
    match heap.attribute(pools, "_maxsize") {
        None => {
            return Err(Failure::Attribute);
        },
        Some(maxsize) => match exact_usize(heap, maxsize) {
            Some(number) => {
                if number != connections {
                    return Ok(false);
                }
            },
            None => {
                return Ok(false);
            },
        },
    }
    match heap.attribute(pools, "dispose_func") {
        None => Err(Failure::Attribute),
        Some(dispose) => Ok(heap.none_value(dispose)),
    }
}

/// Whether a manager sends no headers of its own and its pools are configured
/// as the adapter's.
pub open spec fn manager_configured(
    heap: Heap,
    manager: usize,
    configuration: ProxyManagerConfiguration,
) -> Check {
    match heap.attribute_of(manager, "headers"@) {
        None => Err(Failure::Attribute),
        Some(headers) => match exact_dict_of(heap, headers) {
            None => Ok(false),
            Some(entries) => if entries.len() != 0 {
                Ok(false)
            } else {
                match heap.attribute_of(manager, "connection_pool_kw"@) {
                    None => Err(Failure::Attribute),
                    Some(kwargs) => if exact_dict_of(heap, kwargs) is None {
                        Ok(false)
                    } else {
                        match (heap.entry_of(kwargs, "maxsize"@), heap.entry_of(kwargs, "block"@)) {
                            (Some(maxsize), Some(block)) => if usize_value(heap, maxsize) != Some(
                                configuration.pool_maxsize,
                            ) || exact_bool_value(heap, block) != Some(configuration.pool_block) {
                                Ok(false)
                            } else {
                                pools_configured(heap, manager, configuration.pool_connections)
                            },
                            _ => Ok(false),
                        }
                    },
                }
            },
        },
    }
}

/// Whether a number that an object stands for is the expected one.
fn usize_is(heap: &Heap, value: usize, expected: usize) -> (yes: bool)
    ensures
        yes == (usize_value(*heap, value) == Some(expected)),
{
    match exact_usize(heap, value) {
        Some(number) => number == expected,
        None => false,
    }
}

/// Whether a truth value that an object stands for is the expected one.
fn bool_is(heap: &Heap, value: usize, expected: bool) -> (yes: bool)
    ensures
        yes == (exact_bool_value(*heap, value) == Some(expected)),
{
    match exact_bool(heap, value) {
        Some(current) => current == expected,
        None => false,
    }
}

/// Whether a manager sends no headers of its own and its pools are configured
/// as the adapter's.
pub fn canonical_manager_pool_configuration(
    heap: &Heap,
    manager: usize,
    configuration: ProxyManagerConfiguration,
) -> (check: Check)
    ensures
        check == manager_configured(*heap, manager, configuration),
{
    match heap.attribute(manager, "headers") {
        None => {
            return Err(Failure::Attribute);
        },
        Some(headers) => match exact_dict(heap, headers) {
            None => {
                return Ok(false);
            },
            Some(entries) => {
                if entries.len() != 0 {
                    return Ok(false);
                }
            },
        },
    }
    let kwargs = match heap.attribute(manager, "connection_pool_kw") {
        Some(kwargs) => kwargs,
        None => {
            return Err(Failure::Attribute);
        },
    };
    if exact_dict(heap, kwargs).is_none() {
        return Ok(false);
    }
    match (heap.entry(kwargs, "maxsize"), heap.entry(kwargs, "block")) {
        (Some(maxsize), Some(block)) => {
            if !usize_is(heap, maxsize, configuration.pool_maxsize) || !bool_is(
                heap,
                block,
                configuration.pool_block,
            ) {
                return Ok(false);
            }
        },
        _ => {
            return Ok(false);
        },
    }
    check_pools_configured(heap, manager, configuration.pool_connections)
}

/// Whether a manager is of the remembered class, unchanged, with a dictionary.
pub open spec fn manager_identity(heap: Heap, state: AdapterView, manager: usize) -> Check {
    if !heap.is_exactly(manager, state.poolmanager.object) {
        Ok(false)
    } else {
        both(
            checked(heap, state.poolmanager.facts),
            match heap.attribute_of(manager, "__dict__"@) {
                None => Err(Failure::Attribute),
                Some(dictionary) => Ok(heap.dict_of(dictionary) is Some),
            },
        )
    }
}

/// Whether a manager is of the remembered class, unchanged, with a dictionary.
pub fn manager_identity_is_pristine(heap: &Heap, state: &AdapterState, manager: usize) -> (check:
    Check)
    ensures
        check == manager_identity(*heap, state@, manager),
{
    if !heap.exactly(manager, state.poolmanager.object) {
        return Ok(false);
    }
    match check_facts(heap, &state.poolmanager.facts) {
        Ok(true) => {},
        other => {
            return other;
        },
    }
    match heap.attribute(manager, "__dict__") {
        None => Err(Failure::Attribute),
        Some(dictionary) => Ok(heap.dict(dictionary).is_some()),
    }
}

/// Whether the keyword arguments of a manager are the adapter's two settings.
pub open spec fn settings_match(heap: Heap, adapter: usize, manager: usize) -> Check {
    match heap.attribute_of(manager, "connection_pool_kw"@) {
        None => Err(Failure::Attribute),
        Some(kwargs) => match heap.dict_of(kwargs) {
            None => Ok(false),
            Some(entries) => if entries.len() != 2 {
                Ok(false)
            } else {
                match (heap.entry_of(kwargs, "maxsize"@), heap.entry_of(kwargs, "block"@)) {
                    (Some(maxsize), Some(block)) => match heap.attribute_of(
                        adapter,
                        "_pool_maxsize"@,
                    ) {
                        None => Err(Failure::Attribute),
                        Some(own_maxsize) => if usize_value(heap, maxsize) != usize_value(
                            heap,
                            own_maxsize,
                        ) || exact_bool_value(heap, block) is None {
                            Ok(false)
                        } else {
                            match heap.attribute_of(adapter, "_pool_block"@) {
                                None => Err(Failure::Attribute),
                                Some(own_block) => Ok(
                                    exact_bool_value(heap, block) == exact_bool_value(
                                        heap,
                                        own_block,
                                    ),
                                ),
                            }
                        },
                    },
                    _ => Ok(false),
                }
            },
        },
    }
}

/// Whether two numbers that may be missing are the same.
fn same_number(first: Option<usize>, second: Option<usize>) -> (same: bool)
    ensures
        same == (first == second),
{
    match (first, second) {
        (Some(first), Some(second)) => first == second,
        (None, None) => true,
        _ => false,
    }
}

/// Whether two truth values that may be missing are the same.
fn same_bool(first: Option<bool>, second: Option<bool>) -> (same: bool)
    ensures
        same == (first == second),
{
    match (first, second) {
        (Some(first), Some(second)) => first == second,
        (None, None) => true,
        _ => false,
    }
}

/// Whether the keyword arguments of a manager are the adapter's two settings.
fn check_settings(heap: &Heap, adapter: usize, manager: usize) -> (check: Check)
    ensures
        check == settings_match(*heap, adapter, manager),
{
    let kwargs = match heap.attribute(manager, "connection_pool_kw") {
        Some(kwargs) => kwargs,
        None => {
            return Err(Failure::Attribute);
        },
    };
    match heap.dict(kwargs) {
        None => {
            return Ok(false);
        },
        Some(entries) => {
            if entries.len() != 2 {
                return Ok(false);
            }
        },
    }
    let (maxsize, block) = match (heap.entry(kwargs, "maxsize"), heap.entry(kwargs, "block")) {
        (Some(maxsize), Some(block)) => (maxsize, block),
        _ => {
            return Ok(false);
        },
    };
    let own_maxsize = match heap.attribute(adapter, "_pool_maxsize") {
        Some(own) => own,
        None => {
            return Err(Failure::Attribute);
        },
    };
    let configured = exact_bool(heap, block);
    if !same_number(exact_usize(heap, maxsize), exact_usize(heap, own_maxsize))
        || configured.is_none() {
        return Ok(false);
    }
    match heap.attribute(adapter, "_pool_block") {
        None => Err(Failure::Attribute),
        Some(own_block) => Ok(same_bool(configured, exact_bool(heap, own_block))),
    }
}

/// Whether a manager is configured as its adapter says.
pub open spec fn adapter_configured(heap: Heap, adapter: usize, manager: usize) -> Check {
    both(
        settings_match(heap, adapter, manager),
        match heap.attribute_of(manager, "headers"@) {
            None => Err(Failure::Attribute),
            Some(headers) => match exact_dict_of(heap, headers) {
                None => Ok(false),
                Some(entries) => if entries.len() != 0 {
                    Ok(false)
                } else {
                    pools_match(heap, adapter, manager)
                },
            },
        },
    )
}

/// Whether a manager's pools hold as many connections as its adapter says.
pub open spec fn pools_match(heap: Heap, adapter: usize, manager: usize) -> Check {
    match heap.attribute_of(manager, "pools"@) {
        None => Err(Failure::Attribute),
        Some(pools) => match heap.attribute_of(pools, "_maxsize"@) {
            None => Err(Failure::Attribute),
            Some(maxsize) => match usize_value(heap, maxsize) {
                None => Ok(false),
                Some(maximum) => match heap.attribute_of(adapter, "_pool_connections"@) {
                    None => Err(Failure::Attribute),
                    Some(own) => if maximum != (match usize_value(heap, own) {
                        Some(connections) => connections,
                        None => usize::MAX,
                    }) {
                        Ok(false)
                    } else {
                        match heap.attribute_of(pools, "dispose_func"@) {
                            None => Err(Failure::Attribute),
                            Some(dispose) => Ok(heap.is_none_value(dispose)),
                        }
                    },
                },
            },
        },
    }
}

/// Whether a manager's pools hold as many connections as its adapter says.
fn check_pools_match(heap: &Heap, adapter: usize, manager: usize) -> (check: Check)
    ensures
        check == pools_match(*heap, adapter, manager),
{
    let pools = match heap.attribute(manager, "pools") {
        Some(pools) => pools,
        None => {
            return Err(Failure::Attribute);
        },
    };
    let maximum: usize = match heap.attribute(pools, "_maxsize") {
        None => {
            return Err(Failure::Attribute);
        },
        Some(maxsize) => match exact_usize(heap, maxsize) {
            Some(maximum) => maximum,
            None => {
                return Ok(false);
            },
        },
    };
    let own: usize = match heap.attribute(adapter, "_pool_connections") {
        None => {
            return Err(Failure::Attribute);
        },
        Some(own) => match exact_usize(heap, own) {
            Some(connections) => connections,
            None => usize::MAX,
        },
    };
    if maximum != own {
        return Ok(false);
    }
    match heap.attribute(pools, "dispose_func") {
        None => Err(Failure::Attribute),
        Some(dispose) => Ok(heap.none_value(dispose)),
    }
}

/// Whether a manager is configured as its adapter says.
pub fn manager_configuration_is_pristine(heap: &Heap, adapter: usize, manager: usize) -> (check:
    Check)
    ensures
        check == adapter_configured(*heap, adapter, manager),
{
    match check_settings(heap, adapter, manager) {
        Ok(true) => {},
        other => {
            return other;
        },
    }
    match heap.attribute(manager, "headers") {
        None => {
            return Err(Failure::Attribute);
        },
        Some(headers) => match exact_dict(heap, headers) {
            None => {
                return Ok(false);
            },
            Some(entries) => {
                if entries.len() != 0 {
                    return Ok(false);
                }
            },
        },
    }
    check_pools_match(heap, adapter, manager)
}

/// Whether a dict has as many entries as there are names, each under one of the
/// names.
pub open spec fn has_keys(heap: Heap, pairs: Seq<Pair>, names: Seq<Seq<char>>) -> bool {
    pairs.len() == names.len() && forall|index: int|
        0 <= index < pairs.len() ==> (heap.exact_text_of((#[trigger] pairs[index]).key) matches Some(
            text,
        ) && names.contains(text))
}

/// Whether some key of a dict is this text.
pub open spec fn has_key(heap: Heap, pairs: Seq<Pair>, name: Seq<char>) -> bool {
    exists|index: int|
        0 <= index < pairs.len() && heap.exact_text_of((#[trigger] pairs[index]).key) == Some(name)
}

/// A dict has the keys of a list exactly where each of its keys is one of the
/// names and each name is one of its keys: as a dict holds no key twice, their
/// number and one half of that are enough.
pub proof fn law_keys_are_those_names(heap: Heap, dict: usize, pairs: Seq<Pair>, names: Seq<Seq<char>>)
    requires
        heap.keys_occur_once(),
        heap.pairs_of(dict) == Some(pairs),
        names.no_duplicates(),
    ensures
        has_keys(heap, pairs, names) <==> {
            &&& forall|index: int|
                0 <= index < pairs.len() ==> heap.exact_text_of((#[trigger] pairs[index]).key)
                    is Some
            &&& forall|name: Seq<char>|
                names.contains(name) <==> #[trigger] has_key(heap, pairs, name)
        },
{
    let keys = keys_of(pairs);
    assert(heap.texts_occur_once(keys));
    let texts = pairs.map_values(|pair: Pair| heap.exact_text_of(pair.key)->Some_0);
    let all_texts = forall|index: int|
        0 <= index < pairs.len() ==> heap.exact_text_of((#[trigger] pairs[index]).key) is Some;
    if all_texts {
        assert(texts.no_duplicates()) by {
            assert forall|first: int, second: int|
                0 <= first < texts.len() && 0 <= second < texts.len() && first
                    != second implies texts[first] != texts[second] by {
                assert(keys[first] == pairs[first].key);
                assert(keys[second] == pairs[second].key);
                assert(heap.exact_text_of(pairs[first].key) is Some);
                assert(heap.exact_text_of(pairs[second].key) is Some);
                if first < second {
                    assert(heap.exact_text_of(keys[first]) != heap.exact_text_of(keys[second]));
                } else {
                    assert(heap.exact_text_of(keys[second]) != heap.exact_text_of(keys[first]));
                }
            }
        }
    }
    if has_keys(heap, pairs, names) {
        assert forall|index: int| 0 <= index < texts.len() implies names.contains(
            #[trigger] texts[index],
        ) by {
            assert(heap.exact_text_of(pairs[index].key) is Some);
        }
        lemma_same_members(texts, names);
        assert forall|name: Seq<char>|
            names.contains(name) <==> #[trigger] has_key(heap, pairs, name) by {
            if names.contains(name) {
                assert(texts.contains(name));
                let place = choose|place: int| 0 <= place < texts.len() && texts[place] == name;
                assert(heap.exact_text_of(pairs[place].key) == Some(name));
            }
        }
    }
    if all_texts && (forall|name: Seq<char>|
        names.contains(name) <==> #[trigger] has_key(heap, pairs, name)) {
        broadcast use vstd::seq_lib::seq_to_set_is_finite;

        assert(texts.to_set() =~= names.to_set()) by {
            assert forall|name: Seq<char>| texts.contains(name) == names.contains(name) by {
                assert(names.contains(name) <==> has_key(heap, pairs, name));
                if texts.contains(name) {
                    let place = choose|place: int|
                        0 <= place < texts.len() && texts[place] == name;
                    assert(heap.exact_text_of(pairs[place].key) == Some(name));
                }
                if has_key(heap, pairs, name) {
                    let place = choose|place: int|
                        0 <= place < pairs.len() && heap.exact_text_of(
                            (#[trigger] pairs[place]).key,
                        ) == Some(name);
                    assert(texts[place] == name);
                }
            }
        }
        texts.unique_seq_to_set();
        names.unique_seq_to_set();
        assert forall|index: int| 0 <= index < pairs.len() implies (heap.exact_text_of(
            (#[trigger] pairs[index]).key,
        ) matches Some(text) && names.contains(text)) by {
            let text = heap.exact_text_of(pairs[index].key)->Some_0;
            assert(has_key(heap, pairs, text));
        }
    }
}

/// Whether a name is among a list.
fn name_is_listed(names: &Vec<&'static str>, name: &str) -> (listed: bool)
    ensures
        listed == crate::adapter_state::name_views(names@).contains(name@),
{
    let mut index: usize = 0;
    let ghost views = crate::adapter_state::name_views(names@);
    while index < names.len()
        invariant
            index <= names.len(),
            views == crate::adapter_state::name_views(names@),
            forall|i: int| 0 <= i < index ==> views[i] != name@,
        decreases names.len() - index,
    {
        assert(views[index as int] == names@[index as int]@);
        if same_text(names[index], name) {
            assert(views.contains(name@));
            return true;
        }
        index = index + 1;
    }
    false
}

/// Whether a dict has exactly the keys of a list.
pub fn exact_dict_has_keys(heap: &Heap, pairs: &Vec<Pair>, names: &Vec<&'static str>) -> (yes: bool)
    ensures
        yes == has_keys(*heap, pairs@, crate::adapter_state::name_views(names@)),
{
    if pairs.len() != names.len() {
        return false;
    }
    let ghost views = crate::adapter_state::name_views(names@);
    let mut index: usize = 0;
    while index < pairs.len()
        invariant
            index <= pairs.len(),
            pairs.len() == names.len(),
            views == crate::adapter_state::name_views(names@),
            forall|i: int|
                0 <= i < index ==> (heap.exact_text_of((#[trigger] pairs@[i]).key) matches Some(
                    text,
                ) && views.contains(text)),
        decreases pairs.len() - index,
    {
        let key: usize = pairs[index].key;
        if !heap.exactly(key, heap.intrinsics.text) {
            assert(heap.exact_text_of(pairs@[index as int].key) is None);
            return false;
        }
        match heap.text(key) {
            None => {
                assert(heap.exact_text_of(pairs@[index as int].key) is None);
                return false;
            },
            Some(text) => {
                if !name_is_listed(names, text.as_str()) {
                    assert(heap.exact_text_of(pairs@[index as int].key) == Some(text@));
                    return false;
                }
            },
        }
        index = index + 1;
    }
    true
}

/// Whether two objects are of one type and equal, where both are texts,
/// integers, truth values or `None`; no answer for other types.
pub open spec fn same_value(heap: Heap, left: usize, right: usize) -> Check {
    match (heap.at(left), heap.at(right)) {
        (Some(first), Some(second)) => if first.class != second.class {
            Ok(false)
        } else if heap.is_none_value(left) && heap.is_none_value(right) {
            Ok(true)
        } else if heap.text_of(left) is Some && heap.text_of(right) is Some {
            Ok(heap.text_of(left) == heap.text_of(right))
        } else if heap.int_of(left) is Some && heap.int_of(right) is Some {
            Ok(heap.int_of(left) == heap.int_of(right))
        } else {
            Err(Failure::Kind)
        },
        _ => Err(Failure::Kind),
    }
}

/// Whether two objects are of one type and equal.
pub fn exact_python_value_equal(heap: &Heap, left: usize, right: usize) -> (check: Check)
    ensures
        check == same_value(*heap, left, right),
{
    match (heap.get(left), heap.get(right)) {
        (Some(first), Some(second)) => {
            if first.class != second.class {
                return Ok(false);
            }
        },
        _ => {
            return Err(Failure::Kind);
        },
    }
    if heap.none_value(left) && heap.none_value(right) {
        return Ok(true);
    }
    match (heap.text(left), heap.text(right)) {
        (Some(first), Some(second)) => {
            return Ok(same_text(first.as_str(), second.as_str()));
        },
        _ => {},
    }
    match (heap.int_value(left), heap.int_value(right)) {
        (Some(first), Some(second)) => Ok(first == second),
        _ => Err(Failure::Kind),
    }
}

/// Whether an entry of texts stands in another dict.
pub open spec fn entry_matches(heap: Heap, left: usize, pair: Pair) -> bool {
    match (heap.exact_text_of(pair.key), heap.exact_text_of(pair.value)) {
        (Some(key), Some(expected)) => match heap.entry_of(left, key) {
            Some(current) => heap.exact_text_of(current) == Some(expected),
            None => false,
        },
        _ => false,
    }
}

/// Whether two objects are exact dicts of texts with the same entries.
pub open spec fn same_text_dicts(heap: Heap, left: usize, right: usize) -> bool {
    match (exact_dict_of(heap, left), exact_dict_of(heap, right)) {
        (Some(first), Some(second)) => first.len() == second.len() && forall|index: int|
            0 <= index < second.len() ==> entry_matches(heap, left, #[trigger] second[index]),
        _ => false,
    }
}

/// Whether an entry of texts stands in another dict.
fn check_entry(heap: &Heap, left: usize, pair: Pair) -> (matches: bool)
    ensures
        matches == entry_matches(*heap, left, pair),
{
    if !heap.exactly(pair.key, heap.intrinsics.text) || !heap.exactly(
        pair.value,
        heap.intrinsics.text,
    ) {
        return false;
    }
    match (heap.text(pair.key), heap.text(pair.value)) {
        (Some(key), Some(expected)) => match heap.entry(left, key.as_str()) {
            Some(current) => heap.exact_text_is(current, expected.as_str()),
            None => false,
        },
        _ => false,
    }
}

/// Whether two objects are exact dicts of texts with the same entries.
pub fn exact_string_dict_equal(heap: &Heap, left: usize, right: usize) -> (equal: bool)
    ensures
        equal == same_text_dicts(*heap, left, right),
{
    let (first, second) = match (exact_dict(heap, left), exact_dict(heap, right)) {
        (Some(first), Some(second)) => (first, second),
        _ => {
            return false;
        },
    };
    if first.len() != second.len() {
        return false;
    }
    let mut index: usize = 0;
    while index < second.len()
        invariant
            index <= second.len(),
            exact_dict_of(*heap, left) == Some(first@),
            exact_dict_of(*heap, right) == Some(second@),
            first.len() == second.len(),
            forall|i: int| 0 <= i < index ==> entry_matches(*heap, left, #[trigger] second@[i]),
        decreases second.len() - index,
    {
        if !check_entry(heap, left, second[index]) {
            assert(!entry_matches(*heap, left, second@[index as int]));
            return false;
        }
        index = index + 1;
    }
    true
}

/// Whether a manager is of a class, routes by the canonical mappings and is
/// configured as the adapter.
pub open spec fn manager_base(
    heap: Heap,
    manager: usize,
    class: usize,
    pool_classes: RoutingView,
    key_functions: RoutingView,
) -> Check {
    if !heap.is_exactly(manager, class) {
        Ok(false)
    } else {
        match heap.attribute_of(manager, "pool_classes_by_scheme"@) {
            None => Err(Failure::Attribute),
            Some(classes) => both(
                is_canonical_routing(heap, classes, pool_classes),
                match heap.attribute_of(manager, "key_fn_by_scheme"@) {
                    None => Err(Failure::Attribute),
                    Some(keys) => is_canonical_routing(heap, keys, key_functions),
                },
            ),
        }
    }
}

/// Whether a manager is of a class and routes by the canonical mappings.
fn check_base(
    heap: &Heap,
    manager: usize,
    class: usize,
    pool_classes: &RoutingProof,
    key_functions: &RoutingProof,
) -> (check: Check)
    ensures
        check == manager_base(*heap, manager, class, pool_classes@, key_functions@),
{
    if !heap.exactly(manager, class) {
        return Ok(false);
    }
    match heap.attribute(manager, "pool_classes_by_scheme") {
        None => {
            return Err(Failure::Attribute);
        },
        Some(classes) => match canonical_routing_mapping_is_pristine(heap, classes, pool_classes) {
            Ok(true) => {},
            other => {
                return other;
            },
        },
    }
    match heap.attribute(manager, "key_fn_by_scheme") {
        None => Err(Failure::Attribute),
        Some(keys) => canonical_routing_mapping_is_pristine(heap, keys, key_functions),
    }
}

/// The port that a proxy's URL stands for: its own, else that of its scheme.
pub open spec fn expected_port(heap: Heap, scheme: Seq<char>, port: usize) -> Option<usize> {
    if heap.is_none_value(port) {
        if lowered(scheme) == "http"@ {
            Some(80)
        } else if lowered(scheme) == "https"@ {
            Some(443)
        } else {
            None
        }
    } else {
        usize_value(heap, port)
    }
}

/// The parts of a proxy's URL that are compared as they stand.
pub open spec fn url_parts() -> Seq<Seq<char>> {
    seq!["scheme"@, "auth"@, "host"@, "path"@, "query"@, "fragment"@]
}

/// Whether two URLs have the same parts, asked in order.
pub open spec fn same_parts(heap: Heap, left: usize, right: usize, parts: Seq<Seq<char>>) -> Check
    decreases parts.len(),
{
    if parts.len() == 0 {
        Ok(true)
    } else {
        both(
            match (heap.attribute_of(left, parts[0]), heap.attribute_of(right, parts[0])) {
                (Some(first), Some(second)) => same_value(heap, first, second),
                _ => Err(Failure::Attribute),
            },
            same_parts(heap, left, right, parts.drop_first()),
        )
    }
}

/// Whether two URLs have the same parts.
fn check_parts(heap: &Heap, left: usize, right: usize) -> (check: Check)
    ensures
        check == same_parts(*heap, left, right, url_parts()),
{
    let names: Vec<&'static str> = vec!["scheme", "auth", "host", "path", "query", "fragment"];
    let ghost views = url_parts();
    assert(forall|i: int| 0 <= i < names@.len() ==> (#[trigger] names@[i])@ == views[i]);
    let mut index: usize = 0;
    assert(views.skip(0) =~= views);
    while index < names.len()
        invariant
            index <= names.len(),
            names.len() == views.len(),
            views == url_parts(),
            forall|i: int| 0 <= i < names@.len() ==> (#[trigger] names@[i])@ == views[i],
            same_parts(*heap, left, right, views) == same_parts(
                *heap,
                left,
                right,
                views.skip(index as int),
            ),
        decreases names.len() - index,
    {
        let name: &'static str = names[index];
        proof {
            assert(views.skip(index as int).drop_first() =~= views.skip(index + 1));
            assert(views.skip(index as int)[0] == name@);
        }
        let checked = match (heap.attribute(left, name), heap.attribute(right, name)) {
            (Some(first), Some(second)) => exact_python_value_equal(heap, first, second),
            _ => Err(Failure::Attribute),
        };
        match checked {
            Ok(true) => {},
            other => {
                return other;
            },
        }
        index = index + 1;
    }
    Ok(true)
}

/// Whether a manager's proxy is the one that its URL parses to.
pub open spec fn proxy_matches(heap: Heap, manager: usize, parsed: usize) -> Check {
    match heap.attribute_of(manager, "proxy"@) {
        None => Err(Failure::Attribute),
        Some(proxy) => if class_of(heap, proxy) != class_of(heap, parsed) {
            Ok(false)
        } else {
            both(
                same_parts(heap, proxy, parsed, url_parts()),
                match heap.attribute_of(parsed, "scheme"@) {
                    None => Err(Failure::Attribute),
                    Some(scheme) => if !heap.is_exactly(scheme, heap.intrinsics.text) {
                        Ok(false)
                    } else {
                        match (heap.attribute_of(parsed, "port"@), heap.text_of(scheme)) {
                            (None, _) => Err(Failure::Attribute),
                            (_, None) => Err(Failure::Kind),
                            (Some(port), Some(text)) => match heap.attribute_of(proxy, "port"@) {
                                None => Err(Failure::Attribute),
                                Some(own_port) => Ok(
                                    usize_value(heap, own_port) == expected_port(heap, text, port),
                                ),
                            },
                        }
                    },
                },
            )
        },
    }
}

/// The port that a proxy's URL stands for.
fn find_expected_port(heap: &Heap, scheme: &str, port: usize) -> (number: Option<usize>)
    ensures
        number == expected_port(*heap, scheme@, port),
{
    if heap.none_value(port) {
        let lower = lower_text(scheme);
        if same_text(lower.as_str(), "http") {
            Some(80)
        } else if same_text(lower.as_str(), "https") {
            Some(443)
        } else {
            None
        }
    } else {
        exact_usize(heap, port)
    }
}

/// Whether a manager's proxy is the one that its URL parses to.
pub fn check_proxy(heap: &Heap, manager: usize, parsed: usize) -> (check: Check)
    ensures
        check == proxy_matches(*heap, manager, parsed),
{
    let proxy = match heap.attribute(manager, "proxy") {
        Some(proxy) => proxy,
        None => {
            return Err(Failure::Attribute);
        },
    };
    if !same_number(object_class(heap, proxy), object_class(heap, parsed)) {
        return Ok(false);
    }
    match check_parts(heap, proxy, parsed) {
        Ok(true) => {},
        other => {
            return other;
        },
    }
    let scheme = match heap.attribute(parsed, "scheme") {
        Some(scheme) => scheme,
        None => {
            return Err(Failure::Attribute);
        },
    };
    if !heap.exactly(scheme, heap.intrinsics.text) {
        return Ok(false);
    }
    let port = match heap.attribute(parsed, "port") {
        Some(port) => port,
        None => {
            return Err(Failure::Attribute);
        },
    };
    match heap.text(scheme) {
        None => Err(Failure::Kind),
        Some(text) => match heap.attribute(proxy, "port") {
            None => Err(Failure::Attribute),
            Some(own_port) => Ok(
                same_number(
                    exact_usize(heap, own_port),
                    find_expected_port(heap, text.as_str(), port),
                ),
            ),
        },
    }
}

/// The keyword arguments of an HTTP proxy's connections.
pub open spec fn proxy_keys() -> Seq<Seq<char>> {
    seq!["maxsize"@, "block"@, "_proxy"@, "_proxy_headers"@, "_proxy_config"@]
}

/// Whether an attribute is missing or `None`.
pub open spec fn absent_or_none(heap: Heap, object: usize, name: Seq<char>) -> bool {
    match heap.attribute_of(object, name) {
        None => true,
        Some(value) => heap.is_none_value(value),
    }
}

/// Whether a proxy is reached without a TLS context of its own.
pub open spec fn plain_proxy_config(heap: Heap, manager: usize, config: usize) -> Check {
    match heap.attribute_of(manager, "proxy_ssl_context"@) {
        None => Err(Failure::Attribute),
        Some(context) => if !heap.is_none_value(context) {
            Ok(false)
        } else {
            match heap.attribute_of(config, "ssl_context"@) {
                None => Err(Failure::Attribute),
                Some(own) => if !heap.is_none_value(own) {
                    Ok(false)
                } else {
                    match heap.attribute_of(config, "use_forwarding_for_https"@) {
                        None => Err(Failure::Attribute),
                        Some(forwarding) => Ok(
                            exact_bool_value(heap, forwarding) == Some(false) && absent_or_none(
                                heap,
                                config,
                                "assert_hostname"@,
                            ) && absent_or_none(heap, config, "assert_fingerprint"@),
                        ),
                    }
                },
            }
        },
    }
}

/// Whether an attribute is missing or `None`.
fn is_absent_or_none(heap: &Heap, object: usize, name: &str) -> (yes: bool)
    ensures
        yes == absent_or_none(*heap, object, name@),
{
    match heap.attribute(object, name) {
        None => true,
        Some(value) => heap.none_value(value),
    }
}

/// Whether a proxy is reached without a TLS context of its own.
fn check_proxy_config(heap: &Heap, manager: usize, config: usize) -> (check: Check)
    ensures
        check == plain_proxy_config(*heap, manager, config),
{
    match heap.attribute(manager, "proxy_ssl_context") {
        None => {
            return Err(Failure::Attribute);
        },
        Some(context) => {
            if !heap.none_value(context) {
                return Ok(false);
            }
        },
    }
    match heap.attribute(config, "ssl_context") {
        None => {
            return Err(Failure::Attribute);
        },
        Some(own) => {
            if !heap.none_value(own) {
                return Ok(false);
            }
        },
    }
    match heap.attribute(config, "use_forwarding_for_https") {
        None => Err(Failure::Attribute),
        Some(forwarding) => Ok(
            bool_is(heap, forwarding, false) && is_absent_or_none(heap, config, "assert_hostname")
                && is_absent_or_none(heap, config, "assert_fingerprint"),
        ),
    }
}

/// Whether a manager hands its proxy, its proxy headers and its proxy
/// configuration to its connections, and nothing else.
pub open spec fn proxy_arguments(heap: Heap, manager: usize, expected_headers: usize) -> Check {
    match (heap.attribute_of(manager, "proxy_headers"@), heap.attribute_of(manager, "proxy"@)) {
        (Some(headers), Some(proxy)) => if !same_text_dicts(heap, headers, expected_headers) {
            Ok(false)
        } else {
            match heap.attribute_of(manager, "connection_pool_kw"@) {
                None => Err(Failure::Attribute),
                Some(kwargs) => match exact_dict_of(heap, kwargs) {
                    None => Ok(false),
                    Some(entries) => if !has_keys(heap, entries, proxy_keys()) {
                        Ok(false)
                    } else {
                        match (
                            heap.entry_of(kwargs, "_proxy"@),
                            heap.entry_of(kwargs, "_proxy_headers"@),
                            heap.entry_of(kwargs, "_proxy_config"@),
                        ) {
                            (
                                Some(own_proxy),
                                Some(own_headers),
                                Some(own_config),
                            ) => match heap.attribute_of(manager, "proxy_config"@) {
                                None => Err(Failure::Attribute),
                                Some(config) => if own_proxy != proxy || own_headers != headers
                                    || own_config != config {
                                    Ok(false)
                                } else {
                                    plain_proxy_config(heap, manager, config)
                                },
                            },
                            _ => Ok(false),
                        }
                    },
                },
            }
        },
        _ => Err(Failure::Attribute),
    }
}

/// Whether a manager hands its proxy, its proxy headers and its proxy
/// configuration to its connections, and nothing else.
pub fn check_proxy_arguments(heap: &Heap, manager: usize, expected_headers: usize) -> (check: Check)
    ensures
        check == proxy_arguments(*heap, manager, expected_headers),
{
    let (headers, proxy) = match (
        heap.attribute(manager, "proxy_headers"),
        heap.attribute(manager, "proxy"),
    ) {
        (Some(headers), Some(proxy)) => (headers, proxy),
        _ => {
            return Err(Failure::Attribute);
        },
    };
    if !exact_string_dict_equal(heap, headers, expected_headers) {
        return Ok(false);
    }
    let kwargs = match heap.attribute(manager, "connection_pool_kw") {
        Some(kwargs) => kwargs,
        None => {
            return Err(Failure::Attribute);
        },
    };
    let entries = match exact_dict(heap, kwargs) {
        Some(entries) => entries,
        None => {
            return Ok(false);
        },
    };
    let names: Vec<&'static str> = vec![
        "maxsize",
        "block",
        "_proxy",
        "_proxy_headers",
        "_proxy_config",
    ];
    assert(crate::adapter_state::name_views(names@) =~= proxy_keys());
    if !exact_dict_has_keys(heap, entries, &names) {
        return Ok(false);
    }
    match (
        heap.entry(kwargs, "_proxy"),
        heap.entry(kwargs, "_proxy_headers"),
        heap.entry(kwargs, "_proxy_config"),
    ) {
        (Some(own_proxy), Some(own_headers), Some(own_config)) => match heap.attribute(
            manager,
            "proxy_config",
        ) {
            None => Err(Failure::Attribute),
            Some(config) => {
                if own_proxy != proxy || own_headers != headers || own_config != config {
                    return Ok(false);
                }
                check_proxy_config(heap, manager, config)
            },
        },
        _ => Ok(false),
    }
}

/// Whether a manager is the HTTP proxy manager that the adapter would make.
/// `parsed` is what the URL parses to, and `expected_headers` what the adapter
/// gives for it.
pub open spec fn is_http_proxy_manager(
    heap: Heap,
    state: AdapterView,
    manager: usize,
    configuration: ProxyManagerConfiguration,
    parsed: usize,
    expected_headers: usize,
) -> Check {
    both(
        manager_base(
            heap,
            manager,
            state.proxy_manager.object,
            state.http_pool_classes,
            state.key_functions,
        ),
        both(
            manager_configured(heap, manager, configuration),
            both(
                proxy_matches(heap, manager, parsed),
                proxy_arguments(heap, manager, expected_headers),
            ),
        ),
    )
}

/// Whether a manager is the HTTP proxy manager that the adapter would make.
pub fn canonical_http_proxy_manager_is_pristine(
    heap: &Heap,
    state: &AdapterState,
    manager: usize,
    configuration: ProxyManagerConfiguration,
    parsed: usize,
    expected_headers: usize,
) -> (check: Check)
    ensures
        check == is_http_proxy_manager(
            *heap,
            state@,
            manager,
            configuration,
            parsed,
            expected_headers,
        ),
{
    match check_base(
        heap,
        manager,
        state.proxy_manager.object,
        &state.http_pool_classes,
        &state.key_functions,
    ) {
        Ok(true) => {},
        other => {
            return other;
        },
    }
    match canonical_manager_pool_configuration(heap, manager, configuration) {
        Ok(true) => {},
        other => {
            return other;
        },
    }
    match check_proxy(heap, manager, parsed) {
        Ok(true) => {},
        other => {
            return other;
        },
    }
    check_proxy_arguments(heap, manager, expected_headers)
}

/// The protocol version of a SOCKS scheme, and whether names are resolved by the
/// proxy.
pub open spec fn socks_protocol(scheme: Seq<char>) -> Option<(usize, bool)> {
    if lowered(scheme) == "socks4"@ {
        Some((1, false))
    } else if lowered(scheme) == "socks4a"@ {
        Some((1, true))
    } else if lowered(scheme) == "socks5"@ {
        Some((2, false))
    } else if lowered(scheme) == "socks5h"@ {
        Some((2, true))
    } else {
        None
    }
}

/// The protocol version of a SOCKS scheme.
pub fn socks_version(scheme: &str) -> (protocol: Option<(usize, bool)>)
    ensures
        protocol == socks_protocol(scheme@),
{
    let lower = lower_text(scheme);
    if same_text(lower.as_str(), "socks4") {
        Some((1, false))
    } else if same_text(lower.as_str(), "socks4a") {
        Some((1, true))
    } else if same_text(lower.as_str(), "socks5") {
        Some((2, false))
    } else if same_text(lower.as_str(), "socks5h") {
        Some((2, true))
    } else {
        None
    }
}

/// The options of a SOCKS proxy.
pub open spec fn socks_option_keys() -> Seq<Seq<char>> {
    seq![
        "socks_version"@,
        "proxy_host"@,
        "proxy_port"@,
        "username"@,
        "password"@,
        "rdns"@,
    ]
}

/// The keyword arguments of a SOCKS proxy's connections.
pub open spec fn socks_keys() -> Seq<Seq<char>> {
    seq!["maxsize"@, "block"@, "_socks_options"@]
}

/// Whether the credentials of a proxy's URL are two exact texts; no answer where
/// they are no tuple.
pub open spec fn credentials(heap: Heap, authentication: usize) -> Result<
    Option<(usize, usize)>,
    Failure,
> {
    match heap.tuple_of(authentication) {
        None => Err(Failure::Kind),
        Some(items) => if items.len() == 2 && heap.is_exactly(items[0], heap.intrinsics.text)
            && heap.is_exactly(items[1], heap.intrinsics.text) {
            Ok(Some((items[0], items[1])))
        } else {
            Ok(None)
        },
    }
}

/// The credentials of a proxy's URL.
fn read_credentials(heap: &Heap, authentication: usize) -> (result: Result<
    Option<(usize, usize)>,
    Failure,
>)
    ensures
        result == credentials(*heap, authentication),
{
    match heap.tuple(authentication) {
        None => Err(Failure::Kind),
        Some(items) => if items.len() == 2 && heap.exactly(items[0], heap.intrinsics.text)
            && heap.exactly(items[1], heap.intrinsics.text) {
            Ok(Some((items[0], items[1])))
        } else {
            Ok(None)
        },
    }
}

/// The options that a manager hands to its SOCKS connections, where it hands
/// nothing else.
pub open spec fn socks_options(heap: Heap, manager: usize) -> Result<Option<usize>, Failure> {
    match heap.attribute_of(manager, "connection_pool_kw"@) {
        None => Err(Failure::Attribute),
        Some(kwargs) => match exact_dict_of(heap, kwargs) {
            None => Ok(None),
            Some(entries) => if !has_keys(heap, entries, socks_keys()) {
                Ok(None)
            } else {
                match heap.entry_of(kwargs, "_socks_options"@) {
                    None => Ok(None),
                    Some(options) => match exact_dict_of(heap, options) {
                        None => Ok(None),
                        Some(held) => if has_keys(heap, held, socks_option_keys()) {
                            Ok(Some(options))
                        } else {
                            Ok(None)
                        },
                    },
                }
            },
        },
    }
}

/// The options that a manager hands to its SOCKS connections.
fn read_socks_options(heap: &Heap, manager: usize) -> (options: Result<Option<usize>, Failure>)
    ensures
        options == socks_options(*heap, manager),
{
    let kwargs = match heap.attribute(manager, "connection_pool_kw") {
        Some(kwargs) => kwargs,
        None => {
            return Err(Failure::Attribute);
        },
    };
    let entries = match exact_dict(heap, kwargs) {
        Some(entries) => entries,
        None => {
            return Ok(None);
        },
    };
    let names: Vec<&'static str> = vec!["maxsize", "block", "_socks_options"];
    assert(crate::adapter_state::name_views(names@) =~= socks_keys());
    if !exact_dict_has_keys(heap, entries, &names) {
        return Ok(None);
    }
    let options = match heap.entry(kwargs, "_socks_options") {
        Some(options) => options,
        None => {
            return Ok(None);
        },
    };
    let held = match exact_dict(heap, options) {
        Some(held) => held,
        None => {
            return Ok(None);
        },
    };
    let names: Vec<&'static str> = vec![
        "socks_version",
        "proxy_host",
        "proxy_port",
        "username",
        "password",
        "rdns",
    ];
    assert(crate::adapter_state::name_views(names@) =~= socks_option_keys());
    if exact_dict_has_keys(heap, held, &names) {
        Ok(Some(options))
    } else {
        Ok(None)
    }
}

/// Whether a proxy's port is the one of its URL, or both are missing.
pub open spec fn ports_match(heap: Heap, port: usize, parsed_port: usize) -> Check {
    if heap.is_none_value(port) && heap.is_none_value(parsed_port) {
        Ok(true)
    } else if usize_value(heap, port) is None {
        Ok(false)
    } else {
        same_value(heap, port, parsed_port)
    }
}

/// Whether a proxy's port is the one of its URL.
fn check_ports(heap: &Heap, port: usize, parsed_port: usize) -> (check: Check)
    ensures
        check == ports_match(*heap, port, parsed_port),
{
    if heap.none_value(port) && heap.none_value(parsed_port) {
        return Ok(true);
    }
    if exact_usize(heap, port).is_none() {
        return Ok(false);
    }
    exact_python_value_equal(heap, port, parsed_port)
}

/// Whether an object is an exact text equal to another text.
pub open spec fn exact_text_equals(heap: Heap, value: usize, expected: usize) -> bool {
    heap.exact_text_of(value) is Some && heap.exact_text_of(value) == heap.text_of(expected)
}

/// Whether an object is an exact text equal to another text.
fn check_exact_text(heap: &Heap, value: usize, expected: usize) -> (equal: bool)
    ensures
        equal == exact_text_equals(*heap, value, expected),
{
    match heap.text(expected) {
        Some(text) => heap.exact_text_is(value, text.as_str()),
        None => false,
    }
}

/// Whether SOCKS options are those of a URL.
pub open spec fn socks_options_match(
    heap: Heap,
    options: usize,
    parsed: usize,
    protocol: (usize, bool),
    user: usize,
    secret: usize,
) -> Check {
    match (
        heap.entry_of(options, "socks_version"@),
        heap.entry_of(options, "proxy_host"@),
        heap.entry_of(options, "proxy_port"@),
        heap.entry_of(options, "username"@),
        heap.entry_of(options, "password"@),
        heap.entry_of(options, "rdns"@),
    ) {
        (
            Some(version),
            Some(host),
            Some(port),
            Some(username),
            Some(password),
            Some(rdns),
        ) => match (heap.attribute_of(parsed, "host"@), heap.attribute_of(parsed, "port"@)) {
            (Some(parsed_host), Some(parsed_port)) => both(
                Ok(
                    usize_value(heap, version) == Some(protocol.0) && heap.is_exactly(
                        host,
                        heap.intrinsics.text,
                    ),
                ),
                both(
                    same_value(heap, host, parsed_host),
                    both(
                        ports_match(heap, port, parsed_port),
                        Ok(
                            exact_text_equals(heap, username, user) && exact_text_equals(
                                heap,
                                password,
                                secret,
                            ) && exact_bool_value(heap, rdns) == Some(protocol.1),
                        ),
                    ),
                ),
            ),
            _ => Err(Failure::Attribute),
        },
        _ => Ok(false),
    }
}

/// Whether SOCKS options are those of a URL.
fn check_socks_options(
    heap: &Heap,
    options: usize,
    parsed: usize,
    protocol: (usize, bool),
    user: usize,
    secret: usize,
) -> (check: Check)
    ensures
        check == socks_options_match(*heap, options, parsed, protocol, user, secret),
{
    match (
        heap.entry(options, "socks_version"),
        heap.entry(options, "proxy_host"),
        heap.entry(options, "proxy_port"),
        heap.entry(options, "username"),
        heap.entry(options, "password"),
        heap.entry(options, "rdns"),
    ) {
        (
            Some(version),
            Some(host),
            Some(port),
            Some(username),
            Some(password),
            Some(rdns),
        ) => match (heap.attribute(parsed, "host"), heap.attribute(parsed, "port")) {
            (Some(parsed_host), Some(parsed_port)) => {
                if !usize_is(heap, version, protocol.0) || !heap.exactly(
                    host,
                    heap.intrinsics.text,
                ) {
                    return Ok(false);
                }
                match exact_python_value_equal(heap, host, parsed_host) {
                    Ok(true) => {},
                    other => {
                        return other;
                    },
                }
                match check_ports(heap, port, parsed_port) {
                    Ok(true) => {},
                    other => {
                        return other;
                    },
                }
                Ok(
                    check_exact_text(heap, username, user) && check_exact_text(
                        heap,
                        password,
                        secret,
                    ) && bool_is(heap, rdns, protocol.1),
                )
            },
            _ => Err(Failure::Attribute),
        },
        _ => Ok(false),
    }
}

/// Whether a manager is the SOCKS proxy manager that the adapter would make.
/// `parsed` is what the URL parses to, and `authentication` the credentials in
/// it.
pub open spec fn is_socks_proxy_manager(
    heap: Heap,
    state: AdapterView,
    proxy_url: usize,
    manager: usize,
    configuration: ProxyManagerConfiguration,
    parsed: usize,
    authentication: usize,
) -> Check {
    match state.socks_pool_classes {
        None => Ok(false),
        Some(pool_classes) => both(
            manager_base(
                heap,
                manager,
                state.socks_manager.object,
                pool_classes,
                state.key_functions,
            ),
            both(
                crate::retry::attribute_is(heap, manager, "proxy_url"@, proxy_url),
                both(
                    manager_configured(heap, manager, configuration),
                    socks_rest(heap, manager, parsed, authentication),
                ),
            ),
        ),
    }
}

/// Whether a SOCKS proxy manager's options are those of its URL.
pub open spec fn socks_rest(heap: Heap, manager: usize, parsed: usize, authentication: usize) -> Check {
    match heap.attribute_of(parsed, "scheme"@) {
        None => Err(Failure::Attribute),
        Some(scheme) => if !heap.is_exactly(scheme, heap.intrinsics.text) {
            Ok(false)
        } else {
            match heap.text_of(scheme) {
                None => Err(Failure::Kind),
                Some(text) => match socks_protocol(text) {
                    None => Ok(false),
                    Some(protocol) => match credentials(heap, authentication) {
                        Err(failure) => Err(failure),
                        Ok(None) => Ok(false),
                        Ok(Some(pair)) => match socks_options(heap, manager) {
                            Err(failure) => Err(failure),
                            Ok(None) => Ok(false),
                            Ok(Some(options)) => socks_options_match(
                                heap,
                                options,
                                parsed,
                                protocol,
                                pair.0,
                                pair.1,
                            ),
                        },
                    },
                },
            }
        },
    }
}

/// Whether a SOCKS proxy manager's options are those of its URL.
fn check_socks_rest(heap: &Heap, manager: usize, parsed: usize, authentication: usize) -> (check:
    Check)
    ensures
        check == socks_rest(*heap, manager, parsed, authentication),
{
    let scheme = match heap.attribute(parsed, "scheme") {
        Some(scheme) => scheme,
        None => {
            return Err(Failure::Attribute);
        },
    };
    if !heap.exactly(scheme, heap.intrinsics.text) {
        return Ok(false);
    }
    let protocol = match heap.text(scheme) {
        None => {
            return Err(Failure::Kind);
        },
        Some(text) => match socks_version(text.as_str()) {
            Some(protocol) => protocol,
            None => {
                return Ok(false);
            },
        },
    };
    let pair = match read_credentials(heap, authentication) {
        Err(failure) => {
            return Err(failure);
        },
        Ok(None) => {
            return Ok(false);
        },
        Ok(Some(pair)) => pair,
    };
    match read_socks_options(heap, manager) {
        Err(failure) => Err(failure),
        Ok(None) => Ok(false),
        Ok(Some(options)) => check_socks_options(
            heap,
            options,
            parsed,
            protocol,
            pair.0,
            pair.1,
        ),
    }
}

/// Whether a manager is the SOCKS proxy manager that the adapter would make.
pub fn canonical_socks_proxy_manager_is_pristine(
    heap: &Heap,
    state: &AdapterState,
    proxy_url: usize,
    manager: usize,
    configuration: ProxyManagerConfiguration,
    parsed: usize,
    authentication: usize,
) -> (check: Check)
    ensures
        check == is_socks_proxy_manager(
            *heap,
            state@,
            proxy_url,
            manager,
            configuration,
            parsed,
            authentication,
        ),
{
    match &state.socks_pool_classes {
        None => Ok(false),
        Some(pool_classes) => {
            match check_base(
                heap,
                manager,
                state.socks_manager.object,
                pool_classes,
                &state.key_functions,
            ) {
                Ok(true) => {},
                other => {
                    return other;
                },
            }
            match crate::retry::check_attribute_is(heap, manager, "proxy_url", proxy_url) {
                Ok(true) => {},
                other => {
                    return other;
                },
            }
            match canonical_manager_pool_configuration(heap, manager, configuration) {
                Ok(true) => {},
                other => {
                    return other;
                },
            }
            check_socks_rest(heap, manager, parsed, authentication)
        },
    }
}

/// Whether a proxy's URL is of a SOCKS proxy.
pub fn is_socks_url(url: &str) -> (socks: bool)
    ensures
        socks == "socks"@.is_prefix_of(lowered(url@)),
{
    let lower = lower_text(url);
    crate::errors::begins_with(lower.as_str(), "socks")
}

/// Whether every entry of a dict stands in a later one, and nothing else.
pub open spec fn still_current(heap: Heap, snapshot: Seq<Pair>, later: Heap, current: usize) -> bool {
    match later.dict_of(current) {
        None => false,
        Some(entries) => snapshot.len() == entries.len() && forall|index: int|
            0 <= index < snapshot.len() ==> (heap.exact_text_of((#[trigger] snapshot[index]).key)
                matches Some(text) && later.entry_of(current, text) == Some(
                snapshot[index].value,
            )),
    }
}

/// Whether every entry of a dict stands in a later one, and nothing else.
pub fn exact_dict_snapshot_is_current(
    heap: &Heap,
    snapshot: &Vec<Pair>,
    later: &Heap,
    current: usize,
) -> (same: bool)
    ensures
        same == still_current(*heap, snapshot@, *later, current),
{
    match later.dict(current) {
        None => {
            return false;
        },
        Some(entries) => {
            if snapshot.len() != entries.len() {
                return false;
            }
        },
    }
    let mut index: usize = 0;
    while index < snapshot.len()
        invariant
            index <= snapshot.len(),
            later.dict_of(current) is Some,
            later.dict_of(current)->Some_0.len() == snapshot.len(),
            forall|i: int|
                0 <= i < index ==> (heap.exact_text_of((#[trigger] snapshot@[i]).key) matches Some(
                    text,
                ) && later.entry_of(current, text) == Some(snapshot@[i].value)),
        decreases snapshot.len() - index,
    {
        let pair = snapshot[index];
        if !heap.exactly(pair.key, heap.intrinsics.text) {
            assert(heap.exact_text_of(snapshot@[index as int].key) is None);
            return false;
        }
        match heap.text(pair.key) {
            None => {
                assert(heap.exact_text_of(snapshot@[index as int].key) is None);
                return false;
            },
            Some(text) => {
                assert(heap.exact_text_of(snapshot@[index as int].key) == Some(text@));
                match later.entry(current, text.as_str()) {
                    None => {
                        return false;
                    },
                    Some(value) => {
                        if value != pair.value {
                            return false;
                        }
                    },
                }
            },
        }
        index = index + 1;
    }
    true
}

/// Where nothing changed between two readings and the pools report how many
/// they are, the pools' proof is stable at the first try.
pub proof fn law_unchanged_pools_are_stable(heap: Heap, manager: usize)
    requires
        crate::behavior::has_distinct_names(heap),
        pools_of(heap, manager) matches Ok(pools) ==> length_of(heap, pools.pools) == Ok::<
            nat,
            Failure,
        >(pools.count),
    ensures
        pools_of(heap, manager) matches Ok(pools) ==> stable_pools(heap, heap, manager) == Ok::<
            Option<PoolsView>,
            Failure,
        >(Some(pools)),
{
    match pools_of(heap, manager) {
        Err(_) => {},
        Ok(pools) => {
            crate::behavior::law_fresh_proof_is_pristine(heap, pools.pools);
            crate::behavior::law_fresh_proof_is_pristine(heap, pools.container.mapping);
        },
    }
}

/// Whether an object's attribute is an exact number.
pub open spec fn holds_size(heap: Heap, object: usize, name: Seq<char>, size: usize) -> bool {
    heap.attribute_of(object, name) matches Some(value) && usize_value(heap, value) == Some(size)
}

/// A number is taken exactly where it is an exact integer, no truth value, and
/// fits.
pub proof fn law_sizes_are_exact_integers(heap: Heap, value: usize, size: usize)
    ensures
        usize_value(heap, value) == Some(size) <==> heap.is_exactly(value, heap.intrinsics.int)
            && !heap.is_exactly(value, heap.intrinsics.boolean) && heap.int_of(value) == Some(
            size as int,
        ),
{
}

/// A manager is configured as asked exactly where it has no headers of its own,
/// its pools are made with the asked size and waiting, and it holds at most as
/// many pools as asked, none of which is disposed of in a way of its own.
pub proof fn law_managers_are_configured_as_asked(
    heap: Heap,
    manager: usize,
    configuration: ProxyManagerConfiguration,
)
    ensures
        manager_configured(heap, manager, configuration) == Ok::<bool, Failure>(true) <==> {
            &&& heap.attribute_of(manager, "headers"@) matches Some(headers) && exact_dict_of(
                heap,
                headers,
            ) matches Some(entries) && entries.len() == 0
            &&& heap.attribute_of(manager, "connection_pool_kw"@) matches Some(kwargs)
                && exact_dict_of(heap, kwargs) is Some && (heap.entry_of(
                kwargs,
                "maxsize"@,
            ) matches Some(maxsize) && usize_value(heap, maxsize) == Some(
                configuration.pool_maxsize,
            )) && (heap.entry_of(kwargs, "block"@) matches Some(block) && exact_bool_value(
                heap,
                block,
            ) == Some(configuration.pool_block))
            &&& heap.attribute_of(manager, "pools"@) matches Some(pools) && holds_size(
                heap,
                pools,
                "_maxsize"@,
                configuration.pool_connections,
            ) && (heap.attribute_of(pools, "dispose_func"@) matches Some(dispose)
                && heap.is_none_value(dispose))
        },
{
}

/// A manager is that of its adapter exactly where its pools are made as the
/// adapter says, with nothing else, and it has no headers of its own.
pub proof fn law_managers_follow_their_adapter(heap: Heap, adapter: usize, manager: usize)
    ensures
        adapter_configured(heap, adapter, manager) == Ok::<bool, Failure>(true) ==> {
            &&& heap.attribute_of(manager, "connection_pool_kw"@) matches Some(kwargs)
                && heap.dict_of(kwargs) matches Some(entries) && entries.len() == 2 && (
            heap.entry_of(kwargs, "maxsize"@) matches Some(maxsize) && heap.attribute_of(
                adapter,
                "_pool_maxsize"@,
            ) matches Some(own) && usize_value(heap, maxsize) == usize_value(heap, own)) && (
            heap.entry_of(kwargs, "block"@) matches Some(block) && heap.attribute_of(
                adapter,
                "_pool_block"@,
            ) matches Some(own) && exact_bool_value(heap, block) is Some && exact_bool_value(
                heap,
                block,
            ) == exact_bool_value(heap, own))
            &&& heap.attribute_of(manager, "headers"@) matches Some(headers) && exact_dict_of(
                heap,
                headers,
            ) matches Some(entries) && entries.len() == 0
            &&& heap.attribute_of(manager, "pools"@) matches Some(pools) && heap.attribute_of(
                pools,
                "_maxsize"@,
            ) matches Some(maxsize) && heap.attribute_of(
                adapter,
                "_pool_connections"@,
            ) matches Some(own) && usize_value(heap, maxsize) is Some && (usize_value(heap, own)
                is Some ==> usize_value(heap, maxsize) == usize_value(heap, own)) && (
            heap.attribute_of(pools, "dispose_func"@) matches Some(dispose) && heap.is_none_value(
                dispose,
            ))
        },
{
}

/// A manager is of the class that was first met exactly where it is of it, the
/// class is unchanged, and the manager has a dict of its own.
pub proof fn law_managers_are_of_their_class(heap: Heap, state: AdapterView, manager: usize)
    ensures
        manager_identity(heap, state, manager) == Ok::<bool, Failure>(true) <==> {
            &&& heap.is_exactly(manager, state.poolmanager.object)
            &&& checked(heap, state.poolmanager.facts) == Ok::<bool, Failure>(true)
            &&& heap.attribute_of(manager, "__dict__"@) matches Some(dictionary) && heap.dict_of(
                dictionary,
            ) is Some
        },
{
}

/// Values of one class are the same exactly where both are `None`, or have the
/// same characters or the same number. Order does not matter, and a value is the
/// same as itself wherever it can be told.
pub proof fn law_same_values(heap: Heap, left: usize, right: usize)
    ensures
        same_value(heap, left, right) == Ok::<bool, Failure>(true) ==> (heap.at(left) matches Some(
            first,
        ) && heap.at(right) matches Some(second) && first.class == second.class),
        same_value(heap, left, right) == Ok::<bool, Failure>(true) ==> (heap.is_none_value(left)
            && heap.is_none_value(right)) || (heap.text_of(left) is Some && heap.text_of(left)
            == heap.text_of(right)) || (heap.int_of(left) is Some && heap.int_of(left)
            == heap.int_of(right)),
        same_value(heap, left, right) is Ok ==> same_value(heap, right, left) == same_value(
            heap,
            left,
            right,
        ),
        heap.is_none_value(left) || heap.text_of(left) is Some || heap.int_of(left) is Some
            ==> same_value(heap, left, left) == Ok::<bool, Failure>(true),
{
}

/// A manager routes by the classes and keys that were first met, and is of the
/// class that is asked for.
pub proof fn law_bases_of_managers(
    heap: Heap,
    manager: usize,
    class: usize,
    pool_classes: RoutingView,
    key_functions: RoutingView,
)
    ensures
        manager_base(heap, manager, class, pool_classes, key_functions) == Ok::<bool, Failure>(true)
            <==> {
            &&& heap.is_exactly(manager, class)
            &&& heap.attribute_of(manager, "pool_classes_by_scheme"@) matches Some(classes)
                && is_canonical_routing(heap, classes, pool_classes) == Ok::<bool, Failure>(true)
            &&& heap.attribute_of(manager, "key_fn_by_scheme"@) matches Some(keys)
                && is_canonical_routing(heap, keys, key_functions) == Ok::<bool, Failure>(true)
        },
{
}

/// The port of a proxy is the one that is written, or that of its scheme.
pub proof fn law_ports_of_proxies(heap: Heap, scheme: Seq<char>, port: usize)
    ensures
        !heap.is_none_value(port) ==> expected_port(heap, scheme, port) == usize_value(heap, port),
        heap.is_none_value(port) && lowered(scheme) == "http"@ ==> expected_port(heap, scheme, port)
            == Some(80usize),
        heap.is_none_value(port) && expected_port(heap, scheme, port) == Some(443usize) ==> lowered(
            scheme,
        ) == "https"@,
        heap.is_none_value(port) && lowered(scheme) != "http"@ && lowered(scheme) != "https"@
            ==> expected_port(heap, scheme, port) is None,
        heap.is_none_value(port) && lowered(scheme) == "https"@ && "https"@ != "http"@
            ==> expected_port(heap, scheme, port) == Some(443usize),
{
}

/// Two URLs agree in a list of parts exactly where they agree in each.
pub proof fn law_same_parts_agree_in_each(
    heap: Heap,
    left: usize,
    right: usize,
    parts: Seq<Seq<char>>,
)
    ensures
        same_parts(heap, left, right, parts) == Ok::<bool, Failure>(true) <==> forall|index: int|
            0 <= index < parts.len() ==> part_agrees(heap, left, right, #[trigger] parts[index]),
    decreases parts.len(),
{
    if parts.len() > 0 {
        let rest = parts.drop_first();
        law_same_parts_agree_in_each(heap, left, right, rest);
        if same_parts(heap, left, right, parts) == Ok::<bool, Failure>(true) {
            assert forall|index: int| 0 <= index < parts.len() implies part_agrees(
                heap,
                left,
                right,
                #[trigger] parts[index],
            ) by {
                if index > 0 {
                    assert(rest[index - 1] == parts[index]);
                }
            }
        } else if forall|index: int|
            0 <= index < parts.len() ==> part_agrees(heap, left, right, #[trigger] parts[index]) {
            assert(part_agrees(heap, left, right, parts[0]));
            assert forall|index: int| 0 <= index < rest.len() implies part_agrees(
                heap,
                left,
                right,
                #[trigger] rest[index],
            ) by {
                assert(rest[index] == parts[index + 1]);
            }
        }
    }
}

/// Whether two URLs agree in a part.
pub open spec fn part_agrees(heap: Heap, left: usize, right: usize, part: Seq<char>) -> bool {
    heap.attribute_of(left, part) matches Some(first) && heap.attribute_of(
        right,
        part,
    ) matches Some(second) && same_value(heap, first, second) == Ok::<bool, Failure>(true)
}

/// A manager's proxy is the one that was asked for exactly where it agrees with it
/// in every part of the URL, and its port is the one that the URL stands for.
pub proof fn law_proxies_agree_in_each_part(heap: Heap, manager: usize, parsed: usize)
    ensures
        proxy_matches(heap, manager, parsed) == Ok::<bool, Failure>(true) <==> (heap.attribute_of(
            manager,
            "proxy"@,
        ) matches Some(proxy) && {
            &&& class_of(heap, proxy) == class_of(heap, parsed)
            &&& part_agrees(heap, proxy, parsed, "scheme"@)
            &&& part_agrees(heap, proxy, parsed, "auth"@)
            &&& part_agrees(heap, proxy, parsed, "host"@)
            &&& part_agrees(heap, proxy, parsed, "path"@)
            &&& part_agrees(heap, proxy, parsed, "query"@)
            &&& part_agrees(heap, proxy, parsed, "fragment"@)
            &&& heap.attribute_of(parsed, "scheme"@) matches Some(scheme)
            &&& heap.is_exactly(scheme, heap.intrinsics.text)
            &&& heap.text_of(scheme) matches Some(text)
            &&& heap.attribute_of(parsed, "port"@) matches Some(port)
            &&& heap.attribute_of(proxy, "port"@) matches Some(own)
            &&& usize_value(heap, own) == expected_port(heap, text, port)
        }),
{
    if let Some(proxy) = heap.attribute_of(manager, "proxy"@) {
        let parts = url_parts();
        law_same_parts_agree_in_each(heap, proxy, parsed, parts);
        assert(parts[0] == "scheme"@ && parts[1] == "auth"@ && parts[2] == "host"@ && parts[3]
            == "path"@ && parts[4] == "query"@ && parts[5] == "fragment"@);
        if same_parts(heap, proxy, parsed, parts) == Ok::<bool, Failure>(true) {
            assert(part_agrees(heap, proxy, parsed, parts[0]));
            assert(part_agrees(heap, proxy, parsed, parts[1]));
            assert(part_agrees(heap, proxy, parsed, parts[2]));
            assert(part_agrees(heap, proxy, parsed, parts[3]));
            assert(part_agrees(heap, proxy, parsed, parts[4]));
            assert(part_agrees(heap, proxy, parsed, parts[5]));
        }
    }
}

/// A proxy is reached plainly exactly where nothing about its encryption is set
/// and requests are not forwarded to it.
pub proof fn law_plain_proxies(heap: Heap, manager: usize, config: usize)
    ensures
        plain_proxy_config(heap, manager, config) == Ok::<bool, Failure>(true) <==> {
            &&& heap.attribute_of(manager, "proxy_ssl_context"@) matches Some(context)
                && heap.is_none_value(context)
            &&& heap.attribute_of(config, "ssl_context"@) matches Some(own) && heap.is_none_value(
                own,
            )
            &&& heap.attribute_of(config, "use_forwarding_for_https"@) matches Some(forwarding)
                && exact_bool_value(heap, forwarding) == Some(false)
            &&& heap.attribute_of(config, "assert_hostname"@) matches Some(value)
                ==> heap.is_none_value(value)
            &&& heap.attribute_of(config, "assert_fingerprint"@) matches Some(value)
                ==> heap.is_none_value(value)
        },
{
}

/// What a manager hands to its pools about its proxy is its own proxy, its own
/// headers, which are those that were asked for, and its own plain configuration.
pub proof fn law_proxy_arguments_are_the_managers_own(
    heap: Heap,
    manager: usize,
    expected_headers: usize,
)
    ensures
        proxy_arguments(heap, manager, expected_headers) == Ok::<bool, Failure>(true) <==> {
            &&& heap.attribute_of(manager, "proxy_headers"@) matches Some(headers)
                && same_text_dicts(heap, headers, expected_headers)
            &&& heap.attribute_of(manager, "proxy"@) is Some
            &&& heap.attribute_of(manager, "proxy_config"@) matches Some(config)
                && plain_proxy_config(heap, manager, config) == Ok::<bool, Failure>(true)
            &&& heap.attribute_of(manager, "connection_pool_kw"@) matches Some(kwargs) && (
            exact_dict_of(heap, kwargs) matches Some(entries) && has_keys(
                heap,
                entries,
                proxy_keys(),
            )) && heap.entry_of(kwargs, "_proxy"@) is Some && heap.entry_of(kwargs, "_proxy"@)
                == heap.attribute_of(manager, "proxy"@) && heap.entry_of(kwargs, "_proxy_headers"@)
                == heap.attribute_of(manager, "proxy_headers"@) && heap.entry_of(
                kwargs,
                "_proxy_config"@,
            ) == heap.attribute_of(manager, "proxy_config"@)
        },
{
}

/// A manager is that of an HTTP proxy exactly where its base, its configuration,
/// its proxy and its arguments are those that were asked for.
pub proof fn law_managers_of_http_proxies(
    heap: Heap,
    state: AdapterView,
    manager: usize,
    configuration: ProxyManagerConfiguration,
    parsed: usize,
    expected_headers: usize,
)
    ensures
        is_http_proxy_manager(heap, state, manager, configuration, parsed, expected_headers)
            == Ok::<bool, Failure>(true) <==> {
            &&& manager_base(
                heap,
                manager,
                state.proxy_manager.object,
                state.http_pool_classes,
                state.key_functions,
            ) == Ok::<bool, Failure>(true)
            &&& manager_configured(heap, manager, configuration) == Ok::<bool, Failure>(true)
            &&& proxy_matches(heap, manager, parsed) == Ok::<bool, Failure>(true)
            &&& proxy_arguments(heap, manager, expected_headers) == Ok::<bool, Failure>(true)
        },
{
}

/// The schemes of SOCKS name its version, and the ones that end in a letter leave
/// the names of hosts to the proxy.
pub proof fn law_schemes_of_socks(scheme: Seq<char>)
    ensures
        socks_protocol(scheme) == Some((1usize, false)) ==> lowered(scheme) == "socks4"@,
        socks_protocol(scheme) == Some((1usize, true)) ==> lowered(scheme) == "socks4a"@,
        socks_protocol(scheme) == Some((2usize, false)) ==> lowered(scheme) == "socks5"@,
        socks_protocol(scheme) == Some((2usize, true)) ==> lowered(scheme) == "socks5h"@,
        socks_protocol(scheme) is None <==> lowered(scheme) != "socks4"@ && lowered(scheme)
            != "socks4a"@ && lowered(scheme) != "socks5"@ && lowered(scheme) != "socks5h"@,
        socks_protocol(scheme) matches Some(protocol) ==> protocol.0 == 1 || protocol.0 == 2,
{
}

/// The options of a SOCKS manager are those that were asked for exactly where each
/// is, under its own name: the version, the host, the port, the name, the password
/// and who resolves names.
pub proof fn law_options_of_socks(
    heap: Heap,
    options: usize,
    parsed: usize,
    protocol: (usize, bool),
    user: usize,
    secret: usize,
)
    ensures
        socks_options_match(heap, options, parsed, protocol, user, secret) == Ok::<bool, Failure>(
            true,
        ) <==> {
            &&& heap.entry_of(options, "socks_version"@) matches Some(version) && usize_value(
                heap,
                version,
            ) == Some(protocol.0)
            &&& heap.entry_of(options, "proxy_host"@) matches Some(host)
            &&& heap.is_exactly(host, heap.intrinsics.text)
            &&& heap.attribute_of(parsed, "host"@) matches Some(parsed_host)
            &&& same_value(heap, host, parsed_host) == Ok::<bool, Failure>(true)
            &&& heap.entry_of(options, "proxy_port"@) matches Some(port) && heap.attribute_of(
                parsed,
                "port"@,
            ) matches Some(parsed_port) && ports_match(heap, port, parsed_port) == Ok::<
                bool,
                Failure,
            >(true)
            &&& heap.entry_of(options, "username"@) matches Some(username) && exact_text_equals(
                heap,
                username,
                user,
            )
            &&& heap.entry_of(options, "password"@) matches Some(password) && exact_text_equals(
                heap,
                password,
                secret,
            )
            &&& heap.entry_of(options, "rdns"@) matches Some(rdns) && exact_bool_value(heap, rdns)
                == Some(protocol.1)
        },
{
}

/// A manager is that of a SOCKS proxy exactly where its base, its URL, its
/// configuration and its options are those that were asked for, with the name and
/// the password of the URL in this order.
pub proof fn law_managers_of_socks_proxies(
    heap: Heap,
    state: AdapterView,
    proxy_url: usize,
    manager: usize,
    configuration: ProxyManagerConfiguration,
    parsed: usize,
    authentication: usize,
)
    ensures
        is_socks_proxy_manager(
            heap,
            state,
            proxy_url,
            manager,
            configuration,
            parsed,
            authentication,
        ) == Ok::<bool, Failure>(true) <==> {
            &&& state.socks_pool_classes matches Some(classes) && manager_base(
                heap,
                manager,
                state.socks_manager.object,
                classes,
                state.key_functions,
            ) == Ok::<bool, Failure>(true)
            &&& heap.attribute_of(manager, "proxy_url"@) == Some(proxy_url)
            &&& manager_configured(heap, manager, configuration) == Ok::<bool, Failure>(true)
            &&& heap.attribute_of(parsed, "scheme"@) matches Some(scheme)
            &&& heap.is_exactly(scheme, heap.intrinsics.text)
            &&& heap.text_of(scheme) matches Some(text)
            &&& socks_protocol(text) matches Some(protocol)
            &&& heap.tuple_of(authentication) matches Some(pair)
            &&& pair.len() == 2
            &&& heap.is_exactly(pair[0], heap.intrinsics.text)
            &&& heap.is_exactly(pair[1], heap.intrinsics.text)
            &&& socks_options(heap, manager) matches Ok(Some(options))
            &&& socks_options_match(heap, options, parsed, protocol, pair[0], pair[1]) == Ok::<
                bool,
                Failure,
            >(true)
        },
{
}

/// A manager that was taken is what it was taken as, also later: its record is
/// pristine then, it is that manager's, and it routes by the classes and keys that
/// were first met.
pub proof fn law_taken_managers_are_pristine(
    seen: Heap,
    later: Heap,
    manager: usize,
    pool_classes: RoutingView,
    key_functions: RoutingView,
    record: RecordView,
)
    requires
        manager_attempted(seen, later, manager, pool_classes, key_functions) == Ok::<
            AttemptView,
            Failure,
        >(AttemptView::Taken(record)),
    ensures
        record.manager.manager == manager,
        record_pristine(later, manager, record) == Ok::<bool, Failure>(true),
        immutable_pristine(later, manager, record.manager) == Ok::<bool, Failure>(true),
        pools_pristine(later, manager, record.pools) == Ok::<bool, Failure>(true),
        class_of(later, manager) == Some(record.manager.manager_type),
        pools_of(seen, manager) == Ok::<PoolsView, Failure>(record.pools),
        routes_canonically(seen, record.manager.mappings, pool_classes, key_functions) == Ok::<
            bool,
            Failure,
        >(true),
{
}

/// A manager's record is pristine only where the manager is the same, its class
/// unchanged, and its pools hold what they held, as many as they were.
pub proof fn law_pristine_records(heap: Heap, manager: usize, record: RecordView)
    requires
        record_pristine(heap, manager, record) == Ok::<bool, Failure>(true),
    ensures
        manager == record.manager.manager,
        class_of(heap, manager) == Some(record.manager.manager_type),
        is_pristine(heap, record.manager.manager_type, record.manager.class_behavior) == Ok::<
            bool,
            Failure,
        >(true),
        checked(heap, record.manager.objects) == Ok::<bool, Failure>(true),
        mappings_pristine(heap, manager, record.manager.mappings) == Ok::<bool, Failure>(true),
        heap.attribute_of(manager, "pools"@) == Some(record.pools.pools),
        checked(heap, record.pools.namespace) == Ok::<bool, Failure>(true),
        heap.attribute_of(record.pools.pools, "_container"@) == Some(record.pools.container.mapping),
        heap.pairs_of(record.pools.container.mapping) == Some(record.pools.container.entries),
        length_of(heap, record.pools.pools) == Ok::<nat, Failure>(record.pools.count),
{
}

/// A snapshot of a dict is current exactly where the dict holds as many entries,
/// and each of the snapshot under its own text.
pub proof fn law_current_snapshots(heap: Heap, snapshot: Seq<Pair>, later: Heap, current: usize)
    ensures
        still_current(heap, snapshot, later, current) ==> (later.dict_of(current) matches Some(
            entries,
        ) && entries.len() == snapshot.len()),
        still_current(heap, snapshot, later, current) ==> forall|index: int|
            0 <= index < snapshot.len() ==> (heap.exact_text_of((#[trigger] snapshot[index]).key)
                matches Some(text) && later.entry_of(current, text) == Some(
                snapshot[index].value,
            )),
        later.dict_of(current) is None ==> !still_current(heap, snapshot, later, current),
{
}

/// The dicts of a manager that are remembered are these five, those of routing as
/// such.
pub proof fn law_remembered_mappings(name: Seq<char>)
    ensures
        mapping_names().len() == 5,
        mapping_names().contains("headers"@),
        mapping_names().contains("connection_pool_kw"@),
        mapping_names().contains("pool_classes_by_scheme"@),
        mapping_names().contains("key_fn_by_scheme"@),
        mapping_names().contains("proxy_headers"@),
        is_routing_name(name) <==> name == "pool_classes_by_scheme"@ || name == "key_fn_by_scheme"@,
        proxy_keys().len() == 5,
        proxy_keys().contains("maxsize"@) && proxy_keys().contains("block"@)
            && proxy_keys().contains("_proxy"@) && proxy_keys().contains("_proxy_headers"@)
            && proxy_keys().contains("_proxy_config"@),
        socks_keys().len() == 3,
        socks_keys().contains("maxsize"@) && socks_keys().contains("block"@)
            && socks_keys().contains("_socks_options"@),
        socks_option_keys().len() == 6,
{
    let names = mapping_names();
    assert(names[0] == "headers"@ && names[1] == "connection_pool_kw"@ && names[2]
        == "pool_classes_by_scheme"@ && names[3] == "key_fn_by_scheme"@ && names[4]
        == "proxy_headers"@);
    let keys = proxy_keys();
    assert(keys[0] == "maxsize"@ && keys[1] == "block"@ && keys[2] == "_proxy"@ && keys[3]
        == "_proxy_headers"@ && keys[4] == "_proxy_config"@);
    let socks = socks_keys();
    assert(socks[0] == "maxsize"@ && socks[1] == "block"@ && socks[2] == "_socks_options"@);
}

} // verus!
