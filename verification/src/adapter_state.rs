//! The HTTP adapter's class and its surroundings, as they were first met.

use vstd::prelude::*;
use vstd::string::StringExecFns;

use crate::behavior::{behavior_proof, check_facts, copied_pairs, mapping_proof, same_pairs, Fact};
use crate::behavior::{behavior_of, checked, fact_views, mapping_of, Observation};
use crate::body_prepare::undefined_name_message;
use crate::heap::{Check, Failure, Heap, Pair};
use crate::heap::both;
use crate::retry::check_attribute_is;
use crate::retry::attribute_is;
use crate::text::same_text;

verus! {

/// An object with what its behaviour rested on.
pub struct BehaviorProof {
    pub object: usize,
    pub facts: Vec<Fact>,
}

/// What a proof says.
pub struct BehaviorView {
    pub object: usize,
    pub facts: Seq<Observation>,
}

impl View for BehaviorProof {
    type V = BehaviorView;

    open spec fn view(&self) -> BehaviorView {
        BehaviorView { object: self.object, facts: fact_views(self.facts@) }
    }
}

/// The proof of an object's behaviour.
pub open spec fn proof_of(heap: Heap, object: usize) -> Result<BehaviorView, Failure> {
    match behavior_of(heap, object) {
        Ok(facts) => Ok(BehaviorView { object, facts }),
        Err(failure) => Err(failure),
    }
}

/// Whether an object is the one of a proof and behaves as it did.
pub open spec fn is_pristine(heap: Heap, value: usize, behavior: BehaviorView) -> Check {
    both(Ok(value == behavior.object), checked(heap, behavior.facts))
}

impl BehaviorProof {
    /// Takes the proof of an object's behaviour.
    pub fn take(heap: &Heap, object: usize) -> (result: Result<BehaviorProof, Failure>)
        ensures
            match result {
                Ok(taken) => proof_of(*heap, object) == Ok::<BehaviorView, Failure>(taken@),
                Err(failure) => proof_of(*heap, object) == Err::<BehaviorView, Failure>(failure),
            },
    {
        match behavior_proof(heap, object) {
            Ok(facts) => Ok(BehaviorProof { object, facts }),
            Err(failure) => Err(failure),
        }
    }

    /// Whether an object is the one of this proof and behaves as it did.
    pub fn behavior_proof_is_pristine(&self, heap: &Heap, value: usize) -> (check: Check)
        ensures
            check == is_pristine(*heap, value, self@),
    {
        if value != self.object {
            return Ok(false);
        }
        check_facts(heap, &self.facts)
    }
}

/// A name with the proof of what it stands for.
pub struct NamedProof {
    pub name: String,
    pub behavior: BehaviorProof,
}

/// What a named proof says.
pub struct NamedView {
    pub name: Seq<char>,
    pub behavior: BehaviorView,
}

impl View for NamedProof {
    type V = NamedView;

    open spec fn view(&self) -> NamedView {
        NamedView { name: self.name@, behavior: self.behavior@ }
    }
}

/// What a list of named proofs says.
pub open spec fn named_proof_views(proofs: Seq<NamedProof>) -> Seq<NamedView> {
    proofs.map_values(|named: NamedProof| named@)
}

/// The characters of a list of names.
pub open spec fn name_views(names: Seq<&'static str>) -> Seq<Seq<char>> {
    names.map_values(|name: &'static str| name@)
}

/// The methods of the adapter that are guarded.
pub open spec fn method_names() -> Seq<Seq<char>> {
    seq![
        "__getattribute__"@,
        "__setstate__"@,
        "send"@,
        "close"@,
        "build_response"@,
        "get_connection_with_tls_context"@,
        "cert_verify"@,
        "request_url"@,
        "add_headers"@,
        "proxy_headers"@,
        "proxy_manager_for"@,
        "build_connection_pool_key_attributes"@,
    ]
}

/// The methods of the adapter that are guarded.
fn adapter_methods() -> (names: Vec<&'static str>)
    ensures
        name_views(names@) == method_names(),
{
    let names: Vec<&'static str> = vec![
        "__getattribute__",
        "__setstate__",
        "send",
        "close",
        "build_response",
        "get_connection_with_tls_context",
        "cert_verify",
        "request_url",
        "add_headers",
        "proxy_headers",
        "proxy_manager_for",
        "build_connection_pool_key_attributes",
    ];
    assert(name_views(names@) =~= method_names());
    names
}

/// The names of the adapter's module that are guarded.
pub open spec fn global_names() -> Seq<Seq<char>> {
    seq![
        "PoolManager"@,
        "proxy_from_url"@,
        "TimeoutSauce"@,
        "parse_url"@,
        "Retry"@,
        "_basic_auth_str"@,
        "extract_cookies_to_jar"@,
        "Response"@,
        "CaseInsensitiveDict"@,
        "get_auth_from_url"@,
        "get_encoding_from_headers"@,
        "prepend_scheme_if_needed"@,
        "select_proxy"@,
        "urldefragauth"@,
        "DEFAULT_CA_BUNDLE_PATH"@,
        "SOCKSProxyManager"@,
    ]
}

/// The names of the adapter's module that are guarded.
fn adapter_globals() -> (names: Vec<&'static str>)
    ensures
        name_views(names@) == global_names(),
{
    let names: Vec<&'static str> = vec![
        "PoolManager",
        "proxy_from_url",
        "TimeoutSauce",
        "parse_url",
        "Retry",
        "_basic_auth_str",
        "extract_cookies_to_jar",
        "Response",
        "CaseInsensitiveDict",
        "get_auth_from_url",
        "get_encoding_from_headers",
        "prepend_scheme_if_needed",
        "select_proxy",
        "urldefragauth",
        "DEFAULT_CA_BUNDLE_PATH",
        "SOCKSProxyManager",
    ];
    assert(name_views(names@) =~= global_names());
    names
}

/// The names that the adapter's error handling reads.
pub open spec fn exception_global_names() -> Seq<Seq<char>> {
    seq![
        "LocationValueError"@,
        "InvalidURL"@,
        "ProtocolError"@,
        "OSError"@,
        "MaxRetryError"@,
        "ConnectTimeoutError"@,
        "NewConnectionError"@,
        "ConnectTimeout"@,
        "ResponseError"@,
        "RetryError"@,
        "_ProxyError"@,
        "ProxyError"@,
        "_SSLError"@,
        "SSLError"@,
        "ClosedPoolError"@,
        "_HTTPError"@,
        "ReadTimeoutError"@,
        "ReadTimeout"@,
        "_InvalidHeader"@,
        "InvalidHeader"@,
        "ConnectionError"@,
        "isinstance"@,
    ]
}

/// The names that the adapter's error handling reads.
fn exception_names() -> (names: Vec<&'static str>)
    ensures
        name_views(names@) == exception_global_names(),
{
    let names: Vec<&'static str> = vec![
        "LocationValueError",
        "InvalidURL",
        "ProtocolError",
        "OSError",
        "MaxRetryError",
        "ConnectTimeoutError",
        "NewConnectionError",
        "ConnectTimeout",
        "ResponseError",
        "RetryError",
        "_ProxyError",
        "ProxyError",
        "_SSLError",
        "SSLError",
        "ClosedPoolError",
        "_HTTPError",
        "ReadTimeoutError",
        "ReadTimeout",
        "_InvalidHeader",
        "InvalidHeader",
        "ConnectionError",
        "isinstance",
    ];
    assert(name_views(names@) =~= exception_global_names());
    names
}

/// The proofs of what an object holds under names, in order.
pub open spec fn attribute_proofs(heap: Heap, holder: usize, names: Seq<Seq<char>>) -> Result<
    Seq<NamedView>,
    Failure,
>
    decreases names.len(),
{
    if names.len() == 0 {
        Ok(Seq::empty())
    } else {
        match attribute_proofs(heap, holder, names.drop_last()) {
            Err(failure) => Err(failure),
            Ok(before) => match heap.attribute_of(holder, names.last()) {
                None => Err(Failure::Attribute),
                Some(value) => match proof_of(heap, value) {
                    Err(failure) => Err(failure),
                    Ok(behavior) => Ok(before.push(NamedView { name: names.last(), behavior })),
                },
            },
        }
    }
}

/// What stops a list of proofs stops every longer one.
proof fn lemma_attribute_proofs_stop(heap: Heap, holder: usize, names: Seq<Seq<char>>, count: int)
    requires
        0 <= count <= names.len(),
        attribute_proofs(heap, holder, names.take(count)) is Err,
    ensures
        attribute_proofs(heap, holder, names) == attribute_proofs(heap, holder, names.take(count)),
    decreases names.len() - count,
{
    if count < names.len() {
        assert(names.take(count + 1).drop_last() =~= names.take(count));
        lemma_attribute_proofs_stop(heap, holder, names, count + 1);
    } else {
        assert(names.take(count) =~= names);
    }
}

/// Takes the proofs of what an object holds under names.
fn take_attribute_proofs(heap: &Heap, holder: usize, names: &Vec<&'static str>) -> (result: Result<
    Vec<NamedProof>,
    Failure,
>)
    ensures
        match result {
            Ok(proofs) => attribute_proofs(*heap, holder, name_views(names@)) == Ok::<
                Seq<NamedView>,
                Failure,
            >(named_proof_views(proofs@)),
            Err(failure) => attribute_proofs(*heap, holder, name_views(names@)) == Err::<
                Seq<NamedView>,
                Failure,
            >(failure),
        },
{
    let mut proofs: Vec<NamedProof> = Vec::new();
    let mut index: usize = 0;
    let ghost views = name_views(names@);
    assert(views.take(0) =~= Seq::<Seq<char>>::empty());
    assert(named_proof_views(proofs@) =~= Seq::<NamedView>::empty());
    while index < names.len()
        invariant
            index <= names.len(),
            views == name_views(names@),
            attribute_proofs(*heap, holder, views.take(index as int)) == Ok::<
                Seq<NamedView>,
                Failure,
            >(named_proof_views(proofs@)),
        decreases names.len() - index,
    {
        let ghost before = named_proof_views(proofs@);
        proof {
            assert(views.take(index + 1).drop_last() =~= views.take(index as int));
            assert(views.take(index + 1).last() == names@[index as int]@);
        }
        let name: &'static str = names[index];
        let value = match heap.attribute(holder, name) {
            Some(value) => value,
            None => {
                proof {
                    lemma_attribute_proofs_stop(*heap, holder, views, index + 1);
                }
                return Err(Failure::Attribute);
            },
        };
        match BehaviorProof::take(heap, value) {
            Ok(behavior) => {
                let named = NamedProof { name: String::from_str(name), behavior };
                proofs.push(named);
                assert(named_proof_views(proofs@) =~= before.push(named@));
            },
            Err(failure) => {
                proof {
                    lemma_attribute_proofs_stop(*heap, holder, views, index + 1);
                }
                return Err(failure);
            },
        }
        index = index + 1;
    }
    assert(views.take(index as int) =~= views);
    Ok(proofs)
}

/// A name that the error handling reads, with where it was found.
pub struct GlobalProof {
    pub name: String,
    /// Found in the module, else among the built-ins.
    pub in_module: bool,
    pub behavior: BehaviorProof,
}

/// What the proof of a global name says.
pub struct GlobalView {
    pub name: Seq<char>,
    pub in_module: bool,
    pub behavior: BehaviorView,
}

impl View for GlobalProof {
    type V = GlobalView;

    open spec fn view(&self) -> GlobalView {
        GlobalView { name: self.name@, in_module: self.in_module, behavior: self.behavior@ }
    }
}

/// What a list of proofs of global names says.
pub open spec fn global_views(proofs: Seq<GlobalProof>) -> Seq<GlobalView> {
    proofs.map_values(|global: GlobalProof| global@)
}

/// Why the adapter's class cannot be remembered.
#[derive(Debug)]
pub enum AdapterFault {
    Failed(Failure),
    /// A name that the error handling reads is defined nowhere.
    Undefined(String),
}

/// Why the adapter's class cannot be remembered.
pub enum FaultView {
    Failed(Failure),
    Undefined(Seq<char>),
}

impl View for AdapterFault {
    type V = FaultView;

    open spec fn view(&self) -> FaultView {
        match self {
            AdapterFault::Failed(failure) => FaultView::Failed(*failure),
            AdapterFault::Undefined(name) => FaultView::Undefined(name@),
        }
    }
}

impl AdapterFault {
    /// The message of the `NameError` for a name that is defined nowhere.
    pub fn message(&self) -> (text: Option<String>)
        ensures
            match (self@, text) {
                (FaultView::Undefined(name), Some(text)) => text@ == "name '"@ + name
                    + "' is not defined"@,
                (FaultView::Failed(_), None) => true,
                _ => false,
            },
    {
        match self {
            AdapterFault::Failed(_) => None,
            AdapterFault::Undefined(name) => Some(undefined_name_message(name.as_str())),
        }
    }
}

/// The proof of a global name.
pub open spec fn global_proof(heap: Heap, globals: usize, builtins: usize, name: Seq<char>) -> Result<
    GlobalView,
    FaultView,
> {
    let in_module = heap.entry_of(globals, name) is Some;
    match (if in_module {
        heap.entry_of(globals, name)
    } else {
        heap.entry_of(builtins, name)
    }) {
        None => Err(FaultView::Undefined(name)),
        Some(value) => match proof_of(heap, value) {
            Err(failure) => Err(FaultView::Failed(failure)),
            Ok(behavior) => Ok(GlobalView { name, in_module, behavior }),
        },
    }
}

/// The proofs of global names, in order.
pub open spec fn global_proofs(
    heap: Heap,
    globals: usize,
    builtins: usize,
    names: Seq<Seq<char>>,
) -> Result<Seq<GlobalView>, FaultView>
    decreases names.len(),
{
    if names.len() == 0 {
        Ok(Seq::empty())
    } else {
        match global_proofs(heap, globals, builtins, names.drop_last()) {
            Err(failure) => Err(failure),
            Ok(before) => match global_proof(heap, globals, builtins, names.last()) {
                Err(failure) => Err(failure),
                Ok(global) => Ok(before.push(global)),
            },
        }
    }
}

/// What stops a list of global names stops every longer one.
proof fn lemma_global_proofs_stop(
    heap: Heap,
    globals: usize,
    builtins: usize,
    names: Seq<Seq<char>>,
    count: int,
)
    requires
        0 <= count <= names.len(),
        global_proofs(heap, globals, builtins, names.take(count)) is Err,
    ensures
        global_proofs(heap, globals, builtins, names) == global_proofs(
            heap,
            globals,
            builtins,
            names.take(count),
        ),
    decreases names.len() - count,
{
    if count < names.len() {
        assert(names.take(count + 1).drop_last() =~= names.take(count));
        lemma_global_proofs_stop(heap, globals, builtins, names, count + 1);
    } else {
        assert(names.take(count) =~= names);
    }
}

/// Takes the proof of a global name.
fn take_global_proof(heap: &Heap, globals: usize, builtins: usize, name: &'static str) -> (result:
    Result<GlobalProof, AdapterFault>)
    ensures
        match result {
            Ok(taken) => global_proof(*heap, globals, builtins, name@) == Ok::<
                GlobalView,
                FaultView,
            >(taken@),
            Err(fault) => global_proof(*heap, globals, builtins, name@) == Err::<
                GlobalView,
                FaultView,
            >(fault@),
        },
{
    let held = heap.entry(globals, name);
    let in_module = held.is_some();
    let value = if in_module {
        held
    } else {
        heap.entry(builtins, name)
    };
    match value {
        None => Err(AdapterFault::Undefined(String::from_str(name))),
        Some(value) => match BehaviorProof::take(heap, value) {
            Err(failure) => Err(AdapterFault::Failed(failure)),
            Ok(behavior) => Ok(
                GlobalProof { name: String::from_str(name), in_module, behavior },
            ),
        },
    }
}

/// Takes the proofs of global names.
fn take_global_proofs(
    heap: &Heap,
    globals: usize,
    builtins: usize,
    names: &Vec<&'static str>,
) -> (result: Result<Vec<GlobalProof>, AdapterFault>)
    ensures
        match result {
            Ok(proofs) => global_proofs(*heap, globals, builtins, name_views(names@)) == Ok::<
                Seq<GlobalView>,
                FaultView,
            >(global_views(proofs@)),
            Err(fault) => global_proofs(*heap, globals, builtins, name_views(names@)) == Err::<
                Seq<GlobalView>,
                FaultView,
            >(fault@),
        },
{
    let mut proofs: Vec<GlobalProof> = Vec::new();
    let mut index: usize = 0;
    let ghost views = name_views(names@);
    assert(views.take(0) =~= Seq::<Seq<char>>::empty());
    assert(global_views(proofs@) =~= Seq::<GlobalView>::empty());
    while index < names.len()
        invariant
            index <= names.len(),
            views == name_views(names@),
            global_proofs(*heap, globals, builtins, views.take(index as int)) == Ok::<
                Seq<GlobalView>,
                FaultView,
            >(global_views(proofs@)),
        decreases names.len() - index,
    {
        let ghost before = global_views(proofs@);
        proof {
            assert(views.take(index + 1).drop_last() =~= views.take(index as int));
            assert(views.take(index + 1).last() == names@[index as int]@);
        }
        match take_global_proof(heap, globals, builtins, names[index]) {
            Ok(global) => {
                proofs.push(global);
                assert(global_views(proofs@) =~= before.push(global@));
            },
            Err(fault) => {
                proof {
                    lemma_global_proofs_stop(*heap, globals, builtins, views, index + 1);
                }
                return Err(fault);
            },
        }
        index = index + 1;
    }
    assert(views.take(index as int) =~= views);
    Ok(proofs)
}

/// A mapping from URL schemes to what handles them.
pub struct RoutingProof {
    pub mapping: usize,
    pub entries: Vec<Pair>,
    pub facts: Vec<Fact>,
}

/// What the proof of a routing mapping says.
pub struct RoutingView {
    pub mapping: usize,
    pub entries: Seq<Pair>,
    pub facts: Seq<Observation>,
}

impl View for RoutingProof {
    type V = RoutingView;

    open spec fn view(&self) -> RoutingView {
        RoutingView {
            mapping: self.mapping,
            entries: self.entries@,
            facts: fact_views(self.facts@),
        }
    }
}

/// Whether every key of a list of entries is an exact text.
pub open spec fn has_text_keys(heap: Heap, pairs: Seq<Pair>) -> bool {
    forall|index: int|
        0 <= index < pairs.len() ==> heap.is_exactly(
            (#[trigger] pairs[index]).key,
            heap.intrinsics.text,
        )
}

/// Whether every key of a list of entries is an exact text.
pub fn keys_are_texts(heap: &Heap, pairs: &Vec<Pair>) -> (yes: bool)
    ensures
        yes == has_text_keys(*heap, pairs@),
{
    let mut index: usize = 0;
    while index < pairs.len()
        invariant
            index <= pairs.len(),
            forall|i: int|
                0 <= i < index ==> heap.is_exactly((#[trigger] pairs@[i]).key, heap.intrinsics.text),
        decreases pairs.len() - index,
    {
        if !heap.exactly(pairs[index].key, heap.intrinsics.text) {
            assert(!heap.is_exactly(pairs@[index as int].key, heap.intrinsics.text));
            return false;
        }
        index = index + 1;
    }
    true
}

/// The entries of an exact dict.
pub open spec fn exact_dict_of(heap: Heap, value: usize) -> Option<Seq<Pair>> {
    if heap.is_exactly(value, heap.intrinsics.dict) {
        heap.dict_of(value)
    } else {
        None
    }
}

/// The entries of an exact dict.
pub fn exact_dict(heap: &Heap, value: usize) -> (pairs: Option<&Vec<Pair>>)
    ensures
        match pairs {
            Some(pairs) => exact_dict_of(*heap, value) == Some(pairs@),
            None => exact_dict_of(*heap, value) is None,
        },
{
    if heap.exactly(value, heap.intrinsics.dict) {
        heap.dict(value)
    } else {
        None
    }
}

/// The proof of a routing mapping, which is an exact dict with exact texts as
/// keys.
pub open spec fn routing_proof_of(heap: Heap, value: usize) -> Result<RoutingView, Failure> {
    match exact_dict_of(heap, value) {
        None => Err(Failure::Kind),
        Some(entries) => if !has_text_keys(heap, entries) {
            Err(Failure::Kind)
        } else {
            match mapping_of(heap, value) {
                Err(failure) => Err(failure),
                Ok(facts) => Ok(RoutingView { mapping: value, entries, facts }),
            }
        },
    }
}

/// Takes the proof of a routing mapping.
pub fn routing_mapping_proof(heap: &Heap, value: usize) -> (result: Result<RoutingProof, Failure>)
    ensures
        match result {
            Ok(taken) => routing_proof_of(*heap, value) == Ok::<RoutingView, Failure>(taken@),
            Err(failure) => routing_proof_of(*heap, value) == Err::<RoutingView, Failure>(failure),
        },
{
    let entries = match exact_dict(heap, value) {
        Some(entries) => entries,
        None => {
            return Err(Failure::Kind);
        },
    };
    if !keys_are_texts(heap, entries) {
        return Err(Failure::Kind);
    }
    match mapping_proof(heap, value) {
        Ok(facts) => Ok(RoutingProof { mapping: value, entries: copied_pairs(entries), facts }),
        Err(failure) => Err(failure),
    }
}

/// The message for a routing mapping whose keys are not all exact texts.
pub fn routing_keys_message() -> (text: String)
    ensures
        text@ == "canonical routing mapping requires exact string keys"@,
{
    String::from_str("canonical routing mapping requires exact string keys")
}

/// What a routing mapping holds now, without what its values rest on.
pub open spec fn routing_snapshot_of(heap: Heap, value: usize) -> Option<RoutingView> {
    match exact_dict_of(heap, value) {
        None => None,
        Some(entries) => if !has_text_keys(heap, entries) {
            None
        } else {
            Some(
                RoutingView {
                    mapping: value,
                    entries,
                    facts: seq![Observation::Items { mapping: value, entries }],
                },
            )
        },
    }
}

/// Reads what a routing mapping holds now.
pub fn routing_mapping_snapshot(heap: &Heap, value: usize) -> (snapshot: Option<RoutingProof>)
    ensures
        match snapshot {
            Some(snapshot) => routing_snapshot_of(*heap, value) == Some(snapshot@),
            None => routing_snapshot_of(*heap, value) is None,
        },
{
    let entries = match exact_dict(heap, value) {
        Some(entries) => entries,
        None => {
            return None;
        },
    };
    if !keys_are_texts(heap, entries) {
        return None;
    }
    let mut facts: Vec<Fact> = Vec::new();
    facts.push(Fact::Items { mapping: value, entries: copied_pairs(entries) });
    assert(fact_views(facts@) =~= seq![Observation::Items { mapping: value, entries: entries@ }]);
    Some(RoutingProof { mapping: value, entries: copied_pairs(entries), facts })
}

/// Whether an object is the routing mapping of a proof and is unchanged.
pub open spec fn routing_pristine(heap: Heap, value: usize, routing: RoutingView) -> Check {
    if value != routing.mapping {
        Ok(false)
    } else {
        match exact_dict_of(heap, value) {
            None => Ok(false),
            Some(entries) => if !has_text_keys(heap, entries) {
                Ok(false)
            } else {
                checked(heap, routing.facts)
            },
        }
    }
}

impl RoutingProof {
    /// Whether an object is this routing mapping and is unchanged.
    pub fn routing_mapping_proof_is_pristine(&self, heap: &Heap, value: usize) -> (check: Check)
        ensures
            check == routing_pristine(*heap, value, self@),
    {
        if value != self.mapping {
            return Ok(false);
        }
        let entries = match exact_dict(heap, value) {
            Some(entries) => entries,
            None => {
                return Ok(false);
            },
        };
        if !keys_are_texts(heap, entries) {
            return Ok(false);
        }
        check_facts(heap, &self.facts)
    }

    /// Whether this mapping and a canonical one are unchanged and hold the
    /// same.
    pub fn routing_mapping_matches_canonical(&self, heap: &Heap, canonical: &RoutingProof) -> (check:
        Check)
        ensures
            check == routing_matches(*heap, self@, canonical@),
    {
        match canonical.routing_mapping_proof_is_pristine(heap, canonical.mapping) {
            Ok(true) => {},
            other => {
                return other;
            },
        }
        match self.routing_mapping_proof_is_pristine(heap, self.mapping) {
            Ok(true) => {},
            other => {
                return other;
            },
        }
        Ok(same_pairs(&self.entries, &canonical.entries))
    }
}

/// Whether a mapping and a canonical one are unchanged and hold the same.
pub open spec fn routing_matches(heap: Heap, candidate: RoutingView, canonical: RoutingView) -> Check {
    both(
        routing_pristine(heap, canonical.mapping, canonical),
        both(
            routing_pristine(heap, candidate.mapping, candidate),
            Ok(candidate.entries == canonical.entries),
        ),
    )
}

/// Whether what an object holds now is what a canonical mapping holds.
pub open spec fn is_canonical_routing(heap: Heap, current: usize, canonical: RoutingView) -> Check {
    match routing_snapshot_of(heap, current) {
        None => Ok(false),
        Some(snapshot) => routing_matches(heap, snapshot, canonical),
    }
}

/// Whether what an object holds now is what a canonical mapping holds.
pub fn canonical_routing_mapping_is_pristine(
    heap: &Heap,
    current: usize,
    canonical: &RoutingProof,
) -> (check: Check)
    ensures
        check == is_canonical_routing(*heap, current, canonical@),
{
    match routing_mapping_snapshot(heap, current) {
        None => Ok(false),
        Some(snapshot) => snapshot.routing_mapping_matches_canonical(heap, canonical),
    }
}

/// The adapter's class and its surroundings.
pub struct AdapterState {
    pub adapters_module: usize,
    pub adapter_type: usize,
    pub prepared_request_type: usize,
    pub prepared_getattribute: usize,
    pub poolmanager_module: usize,
    pub poolmanager: BehaviorProof,
    pub proxy_manager: BehaviorProof,
    pub socks_manager: BehaviorProof,
    pub http_pool_classes: RoutingProof,
    /// Missing where SOCKS support is.
    pub socks_pool_classes: Option<RoutingProof>,
    pub key_functions: RoutingProof,
    pub methods: Vec<NamedProof>,
    pub globals: Vec<NamedProof>,
    pub send_globals: usize,
    pub send_builtins: usize,
    pub exception_globals: Vec<GlobalProof>,
}

/// What the state says.
pub struct AdapterView {
    pub adapters_module: usize,
    pub adapter_type: usize,
    pub prepared_request_type: usize,
    pub prepared_getattribute: usize,
    pub poolmanager_module: usize,
    pub poolmanager: BehaviorView,
    pub proxy_manager: BehaviorView,
    pub socks_manager: BehaviorView,
    pub http_pool_classes: RoutingView,
    pub socks_pool_classes: Option<RoutingView>,
    pub key_functions: RoutingView,
    pub methods: Seq<NamedView>,
    pub globals: Seq<NamedView>,
    pub send_globals: usize,
    pub send_builtins: usize,
    pub exception_globals: Seq<GlobalView>,
}

/// What a routing proof that may be missing says.
pub open spec fn optional_routing(routing: Option<RoutingProof>) -> Option<RoutingView> {
    match routing {
        Some(routing) => Some(routing@),
        None => None,
    }
}

impl View for AdapterState {
    type V = AdapterView;

    open spec fn view(&self) -> AdapterView {
        AdapterView {
            adapters_module: self.adapters_module,
            adapter_type: self.adapter_type,
            prepared_request_type: self.prepared_request_type,
            prepared_getattribute: self.prepared_getattribute,
            poolmanager_module: self.poolmanager_module,
            poolmanager: self.poolmanager@,
            proxy_manager: self.proxy_manager@,
            socks_manager: self.socks_manager@,
            http_pool_classes: self.http_pool_classes@,
            socks_pool_classes: optional_routing(self.socks_pool_classes),
            key_functions: self.key_functions@,
            methods: named_proof_views(self.methods@),
            globals: named_proof_views(self.globals@),
            send_globals: self.send_globals,
            send_builtins: self.send_builtins,
            exception_globals: global_views(self.exception_globals@),
        }
    }
}

/// The adapter's class and what `send` is defined in.
#[derive(Clone, Copy, Debug, PartialEq, Eq, Structural)]
pub struct AdapterHome {
    pub module: usize,
    pub class: usize,
    pub globals: usize,
    pub builtins: usize,
    pub request_type: usize,
}

/// The adapter's class and what `send` is defined in.
pub open spec fn home_of(heap: Heap) -> Result<AdapterHome, Failure> {
    match heap.module_of("requests.adapters"@) {
        None => Err(Failure::Import),
        Some(module) => match heap.attribute_of(module, "HTTPAdapter"@) {
            None => Err(Failure::Attribute),
            Some(class) => match heap.attribute_of(class, "send"@) {
                None => Err(Failure::Attribute),
                Some(send) => match heap.attribute_of(send, "__globals__"@) {
                    None => Err(Failure::Attribute),
                    Some(globals) => if heap.dict_of(globals) is None {
                        Err(Failure::Kind)
                    } else {
                        match heap.attribute_of(send, "__builtins__"@) {
                            None => Err(Failure::Attribute),
                            Some(builtins) => if heap.dict_of(builtins) is None {
                                Err(Failure::Kind)
                            } else {
                                match heap.module_of("requests.models"@) {
                                    None => Err(Failure::Import),
                                    Some(models) => match heap.attribute_of(
                                        models,
                                        "PreparedRequest"@,
                                    ) {
                                        None => Err(Failure::Attribute),
                                        Some(request_type) => Ok(
                                            AdapterHome {
                                                module,
                                                class,
                                                globals,
                                                builtins,
                                                request_type,
                                            },
                                        ),
                                    },
                                }
                            },
                        }
                    },
                },
            },
        },
    }
}

/// Finds the adapter's class and what `send` is defined in.
fn find_home(heap: &Heap) -> (home: Result<AdapterHome, Failure>)
    ensures
        home == home_of(*heap),
{
    let module = match heap.module("requests.adapters") {
        Some(module) => module,
        None => {
            return Err(Failure::Import);
        },
    };
    let class = match heap.attribute(module, "HTTPAdapter") {
        Some(class) => class,
        None => {
            return Err(Failure::Attribute);
        },
    };
    let send = match heap.attribute(class, "send") {
        Some(send) => send,
        None => {
            return Err(Failure::Attribute);
        },
    };
    let globals = match heap.attribute(send, "__globals__") {
        Some(globals) => globals,
        None => {
            return Err(Failure::Attribute);
        },
    };
    if heap.dict(globals).is_none() {
        return Err(Failure::Kind);
    }
    let builtins = match heap.attribute(send, "__builtins__") {
        Some(builtins) => builtins,
        None => {
            return Err(Failure::Attribute);
        },
    };
    if heap.dict(builtins).is_none() {
        return Err(Failure::Kind);
    }
    let models = match heap.module("requests.models") {
        Some(models) => models,
        None => {
            return Err(Failure::Import);
        },
    };
    match heap.attribute(models, "PreparedRequest") {
        Some(request_type) => Ok(AdapterHome { module, class, globals, builtins, request_type }),
        None => Err(Failure::Attribute),
    }
}

/// The proof of what an object holds under a name.
pub open spec fn attribute_proof(heap: Heap, holder: usize, name: Seq<char>) -> Result<
    BehaviorView,
    Failure,
> {
    match heap.attribute_of(holder, name) {
        None => Err(Failure::Attribute),
        Some(value) => proof_of(heap, value),
    }
}

/// Takes the proof of what an object holds under a name.
fn take_attribute_proof(heap: &Heap, holder: usize, name: &str) -> (result: Result<
    BehaviorProof,
    Failure,
>)
    ensures
        match result {
            Ok(taken) => attribute_proof(*heap, holder, name@) == Ok::<BehaviorView, Failure>(
                taken@,
            ),
            Err(failure) => attribute_proof(*heap, holder, name@) == Err::<BehaviorView, Failure>(
                failure,
            ),
        },
{
    match heap.attribute(holder, name) {
        None => Err(Failure::Attribute),
        Some(value) => BehaviorProof::take(heap, value),
    }
}

/// The proof of a routing mapping that an object holds.
pub open spec fn routing_attribute(heap: Heap, holder: usize, name: Seq<char>) -> Result<
    RoutingView,
    Failure,
> {
    match heap.attribute_of(holder, name) {
        None => Err(Failure::Attribute),
        Some(value) => routing_proof_of(heap, value),
    }
}

/// Takes the proof of a routing mapping that an object holds.
fn take_routing_attribute(heap: &Heap, holder: usize, name: &str) -> (result: Result<
    RoutingProof,
    Failure,
>)
    ensures
        match result {
            Ok(taken) => routing_attribute(*heap, holder, name@) == Ok::<RoutingView, Failure>(
                taken@,
            ),
            Err(failure) => routing_attribute(*heap, holder, name@) == Err::<RoutingView, Failure>(
                failure,
            ),
        },
{
    match heap.attribute(holder, name) {
        None => Err(Failure::Attribute),
        Some(value) => routing_mapping_proof(heap, value),
    }
}

/// The proof of a routing mapping that an object may hold.
pub open spec fn optional_routing_attribute(heap: Heap, holder: usize, name: Seq<char>) -> Result<
    Option<RoutingView>,
    Failure,
> {
    match heap.attribute_of(holder, name) {
        None => Ok(None),
        Some(value) => match routing_proof_of(heap, value) {
            Ok(routing) => Ok(Some(routing)),
            Err(failure) => Err(failure),
        },
    }
}

/// The managers and routing mappings that an adapter's connections come from.
pub struct Managers {
    pub module: usize,
    pub poolmanager: BehaviorProof,
    pub proxy_manager: BehaviorProof,
    pub socks_manager: BehaviorProof,
    pub http_pool_classes: RoutingProof,
    pub socks_pool_classes: Option<RoutingProof>,
    pub key_functions: RoutingProof,
}

/// What the managers say.
pub struct ManagersView {
    pub module: usize,
    pub poolmanager: BehaviorView,
    pub proxy_manager: BehaviorView,
    pub socks_manager: BehaviorView,
    pub http_pool_classes: RoutingView,
    pub socks_pool_classes: Option<RoutingView>,
    pub key_functions: RoutingView,
}

impl View for Managers {
    type V = ManagersView;

    open spec fn view(&self) -> ManagersView {
        ManagersView {
            module: self.module,
            poolmanager: self.poolmanager@,
            proxy_manager: self.proxy_manager@,
            socks_manager: self.socks_manager@,
            http_pool_classes: self.http_pool_classes@,
            socks_pool_classes: optional_routing(self.socks_pool_classes),
            key_functions: self.key_functions@,
        }
    }
}

/// The managers and routing mappings, read in order.
pub open spec fn managers_of(heap: Heap, adapters: usize) -> Result<ManagersView, Failure> {
    match heap.attribute_of(adapters, "PoolManager"@) {
        None => Err(Failure::Attribute),
        Some(pool_type) => match heap.module_of("urllib3.poolmanager"@) {
            None => Err(Failure::Import),
            Some(module) => match proof_of(heap, pool_type) {
                Err(failure) => Err(failure),
                Ok(poolmanager) => match attribute_proof(heap, module, "ProxyManager"@) {
                    Err(failure) => Err(failure),
                    Ok(proxy_manager) => match attribute_proof(
                        heap,
                        adapters,
                        "SOCKSProxyManager"@,
                    ) {
                        Err(failure) => Err(failure),
                        Ok(socks_manager) => match routing_attribute(
                            heap,
                            module,
                            "pool_classes_by_scheme"@,
                        ) {
                            Err(failure) => Err(failure),
                            Ok(http_pool_classes) => match optional_routing_attribute(
                                heap,
                                socks_manager.object,
                                "pool_classes_by_scheme"@,
                            ) {
                                Err(failure) => Err(failure),
                                Ok(socks_pool_classes) => match routing_attribute(
                                    heap,
                                    module,
                                    "key_fn_by_scheme"@,
                                ) {
                                    Err(failure) => Err(failure),
                                    Ok(key_functions) => Ok(
                                        ManagersView {
                                            module,
                                            poolmanager,
                                            proxy_manager,
                                            socks_manager,
                                            http_pool_classes,
                                            socks_pool_classes,
                                            key_functions,
                                        },
                                    ),
                                },
                            },
                        },
                    },
                },
            },
        },
    }
}

/// Takes the managers and routing mappings.
fn take_managers(heap: &Heap, adapters: usize) -> (result: Result<Managers, Failure>)
    ensures
        match result {
            Ok(managers) => managers_of(*heap, adapters) == Ok::<ManagersView, Failure>(managers@),
            Err(failure) => managers_of(*heap, adapters) == Err::<ManagersView, Failure>(failure),
        },
{
    let pool_type = match heap.attribute(adapters, "PoolManager") {
        Some(pool_type) => pool_type,
        None => {
            return Err(Failure::Attribute);
        },
    };
    let module = match heap.module("urllib3.poolmanager") {
        Some(module) => module,
        None => {
            return Err(Failure::Import);
        },
    };
    let poolmanager = match BehaviorProof::take(heap, pool_type) {
        Ok(taken) => taken,
        Err(failure) => {
            return Err(failure);
        },
    };
    let proxy_manager = match take_attribute_proof(heap, module, "ProxyManager") {
        Ok(taken) => taken,
        Err(failure) => {
            return Err(failure);
        },
    };
    let socks_manager = match take_attribute_proof(heap, adapters, "SOCKSProxyManager") {
        Ok(taken) => taken,
        Err(failure) => {
            return Err(failure);
        },
    };
    let http_pool_classes = match take_routing_attribute(heap, module, "pool_classes_by_scheme") {
        Ok(taken) => taken,
        Err(failure) => {
            return Err(failure);
        },
    };
    let socks_pool_classes = match heap.attribute(socks_manager.object, "pool_classes_by_scheme") {
        None => None,
        Some(mapping) => match routing_mapping_proof(heap, mapping) {
            Ok(taken) => Some(taken),
            Err(failure) => {
                return Err(failure);
            },
        },
    };
    match take_routing_attribute(heap, module, "key_fn_by_scheme") {
        Ok(key_functions) => Ok(
            Managers {
                module,
                poolmanager,
                proxy_manager,
                socks_manager,
                http_pool_classes,
                socks_pool_classes,
                key_functions,
            },
        ),
        Err(failure) => Err(failure),
    }
}

/// What the adapter's class and its surroundings are, read in order.
pub open spec fn state_of(heap: Heap) -> Result<AdapterView, FaultView> {
    match home_of(heap) {
        Err(failure) => Err(FaultView::Failed(failure)),
        Ok(home) => match attribute_proofs(heap, home.class, method_names()) {
            Err(failure) => Err(FaultView::Failed(failure)),
            Ok(methods) => match attribute_proofs(heap, home.module, global_names()) {
                Err(failure) => Err(FaultView::Failed(failure)),
                Ok(globals) => match managers_of(heap, home.module) {
                    Err(failure) => Err(FaultView::Failed(failure)),
                    Ok(managers) => match heap.attribute_of(
                        home.request_type,
                        "__getattribute__"@,
                    ) {
                        None => Err(FaultView::Failed(Failure::Attribute)),
                        Some(prepared_getattribute) => match global_proofs(
                            heap,
                            home.globals,
                            home.builtins,
                            exception_global_names(),
                        ) {
                            Err(fault) => Err(fault),
                            Ok(exception_globals) => Ok(
                                AdapterView {
                                    adapters_module: home.module,
                                    adapter_type: home.class,
                                    prepared_request_type: home.request_type,
                                    prepared_getattribute,
                                    poolmanager_module: managers.module,
                                    poolmanager: managers.poolmanager,
                                    proxy_manager: managers.proxy_manager,
                                    socks_manager: managers.socks_manager,
                                    http_pool_classes: managers.http_pool_classes,
                                    socks_pool_classes: managers.socks_pool_classes,
                                    key_functions: managers.key_functions,
                                    methods,
                                    globals,
                                    send_globals: home.globals,
                                    send_builtins: home.builtins,
                                    exception_globals,
                                },
                            ),
                        },
                    },
                },
            },
        },
    }
}

/// Remembers the adapter's class and its surroundings.
pub fn initialize_adapter_state(heap: &Heap) -> (state: Result<AdapterState, AdapterFault>)
    ensures
        match state {
            Ok(state) => state_of(*heap) == Ok::<AdapterView, FaultView>(state@),
            Err(fault) => state_of(*heap) == Err::<AdapterView, FaultView>(fault@),
        },
        state matches Err(AdapterFault::Undefined(name)) ==> {
            &&& home_of(*heap) matches Ok(home)
            &&& is_first_undefined(
                *heap,
                home.globals,
                home.builtins,
                exception_global_names(),
                name@,
            )
        },
{
    proof {
        law_missing_name_is_told(*heap);
    }
    let home = match find_home(heap) {
        Ok(home) => home,
        Err(failure) => {
            return Err(AdapterFault::Failed(failure));
        },
    };
    let methods = match take_attribute_proofs(heap, home.class, &adapter_methods()) {
        Ok(methods) => methods,
        Err(failure) => {
            return Err(AdapterFault::Failed(failure));
        },
    };
    let globals = match take_attribute_proofs(heap, home.module, &adapter_globals()) {
        Ok(globals) => globals,
        Err(failure) => {
            return Err(AdapterFault::Failed(failure));
        },
    };
    let managers = match take_managers(heap, home.module) {
        Ok(managers) => managers,
        Err(failure) => {
            return Err(AdapterFault::Failed(failure));
        },
    };
    let prepared_getattribute = match heap.attribute(home.request_type, "__getattribute__") {
        Some(value) => value,
        None => {
            return Err(AdapterFault::Failed(Failure::Attribute));
        },
    };
    let exception_globals = match take_global_proofs(
        heap,
        home.globals,
        home.builtins,
        &exception_names(),
    ) {
        Ok(globals) => globals,
        Err(fault) => {
            return Err(fault);
        },
    };
    Ok(
        AdapterState {
            adapters_module: home.module,
            adapter_type: home.class,
            prepared_request_type: home.request_type,
            prepared_getattribute,
            poolmanager_module: managers.module,
            poolmanager: managers.poolmanager,
            proxy_manager: managers.proxy_manager,
            socks_manager: managers.socks_manager,
            http_pool_classes: managers.http_pool_classes,
            socks_pool_classes: managers.socks_pool_classes,
            key_functions: managers.key_functions,
            methods,
            globals,
            send_globals: home.globals,
            send_builtins: home.builtins,
            exception_globals,
        },
    )
}

/// Whether a name is defined: in a function's globals or among the built-ins.
pub open spec fn is_defined(heap: Heap, globals: usize, builtins: usize, name: Seq<char>) -> bool {
    heap.entry_of(globals, name) is Some || heap.entry_of(builtins, name) is Some
}

/// Whether a name is the first of a list that is not defined.
pub open spec fn is_first_undefined(
    heap: Heap,
    globals: usize,
    builtins: usize,
    names: Seq<Seq<char>>,
    name: Seq<char>,
) -> bool {
    exists|index: int|
        0 <= index < names.len() && #[trigger] names[index] == name && !is_defined(
            heap,
            globals,
            builtins,
            name,
        ) && forall|earlier: int|
            0 <= earlier < index ==> is_defined(heap, globals, builtins, #[trigger] names[earlier])
}

/// The name that stops a list of global names is the first undefined one.
proof fn lemma_first_undefined(
    heap: Heap,
    globals: usize,
    builtins: usize,
    names: Seq<Seq<char>>,
    name: Seq<char>,
) -> (index: int)
    requires
        global_proofs(heap, globals, builtins, names) == Err::<Seq<GlobalView>, FaultView>(
            FaultView::Undefined(name),
        ),
    ensures
        0 <= index < names.len(),
        names[index] == name,
        !is_defined(heap, globals, builtins, name),
        forall|earlier: int|
            0 <= earlier < index ==> is_defined(heap, globals, builtins, #[trigger] names[earlier]),
    decreases names.len(),
{
    let before = names.drop_last();
    if global_proofs(heap, globals, builtins, before) is Err {
        let index = lemma_first_undefined(heap, globals, builtins, before, name);
        assert(before[index] == names[index]);
        assert forall|earlier: int| 0 <= earlier < index implies is_defined(
            heap,
            globals,
            builtins,
            #[trigger] names[earlier],
        ) by {
            assert(before[earlier] == names[earlier]);
        }
        index
    } else {
        lemma_all_defined(heap, globals, builtins, before);
        assert forall|earlier: int| 0 <= earlier < names.len() - 1 implies is_defined(
            heap,
            globals,
            builtins,
            #[trigger] names[earlier],
        ) by {
            assert(before[earlier] == names[earlier]);
        }
        names.len() - 1
    }
}

/// Where the proofs of global names were taken, every name is defined.
proof fn lemma_all_defined(heap: Heap, globals: usize, builtins: usize, names: Seq<Seq<char>>)
    requires
        global_proofs(heap, globals, builtins, names) is Ok,
    ensures
        forall|index: int|
            0 <= index < names.len() ==> is_defined(
                heap,
                globals,
                builtins,
                #[trigger] names[index],
            ),
    decreases names.len(),
{
    if names.len() > 0 {
        let before = names.drop_last();
        lemma_all_defined(heap, globals, builtins, before);
        assert forall|index: int| 0 <= index < names.len() implies is_defined(
            heap,
            globals,
            builtins,
            #[trigger] names[index],
        ) by {
            if index < before.len() {
                assert(before[index] == names[index]);
            }
        }
    }
}

/// The name that keeps the adapter's class from being remembered is the first
/// one of the error handling's names that is neither among the globals of
/// `send` nor among its built-ins. Where the class is remembered, every name is
/// defined.
pub proof fn law_missing_name_is_told(heap: Heap)
    ensures
        state_of(heap) matches Err(FaultView::Undefined(name)) ==> {
            &&& home_of(heap) matches Ok(home)
            &&& is_first_undefined(
                heap,
                home.globals,
                home.builtins,
                exception_global_names(),
                name,
            )
        },
        state_of(heap) is Ok ==> {
            &&& home_of(heap) matches Ok(home)
            &&& forall|index: int|
                0 <= index < exception_global_names().len() ==> is_defined(
                    heap,
                    home.globals,
                    home.builtins,
                    #[trigger] exception_global_names()[index],
                )
        },
{
    match home_of(heap) {
        Ok(home) => match state_of(heap) {
            Ok(_) => lemma_all_defined(heap, home.globals, home.builtins, exception_global_names()),
            Err(FaultView::Undefined(name)) => {
                let index = lemma_first_undefined(
                    heap,
                    home.globals,
                    home.builtins,
                    exception_global_names(),
                    name,
                );
                assert(exception_global_names()[index] == name);
            },
            Err(_) => {},
        },
        Err(_) => {},
    }
}

/// Whether a dict holds one of the guarded methods' names.
pub open spec fn shadows_method(heap: Heap, dictionary: usize, methods: Seq<NamedView>) -> bool {
    exists|index: int|
        0 <= index < methods.len() && heap.entry_of(dictionary, (#[trigger] methods[index]).name)
            is Some
}

/// Whether a dict holds one of the guarded methods' names.
fn method_is_shadowed(heap: &Heap, dictionary: usize, methods: &Vec<NamedProof>) -> (found: bool)
    ensures
        found == shadows_method(*heap, dictionary, named_proof_views(methods@)),
{
    let mut index: usize = 0;
    while index < methods.len()
        invariant
            index <= methods.len(),
            forall|i: int|
                0 <= i < index ==> heap.entry_of(
                    dictionary,
                    (#[trigger] named_proof_views(methods@)[i]).name,
                ) is None,
        decreases methods.len() - index,
    {
        assert(named_proof_views(methods@)[index as int].name == methods@[index as int].name@);
        if heap.entry(dictionary, methods[index].name.as_str()).is_some() {
            assert(shadows_method(*heap, dictionary, named_proof_views(methods@)));
            return true;
        }
        index = index + 1;
    }
    false
}

/// Whether what an object holds under a name is unchanged.
pub open spec fn member_pristine(heap: Heap, holder: usize, named: NamedView) -> Check {
    match heap.attribute_of(holder, named.name) {
        None => Err(Failure::Attribute),
        Some(current) => is_pristine(heap, current, named.behavior),
    }
}

/// Whether what an object holds under names is unchanged, asked in order.
pub open spec fn members_pristine(heap: Heap, holder: usize, proofs: Seq<NamedView>) -> Check
    decreases proofs.len(),
{
    if proofs.len() == 0 {
        Ok(true)
    } else {
        both(
            member_pristine(heap, holder, proofs[0]),
            members_pristine(heap, holder, proofs.drop_first()),
        )
    }
}

/// Whether what an object holds under names is unchanged.
fn check_members(heap: &Heap, holder: usize, proofs: &Vec<NamedProof>) -> (check: Check)
    ensures
        check == members_pristine(*heap, holder, named_proof_views(proofs@)),
{
    let mut index: usize = 0;
    let ghost views = named_proof_views(proofs@);
    assert(views.skip(0) =~= views);
    while index < proofs.len()
        invariant
            index <= proofs.len(),
            views == named_proof_views(proofs@),
            members_pristine(*heap, holder, views) == members_pristine(
                *heap,
                holder,
                views.skip(index as int),
            ),
        decreases proofs.len() - index,
    {
        assert(views.skip(index as int).drop_first() =~= views.skip(index + 1));
        assert(views.skip(index as int)[0] == proofs@[index as int]@);
        let checked = match heap.attribute(holder, proofs[index].name.as_str()) {
            None => Err(Failure::Attribute),
            Some(current) => proofs[index].behavior.behavior_proof_is_pristine(heap, current),
        };
        match checked {
            Ok(true) => {},
            other => {
                return other;
            },
        }
        index = index + 1;
    }
    Ok(true)
}

/// Whether a name of the adapter's module is unchanged. The SOCKS manager may
/// be missing or broken: that only refuses.
pub open spec fn global_pristine(heap: Heap, module: usize, named: NamedView) -> Check {
    if named.name == "SOCKSProxyManager"@ {
        Ok(member_pristine(heap, module, named) == Ok::<bool, Failure>(true))
    } else {
        member_pristine(heap, module, named)
    }
}

/// Whether the names of the adapter's module are unchanged, asked in order.
pub open spec fn globals_pristine(heap: Heap, module: usize, proofs: Seq<NamedView>) -> Check
    decreases proofs.len(),
{
    if proofs.len() == 0 {
        Ok(true)
    } else {
        both(
            global_pristine(heap, module, proofs[0]),
            globals_pristine(heap, module, proofs.drop_first()),
        )
    }
}

/// Whether the names of the adapter's module are unchanged.
fn check_globals(heap: &Heap, module: usize, proofs: &Vec<NamedProof>) -> (check: Check)
    ensures
        check == globals_pristine(*heap, module, named_proof_views(proofs@)),
{
    let mut index: usize = 0;
    let ghost views = named_proof_views(proofs@);
    assert(views.skip(0) =~= views);
    while index < proofs.len()
        invariant
            index <= proofs.len(),
            views == named_proof_views(proofs@),
            globals_pristine(*heap, module, views) == globals_pristine(
                *heap,
                module,
                views.skip(index as int),
            ),
        decreases proofs.len() - index,
    {
        assert(views.skip(index as int).drop_first() =~= views.skip(index + 1));
        assert(views.skip(index as int)[0] == proofs@[index as int]@);
        let checked = match heap.attribute(module, proofs[index].name.as_str()) {
            None => Err(Failure::Attribute),
            Some(current) => proofs[index].behavior.behavior_proof_is_pristine(heap, current),
        };
        let optional = same_text(proofs[index].name.as_str(), "SOCKSProxyManager");
        match checked {
            Ok(true) => {},
            other => {
                if optional {
                    return Ok(false);
                }
                return other;
            },
        }
        index = index + 1;
    }
    Ok(true)
}

/// Whether a name that the error handling reads is found where it was, and is
/// unchanged.
pub open spec fn exception_pristine(heap: Heap, globals: usize, builtins: usize, global: GlobalView) -> Check {
    if !global.in_module && heap.entry_of(globals, global.name) is Some {
        Ok(false)
    } else {
        match (if global.in_module {
            heap.entry_of(globals, global.name)
        } else {
            heap.entry_of(builtins, global.name)
        }) {
            None => Ok(false),
            Some(current) => is_pristine(heap, current, global.behavior),
        }
    }
}

/// Whether the names that the error handling reads are unchanged, asked in
/// order.
pub open spec fn exceptions_pristine(
    heap: Heap,
    globals: usize,
    builtins: usize,
    proofs: Seq<GlobalView>,
) -> Check
    decreases proofs.len(),
{
    if proofs.len() == 0 {
        Ok(true)
    } else {
        both(
            exception_pristine(heap, globals, builtins, proofs[0]),
            exceptions_pristine(heap, globals, builtins, proofs.drop_first()),
        )
    }
}

/// Whether the names that the error handling reads are unchanged.
fn check_exceptions(heap: &Heap, globals: usize, builtins: usize, proofs: &Vec<GlobalProof>) -> (check:
    Check)
    ensures
        check == exceptions_pristine(*heap, globals, builtins, global_views(proofs@)),
{
    let mut index: usize = 0;
    let ghost views = global_views(proofs@);
    assert(views.skip(0) =~= views);
    while index < proofs.len()
        invariant
            index <= proofs.len(),
            views == global_views(proofs@),
            exceptions_pristine(*heap, globals, builtins, views) == exceptions_pristine(
                *heap,
                globals,
                builtins,
                views.skip(index as int),
            ),
        decreases proofs.len() - index,
    {
        assert(views.skip(index as int).drop_first() =~= views.skip(index + 1));
        assert(views.skip(index as int)[0] == proofs@[index as int]@);
        let held = heap.entry(globals, proofs[index].name.as_str());
        if !proofs[index].in_module && held.is_some() {
            return Ok(false);
        }
        let current = if proofs[index].in_module {
            held
        } else {
            heap.entry(builtins, proofs[index].name.as_str())
        };
        match current {
            None => {
                return Ok(false);
            },
            Some(current) => match proofs[index].behavior.behavior_proof_is_pristine(
                heap,
                current,
            ) {
                Ok(true) => {},
                other => {
                    return other;
                },
            },
        }
        index = index + 1;
    }
    Ok(true)
}

/// Whether a routing mapping is held under a name and unchanged; anything else
/// refuses.
pub open spec fn holds_routing(heap: Heap, holder: usize, name: Seq<char>, routing: RoutingView) -> bool {
    match heap.attribute_of(holder, name) {
        None => false,
        Some(mapping) => routing_pristine(heap, mapping, routing) == Ok::<bool, Failure>(true),
    }
}

/// Whether a routing mapping is held under a name and unchanged.
fn routing_is_held(heap: &Heap, holder: usize, name: &str, routing: &RoutingProof) -> (held: bool)
    ensures
        held == holds_routing(*heap, holder, name@, routing@),
{
    match heap.attribute(holder, name) {
        None => false,
        Some(mapping) => match routing.routing_mapping_proof_is_pristine(heap, mapping) {
            Ok(true) => true,
            _ => false,
        },
    }
}

/// Whether the mappings that managers route by are unchanged.
pub open spec fn routing_sources_pristine(heap: Heap, state: AdapterView) -> bool {
    &&& holds_routing(
        heap,
        state.poolmanager_module,
        "pool_classes_by_scheme"@,
        state.http_pool_classes,
    )
    &&& holds_routing(heap, state.poolmanager_module, "key_fn_by_scheme"@, state.key_functions)
    &&& match state.socks_pool_classes {
        None => true,
        Some(socks) => match heap.attribute_of(state.adapters_module, "SOCKSProxyManager"@) {
            None => false,
            Some(manager) => holds_routing(heap, manager, "pool_classes_by_scheme"@, socks),
        },
    }
}

/// Whether the mappings that managers route by are unchanged.
pub fn canonical_routing_sources_are_pristine(heap: &Heap, state: &AdapterState) -> (pristine: bool)
    ensures
        pristine == routing_sources_pristine(*heap, state@),
{
    if !routing_is_held(
        heap,
        state.poolmanager_module,
        "pool_classes_by_scheme",
        &state.http_pool_classes,
    ) || !routing_is_held(
        heap,
        state.poolmanager_module,
        "key_fn_by_scheme",
        &state.key_functions,
    ) {
        return false;
    }
    match &state.socks_pool_classes {
        None => true,
        Some(socks) => match heap.attribute(state.adapters_module, "SOCKSProxyManager") {
            None => false,
            Some(manager) => routing_is_held(heap, manager, "pool_classes_by_scheme", socks),
        },
    }
}

/// Whether an adapter and a request are of the remembered classes and shadow
/// none of their methods.
pub open spec fn instances_pristine(heap: Heap, state: AdapterView, adapter: usize, request: usize) -> Check {
    if !heap.is_exactly(adapter, state.adapter_type) || !heap.is_exactly(
        request,
        state.prepared_request_type,
    ) {
        Ok(false)
    } else {
        match heap.attribute_of(adapter, "__dict__"@) {
            None => Err(Failure::Attribute),
            Some(dictionary) => if heap.dict_of(dictionary) is None || shadows_method(
                heap,
                dictionary,
                state.methods,
            ) {
                Ok(false)
            } else {
                attribute_is(
                    heap,
                    state.prepared_request_type,
                    "__getattribute__"@,
                    state.prepared_getattribute,
                )
            },
        }
    }
}

/// Whether an adapter and a request are of the remembered classes.
fn check_instances(heap: &Heap, state: &AdapterState, adapter: usize, request: usize) -> (check:
    Check)
    ensures
        check == instances_pristine(*heap, state@, adapter, request),
{
    if !heap.exactly(adapter, state.adapter_type) || !heap.exactly(
        request,
        state.prepared_request_type,
    ) {
        return Ok(false);
    }
    match heap.attribute(adapter, "__dict__") {
        None => Err(Failure::Attribute),
        Some(dictionary) => {
            if heap.dict(dictionary).is_none() || method_is_shadowed(
                heap,
                dictionary,
                &state.methods,
            ) {
                return Ok(false);
            }
            check_attribute_is(
                heap,
                state.prepared_request_type,
                "__getattribute__",
                state.prepared_getattribute,
            )
        },
    }
}

/// Whether `send` still reads the remembered name spaces.
pub open spec fn send_pristine(heap: Heap, state: AdapterView) -> Check {
    match heap.attribute_of(state.adapter_type, "send"@) {
        None => Err(Failure::Attribute),
        Some(send) => both(
            attribute_is(heap, send, "__globals__"@, state.send_globals),
            attribute_is(heap, send, "__builtins__"@, state.send_builtins),
        ),
    }
}

/// Whether `send` still reads the remembered name spaces.
fn check_send(heap: &Heap, state: &AdapterState) -> (check: Check)
    ensures
        check == send_pristine(*heap, state@),
{
    match heap.attribute(state.adapter_type, "send") {
        None => Err(Failure::Attribute),
        Some(send) => {
            match check_attribute_is(heap, send, "__globals__", state.send_globals) {
                Ok(true) => {},
                other => {
                    return other;
                },
            }
            check_attribute_is(heap, send, "__builtins__", state.send_builtins)
        },
    }
}

/// Whether the proxy managers and the routing mappings are unchanged.
pub open spec fn managers_pristine(heap: Heap, state: AdapterView) -> Check {
    match heap.module_of("urllib3.poolmanager"@) {
        None => Err(Failure::Import),
        Some(module) => both(
            Ok(module == state.poolmanager_module),
            both(
                match heap.attribute_of(module, "ProxyManager"@) {
                    None => Err(Failure::Attribute),
                    Some(current) => is_pristine(heap, current, state.proxy_manager),
                },
                Ok(
                    (match heap.attribute_of(state.adapters_module, "SOCKSProxyManager"@) {
                        None => false,
                        Some(current) => is_pristine(heap, current, state.socks_manager) == Ok::<
                            bool,
                            Failure,
                        >(true),
                    }) && routing_sources_pristine(heap, state),
                ),
            ),
        ),
    }
}

/// Whether the proxy managers and the routing mappings are unchanged.
fn check_managers(heap: &Heap, state: &AdapterState) -> (check: Check)
    ensures
        check == managers_pristine(*heap, state@),
{
    let module = match heap.module("urllib3.poolmanager") {
        Some(module) => module,
        None => {
            return Err(Failure::Import);
        },
    };
    if module != state.poolmanager_module {
        return Ok(false);
    }
    match heap.attribute(module, "ProxyManager") {
        None => {
            return Err(Failure::Attribute);
        },
        Some(current) => match state.proxy_manager.behavior_proof_is_pristine(heap, current) {
            Ok(true) => {},
            other => {
                return other;
            },
        },
    }
    match heap.attribute(state.adapters_module, "SOCKSProxyManager") {
        None => {
            return Ok(false);
        },
        Some(current) => match state.socks_manager.behavior_proof_is_pristine(heap, current) {
            Ok(true) => {},
            _ => {
                return Ok(false);
            },
        },
    }
    Ok(canonical_routing_sources_are_pristine(heap, state))
}

/// Whether an adapter and a request are what they were when the adapter's class
/// was first met, so that a native send behaves as Python's would.
pub open spec fn identity_pristine(heap: Heap, state: AdapterView, adapter: usize, request: usize) -> Check {
    both(
        instances_pristine(heap, state, adapter, request),
        both(
            members_pristine(heap, state.adapter_type, state.methods),
            both(
                globals_pristine(heap, state.adapters_module, state.globals),
                both(
                    send_pristine(heap, state),
                    both(
                        exceptions_pristine(
                            heap,
                            state.send_globals,
                            state.send_builtins,
                            state.exception_globals,
                        ),
                        managers_pristine(heap, state),
                    ),
                ),
            ),
        ),
    )
}

/// Whether an adapter and a request are what they were when the adapter's class
/// was first met.
pub fn adapter_identity_is_pristine(
    heap: &Heap,
    state: &AdapterState,
    adapter: usize,
    request: usize,
) -> (check: Check)
    ensures
        check == identity_pristine(*heap, state@, adapter, request),
{
    match check_instances(heap, state, adapter, request) {
        Ok(true) => {},
        other => {
            return other;
        },
    }
    match check_members(heap, state.adapter_type, &state.methods) {
        Ok(true) => {},
        other => {
            return other;
        },
    }
    match check_globals(heap, state.adapters_module, &state.globals) {
        Ok(true) => {},
        other => {
            return other;
        },
    }
    match check_send(heap, state) {
        Ok(true) => {},
        other => {
            return other;
        },
    }
    match check_exceptions(
        heap,
        state.send_globals,
        state.send_builtins,
        &state.exception_globals,
    ) {
        Ok(true) => {},
        other => {
            return other;
        },
    }
    check_managers(heap, state)
}

/// The object that a name of the error handling stood for.
pub open spec fn frozen_global(proofs: Seq<GlobalView>, name: Seq<char>) -> Option<usize>
    decreases proofs.len(),
{
    if proofs.len() == 0 {
        None
    } else if proofs[0].name == name {
        Some(proofs[0].behavior.object)
    } else {
        frozen_global(proofs.drop_first(), name)
    }
}

/// The object that a name of the error handling stood for.
pub fn canonical_adapter_global(proofs: &Vec<GlobalProof>, name: &str) -> (object: Option<usize>)
    ensures
        object == frozen_global(global_views(proofs@), name@),
{
    let mut index: usize = 0;
    let ghost views = global_views(proofs@);
    assert(views.skip(0) =~= views);
    while index < proofs.len()
        invariant
            index <= proofs.len(),
            views == global_views(proofs@),
            frozen_global(views, name@) == frozen_global(views.skip(index as int), name@),
        decreases proofs.len() - index,
    {
        assert(views.skip(index as int).drop_first() =~= views.skip(index + 1));
        assert(views.skip(index as int)[0] == proofs@[index as int]@);
        if same_text(proofs[index].name.as_str(), name) {
            return Some(proofs[index].behavior.object);
        }
        index = index + 1;
    }
    None
}

/// The object that a name of the error handling stands for now.
pub fn live_adapter_global(heap: &Heap, globals: usize, builtins: usize, name: &str) -> (object:
    Option<usize>)
    ensures
        object == (match heap.entry_of(globals, name@) {
            Some(value) => Some(value),
            None => heap.entry_of(builtins, name@),
        }),
{
    match heap.entry(globals, name) {
        Some(value) => Some(value),
        None => heap.entry(builtins, name),
    }
}

/// An adapter that is of another class, whose request is of another class, or
/// whose dictionary shadows a guarded method is never pristine.
pub proof fn law_foreign_instances_are_refused(
    heap: Heap,
    state: AdapterView,
    adapter: usize,
    request: usize,
)
    requires
        identity_pristine(heap, state, adapter, request) == Ok::<bool, Failure>(true),
    ensures
        heap.is_exactly(adapter, state.adapter_type),
        heap.is_exactly(request, state.prepared_request_type),
        heap.attribute_of(adapter, "__dict__"@) matches Some(dictionary) && !shadows_method(
            heap,
            dictionary,
            state.methods,
        ),
{
}

/// An adapter is held to these methods of its class.
pub proof fn law_methods_of_adapters()
    ensures
        method_names().len() == 12,
        method_names().contains("__getattribute__"@),
        method_names().contains("__setstate__"@),
        method_names().contains("send"@),
        method_names().contains("close"@),
        method_names().contains("build_response"@),
        method_names().contains("get_connection_with_tls_context"@),
        method_names().contains("cert_verify"@),
        method_names().contains("request_url"@),
        method_names().contains("add_headers"@),
        method_names().contains("proxy_headers"@),
        method_names().contains("proxy_manager_for"@),
        method_names().contains("build_connection_pool_key_attributes"@),
{
    let names = method_names();
    assert(names[0] == "__getattribute__"@);
    assert(names[1] == "__setstate__"@);
    assert(names[2] == "send"@);
    assert(names[3] == "close"@);
    assert(names[4] == "build_response"@);
    assert(names[5] == "get_connection_with_tls_context"@);
    assert(names[6] == "cert_verify"@);
    assert(names[7] == "request_url"@);
    assert(names[8] == "add_headers"@);
    assert(names[9] == "proxy_headers"@);
    assert(names[10] == "proxy_manager_for"@);
    assert(names[11] == "build_connection_pool_key_attributes"@);
}

/// An adapter is held to these names of its module.
pub proof fn law_globals_of_adapters()
    ensures
        global_names().len() == 16,
        global_names().contains("PoolManager"@),
        global_names().contains("proxy_from_url"@),
        global_names().contains("TimeoutSauce"@),
        global_names().contains("parse_url"@),
        global_names().contains("Retry"@),
        global_names().contains("_basic_auth_str"@),
        global_names().contains("extract_cookies_to_jar"@),
        global_names().contains("Response"@),
        global_names().contains("CaseInsensitiveDict"@),
        global_names().contains("get_auth_from_url"@),
        global_names().contains("get_encoding_from_headers"@),
        global_names().contains("prepend_scheme_if_needed"@),
        global_names().contains("select_proxy"@),
        global_names().contains("urldefragauth"@),
        global_names().contains("DEFAULT_CA_BUNDLE_PATH"@),
        global_names().contains("SOCKSProxyManager"@),
{
    let names = global_names();
    assert(names[0] == "PoolManager"@);
    assert(names[1] == "proxy_from_url"@);
    assert(names[2] == "TimeoutSauce"@);
    assert(names[3] == "parse_url"@);
    assert(names[4] == "Retry"@);
    assert(names[5] == "_basic_auth_str"@);
    assert(names[6] == "extract_cookies_to_jar"@);
    assert(names[7] == "Response"@);
    assert(names[8] == "CaseInsensitiveDict"@);
    assert(names[9] == "get_auth_from_url"@);
    assert(names[10] == "get_encoding_from_headers"@);
    assert(names[11] == "prepend_scheme_if_needed"@);
    assert(names[12] == "select_proxy"@);
    assert(names[13] == "urldefragauth"@);
    assert(names[14] == "DEFAULT_CA_BUNDLE_PATH"@);
    assert(names[15] == "SOCKSProxyManager"@);
}

/// Sending is held to these names, wherever they are defined.
pub proof fn law_names_of_sending()
    ensures
        exception_global_names().len() == 22,
        exception_global_names().contains("LocationValueError"@),
        exception_global_names().contains("InvalidURL"@),
        exception_global_names().contains("ProtocolError"@),
        exception_global_names().contains("OSError"@),
        exception_global_names().contains("MaxRetryError"@),
        exception_global_names().contains("ConnectTimeoutError"@),
        exception_global_names().contains("NewConnectionError"@),
        exception_global_names().contains("ConnectTimeout"@),
        exception_global_names().contains("ResponseError"@),
        exception_global_names().contains("RetryError"@),
        exception_global_names().contains("_ProxyError"@),
        exception_global_names().contains("ProxyError"@),
        exception_global_names().contains("_SSLError"@),
        exception_global_names().contains("SSLError"@),
        exception_global_names().contains("ClosedPoolError"@),
        exception_global_names().contains("_HTTPError"@),
        exception_global_names().contains("ReadTimeoutError"@),
        exception_global_names().contains("ReadTimeout"@),
        exception_global_names().contains("_InvalidHeader"@),
        exception_global_names().contains("InvalidHeader"@),
        exception_global_names().contains("ConnectionError"@),
        exception_global_names().contains("isinstance"@),
{
    let names = exception_global_names();
    assert(names[0] == "LocationValueError"@);
    assert(names[1] == "InvalidURL"@);
    assert(names[2] == "ProtocolError"@);
    assert(names[3] == "OSError"@);
    assert(names[4] == "MaxRetryError"@);
    assert(names[5] == "ConnectTimeoutError"@);
    assert(names[6] == "NewConnectionError"@);
    assert(names[7] == "ConnectTimeout"@);
    assert(names[8] == "ResponseError"@);
    assert(names[9] == "RetryError"@);
    assert(names[10] == "_ProxyError"@);
    assert(names[11] == "ProxyError"@);
    assert(names[12] == "_SSLError"@);
    assert(names[13] == "SSLError"@);
    assert(names[14] == "ClosedPoolError"@);
    assert(names[15] == "_HTTPError"@);
    assert(names[16] == "ReadTimeoutError"@);
    assert(names[17] == "ReadTimeout"@);
    assert(names[18] == "_InvalidHeader"@);
    assert(names[19] == "InvalidHeader"@);
    assert(names[20] == "ConnectionError"@);
    assert(names[21] == "isinstance"@);
}

/// Whether what is remembered under a name is the behaviour of an object's
/// attribute of that name.
pub open spec fn is_proof_of(heap: Heap, holder: usize, name: Seq<char>, named: NamedView) -> bool {
    &&& named.name == name
    &&& heap.attribute_of(holder, name) == Some(named.behavior.object)
    &&& behavior_of(heap, named.behavior.object) == Ok::<Seq<Observation>, Failure>(
        named.behavior.facts,
    )
}

/// What is remembered of an object's attributes stands in the order of their
/// names, one for each, and each is of the attribute of its own name.
pub proof fn law_attributes_are_remembered_each(
    heap: Heap,
    holder: usize,
    names: Seq<Seq<char>>,
    proofs: Seq<NamedView>,
)
    requires
        attribute_proofs(heap, holder, names) == Ok::<Seq<NamedView>, Failure>(proofs),
    ensures
        proofs.len() == names.len(),
        forall|index: int|
            0 <= index < names.len() ==> is_proof_of(
                heap,
                holder,
                #[trigger] names[index],
                proofs[index],
            ),
    decreases names.len(),
{
    if names.len() > 0 {
        let front = names.drop_last();
        let before = attribute_proofs(heap, holder, front)->Ok_0;
        law_attributes_are_remembered_each(heap, holder, front, before);
        assert forall|index: int| 0 <= index < names.len() implies is_proof_of(
            heap,
            holder,
            #[trigger] names[index],
            proofs[index],
        ) by {
            if index < front.len() {
                assert(front[index] == names[index]);
                assert(proofs[index] == before[index]);
            }
        }
    }
}

/// Whether what is remembered of a name is the behaviour of what the name stands
/// for: in the module, or among the builtins where the module has none of it.
pub open spec fn is_global_proof_of(
    heap: Heap,
    globals: usize,
    builtins: usize,
    name: Seq<char>,
    global: GlobalView,
) -> bool {
    &&& global.name == name
    &&& global.in_module <==> heap.entry_of(globals, name) is Some
    &&& global.in_module ==> heap.entry_of(globals, name) == Some(global.behavior.object)
    &&& !global.in_module ==> heap.entry_of(builtins, name) == Some(global.behavior.object)
    &&& behavior_of(heap, global.behavior.object) == Ok::<Seq<Observation>, Failure>(
        global.behavior.facts,
    )
}

/// What is remembered of names stands in their order, one for each, and each is of
/// what its own name stands for.
pub proof fn law_names_are_remembered_each(
    heap: Heap,
    globals: usize,
    builtins: usize,
    names: Seq<Seq<char>>,
    proofs: Seq<GlobalView>,
)
    requires
        global_proofs(heap, globals, builtins, names) == Ok::<Seq<GlobalView>, FaultView>(proofs),
    ensures
        proofs.len() == names.len(),
        forall|index: int|
            0 <= index < names.len() ==> is_global_proof_of(
                heap,
                globals,
                builtins,
                #[trigger] names[index],
                proofs[index],
            ),
    decreases names.len(),
{
    if names.len() > 0 {
        let front = names.drop_last();
        let before = global_proofs(heap, globals, builtins, front)->Ok_0;
        law_names_are_remembered_each(heap, globals, builtins, front, before);
        assert forall|index: int| 0 <= index < names.len() implies is_global_proof_of(
            heap,
            globals,
            builtins,
            #[trigger] names[index],
            proofs[index],
        ) by {
            if index < front.len() {
                assert(front[index] == names[index]);
                assert(proofs[index] == before[index]);
            }
        }
    }
}

/// Adapters are at home where their module, their class, and the globals and
/// builtins of their way to send are.
pub proof fn law_homes_of_adapters(heap: Heap, home: AdapterHome)
    ensures
        home_of(heap) == Ok::<AdapterHome, Failure>(home) <==> {
            &&& heap.module_of("requests.adapters"@) == Some(home.module)
            &&& heap.attribute_of(home.module, "HTTPAdapter"@) == Some(home.class)
            &&& heap.attribute_of(home.class, "send"@) matches Some(send)
            &&& heap.attribute_of(send, "__globals__"@) == Some(home.globals)
            &&& heap.dict_of(home.globals) is Some
            &&& heap.attribute_of(send, "__builtins__"@) == Some(home.builtins)
            &&& heap.dict_of(home.builtins) is Some
            &&& heap.module_of("requests.models"@) matches Some(models)
            &&& heap.attribute_of(models, "PreparedRequest"@) == Some(home.request_type)
        },
{
}

/// The managers of adapters, and the tables that they route by, come from these
/// places.
pub proof fn law_managers_of_adapters(heap: Heap, adapters: usize, managers: ManagersView)
    ensures
        managers_of(heap, adapters) == Ok::<ManagersView, Failure>(managers) <==> {
            &&& heap.module_of("urllib3.poolmanager"@) == Some(managers.module)
            &&& attribute_proof(heap, adapters, "PoolManager"@) == Ok::<BehaviorView, Failure>(
                managers.poolmanager,
            )
            &&& attribute_proof(heap, managers.module, "ProxyManager"@) == Ok::<
                BehaviorView,
                Failure,
            >(managers.proxy_manager)
            &&& attribute_proof(heap, adapters, "SOCKSProxyManager"@) == Ok::<
                BehaviorView,
                Failure,
            >(managers.socks_manager)
            &&& routing_attribute(heap, managers.module, "pool_classes_by_scheme"@) == Ok::<
                RoutingView,
                Failure,
            >(managers.http_pool_classes)
            &&& optional_routing_attribute(
                heap,
                managers.socks_manager.object,
                "pool_classes_by_scheme"@,
            ) == Ok::<Option<RoutingView>, Failure>(managers.socks_pool_classes)
            &&& routing_attribute(heap, managers.module, "key_fn_by_scheme"@) == Ok::<
                RoutingView,
                Failure,
            >(managers.key_functions)
        },
{
}

/// What is remembered of adapters comes from their home and from their managers.
pub proof fn law_states_of_adapters(heap: Heap, state: AdapterView)
    ensures
        state_of(heap) == Ok::<AdapterView, FaultView>(state) <==> {
            &&& home_of(heap) == Ok::<AdapterHome, Failure>(
                AdapterHome {
                    module: state.adapters_module,
                    class: state.adapter_type,
                    globals: state.send_globals,
                    builtins: state.send_builtins,
                    request_type: state.prepared_request_type,
                },
            )
            &&& managers_of(heap, state.adapters_module) == Ok::<ManagersView, Failure>(
                ManagersView {
                    module: state.poolmanager_module,
                    poolmanager: state.poolmanager,
                    proxy_manager: state.proxy_manager,
                    socks_manager: state.socks_manager,
                    http_pool_classes: state.http_pool_classes,
                    socks_pool_classes: state.socks_pool_classes,
                    key_functions: state.key_functions,
                },
            )
            &&& heap.attribute_of(state.prepared_request_type, "__getattribute__"@) == Some(
                state.prepared_getattribute,
            )
            &&& attribute_proofs(heap, state.adapter_type, method_names()) == Ok::<
                Seq<NamedView>,
                Failure,
            >(state.methods)
            &&& attribute_proofs(heap, state.adapters_module, global_names()) == Ok::<
                Seq<NamedView>,
                Failure,
            >(state.globals)
            &&& global_proofs(
                heap,
                state.send_globals,
                state.send_builtins,
                exception_global_names(),
            ) == Ok::<Seq<GlobalView>, FaultView>(state.exception_globals)
        },
{
}

/// Whether an object's attribute is still what is remembered of it.
pub open spec fn is_still(heap: Heap, holder: usize, named: NamedView) -> bool {
    &&& heap.attribute_of(holder, named.name) == Some(named.behavior.object)
    &&& checked(heap, named.behavior.facts) == Ok::<bool, Failure>(true)
}

/// Members are what they were exactly where each of them is.
pub proof fn law_members_are_what_they_were(heap: Heap, holder: usize, proofs: Seq<NamedView>)
    ensures
        members_pristine(heap, holder, proofs) == Ok::<bool, Failure>(true) <==> forall|index: int|
            0 <= index < proofs.len() ==> is_still(heap, holder, #[trigger] proofs[index]),
        globals_pristine(heap, holder, proofs) == Ok::<bool, Failure>(true) <==> forall|index: int|
            0 <= index < proofs.len() ==> is_still(heap, holder, #[trigger] proofs[index]),
    decreases proofs.len(),
{
    if proofs.len() > 0 {
        let rest = proofs.drop_first();
        law_members_are_what_they_were(heap, holder, rest);
        assert(member_pristine(heap, holder, proofs[0]) == Ok::<bool, Failure>(true) <==> is_still(
            heap,
            holder,
            proofs[0],
        ));
        if forall|index: int|
            0 <= index < proofs.len() ==> is_still(heap, holder, #[trigger] proofs[index]) {
            assert(is_still(heap, holder, proofs[0]));
            assert forall|index: int| 0 <= index < rest.len() implies is_still(
                heap,
                holder,
                #[trigger] rest[index],
            ) by {
                assert(rest[index] == proofs[index + 1]);
            }
        }
        if is_still(heap, holder, proofs[0]) && forall|index: int|
            0 <= index < rest.len() ==> is_still(heap, holder, #[trigger] rest[index]) {
            assert forall|index: int| 0 <= index < proofs.len() implies is_still(
                heap,
                holder,
                #[trigger] proofs[index],
            ) by {
                if index > 0 {
                    assert(rest[index - 1] == proofs[index]);
                }
            }
        }
    }
}

/// Whether a name still stands for what is remembered of it, in the same place.
pub open spec fn stands_still(heap: Heap, globals: usize, builtins: usize, global: GlobalView) -> bool {
    &&& global.in_module ==> heap.entry_of(globals, global.name) == Some(global.behavior.object)
    &&& !global.in_module ==> heap.entry_of(globals, global.name) is None && heap.entry_of(
        builtins,
        global.name,
    ) == Some(global.behavior.object)
    &&& checked(heap, global.behavior.facts) == Ok::<bool, Failure>(true)
}

/// The names of sending are what they were exactly where each of them is, and none
/// of the builtins is hidden by the module.
pub proof fn law_names_of_sending_are_what_they_were(
    heap: Heap,
    globals: usize,
    builtins: usize,
    proofs: Seq<GlobalView>,
)
    ensures
        exceptions_pristine(heap, globals, builtins, proofs) == Ok::<bool, Failure>(true)
            <==> forall|index: int|
            0 <= index < proofs.len() ==> stands_still(
                heap,
                globals,
                builtins,
                #[trigger] proofs[index],
            ),
    decreases proofs.len(),
{
    if proofs.len() > 0 {
        let rest = proofs.drop_first();
        law_names_of_sending_are_what_they_were(heap, globals, builtins, rest);
        assert(exception_pristine(heap, globals, builtins, proofs[0]) == Ok::<bool, Failure>(true)
            <==> stands_still(heap, globals, builtins, proofs[0]));
        if forall|index: int|
            0 <= index < proofs.len() ==> stands_still(
                heap,
                globals,
                builtins,
                #[trigger] proofs[index],
            ) {
            assert(stands_still(heap, globals, builtins, proofs[0]));
            assert forall|index: int| 0 <= index < rest.len() implies stands_still(
                heap,
                globals,
                builtins,
                #[trigger] rest[index],
            ) by {
                assert(rest[index] == proofs[index + 1]);
            }
        }
        if stands_still(heap, globals, builtins, proofs[0]) && forall|index: int|
            0 <= index < rest.len() ==> stands_still(
                heap,
                globals,
                builtins,
                #[trigger] rest[index],
            ) {
            assert forall|index: int| 0 <= index < proofs.len() implies stands_still(
                heap,
                globals,
                builtins,
                #[trigger] proofs[index],
            ) by {
                if index > 0 {
                    assert(rest[index - 1] == proofs[index]);
                }
            }
        }
    }
}

/// An adapter is taken over exactly where it and its request are of the classes
/// that were first met, it hides none of its methods, and nothing that sending
/// leans on was changed.
pub proof fn law_adapters_are_what_they_were(
    heap: Heap,
    state: AdapterView,
    adapter: usize,
    request: usize,
)
    ensures
        identity_pristine(heap, state, adapter, request) == Ok::<bool, Failure>(true) <==> {
            &&& heap.is_exactly(adapter, state.adapter_type)
            &&& heap.is_exactly(request, state.prepared_request_type)
            &&& heap.attribute_of(adapter, "__dict__"@) matches Some(dictionary)
            &&& heap.dict_of(dictionary) is Some
            &&& !shadows_method(heap, dictionary, state.methods)
            &&& heap.attribute_of(state.prepared_request_type, "__getattribute__"@) == Some(
                state.prepared_getattribute,
            )
            &&& members_pristine(heap, state.adapter_type, state.methods) == Ok::<bool, Failure>(
                true,
            )
            &&& globals_pristine(heap, state.adapters_module, state.globals) == Ok::<bool, Failure>(
                true,
            )
            &&& heap.attribute_of(state.adapter_type, "send"@) matches Some(send)
            &&& heap.attribute_of(send, "__globals__"@) == Some(state.send_globals)
            &&& heap.attribute_of(send, "__builtins__"@) == Some(state.send_builtins)
            &&& exceptions_pristine(
                heap,
                state.send_globals,
                state.send_builtins,
                state.exception_globals,
            ) == Ok::<bool, Failure>(true)
            &&& heap.module_of("urllib3.poolmanager"@) == Some(state.poolmanager_module)
            &&& heap.attribute_of(state.poolmanager_module, "ProxyManager"@) == Some(
                state.proxy_manager.object,
            )
            &&& checked(heap, state.proxy_manager.facts) == Ok::<bool, Failure>(true)
            &&& heap.attribute_of(state.adapters_module, "SOCKSProxyManager"@) == Some(
                state.socks_manager.object,
            )
            &&& checked(heap, state.socks_manager.facts) == Ok::<bool, Failure>(true)
            &&& routing_sources_pristine(heap, state)
        },
{
}

/// Whether an object's attribute is still the table that is remembered.
pub open spec fn is_still_routing(
    heap: Heap,
    holder: usize,
    name: Seq<char>,
    routing: RoutingView,
) -> bool {
    &&& heap.attribute_of(holder, name) == Some(routing.mapping)
    &&& exact_dict_of(heap, routing.mapping) matches Some(entries) && has_text_keys(heap, entries)
    &&& checked(heap, routing.facts) == Ok::<bool, Failure>(true)
}

/// Routing is what it was exactly where both tables of managers are, and that of
/// SOCKS where there is one.
pub proof fn law_routing_is_what_it_was(heap: Heap, state: AdapterView)
    ensures
        routing_sources_pristine(heap, state) <==> {
            &&& is_still_routing(
                heap,
                state.poolmanager_module,
                "pool_classes_by_scheme"@,
                state.http_pool_classes,
            )
            &&& is_still_routing(
                heap,
                state.poolmanager_module,
                "key_fn_by_scheme"@,
                state.key_functions,
            )
            &&& state.socks_pool_classes matches Some(socks) ==> (heap.attribute_of(
                state.adapters_module,
                "SOCKSProxyManager"@,
            ) matches Some(manager) && is_still_routing(
                heap,
                manager,
                "pool_classes_by_scheme"@,
                socks,
            ))
        },
{
}

/// A table routes as the first one that was met exactly where it is a plain table
/// of texts with the same entries, and both tables are unchanged.
pub proof fn law_tables_route_alike(heap: Heap, current: usize, canonical: RoutingView)
    ensures
        is_canonical_routing(heap, current, canonical) == Ok::<bool, Failure>(true) ==> {
            &&& exact_dict_of(heap, current) == Some(canonical.entries)
            &&& has_text_keys(heap, canonical.entries)
            &&& routing_pristine(heap, canonical.mapping, canonical) == Ok::<bool, Failure>(true)
        },
        routing_proof_of(heap, current) matches Ok(routing) ==> routing.mapping == current
            && exact_dict_of(heap, current) == Some(routing.entries) && has_text_keys(
            heap,
            routing.entries,
        ) && mapping_of(heap, current) == Ok::<Seq<Observation>, Failure>(routing.facts),
        routing_snapshot_of(heap, current) matches Some(routing) ==> routing.mapping == current
            && exact_dict_of(heap, current) == Some(routing.entries) && has_text_keys(
            heap,
            routing.entries,
        ),
{
}

/// A remembered name gives the first object that was remembered under it.
pub proof fn law_the_first_of_a_name(proofs: Seq<GlobalView>, name: Seq<char>, place: int)
    requires
        0 <= place < proofs.len(),
        proofs[place].name == name,
        forall|earlier: int| 0 <= earlier < place ==> (#[trigger] proofs[earlier]).name != name,
    ensures
        frozen_global(proofs, name) == Some(proofs[place].behavior.object),
    decreases proofs.len(),
{
    if place > 0 {
        assert(proofs[0].name != name);
        let rest = proofs.drop_first();
        assert(rest[place - 1] == proofs[place]);
        assert forall|earlier: int| 0 <= earlier < place - 1 implies (
        #[trigger] rest[earlier]).name != name by {
            assert(rest[earlier] == proofs[earlier + 1]);
        }
        law_the_first_of_a_name(rest, name, place - 1);
    }
}

} // verus!
