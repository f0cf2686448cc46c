//! What is read of a `Retry` object before a request is sent natively.

use vstd::prelude::*;
use vstd::string::StringExecFns;

use crate::behavior::{check_facts, dict_proof, dict_snapshot, Fact};
use crate::behavior::{
    checked, fact_views, law_pristine_means_unchanged, named, named_views, namespace_of, observed,
    Observation,
};
use crate::errors::{begins_with, ErrorKind};
use crate::heap::{Binding, Check, Failure, Heap};
use crate::heap::{both, Pair};
use crate::text::text_views;

verus! {

/// Why a `Retry` object is not taken over.
#[derive(Clone, Copy, Debug, PartialEq, Eq, Structural)]
pub enum RetryRefusal {
    ExactType,
    InstanceDict,
    Shadowed,
    Total,
    Connect,
    Read,
    Status,
    Redirect,
    Other,
    MethodWhitelist,
    AllowedMethods,
    StatusForcelist,
    BackoffFactor,
    BackoffMax,
    BackoffJitter,
    RespectRetryAfter,
    RaiseOnStatus,
    RaiseOnRedirect,
    RetryAfterMax,
    HistoryTuple,
    HistoryRow,
    HistoryShape,
    HistoryError,
    HistoryMethod,
    HistoryUrl,
    HistoryStatus,
    HistoryRedirect,
}

impl RetryRefusal {
    /// The reason in words.
    pub open spec fn words(self) -> Seq<char> {
        match self {
            RetryRefusal::ExactType => "Retry must have the exact urllib3.util.retry.Retry type"@,
            RetryRefusal::InstanceDict => "Retry instance dictionary is unsupported"@,
            RetryRefusal::Shadowed => "Retry instance shadows a guarded method or constant"@,
            RetryRefusal::Total => "total is not None, bool, or a nonnegative int"@,
            RetryRefusal::Connect => "connect is not None, bool, or a nonnegative int"@,
            RetryRefusal::Read => "read is not None, bool, or a nonnegative int"@,
            RetryRefusal::Status => "status is not None, bool, or a nonnegative int"@,
            RetryRefusal::Redirect => "redirect is not None, bool, or a nonnegative int"@,
            RetryRefusal::Other => "other is not None, bool, or a nonnegative int"@,
            RetryRefusal::MethodWhitelist => "method_whitelist is not None or an iterable of exact strings"@,
            RetryRefusal::AllowedMethods => "allowed_methods is not None or an iterable of exact strings"@,
            RetryRefusal::StatusForcelist => "status_forcelist is not an iterable of status integers"@,
            RetryRefusal::BackoffFactor => "backoff_factor is not a nonnegative number"@,
            RetryRefusal::BackoffMax => "backoff_max is not a nonnegative number"@,
            RetryRefusal::BackoffJitter => "backoff_jitter is not a nonnegative number"@,
            RetryRefusal::RespectRetryAfter => "respect_retry_after_header is not an exact bool"@,
            RetryRefusal::RaiseOnStatus => "raise_on_status is not an exact bool"@,
            RetryRefusal::RaiseOnRedirect => "raise_on_redirect is not an exact bool"@,
            RetryRefusal::RetryAfterMax => "retry_after_max is not a nonnegative int"@,
            RetryRefusal::HistoryTuple => "history is not an exact tuple"@,
            RetryRefusal::HistoryRow => "history contains an unsupported row"@,
            RetryRefusal::HistoryShape => "history row has an unsupported shape"@,
            RetryRefusal::HistoryError => "history contains a Python error object"@,
            RetryRefusal::HistoryMethod => "history row method is unsupported"@,
            RetryRefusal::HistoryUrl => "history row URL is unsupported"@,
            RetryRefusal::HistoryStatus => "history row status is unsupported"@,
            RetryRefusal::HistoryRedirect => "history row redirect is unsupported"@,
        }
    }

    /// The reason in words.
    pub fn message(&self) -> (text: String)
        ensures
            text@ == self.words(),
    {
        let words: &'static str = match self {
            RetryRefusal::ExactType => "Retry must have the exact urllib3.util.retry.Retry type",
            RetryRefusal::InstanceDict => "Retry instance dictionary is unsupported",
            RetryRefusal::Shadowed => "Retry instance shadows a guarded method or constant",
            RetryRefusal::Total => "total is not None, bool, or a nonnegative int",
            RetryRefusal::Connect => "connect is not None, bool, or a nonnegative int",
            RetryRefusal::Read => "read is not None, bool, or a nonnegative int",
            RetryRefusal::Status => "status is not None, bool, or a nonnegative int",
            RetryRefusal::Redirect => "redirect is not None, bool, or a nonnegative int",
            RetryRefusal::Other => "other is not None, bool, or a nonnegative int",
            RetryRefusal::MethodWhitelist => "method_whitelist is not None or an iterable of exact strings",
            RetryRefusal::AllowedMethods => "allowed_methods is not None or an iterable of exact strings",
            RetryRefusal::StatusForcelist => "status_forcelist is not an iterable of status integers",
            RetryRefusal::BackoffFactor => "backoff_factor is not a nonnegative number",
            RetryRefusal::BackoffMax => "backoff_max is not a nonnegative number",
            RetryRefusal::BackoffJitter => "backoff_jitter is not a nonnegative number",
            RetryRefusal::RespectRetryAfter => "respect_retry_after_header is not an exact bool",
            RetryRefusal::RaiseOnStatus => "raise_on_status is not an exact bool",
            RetryRefusal::RaiseOnRedirect => "raise_on_redirect is not an exact bool",
            RetryRefusal::RetryAfterMax => "retry_after_max is not a nonnegative int",
            RetryRefusal::HistoryTuple => "history is not an exact tuple",
            RetryRefusal::HistoryRow => "history contains an unsupported row",
            RetryRefusal::HistoryShape => "history row has an unsupported shape",
            RetryRefusal::HistoryError => "history contains a Python error object",
            RetryRefusal::HistoryMethod => "history row method is unsupported",
            RetryRefusal::HistoryUrl => "history row URL is unsupported",
            RetryRefusal::HistoryStatus => "history row status is unsupported",
            RetryRefusal::HistoryRedirect => "history row redirect is unsupported",
        };
        String::from_str(words)
    }
}

/// Why a reading stops: the object is refused, or Python raised an error.
#[derive(Clone, Copy, Debug, PartialEq, Eq, Structural)]
pub enum Stop {
    Refused(RetryRefusal),
    Failed(Failure),
}

/// The `Retry` class and its surroundings as they were first met.
pub struct RetryGuard {
    pub urllib3_module: usize,
    pub urllib3_version: usize,
    pub retry_type: usize,
    pub history_type: usize,
    pub retry_module: usize,
    /// The name space of the class.
    pub class_names: Vec<Binding>,
    pub class_facts: Vec<Fact>,
    pub module_facts: Vec<Fact>,
}

/// The name space of an object.
pub open spec fn names_of(heap: Heap, holder: usize) -> Option<Seq<(Seq<char>, usize)>> {
    match heap.attribute_of(holder, "__dict__"@) {
        None => None,
        Some(namespace) => match heap.pairs_of(namespace) {
            None => None,
            Some(pairs) => named(heap, pairs),
        },
    }
}

/// Whether a class has its slot names. Pickling an object of a class without
/// them writes them into the class's name space (`copyreg._slotnames`), so that
/// the class would seem to have been changed.
pub open spec fn has_slot_names(heap: Heap, class: usize) -> bool {
    &&& heap.attribute_of(class, "__dict__"@) matches Some(namespace)
    &&& heap.entry_of(namespace, "__slotnames__"@) matches Some(names)
    &&& !heap.is_none_value(names)
}

/// Whether a class has its slot names.
fn slot_names_are_there(heap: &Heap, class: usize) -> (there: bool)
    ensures
        there == has_slot_names(*heap, class),
{
    match heap.attribute(class, "__dict__") {
        None => false,
        Some(namespace) => match heap.entry(namespace, "__slotnames__") {
            None => false,
            Some(names) => !heap.none_value(names),
        },
    }
}

/// What keeps the `Retry` class from being remembered, if anything. The class
/// is remembered with its slot names: they have to be there before.
pub open spec fn guard_failure(heap: Heap) -> Option<Failure> {
    match (heap.module_of("urllib3"@), heap.module_of("urllib3.util.retry"@)) {
        (Some(urllib3), Some(module)) => match heap.attribute_of(module, "Retry"@) {
            None => Some(Failure::Attribute),
            Some(class) => if !has_slot_names(heap, class) {
                Some(Failure::Attribute)
            } else {
                match (namespace_of(heap, class), namespace_of(heap, module)) {
                    (Err(failure), _) => Some(failure),
                    (_, Err(failure)) => Some(failure),
                    _ => if heap.attribute_of(urllib3, "__version__"@) is None || heap.attribute_of(
                        module,
                        "RequestHistory"@,
                    ) is None {
                        Some(Failure::Attribute)
                    } else {
                        None
                    },
                }
            },
        },
        _ => Some(Failure::Import),
    }
}

/// Whether a guard remembers what a snapshot shows.
pub open spec fn remembers(heap: Heap, guard: RetryGuard) -> bool {
    &&& heap.module_of("urllib3"@) == Some(guard.urllib3_module)
    &&& heap.module_of("urllib3.util.retry"@) == Some(guard.retry_module)
    &&& heap.attribute_of(guard.retry_module, "Retry"@) == Some(guard.retry_type)
    &&& heap.attribute_of(guard.retry_module, "RequestHistory"@) == Some(guard.history_type)
    &&& heap.attribute_of(guard.urllib3_module, "__version__"@) == Some(guard.urllib3_version)
    &&& has_slot_names(heap, guard.retry_type)
    &&& names_of(heap, guard.retry_type) == Some(named_views(guard.class_names@))
    &&& namespace_of(heap, guard.retry_type) == Ok::<
        Seq<Observation>,
        Failure,
    >(fact_views(guard.class_facts@))
    &&& namespace_of(heap, guard.retry_module) == Ok::<
        Seq<Observation>,
        Failure,
    >(fact_views(guard.module_facts@))
}

/// Remembers the `Retry` class and its surroundings.
pub fn initialize_retry_state(heap: &Heap) -> (guard: Result<RetryGuard, Failure>)
    ensures
        match guard {
            Ok(guard) => guard_failure(*heap) is None && remembers(*heap, guard),
            Err(failure) => guard_failure(*heap) == Some(failure),
        },
{
    let (urllib3_module, retry_module) = match (
        heap.module("urllib3"),
        heap.module("urllib3.util.retry"),
    ) {
        (Some(urllib3), Some(module)) => (urllib3, module),
        _ => {
            return Err(Failure::Import);
        },
    };
    let retry_type = match heap.attribute(retry_module, "Retry") {
        Some(class) => class,
        None => {
            return Err(Failure::Attribute);
        },
    };
    if !slot_names_are_there(heap, retry_type) {
        return Err(Failure::Attribute);
    }
    let class_facts = match dict_proof(heap, retry_type) {
        Ok(facts) => facts,
        Err(failure) => {
            return Err(failure);
        },
    };
    let module_facts = match dict_proof(heap, retry_module) {
        Ok(facts) => facts,
        Err(failure) => {
            return Err(failure);
        },
    };
    let (urllib3_version, history_type) = match (
        heap.attribute(urllib3_module, "__version__"),
        heap.attribute(retry_module, "RequestHistory"),
    ) {
        (Some(version), Some(history)) => (version, history),
        _ => {
            return Err(Failure::Attribute);
        },
    };
    let namespace = match heap.attribute(retry_type, "__dict__") {
        Some(namespace) => namespace,
        None => {
            return Err(Failure::Attribute);
        },
    };
    let pairs = match heap.pairs(namespace) {
        Some(pairs) => pairs,
        None => {
            return Err(Failure::Kind);
        },
    };
    match dict_snapshot(heap, pairs) {
        None => Err(Failure::Kind),
        Some(class_names) => Ok(
            RetryGuard {
                urllib3_module,
                urllib3_version,
                retry_type,
                history_type,
                retry_module,
                class_names,
                class_facts,
                module_facts,
            },
        ),
    }
}

/// Whether an attribute is an object; no answer where it is missing.
pub open spec fn attribute_is(heap: Heap, object: usize, name: Seq<char>, expected: usize) -> Check {
    match heap.attribute_of(object, name) {
        None => Err(Failure::Attribute),
        Some(value) => Ok(value == expected),
    }
}

/// Whether an attribute is an object.
pub fn check_attribute_is(heap: &Heap, object: usize, name: &str, expected: usize) -> (check: Check)
    ensures
        check == attribute_is(*heap, object, name@, expected),
{
    match heap.attribute(object, name) {
        None => Err(Failure::Attribute),
        Some(value) => Ok(value == expected),
    }
}

/// Whether a `Retry` object is of the remembered class, and the class and its
/// surroundings are unchanged.
pub open spec fn is_exact_retry(heap: Heap, guard: RetryGuard, retry: usize) -> Check {
    match (heap.module_of("urllib3.util.retry"@), heap.module_of("urllib3"@)) {
        (Some(module), Some(urllib3)) => both(
            Ok(urllib3 == guard.urllib3_module),
            both(
                attribute_is(heap, urllib3, "__version__"@, guard.urllib3_version),
                both(
                    Ok(module == guard.retry_module),
                    both(
                        attribute_is(heap, module, "Retry"@, guard.retry_type),
                        both(
                            Ok(heap.is_exactly(retry, guard.retry_type)),
                            both(
                                checked(heap, fact_views(guard.class_facts@)),
                                checked(heap, fact_views(guard.module_facts@)),
                            ),
                        ),
                    ),
                ),
            ),
        ),
        _ => Err(Failure::Import),
    }
}

/// Whether a `Retry` object is of the remembered class.
pub fn exact_retry(heap: &Heap, guard: &RetryGuard, retry: usize) -> (check: Check)
    ensures
        check == is_exact_retry(*heap, *guard, retry),
{
    let (module, urllib3) = match (heap.module("urllib3.util.retry"), heap.module("urllib3")) {
        (Some(module), Some(urllib3)) => (module, urllib3),
        _ => {
            return Err(Failure::Import);
        },
    };
    if urllib3 != guard.urllib3_module {
        return Ok(false);
    }
    match check_attribute_is(heap, urllib3, "__version__", guard.urllib3_version) {
        Ok(true) => {},
        other => {
            return other;
        },
    }
    if module != guard.retry_module {
        return Ok(false);
    }
    match check_attribute_is(heap, module, "Retry", guard.retry_type) {
        Ok(true) => {},
        other => {
            return other;
        },
    }
    if !heap.exactly(retry, guard.retry_type) {
        return Ok(false);
    }
    match check_facts(heap, &guard.class_facts) {
        Ok(true) => {},
        other => {
            return other;
        },
    }
    check_facts(heap, &guard.module_facts)
}

/// Whether a dict holds one of these names.
pub open spec fn shadows(heap: Heap, dictionary: usize, names: Seq<(Seq<char>, usize)>) -> bool {
    exists|index: int|
        0 <= index < names.len() && heap.entry_of(dictionary, (#[trigger] names[index]).0) is Some
}

/// Whether a dict holds one of these names.
fn shadows_name(heap: &Heap, dictionary: usize, names: &Vec<Binding>) -> (found: bool)
    ensures
        found == shadows(*heap, dictionary, named_views(names@)),
{
    let mut index: usize = 0;
    while index < names.len()
        invariant
            index <= names.len(),
            forall|i: int|
                0 <= i < index ==> heap.entry_of(
                    dictionary,
                    (#[trigger] named_views(names@)[i]).0,
                ) is None,
        decreases names.len() - index,
    {
        assert(named_views(names@)[index as int].0 == names@[index as int].name@);
        if heap.entry(dictionary, names[index].name.as_str()).is_some() {
            assert(shadows(*heap, dictionary, named_views(names@)));
            return true;
        }
        index = index + 1;
    }
    false
}

/// The instance dictionary of a `Retry` object that can be taken over.
pub open spec fn own_dictionary(heap: Heap, guard: RetryGuard, retry: usize) -> Result<usize, Stop> {
    match is_exact_retry(heap, guard, retry) {
        Err(failure) => Err(Stop::Failed(failure)),
        Ok(false) => Err(Stop::Refused(RetryRefusal::ExactType)),
        Ok(true) => match heap.attribute_of(retry, "__dict__"@) {
            None => Err(Stop::Failed(Failure::Attribute)),
            Some(dictionary) => if heap.dict_of(dictionary) is None {
                Err(Stop::Refused(RetryRefusal::InstanceDict))
            } else if shadows(heap, dictionary, named_views(guard.class_names@)) {
                Err(Stop::Refused(RetryRefusal::Shadowed))
            } else {
                Ok(dictionary)
            },
        },
    }
}

/// The instance dictionary of a `Retry` object that can be taken over.
fn read_dictionary(heap: &Heap, guard: &RetryGuard, retry: usize) -> (dictionary: Result<
    usize,
    Stop,
>)
    ensures
        dictionary == own_dictionary(*heap, *guard, retry),
{
    match exact_retry(heap, guard, retry) {
        Err(failure) => {
            return Err(Stop::Failed(failure));
        },
        Ok(exact) => {
            if !exact {
                return Err(Stop::Refused(RetryRefusal::ExactType));
            }
        },
    }
    match heap.attribute(retry, "__dict__") {
        None => Err(Stop::Failed(Failure::Attribute)),
        Some(dictionary) => if heap.dict(dictionary).is_none() {
            Err(Stop::Refused(RetryRefusal::InstanceDict))
        } else if shadows_name(heap, dictionary, &guard.class_names) {
            Err(Stop::Refused(RetryRefusal::Shadowed))
        } else {
            Ok(dictionary)
        },
    }
}

/// How often may be tried again.
#[derive(Clone, Copy, Debug, PartialEq, Eq, Structural)]
pub enum RetryCount {
    Unlimited,
    Boolean(bool),
    Limited(u32),
}

/// The count that an object stands for.
pub open spec fn count_value(heap: Heap, value: usize) -> Option<RetryCount> {
    if heap.is_none_value(value) {
        Some(RetryCount::Unlimited)
    } else if heap.is_exactly(value, heap.intrinsics.boolean) {
        match heap.bool_of(value) {
            Some(yes) => Some(RetryCount::Boolean(yes)),
            None => None,
        }
    } else if !heap.is_exactly(value, heap.intrinsics.int) {
        None
    } else {
        match heap.int_of(value) {
            Some(number) => if 0 <= number <= u32::MAX {
                Some(RetryCount::Limited(number as u32))
            } else {
                None
            },
            None => None,
        }
    }
}

/// The count that an object stands for.
pub fn retry_count(heap: &Heap, value: usize) -> (count: Option<RetryCount>)
    ensures
        count == count_value(*heap, value),
{
    if heap.none_value(value) {
        return Some(RetryCount::Unlimited);
    }
    if heap.exactly(value, heap.intrinsics.boolean) {
        return match heap.bool_value(value) {
            Some(yes) => Some(RetryCount::Boolean(yes)),
            None => None,
        };
    }
    if !heap.exactly(value, heap.intrinsics.int) {
        return None;
    }
    match heap.int_value(value) {
        Some(number) => if 0 <= number && number <= u32::MAX as i128 {
            Some(RetryCount::Limited(number as u32))
        } else {
            None
        },
        None => None,
    }
}

/// A counter of a `Retry` object.
pub open spec fn counter(heap: Heap, retry: usize, name: Seq<char>, refusal: RetryRefusal) -> Result<
    RetryCount,
    Stop,
> {
    match heap.attribute_of(retry, name) {
        None => Err(Stop::Failed(Failure::Attribute)),
        Some(value) => match count_value(heap, value) {
            Some(count) => Ok(count),
            None => Err(Stop::Refused(refusal)),
        },
    }
}

/// A counter of a `Retry` object.
fn check_counter(heap: &Heap, retry: usize, name: &str, refusal: RetryRefusal) -> (count: Result<
    RetryCount,
    Stop,
>)
    ensures
        count == counter(*heap, retry, name@, refusal),
{
    match heap.attribute(retry, name) {
        None => Err(Stop::Failed(Failure::Attribute)),
        Some(value) => match retry_count(heap, value) {
            Some(count) => Ok(count),
            None => Err(Stop::Refused(refusal)),
        },
    }
}

/// The counters of a `Retry` object.
#[derive(Clone, Copy, Debug, PartialEq, Eq, Structural)]
pub struct Counters {
    pub total: RetryCount,
    pub connect: RetryCount,
    pub read: RetryCount,
    pub status: RetryCount,
    pub redirect: RetryCount,
    pub other: RetryCount,
}

/// The counters of a `Retry` object, read in order.
pub open spec fn counters_of(heap: Heap, retry: usize) -> Result<Counters, Stop> {
    match (
        counter(heap, retry, "total"@, RetryRefusal::Total),
        counter(heap, retry, "connect"@, RetryRefusal::Connect),
        counter(heap, retry, "read"@, RetryRefusal::Read),
        counter(heap, retry, "status"@, RetryRefusal::Status),
        counter(heap, retry, "redirect"@, RetryRefusal::Redirect),
        counter(heap, retry, "other"@, RetryRefusal::Other),
    ) {
        (Err(stop), _, _, _, _, _) => Err(stop),
        (_, Err(stop), _, _, _, _) => Err(stop),
        (_, _, Err(stop), _, _, _) => Err(stop),
        (_, _, _, Err(stop), _, _) => Err(stop),
        (_, _, _, _, Err(stop), _) => Err(stop),
        (_, _, _, _, _, Err(stop)) => Err(stop),
        (Ok(total), Ok(connect), Ok(read), Ok(status), Ok(redirect), Ok(other)) => Ok(
            Counters { total, connect, read, status, redirect, other },
        ),
    }
}

/// The counters of a `Retry` object.
fn read_counters(heap: &Heap, retry: usize) -> (counters: Result<Counters, Stop>)
    ensures
        counters == counters_of(*heap, retry),
{
    let total = match check_counter(heap, retry, "total", RetryRefusal::Total) {
        Ok(total) => total,
        Err(stop) => {
            return Err(stop);
        },
    };
    let connect = match check_counter(heap, retry, "connect", RetryRefusal::Connect) {
        Ok(connect) => connect,
        Err(stop) => {
            return Err(stop);
        },
    };
    let read = match check_counter(heap, retry, "read", RetryRefusal::Read) {
        Ok(read) => read,
        Err(stop) => {
            return Err(stop);
        },
    };
    let status = match check_counter(heap, retry, "status", RetryRefusal::Status) {
        Ok(status) => status,
        Err(stop) => {
            return Err(stop);
        },
    };
    let redirect = match check_counter(heap, retry, "redirect", RetryRefusal::Redirect) {
        Ok(redirect) => redirect,
        Err(stop) => {
            return Err(stop);
        },
    };
    let other = match check_counter(heap, retry, "other", RetryRefusal::Other) {
        Ok(other) => other,
        Err(stop) => {
            return Err(stop);
        },
    };
    Ok(Counters { total, connect, read, status, redirect, other })
}

/// Whether an object is exactly a tuple, list, set or frozen set.
pub open spec fn is_plain_collection(heap: Heap, value: usize) -> bool {
    heap.is_exactly(value, heap.intrinsics.tuple) || heap.is_exactly(value, heap.intrinsics.list)
        || heap.is_exactly(value, heap.intrinsics.set) || heap.is_exactly(
        value,
        heap.intrinsics.frozen_set,
    )
}

/// Whether an object is exactly a tuple, list, set or frozen set.
fn plain_collection(heap: &Heap, value: usize) -> (yes: bool)
    ensures
        yes == is_plain_collection(*heap, value),
{
    heap.exactly(value, heap.intrinsics.tuple) || heap.exactly(value, heap.intrinsics.list)
        || heap.exactly(value, heap.intrinsics.set) || heap.exactly(
        value,
        heap.intrinsics.frozen_set,
    )
}

/// The texts of a list of exact texts; no list where one is no exact text, and
/// no answer where one cannot be encoded.
pub open spec fn exact_texts(heap: Heap, items: Seq<usize>) -> Result<
    Option<Seq<Seq<char>>>,
    Failure,
>
    decreases items.len(),
{
    if items.len() == 0 {
        Ok(Some(Seq::empty()))
    } else {
        match exact_texts(heap, items.drop_last()) {
            Ok(Some(before)) => if !heap.is_exactly(items.last(), heap.intrinsics.text) {
                Ok(None)
            } else {
                match heap.text_of(items.last()) {
                    Some(text) => Ok(Some(before.push(text))),
                    None => Err(Failure::Kind),
                }
            },
            other => other,
        }
    }
}

/// What stops a list of texts stops every longer one.
proof fn lemma_texts_stop(heap: Heap, items: Seq<usize>, count: int)
    requires
        0 <= count <= items.len(),
        !(exact_texts(heap, items.take(count)) matches Ok(Some(_))),
    ensures
        exact_texts(heap, items) == exact_texts(heap, items.take(count)),
    decreases items.len() - count,
{
    if count < items.len() {
        assert(items.take(count + 1).drop_last() =~= items.take(count));
        lemma_texts_stop(heap, items, count + 1);
    } else {
        assert(items.take(count) =~= items);
    }
}

/// The methods that an object stands for: all, or a list; no answer for another
/// kind of object.
pub open spec fn methods_value(heap: Heap, value: usize) -> Result<
    Option<Option<Seq<Seq<char>>>>,
    Failure,
> {
    if heap.is_none_value(value) {
        Ok(Some(None))
    } else if !is_plain_collection(heap, value) {
        Ok(None)
    } else {
        match heap.elements_of(value) {
            None => Ok(None),
            Some(items) => match exact_texts(heap, items) {
                Ok(Some(texts)) => Ok(Some(Some(texts))),
                Ok(None) => Ok(None),
                Err(failure) => Err(failure),
            },
        }
    }
}

/// The view of a list of methods.
pub open spec fn methods_view(methods: Option<Vec<String>>) -> Option<Seq<Seq<char>>> {
    match methods {
        Some(methods) => Some(text_views(methods@)),
        None => None,
    }
}

/// The methods that an object stands for.
pub fn string_set(heap: &Heap, value: usize) -> (methods: Result<
    Option<Option<Vec<String>>>,
    Failure,
>)
    ensures
        match methods {
            Ok(Some(methods)) => methods_value(*heap, value) == Ok::<
                Option<Option<Seq<Seq<char>>>>,
                Failure,
            >(Some(methods_view(methods))),
            Ok(None) => methods_value(*heap, value) == Ok::<
                Option<Option<Seq<Seq<char>>>>,
                Failure,
            >(None),
            Err(failure) => methods_value(*heap, value) == Err::<
                Option<Option<Seq<Seq<char>>>>,
                Failure,
            >(failure),
        },
{
    if heap.none_value(value) {
        return Ok(Some(None));
    }
    if !plain_collection(heap, value) {
        return Ok(None);
    }
    let items = match heap.elements(value) {
        Some(items) => items,
        None => {
            return Ok(None);
        },
    };
    let mut methods: Vec<String> = Vec::new();
    let mut index: usize = 0;
    assert(items@.take(0) =~= Seq::<usize>::empty());
    assert(text_views(methods@) =~= Seq::<Seq<char>>::empty());
    while index < items.len()
        invariant
            index <= items.len(),
            heap.elements_of(value) == Some(items@),
            !heap.is_none_value(value),
            is_plain_collection(*heap, value),
            exact_texts(*heap, items@.take(index as int)) == Ok::<
                Option<Seq<Seq<char>>>,
                Failure,
            >(Some(text_views(methods@))),
        decreases items.len() - index,
    {
        let ghost before = text_views(methods@);
        proof {
            assert(items@.take(index + 1).drop_last() =~= items@.take(index as int));
            assert(items@.take(index + 1).last() == items@[index as int]);
        }
        if !heap.exactly(items[index], heap.intrinsics.text) {
            proof {
                lemma_texts_stop(*heap, items@, index + 1);
            }
            return Ok(None);
        }
        match heap.text(items[index]) {
            Some(text) => {
                methods.push(String::from_str(text.as_str()));
                assert(text_views(methods@) =~= before.push(text@));
            },
            None => {
                proof {
                    lemma_texts_stop(*heap, items@, index + 1);
                }
                return Err(Failure::Kind);
            },
        }
        index = index + 1;
    }
    assert(items@.take(index as int) =~= items@);
    Ok(Some(Some(methods)))
}

/// The status codes of a list, where every one is an exact integer of sixteen
/// bits.
pub open spec fn exact_statuses(heap: Heap, items: Seq<usize>) -> Option<Seq<u16>>
    decreases items.len(),
{
    if items.len() == 0 {
        Some(Seq::empty())
    } else {
        match exact_statuses(heap, items.drop_last()) {
            Some(before) => match status_value(heap, items.last()) {
                Some(status) => Some(before.push(status)),
                None => None,
            },
            None => None,
        }
    }
}

/// The status code that an object stands for.
pub open spec fn status_value(heap: Heap, value: usize) -> Option<u16> {
    if heap.is_exactly(value, heap.intrinsics.int) && !heap.is_exactly(
        value,
        heap.intrinsics.boolean,
    ) {
        match heap.int_of(value) {
            Some(number) => if 0 <= number <= u16::MAX {
                Some(number as u16)
            } else {
                None
            },
            None => None,
        }
    } else {
        None
    }
}

/// What stops a list of status codes stops every longer one.
proof fn lemma_statuses_stop(heap: Heap, items: Seq<usize>, count: int)
    requires
        0 <= count <= items.len(),
        exact_statuses(heap, items.take(count)) is None,
    ensures
        exact_statuses(heap, items) is None,
    decreases items.len() - count,
{
    if count < items.len() {
        assert(items.take(count + 1).drop_last() =~= items.take(count));
        lemma_statuses_stop(heap, items, count + 1);
    } else {
        assert(items.take(count) =~= items);
    }
}

/// The status codes that an object stands for.
pub open spec fn statuses_value(heap: Heap, value: usize) -> Option<Seq<u16>> {
    if !is_plain_collection(heap, value) {
        None
    } else {
        match heap.elements_of(value) {
            None => None,
            Some(items) => exact_statuses(heap, items),
        }
    }
}

/// The status codes that an object stands for.
pub fn status_set(heap: &Heap, value: usize) -> (statuses: Option<Vec<u16>>)
    ensures
        match statuses {
            Some(statuses) => statuses_value(*heap, value) == Some(statuses@),
            None => statuses_value(*heap, value) is None,
        },
{
    if !plain_collection(heap, value) {
        return None;
    }
    let items = match heap.elements(value) {
        Some(items) => items,
        None => {
            return None;
        },
    };
    let mut statuses: Vec<u16> = Vec::new();
    let mut index: usize = 0;
    assert(items@.take(0) =~= Seq::<usize>::empty());
    while index < items.len()
        invariant
            index <= items.len(),
            heap.elements_of(value) == Some(items@),
            is_plain_collection(*heap, value),
            exact_statuses(*heap, items@.take(index as int)) == Some(statuses@),
        decreases items.len() - index,
    {
        proof {
            assert(items@.take(index + 1).drop_last() =~= items@.take(index as int));
            assert(items@.take(index + 1).last() == items@[index as int]);
            if status_value(*heap, items@[index as int]) is None {
                lemma_statuses_stop(*heap, items@, index + 1);
            }
        }
        if !heap.exactly(items[index], heap.intrinsics.int) || heap.exactly(
            items[index],
            heap.intrinsics.boolean,
        ) {
            return None;
        }
        match heap.int_value(items[index]) {
            Some(number) => {
                if number < 0 || number > u16::MAX as i128 {
                    return None;
                }
                statuses.push(number as u16);
            },
            None => {
                return None;
            },
        }
        index = index + 1;
    }
    assert(items@.take(index as int) =~= items@);
    Some(statuses)
}

/// Whether the bits are those of a finite number that is not negative.
pub open spec fn is_nonnegative(bits: u64) -> bool {
    bits < 0x7ff0_0000_0000_0000 || bits == 0x8000_0000_0000_0000
}

/// The number that an object stands for, where it is finite and not negative.
/// What conversion gives stands as the attribute `float()`.
pub open spec fn number_value(heap: Heap, value: usize) -> Option<u64> {
    if heap.is_exactly(value, heap.intrinsics.boolean) {
        None
    } else {
        match heap.attribute_of(value, "float()"@) {
            None => None,
            Some(number) => match heap.float_of(number) {
                Some(bits) => if is_nonnegative(bits) {
                    Some(bits)
                } else {
                    None
                },
                None => None,
            },
        }
    }
}

/// The number that an object stands for, where it is finite and not negative.
pub fn nonnegative_float(heap: &Heap, value: usize) -> (number: Option<u64>)
    ensures
        number == number_value(*heap, value),
{
    if heap.exactly(value, heap.intrinsics.boolean) {
        return None;
    }
    match heap.attribute(value, "float()") {
        None => None,
        Some(number) => match heap.float_bits(number) {
            Some(bits) => if bits < 0x7ff0_0000_0000_0000 || bits == 0x8000_0000_0000_0000 {
                Some(bits)
            } else {
                None
            },
            None => None,
        },
    }
}

/// The truth value that an object stands for.
pub open spec fn exact_bool_value(heap: Heap, value: usize) -> Option<bool> {
    if heap.is_exactly(value, heap.intrinsics.boolean) {
        heap.bool_of(value)
    } else {
        None
    }
}

/// The truth value that an object stands for.
pub fn exact_bool(heap: &Heap, value: usize) -> (yes: Option<bool>)
    ensures
        yes == exact_bool_value(*heap, value),
{
    if heap.exactly(value, heap.intrinsics.boolean) {
        heap.bool_value(value)
    } else {
        None
    }
}

/// A number attribute.
pub open spec fn number_attribute(
    heap: Heap,
    object: usize,
    name: Seq<char>,
    refusal: RetryRefusal,
) -> Result<u64, Stop> {
    match heap.attribute_of(object, name) {
        None => Err(Stop::Failed(Failure::Attribute)),
        Some(value) => match number_value(heap, value) {
            Some(bits) => Ok(bits),
            None => Err(Stop::Refused(refusal)),
        },
    }
}

/// A number attribute.
fn read_number(heap: &Heap, object: usize, name: &str, refusal: RetryRefusal) -> (number: Result<
    u64,
    Stop,
>)
    ensures
        number == number_attribute(*heap, object, name@, refusal),
{
    match heap.attribute(object, name) {
        None => Err(Stop::Failed(Failure::Attribute)),
        Some(value) => match nonnegative_float(heap, value) {
            Some(bits) => Ok(bits),
            None => Err(Stop::Refused(refusal)),
        },
    }
}

/// A truth value attribute.
pub open spec fn bool_attribute(
    heap: Heap,
    object: usize,
    name: Seq<char>,
    refusal: RetryRefusal,
) -> Result<bool, Stop> {
    match heap.attribute_of(object, name) {
        None => Err(Stop::Failed(Failure::Attribute)),
        Some(value) => match exact_bool_value(heap, value) {
            Some(yes) => Ok(yes),
            None => Err(Stop::Refused(refusal)),
        },
    }
}

/// A truth value attribute.
fn read_bool(heap: &Heap, object: usize, name: &str, refusal: RetryRefusal) -> (yes: Result<
    bool,
    Stop,
>)
    ensures
        yes == bool_attribute(*heap, object, name@, refusal),
{
    match heap.attribute(object, name) {
        None => Err(Stop::Failed(Failure::Attribute)),
        Some(value) => match exact_bool(heap, value) {
            Some(yes) => Ok(yes),
            None => Err(Stop::Refused(refusal)),
        },
    }
}

/// How long is waited between tries. Each number is given by its bits.
#[derive(Clone, Copy, Debug, PartialEq, Eq, Structural)]
pub struct Backoff {
    pub factor: u64,
    pub maximum: u64,
    pub jitter: u64,
}

/// How long is waited between tries. A version without a maximum of its own has
/// the class's default, and one without jitter has none.
pub open spec fn backoff_of(heap: Heap, retry_type: usize, retry: usize) -> Result<Backoff, Stop> {
    match number_attribute(heap, retry, "backoff_factor"@, RetryRefusal::BackoffFactor) {
        Err(stop) => Err(stop),
        Ok(factor) => match (if heap.attribute_of(retry, "backoff_max"@) is Some {
            number_attribute(heap, retry, "backoff_max"@, RetryRefusal::BackoffMax)
        } else {
            number_attribute(
                heap,
                retry_type,
                "DEFAULT_BACKOFF_MAX"@,
                RetryRefusal::BackoffMax,
            )
        }) {
            Err(stop) => Err(stop),
            Ok(maximum) => if heap.attribute_of(retry, "backoff_jitter"@) is Some {
                match number_attribute(
                    heap,
                    retry,
                    "backoff_jitter"@,
                    RetryRefusal::BackoffJitter,
                ) {
                    Err(stop) => Err(stop),
                    Ok(jitter) => Ok(Backoff { factor, maximum, jitter }),
                }
            } else {
                Ok(Backoff { factor, maximum, jitter: 0 })
            },
        },
    }
}

/// How long is waited between tries.
fn read_backoff(heap: &Heap, retry_type: usize, retry: usize) -> (backoff: Result<Backoff, Stop>)
    ensures
        backoff == backoff_of(*heap, retry_type, retry),
{
    let factor: u64 = match read_number(
        heap,
        retry,
        "backoff_factor",
        RetryRefusal::BackoffFactor,
    ) {
        Ok(factor) => factor,
        Err(stop) => {
            return Err(stop);
        },
    };
    let maximum = if heap.attribute(retry, "backoff_max").is_some() {
        read_number(heap, retry, "backoff_max", RetryRefusal::BackoffMax)
    } else {
        read_number(heap, retry_type, "DEFAULT_BACKOFF_MAX", RetryRefusal::BackoffMax)
    };
    let maximum: u64 = match maximum {
        Ok(maximum) => maximum,
        Err(stop) => {
            return Err(stop);
        },
    };
    if heap.attribute(retry, "backoff_jitter").is_none() {
        return Ok(Backoff { factor, maximum, jitter: 0 });
    }
    match read_number(heap, retry, "backoff_jitter", RetryRefusal::BackoffJitter) {
        Ok(jitter) => Ok(Backoff { factor, maximum, jitter }),
        Err(stop) => Err(stop),
    }
}

/// The switches of a `Retry` object.
#[derive(Clone, Copy, Debug, PartialEq, Eq, Structural)]
pub struct Switches {
    pub respect_retry_after: bool,
    pub raise_on_status: bool,
    pub raise_on_redirect: bool,
}

/// The switches of a `Retry` object.
pub open spec fn switches_of(heap: Heap, retry: usize) -> Result<Switches, Stop> {
    match bool_attribute(
        heap,
        retry,
        "respect_retry_after_header"@,
        RetryRefusal::RespectRetryAfter,
    ) {
        Err(stop) => Err(stop),
        Ok(respect_retry_after) => match bool_attribute(
            heap,
            retry,
            "raise_on_status"@,
            RetryRefusal::RaiseOnStatus,
        ) {
            Err(stop) => Err(stop),
            Ok(raise_on_status) => match bool_attribute(
                heap,
                retry,
                "raise_on_redirect"@,
                RetryRefusal::RaiseOnRedirect,
            ) {
                Err(stop) => Err(stop),
                Ok(raise_on_redirect) => Ok(
                    Switches { respect_retry_after, raise_on_status, raise_on_redirect },
                ),
            },
        },
    }
}

/// The switches of a `Retry` object.
fn read_switches(heap: &Heap, retry: usize) -> (switches: Result<Switches, Stop>)
    ensures
        switches == switches_of(*heap, retry),
{
    let respect_retry_after = match read_bool(
        heap,
        retry,
        "respect_retry_after_header",
        RetryRefusal::RespectRetryAfter,
    ) {
        Ok(yes) => yes,
        Err(stop) => {
            return Err(stop);
        },
    };
    let raise_on_status = match read_bool(
        heap,
        retry,
        "raise_on_status",
        RetryRefusal::RaiseOnStatus,
    ) {
        Ok(yes) => yes,
        Err(stop) => {
            return Err(stop);
        },
    };
    match read_bool(heap, retry, "raise_on_redirect", RetryRefusal::RaiseOnRedirect) {
        Ok(raise_on_redirect) => Ok(
            Switches { respect_retry_after, raise_on_status, raise_on_redirect },
        ),
        Err(stop) => Err(stop),
    }
}

/// The longest wait that a server may ask for, where the version has a limit.
pub open spec fn retry_after_limit(heap: Heap, retry: usize) -> Result<Option<u64>, Stop> {
    match heap.attribute_of(retry, "retry_after_max"@) {
        None => Ok(None),
        Some(value) => if heap.is_exactly(value, heap.intrinsics.int) && !heap.is_exactly(
            value,
            heap.intrinsics.boolean,
        ) {
            match heap.int_of(value) {
                Some(number) => if 0 <= number <= i64::MAX {
                    Ok(Some(number as u64))
                } else {
                    Err(Stop::Refused(RetryRefusal::RetryAfterMax))
                },
                None => Err(Stop::Refused(RetryRefusal::RetryAfterMax)),
            }
        } else {
            Err(Stop::Refused(RetryRefusal::RetryAfterMax))
        },
    }
}

/// The longest wait that a server may ask for.
fn read_retry_after_limit(heap: &Heap, retry: usize) -> (limit: Result<Option<u64>, Stop>)
    ensures
        limit == retry_after_limit(*heap, retry),
{
    match heap.attribute(retry, "retry_after_max") {
        None => Ok(None),
        Some(value) => {
            if !heap.exactly(value, heap.intrinsics.int) || heap.exactly(
                value,
                heap.intrinsics.boolean,
            ) {
                return Err(Stop::Refused(RetryRefusal::RetryAfterMax));
            }
            match heap.int_value(value) {
                Some(number) => if 0 <= number && number <= i64::MAX as i128 {
                    Ok(Some(number as u64))
                } else {
                    Err(Stop::Refused(RetryRefusal::RetryAfterMax))
                },
                None => Err(Stop::Refused(RetryRefusal::RetryAfterMax)),
            }
        },
    }
}

/// One row of a `Retry` object's history.
pub struct HistoryRow {
    pub method: String,
    pub url: String,
    pub status: Option<u16>,
    pub redirect_location: Option<String>,
}

/// What a row says.
pub struct HistoryView {
    pub method: Seq<char>,
    pub url: Seq<char>,
    pub status: Option<u16>,
    pub redirect_location: Option<Seq<char>>,
}

/// The characters of a text that may be missing.
pub open spec fn optional_view(text: Option<String>) -> Option<Seq<char>> {
    match text {
        Some(text) => Some(text@),
        None => None,
    }
}

impl View for HistoryRow {
    type V = HistoryView;

    open spec fn view(&self) -> HistoryView {
        HistoryView {
            method: self.method@,
            url: self.url@,
            status: self.status,
            redirect_location: optional_view(self.redirect_location),
        }
    }
}

/// What a list of rows says.
pub open spec fn history_views(rows: Seq<HistoryRow>) -> Seq<HistoryView> {
    rows.map_values(|row: HistoryRow| row@)
}

/// The text that an attribute holds.
pub open spec fn text_at(heap: Heap, object: usize, name: Seq<char>) -> Option<Seq<char>> {
    match heap.attribute_of(object, name) {
        Some(value) => heap.text_of(value),
        None => None,
    }
}

/// One row of a history, or why it is refused.
pub open spec fn row_of(heap: Heap, row: usize, history_type: usize) -> Result<
    HistoryView,
    RetryRefusal,
> {
    if !heap.is_exactly(row, history_type) {
        Err(RetryRefusal::HistoryRow)
    } else {
        match heap.attribute_of(row, "error"@) {
            None => Err(RetryRefusal::HistoryShape),
            Some(error) => if !heap.is_none_value(error) {
                Err(RetryRefusal::HistoryError)
            } else {
                match text_at(heap, row, "method"@) {
                    None => Err(RetryRefusal::HistoryMethod),
                    Some(method) => match text_at(heap, row, "url"@) {
                        None => Err(RetryRefusal::HistoryUrl),
                        Some(url) => match row_status(heap, row) {
                            Err(refusal) => Err(refusal),
                            Ok(status) => match row_redirect(heap, row) {
                                Err(refusal) => Err(refusal),
                                Ok(redirect_location) => Ok(
                                    HistoryView { method, url, status, redirect_location },
                                ),
                            },
                        },
                    },
                }
            },
        }
    }
}

/// The status code of a row.
pub open spec fn row_status(heap: Heap, row: usize) -> Result<Option<u16>, RetryRefusal> {
    match heap.attribute_of(row, "status"@) {
        None => Err(RetryRefusal::HistoryStatus),
        Some(value) => if heap.is_none_value(value) {
            Ok(None)
        } else {
            match heap.index_of(value) {
                Some(number) => if 0 <= number <= u16::MAX {
                    Ok(Some(number as u16))
                } else {
                    Err(RetryRefusal::HistoryStatus)
                },
                None => Err(RetryRefusal::HistoryStatus),
            }
        },
    }
}

/// The redirect of a row.
pub open spec fn row_redirect(heap: Heap, row: usize) -> Result<Option<Seq<char>>, RetryRefusal> {
    match heap.attribute_of(row, "redirect_location"@) {
        None => Err(RetryRefusal::HistoryRedirect),
        Some(value) => if heap.is_none_value(value) {
            Ok(None)
        } else {
            match heap.text_of(value) {
                Some(text) => Ok(Some(text)),
                None => Err(RetryRefusal::HistoryRedirect),
            }
        },
    }
}

/// A copy of the text that an attribute holds.
fn copied_text_at(heap: &Heap, object: usize, name: &str) -> (text: Option<String>)
    ensures
        optional_view(text) == text_at(*heap, object, name@),
{
    match heap.attribute(object, name) {
        Some(value) => match heap.text(value) {
            Some(text) => Some(String::from_str(text.as_str())),
            None => None,
        },
        None => None,
    }
}

/// Reads one row of a history.
fn read_row(heap: &Heap, row: usize, history_type: usize) -> (result: Result<
    HistoryRow,
    RetryRefusal,
>)
    ensures
        match result {
            Ok(read) => row_of(*heap, row, history_type) == Ok::<HistoryView, RetryRefusal>(read@),
            Err(refusal) => row_of(*heap, row, history_type) == Err::<HistoryView, RetryRefusal>(
                refusal,
            ),
        },
{
    if !heap.exactly(row, history_type) {
        return Err(RetryRefusal::HistoryRow);
    }
    match heap.attribute(row, "error") {
        None => {
            return Err(RetryRefusal::HistoryShape);
        },
        Some(error) => {
            if !heap.none_value(error) {
                return Err(RetryRefusal::HistoryError);
            }
        },
    }
    let method = match copied_text_at(heap, row, "method") {
        Some(method) => method,
        None => {
            return Err(RetryRefusal::HistoryMethod);
        },
    };
    let url = match copied_text_at(heap, row, "url") {
        Some(url) => url,
        None => {
            return Err(RetryRefusal::HistoryUrl);
        },
    };
    let status: Option<u16> = match heap.attribute(row, "status") {
        None => {
            return Err(RetryRefusal::HistoryStatus);
        },
        Some(value) => if heap.none_value(value) {
            None
        } else {
            match heap.index_value(value) {
                Some(number) => {
                    if number < 0 || number > u16::MAX as i128 {
                        return Err(RetryRefusal::HistoryStatus);
                    }
                    Some(number as u16)
                },
                None => {
                    return Err(RetryRefusal::HistoryStatus);
                },
            }
        },
    };
    let redirect_location: Option<String> = match heap.attribute(row, "redirect_location") {
        None => {
            return Err(RetryRefusal::HistoryRedirect);
        },
        Some(value) => if heap.none_value(value) {
            None
        } else {
            match heap.text(value) {
                Some(text) => Some(String::from_str(text.as_str())),
                None => {
                    return Err(RetryRefusal::HistoryRedirect);
                },
            }
        },
    };
    Ok(HistoryRow { method, url, status, redirect_location })
}

/// The first rows of a history, or why one of them is refused.
pub open spec fn rows_of(heap: Heap, rows: Seq<usize>, history_type: usize) -> Result<
    Seq<HistoryView>,
    RetryRefusal,
>
    decreases rows.len(),
{
    if rows.len() == 0 {
        Ok(Seq::empty())
    } else {
        match rows_of(heap, rows.drop_last(), history_type) {
            Err(refusal) => Err(refusal),
            Ok(before) => match row_of(heap, rows.last(), history_type) {
                Err(refusal) => Err(refusal),
                Ok(row) => Ok(before.push(row)),
            },
        }
    }
}

/// What stops a history stops every longer one.
proof fn lemma_rows_stop(heap: Heap, rows: Seq<usize>, history_type: usize, count: int)
    requires
        0 <= count <= rows.len(),
        rows_of(heap, rows.take(count), history_type) is Err,
    ensures
        rows_of(heap, rows, history_type) == rows_of(heap, rows.take(count), history_type),
    decreases rows.len() - count,
{
    if count < rows.len() {
        assert(rows.take(count + 1).drop_last() =~= rows.take(count));
        lemma_rows_stop(heap, rows, history_type, count + 1);
    } else {
        assert(rows.take(count) =~= rows);
    }
}

/// The history that an object stands for.
pub open spec fn history_value(heap: Heap, value: usize, history_type: usize) -> Result<
    Seq<HistoryView>,
    RetryRefusal,
> {
    match crate::known::exact_tuple_of(heap, value) {
        None => Err(RetryRefusal::HistoryTuple),
        Some(rows) => rows_of(heap, rows, history_type),
    }
}

/// Reads a history.
pub fn history_snapshot(heap: &Heap, value: usize, history_type: usize) -> (history: Result<
    Vec<HistoryRow>,
    RetryRefusal,
>)
    ensures
        match history {
            Ok(rows) => history_value(*heap, value, history_type) == Ok::<
                Seq<HistoryView>,
                RetryRefusal,
            >(history_views(rows@)),
            Err(refusal) => history_value(*heap, value, history_type) == Err::<
                Seq<HistoryView>,
                RetryRefusal,
            >(refusal),
        },
{
    let items = match crate::known::exact_tuple(heap, value) {
        Some(items) => items,
        None => {
            return Err(RetryRefusal::HistoryTuple);
        },
    };
    let mut rows: Vec<HistoryRow> = Vec::new();
    let mut index: usize = 0;
    assert(items@.take(0) =~= Seq::<usize>::empty());
    assert(history_views(rows@) =~= Seq::<HistoryView>::empty());
    while index < items.len()
        invariant
            index <= items.len(),
            crate::known::exact_tuple_of(*heap, value) == Some(items@),
            rows_of(*heap, items@.take(index as int), history_type) == Ok::<
                Seq<HistoryView>,
                RetryRefusal,
            >(history_views(rows@)),
        decreases items.len() - index,
    {
        let ghost before = history_views(rows@);
        proof {
            assert(items@.take(index + 1).drop_last() =~= items@.take(index as int));
            assert(items@.take(index + 1).last() == items@[index as int]);
        }
        match read_row(heap, items[index], history_type) {
            Ok(row) => {
                rows.push(row);
                assert(history_views(rows@) =~= before.push(row@));
            },
            Err(refusal) => {
                proof {
                    lemma_rows_stop(*heap, items@, history_type, index + 1);
                }
                return Err(refusal);
            },
        }
        index = index + 1;
    }
    assert(items@.take(index as int) =~= items@);
    Ok(rows)
}

/// What is read of a `Retry` object.
pub struct RetrySnapshot {
    pub version: String,
    pub counters: Counters,
    /// The methods that may be tried again, or all.
    pub allowed_methods: Option<Vec<String>>,
    pub status_forcelist: Vec<u16>,
    pub backoff: Backoff,
    pub switches: Switches,
    pub retry_after_max: Option<u64>,
    pub history: Vec<HistoryRow>,
}

/// What a snapshot says.
pub struct RetryView {
    pub version: Seq<char>,
    pub counters: Counters,
    pub allowed_methods: Option<Seq<Seq<char>>>,
    pub status_forcelist: Seq<u16>,
    pub backoff: Backoff,
    pub switches: Switches,
    pub retry_after_max: Option<u64>,
    pub history: Seq<HistoryView>,
}

impl View for RetrySnapshot {
    type V = RetryView;

    open spec fn view(&self) -> RetryView {
        RetryView {
            version: self.version@,
            counters: self.counters,
            allowed_methods: methods_view(self.allowed_methods),
            status_forcelist: self.status_forcelist@,
            backoff: self.backoff,
            switches: self.switches,
            retry_after_max: self.retry_after_max,
            history: history_views(self.history@),
        }
    }
}

/// Whether the methods stand under their old name.
pub open spec fn uses_whitelist(heap: Heap, version: Seq<char>, dictionary: usize) -> bool {
    "1.26."@.is_prefix_of(version) && heap.entry_of(dictionary, "method_whitelist"@)
        is Some
}

/// The methods of a `Retry` object.
pub open spec fn methods_of(heap: Heap, version: Seq<char>, dictionary: usize, retry: usize) -> Result<
    Option<Seq<Seq<char>>>,
    Stop,
> {
    let whitelist = uses_whitelist(heap, version, dictionary);
    match (if whitelist {
        heap.entry_of(dictionary, "method_whitelist"@)
    } else {
        heap.attribute_of(retry, "allowed_methods"@)
    }) {
        None => Err(Stop::Failed(Failure::Attribute)),
        Some(value) => match methods_value(heap, value) {
            Err(failure) => Err(Stop::Failed(failure)),
            Ok(None) => Err(
                Stop::Refused(
                    if whitelist {
                        RetryRefusal::MethodWhitelist
                    } else {
                        RetryRefusal::AllowedMethods
                    },
                ),
            ),
            Ok(Some(methods)) => Ok(methods),
        },
    }
}

/// The status codes of a `Retry` object.
pub open spec fn forcelist_of(heap: Heap, retry: usize) -> Result<Seq<u16>, Stop> {
    match heap.attribute_of(retry, "status_forcelist"@) {
        None => Err(Stop::Failed(Failure::Attribute)),
        Some(value) => match statuses_value(heap, value) {
            None => Err(Stop::Refused(RetryRefusal::StatusForcelist)),
            Some(statuses) => Ok(statuses),
        },
    }
}

/// The history of a `Retry` object.
pub open spec fn history_of(heap: Heap, retry: usize, history_type: usize) -> Result<
    Seq<HistoryView>,
    Stop,
> {
    match heap.attribute_of(retry, "history"@) {
        None => Err(Stop::Failed(Failure::Attribute)),
        Some(value) => match history_value(heap, value, history_type) {
            Err(refusal) => Err(Stop::Refused(refusal)),
            Ok(rows) => Ok(rows),
        },
    }
}

/// What is read of a `Retry` object, in order; or what stops the reading first.
pub open spec fn retry_read(heap: Heap, guard: RetryGuard, retry: usize) -> Result<RetryView, Stop> {
    match own_dictionary(heap, guard, retry) {
        Err(stop) => Err(stop),
        Ok(dictionary) => match heap.text_of(guard.urllib3_version) {
            None => Err(Stop::Failed(Failure::Kind)),
            Some(version) => match counters_of(heap, retry) {
                Err(stop) => Err(stop),
                Ok(counters) => match methods_of(heap, version, dictionary, retry) {
                    Err(stop) => Err(stop),
                    Ok(allowed_methods) => match forcelist_of(heap, retry) {
                        Err(stop) => Err(stop),
                        Ok(status_forcelist) => match backoff_of(heap, guard.retry_type, retry) {
                            Err(stop) => Err(stop),
                            Ok(backoff) => match switches_of(heap, retry) {
                                Err(stop) => Err(stop),
                                Ok(switches) => match retry_after_limit(heap, retry) {
                                    Err(stop) => Err(stop),
                                    Ok(retry_after_max) => match history_of(
                                        heap,
                                        retry,
                                        guard.history_type,
                                    ) {
                                        Err(stop) => Err(stop),
                                        Ok(history) => Ok(
                                            RetryView {
                                                version,
                                                counters,
                                                allowed_methods,
                                                status_forcelist,
                                                backoff,
                                                switches,
                                                retry_after_max,
                                                history,
                                            },
                                        ),
                                    },
                                },
                            },
                        },
                    },
                },
            },
        },
    }
}

/// Reads the methods of a `Retry` object.
fn read_methods(heap: &Heap, version: &str, dictionary: usize, retry: usize) -> (methods: Result<
    Option<Vec<String>>,
    Stop,
>)
    ensures
        match methods {
            Ok(methods) => methods_of(*heap, version@, dictionary, retry) == Ok::<
                Option<Seq<Seq<char>>>,
                Stop,
            >(methods_view(methods)),
            Err(stop) => methods_of(*heap, version@, dictionary, retry) == Err::<
                Option<Seq<Seq<char>>>,
                Stop,
            >(stop),
        },
{
    let held = heap.entry(dictionary, "method_whitelist");
    let whitelist = begins_with(version, "1.26.") && held.is_some();
    let value = if whitelist {
        held
    } else {
        heap.attribute(retry, "allowed_methods")
    };
    match value {
        None => Err(Stop::Failed(Failure::Attribute)),
        Some(value) => match string_set(heap, value) {
            Err(failure) => Err(Stop::Failed(failure)),
            Ok(None) => if whitelist {
                Err(Stop::Refused(RetryRefusal::MethodWhitelist))
            } else {
                Err(Stop::Refused(RetryRefusal::AllowedMethods))
            },
            Ok(Some(methods)) => Ok(methods),
        },
    }
}

/// Reads the status codes of a `Retry` object.
fn read_forcelist(heap: &Heap, retry: usize) -> (statuses: Result<Vec<u16>, Stop>)
    ensures
        match statuses {
            Ok(statuses) => forcelist_of(*heap, retry) == Ok::<Seq<u16>, Stop>(statuses@),
            Err(stop) => forcelist_of(*heap, retry) == Err::<Seq<u16>, Stop>(stop),
        },
{
    match heap.attribute(retry, "status_forcelist") {
        None => Err(Stop::Failed(Failure::Attribute)),
        Some(value) => match status_set(heap, value) {
            None => Err(Stop::Refused(RetryRefusal::StatusForcelist)),
            Some(statuses) => Ok(statuses),
        },
    }
}

/// Reads the history of a `Retry` object.
fn read_history(heap: &Heap, retry: usize, history_type: usize) -> (history: Result<
    Vec<HistoryRow>,
    Stop,
>)
    ensures
        match history {
            Ok(rows) => history_of(*heap, retry, history_type) == Ok::<Seq<HistoryView>, Stop>(
                history_views(rows@),
            ),
            Err(stop) => history_of(*heap, retry, history_type) == Err::<Seq<HistoryView>, Stop>(
                stop,
            ),
        },
{
    match heap.attribute(retry, "history") {
        None => Err(Stop::Failed(Failure::Attribute)),
        Some(value) => match history_snapshot(heap, value, history_type) {
            Err(refusal) => Err(Stop::Refused(refusal)),
            Ok(rows) => Ok(rows),
        },
    }
}

/// Reads a `Retry` object.
pub fn retry_snapshot(heap: &Heap, guard: &RetryGuard, retry: usize) -> (snapshot: Result<
    RetrySnapshot,
    Stop,
>)
    ensures
        match snapshot {
            Ok(snapshot) => retry_read(*heap, *guard, retry) == Ok::<RetryView, Stop>(snapshot@),
            Err(stop) => retry_read(*heap, *guard, retry) == Err::<RetryView, Stop>(stop),
        },
{
    let dictionary = match read_dictionary(heap, guard, retry) {
        Ok(dictionary) => dictionary,
        Err(stop) => {
            return Err(stop);
        },
    };
    let version = match heap.text(guard.urllib3_version) {
        Some(version) => String::from_str(version.as_str()),
        None => {
            return Err(Stop::Failed(Failure::Kind));
        },
    };
    let counters = match read_counters(heap, retry) {
        Ok(counters) => counters,
        Err(stop) => {
            return Err(stop);
        },
    };
    let allowed_methods = match read_methods(heap, version.as_str(), dictionary, retry) {
        Ok(methods) => methods,
        Err(stop) => {
            return Err(stop);
        },
    };
    let status_forcelist = match read_forcelist(heap, retry) {
        Ok(statuses) => statuses,
        Err(stop) => {
            return Err(stop);
        },
    };
    let backoff = match read_backoff(heap, guard.retry_type, retry) {
        Ok(backoff) => backoff,
        Err(stop) => {
            return Err(stop);
        },
    };
    let switches = match read_switches(heap, retry) {
        Ok(switches) => switches,
        Err(stop) => {
            return Err(stop);
        },
    };
    let retry_after_max = match read_retry_after_limit(heap, retry) {
        Ok(limit) => limit,
        Err(stop) => {
            return Err(stop);
        },
    };
    let history = match read_history(heap, retry, guard.history_type) {
        Ok(history) => history,
        Err(stop) => {
            return Err(stop);
        },
    };
    Ok(
        RetrySnapshot {
            version,
            counters,
            allowed_methods,
            status_forcelist,
            backoff,
            switches,
            retry_after_max,
            history,
        },
    )
}

/// Why a request is tried again.
#[derive(Clone, Copy, Debug, PartialEq, Eq, Structural)]
pub enum RetryReason {
    Connect,
    Read,
    Redirect { status: u16 },
    Status { status: u16 },
    Other,
}

/// Why the try of a history's row was made again.
pub open spec fn row_reason(row: HistoryView) -> RetryReason {
    match (row.status, row.redirect_location) {
        (Some(status), Some(_)) => RetryReason::Redirect { status },
        (Some(status), None) => RetryReason::Status { status },
        (None, _) => RetryReason::Other,
    }
}

/// Why the tries of a history's rows were made again.
pub fn core_history(rows: &Vec<HistoryRow>) -> (reasons: Vec<RetryReason>)
    ensures
        reasons@ == history_views(rows@).map_values(|row: HistoryView| row_reason(row)),
{
    let mut reasons: Vec<RetryReason> = Vec::new();
    let mut index: usize = 0;
    while index < rows.len()
        invariant
            index <= rows.len(),
            reasons@ == history_views(rows@).take(index as int).map_values(
                |row: HistoryView| row_reason(row),
            ),
        decreases rows.len() - index,
    {
        let reason = match (rows[index].status, &rows[index].redirect_location) {
            (Some(status), Some(_)) => RetryReason::Redirect { status },
            (Some(status), None) => RetryReason::Status { status },
            (None, _) => RetryReason::Other,
        };
        assert(reason == row_reason(history_views(rows@)[index as int]));
        reasons.push(reason);
        index = index + 1;
        assert(reasons@ =~= history_views(rows@).take(index as int).map_values(
            |row: HistoryView| row_reason(row),
        ));
    }
    assert(history_views(rows@).take(index as int) =~= history_views(rows@));
    reasons
}

/// Why a failed try may be made again.
pub fn retry_reason(kind: ErrorKind) -> (reason: RetryReason)
    ensures
        reason == (match kind {
            ErrorKind::Connect | ErrorKind::ConnectTimeout | ErrorKind::Dns => RetryReason::Connect,
            ErrorKind::ReadTimeout
            | ErrorKind::ResponseBody
            | ErrorKind::ChunkedEncoding
            | ErrorKind::Connection
            | ErrorKind::Send => RetryReason::Read,
            _ => RetryReason::Other,
        }),
{
    match kind {
        ErrorKind::Connect | ErrorKind::ConnectTimeout | ErrorKind::Dns => RetryReason::Connect,
        ErrorKind::ReadTimeout
        | ErrorKind::ResponseBody
        | ErrorKind::ChunkedEncoding
        | ErrorKind::Connection
        | ErrorKind::Send => RetryReason::Read,
        _ => RetryReason::Other,
    }
}

/// No row of a history is refused for the type of the `Retry` object.
proof fn lemma_rows_have_their_reasons(heap: Heap, rows: Seq<usize>, history_type: usize)
    ensures
        rows_of(heap, rows, history_type) != Err::<Seq<HistoryView>, RetryRefusal>(
            RetryRefusal::ExactType,
        ),
    decreases rows.len(),
{
    if rows.len() > 0 {
        lemma_rows_have_their_reasons(heap, rows.drop_last(), history_type);
    }
}

/// A `Retry` object of the remembered class is never refused for its type, and
/// one of another class always is, where the question can be answered.
pub proof fn law_only_the_exact_class_is_read(heap: Heap, guard: RetryGuard, retry: usize)
    ensures
        is_exact_retry(heap, guard, retry) == Ok::<bool, Failure>(false) <==> retry_read(
            heap,
            guard,
            retry,
        ) == Err::<RetryView, Stop>(Stop::Refused(RetryRefusal::ExactType)),
        retry_read(heap, guard, retry) is Ok ==> heap.is_exactly(retry, guard.retry_type),
{
    match heap.attribute_of(retry, "history"@) {
        None => {},
        Some(value) => match crate::known::exact_tuple_of(heap, value) {
            None => {},
            Some(rows) => lemma_rows_have_their_reasons(heap, rows, guard.history_type),
        },
    }
}

/// What pickling an object of a class does to a snapshot: where the class has
/// its slot names, nothing; else it gets them, and no other entry changes.
pub open spec fn pickled(before: Heap, after: Heap, class: usize) -> bool {
    &&& after == (Heap { objects: after.objects, ..before })
    &&& if has_slot_names(before, class) {
        after.objects == before.objects
    } else {
        &&& has_slot_names(after, class)
        &&& forall|namespace: usize, name: Seq<char>|
            before.attribute_of(class, "__dict__"@) == Some(namespace) && name != "__slotnames__"@
                ==> after.entry_of(namespace, name) == #[trigger] before.entry_of(namespace, name)
    }
}

/// An entry of a name space is among its names.
proof fn lemma_entry_is_named(heap: Heap, pairs: Seq<Pair>, name: Seq<char>) -> (index: int)
    requires
        named(heap, pairs) is Some,
        heap.keyed(pairs, name) is Some,
    ensures
        0 <= index < named(heap, pairs)->Some_0.len(),
        named(heap, pairs)->Some_0[index] == (name, heap.keyed(pairs, name)->Some_0),
    decreases pairs.len(),
{
    lemma_names_in_order(heap, pairs);
    if heap.text_of(pairs[0].key) == Some(name) {
        0
    } else {
        let rest = pairs.drop_first();
        let later = lemma_entry_is_named(heap, rest, name);
        lemma_names_in_order(heap, rest);
        assert(rest[later] == pairs[later + 1]);
        later + 1
    }
}

/// The names of a name space are those of its entries, one for one.
proof fn lemma_names_in_order(heap: Heap, pairs: Seq<Pair>)
    requires
        named(heap, pairs) is Some,
    ensures
        named(heap, pairs)->Some_0.len() == pairs.len(),
        forall|index: int|
            0 <= index < pairs.len() ==> heap.text_of((#[trigger] pairs[index]).key) == Some(
                named(heap, pairs)->Some_0[index].0,
            ) && named(heap, pairs)->Some_0[index].1 == pairs[index].value,
        pairs.len() > 0 ==> named(heap, pairs.drop_first()) is Some,
    decreases pairs.len(),
{
    if pairs.len() > 0 {
        let before = pairs.drop_last();
        lemma_names_in_order(heap, before);
        assert forall|index: int| 0 <= index < pairs.len() implies heap.text_of(
            (#[trigger] pairs[index]).key,
        ) == Some(named(heap, pairs)->Some_0[index].0) && named(heap, pairs)->Some_0[index].1
            == pairs[index].value by {
            if index < before.len() {
                assert(before[index] == pairs[index]);
            }
        }
        if before.len() > 0 {
            assert(pairs.drop_first().drop_last() =~= before.drop_first());
            assert(pairs.drop_first().last() == pairs.last());
        } else {
            assert(pairs.drop_first() =~= Seq::<Pair>::empty());
        }
    }
}

/// Pickling does not look like a change: a `Retry` object that could be read is
/// read the same after an object of its class was pickled. (`None` is one
/// object, whenever one looks.)
pub proof fn law_pickling_changes_nothing(
    first: Heap,
    before: Heap,
    after: Heap,
    guard: RetryGuard,
    retry: usize,
)
    requires
        remembers(first, guard),
        forall|object: usize|
            first.is_none_value(object) == #[trigger] before.is_none_value(object),
        retry_read(before, guard, retry) is Ok,
        pickled(before, after, guard.retry_type),
    ensures
        retry_read(after, guard, retry) == retry_read(before, guard, retry),
{
    let class = guard.retry_type;
    let facts = fact_views(guard.class_facts@);
    law_only_the_exact_class_is_read(before, guard, retry);
    assert(checked(before, facts) == Ok::<bool, Failure>(true));
    law_pristine_means_unchanged(before, facts);
    let namespace = first.attribute_of(class, "__dict__"@)->Some_0;
    let pairs = first.pairs_of(namespace)->Some_0;
    let names = named(first, pairs)->Some_0;
    let index = lemma_entry_is_named(first, pairs, "__slotnames__"@);
    assert(facts[0] == Observation::Names { holder: class, names });
    assert(observed(before, facts[0]) == Ok::<bool, Failure>(true));
    let current = before.attribute_of(class, "__dict__"@)->Some_0;
    let entries = before.pairs_of(current)->Some_0;
    assert(before.keyed(entries, names[index].0) == Some(names[index].1));
    assert(!first.is_none_value(names[index].1));
    assert(has_slot_names(before, class));
    assert(after == before);
}

/// Whether a value says how often may be tried again: `None` without end, a truth
/// value itself, and an exact integer as often as it says.
pub open spec fn says_count(heap: Heap, value: usize, count: RetryCount) -> bool {
    match count {
        RetryCount::Unlimited => heap.is_none_value(value),
        RetryCount::Boolean(yes) => !heap.is_none_value(value) && heap.is_exactly(
            value,
            heap.intrinsics.boolean,
        ) && heap.bool_of(value) == Some(yes),
        RetryCount::Limited(number) => !heap.is_none_value(value) && !heap.is_exactly(
            value,
            heap.intrinsics.boolean,
        ) && heap.is_exactly(value, heap.intrinsics.int) && heap.int_of(value) == Some(
            number as int,
        ),
    }
}

/// Whether an object's attribute says how often may be tried again.
pub open spec fn holds_count(heap: Heap, object: usize, name: Seq<char>, count: RetryCount) -> bool {
    heap.attribute_of(object, name) matches Some(value) && says_count(heap, value, count)
}

/// Whether an object's attribute stands for a number, which is finite and not
/// negative, given by its bits.
pub open spec fn holds_amount(heap: Heap, object: usize, name: Seq<char>, bits: u64) -> bool {
    &&& bits < 0x7ff0_0000_0000_0000 || bits == 0x8000_0000_0000_0000
    &&& heap.attribute_of(object, name) matches Some(value)
    &&& !heap.is_exactly(value, heap.intrinsics.boolean)
    &&& heap.attribute_of(value, "float()"@) matches Some(number)
    &&& heap.float_of(number) == Some(bits)
}

/// Whether an object's attribute is a truth value.
pub open spec fn holds_switch(heap: Heap, object: usize, name: Seq<char>, on: bool) -> bool {
    heap.attribute_of(object, name) matches Some(value) && heap.is_exactly(
        value,
        heap.intrinsics.boolean,
    ) && heap.bool_of(value) == Some(on)
}

/// Each counter of a `Retry` object is what the object holds under the counter's
/// own name.
pub proof fn law_counters_come_from_their_names(heap: Heap, retry: usize, counters: Counters)
    ensures
        counters_of(heap, retry) == Ok::<Counters, Stop>(counters) <==> {
            &&& holds_count(heap, retry, "total"@, counters.total)
            &&& holds_count(heap, retry, "connect"@, counters.connect)
            &&& holds_count(heap, retry, "read"@, counters.read)
            &&& holds_count(heap, retry, "status"@, counters.status)
            &&& holds_count(heap, retry, "redirect"@, counters.redirect)
            &&& holds_count(heap, retry, "other"@, counters.other)
        },
{
}

/// How long is waited between tries is what the object says under these names. A
/// maximum that the object lacks is that of the class, and jitter that it lacks
/// is none.
pub proof fn law_backoff_comes_from_its_names(
    heap: Heap,
    retry_type: usize,
    retry: usize,
    backoff: Backoff,
)
    ensures
        backoff_of(heap, retry_type, retry) == Ok::<Backoff, Stop>(backoff) <==> {
            &&& holds_amount(heap, retry, "backoff_factor"@, backoff.factor)
            &&& if heap.attribute_of(retry, "backoff_max"@) is Some {
                holds_amount(heap, retry, "backoff_max"@, backoff.maximum)
            } else {
                holds_amount(heap, retry_type, "DEFAULT_BACKOFF_MAX"@, backoff.maximum)
            }
            &&& if heap.attribute_of(retry, "backoff_jitter"@) is Some {
                holds_amount(heap, retry, "backoff_jitter"@, backoff.jitter)
            } else {
                backoff.jitter == 0
            }
        },
{
}

/// Each switch of a `Retry` object is what the object holds under its own name.
pub proof fn law_switches_come_from_their_names(heap: Heap, retry: usize, switches: Switches)
    ensures
        switches_of(heap, retry) == Ok::<Switches, Stop>(switches) <==> {
            &&& holds_switch(
                heap,
                retry,
                "respect_retry_after_header"@,
                switches.respect_retry_after,
            )
            &&& holds_switch(heap, retry, "raise_on_status"@, switches.raise_on_status)
            &&& holds_switch(heap, retry, "raise_on_redirect"@, switches.raise_on_redirect)
        },
{
}

/// The longest wait is that of the object, an exact integer that is not negative,
/// and there is none where the object has none.
pub proof fn law_the_longest_wait_is_that_of_the_object(
    heap: Heap,
    retry: usize,
    limit: Option<u64>,
)
    ensures
        retry_after_limit(heap, retry) == Ok::<Option<u64>, Stop>(limit) <==> match limit {
            None => heap.attribute_of(retry, "retry_after_max"@) is None,
            Some(number) => heap.attribute_of(retry, "retry_after_max"@) matches Some(value)
                && heap.is_exactly(value, heap.intrinsics.int) && !heap.is_exactly(
                value,
                heap.intrinsics.boolean,
            ) && heap.int_of(value) == Some(number as int) && number <= i64::MAX,
        },
{
}

/// The texts of a list are those of its items, in order, and each item is an
/// exact text.
pub proof fn law_texts_are_those_of_the_items(heap: Heap, items: Seq<usize>, texts: Seq<Seq<char>>)
    ensures
        exact_texts(heap, items) == Ok::<Option<Seq<Seq<char>>>, Failure>(Some(texts))
            <==> texts.len() == items.len() && forall|index: int|
            0 <= index < items.len() ==> heap.is_exactly(
                #[trigger] items[index],
                heap.intrinsics.text,
            ) && heap.text_of(items[index]) == Some(texts[index]),
    decreases items.len(),
{
    if items.len() == 0 {
        assert(texts.len() == 0 ==> texts =~= Seq::empty());
    } else {
        let fewer = items.drop_last();
        let last = items.len() - 1;
        if texts.len() == items.len() {
            let before = texts.drop_last();
            law_texts_are_those_of_the_items(heap, fewer, before);
            assert(before.push(texts.last()) =~= texts);
            if exact_texts(heap, items) == Ok::<Option<Seq<Seq<char>>>, Failure>(Some(texts)) {
                assert(exact_texts(heap, fewer)->Ok_0->Some_0 =~= before);
                assert forall|index: int| 0 <= index < items.len() implies heap.is_exactly(
                    #[trigger] items[index],
                    heap.intrinsics.text,
                ) && heap.text_of(items[index]) == Some(texts[index]) by {
                    if index < last {
                        assert(fewer[index] == items[index]);
                        assert(before[index] == texts[index]);
                    }
                }
            } else if forall|index: int|
                0 <= index < items.len() ==> heap.is_exactly(
                    #[trigger] items[index],
                    heap.intrinsics.text,
                ) && heap.text_of(items[index]) == Some(texts[index]) {
                assert forall|index: int| 0 <= index < fewer.len() implies heap.is_exactly(
                    #[trigger] fewer[index],
                    heap.intrinsics.text,
                ) && heap.text_of(fewer[index]) == Some(before[index]) by {
                    assert(fewer[index] == items[index]);
                }
                assert(heap.is_exactly(items[last], heap.intrinsics.text));
            }
        } else if exact_texts(heap, items) == Ok::<Option<Seq<Seq<char>>>, Failure>(Some(texts)) {
            let before = exact_texts(heap, fewer)->Ok_0->Some_0;
            law_texts_are_those_of_the_items(heap, fewer, before);
        }
    }
}

/// The status codes of a list are the integers of its items, in order.
pub proof fn law_statuses_are_those_of_the_items(
    heap: Heap,
    items: Seq<usize>,
    statuses: Seq<u16>,
)
    requires
        exact_statuses(heap, items) == Some(statuses),
    ensures
        statuses.len() == items.len(),
        forall|index: int|
            0 <= index < items.len() ==> heap.is_exactly(
                #[trigger] items[index],
                heap.intrinsics.int,
            ) && !heap.is_exactly(items[index], heap.intrinsics.boolean) && heap.int_of(
                items[index],
            ) == Some(statuses[index] as int),
    decreases items.len(),
{
    if items.len() > 0 {
        let fewer = items.drop_last();
        let before = exact_statuses(heap, fewer)->Some_0;
        law_statuses_are_those_of_the_items(heap, fewer, before);
        assert forall|index: int| 0 <= index < items.len() implies heap.is_exactly(
            #[trigger] items[index],
            heap.intrinsics.int,
        ) && !heap.is_exactly(items[index], heap.intrinsics.boolean) && heap.int_of(items[index])
            == Some(statuses[index] as int) by {
            if index < fewer.len() {
                assert(fewer[index] == items[index]);
            }
        }
    }
}

/// Whether a row of a history says this, each part under its own name.
pub open spec fn says_row(heap: Heap, row: usize, history_type: usize, view: HistoryView) -> bool {
    &&& heap.is_exactly(row, history_type)
    &&& heap.attribute_of(row, "error"@) matches Some(error) && heap.is_none_value(error)
    &&& heap.attribute_of(row, "method"@) matches Some(value) && heap.text_of(value) == Some(
        view.method,
    )
    &&& heap.attribute_of(row, "url"@) matches Some(value) && heap.text_of(value) == Some(view.url)
    &&& heap.attribute_of(row, "status"@) matches Some(value) && match view.status {
        None => heap.is_none_value(value),
        Some(status) => !heap.is_none_value(value) && heap.index_of(value) == Some(status as int),
    }
    &&& heap.attribute_of(row, "redirect_location"@) matches Some(value)
        && match view.redirect_location {
        None => heap.is_none_value(value),
        Some(location) => !heap.is_none_value(value) && heap.text_of(value) == Some(location),
    }
}

/// A history says what its rows say, in order, and a row that holds no error is
/// read part by part.
pub proof fn law_histories_say_what_their_rows_say(
    heap: Heap,
    rows: Seq<usize>,
    history_type: usize,
    row: usize,
    view: HistoryView,
)
    ensures
        row_of(heap, row, history_type) == Ok::<HistoryView, RetryRefusal>(view) <==> says_row(
            heap,
            row,
            history_type,
            view,
        ),
        rows_of(heap, rows, history_type) matches Ok(views) ==> views.len() == rows.len() && forall|
            index: int,
        |
            0 <= index < rows.len() ==> says_row(
                heap,
                #[trigger] rows[index],
                history_type,
                views[index],
            ),
    decreases rows.len(),
{
    if rows.len() > 0 {
        if let Ok(views) = rows_of(heap, rows, history_type) {
            let fewer = rows.drop_last();
            law_histories_say_what_their_rows_say(
                heap,
                fewer,
                history_type,
                rows.last(),
                views.last(),
            );
            let before = rows_of(heap, fewer, history_type)->Ok_0;
            assert forall|index: int| 0 <= index < rows.len() implies says_row(
                heap,
                #[trigger] rows[index],
                history_type,
                views[index],
            ) by {
                if index < fewer.len() {
                    assert(fewer[index] == rows[index]);
                    assert(before[index] == views[index]);
                }
            }
        }
    }
}

/// A reading of a `Retry` object says what the object says: each part is read
/// from that object, and the methods under their old name only in a version that
/// has it and where the object itself holds it.
pub proof fn law_readings_say_what_the_object_says(
    heap: Heap,
    guard: RetryGuard,
    retry: usize,
    view: RetryView,
)
    ensures
        retry_read(heap, guard, retry) == Ok::<RetryView, Stop>(view) <==> {
            &&& own_dictionary(heap, guard, retry) matches Ok(dictionary) && {
                let old_name = "1.26."@.is_prefix_of(view.version) && heap.entry_of(
                    dictionary,
                    "method_whitelist"@,
                ) is Some;
                let methods = if old_name {
                    heap.entry_of(dictionary, "method_whitelist"@)
                } else {
                    heap.attribute_of(retry, "allowed_methods"@)
                };
                methods matches Some(value) && methods_value(heap, value) == Ok::<
                    Option<Option<Seq<Seq<char>>>>,
                    Failure,
                >(Some(view.allowed_methods))
            }
            &&& heap.text_of(guard.urllib3_version) == Some(view.version)
            &&& counters_of(heap, retry) == Ok::<Counters, Stop>(view.counters)
            &&& heap.attribute_of(retry, "status_forcelist"@) matches Some(value)
                && statuses_value(heap, value) == Some(view.status_forcelist)
            &&& backoff_of(heap, guard.retry_type, retry) == Ok::<Backoff, Stop>(view.backoff)
            &&& switches_of(heap, retry) == Ok::<Switches, Stop>(view.switches)
            &&& retry_after_limit(heap, retry) == Ok::<Option<u64>, Stop>(view.retry_after_max)
            &&& heap.attribute_of(retry, "history"@) matches Some(value) && history_value(
                heap,
                value,
                guard.history_type,
            ) == Ok::<Seq<HistoryView>, RetryRefusal>(view.history)
        },
{
}

/// A row of a history was tried again for its redirect, where it has a status and
/// a place to go, for its status, where it has only that, and else for another
/// reason.
pub proof fn law_reasons_of_rows(row: HistoryView, status: u16)
    ensures
        row_reason(row) == (RetryReason::Redirect { status }) <==> row.status == Some(status)
            && row.redirect_location is Some,
        row_reason(row) == (RetryReason::Status { status }) <==> row.status == Some(status)
            && row.redirect_location is None,
        row_reason(row) is Other <==> row.status is None,
{
}

/// Each retry refusal has its own words.
pub proof fn law_words_of_retry_refusal()
    ensures
        RetryRefusal::ExactType.words() == "Retry must have the exact urllib3.util.retry.Retry type"@,
        RetryRefusal::InstanceDict.words() == "Retry instance dictionary is unsupported"@,
        RetryRefusal::Shadowed.words() == "Retry instance shadows a guarded method or constant"@,
        RetryRefusal::Total.words() == "total is not None, bool, or a nonnegative int"@,
        RetryRefusal::Connect.words() == "connect is not None, bool, or a nonnegative int"@,
        RetryRefusal::Read.words() == "read is not None, bool, or a nonnegative int"@,
        RetryRefusal::Status.words() == "status is not None, bool, or a nonnegative int"@,
        RetryRefusal::Redirect.words() == "redirect is not None, bool, or a nonnegative int"@,
        RetryRefusal::Other.words() == "other is not None, bool, or a nonnegative int"@,
        RetryRefusal::MethodWhitelist.words() == "method_whitelist is not None or an iterable of exact strings"@,
        RetryRefusal::AllowedMethods.words() == "allowed_methods is not None or an iterable of exact strings"@,
        RetryRefusal::StatusForcelist.words() == "status_forcelist is not an iterable of status integers"@,
        RetryRefusal::BackoffFactor.words() == "backoff_factor is not a nonnegative number"@,
        RetryRefusal::BackoffMax.words() == "backoff_max is not a nonnegative number"@,
        RetryRefusal::BackoffJitter.words() == "backoff_jitter is not a nonnegative number"@,
        RetryRefusal::RespectRetryAfter.words() == "respect_retry_after_header is not an exact bool"@,
        RetryRefusal::RaiseOnStatus.words() == "raise_on_status is not an exact bool"@,
        RetryRefusal::RaiseOnRedirect.words() == "raise_on_redirect is not an exact bool"@,
        RetryRefusal::RetryAfterMax.words() == "retry_after_max is not a nonnegative int"@,
        RetryRefusal::HistoryTuple.words() == "history is not an exact tuple"@,
        RetryRefusal::HistoryRow.words() == "history contains an unsupported row"@,
        RetryRefusal::HistoryShape.words() == "history row has an unsupported shape"@,
        RetryRefusal::HistoryError.words() == "history contains a Python error object"@,
        RetryRefusal::HistoryMethod.words() == "history row method is unsupported"@,
        RetryRefusal::HistoryUrl.words() == "history row URL is unsupported"@,
        RetryRefusal::HistoryStatus.words() == "history row status is unsupported"@,
        RetryRefusal::HistoryRedirect.words() == "history row redirect is unsupported"@,
{
}

/// A status is an exact integer of sixteen bits, no truth value.
pub proof fn law_statuses_fit(heap: Heap, value: usize, status: u16)
    ensures
        status_value(heap, value) == Some(status) <==> heap.is_exactly(value, heap.intrinsics.int)
            && !heap.is_exactly(value, heap.intrinsics.boolean) && heap.int_of(value) == Some(
            status as int,
        ),
{
}

} // verus!
