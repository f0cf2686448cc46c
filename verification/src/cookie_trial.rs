//! When an operation on a cookie jar is carried out natively.

use vstd::prelude::*;

use crate::adapter_state::{exact_dict, exact_dict_of, has_text_keys, keys_are_texts};
use crate::body_prepare::GlobalResolver;
use crate::cookie_shape::{
    class_at, exact_string_item, is_exact_text, jar_layout_is_pristine, jar_layout_pristine,
    jar_supported, layout_pristine, morsel_shape_is_supported, morsel_supported,
    raw_cookie_snapshot, scalar_from_python, scalar_of, snapshot_of, snapshot_shape_is_supported,
    type_layout_is_pristine,
};
use crate::cookie_state::{
    clock_pristine, constructor_pristine, conversion_globals_are_pristine, conversion_pristine,
    copy_pickle_dependencies_are_pristine,
    copy_pickle_pristine, deepvalues_is_pristine, deepvalues_pristine, exact_function_global_owner,
    function_globals_of, functions_pristine, inspect_methods, inspect_methods_are_pristine,
    jar_iteration, jar_iteration_are_pristine, module_functions_are_pristine, mutate_methods,
    mutate_methods_are_pristine, namespace_pairs, raw_instance_dict, std_iteration,
    std_iteration_are_pristine, threading_pristine, threading_rlock_is_pristine, CookieFunction,
    CookieState, CookieView,
};
use crate::heap::{both, holds, Check, Failure, Heap, Pair};
use crate::landmarks::{check_type_entry, type_entries_are, type_entry_is};
use crate::text::same_text;

verus! {

/// The elements of a value that is exactly a tuple.
pub open spec fn exact_tuple_of(heap: Heap, value: usize) -> Option<Seq<usize>> {
    if heap.is_exactly(value, heap.intrinsics.tuple) {
        heap.tuple_of(value)
    } else {
        None
    }
}

/// The elements of a value that is exactly a tuple.
pub fn exact_tuple(heap: &Heap, value: usize) -> (elements: Option<&Vec<usize>>)
    ensures
        match elements {
            Some(elements) => exact_tuple_of(*heap, value) == Some(elements@),
            None => exact_tuple_of(*heap, value) is None,
        },
{
    if heap.exactly(value, heap.intrinsics.tuple) {
        heap.tuple(value)
    } else {
        None
    }
}

/// Whether a name space has exact texts as keys only, and none of the names of
/// a list.
pub open spec fn unshadowed(heap: Heap, object: usize, names: Seq<&'static str>) -> Check {
    match namespace_pairs(heap, object) {
        Err(failure) => Err(failure),
        Ok(pairs) => Ok(
            has_text_keys(heap, pairs) && (forall|i: int|
                0 <= i < names.len() ==> heap.keyed(pairs, (#[trigger] names[i])@) is None),
        ),
    }
}

/// Whether an object's own name space shadows none of the names of a list.
pub fn instance_methods_are_unshadowed(heap: &Heap, object: usize, names: &Vec<&'static str>) -> (check:
    Check)
    ensures
        check == unshadowed(*heap, object, names@),
{
    let pairs = match raw_instance_dict(heap, object) {
        Ok(pairs) => pairs,
        Err(failure) => {
            return Err(failure);
        },
    };
    if !keys_are_texts(heap, pairs) {
        return Ok(false);
    }
    let mut index: usize = 0;
    while index < names.len()
        invariant
            index <= names.len(),
            namespace_pairs(*heap, object) == Ok::<Seq<Pair>, Failure>(pairs@),
            forall|i: int| 0 <= i < index ==> heap.keyed(pairs@, (#[trigger] names@[i])@) is None,
        decreases names.len() - index,
    {
        if heap.find_keyed(pairs, names[index]).is_some() {
            assert(heap.keyed(pairs@, names@[index as int]@) is Some);
            return Ok(false);
        }
        index = index + 1;
    }
    Ok(true)
}

/// Whether a jar's lock is of the type that was first met.
pub open spec fn lock_pristine(heap: Heap, state: CookieView, jar: usize) -> Check {
    match namespace_pairs(heap, jar) {
        Err(failure) => Err(failure),
        Ok(pairs) => Ok(
            has_text_keys(heap, pairs) && match heap.keyed(pairs, "_cookies_lock"@) {
                Some(lock) => heap.is_exactly(lock, state.rlock_type),
                None => false,
            },
        ),
    }
}

/// Whether a jar's lock is of the type that was first met.
pub fn exact_lock_is_pristine(heap: &Heap, state: &CookieState, jar: usize) -> (check: Check)
    ensures
        check == lock_pristine(*heap, state@, jar),
{
    let pairs = match raw_instance_dict(heap, jar) {
        Ok(pairs) => pairs,
        Err(failure) => {
            return Err(failure);
        },
    };
    if !keys_are_texts(heap, pairs) {
        return Ok(false);
    }
    match heap.find_keyed(pairs, "_cookies_lock") {
        Some(lock) => Ok(heap.exactly(lock, state.rlock_type)),
        None => Ok(false),
    }
}

/// Whether every element of a list is exactly a text.
pub open spec fn all_exact_texts(heap: Heap, elements: Seq<usize>) -> bool {
    forall|i: int| 0 <= i < elements.len() ==> is_exact_text(heap, #[trigger] elements[i])
}

/// Whether a setting of a policy is plain: `None`, a flag, a number, a text or
/// a tuple of texts.
pub open spec fn plain_setting(heap: Heap, value: usize) -> bool {
    ||| heap.is_none_value(value)
    ||| heap.is_exactly(value, heap.intrinsics.boolean)
    ||| heap.is_exactly(value, heap.intrinsics.int)
    ||| is_exact_text(heap, value)
    ||| match exact_tuple_of(heap, value) {
        Some(elements) => all_exact_texts(heap, elements),
        None => false,
    }
}

/// Whether a setting of a policy is plain.
pub fn callback_free_policy_value(heap: &Heap, value: usize) -> (yes: bool)
    ensures
        yes == plain_setting(*heap, value),
{
    if heap.none_value(value) || heap.exactly(value, heap.intrinsics.boolean) || heap.exactly(
        value,
        heap.intrinsics.int,
    ) || exact_string_item(heap, value) {
        return true;
    }
    let elements = match exact_tuple(heap, value) {
        Some(elements) => elements,
        None => {
            return false;
        },
    };
    let mut index: usize = 0;
    while index < elements.len()
        invariant
            index <= elements.len(),
            !heap.is_none_value(value),
            !heap.is_exactly(value, heap.intrinsics.boolean),
            !heap.is_exactly(value, heap.intrinsics.int),
            !is_exact_text(*heap, value),
            exact_tuple_of(*heap, value) == Some(elements@),
            forall|i: int| 0 <= i < index ==> is_exact_text(*heap, #[trigger] elements@[i]),
        decreases elements.len() - index,
    {
        if !exact_string_item(heap, elements[index]) {
            assert(!is_exact_text(*heap, elements@[index as int]));
            return false;
        }
        index = index + 1;
    }
    true
}

/// Whether a jar's policy is exactly the default one, with plain settings.
pub open spec fn policy_pristine(heap: Heap, state: CookieView, jar: usize) -> Check {
    match namespace_pairs(heap, jar) {
        Err(failure) => Err(failure),
        Ok(pairs) => if !has_text_keys(heap, pairs) {
            Ok(false)
        } else {
            match heap.keyed(pairs, "_policy"@) {
                None => Ok(false),
                Some(policy) => if !heap.is_exactly(policy, state.objects.default_policy_type)
                    || !type_entry_is(
                    heap,
                    class_at(heap, policy),
                    "__getattribute__"@,
                    state.object_getattribute,
                ) {
                    Ok(false)
                } else {
                    match namespace_pairs(heap, policy) {
                        Err(failure) => Err(failure),
                        Ok(settings) => Ok(
                            has_text_keys(heap, settings) && (forall|i: int|
                                0 <= i < settings.len() ==> plain_setting(
                                    heap,
                                    (#[trigger] settings[i]).value,
                                )),
                        ),
                    }
                },
            }
        },
    }
}

/// Whether a jar's policy is exactly the default one, with plain settings.
pub fn exact_default_policy_is_pristine(heap: &Heap, state: &CookieState, jar: usize) -> (check: Check)
    ensures
        check == policy_pristine(*heap, state@, jar),
{
    let pairs = match raw_instance_dict(heap, jar) {
        Ok(pairs) => pairs,
        Err(failure) => {
            return Err(failure);
        },
    };
    if !keys_are_texts(heap, pairs) {
        return Ok(false);
    }
    let policy = match heap.find_keyed(pairs, "_policy") {
        Some(policy) => policy,
        None => {
            return Ok(false);
        },
    };
    if !heap.exactly(policy, state.objects.default_policy_type) {
        return Ok(false);
    }
    let class = match heap.get(policy) {
        Some(found) => found.class,
        None => 0,
    };
    if !check_type_entry(heap, class, "__getattribute__", state.object_getattribute) {
        return Ok(false);
    }
    let settings = match raw_instance_dict(heap, policy) {
        Ok(settings) => settings,
        Err(failure) => {
            return Err(failure);
        },
    };
    if !keys_are_texts(heap, settings) {
        return Ok(false);
    }
    Ok(check_settings(heap, settings))
}

/// Whether every setting of a policy is plain.
fn check_settings(heap: &Heap, settings: &Vec<Pair>) -> (yes: bool)
    ensures
        yes == (forall|i: int|
            0 <= i < settings@.len() ==> plain_setting(*heap, (#[trigger] settings@[i]).value)),
{
    let mut index: usize = 0;
    while index < settings.len()
        invariant
            index <= settings.len(),
            forall|i: int|
                0 <= i < index ==> plain_setting(*heap, (#[trigger] settings@[i]).value),
        decreases settings.len() - index,
    {
        if !callback_free_policy_value(heap, settings[index].value) {
            assert(!plain_setting(*heap, settings@[index as int].value));
            return false;
        }
        index = index + 1;
    }
    true
}

/// Whether the arguments of a mutation are a morsel, a cookie and a text that
/// can all be read.
pub open spec fn mutate_arguments(heap: Heap, state: CookieView, arguments: usize) -> Check {
    match exact_tuple_of(heap, arguments) {
        None => Ok(false),
        Some(elements) => if elements.len() != 3 {
            Ok(false)
        } else {
            both(
                morsel_supported(heap, state, elements[0]),
                Ok(
                    snapshot_of(heap, state, elements[1]) is Ok && is_exact_text(heap, elements[2]),
                ),
            )
        },
    }
}

/// Whether the arguments of a mutation can all be read.
pub fn mutate_arguments_are_supported(heap: &Heap, state: &CookieState, arguments: usize) -> (check:
    Check)
    ensures
        check == mutate_arguments(*heap, state@, arguments),
{
    let elements = match exact_tuple(heap, arguments) {
        Some(elements) => elements,
        None => {
            return Ok(false);
        },
    };
    if elements.len() != 3 {
        return Ok(false);
    }
    match morsel_shape_is_supported(heap, state, elements[0]) {
        Ok(true) => {},
        other => {
            return other;
        },
    }
    Ok(
        raw_cookie_snapshot(heap, state, elements[1]).is_ok() && exact_string_item(
            heap,
            elements[2],
        ),
    )
}

/// Whether a value is `None` or exactly a text.
pub open spec fn is_text_or_none(heap: Heap, value: usize) -> bool {
    heap.is_none_value(value) || is_exact_text(heap, value)
}

/// Whether a value is `None` or exactly a text.
pub fn matches_exact_optional_string(heap: &Heap, value: usize) -> (yes: bool)
    ensures
        yes == is_text_or_none(*heap, value),
{
    heap.none_value(value) || exact_string_item(heap, value)
}

/// Whether a row asks for a name, a domain, a path and a default that can all
/// be read.
pub open spec fn is_lookup_row(heap: Heap, row: usize) -> bool {
    exact_tuple_of(heap, row) matches Some(elements) && {
        &&& elements.len() == 4
        &&& is_exact_text(heap, elements[0])
        &&& is_text_or_none(heap, elements[1])
        &&& is_text_or_none(heap, elements[2])
        &&& scalar_of(heap, elements[3]) is Ok
    }
}

/// Whether a row asks for something that can be read.
fn check_lookup_row(heap: &Heap, row: usize) -> (yes: bool)
    ensures
        yes == is_lookup_row(*heap, row),
{
    match exact_tuple(heap, row) {
        None => false,
        Some(elements) => elements.len() == 4 && exact_string_item(heap, elements[0])
            && matches_exact_optional_string(heap, elements[1]) && matches_exact_optional_string(
            heap,
            elements[2],
        ) && scalar_from_python(heap, elements[3]).is_ok(),
    }
}

/// Whether every row of a list asks for something that can be read.
pub open spec fn all_lookup_rows(heap: Heap, rows: Seq<usize>) -> bool {
    forall|i: int| 0 <= i < rows.len() ==> is_lookup_row(heap, #[trigger] rows[i])
}

/// Whether the arguments of an inspection are rows that can all be read.
pub open spec fn inspect_arguments(heap: Heap, arguments: usize) -> bool {
    match exact_tuple_of(heap, arguments) {
        Some(rows) => all_lookup_rows(heap, rows),
        None => false,
    }
}

/// Whether the arguments of an inspection are rows that can all be read.
pub fn inspect_arguments_are_supported(heap: &Heap, arguments: usize) -> (yes: bool)
    ensures
        yes == inspect_arguments(*heap, arguments),
{
    let rows = match exact_tuple(heap, arguments) {
        Some(rows) => rows,
        None => {
            return false;
        },
    };
    let mut index: usize = 0;
    while index < rows.len()
        invariant
            index <= rows.len(),
            exact_tuple_of(*heap, arguments) == Some(rows@),
            forall|i: int| 0 <= i < index ==> is_lookup_row(*heap, #[trigger] rows@[i]),
        decreases rows.len() - index,
    {
        if !check_lookup_row(heap, rows[index]) {
            assert(!is_lookup_row(*heap, rows@[index as int]));
            assert(!all_lookup_rows(*heap, rows@));
            return false;
        }
        index = index + 1;
    }
    true
}

/// Whether further attributes are exactly a dict from texts to simple values.
pub open spec fn is_rest_shape(heap: Heap, value: usize) -> bool {
    exact_dict_of(heap, value) matches Some(pairs) && (forall|i: int|
        0 <= i < pairs.len() ==> {
            &&& is_exact_text(heap, (#[trigger] pairs[i]).key)
            &&& scalar_of(heap, pairs[i].value) is Ok
        })
}

/// Whether further attributes are exactly a dict from texts to simple values.
pub fn exact_rest_shape(heap: &Heap, value: usize) -> (yes: bool)
    ensures
        yes == is_rest_shape(*heap, value),
{
    let pairs = match exact_dict(heap, value) {
        Some(pairs) => pairs,
        None => {
            return false;
        },
    };
    let mut index: usize = 0;
    while index < pairs.len()
        invariant
            index <= pairs.len(),
            exact_dict_of(*heap, value) == Some(pairs@),
            forall|i: int|
                0 <= i < index ==> {
                    &&& is_exact_text(*heap, (#[trigger] pairs@[i]).key)
                    &&& scalar_of(*heap, pairs@[i].value) is Ok
                },
        decreases pairs.len() - index,
    {
        let supported = exact_string_item(heap, pairs[index].key) && scalar_from_python(
            heap,
            pairs[index].value,
        ).is_ok();
        if !supported {
            assert(!(is_exact_text(*heap, pairs@[index as int].key) && scalar_of(
                *heap,
                pairs@[index as int].value,
            ) is Ok));
            return false;
        }
        index = index + 1;
    }
    true
}

/// Whether a value is exactly an integer.
pub open spec fn is_exact_int(heap: Heap, value: usize) -> bool {
    heap.is_exactly(value, heap.intrinsics.int)
}

/// Whether a keyword argument of the cookie constructor has a value that can
/// be handed on as it is.
pub open spec fn create_value(heap: Heap, key: Seq<char>, value: usize) -> bool {
    if key == "version"@ {
        is_exact_int(heap, value)
    } else if key == "port"@ {
        heap.is_none_value(value) || is_exact_text(heap, value) || is_exact_int(heap, value)
    } else if key == "domain"@ || key == "path"@ {
        is_exact_text(heap, value)
    } else if key == "secure"@ || key == "discard"@ || key == "rfc2109"@ {
        heap.is_exactly(value, heap.intrinsics.boolean)
    } else if key == "expires"@ {
        heap.is_none_value(value) || is_exact_int(heap, value)
    } else if key == "comment"@ || key == "comment_url"@ || key == "value"@ {
        is_text_or_none(heap, value)
    } else if key == "rest"@ {
        is_rest_shape(heap, value)
    } else {
        scalar_of(heap, value) is Ok
    }
}

/// Whether a keyword argument of the cookie constructor has a value that can
/// be handed on as it is.
pub fn create_value_is_supported(heap: &Heap, key: &str, value: usize) -> (yes: bool)
    ensures
        yes == create_value(*heap, key@, value),
{
    let integer = heap.exactly(value, heap.intrinsics.int);
    if same_text(key, "version") {
        integer
    } else if same_text(key, "port") {
        heap.none_value(value) || exact_string_item(heap, value) || integer
    } else if same_text(key, "domain") || same_text(key, "path") {
        exact_string_item(heap, value)
    } else if same_text(key, "secure") || same_text(key, "discard") || same_text(key, "rfc2109") {
        heap.exactly(value, heap.intrinsics.boolean)
    } else if same_text(key, "expires") {
        heap.none_value(value) || integer
    } else if same_text(key, "comment") || same_text(key, "comment_url") || same_text(
        key,
        "value",
    ) {
        matches_exact_optional_string(heap, value)
    } else if same_text(key, "rest") {
        exact_rest_shape(heap, value)
    } else {
        scalar_from_python(heap, value).is_ok()
    }
}

/// Whether keyword arguments have texts as names and values that can be handed
/// on, looked at in order.
pub open spec fn create_arguments(heap: Heap, pairs: Seq<Pair>) -> Check
    decreases pairs.len(),
{
    if pairs.len() == 0 {
        Ok(true)
    } else if !is_exact_text(heap, pairs[0].key) {
        Ok(false)
    } else {
        match heap.text_of(pairs[0].key) {
            None => Err(Failure::Kind),
            Some(key) => both(
                Ok(create_value(heap, key, pairs[0].value)),
                create_arguments(heap, pairs.drop_first()),
            ),
        }
    }
}

/// Whether keyword arguments have texts as names and values that can be handed
/// on, looked at in order.
fn check_create_arguments(heap: &Heap, pairs: &Vec<Pair>) -> (check: Check)
    ensures
        check == create_arguments(*heap, pairs@),
{
    let mut index: usize = 0;
    assert(pairs@.skip(0) =~= pairs@);
    while index < pairs.len()
        invariant
            index <= pairs.len(),
            create_arguments(*heap, pairs@) == create_arguments(*heap, pairs@.skip(index as int)),
        decreases pairs.len() - index,
    {
        assert(pairs@.skip(index as int).drop_first() =~= pairs@.skip(index + 1));
        assert(pairs@.skip(index as int)[0] == pairs@[index as int]);
        if !exact_string_item(heap, pairs[index].key) {
            return Ok(false);
        }
        match heap.text(pairs[index].key) {
            None => {
                return Err(Failure::Kind);
            },
            Some(key) => if !create_value_is_supported(heap, key.as_str(), pairs[index].value) {
                return Ok(false);
            },
        }
        index = index + 1;
    }
    Ok(true)
}

/// Whether the arguments for making a cookie are a name, a value and keyword
/// arguments that can be handed on.
pub open spec fn bad_create_arguments(heap: Heap, arguments: usize) -> Check {
    match exact_tuple_of(heap, arguments) {
        None => Ok(false),
        Some(elements) => if elements.len() != 3 || !is_exact_text(heap, elements[0])
            || !is_exact_text(heap, elements[1]) {
            Ok(false)
        } else {
            match exact_dict_of(heap, elements[2]) {
                None => Ok(false),
                Some(pairs) => create_arguments(heap, pairs),
            }
        },
    }
}

/// Whether the arguments for making a cookie can be handed on.
pub fn bad_create_arguments_are_supported(heap: &Heap, arguments: usize) -> (check: Check)
    ensures
        check == bad_create_arguments(*heap, arguments),
{
    let elements = match exact_tuple(heap, arguments) {
        Some(elements) => elements,
        None => {
            return Ok(false);
        },
    };
    if elements.len() != 3 || !exact_string_item(heap, elements[0]) || !exact_string_item(
        heap,
        elements[1],
    ) {
        return Ok(false);
    }
    match exact_dict(heap, elements[2]) {
        None => Ok(false),
        Some(pairs) => check_create_arguments(heap, pairs),
    }
}

/// Whether there are no arguments.
pub open spec fn no_arguments(heap: Heap, arguments: usize) -> bool {
    exact_tuple_of(heap, arguments) matches Some(elements) && elements.len() == 0
}

/// Whether there are no arguments.
pub fn empty_arguments_are_supported(heap: &Heap, arguments: usize) -> (yes: bool)
    ensures
        yes == no_arguments(*heap, arguments),
{
    match exact_tuple(heap, arguments) {
        Some(elements) => elements.len() == 0,
        None => false,
    }
}

/// What is done with a jar.
#[derive(Clone, Copy, Debug, PartialEq, Eq, Structural)]
pub enum JarOperation {
    Inspect,
    Mutate,
    BadCreate,
    Morsel,
    CopyPickle,
}

/// The operation of a name.
pub open spec fn operation_named(name: Seq<char>) -> Option<JarOperation> {
    if name == "inspect"@ {
        Some(JarOperation::Inspect)
    } else if name == "mutate"@ {
        Some(JarOperation::Mutate)
    } else if name == "bad-create"@ {
        Some(JarOperation::BadCreate)
    } else if name == "morsel"@ {
        Some(JarOperation::Morsel)
    } else if name == "copy-pickle"@ {
        Some(JarOperation::CopyPickle)
    } else {
        None
    }
}

/// The operation of a name.
pub fn jar_operation(name: &str) -> (operation: Option<JarOperation>)
    ensures
        operation == operation_named(name@),
{
    if same_text(name, "inspect") {
        Some(JarOperation::Inspect)
    } else if same_text(name, "mutate") {
        Some(JarOperation::Mutate)
    } else if same_text(name, "bad-create") {
        Some(JarOperation::BadCreate)
    } else if same_text(name, "morsel") {
        Some(JarOperation::Morsel)
    } else if same_text(name, "copy-pickle") {
        Some(JarOperation::CopyPickle)
    } else {
        None
    }
}

/// The methods of an inspection that a jar may not shadow.
pub open spec fn inspect_names() -> Seq<&'static str> {
    seq![
        "get",
        "_find_no_duplicates",
        "keys",
        "iterkeys",
        "values",
        "itervalues",
        "items",
        "iteritems",
        "get_dict",
        "list_domains",
        "list_paths",
        "multiple_domains",
    ]
}

/// Whether a jar can be inspected natively.
pub open spec fn inspect_pristine(heap: Heap, state: CookieView, jar: usize, arguments: usize) -> Check {
    both(
        Ok(type_entries_are(heap, inspect_methods(state.objects))),
        both(
            unshadowed(heap, jar, inspect_names()),
            both(
                deepvalues_pristine(heap, state.objects),
                both(jar_supported(heap, state, jar), Ok(inspect_arguments(heap, arguments))),
            ),
        ),
    )
}

/// Whether a jar can be inspected natively.
fn check_inspect(heap: &Heap, state: &CookieState, jar: usize, arguments: usize) -> (check: Check)
    ensures
        check == inspect_pristine(*heap, state@, jar, arguments),
{
    if !inspect_methods_are_pristine(heap, &state.objects) {
        return Ok(false);
    }
    let names: Vec<&'static str> = vec![
        "get",
        "_find_no_duplicates",
        "keys",
        "iterkeys",
        "values",
        "itervalues",
        "items",
        "iteritems",
        "get_dict",
        "list_domains",
        "list_paths",
        "multiple_domains",
    ];
    assert(names@ =~= inspect_names());
    match instance_methods_are_unshadowed(heap, jar, &names) {
        Ok(true) => {},
        other => {
            return other;
        },
    }
    match deepvalues_is_pristine(heap, &state.objects) {
        Ok(true) => {},
        other => {
            return other;
        },
    }
    match snapshot_shape_is_supported(heap, state, jar) {
        Ok(true) => {},
        other => {
            return other;
        },
    }
    Ok(inspect_arguments_are_supported(heap, arguments))
}

/// Whether a jar can be mutated natively.
pub open spec fn mutate_pristine(heap: Heap, state: CookieView, jar: usize, arguments: usize) -> Check {
    both(
        conversion_pristine(
            heap,
            state.objects,
            seq![
                CookieFunction::CreateCookie,
                CookieFunction::MorselToCookie,
                CookieFunction::RemoveCookieByName,
            ],
        ),
        both(
            Ok(type_entries_are(heap, mutate_methods(state.objects))),
            both(
                unshadowed(heap, jar, seq!["set_cookie", "set", "clear", "get_dict"]),
                both(
                    lock_pristine(heap, state, jar),
                    both(
                        deepvalues_pristine(heap, state.objects),
                        both(
                            jar_supported(heap, state, jar),
                            mutate_arguments(heap, state, arguments),
                        ),
                    ),
                ),
            ),
        ),
    )
}

/// Whether a jar can be mutated natively.
fn check_mutate(heap: &Heap, state: &CookieState, jar: usize, arguments: usize) -> (check: Check)
    ensures
        check == mutate_pristine(*heap, state@, jar, arguments),
{
    let functions: Vec<CookieFunction> = vec![
        CookieFunction::CreateCookie,
        CookieFunction::MorselToCookie,
        CookieFunction::RemoveCookieByName,
    ];
    assert(functions@ =~= seq![
        CookieFunction::CreateCookie,
        CookieFunction::MorselToCookie,
        CookieFunction::RemoveCookieByName,
    ]);
    match conversion_globals_are_pristine(heap, &state.objects, &functions) {
        Ok(true) => {},
        other => {
            return other;
        },
    }
    if !mutate_methods_are_pristine(heap, &state.objects) {
        return Ok(false);
    }
    let names: Vec<&'static str> = vec!["set_cookie", "set", "clear", "get_dict"];
    assert(names@ =~= seq!["set_cookie", "set", "clear", "get_dict"]);
    match instance_methods_are_unshadowed(heap, jar, &names) {
        Ok(true) => {},
        other => {
            return other;
        },
    }
    match exact_lock_is_pristine(heap, state, jar) {
        Ok(true) => {},
        other => {
            return other;
        },
    }
    match deepvalues_is_pristine(heap, &state.objects) {
        Ok(true) => {},
        other => {
            return other;
        },
    }
    match snapshot_shape_is_supported(heap, state, jar) {
        Ok(true) => {},
        other => {
            return other;
        },
    }
    mutate_arguments_are_supported(heap, state, arguments)
}

/// Whether a cookie can be made natively from keyword arguments.
pub open spec fn create_pristine(heap: Heap, state: CookieView, jar: usize, arguments: usize) -> Check {
    both(
        conversion_pristine(heap, state.objects, seq![CookieFunction::CreateCookie]),
        both(jar_supported(heap, state, jar), bad_create_arguments(heap, arguments)),
    )
}

/// Whether a cookie can be made natively from keyword arguments.
fn check_create(heap: &Heap, state: &CookieState, jar: usize, arguments: usize) -> (check: Check)
    ensures
        check == create_pristine(*heap, state@, jar, arguments),
{
    let functions: Vec<CookieFunction> = vec![CookieFunction::CreateCookie];
    assert(functions@ =~= seq![CookieFunction::CreateCookie]);
    match conversion_globals_are_pristine(heap, &state.objects, &functions) {
        Ok(true) => {},
        other => {
            return other;
        },
    }
    match snapshot_shape_is_supported(heap, state, jar) {
        Ok(true) => {},
        other => {
            return other;
        },
    }
    bad_create_arguments_are_supported(heap, arguments)
}

/// Whether a morsel can be turned into a cookie natively.
pub open spec fn morsel_pristine(heap: Heap, state: CookieView, jar: usize, arguments: usize) -> Check {
    match exact_tuple_of(heap, arguments) {
        None => Ok(false),
        Some(elements) => if elements.len() != 1 {
            Ok(false)
        } else {
            both(
                conversion_pristine(
                    heap,
                    state.objects,
                    seq![CookieFunction::CreateCookie, CookieFunction::MorselToCookie],
                ),
                both(
                    jar_supported(heap, state, jar),
                    morsel_supported(heap, state, elements[0]),
                ),
            )
        },
    }
}

/// Whether a morsel can be turned into a cookie natively.
fn check_morsel(heap: &Heap, state: &CookieState, jar: usize, arguments: usize) -> (check: Check)
    ensures
        check == morsel_pristine(*heap, state@, jar, arguments),
{
    let elements = match exact_tuple(heap, arguments) {
        Some(elements) => elements,
        None => {
            return Ok(false);
        },
    };
    if elements.len() != 1 {
        return Ok(false);
    }
    let functions: Vec<CookieFunction> = vec![
        CookieFunction::CreateCookie,
        CookieFunction::MorselToCookie,
    ];
    assert(functions@ =~= seq![CookieFunction::CreateCookie, CookieFunction::MorselToCookie]);
    match conversion_globals_are_pristine(heap, &state.objects, &functions) {
        Ok(true) => {},
        other => {
            return other;
        },
    }
    match snapshot_shape_is_supported(heap, state, jar) {
        Ok(true) => {},
        other => {
            return other;
        },
    }
    morsel_shape_is_supported(heap, state, elements[0])
}

/// Whether a jar can be copied and pickled natively.
pub open spec fn copy_pristine(heap: Heap, state: CookieView, jar: usize, arguments: usize) -> Check {
    both(
        conversion_pristine(heap, state.objects, seq![CookieFunction::CreateCookie]),
        both(
            copy_pickle_pristine(heap, state.objects),
            both(
                unshadowed(heap, jar, seq!["copy", "get_policy", "__getstate__"]),
                both(
                    lock_pristine(heap, state, jar),
                    both(
                        policy_pristine(heap, state, jar),
                        both(
                            threading_pristine(heap, state.objects),
                            both(
                                deepvalues_pristine(heap, state.objects),
                                both(
                                    jar_supported(heap, state, jar),
                                    Ok(no_arguments(heap, arguments)),
                                ),
                            ),
                        ),
                    ),
                ),
            ),
        ),
    )
}

/// Whether a jar can be copied and pickled natively.
fn check_copy(heap: &Heap, state: &CookieState, jar: usize, arguments: usize) -> (check: Check)
    ensures
        check == copy_pristine(*heap, state@, jar, arguments),
{
    let functions: Vec<CookieFunction> = vec![CookieFunction::CreateCookie];
    assert(functions@ =~= seq![CookieFunction::CreateCookie]);
    match conversion_globals_are_pristine(heap, &state.objects, &functions) {
        Ok(true) => {},
        other => {
            return other;
        },
    }
    match copy_pickle_dependencies_are_pristine(heap, &state.objects) {
        Ok(true) => {},
        other => {
            return other;
        },
    }
    let names: Vec<&'static str> = vec!["copy", "get_policy", "__getstate__"];
    assert(names@ =~= seq!["copy", "get_policy", "__getstate__"]);
    match instance_methods_are_unshadowed(heap, jar, &names) {
        Ok(true) => {},
        other => {
            return other;
        },
    }
    match exact_lock_is_pristine(heap, state, jar) {
        Ok(true) => {},
        other => {
            return other;
        },
    }
    match exact_default_policy_is_pristine(heap, state, jar) {
        Ok(true) => {},
        other => {
            return other;
        },
    }
    match threading_rlock_is_pristine(heap, &state.objects) {
        Ok(true) => {},
        other => {
            return other;
        },
    }
    match deepvalues_is_pristine(heap, &state.objects) {
        Ok(true) => {},
        other => {
            return other;
        },
    }
    match snapshot_shape_is_supported(heap, state, jar) {
        Ok(true) => {},
        other => {
            return other;
        },
    }
    Ok(empty_arguments_are_supported(heap, arguments))
}

/// Whether a jar is exactly of the class of Requests, laid out as it first was.
pub open spec fn requests_jar_pristine(heap: Heap, state: CookieView, jar: usize) -> Check {
    both(
        Ok(heap.is_exactly(jar, state.objects.jar_type)),
        jar_layout_pristine(heap, state, jar),
    )
}

/// Whether a jar is exactly of the class of Requests, laid out as it first was.
pub fn exact_requests_jar_for_operation(heap: &Heap, state: &CookieState, jar: usize) -> (check: Check)
    ensures
        check == requests_jar_pristine(*heap, state@, jar),
{
    if !heap.exactly(jar, state.objects.jar_type) {
        return Ok(false);
    }
    jar_layout_is_pristine(heap, state, jar)
}

/// Whether an operation can be carried out natively.
pub open spec fn operation_pristine(
    heap: Heap,
    state: CookieView,
    jar: usize,
    operation: Seq<char>,
    arguments: usize,
) -> Check {
    both(
        requests_jar_pristine(heap, state, jar),
        match operation_named(operation) {
            Some(JarOperation::Inspect) => inspect_pristine(heap, state, jar, arguments),
            Some(JarOperation::Mutate) => mutate_pristine(heap, state, jar, arguments),
            Some(JarOperation::BadCreate) => create_pristine(heap, state, jar, arguments),
            Some(JarOperation::Morsel) => morsel_pristine(heap, state, jar, arguments),
            Some(JarOperation::CopyPickle) => copy_pristine(heap, state, jar, arguments),
            None => Ok(false),
        },
    )
}

/// Whether an operation can be carried out natively.
pub fn cookie_operation_is_pristine(
    heap: &Heap,
    state: &CookieState,
    jar: usize,
    operation: &str,
    arguments: usize,
) -> (check: Check)
    ensures
        check == operation_pristine(*heap, state@, jar, operation@, arguments),
{
    match exact_requests_jar_for_operation(heap, state, jar) {
        Ok(true) => {},
        other => {
            return other;
        },
    }
    match jar_operation(operation) {
        Some(JarOperation::Inspect) => check_inspect(heap, state, jar, arguments),
        Some(JarOperation::Mutate) => check_mutate(heap, state, jar, arguments),
        Some(JarOperation::BadCreate) => check_create(heap, state, jar, arguments),
        Some(JarOperation::Morsel) => check_morsel(heap, state, jar, arguments),
        Some(JarOperation::CopyPickle) => check_copy(heap, state, jar, arguments),
        None => Ok(false),
    }
}

/// What is done with a request for an operation.
#[derive(Clone, Copy, Debug, PartialEq, Eq, Structural)]
pub enum JarPlan {
    /// Python's own code carries it out.
    Fallback,
    /// It is carried out natively, with the globals of Python's own code.
    Native { operation: JarOperation, globals: GlobalResolver },
}

/// What is done with a request for an operation on a jar.
pub open spec fn jar_plan(
    heap: Heap,
    state: CookieView,
    fallback: usize,
    jar: usize,
    operation: Seq<char>,
    arguments: usize,
) -> Result<JarPlan, Failure> {
    if !holds(operation_pristine(heap, state, jar, operation, arguments)) {
        Ok(JarPlan::Fallback)
    } else {
        match (function_globals_of(heap, fallback), operation_named(operation)) {
            (Err(failure), _) => Err(failure),
            (Ok(Some(globals)), Some(operation)) => Ok(JarPlan::Native { operation, globals }),
            _ => Ok(JarPlan::Fallback),
        }
    }
}

/// What is done with a request for an operation on a jar.
pub fn cookie_jar_trial(
    heap: &Heap,
    state: &CookieState,
    fallback: usize,
    jar: usize,
    operation: &str,
    arguments: usize,
) -> (plan: Result<JarPlan, Failure>)
    ensures
        plan == jar_plan(*heap, state@, fallback, jar, operation@, arguments),
{
    match cookie_operation_is_pristine(heap, state, jar, operation, arguments) {
        Ok(true) => {},
        _ => {
            return Ok(JarPlan::Fallback);
        },
    }
    match (exact_function_global_owner(heap, fallback), jar_operation(operation)) {
        (Err(failure), _) => Err(failure),
        (Ok(Some(globals)), Some(operation)) => Ok(JarPlan::Native { operation, globals }),
        _ => Ok(JarPlan::Fallback),
    }
}

/// The fields of a request that no class may shadow.
pub open spec fn request_fields() -> Seq<&'static str> {
    seq!["_cookies", "headers", "url", "method"]
}

/// The functions that a bridge operation calls.
pub open spec fn bridge_functions(extracts: bool) -> Seq<CookieFunction> {
    if extracts {
        seq![CookieFunction::GetCookieHeader, CookieFunction::ExtractCookiesToJar]
    } else {
        seq![CookieFunction::GetCookieHeader]
    }
}

/// The methods of a jar that a bridge operation calls.
pub open spec fn bridge_names(extracts: bool) -> Seq<&'static str> {
    if extracts {
        seq!["add_cookie_header", "extract_cookies"]
    } else {
        seq!["add_cookie_header"]
    }
}

/// Whether the cookie module's stand-ins for requests and responses are the
/// ones first met.
pub open spec fn mocks_pristine(heap: Heap, state: CookieView) -> Check {
    match namespace_pairs(heap, state.objects.module) {
        Err(failure) => Err(failure),
        Ok(pairs) => Ok(
            heap.keyed(pairs, "MockRequest"@) == Some(state.objects.mock_request_type)
                && heap.keyed(pairs, "MockResponse"@) == Some(state.objects.mock_response_type),
        ),
    }
}

/// Whether the cookie module's stand-ins are the ones first met.
fn check_mocks(heap: &Heap, state: &CookieState) -> (check: Check)
    ensures
        check == mocks_pristine(*heap, state@),
{
    let pairs = match raw_instance_dict(heap, state.objects.module) {
        Ok(pairs) => pairs,
        Err(failure) => {
            return Err(failure);
        },
    };
    match (heap.find_keyed(pairs, "MockRequest"), heap.find_keyed(pairs, "MockResponse")) {
        (Some(request), Some(response)) => Ok(
            request == state.objects.mock_request_type && response
                == state.objects.mock_response_type,
        ),
        _ => Ok(false),
    }
}

/// Whether the walk over a jar is the one first met.
pub open spec fn iteration_pristine(heap: Heap, state: CookieView, jar: usize) -> bool {
    if heap.is_exactly(jar, state.objects.jar_type) {
        type_entries_are(heap, jar_iteration(state.objects))
    } else {
        type_entries_are(heap, std_iteration(state.objects))
    }
}

/// Whether a name space has exact texts as keys only.
pub open spec fn namespace_is_plain(heap: Heap, object: usize) -> Check {
    match namespace_pairs(heap, object) {
        Err(failure) => Err(failure),
        Ok(pairs) => Ok(has_text_keys(heap, pairs)),
    }
}

/// Whether a jar and a request can be bridged natively.
pub open spec fn bridge_pristine(
    heap: Heap,
    state: CookieView,
    jar: usize,
    request: usize,
    extracts: bool,
) -> Check {
    both(
        Ok(
            (heap.is_exactly(jar, state.objects.jar_type) || heap.is_exactly(
                jar,
                state.objects.std_jar_type,
            )) && heap.is_exactly(request, state.objects.prepared_type),
        ),
        both(
            jar_layout_pristine(heap, state, jar),
            both(
                Ok(
                    layout_pristine(
                        heap,
                        state,
                        class_at(heap, request),
                        state.prepared_mro,
                        request_fields(),
                    ),
                ),
                both(
                    functions_pristine(heap, state.objects, bridge_functions(extracts)),
                    both(
                        namespace_is_plain(heap, request),
                        both(
                            mocks_pristine(heap, state),
                            bridge_methods_pristine(heap, state, jar, extracts),
                        ),
                    ),
                ),
            ),
        ),
    )
}

/// Whether what a bridge operation calls on a jar is what was first met.
pub open spec fn bridge_methods_pristine(heap: Heap, state: CookieView, jar: usize, extracts: bool) -> Check {
    both(
        Ok(iteration_pristine(heap, state, jar)),
        both(
            lock_pristine(heap, state, jar),
            both(
                policy_pristine(heap, state, jar),
                both(
                    unshadowed(heap, jar, bridge_names(extracts)),
                    Ok(
                        type_entry_is(
                            heap,
                            state.objects.std_jar_type,
                            "add_cookie_header"@,
                            state.objects.std_add_cookie_header,
                        ) && (!extracts || type_entry_is(
                            heap,
                            state.objects.std_jar_type,
                            "extract_cookies"@,
                            state.objects.std_extract_cookies,
                        )),
                    ),
                ),
            ),
        ),
    )
}

/// Whether what a bridge operation calls on a jar is what was first met.
fn check_bridge_methods(heap: &Heap, state: &CookieState, jar: usize, extracts: bool) -> (check: Check)
    ensures
        check == bridge_methods_pristine(*heap, state@, jar, extracts),
{
    let iterates = if heap.exactly(jar, state.objects.jar_type) {
        jar_iteration_are_pristine(heap, &state.objects)
    } else {
        std_iteration_are_pristine(heap, &state.objects)
    };
    if !iterates {
        return Ok(false);
    }
    match exact_lock_is_pristine(heap, state, jar) {
        Ok(true) => {},
        other => {
            return other;
        },
    }
    match exact_default_policy_is_pristine(heap, state, jar) {
        Ok(true) => {},
        other => {
            return other;
        },
    }
    let names: Vec<&'static str> = if extracts {
        vec!["add_cookie_header", "extract_cookies"]
    } else {
        vec!["add_cookie_header"]
    };
    assert(names@ =~= bridge_names(extracts));
    match instance_methods_are_unshadowed(heap, jar, &names) {
        Ok(true) => {},
        other => {
            return other;
        },
    }
    Ok(
        check_type_entry(
            heap,
            state.objects.std_jar_type,
            "add_cookie_header",
            state.objects.std_add_cookie_header,
        ) && (!extracts || check_type_entry(
            heap,
            state.objects.std_jar_type,
            "extract_cookies",
            state.objects.std_extract_cookies,
        )),
    )
}

/// Whether a jar and a request can be bridged natively.
pub fn exact_bridge_is_pristine(
    heap: &Heap,
    state: &CookieState,
    jar: usize,
    request: usize,
    extracts: bool,
) -> (check: Check)
    ensures
        check == bridge_pristine(*heap, state@, jar, request, extracts),
{
    if !(heap.exactly(jar, state.objects.jar_type) || heap.exactly(
        jar,
        state.objects.std_jar_type,
    )) || !heap.exactly(request, state.objects.prepared_type) {
        return Ok(false);
    }
    match jar_layout_is_pristine(heap, state, jar) {
        Ok(true) => {},
        other => {
            return other;
        },
    }
    let fields: Vec<&'static str> = vec!["_cookies", "headers", "url", "method"];
    assert(fields@ =~= request_fields());
    let class = match heap.get(request) {
        Some(found) => found.class,
        None => 0,
    };
    if !type_layout_is_pristine(heap, state, class, &state.prepared_mro, &fields) {
        return Ok(false);
    }
    let functions: Vec<CookieFunction> = if extracts {
        vec![CookieFunction::GetCookieHeader, CookieFunction::ExtractCookiesToJar]
    } else {
        vec![CookieFunction::GetCookieHeader]
    };
    assert(functions@ =~= bridge_functions(extracts));
    match module_functions_are_pristine(heap, &state.objects, &functions) {
        Ok(true) => {},
        other => {
            return other;
        },
    }
    match raw_instance_dict(heap, request) {
        Ok(pairs) => if !keys_are_texts(heap, pairs) {
            return Ok(false);
        },
        Err(failure) => {
            return Err(failure);
        },
    }
    match check_mocks(heap, state) {
        Ok(true) => {},
        other => {
            return other;
        },
    }
    check_bridge_methods(heap, state, jar, extracts)
}

/// What is done with a request to bridge a jar.
#[derive(Clone, Copy, Debug, PartialEq, Eq, Structural)]
pub enum BridgePlan {
    /// Python's own code carries it out.
    Fallback,
    /// Cookies are first extracted from the response, where that is asked for;
    /// then the header is made and the jar's rows are read.
    Native { extracts: bool, globals: GlobalResolver },
}

/// Whether an operation is one of the two that bridge, and whether it extracts.
pub open spec fn bridge_named(operation: Seq<char>) -> Option<bool> {
    if operation == "header"@ {
        Some(false)
    } else if operation == "extract-header"@ {
        Some(true)
    } else {
        None
    }
}

/// What is done with a request to bridge a jar.
pub open spec fn bridge_plan(
    heap: Heap,
    state: CookieView,
    fallback: usize,
    jar: usize,
    request: usize,
    operation: Seq<char>,
) -> Result<BridgePlan, Failure> {
    match bridge_named(operation) {
        None => Ok(BridgePlan::Fallback),
        Some(extracts) => if !holds(bridge_pristine(heap, state, jar, request, extracts)) || !holds(
            jar_supported(heap, state, jar),
        ) {
            Ok(BridgePlan::Fallback)
        } else {
            match function_globals_of(heap, fallback) {
                Err(failure) => Err(failure),
                Ok(None) => Ok(BridgePlan::Fallback),
                Ok(Some(globals)) => Ok(BridgePlan::Native { extracts, globals }),
            }
        },
    }
}

/// What is done with a request to bridge a jar.
pub fn cookie_bridge_trial(
    heap: &Heap,
    state: &CookieState,
    fallback: usize,
    jar: usize,
    request: usize,
    operation: &str,
) -> (plan: Result<BridgePlan, Failure>)
    ensures
        plan == bridge_plan(*heap, state@, fallback, jar, request, operation@),
{
    let extracts = if same_text(operation, "header") {
        false
    } else if same_text(operation, "extract-header") {
        true
    } else {
        return Ok(BridgePlan::Fallback);
    };
    match exact_bridge_is_pristine(heap, state, jar, request, extracts) {
        Ok(true) => {},
        _ => {
            return Ok(BridgePlan::Fallback);
        },
    }
    match snapshot_shape_is_supported(heap, state, jar) {
        Ok(true) => {},
        _ => {
            return Ok(BridgePlan::Fallback);
        },
    }
    match exact_function_global_owner(heap, fallback) {
        Err(failure) => Err(failure),
        Ok(None) => Ok(BridgePlan::Fallback),
        Ok(Some(globals)) => Ok(BridgePlan::Native { extracts, globals }),
    }
}

/// The fields of a response that no class may shadow.
pub open spec fn response_fields() -> Seq<&'static str> {
    seq!["raw", "request"]
}

/// Whether the whole way of a response's cookies can be taken natively.
pub open spec fn pipeline_pristine(
    heap: Heap,
    state: CookieView,
    jar: usize,
    request: usize,
    response: usize,
) -> Check {
    both(
        bridge_pristine(heap, state, jar, request, true),
        both(
            jar_supported(heap, state, jar),
            both(
                Ok(
                    heap.is_exactly(response, state.objects.response_type) && layout_pristine(
                        heap,
                        state,
                        class_at(heap, response),
                        state.response_mro,
                        response_fields(),
                    ) && type_entry_is(
                        heap,
                        state.objects.prepared_type,
                        "prepare_cookies"@,
                        state.objects.prepared_cookies,
                    ),
                ),
                unshadowed(heap, request, seq!["prepare_cookies"]),
            ),
        ),
    )
}

/// Whether the whole way of a response's cookies can be taken natively.
pub fn pipeline_is_pristine(
    heap: &Heap,
    state: &CookieState,
    jar: usize,
    request: usize,
    response: usize,
) -> (check: Check)
    ensures
        check == pipeline_pristine(*heap, state@, jar, request, response),
{
    match exact_bridge_is_pristine(heap, state, jar, request, true) {
        Ok(true) => {},
        other => {
            return other;
        },
    }
    match snapshot_shape_is_supported(heap, state, jar) {
        Ok(true) => {},
        other => {
            return other;
        },
    }
    let fields: Vec<&'static str> = vec!["raw", "request"];
    assert(fields@ =~= response_fields());
    let class = match heap.get(response) {
        Some(found) => found.class,
        None => 0,
    };
    if !heap.exactly(response, state.objects.response_type) || !type_layout_is_pristine(
        heap,
        state,
        class,
        &state.response_mro,
        &fields,
    ) || !check_type_entry(
        heap,
        state.objects.prepared_type,
        "prepare_cookies",
        state.objects.prepared_cookies,
    ) {
        return Ok(false);
    }
    let names: Vec<&'static str> = vec!["prepare_cookies"];
    assert(names@ =~= seq!["prepare_cookies"]);
    instance_methods_are_unshadowed(heap, request, &names)
}

/// The globals of Python's own code, where the whole way is taken natively.
pub open spec fn pipeline_plan(
    heap: Heap,
    state: CookieView,
    fallback: usize,
    jar: usize,
    request: usize,
    response: usize,
) -> Result<Option<GlobalResolver>, Failure> {
    if holds(pipeline_pristine(heap, state, jar, request, response)) {
        function_globals_of(heap, fallback)
    } else {
        Ok(None)
    }
}

/// The globals of Python's own code, where the whole way is taken natively.
pub fn cookie_pipeline_trial(
    heap: &Heap,
    state: &CookieState,
    fallback: usize,
    jar: usize,
    request: usize,
    response: usize,
) -> (plan: Result<Option<GlobalResolver>, Failure>)
    ensures
        plan == pipeline_plan(*heap, state@, fallback, jar, request, response),
{
    match pipeline_is_pristine(heap, state, jar, request, response) {
        Ok(true) => exact_function_global_owner(heap, fallback),
        _ => Ok(None),
    }
}

/// Jars of foreign classes are always left to Python.
pub proof fn law_foreign_jars_fall_back(
    heap: Heap,
    state: CookieView,
    fallback: usize,
    jar: usize,
    request: usize,
    response: usize,
    operation: Seq<char>,
    arguments: usize,
)
    requires
        !heap.is_exactly(jar, state.objects.jar_type),
        !heap.is_exactly(jar, state.objects.std_jar_type),
    ensures
        jar_plan(heap, state, fallback, jar, operation, arguments) == Ok::<JarPlan, Failure>(
            JarPlan::Fallback,
        ),
        bridge_plan(heap, state, fallback, jar, request, operation) == Ok::<BridgePlan, Failure>(
            BridgePlan::Fallback,
        ),
        pipeline_plan(heap, state, fallback, jar, request, response) == Ok::<
            Option<GlobalResolver>,
            Failure,
        >(None),
{
}

/// An operation of a jar is carried out natively exactly where it is known, what
/// it leans on is unchanged, and the names of the fallback can be looked up.
pub proof fn law_jars_are_handled_natively(
    heap: Heap,
    state: CookieView,
    fallback: usize,
    jar: usize,
    name: Seq<char>,
    arguments: usize,
    operation: JarOperation,
    globals: GlobalResolver,
)
    ensures
        jar_plan(heap, state, fallback, jar, name, arguments) == Ok::<JarPlan, Failure>(
            JarPlan::Native { operation, globals },
        ) <==> {
            &&& operation_pristine(heap, state, jar, name, arguments) == Ok::<bool, Failure>(true)
            &&& operation_named(name) == Some(operation)
            &&& function_globals_of(heap, fallback) == Ok::<Option<GlobalResolver>, Failure>(
                Some(globals),
            )
        },
        operation_pristine(heap, state, jar, name, arguments) == Ok::<bool, Failure>(true) ==> {
            &&& heap.is_exactly(jar, state.objects.jar_type)
            &&& jar_layout_pristine(heap, state, jar) == Ok::<bool, Failure>(true)
            &&& jar_supported(heap, state, jar) == Ok::<bool, Failure>(true)
            &&& operation_named(name) is Some
        },
{
}

/// The operations of jars go by their own names.
pub proof fn law_names_of_operations(name: Seq<char>)
    ensures
        operation_named("inspect"@) == Some(JarOperation::Inspect),
        operation_named(name) == Some(JarOperation::Inspect) ==> name == "inspect"@,
        operation_named(name) == Some(JarOperation::Mutate) ==> name == "mutate"@,
        operation_named(name) == Some(JarOperation::BadCreate) ==> name == "bad-create"@,
        operation_named(name) == Some(JarOperation::Morsel) ==> name == "morsel"@,
        operation_named(name) == Some(JarOperation::CopyPickle) ==> name == "copy-pickle"@,
        operation_named(name) is None ==> name != "inspect"@ && name != "mutate"@ && name
            != "bad-create"@ && name != "morsel"@ && name != "copy-pickle"@,
        bridge_named(name) == Some(false) ==> name == "header"@,
        bridge_named(name) == Some(true) ==> name == "extract-header"@,
        bridge_named(name) is None ==> name != "header"@ && name != "extract-header"@,
{
}

/// Inspecting a jar leans on these, and takes rows of a name, a domain, a path and
/// a default.
pub proof fn law_what_inspecting_leans_on(
    heap: Heap,
    state: CookieView,
    jar: usize,
    arguments: usize,
)
    ensures
        inspect_pristine(heap, state, jar, arguments) == Ok::<bool, Failure>(true) <==> {
            &&& type_entries_are(heap, inspect_methods(state.objects))
            &&& unshadowed(heap, jar, inspect_names()) == Ok::<bool, Failure>(true)
            &&& deepvalues_pristine(heap, state.objects) == Ok::<bool, Failure>(true)
            &&& jar_supported(heap, state, jar) == Ok::<bool, Failure>(true)
            &&& exact_tuple_of(heap, arguments) matches Some(rows)
            &&& forall|index: int|
                0 <= index < rows.len() ==> is_lookup_row(heap, #[trigger] rows[index])
        },
{
}

/// Changing a jar leans on these, and takes a morsel, a cookie and a name.
pub proof fn law_what_changing_leans_on(heap: Heap, state: CookieView, jar: usize, arguments: usize)
    ensures
        mutate_pristine(heap, state, jar, arguments) == Ok::<bool, Failure>(true) ==> {
            &&& clock_pristine(heap, state.objects) == Ok::<bool, Failure>(true)
            &&& constructor_pristine(heap, state.objects) == Ok::<bool, Failure>(true)
            &&& type_entries_are(heap, mutate_methods(state.objects))
            &&& lock_pristine(heap, state, jar) == Ok::<bool, Failure>(true)
            &&& deepvalues_pristine(heap, state.objects) == Ok::<bool, Failure>(true)
            &&& jar_supported(heap, state, jar) == Ok::<bool, Failure>(true)
            &&& exact_tuple_of(heap, arguments) matches Some(elements)
            &&& elements.len() == 3
            &&& morsel_supported(heap, state, elements[0]) == Ok::<bool, Failure>(true)
            &&& snapshot_of(heap, state, elements[1]) is Ok
            &&& is_exact_text(heap, elements[2])
        },
{
    let functions = seq![
        CookieFunction::CreateCookie,
        CookieFunction::MorselToCookie,
        CookieFunction::RemoveCookieByName,
    ];
    assert(functions[1] == CookieFunction::MorselToCookie);
    assert(functions.contains(CookieFunction::MorselToCookie));
}

/// Making a cookie with wrong keywords, converting a morsel and copying a jar lean
/// on these.
pub proof fn law_what_making_leans_on(heap: Heap, state: CookieView, jar: usize, arguments: usize)
    ensures
        create_pristine(heap, state, jar, arguments) == Ok::<bool, Failure>(true) <==> {
            &&& conversion_pristine(heap, state.objects, seq![CookieFunction::CreateCookie])
                == Ok::<bool, Failure>(true)
            &&& jar_supported(heap, state, jar) == Ok::<bool, Failure>(true)
            &&& exact_tuple_of(heap, arguments) matches Some(elements)
            &&& elements.len() == 3
            &&& is_exact_text(heap, elements[0])
            &&& is_exact_text(heap, elements[1])
            &&& exact_dict_of(heap, elements[2]) matches Some(pairs)
            &&& create_arguments(heap, pairs) == Ok::<bool, Failure>(true)
        },
        morsel_pristine(heap, state, jar, arguments) == Ok::<bool, Failure>(true) ==> {
            &&& clock_pristine(heap, state.objects) == Ok::<bool, Failure>(true)
            &&& jar_supported(heap, state, jar) == Ok::<bool, Failure>(true)
            &&& exact_tuple_of(heap, arguments) matches Some(elements)
            &&& elements.len() == 1
            &&& morsel_supported(heap, state, elements[0]) == Ok::<bool, Failure>(true)
        },
        copy_pristine(heap, state, jar, arguments) == Ok::<bool, Failure>(true) <==> {
            &&& conversion_pristine(heap, state.objects, seq![CookieFunction::CreateCookie])
                == Ok::<bool, Failure>(true)
            &&& copy_pickle_pristine(heap, state.objects) == Ok::<bool, Failure>(true)
            &&& unshadowed(heap, jar, seq!["copy", "get_policy", "__getstate__"]) == Ok::<
                bool,
                Failure,
            >(true)
            &&& lock_pristine(heap, state, jar) == Ok::<bool, Failure>(true)
            &&& policy_pristine(heap, state, jar) == Ok::<bool, Failure>(true)
            &&& threading_pristine(heap, state.objects) == Ok::<bool, Failure>(true)
            &&& deepvalues_pristine(heap, state.objects) == Ok::<bool, Failure>(true)
            &&& jar_supported(heap, state, jar) == Ok::<bool, Failure>(true)
            &&& exact_tuple_of(heap, arguments) matches Some(elements)
            &&& elements.len() == 0
        },
{
    let functions = seq![CookieFunction::CreateCookie, CookieFunction::MorselToCookie];
    assert(functions[1] == CookieFunction::MorselToCookie);
    assert(functions.contains(CookieFunction::MorselToCookie));
}

/// A keyword of a cookie takes only values of its own kind.
pub proof fn law_keywords_take_their_own_kind(heap: Heap, value: usize)
    ensures
        create_value(heap, "version"@, value) <==> is_exact_int(heap, value),
        create_value(heap, "expires"@, value) ==> heap.is_none_value(value) || is_exact_int(
            heap,
            value,
        ),
        create_value(heap, "port"@, value) ==> heap.is_none_value(value) || is_exact_text(
            heap,
            value,
        ) || is_exact_int(heap, value),
        create_value(heap, "domain"@, value) ==> is_exact_text(heap, value),
        create_value(heap, "path"@, value) ==> is_exact_text(heap, value),
        create_value(heap, "secure"@, value) ==> heap.is_exactly(value, heap.intrinsics.boolean),
        create_value(heap, "discard"@, value) ==> heap.is_exactly(value, heap.intrinsics.boolean),
        create_value(heap, "rfc2109"@, value) ==> heap.is_exactly(value, heap.intrinsics.boolean),
        create_value(heap, "comment"@, value) ==> is_text_or_none(heap, value),
        create_value(heap, "comment_url"@, value) ==> is_text_or_none(heap, value),
        create_value(heap, "value"@, value) ==> is_text_or_none(heap, value),
        create_value(heap, "rest"@, value) ==> is_rest_shape(heap, value),
{
    reveal_strlit("version");
    reveal_strlit("expires");
    reveal_strlit("port");
    reveal_strlit("domain");
    reveal_strlit("path");
    reveal_strlit("secure");
    reveal_strlit("discard");
    reveal_strlit("rfc2109");
    reveal_strlit("comment");
    reveal_strlit("comment_url");
    reveal_strlit("value");
    reveal_strlit("rest");
    assert("version"@[0] == 'v' && "expires"@[0] == 'e' && "port"@[1] == 'o' && "path"@[1] == 'a');
    assert("version"@[1] == 'e' && "value"@[1] == 'a' && "rest"@[0] == 'r' && "rfc2109"@[1] == 'f');
    assert("domain"@[0] == 'd' && "domain"@[1] == 'o' && "discard"@[1] == 'i' && "secure"@[0]
        == 's');
    assert("port"@[0] == 'p' && "path"@[0] == 'p' && "comment"@[0] == 'c' && "comment_url"@[0]
        == 'c' && "value"@[0] == 'v' && "discard"@[0] == 'd' && "rfc2109"@[0] == 'r'
        && "rest"@[1] == 'e');
}

/// The arguments of a cookie are taken exactly where each key is a text and takes
/// its value.
pub proof fn law_arguments_are_taken_each(heap: Heap, pairs: Seq<Pair>)
    ensures
        create_arguments(heap, pairs) == Ok::<bool, Failure>(true) <==> forall|index: int|
            0 <= index < pairs.len() ==> is_taken(heap, #[trigger] pairs[index]),
    decreases pairs.len(),
{
    if pairs.len() > 0 {
        let rest = pairs.drop_first();
        law_arguments_are_taken_each(heap, rest);
        if forall|index: int| 0 <= index < pairs.len() ==> is_taken(heap, #[trigger] pairs[index]) {
            assert(is_taken(heap, pairs[0]));
            assert forall|index: int| 0 <= index < rest.len() implies is_taken(
                heap,
                #[trigger] rest[index],
            ) by {
                assert(rest[index] == pairs[index + 1]);
            }
        }
        if create_arguments(heap, pairs) == Ok::<bool, Failure>(true) {
            assert forall|index: int| 0 <= index < pairs.len() implies is_taken(
                heap,
                #[trigger] pairs[index],
            ) by {
                if index > 0 {
                    assert(rest[index - 1] == pairs[index]);
                }
            }
        }
    }
}

/// Whether an argument's key is a text that takes the argument's value.
pub open spec fn is_taken(heap: Heap, pair: Pair) -> bool {
    &&& is_exact_text(heap, pair.key)
    &&& heap.text_of(pair.key) matches Some(key)
    &&& create_value(heap, key, pair.value)
}

/// A jar's lock is one of the class that was first met, and its policy one of the
/// default class with plain settings alone.
pub proof fn law_locks_and_policies(heap: Heap, state: CookieView, jar: usize)
    ensures
        lock_pristine(heap, state, jar) == Ok::<bool, Failure>(true) <==> {
            &&& namespace_pairs(heap, jar) matches Ok(pairs)
            &&& has_text_keys(heap, pairs)
            &&& heap.keyed(pairs, "_cookies_lock"@) matches Some(lock)
            &&& heap.is_exactly(lock, state.rlock_type)
        },
        policy_pristine(heap, state, jar) == Ok::<bool, Failure>(true) <==> {
            &&& namespace_pairs(heap, jar) matches Ok(pairs)
            &&& has_text_keys(heap, pairs)
            &&& heap.keyed(pairs, "_policy"@) matches Some(policy)
            &&& heap.is_exactly(policy, state.objects.default_policy_type)
            &&& type_entry_is(
                heap,
                class_at(heap, policy),
                "__getattribute__"@,
                state.object_getattribute,
            )
            &&& namespace_pairs(heap, policy) matches Ok(settings)
            &&& has_text_keys(heap, settings)
            &&& forall|index: int|
                0 <= index < settings.len() ==> plain_setting(
                    heap,
                    (#[trigger] settings[index]).value,
                )
        },
{
}

/// The header of a request is made natively exactly where it is asked for by one of
/// the two names, what it leans on is unchanged, and the jar is supported.
pub proof fn law_headers_are_made_natively(
    heap: Heap,
    state: CookieView,
    fallback: usize,
    jar: usize,
    request: usize,
    name: Seq<char>,
    extracts: bool,
    globals: GlobalResolver,
)
    ensures
        bridge_plan(heap, state, fallback, jar, request, name) == Ok::<BridgePlan, Failure>(
            BridgePlan::Native { extracts, globals },
        ) <==> {
            &&& bridge_named(name) == Some(extracts)
            &&& bridge_pristine(heap, state, jar, request, extracts) == Ok::<bool, Failure>(true)
            &&& jar_supported(heap, state, jar) == Ok::<bool, Failure>(true)
            &&& function_globals_of(heap, fallback) == Ok::<Option<GlobalResolver>, Failure>(
                Some(globals),
            )
        },
        bridge_pristine(heap, state, jar, request, extracts) == Ok::<bool, Failure>(true) <==> {
            &&& heap.is_exactly(jar, state.objects.jar_type) || heap.is_exactly(
                jar,
                state.objects.std_jar_type,
            )
            &&& heap.is_exactly(request, state.objects.prepared_type)
            &&& jar_layout_pristine(heap, state, jar) == Ok::<bool, Failure>(true)
            &&& layout_pristine(
                heap,
                state,
                class_at(heap, request),
                state.prepared_mro,
                request_fields(),
            )
            &&& functions_pristine(heap, state.objects, bridge_functions(extracts)) == Ok::<
                bool,
                Failure,
            >(true)
            &&& namespace_is_plain(heap, request) == Ok::<bool, Failure>(true)
            &&& mocks_pristine(heap, state) == Ok::<bool, Failure>(true)
            &&& iteration_pristine(heap, state, jar)
            &&& lock_pristine(heap, state, jar) == Ok::<bool, Failure>(true)
            &&& policy_pristine(heap, state, jar) == Ok::<bool, Failure>(true)
            &&& unshadowed(heap, jar, bridge_names(extracts)) == Ok::<bool, Failure>(true)
            &&& type_entry_is(
                heap,
                state.objects.std_jar_type,
                "add_cookie_header"@,
                state.objects.std_add_cookie_header,
            )
            &&& extracts ==> type_entry_is(
                heap,
                state.objects.std_jar_type,
                "extract_cookies"@,
                state.objects.std_extract_cookies,
            )
        },
        bridge_functions(extracts).contains(CookieFunction::GetCookieHeader),
        bridge_functions(extracts).contains(CookieFunction::ExtractCookiesToJar) <==> extracts,
{
    let functions = bridge_functions(extracts);
    assert(functions[0] == CookieFunction::GetCookieHeader);
    if extracts {
        assert(functions[1] == CookieFunction::ExtractCookiesToJar);
    }
}

/// Cookies go through the pipeline natively exactly where the header is made
/// natively with an extraction, the response is one of the class that was first
/// met, and the request prepares its cookies plainly.
pub proof fn law_pipelines_are_native(
    heap: Heap,
    state: CookieView,
    fallback: usize,
    jar: usize,
    request: usize,
    response: usize,
)
    ensures
        pipeline_plan(heap, state, fallback, jar, request, response) matches Ok(Some(globals))
            ==> function_globals_of(heap, fallback) == Ok::<Option<GlobalResolver>, Failure>(
            Some(globals),
        ) && pipeline_pristine(heap, state, jar, request, response) == Ok::<bool, Failure>(true),
        pipeline_pristine(heap, state, jar, request, response) == Ok::<bool, Failure>(true) <==> {
            &&& bridge_pristine(heap, state, jar, request, true) == Ok::<bool, Failure>(true)
            &&& jar_supported(heap, state, jar) == Ok::<bool, Failure>(true)
            &&& heap.is_exactly(response, state.objects.response_type)
            &&& layout_pristine(
                heap,
                state,
                class_at(heap, response),
                state.response_mro,
                response_fields(),
            )
            &&& type_entry_is(
                heap,
                state.objects.prepared_type,
                "prepare_cookies"@,
                state.objects.prepared_cookies,
            )
            &&& unshadowed(heap, request, seq!["prepare_cookies"]) == Ok::<bool, Failure>(true)
        },
{
}

} // verus!
