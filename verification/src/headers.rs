//! Whether a request's headers are prepared natively, which rows go to the
//! native core, and what is then set on the request.

use vstd::prelude::*;
use vstd::string::StringExecFns;

use crate::canonical::canonical_function_is;
use crate::heap::{Check, Failure, Heap, Pair};
use crate::heap::both;
use crate::known::{flags_of_type, text_attribute_equals};
use crate::known::{text_attribute, type_flags};
use crate::model_state::{
    authoritative_field_is_none, raw_module_entry_is, raw_type_entry_is,
    trusted_bound_method_with_callable, Anchor, ModelsState, Trust};
use crate::model_state::{entry_is, field_is_none, is_trusted_method, type_entry_is};
use crate::prepare::{is_ascii_bytes, trusted_native_string_dependencies};
use crate::prepare::{ascii_bytes, native_string_is_trusted, still_trusted};
use crate::text::same_text;

verus! {

/// Whether a class is the interpreter's own `OrderedDict`, not one written in
/// Python.
pub open spec fn is_ordered_dict_type(heap: Heap, class: usize) -> bool {
    &&& heap.is_exactly(class, heap.intrinsics.type_type)
    &&& type_flags(heap, class) matches Some(flags) && flags & 0x200 == 0 && flags & 0x100 != 0
    &&& text_attribute(heap, class, "__module__"@) == Some("collections"@)
    &&& text_attribute(heap, class, "__qualname__"@) == Some("OrderedDict"@)
    &&& heap.attribute_of(class, "__bases__"@) matches Some(bases) && heap.tuple_of(bases) == Some(
        seq![heap.intrinsics.dict],
    )
}

/// Whether an object is exactly an ordered dict of the interpreter.
pub open spec fn is_ordered_dict(heap: Heap, value: usize) -> bool {
    heap.at(value) matches Some(found) && is_ordered_dict_type(heap, found.class)
}

/// Whether an object is exactly an ordered dict of the interpreter.
pub fn is_trusted_ordered_dict(heap: &Heap, value: usize) -> (yes: bool)
    ensures
        yes == is_ordered_dict(*heap, value),
{
    let class: usize = match heap.get(value) {
        Some(found) => found.class,
        None => {
            return false;
        },
    };
    if !heap.exactly(class, heap.intrinsics.type_type) {
        return false;
    }
    match flags_of_type(heap, class) {
        Some(flags) => {
            if flags & 0x200 != 0 || flags & 0x100 == 0 {
                return false;
            }
        },
        None => {
            return false;
        },
    }
    if !text_attribute_equals(heap, class, "__module__", "collections") || !text_attribute_equals(
        heap,
        class,
        "__qualname__",
        "OrderedDict",
    ) {
        return false;
    }
    match heap.attribute(class, "__bases__") {
        Some(bases) => match heap.tuple(bases) {
            Some(elements) => {
                let only = elements.len() == 1 && elements[0] == heap.intrinsics.dict;
                proof {
                    let expected = seq![heap.intrinsics.dict];
                    if only {
                        assert(elements@ =~= expected);
                    } else if elements@ == expected {
                        assert(elements@[0] == expected[0]);
                    }
                }
                only
            },
            None => false,
        },
        None => false,
    }
}

/// Whether headers may go to the native core: none, a dict of no subclass, or
/// an ordered dict whose `items` is not replaced on the instance.
pub open spec fn is_header_candidate(heap: Heap, headers: usize) -> Check {
    if heap.is_none_value(headers) || heap.is_exactly(headers, heap.intrinsics.dict) {
        Ok(true)
    } else if !is_ordered_dict(heap, headers) {
        Ok(false)
    } else {
        match heap.attribute_of(headers, "__dict__"@) {
            None => Err(Failure::Attribute),
            Some(own) => if heap.dict_of(own) is None {
                Err(Failure::Kind)
            } else {
                Ok(heap.entry_of(own, "items"@) is None)
            },
        }
    }
}

/// Whether headers may go to the native core.
pub fn is_exact_header_candidate(heap: &Heap, headers: usize) -> (check: Check)
    ensures
        check == is_header_candidate(*heap, headers),
{
    if heap.none_value(headers) || heap.exactly(headers, heap.intrinsics.dict) {
        return Ok(true);
    }
    if !is_trusted_ordered_dict(heap, headers) {
        return Ok(false);
    }
    match heap.attribute(headers, "__dict__") {
        None => Err(Failure::Attribute),
        Some(own) => if heap.dict(own).is_none() {
            Err(Failure::Kind)
        } else {
            Ok(heap.entry(own, "items").is_none())
        },
    }
}

/// Whether the type that holds headers is still built as it was defined.
pub open spec fn header_constructor_is_trusted(heap: Heap, state: ModelsState) -> Check {
    let class = state.remembered(Anchor::CaseInsensitiveDict);
    both(
        Ok(
            entry_is(heap, state.remembered(Anchor::Models), "CaseInsensitiveDict"@, class)
                && heap.type_entry_of(class, "_store"@) is None && entry_is(
                heap,
                state.remembered(Anchor::Structures),
                "OrderedDict"@,
                state.remembered(Anchor::OrderedDict),
            ) && type_entry_is(heap, class, "__init__"@, state.remembered(Anchor::DictInit))
                && type_entry_is(heap, class, "__new__"@, state.remembered(Anchor::DictNew))
                && type_entry_is(
                heap,
                class,
                "__getattribute__"@,
                state.remembered(Anchor::DictGetAttribute),
            ) && type_entry_is(heap, class, "__setattr__"@, state.remembered(Anchor::DictSetAttr))
                && type_entry_is(heap, class, "update"@, state.remembered(Anchor::DictUpdate)),
        ),
        both(
            still_trusted(heap, state, Trust::DictInit),
            still_trusted(heap, state, Trust::DictUpdate),
        ),
    )
}

/// Whether a trusted function still is trusted.
fn check_trust(heap: &Heap, state: &ModelsState, trust: Trust) -> (check: Check)
    requires
        state.well_formed(),
    ensures
        check == still_trusted(*heap, *state, trust),
{
    canonical_function_is(heap, state.anchor(trust.object()), state.trust(trust))
}

/// Whether the type that holds headers is still built as it was defined.
pub fn trusted_header_constructor_dependencies(heap: &Heap, state: &ModelsState) -> (check: Check)
    requires
        state.well_formed(),
    ensures
        check == header_constructor_is_trusted(*heap, *state),
{
    let class = state.anchor(Anchor::CaseInsensitiveDict);
    if !raw_module_entry_is(heap, state.anchor(Anchor::Models), "CaseInsensitiveDict", class)
        || heap.raw_type_entry(class, "_store").is_some() || !raw_module_entry_is(
        heap,
        state.anchor(Anchor::Structures),
        "OrderedDict",
        state.anchor(Anchor::OrderedDict),
    ) || !raw_type_entry_is(heap, class, "__init__", state.anchor(Anchor::DictInit))
        || !raw_type_entry_is(heap, class, "__new__", state.anchor(Anchor::DictNew))
        || !raw_type_entry_is(
        heap,
        class,
        "__getattribute__",
        state.anchor(Anchor::DictGetAttribute),
    ) || !raw_type_entry_is(heap, class, "__setattr__", state.anchor(Anchor::DictSetAttr))
        || !raw_type_entry_is(heap, class, "update", state.anchor(Anchor::DictUpdate)) {
        return Ok(false);
    }
    match check_trust(heap, state, Trust::DictInit) {
        Ok(true) => check_trust(heap, state, Trust::DictUpdate),
        other => other,
    }
}

/// Whether a header would still be checked as the modules define it.
pub open spec fn header_validation_is_trusted(heap: Heap, state: ModelsState) -> Check {
    let utils = state.remembered(Anchor::Utils);
    both(
        Ok(
            entry_is(
                heap,
                state.remembered(Anchor::Models),
                "check_header_validity"@,
                state.remembered(Anchor::CheckHeaderValidity),
            ) && entry_is(
                heap,
                utils,
                "_validate_header_part"@,
                state.remembered(Anchor::ValidateHeaderPart),
            ) && entry_is(
                heap,
                utils,
                "_HEADER_VALIDATORS_STR"@,
                state.remembered(Anchor::HeaderValidatorsStr),
            ) && entry_is(
                heap,
                utils,
                "_HEADER_VALIDATORS_BYTE"@,
                state.remembered(Anchor::HeaderValidatorsByte),
            ) && entry_is(heap, utils, "str"@, heap.intrinsics.text) && entry_is(
                heap,
                utils,
                "bytes"@,
                heap.intrinsics.bytes,
            ),
        ),
        both(
            still_trusted(heap, state, Trust::CheckHeaderValidity),
            still_trusted(heap, state, Trust::ValidateHeaderPart),
        ),
    )
}

/// Whether a header would still be checked as the modules define it.
pub fn trusted_header_validation_dependencies(heap: &Heap, state: &ModelsState) -> (check: Check)
    requires
        state.well_formed(),
    ensures
        check == header_validation_is_trusted(*heap, *state),
{
    let utils = state.anchor(Anchor::Utils);
    if !raw_module_entry_is(
        heap,
        state.anchor(Anchor::Models),
        "check_header_validity",
        state.anchor(Anchor::CheckHeaderValidity),
    ) || !raw_module_entry_is(
        heap,
        utils,
        "_validate_header_part",
        state.anchor(Anchor::ValidateHeaderPart),
    ) || !raw_module_entry_is(
        heap,
        utils,
        "_HEADER_VALIDATORS_STR",
        state.anchor(Anchor::HeaderValidatorsStr),
    ) || !raw_module_entry_is(
        heap,
        utils,
        "_HEADER_VALIDATORS_BYTE",
        state.anchor(Anchor::HeaderValidatorsByte),
    ) || !raw_module_entry_is(heap, utils, "str", heap.intrinsics.text) || !raw_module_entry_is(
        heap,
        utils,
        "bytes",
        heap.intrinsics.bytes,
    ) {
        return Ok(false);
    }
    match check_trust(heap, state, Trust::CheckHeaderValidity) {
        Ok(true) => check_trust(heap, state, Trust::ValidateHeaderPart),
        other => other,
    }
}

/// Whether a header would still be stored as the modules define it.
pub open spec fn header_storage_is_trusted(heap: Heap, state: ModelsState) -> Check {
    both(
        native_string_is_trusted(heap, state),
        both(
            Ok(
                type_entry_is(
                    heap,
                    state.remembered(Anchor::CaseInsensitiveDict),
                    "__setitem__"@,
                    state.remembered(Anchor::DictSetItem),
                ),
            ),
            still_trusted(heap, state, Trust::DictSetItem),
        ),
    )
}

/// Whether a header would still be stored as the modules define it.
pub fn trusted_header_materialization_dependencies(heap: &Heap, state: &ModelsState) -> (check: Check)
    requires
        state.well_formed(),
    ensures
        check == header_storage_is_trusted(*heap, *state),
{
    match trusted_native_string_dependencies(heap, state) {
        Ok(true) => {},
        other => {
            return other;
        },
    }
    if !raw_type_entry_is(
        heap,
        state.anchor(Anchor::CaseInsensitiveDict),
        "__setitem__",
        state.anchor(Anchor::DictSetItem),
    ) {
        return Ok(false);
    }
    check_trust(heap, state, Trust::DictSetItem)
}

/// A header's name or value for the native core.
pub enum HeaderPart {
    Text(String),
    Bytes(Vec<u8>),
}

/// A header for the native core.
pub struct HeaderInput {
    pub name: HeaderPart,
    pub value: HeaderPart,
}

/// The Python objects behind a header.
#[derive(Clone, Copy, Debug, PartialEq, Eq, Structural)]
pub struct HeaderRow {
    pub name: usize,
    pub value: usize,
    pub name_was_bytes: bool,
}

/// Whether an object can be a native header name: a text or byte string of no
/// subclass and of ASCII characters.
pub open spec fn is_native_name(heap: Heap, name: usize) -> bool {
    if heap.is_exactly(name, heap.intrinsics.text) {
        heap.text_of(name) matches Some(text) && vstd::utf8::is_ascii_chars(text)
    } else if heap.is_exactly(name, heap.intrinsics.bytes) {
        heap.bytes_of(name) matches Some(bytes) && ascii_bytes(bytes)
    } else {
        false
    }
}

/// Whether an object can be a native header value: a text of ASCII characters
/// or any byte string, of no subclass.
pub open spec fn is_native_value(heap: Heap, value: usize) -> bool {
    if heap.is_exactly(value, heap.intrinsics.text) {
        heap.text_of(value) matches Some(text) && vstd::utf8::is_ascii_chars(text)
    } else {
        heap.is_exactly(value, heap.intrinsics.bytes) && heap.bytes_of(value) is Some
    }
}

/// Whether a part holds what an object holds, in the same kind.
pub open spec fn part_holds(heap: Heap, part: HeaderPart, object: usize) -> bool {
    match part {
        HeaderPart::Text(text) => heap.exact_text_of(object) == Some(text@),
        HeaderPart::Bytes(bytes) => heap.is_exactly(object, heap.intrinsics.bytes) && heap.bytes_of(
            object,
        ) == Some(bytes@),
    }
}

/// Whether an object can be a native header name.
pub fn exact_header_name_is_native(heap: &Heap, name: usize) -> (yes: bool)
    ensures
        yes == is_native_name(*heap, name),
{
    if heap.exactly(name, heap.intrinsics.text) {
        match heap.text(name) {
            Some(text) => text.as_str().is_ascii(),
            None => false,
        }
    } else if heap.exactly(name, heap.intrinsics.bytes) {
        match heap.bytes(name) {
            Some(bytes) => is_ascii_bytes(bytes),
            None => false,
        }
    } else {
        false
    }
}

/// Takes over a header's name or value.
fn copy_part(heap: &Heap, object: usize) -> (part: Option<HeaderPart>)
    ensures
        match part {
            Some(part) => part_holds(*heap, part, object),
            None => heap.exact_text_of(object) is None && !(heap.is_exactly(
                object,
                heap.intrinsics.bytes,
            ) && heap.bytes_of(object) is Some),
        },
{
    if heap.exactly(object, heap.intrinsics.text) {
        match heap.text(object) {
            Some(text) => {
                return Some(HeaderPart::Text(text.clone()));
            },
            None => {},
        }
    }
    if heap.exactly(object, heap.intrinsics.bytes) {
        match heap.bytes(object) {
            Some(bytes) => {
                let copied = bytes.clone();
                assert(copied@ =~= bytes@);
                return Some(HeaderPart::Bytes(copied));
            },
            None => {},
        }
    }
    None
}

/// Whether an object can be a native header value.
fn exact_header_value_is_native(heap: &Heap, value: usize) -> (yes: bool)
    ensures
        yes == is_native_value(*heap, value),
{
    if heap.exactly(value, heap.intrinsics.text) {
        match heap.text(value) {
            Some(text) => text.as_str().is_ascii(),
            None => false,
        }
    } else {
        heap.exactly(value, heap.intrinsics.bytes) && heap.bytes(value).is_some()
    }
}

/// The rows of a list of headers.
pub open spec fn rows_of(heap: Heap, pairs: Seq<Pair>) -> Seq<HeaderRow> {
    pairs.map_values(
        |pair: Pair|
            HeaderRow {
                name: pair.key,
                value: pair.value,
                name_was_bytes: !heap.is_exactly(pair.key, heap.intrinsics.text),
            },
    )
}

/// Whether every header can go to the native core.
pub open spec fn all_native(heap: Heap, pairs: Seq<Pair>) -> bool {
    forall|index: int|
        0 <= index < pairs.len() ==> is_native_name(heap, (#[trigger] pairs[index]).key)
            && is_native_value(heap, pairs[index].value)
}

/// Whether inputs for the native core hold what a list of headers holds.
pub open spec fn inputs_hold(heap: Heap, inputs: Seq<HeaderInput>, pairs: Seq<Pair>) -> bool {
    inputs.len() == pairs.len() && forall|index: int|
        0 <= index < pairs.len() ==> part_holds(
            heap,
            (#[trigger] inputs[index]).name,
            pairs[index].key,
        ) && part_holds(heap, inputs[index].value, pairs[index].value)
}

/// The headers to prepare, with the objects they come from.
pub struct HeaderRows {
    pub inputs: Vec<HeaderInput>,
    pub rows: Vec<HeaderRow>,
}

/// Takes over a list of headers, where every one can go to the native core.
fn push_exact_headers(heap: &Heap, pairs: &Vec<Pair>) -> (taken: Option<HeaderRows>)
    ensures
        taken is Some == all_native(*heap, pairs@),
        taken matches Some(taken) ==> taken.rows@ == rows_of(*heap, pairs@) && inputs_hold(
            *heap,
            taken.inputs@,
            pairs@,
        ),
{
    let mut inputs: Vec<HeaderInput> = Vec::new();
    let mut rows: Vec<HeaderRow> = Vec::new();
    let mut index: usize = 0;
    assert(rows@ =~= rows_of(*heap, pairs@.take(0)));
    while index < pairs.len()
        invariant
            index <= pairs@.len(),
            all_native(*heap, pairs@.take(index as int)),
            rows@ == rows_of(*heap, pairs@.take(index as int)),
            inputs_hold(*heap, inputs@, pairs@.take(index as int)),
        decreases pairs@.len() - index,
    {
        let pair = pairs[index];
        if !exact_header_name_is_native(heap, pair.key) || !exact_header_value_is_native(
            heap,
            pair.value,
        ) {
            assert(!(is_native_name(*heap, pairs@[index as int].key) && is_native_value(
                *heap,
                pairs@[index as int].value,
            )));
            return None;
        }
        match (copy_part(heap, pair.key), copy_part(heap, pair.value)) {
            (Some(name), Some(value)) => {
                inputs.push(HeaderInput { name, value });
            },
            _ => {
                assert(false);
                return None;
            },
        }
        rows.push(
            HeaderRow {
                name: pair.key,
                value: pair.value,
                name_was_bytes: !heap.exactly(pair.key, heap.intrinsics.text),
            },
        );
        let ghost before = pairs@.take(index as int);
        index = index + 1;
        proof {
            let after = pairs@.take(index as int);
            assert(after =~= before.push(pair));
            assert(rows@ =~= rows_of(*heap, after));
            assert forall|i: int| 0 <= i < after.len() implies is_native_name(
                *heap,
                (#[trigger] after[i]).key,
            ) && is_native_value(*heap, after[i].value) by {
                if i < before.len() {
                    assert(after[i] == before[i]);
                }
            }
            assert forall|i: int| 0 <= i < after.len() implies part_holds(
                *heap,
                (#[trigger] inputs@[i]).name,
                after[i].key,
            ) && part_holds(*heap, inputs@[i].value, after[i].value) by {
                if i < before.len() {
                    assert(after[i] == before[i]);
                }
            }
        }
    }
    assert(pairs@.take(index as int) =~= pairs@);
    Some(HeaderRows { inputs, rows })
}

/// The entries of header candidates.
pub open spec fn header_pairs(heap: Heap, headers: usize) -> Seq<Pair> {
    if heap.is_none_value(headers) {
        Seq::empty()
    } else {
        match heap.pairs_of(headers) {
            Some(pairs) => pairs,
            None => Seq::empty(),
        }
    }
}

/// Takes over header candidates, where every header can go to the native core.
pub fn exact_header_rows(heap: &Heap, headers: usize) -> (taken: Option<HeaderRows>)
    ensures
        taken is Some == all_native(*heap, header_pairs(*heap, headers)),
        taken matches Some(taken) ==> taken.rows@ == rows_of(*heap, header_pairs(*heap, headers))
            && inputs_hold(*heap, taken.inputs@, header_pairs(*heap, headers)),
{
    let empty: Vec<Pair> = Vec::new();
    if heap.none_value(headers) {
        return push_exact_headers(heap, &empty);
    }
    match heap.pairs(headers) {
        Some(pairs) => push_exact_headers(heap, pairs),
        None => push_exact_headers(heap, &empty),
    }
}

/// Whether the headers of a request are prepared natively.
pub open spec fn headers_go_native(
    heap: Heap,
    state: ModelsState,
    subject: usize,
    callable: usize,
    headers: usize,
) -> Check {
    both(
        is_trusted_method(
            heap,
            state,
            subject,
            "prepare_headers"@,
            callable,
            state.remembered(Anchor::PrepareHeaders),
            state.trusted(Trust::PrepareHeaders),
        ),
        both(
            field_is_none(heap, subject, "headers"@),
            both(
                is_header_candidate(heap, headers),
                both(
                    header_constructor_is_trusted(heap, state),
                    both(
                        if header_pairs(heap, headers).len() > 0 {
                            both(
                                header_validation_is_trusted(heap, state),
                                header_storage_is_trusted(heap, state),
                            )
                        } else {
                            Ok(true)
                        },
                        Ok(all_native(heap, header_pairs(heap, headers))),
                    ),
                ),
            ),
        ),
    )
}

/// Decides whether the headers of a request are prepared natively, and takes
/// them over if so. Without a state, or where anything is not as the modules
/// define it, they stay in Python.
pub fn prepare_headers_trial(
    heap: &Heap,
    state: Option<&ModelsState>,
    subject: usize,
    callable: usize,
    headers: usize,
) -> (taken: Result<Option<HeaderRows>, Failure>)
    requires
        state matches Some(state) ==> state.well_formed(),
    ensures
        match state {
            None => taken matches Ok(None),
            Some(state) => match taken {
                Ok(None) => headers_go_native(*heap, *state, subject, callable, headers) == Ok::<
                    bool,
                    Failure,
                >(false),
                Ok(Some(taken)) => {
                    &&& headers_go_native(*heap, *state, subject, callable, headers) == Ok::<
                        bool,
                        Failure,
                    >(true)
                    &&& taken.rows@ == rows_of(*heap, header_pairs(*heap, headers))
                    &&& inputs_hold(*heap, taken.inputs@, header_pairs(*heap, headers))
                },
                Err(failure) => headers_go_native(*heap, *state, subject, callable, headers)
                    == Err::<bool, Failure>(failure),
            },
        },
{
    let state = match state {
        Some(state) => state,
        None => {
            return Ok(None);
        },
    };
    match trusted_bound_method_with_callable(
        heap,
        state,
        subject,
        "prepare_headers",
        callable,
        state.anchor(Anchor::PrepareHeaders),
        state.trust(Trust::PrepareHeaders),
    ) {
        Err(failure) => {
            return Err(failure);
        },
        Ok(false) => {
            return Ok(None);
        },
        Ok(true) => {},
    }
    match authoritative_field_is_none(heap, subject, "headers") {
        Err(failure) => {
            return Err(failure);
        },
        Ok(false) => {
            return Ok(None);
        },
        Ok(true) => {},
    }
    match is_exact_header_candidate(heap, headers) {
        Err(failure) => {
            return Err(failure);
        },
        Ok(false) => {
            return Ok(None);
        },
        Ok(true) => {},
    }
    match trusted_header_constructor_dependencies(heap, state) {
        Err(failure) => {
            return Err(failure);
        },
        Ok(false) => {
            return Ok(None);
        },
        Ok(true) => {},
    }
    let has_rows = if heap.none_value(headers) {
        false
    } else {
        match heap.pairs(headers) {
            Some(pairs) => pairs.len() > 0,
            None => false,
        }
    };
    if has_rows {
        match trusted_header_validation_dependencies(heap, state) {
            Err(failure) => {
                return Err(failure);
            },
            Ok(false) => {
                return Ok(None);
            },
            Ok(true) => {},
        }
        match trusted_header_materialization_dependencies(heap, state) {
            Err(failure) => {
                return Err(failure);
            },
            Ok(false) => {
                return Ok(None);
            },
            Ok(true) => {},
        }
    }
    Ok(exact_header_rows(heap, headers))
}

/// Whether a native error on a header may be raised: the exception is still
/// the one that Python would raise.
pub fn header_error_is_trusted(heap: &Heap, state: &ModelsState) -> (yes: bool)
    requires
        state.well_formed(),
    ensures
        yes == entry_is(
            *heap,
            state.remembered(Anchor::Utils),
            "InvalidHeader"@,
            state.remembered(Anchor::InvalidHeader),
        ),
{
    raw_module_entry_is(
        heap,
        state.anchor(Anchor::Utils),
        "InvalidHeader",
        state.anchor(Anchor::InvalidHeader),
    )
}

/// A header that the native core prepared.
pub struct PreparedHeader {
    /// The row that the header comes from.
    pub source_index: usize,
    /// The header's name as text.
    pub name: String,
}

/// The key under which a prepared header is stored.
pub enum HeaderKey {
    /// The object that was given.
    Given(usize),
    /// The prepared name, where a byte string was given.
    Prepared(String),
}

/// One assignment to a request's headers.
pub struct HeaderAssignment {
    pub key: HeaderKey,
    pub value: usize,
}

/// Whether an assignment stores a prepared header: under the name that was
/// given, or, where that was a byte string, under the prepared name; always
/// with the value that was given.
pub open spec fn stores(
    assignment: HeaderAssignment,
    rows: Seq<HeaderRow>,
    header: PreparedHeader,
) -> bool {
    let row = rows[header.source_index as int];
    &&& assignment.value == row.value
    &&& match assignment.key {
        HeaderKey::Given(name) => !row.name_was_bytes && name == row.name,
        HeaderKey::Prepared(name) => row.name_was_bytes && name@ == header.name@,
    }
}

/// The assignments that store the prepared headers, in order.
pub fn materialize_headers(rows: &Vec<HeaderRow>, prepared: &Vec<PreparedHeader>) -> (assignments:
    Vec<HeaderAssignment>)
    requires
        forall|index: int|
            0 <= index < prepared@.len() ==> (#[trigger] prepared@[index]).source_index
                < rows@.len(),
    ensures
        assignments@.len() == prepared@.len(),
        forall|index: int|
            0 <= index < prepared@.len() ==> stores(
                #[trigger] assignments@[index],
                rows@,
                prepared@[index],
            ),
{
    let mut assignments: Vec<HeaderAssignment> = Vec::new();
    let mut index: usize = 0;
    while index < prepared.len()
        invariant
            index <= prepared@.len(),
            assignments@.len() == index,
            forall|i: int|
                0 <= i < prepared@.len() ==> (#[trigger] prepared@[i]).source_index < rows@.len(),
            forall|i: int|
                0 <= i < index ==> stores(#[trigger] assignments@[i], rows@, prepared@[i]),
        decreases prepared@.len() - index,
    {
        let header = &prepared[index];
        let row = rows[header.source_index];
        let key = if row.name_was_bytes {
            HeaderKey::Prepared(header.name.clone())
        } else {
            HeaderKey::Given(row.name)
        };
        assignments.push(HeaderAssignment { key, value: row.value });
        index = index + 1;
    }
    assignments
}

/// The part of a header that the native core refused.
#[derive(Clone, Copy, Debug, PartialEq, Eq, Structural)]
pub enum InvalidHeaderPart {
    Name,
    Value,
}

/// The object whose representation stands in the error on a header.
pub fn refused_object(rows: &Vec<HeaderRow>, source_index: usize, part: InvalidHeaderPart) -> (object:
    usize)
    requires
        source_index < rows@.len(),
    ensures
        object == (match part {
            InvalidHeaderPart::Name => rows@[source_index as int].name,
            InvalidHeaderPart::Value => rows@[source_index as int].value,
        }),
{
    match part {
        InvalidHeaderPart::Name => rows[source_index].name,
        InvalidHeaderPart::Value => rows[source_index].value,
    }
}

/// The message of the error on a header.
pub open spec fn header_error_text(part: InvalidHeaderPart, repr: Seq<char>) -> Seq<char> {
    "Invalid leading whitespace, reserved character(s), or return character(s) in header "@ + (
    match part {
        InvalidHeaderPart::Name => "name"@,
        InvalidHeaderPart::Value => "value"@,
    }) + ": "@ + repr
}

/// The message of the error on a header, with the refused object's
/// representation.
pub fn header_preparation_error(part: InvalidHeaderPart, repr: &str) -> (message: String)
    ensures
        message@ == header_error_text(part, repr@),
{
    let mut message = String::from_str(
        "Invalid leading whitespace, reserved character(s), or return character(s) in header ",
    );
    match part {
        InvalidHeaderPart::Name => {
            message.append("name");
        },
        InvalidHeaderPart::Value => {
            message.append("value");
        },
    }
    message.append(": ");
    message.append(repr);
    message
}

/// A step of request preparation that can be asked for by name.
#[derive(Clone, Copy, Debug, PartialEq, Eq, Structural)]
pub enum ModelOperation {
    PrepareMethod,
    PrepareUrl,
    PrepareHeaders,
    PrepareBody,
    PrepareContentLength,
}

/// The step of a name and a number of arguments, if there is one.
pub open spec fn operation_named(name: Seq<char>, arguments: nat) -> Option<ModelOperation> {
    if name == "prepare_method"@ && arguments == 1 {
        Some(ModelOperation::PrepareMethod)
    } else if name == "prepare_url"@ && arguments == 2 {
        Some(ModelOperation::PrepareUrl)
    } else if name == "prepare_headers"@ && arguments == 1 {
        Some(ModelOperation::PrepareHeaders)
    } else if name == "prepare_body"@ && arguments == 3 {
        Some(ModelOperation::PrepareBody)
    } else if name == "prepare_content_length"@ && arguments == 1 {
        Some(ModelOperation::PrepareContentLength)
    } else {
        None
    }
}

/// The step of a name and a number of arguments, if there is one.
pub fn model_facade_operation(name: &str, arguments: usize) -> (operation: Option<ModelOperation>)
    ensures
        operation == operation_named(name@, arguments as nat),
{
    if same_text(name, "prepare_method") && arguments == 1 {
        Some(ModelOperation::PrepareMethod)
    } else if same_text(name, "prepare_url") && arguments == 2 {
        Some(ModelOperation::PrepareUrl)
    } else if same_text(name, "prepare_headers") && arguments == 1 {
        Some(ModelOperation::PrepareHeaders)
    } else if same_text(name, "prepare_body") && arguments == 3 {
        Some(ModelOperation::PrepareBody)
    } else if same_text(name, "prepare_content_length") && arguments == 1 {
        Some(ModelOperation::PrepareContentLength)
    } else {
        None
    }
}

/// Headers are prepared natively exactly where the way to prepare them is the one
/// first met, the request has none yet, they are of a kind that is read without
/// running foreign code, the dict that they go into is the one first met, and
/// each name and value is one that the native code takes. Validation and storage
/// matter only where there is a header.
pub proof fn law_headers_go_native_where_nothing_changed(
    heap: Heap,
    state: ModelsState,
    subject: usize,
    callable: usize,
    headers: usize,
)
    ensures
        headers_go_native(heap, state, subject, callable, headers) == Ok::<bool, Failure>(true)
            <==> {
            &&& is_trusted_method(
                heap,
                state,
                subject,
                "prepare_headers"@,
                callable,
                state.remembered(Anchor::PrepareHeaders),
                state.trusted(Trust::PrepareHeaders),
            ) == Ok::<bool, Failure>(true)
            &&& field_is_none(heap, subject, "headers"@) == Ok::<bool, Failure>(true)
            &&& is_header_candidate(heap, headers) == Ok::<bool, Failure>(true)
            &&& header_constructor_is_trusted(heap, state) == Ok::<bool, Failure>(true)
            &&& header_pairs(heap, headers).len() > 0 ==> header_validation_is_trusted(heap, state)
                == Ok::<bool, Failure>(true) && header_storage_is_trusted(heap, state) == Ok::<
                bool,
                Failure,
            >(true)
            &&& forall|index: int|
                0 <= index < header_pairs(heap, headers).len() ==> is_native_name(
                    heap,
                    (#[trigger] header_pairs(heap, headers)[index]).key,
                ) && is_native_value(heap, header_pairs(heap, headers)[index].value)
        },
{
}

/// A name is native where it is an exact text or byte string of ASCII; a value may
/// be any exact byte string.
pub proof fn law_native_names_and_values(heap: Heap, object: usize)
    ensures
        is_native_name(heap, object) ==> is_native_value(heap, object),
        is_native_value(heap, object) ==> heap.is_exactly(object, heap.intrinsics.text)
            || heap.is_exactly(object, heap.intrinsics.bytes),
        heap.is_exactly(object, heap.intrinsics.text) ==> (is_native_name(heap, object)
            <==> is_native_value(heap, object)),
        heap.is_exactly(object, heap.intrinsics.bytes) && !heap.is_exactly(
            object,
            heap.intrinsics.text,
        ) ==> (is_native_value(heap, object) <==> heap.bytes_of(object) is Some),
        is_native_name(heap, object) && !heap.is_exactly(object, heap.intrinsics.text) ==> (
        heap.bytes_of(object) matches Some(bytes) && forall|index: int|
            0 <= index < bytes.len() ==> #[trigger] bytes[index] < 128),
{
}

/// Headers that are `None` or an exact dict are read at once; an ordered dict only
/// where it has no `items` of its own. A missing dict has no pairs.
pub proof fn law_candidates_for_headers(heap: Heap, headers: usize)
    ensures
        heap.is_none_value(headers) ==> is_header_candidate(heap, headers) == Ok::<bool, Failure>(
            true,
        ) && header_pairs(heap, headers).len() == 0,
        heap.is_exactly(headers, heap.intrinsics.dict) ==> is_header_candidate(heap, headers)
            == Ok::<bool, Failure>(true),
        is_header_candidate(heap, headers) == Ok::<bool, Failure>(true) && !heap.is_none_value(
            headers,
        ) && !heap.is_exactly(headers, heap.intrinsics.dict) ==> is_ordered_dict(heap, headers) && (
        heap.attribute_of(headers, "__dict__"@) matches Some(own) && heap.entry_of(own, "items"@)
            is None),
{
}

/// A row keeps its pair: the name, the value, and whether the name was no text.
pub proof fn law_rows_keep_their_pair(heap: Heap, pairs: Seq<Pair>, index: int)
    requires
        0 <= index < pairs.len(),
    ensures
        rows_of(heap, pairs).len() == pairs.len(),
        rows_of(heap, pairs)[index].name == pairs[index].key,
        rows_of(heap, pairs)[index].value == pairs[index].value,
        rows_of(heap, pairs)[index].name_was_bytes <==> !heap.is_exactly(
            pairs[index].key,
            heap.intrinsics.text,
        ),
{
}

/// What headers are prepared by has to be what it first was.
pub proof fn law_what_headers_are_prepared_by(heap: Heap, state: ModelsState)
    ensures
        header_constructor_is_trusted(heap, state) == Ok::<bool, Failure>(true) <==> {
            let class = state.remembered(Anchor::CaseInsensitiveDict);
            &&& entry_is(heap, state.remembered(Anchor::Models), "CaseInsensitiveDict"@, class)
            &&& heap.type_entry_of(class, "_store"@) is None
            &&& entry_is(
                heap,
                state.remembered(Anchor::Structures),
                "OrderedDict"@,
                state.remembered(Anchor::OrderedDict),
            )
            &&& type_entry_is(heap, class, "__init__"@, state.remembered(Anchor::DictInit))
            &&& type_entry_is(heap, class, "__new__"@, state.remembered(Anchor::DictNew))
            &&& type_entry_is(
                heap,
                class,
                "__getattribute__"@,
                state.remembered(Anchor::DictGetAttribute),
            )
            &&& type_entry_is(heap, class, "__setattr__"@, state.remembered(Anchor::DictSetAttr))
            &&& type_entry_is(heap, class, "update"@, state.remembered(Anchor::DictUpdate))
            &&& still_trusted(heap, state, Trust::DictInit) == Ok::<bool, Failure>(true)
            &&& still_trusted(heap, state, Trust::DictUpdate) == Ok::<bool, Failure>(true)
        },
        header_validation_is_trusted(heap, state) == Ok::<bool, Failure>(true) <==> {
            let utils = state.remembered(Anchor::Utils);
            &&& entry_is(
                heap,
                state.remembered(Anchor::Models),
                "check_header_validity"@,
                state.remembered(Anchor::CheckHeaderValidity),
            )
            &&& entry_is(
                heap,
                utils,
                "_validate_header_part"@,
                state.remembered(Anchor::ValidateHeaderPart),
            )
            &&& entry_is(
                heap,
                utils,
                "_HEADER_VALIDATORS_STR"@,
                state.remembered(Anchor::HeaderValidatorsStr),
            )
            &&& entry_is(
                heap,
                utils,
                "_HEADER_VALIDATORS_BYTE"@,
                state.remembered(Anchor::HeaderValidatorsByte),
            )
            &&& entry_is(heap, utils, "str"@, heap.intrinsics.text)
            &&& entry_is(heap, utils, "bytes"@, heap.intrinsics.bytes)
            &&& still_trusted(heap, state, Trust::CheckHeaderValidity) == Ok::<bool, Failure>(true)
            &&& still_trusted(heap, state, Trust::ValidateHeaderPart) == Ok::<bool, Failure>(true)
        },
        header_storage_is_trusted(heap, state) == Ok::<bool, Failure>(true) <==> {
            &&& native_string_is_trusted(heap, state) == Ok::<bool, Failure>(true)
            &&& type_entry_is(
                heap,
                state.remembered(Anchor::CaseInsensitiveDict),
                "__setitem__"@,
                state.remembered(Anchor::DictSetItem),
            )
            &&& still_trusted(heap, state, Trust::DictSetItem) == Ok::<bool, Failure>(true)
        },
{
}

/// A name stands for one preparation only, and only with as many arguments as that
/// takes.
pub proof fn law_names_of_preparations(name: Seq<char>, arguments: nat)
    ensures
        operation_named(name, arguments) == Some(ModelOperation::PrepareMethod) ==> name
            == "prepare_method"@ && arguments == 1,
        operation_named(name, arguments) == Some(ModelOperation::PrepareUrl) ==> name
            == "prepare_url"@ && arguments == 2,
        operation_named(name, arguments) == Some(ModelOperation::PrepareHeaders) ==> name
            == "prepare_headers"@ && arguments == 1,
        operation_named(name, arguments) == Some(ModelOperation::PrepareBody) ==> name
            == "prepare_body"@ && arguments == 3,
        operation_named(name, arguments) == Some(ModelOperation::PrepareContentLength) ==> name
            == "prepare_content_length"@ && arguments == 1,
        operation_named(name, arguments) is None ==> !(name == "prepare_method"@ && arguments == 1)
            && !(name == "prepare_url"@ && arguments == 2) && !(name == "prepare_headers"@
            && arguments == 1) && !(name == "prepare_body"@ && arguments == 3) && !(name
            == "prepare_content_length"@ && arguments == 1),
{
}

/// The message of a bad header tells which part is bad and shows it.
pub proof fn law_messages_of_bad_headers(part: InvalidHeaderPart, repr: Seq<char>)
    ensures
        repr.is_suffix_of(header_error_text(part, repr)),
        header_error_text(InvalidHeaderPart::Name, repr) == (
        "Invalid leading whitespace, reserved character(s), or return character(s) in header "@
            + "name"@ + ": "@ + repr),
        header_error_text(InvalidHeaderPart::Value, repr) == (
        "Invalid leading whitespace, reserved character(s), or return character(s) in header "@
            + "value"@ + ": "@ + repr),
{
    let text = header_error_text(part, repr);
    assert(text.subrange(text.len() - repr.len(), text.len() as int) =~= repr);
}

} // verus!
