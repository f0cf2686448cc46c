//! Which jars, cookies, morsels and arguments are simple enough to be worked on
//! natively.

use vstd::prelude::*;
use vstd::string::StringExecFns;

use crate::adapter_state::{exact_dict, exact_dict_of, has_text_keys, keys_are_texts};
use crate::cookie_state::{namespace_pairs, raw_instance_dict, CookieState, CookieView};
use crate::heap::{both, Check, Failure, Heap, Pair};
use crate::known::resolution_order;
use crate::landmarks::{check_type_entry, type_entry_is};
use crate::retry::{exact_bool, exact_bool_value, optional_view};

verus! {

/// Whether two lists of references are the same.
pub fn same_order(left: &Vec<usize>, right: &Vec<usize>) -> (same: bool)
    ensures
        same == (left@ == right@),
{
    if left.len() != right.len() {
        return false;
    }
    let mut index: usize = 0;
    while index < left.len()
        invariant
            index <= left.len(),
            left@.len() == right@.len(),
            forall|i: int| 0 <= i < index ==> left@[i] == right@[i],
        decreases left.len() - index,
    {
        if left[index] != right[index] {
            return false;
        }
        index = index + 1;
    }
    assert(left@ =~= right@);
    true
}

/// Whether a class has none of the names of a list, itself or from a base.
pub open spec fn has_no_entries(heap: Heap, class: usize, names: Seq<&'static str>) -> bool {
    forall|i: int| 0 <= i < names.len() ==> heap.type_entry_of(class, (#[trigger] names[i])@) is None
}

/// Whether a class has none of the names of a list.
fn lacks_entries(heap: &Heap, class: usize, names: &Vec<&'static str>) -> (yes: bool)
    ensures
        yes == has_no_entries(*heap, class, names@),
{
    let mut index: usize = 0;
    while index < names.len()
        invariant
            index <= names.len(),
            forall|i: int|
                0 <= i < index ==> heap.type_entry_of(class, (#[trigger] names@[i])@) is None,
        decreases names.len() - index,
    {
        if heap.raw_type_entry(class, names[index]).is_some() {
            assert(heap.type_entry_of(class, names@[index as int]@) is Some);
            return false;
        }
        index = index + 1;
    }
    true
}

/// Whether a class looks up attributes as it first did: its bases and its
/// attribute access are unchanged, and no base shadows a field.
pub open spec fn layout_pristine(
    heap: Heap,
    state: CookieView,
    class: usize,
    order: Seq<usize>,
    fields: Seq<&'static str>,
) -> bool {
    &&& heap.mro_of(class) == order
    &&& type_entry_is(heap, class, "__getattribute__"@, state.object_getattribute)
    &&& has_no_entries(heap, class, fields)
}

/// Whether a class looks up attributes as it first did.
pub fn type_layout_is_pristine(
    heap: &Heap,
    state: &CookieState,
    class: usize,
    order: &Vec<usize>,
    fields: &Vec<&'static str>,
) -> (pristine: bool)
    ensures
        pristine == layout_pristine(*heap, state@, class, order@, fields@),
{
    same_order(&resolution_order(heap, class), order) && check_type_entry(
        heap,
        class,
        "__getattribute__",
        state.object_getattribute,
    ) && lacks_entries(heap, class, fields)
}

/// The fields of a jar that no class may shadow.
pub open spec fn jar_fields() -> Seq<&'static str> {
    seq!["_cookies", "_policy"]
}

/// The fields of a cookie that no class may shadow.
pub open spec fn cookie_fields() -> Seq<&'static str> {
    seq!["_rest", "name", "value", "domain", "path", "secure", "expires", "discard"]
}

/// The bases that a jar's class had when it was first met, where it is one of
/// the two classes of jars.
pub open spec fn jar_order(heap: Heap, state: CookieView, jar: usize) -> Option<Seq<usize>> {
    if heap.is_exactly(jar, state.objects.jar_type) {
        Some(state.jar_mro)
    } else if heap.is_exactly(jar, state.objects.std_jar_type) {
        Some(state.std_jar_mro)
    } else {
        None
    }
}

/// The class of an object; a number that no class has, where it has none.
pub open spec fn class_at(heap: Heap, object: usize) -> usize {
    match heap.at(object) {
        Some(found) => found.class,
        None => 0,
    }
}

/// The class of an object.
fn class_number(heap: &Heap, object: usize) -> (class: usize)
    ensures
        class == class_at(*heap, object),
{
    match heap.get(object) {
        Some(found) => found.class,
        None => 0,
    }
}

/// Whether a jar holds its cookies the way it first did.
pub open spec fn jar_layout_pristine(heap: Heap, state: CookieView, jar: usize) -> Check {
    match jar_order(heap, state, jar) {
        None => Ok(false),
        Some(order) => if !layout_pristine(
            heap,
            state,
            class_at(heap, jar),
            order,
            jar_fields(),
        ) {
            Ok(false)
        } else {
            match namespace_pairs(heap, jar) {
                Err(failure) => Err(failure),
                Ok(pairs) => Ok(
                    has_text_keys(heap, pairs) && match heap.keyed(pairs, "_cookies"@) {
                        Some(cookies) => heap.is_exactly(cookies, heap.intrinsics.dict),
                        None => false,
                    },
                ),
            }
        },
    }
}

/// Whether a jar holds its cookies the way it first did.
pub fn jar_layout_is_pristine(heap: &Heap, state: &CookieState, jar: usize) -> (check: Check)
    ensures
        check == jar_layout_pristine(*heap, state@, jar),
{
    let fields: Vec<&'static str> = vec!["_cookies", "_policy"];
    assert(fields@ =~= jar_fields());
    let class = class_number(heap, jar);
    if heap.exactly(jar, state.objects.jar_type) {
        if !type_layout_is_pristine(heap, state, class, &state.jar_mro, &fields) {
            return Ok(false);
        }
    } else if heap.exactly(jar, state.objects.std_jar_type) {
        if !type_layout_is_pristine(heap, state, class, &state.std_jar_mro, &fields) {
            return Ok(false);
        }
    } else {
        return Ok(false);
    }
    let pairs = match raw_instance_dict(heap, jar) {
        Ok(pairs) => pairs,
        Err(failure) => {
            return Err(failure);
        },
    };
    if !keys_are_texts(heap, pairs) {
        return Ok(false);
    }
    match heap.find_keyed(pairs, "_cookies") {
        Some(cookies) => Ok(heap.exactly(cookies, heap.intrinsics.dict)),
        None => Ok(false),
    }
}

/// Whether a cookie is exactly of the cookie class, laid out as it first was.
pub open spec fn cookie_layout_pristine(heap: Heap, state: CookieView, cookie: usize) -> bool {
    heap.is_exactly(cookie, state.objects.cookie_type) && layout_pristine(
        heap,
        state,
        class_at(heap, cookie),
        state.cookie_mro,
        cookie_fields(),
    )
}

/// Whether a cookie is exactly of the cookie class, laid out as it first was.
pub fn cookie_layout_is_pristine(heap: &Heap, state: &CookieState, cookie: usize) -> (pristine: bool)
    ensures
        pristine == cookie_layout_pristine(*heap, state@, cookie),
{
    let fields: Vec<&'static str> = vec![
        "_rest",
        "name",
        "value",
        "domain",
        "path",
        "secure",
        "expires",
        "discard",
    ];
    assert(fields@ =~= cookie_fields());
    heap.exactly(cookie, state.objects.cookie_type) && type_layout_is_pristine(
        heap,
        state,
        class_number(heap, cookie),
        &state.cookie_mro,
        &fields,
    )
}

/// Whether a morsel is exactly of the morsel class, with the access it first
/// had.
pub open spec fn morsel_layout_pristine(heap: Heap, state: CookieView, morsel: usize) -> bool {
    let class = class_at(heap, morsel);
    &&& heap.is_exactly(morsel, state.objects.morsel_type)
    &&& heap.mro_of(class) == state.morsel_mro
    &&& type_entry_is(heap, class, "__getattribute__"@, state.object_getattribute)
    &&& type_entry_is(heap, class, "__getitem__"@, state.objects.morsel_getitem)
    &&& type_entry_is(heap, class, "key"@, state.objects.morsel_key)
    &&& type_entry_is(heap, class, "value"@, state.objects.morsel_value)
}

/// Whether a morsel is exactly of the morsel class, with the access it first
/// had.
pub fn morsel_layout_is_pristine(heap: &Heap, state: &CookieState, morsel: usize) -> (pristine: bool)
    ensures
        pristine == morsel_layout_pristine(*heap, state@, morsel),
{
    let class = class_number(heap, morsel);
    heap.exactly(morsel, state.objects.morsel_type) && same_order(
        &resolution_order(heap, class),
        &state.morsel_mro,
    ) && check_type_entry(heap, class, "__getattribute__", state.object_getattribute)
        && check_type_entry(heap, class, "__getitem__", state.objects.morsel_getitem)
        && check_type_entry(heap, class, "key", state.objects.morsel_key) && check_type_entry(
        heap,
        class,
        "value",
        state.objects.morsel_value,
    )
}

/// The items of a morsel that have to be exact texts.
pub open spec fn morsel_texts() -> Seq<&'static str> {
    seq!["max-age", "expires", "version", "domain", "path", "comment"]
}

/// The items of a morsel that have to be exact texts or flags.
pub open spec fn morsel_flags() -> Seq<&'static str> {
    seq!["secure", "httponly"]
}

/// Whether a value is exactly a text.
pub open spec fn is_exact_text(heap: Heap, value: usize) -> bool {
    heap.is_exactly(value, heap.intrinsics.text)
}

/// Whether a value is exactly a text.
pub fn exact_string_item(heap: &Heap, value: usize) -> (yes: bool)
    ensures
        yes == is_exact_text(*heap, value),
{
    heap.exactly(value, heap.intrinsics.text)
}

/// Whether every item of a list of names is an exact text or, where flags are
/// allowed, exactly a flag. A missing item is an error.
pub open spec fn items_are(heap: Heap, pairs: Seq<Pair>, names: Seq<&'static str>, flags: bool) -> Check
    decreases names.len(),
{
    if names.len() == 0 {
        Ok(true)
    } else {
        match heap.keyed(pairs, names[0]@) {
            None => Err(Failure::Item),
            Some(value) => both(
                Ok(
                    is_exact_text(heap, value) || (flags && heap.is_exactly(
                        value,
                        heap.intrinsics.boolean,
                    )),
                ),
                items_are(heap, pairs, names.drop_first(), flags),
            ),
        }
    }
}

/// Whether every item of a list of names is an exact text or, where flags are
/// allowed, exactly a flag.
fn check_items(heap: &Heap, pairs: &Vec<Pair>, names: &Vec<&'static str>, flags: bool) -> (check:
    Check)
    ensures
        check == items_are(*heap, pairs@, names@, flags),
{
    let mut index: usize = 0;
    assert(names@.skip(0) =~= names@);
    while index < names.len()
        invariant
            index <= names.len(),
            items_are(*heap, pairs@, names@, flags) == items_are(
                *heap,
                pairs@,
                names@.skip(index as int),
                flags,
            ),
        decreases names.len() - index,
    {
        assert(names@.skip(index as int).drop_first() =~= names@.skip(index + 1));
        assert(names@.skip(index as int)[0] == names@[index as int]);
        match heap.find_keyed(pairs, names[index]) {
            None => {
                return Err(Failure::Item);
            },
            Some(value) => if !(exact_string_item(heap, value) || (flags && heap.exactly(
                value,
                heap.intrinsics.boolean,
            ))) {
                return Ok(false);
            },
        }
        index = index + 1;
    }
    Ok(true)
}

/// Whether an attribute is exactly a text.
pub open spec fn attribute_is_text(heap: Heap, object: usize, name: Seq<char>) -> Check {
    match heap.attribute_of(object, name) {
        None => Err(Failure::Attribute),
        Some(value) => Ok(is_exact_text(heap, value)),
    }
}

/// Whether an attribute is exactly a text.
fn check_attribute_is_text(heap: &Heap, object: usize, name: &str) -> (check: Check)
    ensures
        check == attribute_is_text(*heap, object, name@),
{
    match heap.attribute(object, name) {
        None => Err(Failure::Attribute),
        Some(value) => Ok(exact_string_item(heap, value)),
    }
}

/// Whether a morsel can be turned into a cookie natively.
pub open spec fn morsel_supported(heap: Heap, state: CookieView, morsel: usize) -> Check {
    if !morsel_layout_pristine(heap, state, morsel) {
        Ok(false)
    } else {
        match heap.dict_of(morsel) {
            None => Err(Failure::Kind),
            Some(pairs) => both(
                Ok(has_text_keys(heap, pairs)),
                both(
                    items_are(heap, pairs, morsel_texts(), false),
                    both(
                        items_are(heap, pairs, morsel_flags(), true),
                        both(
                            attribute_is_text(heap, morsel, "key"@),
                            attribute_is_text(heap, morsel, "value"@),
                        ),
                    ),
                ),
            ),
        }
    }
}

/// Whether a morsel can be turned into a cookie natively.
pub fn morsel_shape_is_supported(heap: &Heap, state: &CookieState, morsel: usize) -> (check: Check)
    ensures
        check == morsel_supported(*heap, state@, morsel),
{
    if !morsel_layout_is_pristine(heap, state, morsel) {
        return Ok(false);
    }
    let pairs = match heap.dict(morsel) {
        Some(pairs) => pairs,
        None => {
            return Err(Failure::Kind);
        },
    };
    if !keys_are_texts(heap, pairs) {
        return Ok(false);
    }
    let texts: Vec<&'static str> = vec![
        "max-age",
        "expires",
        "version",
        "domain",
        "path",
        "comment",
    ];
    assert(texts@ =~= morsel_texts());
    match check_items(heap, pairs, &texts, false) {
        Ok(true) => {},
        other => {
            return other;
        },
    }
    let flags: Vec<&'static str> = vec!["secure", "httponly"];
    assert(flags@ =~= morsel_flags());
    match check_items(heap, pairs, &flags, true) {
        Ok(true) => {},
        other => {
            return other;
        },
    }
    match check_attribute_is_text(heap, morsel, "key") {
        Ok(true) => {},
        other => {
            return other;
        },
    }
    check_attribute_is_text(heap, morsel, "value")
}

/// A field of a cookie.
#[derive(Clone, Copy, Debug, PartialEq, Eq, Structural)]
pub enum CookieField {
    Rest,
    Name,
    Value,
    Domain,
    Path,
    Secure,
    Expires,
    Discard,
}

impl CookieField {
    /// The field's name.
    pub open spec fn key(self) -> Seq<char> {
        match self {
            CookieField::Rest => "_rest"@,
            CookieField::Name => "name"@,
            CookieField::Value => "value"@,
            CookieField::Domain => "domain"@,
            CookieField::Path => "path"@,
            CookieField::Secure => "secure"@,
            CookieField::Expires => "expires"@,
            CookieField::Discard => "discard"@,
        }
    }

    /// The field's name.
    pub fn name(&self) -> (name: &'static str)
        ensures
            name@ == self.key(),
    {
        match self {
            CookieField::Rest => "_rest",
            CookieField::Name => "name",
            CookieField::Value => "value",
            CookieField::Domain => "domain",
            CookieField::Path => "path",
            CookieField::Secure => "secure",
            CookieField::Expires => "expires",
            CookieField::Discard => "discard",
        }
    }
}

/// Why a cookie cannot be read natively.
#[derive(Clone, Copy, Debug, PartialEq, Eq, Structural)]
pub enum SnapshotRefusal {
    Layout,
    Keys,
    MissingField(CookieField),
    RestValue,
    OptionalText,
    RequiredText,
    Expiry,
    Flag,
    Failed(Failure),
}

impl SnapshotRefusal {
    /// The reason in words, where it is one of the library's own.
    pub open spec fn words(self) -> Option<Seq<char>> {
        match self {
            SnapshotRefusal::Layout => Some("cookie layout is not pristine"@),
            SnapshotRefusal::Keys => Some("cookie instance dictionary has a non-string key"@),
            SnapshotRefusal::MissingField(field) => Some(
                "exact Cookie instance is missing raw field "@ + field.key(),
            ),
            SnapshotRefusal::RestValue => Some(
                "cookie snapshot encountered an unsupported rest value"@,
            ),
            SnapshotRefusal::OptionalText => Some(
                "cookie snapshot requires exact string or None fields"@,
            ),
            SnapshotRefusal::RequiredText => Some(
                "cookie snapshot requires exact string fields"@,
            ),
            SnapshotRefusal::Expiry => Some(
                "cookie snapshot requires an exact integer or None expiry"@,
            ),
            SnapshotRefusal::Flag => Some("cookie snapshot requires exact bool fields"@),
            SnapshotRefusal::Failed(_) => None,
        }
    }

    /// The reason in words, where it is one of the library's own.
    pub fn message(&self) -> (text: Option<String>)
        ensures
            optional_view(text) == self.words(),
    {
        let words: &'static str = match self {
            SnapshotRefusal::Layout => "cookie layout is not pristine",
            SnapshotRefusal::Keys => "cookie instance dictionary has a non-string key",
            SnapshotRefusal::MissingField(field) => {
                let mut text = String::from_str("exact Cookie instance is missing raw field ");
                text.append(field.name());
                return Some(text);
            },
            SnapshotRefusal::RestValue => "cookie snapshot encountered an unsupported rest value",
            SnapshotRefusal::OptionalText => "cookie snapshot requires exact string or None fields",
            SnapshotRefusal::RequiredText => "cookie snapshot requires exact string fields",
            SnapshotRefusal::Expiry => "cookie snapshot requires an exact integer or None expiry",
            SnapshotRefusal::Flag => "cookie snapshot requires exact bool fields",
            SnapshotRefusal::Failed(_) => {
                return None;
            },
        };
        Some(String::from_str(words))
    }
}

/// A simple value among a cookie's further attributes.
pub enum CookieScalar {
    Nothing,
    Flag(bool),
    Integer(i64),
    Text(String),
}

/// A simple value among a cookie's further attributes.
pub enum ScalarView {
    Nothing,
    Flag(bool),
    Integer(i64),
    Text(Seq<char>),
}

impl View for CookieScalar {
    type V = ScalarView;

    open spec fn view(&self) -> ScalarView {
        match *self {
            CookieScalar::Nothing => ScalarView::Nothing,
            CookieScalar::Flag(flag) => ScalarView::Flag(flag),
            CookieScalar::Integer(number) => ScalarView::Integer(number),
            CookieScalar::Text(text) => ScalarView::Text(text@),
        }
    }
}

/// The number that a value stands for, where it fits.
pub open spec fn integer_of(heap: Heap, value: usize) -> Result<i64, SnapshotRefusal> {
    match heap.int_of(value) {
        Some(number) => if i64::MIN <= number <= i64::MAX {
            Ok(number as i64)
        } else {
            Err(SnapshotRefusal::Failed(Failure::Kind))
        },
        None => Err(SnapshotRefusal::Failed(Failure::Kind)),
    }
}

/// The number that a value stands for, where it fits.
fn integer_value(heap: &Heap, value: usize) -> (number: Result<i64, SnapshotRefusal>)
    ensures
        number == integer_of(*heap, value),
{
    match heap.int_value(value) {
        Some(number) => if i64::MIN as i128 <= number && number <= i64::MAX as i128 {
            Ok(number as i64)
        } else {
            Err(SnapshotRefusal::Failed(Failure::Kind))
        },
        None => Err(SnapshotRefusal::Failed(Failure::Kind)),
    }
}

/// The characters of a text that has to be readable.
pub open spec fn readable_text(heap: Heap, value: usize) -> Result<Seq<char>, SnapshotRefusal> {
    match heap.text_of(value) {
        Some(text) => Ok(text),
        None => Err(SnapshotRefusal::Failed(Failure::Kind)),
    }
}

/// The characters of a text that has to be readable.
fn read_text(heap: &Heap, value: usize) -> (text: Result<String, SnapshotRefusal>)
    ensures
        match text {
            Ok(text) => readable_text(*heap, value) == Ok::<Seq<char>, SnapshotRefusal>(text@),
            Err(refusal) => readable_text(*heap, value) == Err::<Seq<char>, SnapshotRefusal>(
                refusal,
            ),
        },
{
    match heap.text(value) {
        Some(text) => Ok(String::from_str(text.as_str())),
        None => Err(SnapshotRefusal::Failed(Failure::Kind)),
    }
}

/// A simple value, where the object is exactly of a simple type.
pub open spec fn scalar_of(heap: Heap, value: usize) -> Result<ScalarView, SnapshotRefusal> {
    if heap.is_none_value(value) {
        Ok(ScalarView::Nothing)
    } else if heap.is_exactly(value, heap.intrinsics.boolean) {
        match heap.bool_of(value) {
            Some(flag) => Ok(ScalarView::Flag(flag)),
            None => Err(SnapshotRefusal::Failed(Failure::Kind)),
        }
    } else if heap.is_exactly(value, heap.intrinsics.int) {
        match integer_of(heap, value) {
            Ok(number) => Ok(ScalarView::Integer(number)),
            Err(refusal) => Err(refusal),
        }
    } else if is_exact_text(heap, value) {
        match readable_text(heap, value) {
            Ok(text) => Ok(ScalarView::Text(text)),
            Err(refusal) => Err(refusal),
        }
    } else {
        Err(SnapshotRefusal::RestValue)
    }
}

/// A simple value, where the object is exactly of a simple type.
pub fn scalar_from_python(heap: &Heap, value: usize) -> (scalar: Result<
    CookieScalar,
    SnapshotRefusal,
>)
    ensures
        match scalar {
            Ok(scalar) => scalar_of(*heap, value) == Ok::<ScalarView, SnapshotRefusal>(scalar@),
            Err(refusal) => scalar_of(*heap, value) == Err::<ScalarView, SnapshotRefusal>(refusal),
        },
{
    if heap.none_value(value) {
        Ok(CookieScalar::Nothing)
    } else if heap.exactly(value, heap.intrinsics.boolean) {
        match heap.bool_value(value) {
            Some(flag) => Ok(CookieScalar::Flag(flag)),
            None => Err(SnapshotRefusal::Failed(Failure::Kind)),
        }
    } else if heap.exactly(value, heap.intrinsics.int) {
        match integer_value(heap, value) {
            Ok(number) => Ok(CookieScalar::Integer(number)),
            Err(refusal) => Err(refusal),
        }
    } else if exact_string_item(heap, value) {
        match read_text(heap, value) {
            Ok(text) => Ok(CookieScalar::Text(text)),
            Err(refusal) => Err(refusal),
        }
    } else {
        Err(SnapshotRefusal::RestValue)
    }
}

/// The characters of a field that is exactly a text.
pub open spec fn required_text(heap: Heap, value: usize) -> Result<Seq<char>, SnapshotRefusal> {
    if is_exact_text(heap, value) {
        readable_text(heap, value)
    } else {
        Err(SnapshotRefusal::RequiredText)
    }
}

/// The characters of a field that is exactly a text.
pub fn required_string(heap: &Heap, value: usize) -> (text: Result<String, SnapshotRefusal>)
    ensures
        match text {
            Ok(text) => required_text(*heap, value) == Ok::<Seq<char>, SnapshotRefusal>(text@),
            Err(refusal) => required_text(*heap, value) == Err::<Seq<char>, SnapshotRefusal>(
                refusal,
            ),
        },
{
    if exact_string_item(heap, value) {
        read_text(heap, value)
    } else {
        Err(SnapshotRefusal::RequiredText)
    }
}

/// The characters of a field that is exactly a text, or `None`.
pub open spec fn optional_text(heap: Heap, value: usize) -> Result<
    Option<Seq<char>>,
    SnapshotRefusal,
> {
    if heap.is_none_value(value) {
        Ok(None)
    } else if is_exact_text(heap, value) {
        match readable_text(heap, value) {
            Ok(text) => Ok(Some(text)),
            Err(refusal) => Err(refusal),
        }
    } else {
        Err(SnapshotRefusal::OptionalText)
    }
}

/// The characters of a field that is exactly a text, or `None`.
pub fn optional_string(heap: &Heap, value: usize) -> (text: Result<Option<String>, SnapshotRefusal>)
    ensures
        match text {
            Ok(text) => optional_text(*heap, value) == Ok::<Option<Seq<char>>, SnapshotRefusal>(
                optional_view(text),
            ),
            Err(refusal) => optional_text(*heap, value) == Err::<
                Option<Seq<char>>,
                SnapshotRefusal,
            >(refusal),
        },
{
    if heap.none_value(value) {
        Ok(None)
    } else if exact_string_item(heap, value) {
        match read_text(heap, value) {
            Ok(text) => Ok(Some(text)),
            Err(refusal) => Err(refusal),
        }
    } else {
        Err(SnapshotRefusal::OptionalText)
    }
}

/// The number of a field that is exactly an integer, or `None`.
pub open spec fn optional_number(heap: Heap, value: usize) -> Result<Option<i64>, SnapshotRefusal> {
    if heap.is_none_value(value) {
        Ok(None)
    } else if heap.is_exactly(value, heap.intrinsics.int) {
        match integer_of(heap, value) {
            Ok(number) => Ok(Some(number)),
            Err(refusal) => Err(refusal),
        }
    } else {
        Err(SnapshotRefusal::Expiry)
    }
}

/// The number of a field that is exactly an integer, or `None`.
pub fn optional_integer(heap: &Heap, value: usize) -> (number: Result<Option<i64>, SnapshotRefusal>)
    ensures
        number == optional_number(*heap, value),
{
    if heap.none_value(value) {
        Ok(None)
    } else if heap.exactly(value, heap.intrinsics.int) {
        match integer_value(heap, value) {
            Ok(number) => Ok(Some(number)),
            Err(refusal) => Err(refusal),
        }
    } else {
        Err(SnapshotRefusal::Expiry)
    }
}

/// The flag of a field that is exactly a flag.
pub open spec fn required_flag(heap: Heap, value: usize) -> Result<bool, SnapshotRefusal> {
    match exact_bool_value(heap, value) {
        Some(flag) => Ok(flag),
        None => Err(SnapshotRefusal::Flag),
    }
}

/// The flag of a field that is exactly a flag.
pub fn required_bool(heap: &Heap, value: usize) -> (flag: Result<bool, SnapshotRefusal>)
    ensures
        flag == required_flag(*heap, value),
{
    match exact_bool(heap, value) {
        Some(flag) => Ok(flag),
        None => Err(SnapshotRefusal::Flag),
    }
}

/// One of a cookie's further attributes.
pub struct RestEntry {
    pub name: String,
    pub value: CookieScalar,
}

/// A cookie's further attributes.
pub open spec fn rest_views(rest: Seq<RestEntry>) -> Seq<(Seq<char>, ScalarView)> {
    rest.map_values(|entry: RestEntry| (entry.name@, entry.value@))
}

/// A cookie, read.
pub struct CookieSnapshot {
    pub name: String,
    pub value: Option<String>,
    pub domain: Option<String>,
    pub path: Option<String>,
    pub secure: bool,
    pub expires: Option<i64>,
    pub discard: bool,
    pub rest: Vec<RestEntry>,
}

/// A cookie, read.
pub struct SnapshotView {
    pub name: Seq<char>,
    pub value: Option<Seq<char>>,
    pub domain: Option<Seq<char>>,
    pub path: Option<Seq<char>>,
    pub secure: bool,
    pub expires: Option<i64>,
    pub discard: bool,
    pub rest: Seq<(Seq<char>, ScalarView)>,
}

impl View for CookieSnapshot {
    type V = SnapshotView;

    open spec fn view(&self) -> SnapshotView {
        SnapshotView {
            name: self.name@,
            value: optional_view(self.value),
            domain: optional_view(self.domain),
            path: optional_view(self.path),
            secure: self.secure,
            expires: self.expires,
            discard: self.discard,
            rest: rest_views(self.rest@),
        }
    }
}

/// A field that has to stand in a cookie's own name space.
pub open spec fn field_of(heap: Heap, pairs: Seq<Pair>, field: CookieField) -> Result<
    usize,
    SnapshotRefusal,
> {
    match heap.keyed(pairs, field.key()) {
        Some(value) => Ok(value),
        None => Err(SnapshotRefusal::MissingField(field)),
    }
}

/// A field that has to stand in a cookie's own name space.
pub fn raw_required_field(heap: &Heap, pairs: &Vec<Pair>, field: CookieField) -> (value: Result<
    usize,
    SnapshotRefusal,
>)
    ensures
        value == field_of(*heap, pairs@, field),
{
    match heap.find_keyed(pairs, field.name()) {
        Some(value) => Ok(value),
        None => Err(SnapshotRefusal::MissingField(field)),
    }
}

/// The further attributes of a cookie; the first that cannot be read decides.
pub open spec fn rest_of(heap: Heap, pairs: Seq<Pair>) -> Result<
    Seq<(Seq<char>, ScalarView)>,
    SnapshotRefusal,
>
    decreases pairs.len(),
{
    if pairs.len() == 0 {
        Ok(Seq::empty())
    } else {
        match rest_of(heap, pairs.drop_last()) {
            Err(refusal) => Err(refusal),
            Ok(rest) => match required_text(heap, pairs.last().key) {
                Err(refusal) => Err(refusal),
                Ok(name) => match scalar_of(heap, pairs.last().value) {
                    Err(refusal) => Err(refusal),
                    Ok(value) => Ok(rest.push((name, value))),
                },
            },
        }
    }
}

/// What cannot be read among the first attributes cannot be read at all.
proof fn lemma_rest_stop(heap: Heap, pairs: Seq<Pair>, count: nat)
    requires
        count <= pairs.len(),
        rest_of(heap, pairs.take(count as int)) is Err,
    ensures
        rest_of(heap, pairs) == rest_of(heap, pairs.take(count as int)),
    decreases pairs.len() - count,
{
    if count == pairs.len() {
        assert(pairs.take(count as int) =~= pairs);
    } else {
        assert(pairs.take((count + 1) as int).drop_last() =~= pairs.take(count as int));
        lemma_rest_stop(heap, pairs, count + 1);
    }
}

/// Reads the further attributes of a cookie.
fn read_rest(heap: &Heap, pairs: &Vec<Pair>) -> (rest: Result<Vec<RestEntry>, SnapshotRefusal>)
    ensures
        match rest {
            Ok(rest) => rest_of(*heap, pairs@) == Ok::<
                Seq<(Seq<char>, ScalarView)>,
                SnapshotRefusal,
            >(rest_views(rest@)),
            Err(refusal) => rest_of(*heap, pairs@) == Err::<
                Seq<(Seq<char>, ScalarView)>,
                SnapshotRefusal,
            >(refusal),
        },
{
    let mut rest: Vec<RestEntry> = Vec::new();
    let mut index: usize = 0;
    assert(rest_views(rest@) =~= Seq::<(Seq<char>, ScalarView)>::empty());
    while index < pairs.len()
        invariant
            index <= pairs.len(),
            rest_of(*heap, pairs@.take(index as int)) == Ok::<
                Seq<(Seq<char>, ScalarView)>,
                SnapshotRefusal,
            >(rest_views(rest@)),
        decreases pairs.len() - index,
    {
        assert(pairs@.take(index + 1).drop_last() =~= pairs@.take(index as int));
        assert(pairs@.take(index + 1).last() == pairs@[index as int]);
        let name = match required_string(heap, pairs[index].key) {
            Ok(name) => name,
            Err(refusal) => {
                proof {
                    lemma_rest_stop(*heap, pairs@, (index + 1) as nat);
                }
                return Err(refusal);
            },
        };
        let value = match scalar_from_python(heap, pairs[index].value) {
            Ok(value) => value,
            Err(refusal) => {
                proof {
                    lemma_rest_stop(*heap, pairs@, (index + 1) as nat);
                }
                return Err(refusal);
            },
        };
        let ghost before = rest_views(rest@);
        let entry = RestEntry { name, value };
        let ghost added = (entry.name@, entry.value@);
        rest.push(entry);
        assert(rest_views(rest@) =~= before.push(added));
        index = index + 1;
    }
    assert(pairs@.take(index as int) =~= pairs@);
    Ok(rest)
}

/// The texts of a cookie.
pub struct CookieTexts {
    pub name: Seq<char>,
    pub value: Option<Seq<char>>,
    pub domain: Option<Seq<char>>,
    pub path: Option<Seq<char>>,
}

/// A field that has to be exactly a text or `None`.
pub open spec fn text_field(heap: Heap, pairs: Seq<Pair>, field: CookieField) -> Result<
    Option<Seq<char>>,
    SnapshotRefusal,
> {
    match field_of(heap, pairs, field) {
        Err(refusal) => Err(refusal),
        Ok(value) => optional_text(heap, value),
    }
}

/// Reads a field that has to be exactly a text or `None`.
fn read_text_field(heap: &Heap, pairs: &Vec<Pair>, field: CookieField) -> (text: Result<
    Option<String>,
    SnapshotRefusal,
>)
    ensures
        match text {
            Ok(text) => text_field(*heap, pairs@, field) == Ok::<
                Option<Seq<char>>,
                SnapshotRefusal,
            >(optional_view(text)),
            Err(refusal) => text_field(*heap, pairs@, field) == Err::<
                Option<Seq<char>>,
                SnapshotRefusal,
            >(refusal),
        },
{
    match raw_required_field(heap, pairs, field) {
        Err(refusal) => Err(refusal),
        Ok(value) => optional_string(heap, value),
    }
}

/// A field that has to be exactly a flag.
pub open spec fn flag_field(heap: Heap, pairs: Seq<Pair>, field: CookieField) -> Result<
    bool,
    SnapshotRefusal,
> {
    match field_of(heap, pairs, field) {
        Err(refusal) => Err(refusal),
        Ok(value) => required_flag(heap, value),
    }
}

/// Reads a field that has to be exactly a flag.
fn read_flag_field(heap: &Heap, pairs: &Vec<Pair>, field: CookieField) -> (flag: Result<
    bool,
    SnapshotRefusal,
>)
    ensures
        flag == flag_field(*heap, pairs@, field),
{
    match raw_required_field(heap, pairs, field) {
        Err(refusal) => Err(refusal),
        Ok(value) => required_bool(heap, value),
    }
}

/// The texts of a cookie, read in order.
pub open spec fn texts_of(heap: Heap, pairs: Seq<Pair>) -> Result<CookieTexts, SnapshotRefusal> {
    match field_of(heap, pairs, CookieField::Name) {
        Err(refusal) => Err(refusal),
        Ok(name) => match required_text(heap, name) {
            Err(refusal) => Err(refusal),
            Ok(name) => match text_field(heap, pairs, CookieField::Value) {
                Err(refusal) => Err(refusal),
                Ok(value) => match text_field(heap, pairs, CookieField::Domain) {
                    Err(refusal) => Err(refusal),
                    Ok(domain) => match text_field(heap, pairs, CookieField::Path) {
                        Err(refusal) => Err(refusal),
                        Ok(path) => Ok(CookieTexts { name, value, domain, path }),
                    },
                },
            },
        },
    }
}

/// A cookie's flags and expiry, read in order.
pub open spec fn lifetime_of(heap: Heap, pairs: Seq<Pair>) -> Result<
    (bool, Option<i64>, bool),
    SnapshotRefusal,
> {
    match flag_field(heap, pairs, CookieField::Secure) {
        Err(refusal) => Err(refusal),
        Ok(secure) => match field_of(heap, pairs, CookieField::Expires) {
            Err(refusal) => Err(refusal),
            Ok(expires) => match optional_number(heap, expires) {
                Err(refusal) => Err(refusal),
                Ok(expires) => match flag_field(heap, pairs, CookieField::Discard) {
                    Err(refusal) => Err(refusal),
                    Ok(discard) => Ok((secure, expires, discard)),
                },
            },
        },
    }
}

/// A cookie as its own name space gives it.
pub open spec fn snapshot_from(heap: Heap, pairs: Seq<Pair>) -> Result<SnapshotView, SnapshotRefusal> {
    match field_of(heap, pairs, CookieField::Rest) {
        Err(refusal) => Err(refusal),
        Ok(rest) => match heap.dict_of(rest) {
            None => Err(SnapshotRefusal::Failed(Failure::Kind)),
            Some(entries) => match rest_of(heap, entries) {
                Err(refusal) => Err(refusal),
                Ok(rest) => match texts_of(heap, pairs) {
                    Err(refusal) => Err(refusal),
                    Ok(texts) => match lifetime_of(heap, pairs) {
                        Err(refusal) => Err(refusal),
                        Ok((secure, expires, discard)) => Ok(
                            SnapshotView {
                                name: texts.name,
                                value: texts.value,
                                domain: texts.domain,
                                path: texts.path,
                                secure,
                                expires,
                                discard,
                                rest,
                            },
                        ),
                    },
                },
            },
        },
    }
}

/// A cookie, or why it cannot be read natively.
pub open spec fn snapshot_of(heap: Heap, state: CookieView, cookie: usize) -> Result<
    SnapshotView,
    SnapshotRefusal,
> {
    if !cookie_layout_pristine(heap, state, cookie) {
        Err(SnapshotRefusal::Layout)
    } else {
        match namespace_pairs(heap, cookie) {
            Err(failure) => Err(SnapshotRefusal::Failed(failure)),
            Ok(pairs) => if !has_text_keys(heap, pairs) {
                Err(SnapshotRefusal::Keys)
            } else {
                snapshot_from(heap, pairs)
            },
        }
    }
}

/// Reads a cookie from its own name space.
fn read_snapshot(heap: &Heap, pairs: &Vec<Pair>) -> (snapshot: Result<
    CookieSnapshot,
    SnapshotRefusal,
>)
    ensures
        match snapshot {
            Ok(snapshot) => snapshot_from(*heap, pairs@) == Ok::<SnapshotView, SnapshotRefusal>(
                snapshot@,
            ),
            Err(refusal) => snapshot_from(*heap, pairs@) == Err::<SnapshotView, SnapshotRefusal>(
                refusal,
            ),
        },
{
    let rest = match raw_required_field(heap, pairs, CookieField::Rest) {
        Ok(rest) => rest,
        Err(refusal) => {
            return Err(refusal);
        },
    };
    let entries = match heap.dict(rest) {
        Some(entries) => entries,
        None => {
            return Err(SnapshotRefusal::Failed(Failure::Kind));
        },
    };
    let rest = match read_rest(heap, entries) {
        Ok(rest) => rest,
        Err(refusal) => {
            return Err(refusal);
        },
    };
    let name = match raw_required_field(heap, pairs, CookieField::Name) {
        Ok(name) => name,
        Err(refusal) => {
            return Err(refusal);
        },
    };
    let name = match required_string(heap, name) {
        Ok(name) => name,
        Err(refusal) => {
            return Err(refusal);
        },
    };
    let value = match read_text_field(heap, pairs, CookieField::Value) {
        Ok(value) => value,
        Err(refusal) => {
            return Err(refusal);
        },
    };
    let domain = match read_text_field(heap, pairs, CookieField::Domain) {
        Ok(domain) => domain,
        Err(refusal) => {
            return Err(refusal);
        },
    };
    let path = match read_text_field(heap, pairs, CookieField::Path) {
        Ok(path) => path,
        Err(refusal) => {
            return Err(refusal);
        },
    };
    let secure = match read_flag_field(heap, pairs, CookieField::Secure) {
        Ok(secure) => secure,
        Err(refusal) => {
            return Err(refusal);
        },
    };
    let expires = match raw_required_field(heap, pairs, CookieField::Expires) {
        Ok(expires) => expires,
        Err(refusal) => {
            return Err(refusal);
        },
    };
    let expires = match optional_integer(heap, expires) {
        Ok(expires) => expires,
        Err(refusal) => {
            return Err(refusal);
        },
    };
    match read_flag_field(heap, pairs, CookieField::Discard) {
        Ok(discard) => Ok(
            CookieSnapshot { name, value, domain, path, secure, expires, discard, rest },
        ),
        Err(refusal) => Err(refusal),
    }
}

/// Reads a cookie, where it can be read natively.
pub fn raw_cookie_snapshot(heap: &Heap, state: &CookieState, cookie: usize) -> (snapshot: Result<
    CookieSnapshot,
    SnapshotRefusal,
>)
    ensures
        match snapshot {
            Ok(snapshot) => snapshot_of(*heap, state@, cookie) == Ok::<
                SnapshotView,
                SnapshotRefusal,
            >(snapshot@),
            Err(refusal) => snapshot_of(*heap, state@, cookie) == Err::<
                SnapshotView,
                SnapshotRefusal,
            >(refusal),
        },
{
    if !cookie_layout_is_pristine(heap, state, cookie) {
        return Err(SnapshotRefusal::Layout);
    }
    let pairs = match raw_instance_dict(heap, cookie) {
        Ok(pairs) => pairs,
        Err(failure) => {
            return Err(SnapshotRefusal::Failed(failure));
        },
    };
    if !keys_are_texts(heap, pairs) {
        return Err(SnapshotRefusal::Keys);
    }
    read_snapshot(heap, pairs)
}

/// Whether a dict maps exact texts to cookies that can be read.
pub open spec fn names_supported(heap: Heap, state: CookieView, names: Seq<Pair>) -> bool {
    forall|i: int|
        0 <= i < names.len() ==> {
            &&& is_exact_text(heap, (#[trigger] names[i]).key)
            &&& snapshot_of(heap, state, names[i].value) is Ok
        }
}

/// Whether a dict maps exact texts to dicts of cookies that can be read.
pub open spec fn paths_supported(heap: Heap, state: CookieView, paths: Seq<Pair>) -> bool {
    forall|i: int|
        0 <= i < paths.len() ==> {
            &&& is_exact_text(heap, (#[trigger] paths[i]).key)
            &&& exact_dict_of(heap, paths[i].value) matches Some(names)
            &&& names_supported(heap, state, names)
        }
}

/// Whether a dict maps exact texts to dicts of paths.
pub open spec fn domains_supported(heap: Heap, state: CookieView, domains: Seq<Pair>) -> bool {
    forall|i: int|
        0 <= i < domains.len() ==> {
            &&& is_exact_text(heap, (#[trigger] domains[i]).key)
            &&& exact_dict_of(heap, domains[i].value) matches Some(paths)
            &&& paths_supported(heap, state, paths)
        }
}

/// Whether a dict maps exact texts to cookies that can be read.
fn check_names(heap: &Heap, state: &CookieState, names: &Vec<Pair>) -> (yes: bool)
    ensures
        yes == names_supported(*heap, state@, names@),
{
    let mut index: usize = 0;
    while index < names.len()
        invariant
            index <= names.len(),
            forall|i: int|
                0 <= i < index ==> {
                    &&& is_exact_text(*heap, (#[trigger] names@[i]).key)
                    &&& snapshot_of(*heap, state@, names@[i].value) is Ok
                },
        decreases names.len() - index,
    {
        let supported = exact_string_item(heap, names[index].key) && raw_cookie_snapshot(
            heap,
            state,
            names[index].value,
        ).is_ok();
        if !supported {
            assert(!(is_exact_text(*heap, names@[index as int].key) && snapshot_of(
                *heap,
                state@,
                names@[index as int].value,
            ) is Ok));
            return false;
        }
        index = index + 1;
    }
    true
}

/// Whether a dict maps exact texts to dicts of cookies that can be read.
fn check_paths(heap: &Heap, state: &CookieState, paths: &Vec<Pair>) -> (yes: bool)
    ensures
        yes == paths_supported(*heap, state@, paths@),
{
    let mut index: usize = 0;
    while index < paths.len()
        invariant
            index <= paths.len(),
            forall|i: int|
                0 <= i < index ==> {
                    &&& is_exact_text(*heap, (#[trigger] paths@[i]).key)
                    &&& exact_dict_of(*heap, paths@[i].value) matches Some(names)
                    &&& names_supported(*heap, state@, names)
                },
        decreases paths.len() - index,
    {
        let ghost entry = paths@[index as int];
        if !exact_string_item(heap, paths[index].key) {
            assert(!is_exact_text(*heap, entry.key));
            return false;
        }
        match exact_dict(heap, paths[index].value) {
            None => {
                assert(exact_dict_of(*heap, entry.value) is None);
                return false;
            },
            Some(names) => if !check_names(heap, state, names) {
                assert(exact_dict_of(*heap, entry.value) == Some(names@));
                return false;
            },
        }
        index = index + 1;
    }
    true
}

/// Whether a dict maps exact texts to dicts of paths.
fn check_domains(heap: &Heap, state: &CookieState, domains: &Vec<Pair>) -> (yes: bool)
    ensures
        yes == domains_supported(*heap, state@, domains@),
{
    let mut index: usize = 0;
    while index < domains.len()
        invariant
            index <= domains.len(),
            forall|i: int|
                0 <= i < index ==> {
                    &&& is_exact_text(*heap, (#[trigger] domains@[i]).key)
                    &&& exact_dict_of(*heap, domains@[i].value) matches Some(paths)
                    &&& paths_supported(*heap, state@, paths)
                },
        decreases domains.len() - index,
    {
        let ghost entry = domains@[index as int];
        if !exact_string_item(heap, domains[index].key) {
            assert(!is_exact_text(*heap, entry.key));
            return false;
        }
        match exact_dict(heap, domains[index].value) {
            None => {
                assert(exact_dict_of(*heap, entry.value) is None);
                return false;
            },
            Some(paths) => if !check_paths(heap, state, paths) {
                assert(exact_dict_of(*heap, entry.value) == Some(paths@));
                return false;
            },
        }
        index = index + 1;
    }
    true
}

/// Whether everything in a jar can be read natively.
pub open spec fn jar_supported(heap: Heap, state: CookieView, jar: usize) -> Check {
    both(
        jar_layout_pristine(heap, state, jar),
        match namespace_pairs(heap, jar) {
            Err(failure) => Err(failure),
            Ok(pairs) => match heap.keyed(pairs, "_cookies"@) {
                None => Err(Failure::Attribute),
                Some(cookies) => match heap.dict_of(cookies) {
                    None => Err(Failure::Kind),
                    Some(domains) => Ok(domains_supported(heap, state, domains)),
                },
            },
        },
    )
}

/// Whether everything in a jar can be read natively.
pub fn snapshot_shape_is_supported(heap: &Heap, state: &CookieState, jar: usize) -> (check: Check)
    ensures
        check == jar_supported(*heap, state@, jar),
{
    match jar_layout_is_pristine(heap, state, jar) {
        Ok(true) => {},
        other => {
            return other;
        },
    }
    let pairs = match raw_instance_dict(heap, jar) {
        Ok(pairs) => pairs,
        Err(failure) => {
            return Err(failure);
        },
    };
    let cookies = match heap.find_keyed(pairs, "_cookies") {
        Some(cookies) => cookies,
        None => {
            return Err(Failure::Attribute);
        },
    };
    match heap.dict(cookies) {
        None => Err(Failure::Kind),
        Some(domains) => Ok(check_domains(heap, state, domains)),
    }
}

/// The value that stands at three places in the nested dicts of a jar.
pub open spec fn cookie_at(heap: Heap, jar: usize, domain: int, path: int, name: int) -> Option<usize> {
    match namespace_pairs(heap, jar) {
        Err(_) => None,
        Ok(pairs) => match heap.keyed(pairs, "_cookies"@) {
            None => None,
            Some(cookies) => match heap.dict_of(cookies) {
                Some(domains) if 0 <= domain < domains.len() => match exact_dict_of(
                    heap,
                    domains[domain].value,
                ) {
                    Some(paths) if 0 <= path < paths.len() => match exact_dict_of(
                        heap,
                        paths[path].value,
                    ) {
                        Some(names) if 0 <= name < names.len() => Some(names[name].value),
                        _ => None,
                    },
                    _ => None,
                },
                _ => None,
            },
        },
    }
}

/// One cookie that cannot be read, in whatever domain and path, keeps the whole
/// jar from being worked on natively.
pub proof fn law_one_odd_cookie_refuses_the_jar(
    heap: Heap,
    state: CookieView,
    jar: usize,
    domain: int,
    path: int,
    name: int,
)
    requires
        cookie_at(heap, jar, domain, path, name) matches Some(cookie) && snapshot_of(
            heap,
            state,
            cookie,
        ) is Err,
    ensures
        jar_supported(heap, state, jar) != Ok::<bool, Failure>(true),
{
    match namespace_pairs(heap, jar) {
        Err(_) => {},
        Ok(pairs) => match heap.keyed(pairs, "_cookies"@) {
            None => {},
            Some(cookies) => match heap.dict_of(cookies) {
                None => {},
                Some(domains) => match exact_dict_of(heap, domains[domain].value) {
                    None => {},
                    Some(paths) => match exact_dict_of(heap, paths[path].value) {
                        None => {},
                        Some(names) => {
                            let entry = names[name];
                            assert(snapshot_of(heap, state, entry.value) is Err);
                            assert(!names_supported(heap, state, names));
                            let inner = paths[path];
                            assert(!paths_supported(heap, state, paths));
                            let outer = domains[domain];
                            assert(!domains_supported(heap, state, domains));
                        },
                    },
                },
            },
        },
    }
}

/// Whether a cookie holds a text, or nothing, under a name.
pub open spec fn holds_optional(
    heap: Heap,
    pairs: Seq<Pair>,
    name: Seq<char>,
    text: Option<Seq<char>>,
) -> bool {
    &&& heap.keyed(pairs, name) matches Some(value)
    &&& if heap.is_none_value(value) {
        text is None
    } else {
        is_exact_text(heap, value) && text is Some && heap.text_of(value) == text
    }
}

/// Whether a cookie holds a truth value under a name.
pub open spec fn holds_flag(heap: Heap, pairs: Seq<Pair>, name: Seq<char>, flag: bool) -> bool {
    heap.keyed(pairs, name) matches Some(value) && exact_bool_value(heap, value) == Some(flag)
}

/// Whether a cookie holds a number, or nothing, under a name.
pub open spec fn holds_number(
    heap: Heap,
    pairs: Seq<Pair>,
    name: Seq<char>,
    number: Option<i64>,
) -> bool {
    &&& heap.keyed(pairs, name) matches Some(value)
    &&& if heap.is_none_value(value) {
        number is None
    } else {
        heap.is_exactly(value, heap.intrinsics.int) && (number matches Some(known) && heap.int_of(
            value,
        ) == Some(known as int))
    }
}

/// A snapshot says of a cookie exactly what the cookie holds, each part under its
/// own name.
pub proof fn law_snapshots_say_what_cookies_hold(
    heap: Heap,
    state: CookieView,
    cookie: usize,
    snapshot: SnapshotView,
)
    ensures
        snapshot_of(heap, state, cookie) == Ok::<SnapshotView, SnapshotRefusal>(snapshot) <==> {
            &&& cookie_layout_pristine(heap, state, cookie)
            &&& namespace_pairs(heap, cookie) matches Ok(pairs)
            &&& has_text_keys(heap, pairs)
            &&& heap.keyed(pairs, "_rest"@) matches Some(rest)
            &&& heap.dict_of(rest) matches Some(entries)
            &&& rest_of(heap, entries) == Ok::<Seq<(Seq<char>, ScalarView)>, SnapshotRefusal>(
                snapshot.rest,
            )
            &&& heap.keyed(pairs, "name"@) matches Some(name)
            &&& is_exact_text(heap, name)
            &&& heap.text_of(name) == Some(snapshot.name)
            &&& holds_optional(heap, pairs, "value"@, snapshot.value)
            &&& holds_optional(heap, pairs, "domain"@, snapshot.domain)
            &&& holds_optional(heap, pairs, "path"@, snapshot.path)
            &&& holds_flag(heap, pairs, "secure"@, snapshot.secure)
            &&& holds_number(heap, pairs, "expires"@, snapshot.expires)
            &&& holds_flag(heap, pairs, "discard"@, snapshot.discard)
        },
{
}

/// What else a cookie holds is told in its order, one row for each entry, with the
/// entry's own name and value.
pub proof fn law_rows_of_the_rest(
    heap: Heap,
    pairs: Seq<Pair>,
    rest: Seq<(Seq<char>, ScalarView)>,
)
    requires
        rest_of(heap, pairs) == Ok::<Seq<(Seq<char>, ScalarView)>, SnapshotRefusal>(rest),
    ensures
        rest.len() == pairs.len(),
        forall|index: int|
            0 <= index < pairs.len() ==> is_exact_text(heap, (#[trigger] pairs[index]).key)
                && heap.text_of(pairs[index].key) == Some(rest[index].0) && scalar_of(
                heap,
                pairs[index].value,
            ) == Ok::<ScalarView, SnapshotRefusal>(rest[index].1),
    decreases pairs.len(),
{
    if pairs.len() > 0 {
        let front = pairs.drop_last();
        let before = rest_of(heap, front)->Ok_0;
        law_rows_of_the_rest(heap, front, before);
        assert forall|index: int| 0 <= index < pairs.len() implies is_exact_text(
            heap,
            (#[trigger] pairs[index]).key,
        ) && heap.text_of(pairs[index].key) == Some(rest[index].0) && scalar_of(
            heap,
            pairs[index].value,
        ) == Ok::<ScalarView, SnapshotRefusal>(rest[index].1) by {
            if index < front.len() {
                assert(front[index] == pairs[index]);
                assert(rest[index] == before[index]);
            }
        }
    }
}

/// A plain value is told as what it is, and nothing else is told.
pub proof fn law_plain_values_are_told_as_they_are(heap: Heap, value: usize)
    ensures
        scalar_of(heap, value) == Ok::<ScalarView, SnapshotRefusal>(ScalarView::Nothing)
            <==> heap.is_none_value(value),
        scalar_of(heap, value) matches Ok(ScalarView::Flag(flag)) ==> heap.bool_of(value) == Some(
            flag,
        ) && heap.is_exactly(value, heap.intrinsics.boolean),
        scalar_of(heap, value) matches Ok(ScalarView::Integer(number)) ==> heap.int_of(value)
            == Some(number as int) && heap.is_exactly(value, heap.intrinsics.int),
        scalar_of(heap, value) matches Ok(ScalarView::Text(text)) ==> heap.text_of(value) == Some(
            text,
        ) && is_exact_text(heap, value),
        scalar_of(heap, value) is Ok ==> heap.is_none_value(value) || heap.is_exactly(
            value,
            heap.intrinsics.boolean,
        ) || heap.is_exactly(value, heap.intrinsics.int) || is_exact_text(heap, value),
        scalar_of(heap, value) == Err::<ScalarView, SnapshotRefusal>(SnapshotRefusal::RestValue)
            <==> !heap.is_none_value(value) && !heap.is_exactly(value, heap.intrinsics.boolean)
            && !heap.is_exactly(value, heap.intrinsics.int) && !is_exact_text(heap, value),
{
}

/// A jar is laid out as expected exactly where it is of one of the two classes
/// that were first met, its line of descent is that of its class, it gets its
/// attributes plainly, and it holds a plain table of cookies.
pub proof fn law_layouts_of_jars(heap: Heap, state: CookieView, jar: usize)
    ensures
        jar_layout_pristine(heap, state, jar) == Ok::<bool, Failure>(true) ==> {
            &&& heap.is_exactly(jar, state.objects.jar_type) ==> heap.mro_of(class_at(heap, jar))
                == state.jar_mro
            &&& !heap.is_exactly(jar, state.objects.jar_type) ==> heap.is_exactly(
                jar,
                state.objects.std_jar_type,
            ) && heap.mro_of(class_at(heap, jar)) == state.std_jar_mro
            &&& type_entry_is(
                heap,
                class_at(heap, jar),
                "__getattribute__"@,
                state.object_getattribute,
            )
            &&& heap.type_entry_of(class_at(heap, jar), "_cookies"@) is None
            &&& heap.type_entry_of(class_at(heap, jar), "_policy"@) is None
            &&& namespace_pairs(heap, jar) matches Ok(pairs)
            &&& has_text_keys(heap, pairs)
            &&& heap.keyed(pairs, "_cookies"@) matches Some(cookies)
            &&& heap.is_exactly(cookies, heap.intrinsics.dict)
        },
{
    let fields = jar_fields();
    assert(fields[0]@ == "_cookies"@ && fields[1]@ == "_policy"@);
}

/// A cookie is laid out as expected exactly where it is of the class that was
/// first met and the class hides none of its fields.
pub proof fn law_layouts_of_cookies(heap: Heap, state: CookieView, cookie: usize)
    ensures
        cookie_layout_pristine(heap, state, cookie) <==> {
            let class = class_at(heap, cookie);
            &&& heap.is_exactly(cookie, state.objects.cookie_type)
            &&& heap.mro_of(class) == state.cookie_mro
            &&& type_entry_is(heap, class, "__getattribute__"@, state.object_getattribute)
            &&& heap.type_entry_of(class, "_rest"@) is None
            &&& heap.type_entry_of(class, "name"@) is None
            &&& heap.type_entry_of(class, "value"@) is None
            &&& heap.type_entry_of(class, "domain"@) is None
            &&& heap.type_entry_of(class, "path"@) is None
            &&& heap.type_entry_of(class, "secure"@) is None
            &&& heap.type_entry_of(class, "expires"@) is None
            &&& heap.type_entry_of(class, "discard"@) is None
        },
{
    let fields = cookie_fields();
    assert(fields.len() == 8);
    assert(fields[0]@ == "_rest"@ && fields[1]@ == "name"@ && fields[2]@ == "value"@
        && fields[3]@ == "domain"@ && fields[4]@ == "path"@ && fields[5]@ == "secure"@
        && fields[6]@ == "expires"@ && fields[7]@ == "discard"@);
    let class = class_at(heap, cookie);
    if has_no_entries(heap, class, fields) {
        assert(heap.type_entry_of(class, fields[0]@) is None && heap.type_entry_of(
            class,
            fields[1]@,
        ) is None && heap.type_entry_of(class, fields[2]@) is None && heap.type_entry_of(
            class,
            fields[3]@,
        ) is None && heap.type_entry_of(class, fields[4]@) is None && heap.type_entry_of(
            class,
            fields[5]@,
        ) is None && heap.type_entry_of(class, fields[6]@) is None && heap.type_entry_of(
            class,
            fields[7]@,
        ) is None);
    }
}

/// Whether a morsel holds a text under a name, or also a truth value.
pub open spec fn morsel_item(heap: Heap, pairs: Seq<Pair>, name: Seq<char>, flags: bool) -> bool {
    heap.keyed(pairs, name) matches Some(value) && (is_exact_text(heap, value) || (flags
        && heap.is_exactly(value, heap.intrinsics.boolean)))
}

/// A morsel is supported exactly where it is laid out as expected, its key, its
/// value and each of its items are texts, and its two flags are texts or truth
/// values.
pub proof fn law_supported_morsels(heap: Heap, state: CookieView, morsel: usize)
    ensures
        morsel_supported(heap, state, morsel) == Ok::<bool, Failure>(true) <==> {
            &&& morsel_layout_pristine(heap, state, morsel)
            &&& heap.dict_of(morsel) matches Some(pairs)
            &&& has_text_keys(heap, pairs)
            &&& morsel_item(heap, pairs, "max-age"@, false)
            &&& morsel_item(heap, pairs, "expires"@, false)
            &&& morsel_item(heap, pairs, "version"@, false)
            &&& morsel_item(heap, pairs, "domain"@, false)
            &&& morsel_item(heap, pairs, "path"@, false)
            &&& morsel_item(heap, pairs, "comment"@, false)
            &&& morsel_item(heap, pairs, "secure"@, true)
            &&& morsel_item(heap, pairs, "httponly"@, true)
            &&& heap.attribute_of(morsel, "key"@) matches Some(key) && is_exact_text(heap, key)
            &&& heap.attribute_of(morsel, "value"@) matches Some(value) && is_exact_text(
                heap,
                value,
            )
        },
{
    if let Some(pairs) = heap.dict_of(morsel) {
        let texts = morsel_texts();
        let flags = morsel_flags();
        lemma_items_are_each(heap, pairs, texts, false);
        lemma_items_are_each(heap, pairs, flags, true);
        assert(texts.len() == 6 && flags.len() == 2);
        assert(texts[0]@ == "max-age"@ && texts[1]@ == "expires"@ && texts[2]@ == "version"@
            && texts[3]@ == "domain"@ && texts[4]@ == "path"@ && texts[5]@ == "comment"@);
        assert(flags[0]@ == "secure"@ && flags[1]@ == "httponly"@);
    }
}

proof fn lemma_items_are_each(
    heap: Heap,
    pairs: Seq<Pair>,
    names: Seq<&'static str>,
    flags: bool,
)
    ensures
        items_are(heap, pairs, names, flags) == Ok::<bool, Failure>(true) <==> forall|index: int|
            0 <= index < names.len() ==> morsel_item(heap, pairs, (#[trigger] names[index])@, flags),
    decreases names.len(),
{
    if names.len() > 0 {
        let rest = names.drop_first();
        lemma_items_are_each(heap, pairs, rest, flags);
        if forall|index: int|
            0 <= index < names.len() ==> morsel_item(
                heap,
                pairs,
                (#[trigger] names[index])@,
                flags,
            ) {
            assert(morsel_item(heap, pairs, names[0]@, flags));
            assert forall|index: int| 0 <= index < rest.len() implies morsel_item(
                heap,
                pairs,
                (#[trigger] rest[index])@,
                flags,
            ) by {
                assert(rest[index] == names[index + 1]);
            }
        }
        if items_are(heap, pairs, names, flags) == Ok::<bool, Failure>(true) {
            assert forall|index: int| 0 <= index < names.len() implies morsel_item(
                heap,
                pairs,
                (#[trigger] names[index])@,
                flags,
            ) by {
                if index > 0 {
                    assert(rest[index - 1] == names[index]);
                }
            }
        }
    }
}

/// A jar is supported only where each cookie in it gives a snapshot, and each of
/// its tables is a plain one of texts.
pub proof fn law_supported_jars(
    heap: Heap,
    state: CookieView,
    jar: usize,
    domain: int,
    path: int,
    name: int,
)
    requires
        jar_supported(heap, state, jar) == Ok::<bool, Failure>(true),
    ensures
        jar_layout_pristine(heap, state, jar) == Ok::<bool, Failure>(true),
        cookie_at(heap, jar, domain, path, name) matches Some(cookie) ==> snapshot_of(
            heap,
            state,
            cookie,
        ) is Ok,
{
    if cookie_at(heap, jar, domain, path, name) is Some {
        if snapshot_of(heap, state, cookie_at(heap, jar, domain, path, name)->Some_0) is Err {
            law_one_odd_cookie_refuses_the_jar(heap, state, jar, domain, path, name);
        }
    }
}

} // verus!
