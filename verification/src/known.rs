//! Module values whose contents are known, and the checks that an object still
//! holds them.

use vstd::prelude::*;
use vstd::string::StringExecFns;
use vstd::string::StringSliceAdditionalSpecFns;

use crate::heap::{Check, Failure, Heap, Payload};
use crate::heap::{both, lemma_same_members};
use crate::intrinsic::{builtin_function, intrinsic_builtin_is, IntrinsicBuiltin};
use crate::intrinsic::{is_builtin_function, is_intrinsic};
use crate::patterns::{known_regex_is, same_bytes, KnownRegex};
use crate::patterns::is_regex;
use crate::text::{chars_of, render_decimal, same_text};
use crate::text::decimal;

verus! {

/// A set of characters that a module keeps.
#[derive(Clone, Copy, Debug, PartialEq, Eq, Structural)]
pub enum CharacterSet {
    Unreserved,
    UserInfo,
    Path,
    QueryOrFragment,
}

impl CharacterSet {
    /// The characters of the set, each once.
    pub open spec fn characters(self) -> Seq<char> {
        match self {
            CharacterSet::Unreserved =>
                "-.0123456789ABCDEFGHIJKLMNOPQRSTUVWXYZ_abcdefghijklmnopqrstuvwxyz~"@,
            CharacterSet::UserInfo =>
                "!$&'()*+,-.0123456789:;=ABCDEFGHIJKLMNOPQRSTUVWXYZ_abcdefghijklmnopqrstuvwxyz~"@,
            CharacterSet::Path =>
                "!$&'()*+,-./0123456789:;=@ABCDEFGHIJKLMNOPQRSTUVWXYZ_abcdefghijklmnopqrstuvwxyz~"@,
            CharacterSet::QueryOrFragment =>
                "!$&'()*+,-./0123456789:;=?@ABCDEFGHIJKLMNOPQRSTUVWXYZ_abcdefghijklmnopqrstuvwxyz~"@,
        }
    }

    /// The characters of the set.
    pub fn text(&self) -> (text: &'static str)
        ensures
            text@ == self.characters(),
    {
        match self {
            CharacterSet::Unreserved =>
                "-.0123456789ABCDEFGHIJKLMNOPQRSTUVWXYZ_abcdefghijklmnopqrstuvwxyz~",
            CharacterSet::UserInfo =>
                "!$&'()*+,-.0123456789:;=ABCDEFGHIJKLMNOPQRSTUVWXYZ_abcdefghijklmnopqrstuvwxyz~",
            CharacterSet::Path =>
                "!$&'()*+,-./0123456789:;=@ABCDEFGHIJKLMNOPQRSTUVWXYZ_abcdefghijklmnopqrstuvwxyz~",
            CharacterSet::QueryOrFragment =>
                "!$&'()*+,-./0123456789:;=?@ABCDEFGHIJKLMNOPQRSTUVWXYZ_abcdefghijklmnopqrstuvwxyz~",
        }
    }
}

/// A class of `urllib.parse` that quotes bytes.
#[derive(Clone, Copy, Debug, PartialEq, Eq, Structural)]
pub enum QuoterClass {
    /// The public one, a `defaultdict`.
    Quoter,
    /// The private one, a `dict`.
    PrivateQuoter,
}

impl QuoterClass {
    pub open spec fn spelled(self) -> Seq<char> {
        match self {
            QuoterClass::Quoter => "Quoter"@,
            QuoterClass::PrivateQuoter => "_Quoter"@,
        }
    }

    pub fn name(&self) -> (name: &'static str)
        ensures
            name@ == self.spelled(),
    {
        match self {
            QuoterClass::Quoter => "Quoter",
            QuoterClass::PrivateQuoter => "_Quoter",
        }
    }
}

/// What a module's global is known to hold.
#[derive(Clone, Copy, Debug, PartialEq, Eq, Structural)]
pub enum KnownValue {
    Intrinsic(IntrinsicBuiltin),
    IntrinsicPair(IntrinsicBuiltin, IntrinsicBuiltin),
    /// The tuple of `http`, `https` and `None`.
    NormalizableSchemes,
    TextSet(CharacterSet),
    TextFrozenSet(CharacterSet),
    /// A list of texts that holds at least `http` and `https`.
    NetlocSchemes,
    /// The unreserved characters as bytes.
    AlwaysSafeBytes,
    EmptyDict,
    UrlType,
    ByteQuoterFactory,
    QuoterType(QuoterClass),
    Regex(KnownRegex),
    RegexPair(KnownRegex, KnownRegex),
}

/// The code that a known class or factory was loaded with.
#[derive(Clone, Copy, Debug, PartialEq, Eq, Structural)]
pub enum KnownCode {
    Url { new: usize, globals: usize, builtins: usize },
    ByteQuoterFactory { factory: usize, quoter_init: usize, quoter_missing: usize, globals: usize },
    QuoterType { init: usize, missing: usize, globals: usize },
}

/// What the global `name` of `module` is known to hold, if anything.
pub open spec fn known_in_module(module: Seq<char>, name: Seq<char>) -> Option<KnownValue> {
    if module == "requests.models"@ && name == "basestring"@ {
        Some(KnownValue::IntrinsicPair(IntrinsicBuiltin::Str, IntrinsicBuiltin::Bytes))
    } else if module == "requests._internal_utils"@ && name == "builtin_str"@ {
        Some(KnownValue::Intrinsic(IntrinsicBuiltin::Str))
    } else if module == "requests.utils"@ && name == "str"@ {
        Some(KnownValue::Intrinsic(IntrinsicBuiltin::Str))
    } else if module == "requests.utils"@ && name == "bytes"@ {
        Some(KnownValue::Intrinsic(IntrinsicBuiltin::Bytes))
    } else if module == "requests.utils"@ && name == "_HEADER_VALIDATORS_STR"@ {
        Some(KnownValue::RegexPair(KnownRegex::HeaderNameText, KnownRegex::HeaderValueText))
    } else if module == "requests.utils"@ && name == "_HEADER_VALIDATORS_BYTE"@ {
        Some(KnownValue::RegexPair(KnownRegex::HeaderNameBytes, KnownRegex::HeaderValueBytes))
    } else if module == "requests.utils"@ && name == "UNRESERVED_SET"@ {
        Some(KnownValue::TextFrozenSet(CharacterSet::Unreserved))
    } else if module == "urllib3.util.url"@ && name == "_PERCENT_RE"@ {
        Some(KnownValue::Regex(KnownRegex::Percent))
    } else if module == "urllib3.util.url"@ && name == "_IPV4_RE"@ {
        Some(KnownValue::Regex(KnownRegex::Ipv4))
    } else if module == "urllib3.util.url"@ && name == "_SCHEME_RE"@ {
        Some(KnownValue::Regex(KnownRegex::Scheme))
    } else if module == "urllib3.util.url"@ && name == "_URI_RE"@ {
        Some(KnownValue::Regex(KnownRegex::Uri))
    } else if module == "urllib3.util.url"@ && name == "_IPV6_ADDRZ_RE"@ {
        Some(KnownValue::Regex(KnownRegex::Ipv6AddressWithZone))
    } else if module == "urllib3.util.url"@ && name == "_ZONE_ID_RE"@ {
        Some(KnownValue::Regex(KnownRegex::ZoneId))
    } else if module == "urllib3.util.url"@ && name == "_HOST_PORT_RE"@ {
        Some(KnownValue::Regex(KnownRegex::HostPort))
    } else if module == "urllib3.util.url"@ && name == "_UNRESERVED_CHARS"@ {
        Some(KnownValue::TextSet(CharacterSet::Unreserved))
    } else if module == "urllib3.util.url"@ && name == "_USERINFO_CHARS"@ {
        Some(KnownValue::TextSet(CharacterSet::UserInfo))
    } else if module == "urllib3.util.url"@ && name == "_PATH_CHARS"@ {
        Some(KnownValue::TextSet(CharacterSet::Path))
    } else if module == "urllib3.util.url"@ && name == "_QUERY_CHARS"@ {
        Some(KnownValue::TextSet(CharacterSet::QueryOrFragment))
    } else if module == "urllib3.util.url"@ && name == "_FRAGMENT_CHARS"@ {
        Some(KnownValue::TextSet(CharacterSet::QueryOrFragment))
    } else if module == "urllib3.util.url"@ && name == "_NORMALIZABLE_SCHEMES"@ {
        Some(KnownValue::NormalizableSchemes)
    } else if module == "urllib3.util.url"@ && name == "Url"@ {
        Some(KnownValue::UrlType)
    } else if module == "urllib.parse"@ && name == "_ALWAYS_SAFE_BYTES"@ {
        Some(KnownValue::AlwaysSafeBytes)
    } else if module == "urllib.parse"@ && name == "_byte_quoter_factory"@ {
        Some(KnownValue::ByteQuoterFactory)
    } else if module == "urllib.parse"@ && name == "_safe_quoters"@ {
        Some(KnownValue::EmptyDict)
    } else if module == "urllib.parse"@ && name == "Quoter"@ {
        Some(KnownValue::QuoterType(QuoterClass::Quoter))
    } else if module == "urllib.parse"@ && name == "uses_netloc"@ {
        Some(KnownValue::NetlocSchemes)
    } else {
        None
    }
}

/// What the global `name` of `module` is known to hold, if anything.
pub fn known_module_value(module: &str, name: &str) -> (known: Option<KnownValue>)
    ensures
        known == known_in_module(module@, name@),
{
    if same_text(module, "requests.models") && same_text(name, "basestring") {
        Some(KnownValue::IntrinsicPair(IntrinsicBuiltin::Str, IntrinsicBuiltin::Bytes))
    } else if same_text(module, "requests._internal_utils") && same_text(name, "builtin_str") {
        Some(KnownValue::Intrinsic(IntrinsicBuiltin::Str))
    } else if same_text(module, "requests.utils") && same_text(name, "str") {
        Some(KnownValue::Intrinsic(IntrinsicBuiltin::Str))
    } else if same_text(module, "requests.utils") && same_text(name, "bytes") {
        Some(KnownValue::Intrinsic(IntrinsicBuiltin::Bytes))
    } else if same_text(module, "requests.utils") && same_text(name, "_HEADER_VALIDATORS_STR") {
        Some(KnownValue::RegexPair(KnownRegex::HeaderNameText, KnownRegex::HeaderValueText))
    } else if same_text(module, "requests.utils") && same_text(name, "_HEADER_VALIDATORS_BYTE") {
        Some(KnownValue::RegexPair(KnownRegex::HeaderNameBytes, KnownRegex::HeaderValueBytes))
    } else if same_text(module, "requests.utils") && same_text(name, "UNRESERVED_SET") {
        Some(KnownValue::TextFrozenSet(CharacterSet::Unreserved))
    } else if same_text(module, "urllib3.util.url") && same_text(name, "_PERCENT_RE") {
        Some(KnownValue::Regex(KnownRegex::Percent))
    } else if same_text(module, "urllib3.util.url") && same_text(name, "_IPV4_RE") {
        Some(KnownValue::Regex(KnownRegex::Ipv4))
    } else if same_text(module, "urllib3.util.url") && same_text(name, "_SCHEME_RE") {
        Some(KnownValue::Regex(KnownRegex::Scheme))
    } else if same_text(module, "urllib3.util.url") && same_text(name, "_URI_RE") {
        Some(KnownValue::Regex(KnownRegex::Uri))
    } else if same_text(module, "urllib3.util.url") && same_text(name, "_IPV6_ADDRZ_RE") {
        Some(KnownValue::Regex(KnownRegex::Ipv6AddressWithZone))
    } else if same_text(module, "urllib3.util.url") && same_text(name, "_ZONE_ID_RE") {
        Some(KnownValue::Regex(KnownRegex::ZoneId))
    } else if same_text(module, "urllib3.util.url") && same_text(name, "_HOST_PORT_RE") {
        Some(KnownValue::Regex(KnownRegex::HostPort))
    } else if same_text(module, "urllib3.util.url") && same_text(name, "_UNRESERVED_CHARS") {
        Some(KnownValue::TextSet(CharacterSet::Unreserved))
    } else if same_text(module, "urllib3.util.url") && same_text(name, "_USERINFO_CHARS") {
        Some(KnownValue::TextSet(CharacterSet::UserInfo))
    } else if same_text(module, "urllib3.util.url") && same_text(name, "_PATH_CHARS") {
        Some(KnownValue::TextSet(CharacterSet::Path))
    } else if same_text(module, "urllib3.util.url") && same_text(name, "_QUERY_CHARS") {
        Some(KnownValue::TextSet(CharacterSet::QueryOrFragment))
    } else if same_text(module, "urllib3.util.url") && same_text(name, "_FRAGMENT_CHARS") {
        Some(KnownValue::TextSet(CharacterSet::QueryOrFragment))
    } else if same_text(module, "urllib3.util.url") && same_text(name, "_NORMALIZABLE_SCHEMES") {
        Some(KnownValue::NormalizableSchemes)
    } else if same_text(module, "urllib3.util.url") && same_text(name, "Url") {
        Some(KnownValue::UrlType)
    } else if same_text(module, "urllib.parse") && same_text(name, "_ALWAYS_SAFE_BYTES") {
        Some(KnownValue::AlwaysSafeBytes)
    } else if same_text(module, "urllib.parse") && same_text(name, "_byte_quoter_factory") {
        Some(KnownValue::ByteQuoterFactory)
    } else if same_text(module, "urllib.parse") && same_text(name, "_safe_quoters") {
        Some(KnownValue::EmptyDict)
    } else if same_text(module, "urllib.parse") && same_text(name, "Quoter") {
        Some(KnownValue::QuoterType(QuoterClass::Quoter))
    } else if same_text(module, "urllib.parse") && same_text(name, "uses_netloc") {
        Some(KnownValue::NetlocSchemes)
    } else {
        None
    }
}

/// The elements of a tuple of no subclass.
pub open spec fn exact_tuple_of(heap: Heap, object: usize) -> Option<Seq<usize>> {
    if heap.is_exactly(object, heap.intrinsics.tuple) {
        heap.tuple_of(object)
    } else {
        None
    }
}

/// The elements of a tuple of no subclass.
pub fn exact_tuple(heap: &Heap, object: usize) -> (elements: Option<&Vec<usize>>)
    ensures
        match elements {
            Some(elements) => exact_tuple_of(*heap, object) == Some(elements@),
            None => exact_tuple_of(*heap, object) is None,
        },
{
    if heap.exactly(object, heap.intrinsics.tuple) {
        heap.tuple(object)
    } else {
        None
    }
}

/// The text of an attribute.
pub open spec fn text_attribute(heap: Heap, object: usize, name: Seq<char>) -> Option<Seq<char>> {
    match heap.attribute_of(object, name) {
        Some(value) => heap.text_of(value),
        None => None,
    }
}

/// Whether the text of an attribute is `expected`.
pub fn text_attribute_equals(heap: &Heap, object: usize, name: &str, expected: &str) -> (yes: bool)
    ensures
        yes == (text_attribute(*heap, object, name@) == Some(expected@)),
{
    match heap.attribute(object, name) {
        Some(value) => heap.text_is(value, expected),
        None => false,
    }
}

/// Whether an attribute is a text of no subclass with these characters.
pub open spec fn exact_text_attribute_is(
    heap: Heap,
    object: usize,
    name: Seq<char>,
    expected: Seq<char>,
) -> bool {
    heap.attribute_of(object, name) matches Some(value) && heap.exact_text_of(value) == Some(
        expected,
    )
}

/// Whether an attribute is a text of no subclass with these characters.
pub fn exact_text_attribute_equals(heap: &Heap, object: usize, name: &str, expected: &str) -> (yes:
    bool)
    ensures
        yes == exact_text_attribute_is(*heap, object, name@, expected@),
{
    match heap.attribute(object, name) {
        Some(value) => heap.exact_text_is(value, expected),
        None => false,
    }
}

/// Whether a class is one of `type` itself with this module and name.
pub open spec fn is_class_named(
    heap: Heap,
    current: usize,
    module: Seq<char>,
    name: Seq<char>,
) -> bool {
    &&& heap.is_exactly(current, heap.intrinsics.type_type)
    &&& exact_text_attribute_is(heap, current, "__module__"@, module)
    &&& exact_text_attribute_is(heap, current, "__name__"@, name)
}

/// Whether a class is one of `type` itself with this module and name.
pub fn exact_type_identity_is(heap: &Heap, current: usize, module: &str, name: &str) -> (yes: bool)
    ensures
        yes == is_class_named(*heap, current, module@, name@),
{
    heap.exactly(current, heap.intrinsics.type_type) && exact_text_attribute_equals(
        heap,
        current,
        "__module__",
        module,
    ) && exact_text_attribute_equals(heap, current, "__name__", name)
}

/// An attribute that stands for nothing where it is `None`.
pub open spec fn present_attribute(heap: Heap, object: usize, name: Seq<char>) -> Option<usize> {
    match heap.attribute_of(object, name) {
        Some(value) => if heap.is_none_value(value) {
            None
        } else {
            Some(value)
        },
        None => None,
    }
}

/// An attribute that stands for nothing where it is `None`.
pub fn present(heap: &Heap, object: usize, name: &str) -> (value: Option<usize>)
    ensures
        value == present_attribute(*heap, object, name@),
{
    match heap.attribute(object, name) {
        Some(value) => if heap.none_value(value) {
            None
        } else {
            Some(value)
        },
        None => None,
    }
}

/// What a code object is compared by.
pub open spec fn code_equality(heap: Heap, code: usize) -> Option<u64> {
    match heap.at(code) {
        Some(found) => match found.payload {
            Payload::Code(facts) => Some(facts.equality),
            _ => None,
        },
        None => None,
    }
}

/// What a code object is compared by.
pub fn code_equality_of(heap: &Heap, code: usize) -> (equality: Option<u64>)
    ensures
        equality == code_equality(*heap, code),
{
    match heap.get(code) {
        Some(found) => match &found.payload {
            Payload::Code(facts) => Some(facts.equality),
            _ => None,
        },
        None => None,
    }
}

/// Whether two references are to code objects that compare equal.
pub open spec fn same_code(heap: Heap, left: usize, right: usize) -> bool {
    code_equality(heap, left) is Some && code_equality(heap, left) == code_equality(heap, right)
}

/// Whether two references are to code objects that compare equal.
pub fn codes_equal(heap: &Heap, left: usize, right: usize) -> (same: bool)
    ensures
        same == same_code(*heap, left, right),
{
    match (code_equality_of(heap, left), code_equality_of(heap, right)) {
        (Some(left), Some(right)) => left == right,
        _ => false,
    }
}

/// Whether an object is a Python function with that module, qualified name,
/// code and globals, no keyword defaults and no closure, and without defaults
/// (or, where it should have one, with a single `...`).
pub open spec fn is_source_function(
    heap: Heap,
    current: usize,
    module: Seq<char>,
    qualname: Seq<char>,
    code: usize,
    globals: usize,
    single_ellipsis_default: bool,
) -> bool {
    &&& heap.is_exactly(current, heap.intrinsics.function)
    &&& text_attribute(heap, current, "__module__"@) == Some(module)
    &&& text_attribute(heap, current, "__qualname__"@) == Some(qualname)
    &&& heap.attribute_of(current, "__code__"@) matches Some(own) && same_code(heap, own, code)
    &&& heap.attribute_of(current, "__globals__"@) == Some(globals)
    &&& present_attribute(heap, current, "__kwdefaults__"@) is None
    &&& present_attribute(heap, current, "__closure__"@) is None
    &&& match present_attribute(heap, current, "__defaults__"@) {
        None => !single_ellipsis_default,
        Some(defaults) => single_ellipsis_default && (exact_tuple_of(heap, defaults) matches Some(
            elements,
        ) && elements.len() == 1 && (heap.at(elements[0]) matches Some(only)
            && only.payload is Ellipsis)),
    }
}

/// Whether an object is a Python function as it was loaded.
pub fn exact_source_function_is(
    heap: &Heap,
    current: usize,
    module: &str,
    qualname: &str,
    code: usize,
    globals: usize,
    single_ellipsis_default: bool,
) -> (yes: bool)
    ensures
        yes == is_source_function(
            *heap,
            current,
            module@,
            qualname@,
            code,
            globals,
            single_ellipsis_default,
        ),
{
    if !heap.exactly(current, heap.intrinsics.function) || !text_attribute_equals(
        heap,
        current,
        "__module__",
        module,
    ) || !text_attribute_equals(heap, current, "__qualname__", qualname) {
        return false;
    }
    match heap.attribute(current, "__code__") {
        Some(own) => {
            if !codes_equal(heap, own, code) {
                return false;
            }
        },
        None => {
            return false;
        },
    }
    match heap.attribute(current, "__globals__") {
        Some(own) => {
            if own != globals {
                return false;
            }
        },
        None => {
            return false;
        },
    }
    if present(heap, current, "__kwdefaults__").is_some() || present(
        heap,
        current,
        "__closure__",
    ).is_some() {
        return false;
    }
    match present(heap, current, "__defaults__") {
        None => !single_ellipsis_default,
        Some(defaults) => {
            if !single_ellipsis_default {
                return false;
            }
            match exact_tuple(heap, defaults) {
                Some(elements) => elements.len() == 1 && match heap.get(elements[0]) {
                    Some(only) => match &only.payload {
                        Payload::Ellipsis => true,
                        _ => false,
                    },
                    None => false,
                },
                None => false,
            }
        },
    }
}

/// The flag of a type whose attributes cannot be set.
pub open spec fn immutable_flag(flags: u64) -> bool {
    flags & 0x100 != 0
}

/// The flags of a type.
pub open spec fn type_flags(heap: Heap, class: usize) -> Option<u64> {
    match heap.attribute_of(class, "__flags__"@) {
        Some(flags) => match heap.index_of(flags) {
            Some(value) => if 0 <= value <= u64::MAX {
                Some(value as u64)
            } else {
                None
            },
            None => None,
        },
        None => None,
    }
}

/// The flags of a type.
pub fn flags_of_type(heap: &Heap, class: usize) -> (flags: Option<u64>)
    ensures
        flags == type_flags(*heap, class),
{
    match heap.attribute(class, "__flags__") {
        Some(flags) => match heap.index_value(flags) {
            Some(value) => if 0 <= value && value <= u64::MAX as i128 {
                Some(value as u64)
            } else {
                None
            },
            None => None,
        },
        None => None,
    }
}

/// Whether a type is immutable.
pub open spec fn is_immutable(heap: Heap, class: usize) -> bool {
    type_flags(heap, class) matches Some(flags) && immutable_flag(flags)
}

/// Whether a type is immutable.
pub fn immutable(heap: &Heap, class: usize) -> (yes: bool)
    ensures
        yes == is_immutable(*heap, class),
{
    match flags_of_type(heap, class) {
        Some(flags) => flags & 0x100 != 0,
        None => false,
    }
}

/// The method resolution order of a class.
pub fn resolution_order(heap: &Heap, class: usize) -> (classes: Vec<usize>)
    ensures
        classes@ == heap.mro_of(class),
{
    match heap.attribute(class, "__mro__") {
        Some(order) => match heap.tuple(order) {
            Some(classes) => {
                let copied = classes.clone();
                assert(copied@ =~= classes@);
                copied
            },
            None => Vec::new(),
        },
        None => Vec::new(),
    }
}

/// Whether a type is an immutable one, derived from `object` alone, of this
/// module and qualified name.
pub open spec fn is_static_type(
    heap: Heap,
    class: usize,
    module: Seq<char>,
    name: Seq<char>,
) -> bool {
    &&& is_immutable(heap, class)
    &&& text_attribute(heap, class, "__module__"@) == Some(module)
    &&& text_attribute(heap, class, "__qualname__"@) == Some(name)
    &&& heap.mro_of(class) == seq![class, heap.intrinsics.object]
}

/// Whether a type is an immutable one, derived from `object` alone, of this
/// module and qualified name.
pub fn static_type_is(heap: &Heap, class: usize, module: &str, name: &str) -> (yes: bool)
    ensures
        yes == is_static_type(*heap, class, module@, name@),
{
    if !immutable(heap, class) || !text_attribute_equals(heap, class, "__module__", module)
        || !text_attribute_equals(heap, class, "__qualname__", name) {
        return false;
    }
    let order = resolution_order(heap, class);
    let yes = order.len() == 2 && order[0] == class && order[1] == heap.intrinsics.object;
    proof {
        let expected = seq![class, heap.intrinsics.object];
        if yes {
            assert(order@ =~= expected);
        } else if order@ == expected {
            assert(order@[0] == expected[0]);
            assert(order@[1] == expected[1]);
        }
    }
    yes
}

/// The byte that an object stands for.
pub open spec fn byte_of(heap: Heap, object: usize) -> Option<u8> {
    match heap.index_of(object) {
        Some(value) => if 0 <= value <= u8::MAX {
            Some(value as u8)
        } else {
            None
        },
        None => None,
    }
}

/// The unreserved characters as bytes.
pub open spec fn always_safe() -> Seq<u8> {
    vstd::utf8::encode_utf8(CharacterSet::Unreserved.characters())
}

/// Whether an object is a frozen set of the unreserved bytes.
pub open spec fn is_always_safe_set(heap: Heap, current: usize) -> bool {
    &&& heap.is_exactly(current, heap.intrinsics.frozen_set)
    &&& heap.elements_of(current) matches Some(elements) && elements.len() == always_safe().len()
        && forall|index: int|
        0 <= index < elements.len() ==> (byte_of(heap, #[trigger] elements[index]) matches Some(
            byte,
        ) && always_safe().contains(byte))
}

/// Whether a list holds a byte.
fn holds_byte(bytes: &[u8], byte: u8) -> (found: bool)
    ensures
        found == bytes@.contains(byte),
{
    let mut index: usize = 0;
    while index < bytes.len()
        invariant
            index <= bytes.len(),
            forall|i: int| 0 <= i < index ==> bytes@[i] != byte,
        decreases bytes.len() - index,
    {
        if bytes[index] == byte {
            assert(bytes@[index as int] == byte);
            return true;
        }
        index = index + 1;
    }
    false
}

/// Whether an object is a frozen set of the unreserved bytes.
pub fn always_safe_frozenset_is(heap: &Heap, current: usize) -> (yes: bool)
    ensures
        yes == is_always_safe_set(*heap, current),
{
    if !heap.exactly(current, heap.intrinsics.frozen_set) {
        return false;
    }
    let elements = match heap.elements(current) {
        Some(elements) => elements,
        None => {
            return false;
        },
    };
    let safe = CharacterSet::Unreserved.text().as_bytes();
    if elements.len() != safe.len() {
        return false;
    }
    let mut index: usize = 0;
    while index < elements.len()
        invariant
            index <= elements.len(),
            safe@ == always_safe(),
            heap.elements_of(current) == Some(elements@),
            forall|i: int|
                0 <= i < index ==> (byte_of(*heap, #[trigger] elements@[i]) matches Some(byte)
                    && always_safe().contains(byte)),
        decreases elements.len() - index,
    {
        let element = elements[index];
        match heap.index_value(element) {
            Some(value) => {
                if value < 0 || value > 255 || !holds_byte(safe, value as u8) {
                    assert(element == elements@[index as int]);
                    return false;
                }
            },
            None => {
                assert(element == elements@[index as int]);
                return false;
            },
        }
        index = index + 1;
    }
    true
}

/// Whether an object is one of `urllib.parse`'s quoters as it was loaded: its
/// bases, its constructor, what it does for a missing byte, and the set of
/// bytes that it leaves alone.
pub open spec fn is_quoter_type(
    heap: Heap,
    current: usize,
    globals: usize,
    class: QuoterClass,
    init_code: usize,
    missing_code: usize,
) -> bool {
    let order = heap.mro_of(current);
    &&& is_class_named(heap, current, "urllib.parse"@, class.spelled())
    &&& match class {
        QuoterClass::Quoter => {
            &&& order.len() == 4
            &&& order[0] == current
            &&& order[2] == heap.intrinsics.dict
            &&& order[3] == heap.intrinsics.object
            &&& is_immutable(heap, order[1])
            &&& text_attribute(heap, order[1], "__module__"@) == Some("collections"@)
            &&& text_attribute(heap, order[1], "__qualname__"@) == Some("defaultdict"@)
            &&& heap.mro_of(order[1]) == seq![
                order[1],
                heap.intrinsics.dict,
                heap.intrinsics.object,
            ]
        },
        QuoterClass::PrivateQuoter => order == seq![
            current,
            heap.intrinsics.dict,
            heap.intrinsics.object,
        ],
    }
    &&& heap.attribute_of(current, "__dict__"@) matches Some(namespace) && {
        &&& heap.pairs_of(namespace) is Some
        &&& heap.entry_of(namespace, "__new__"@) is None
        &&& heap.entry_of(namespace, "__getitem__"@) is None
        &&& heap.entry_of(namespace, "__setitem__"@) is None
        &&& heap.entry_of(namespace, "__getattribute__"@) is None
        &&& heap.entry_of(namespace, "__init__"@) matches Some(init) && is_source_function(
            heap,
            init,
            "urllib.parse"@,
            class.spelled() + ".__init__"@,
            init_code,
            globals,
            false,
        )
        &&& heap.entry_of(namespace, "__missing__"@) matches Some(missing) && is_source_function(
            heap,
            missing,
            "urllib.parse"@,
            class.spelled() + ".__missing__"@,
            missing_code,
            globals,
            false,
        )
    }
    &&& heap.entry_of(globals, "_ALWAYS_SAFE"@) matches Some(safe) && is_always_safe_set(heap, safe)
}

/// Whether a list of classes is these three.
fn is_triple(order: &Vec<usize>, first: usize, second: usize, third: usize) -> (yes: bool)
    ensures
        yes == (order@ == seq![first, second, third]),
{
    let yes = order.len() == 3 && order[0] == first && order[1] == second && order[2] == third;
    proof {
        let expected = seq![first, second, third];
        if yes {
            assert(order@ =~= expected);
        } else if order@ == expected {
            assert(order@[0] == expected[0]);
            assert(order@[1] == expected[1]);
            assert(order@[2] == expected[2]);
        }
    }
    yes
}

/// Whether an object is one of `urllib.parse`'s quoters as it was loaded.
pub fn known_quoter_type_is(
    heap: &Heap,
    current: usize,
    globals: usize,
    class: QuoterClass,
    init_code: usize,
    missing_code: usize,
) -> (yes: bool)
    ensures
        yes == is_quoter_type(*heap, current, globals, class, init_code, missing_code),
{
    if !exact_type_identity_is(heap, current, "urllib.parse", class.name()) {
        return false;
    }
    let order = resolution_order(heap, current);
    let bases_match = match class {
        QuoterClass::Quoter => if order.len() != 4 || order[0] != current || order[2]
            != heap.intrinsics.dict || order[3] != heap.intrinsics.object {
            false
        } else {
            let base: usize = order[1];
            immutable(heap, base) && text_attribute_equals(
                heap,
                base,
                "__module__",
                "collections",
            ) && text_attribute_equals(heap, base, "__qualname__", "defaultdict") && is_triple(
                &resolution_order(heap, base),
                base,
                heap.intrinsics.dict,
                heap.intrinsics.object,
            )
        },
        QuoterClass::PrivateQuoter => is_triple(
            &order,
            current,
            heap.intrinsics.dict,
            heap.intrinsics.object,
        ),
    };
    if !bases_match {
        return false;
    }
    let namespace = match heap.attribute(current, "__dict__") {
        Some(namespace) => namespace,
        None => {
            return false;
        },
    };
    if heap.pairs(namespace).is_none() || heap.entry(namespace, "__new__").is_some() || heap.entry(
        namespace,
        "__getitem__",
    ).is_some() || heap.entry(namespace, "__setitem__").is_some() || heap.entry(
        namespace,
        "__getattribute__",
    ).is_some() {
        return false;
    }
    match heap.entry(namespace, "__init__") {
        Some(init) => {
            let qualname = String::from_str(class.name()).concat(".__init__");
            if !exact_source_function_is(
                heap,
                init,
                "urllib.parse",
                qualname.as_str(),
                init_code,
                globals,
                false,
            ) {
                return false;
            }
        },
        None => {
            return false;
        },
    }
    match heap.entry(namespace, "__missing__") {
        Some(missing) => {
            let qualname = String::from_str(class.name()).concat(".__missing__");
            if !exact_source_function_is(
                heap,
                missing,
                "urllib.parse",
                qualname.as_str(),
                missing_code,
                globals,
                false,
            ) {
                return false;
            }
        },
        None => {
            return false;
        },
    }
    match heap.entry(globals, "_ALWAYS_SAFE") {
        Some(safe) => always_safe_frozenset_is(heap, safe),
        None => false,
    }
}

/// Whether a tuple element is this count.
pub open spec fn count_is(heap: Heap, object: usize, expected: nat) -> bool {
    heap.index_of(object) == Some(expected as int)
}

/// Whether an object is the cached factory of `urllib.parse`, not called yet:
/// its cache is empty and bounded by 128, and it wraps the function that was
/// loaded.
pub open spec fn is_byte_quoter_factory(
    heap: Heap,
    current: usize,
    factory_code: usize,
    quoter_init_code: usize,
    quoter_missing_code: usize,
    globals: usize,
) -> bool {
    &&& heap.at(current) matches Some(found) && {
        &&& is_static_type(heap, found.class, "functools"@, "_lru_cache_wrapper"@)
        &&& heap.attribute_of(found.class, "__dict__"@) matches Some(namespace) && heap.entry_of(
            namespace,
            "cache_info"@,
        ) is Some
    }
    &&& heap.attribute_of(current, "cache_info()"@) matches Some(info) && (heap.tuple_of(
        info,
    ) matches Some(counts) && {
        &&& counts.len() == 4
        &&& count_is(heap, counts[0], 0)
        &&& count_is(heap, counts[1], 0)
        &&& count_is(heap, counts[2], 128)
        &&& count_is(heap, counts[3], 0)
    })
    &&& heap.attribute_of(current, "__dict__"@) matches Some(own) && (heap.dict_of(own) is Some
        && (heap.entry_of(own, "__wrapped__"@) matches Some(wrapped) && is_source_function(
        heap,
        wrapped,
        "urllib.parse"@,
        "_byte_quoter_factory"@,
        factory_code,
        globals,
        false,
    )))
    &&& heap.entry_of(globals, "_Quoter"@) matches Some(quoter) && is_quoter_type(
        heap,
        quoter,
        globals,
        QuoterClass::PrivateQuoter,
        quoter_init_code,
        quoter_missing_code,
    )
}

/// Whether an object is a count.
fn count_equals(heap: &Heap, object: usize, expected: u64) -> (yes: bool)
    ensures
        yes == count_is(*heap, object, expected as nat),
{
    match heap.index_value(object) {
        Some(value) => value == expected as i128,
        None => false,
    }
}

/// Whether an object is the cached factory of `urllib.parse`, not called yet.
pub fn known_byte_quoter_factory_is(
    heap: &Heap,
    current: usize,
    factory_code: usize,
    quoter_init_code: usize,
    quoter_missing_code: usize,
    globals: usize,
) -> (yes: bool)
    ensures
        yes == is_byte_quoter_factory(
            *heap,
            current,
            factory_code,
            quoter_init_code,
            quoter_missing_code,
            globals,
        ),
{
    let wrapper_type: usize = match heap.get(current) {
        Some(found) => found.class,
        None => {
            return false;
        },
    };
    if !static_type_is(heap, wrapper_type, "functools", "_lru_cache_wrapper") {
        return false;
    }
    match heap.attribute(wrapper_type, "__dict__") {
        Some(namespace) => {
            if heap.entry(namespace, "cache_info").is_none() {
                return false;
            }
        },
        None => {
            return false;
        },
    }
    let info = match heap.attribute(current, "cache_info()") {
        Some(info) => info,
        None => {
            return false;
        },
    };
    match heap.tuple(info) {
        Some(counts) => {
            if counts.len() != 4 || !count_equals(heap, counts[0], 0) || !count_equals(
                heap,
                counts[1],
                0,
            ) || !count_equals(heap, counts[2], 128) || !count_equals(heap, counts[3], 0) {
                return false;
            }
        },
        None => {
            return false;
        },
    }
    let own = match heap.attribute(current, "__dict__") {
        Some(own) => own,
        None => {
            return false;
        },
    };
    if heap.dict(own).is_none() {
        return false;
    }
    match heap.entry(own, "__wrapped__") {
        Some(wrapped) => {
            if !exact_source_function_is(
                heap,
                wrapped,
                "urllib.parse",
                "_byte_quoter_factory",
                factory_code,
                globals,
                false,
            ) {
                return false;
            }
        },
        None => {
            return false;
        },
    }
    match heap.entry(globals, "_Quoter") {
        Some(quoter) => known_quoter_type_is(
            heap,
            quoter,
            globals,
            QuoterClass::PrivateQuoter,
            quoter_init_code,
            quoter_missing_code,
        ),
        None => false,
    }
}

/// Whether an object is the interpreter's getter for one field of a named
/// tuple.
pub open spec fn is_tuple_getter(heap: Heap, current: usize, index: nat) -> bool {
    heap.at(current) matches Some(found) && {
        let class = found.class;
        &&& is_immutable(heap, class)
        &&& text_attribute(heap, class, "__module__"@) == Some("collections"@) || text_attribute(
            heap,
            class,
            "__module__"@,
        ) == Some("_collections"@)
        &&& text_attribute(heap, class, "__qualname__"@) == Some("_tuplegetter"@)
        &&& heap.mro_of(class) == seq![class, heap.intrinsics.object]
        &&& heap.attribute_of(current, "__reduce__()"@) matches Some(reduced) && (exact_tuple_of(
            heap,
            reduced,
        ) matches Some(parts) && {
            &&& parts.len() == 2
            &&& parts[0] == class
            &&& exact_tuple_of(heap, parts[1]) matches Some(arguments) && {
                &&& arguments.len() == 2
                &&& count_is(heap, arguments[0], index)
                &&& heap.exact_text_of(arguments[1]) == Some(
                    "Alias for field number "@ + decimal(index),
                )
            }
        })
    }
}

/// Whether an object is the interpreter's getter for one field of a named
/// tuple.
pub fn known_tuple_getter_is(heap: &Heap, current: usize, index: usize) -> (yes: bool)
    ensures
        yes == is_tuple_getter(*heap, current, index as nat),
{
    let class: usize = match heap.get(current) {
        Some(found) => found.class,
        None => {
            return false;
        },
    };
    if !immutable(heap, class) || (!text_attribute_equals(heap, class, "__module__", "collections")
        && !text_attribute_equals(heap, class, "__module__", "_collections"))
        || !text_attribute_equals(heap, class, "__qualname__", "_tuplegetter") {
        return false;
    }
    let order = resolution_order(heap, class);
    let derived = order.len() == 2 && order[0] == class && order[1] == heap.intrinsics.object;
    proof {
        let expected = seq![class, heap.intrinsics.object];
        if derived {
            assert(order@ =~= expected);
        } else if order@ == expected {
            assert(order@[0] == expected[0]);
            assert(order@[1] == expected[1]);
        }
    }
    if !derived {
        return false;
    }
    let reduced = match heap.attribute(current, "__reduce__()") {
        Some(reduced) => reduced,
        None => {
            return false;
        },
    };
    let parts = match exact_tuple(heap, reduced) {
        Some(parts) => parts,
        None => {
            return false;
        },
    };
    if parts.len() != 2 || parts[0] != class {
        return false;
    }
    match exact_tuple(heap, parts[1]) {
        Some(arguments) => {
            let label = String::from_str("Alias for field number ").concat(
                render_decimal(index as u64).as_str(),
            );
            arguments.len() == 2 && count_equals(heap, arguments[0], index as u64)
                && heap.exact_text_is(arguments[1], label.as_str())
        },
        None => false,
    }
}

/// The fields of `urllib3`'s URL tuple.
pub open spec fn url_fields() -> Seq<Seq<char>> {
    seq!["scheme"@, "auth"@, "host"@, "port"@, "path"@, "query"@, "fragment"@]
}

/// One field of `urllib3`'s URL tuple.
fn url_field(index: usize) -> (name: &'static str)
    requires
        index < 7,
    ensures
        name@ == url_fields()[index as int],
{
    if index == 0 {
        "scheme"
    } else if index == 1 {
        "auth"
    } else if index == 2 {
        "host"
    } else if index == 3 {
        "port"
    } else if index == 4 {
        "path"
    } else if index == 5 {
        "query"
    } else {
        "fragment"
    }
}

/// Whether a descriptor is a static method.
pub open spec fn is_static_method(heap: Heap, descriptor: usize) -> bool {
    heap.is_exactly(descriptor, heap.intrinsics.static_method)
}

/// Whether a function is the constructor that `namedtuple` generates for the
/// URL tuple.
pub open spec fn is_generated_new(heap: Heap, function: usize) -> bool {
    &&& heap.is_exactly(function, heap.intrinsics.function)
    &&& text_attribute(heap, function, "__module__"@) == Some("namedtuple_Url"@)
    &&& text_attribute(heap, function, "__qualname__"@) == Some("Url.__new__"@)
    &&& present_attribute(heap, function, "__kwdefaults__"@) is None
    &&& present_attribute(heap, function, "__closure__"@) is None
    &&& present_attribute(heap, function, "__defaults__"@) matches Some(defaults)
        && exact_tuple_of(heap, defaults) == Some(Seq::<usize>::empty())
    &&& heap.attribute_of(function, "__code__"@) matches Some(code) && is_generated_code(heap, code)
    &&& heap.attribute_of(function, "__globals__"@) matches Some(globals) && are_generated_globals(
        heap,
        globals,
    )
}

/// Whether a code object does nothing but call `_tuple_new` with its arguments.
pub open spec fn is_generated_code(heap: Heap, code: usize) -> bool {
    &&& heap.attribute_of(code, "co_names"@) matches Some(names) && (exact_tuple_of(
        heap,
        names,
    ) matches Some(elements) && elements.len() == 1 && heap.text_of(elements[0]) == Some(
        "_tuple_new"@,
    ))
    &&& heap.attribute_of(code, "co_consts"@) matches Some(constants) && (exact_tuple_of(
        heap,
        constants,
    ) matches Some(elements) && elements.len() == 1 && heap.is_none_value(elements[0]))
    &&& heap.attribute_of(code, "co_argcount"@) matches Some(count) && count_is(heap, count, 8)
    &&& heap.attribute_of(code, "co_kwonlyargcount"@) matches Some(count) && count_is(
        heap,
        count,
        0,
    )
    &&& heap.attribute_of(code, "co_freevars"@) matches Some(free) && heap.tuple_of(free) == Some(
        Seq::<usize>::empty(),
    )
}

/// Whether a generated constructor's globals are the three that `namedtuple`
/// gives it.
pub open spec fn are_generated_globals(heap: Heap, globals: usize) -> bool {
    &&& heap.dict_of(globals) matches Some(pairs) && pairs.len() == 3
    &&& heap.entry_of(globals, "_tuple_new"@) matches Some(tuple_new) && {
        &&& is_builtin_function(heap, tuple_new)
        &&& text_attribute(heap, tuple_new, "__name__"@) == Some("__new__"@)
        &&& heap.attribute_of(tuple_new, "__module__"@) matches Some(module) && heap.is_none_value(
            module,
        )
        &&& heap.attribute_of(tuple_new, "__self__"@) == Some(heap.intrinsics.tuple)
    }
    &&& heap.entry_of(globals, "__builtins__"@) matches Some(builtins) && (heap.is_exactly(
        builtins,
        heap.intrinsics.dict,
    ) && heap.dict_of(builtins) == Some(Seq::<crate::heap::Pair>::empty()))
    &&& heap.entry_of(globals, "__name__"@) matches Some(name) && heap.exact_text_of(name) == Some(
        "namedtuple_Url"@,
    )
}

/// Whether a class is the named tuple that the URL type derives from.
pub open spec fn is_url_base(heap: Heap, base: usize) -> bool {
    heap.attribute_of(base, "__dict__"@) matches Some(namespace) && {
        &&& heap.pairs_of(namespace) is Some
        &&& heap.entry_of(namespace, "__getattribute__"@) is None
        &&& heap.entry_of(namespace, "__getitem__"@) is None
        &&& heap.entry_of(namespace, "__iter__"@) is None
        &&& heap.entry_of(namespace, "__len__"@) is None
        &&& forall|index: int|
            0 <= index < 7 ==> (heap.entry_of(namespace, #[trigger] url_fields()[index]) matches Some(
                getter,
            ) && is_tuple_getter(heap, getter, index as nat))
        &&& heap.entry_of(namespace, "__new__"@) matches Some(descriptor) && {
            &&& is_static_method(heap, descriptor)
            &&& heap.attribute_of(descriptor, "__func__"@) matches Some(function)
                && is_generated_new(heap, function)
        }
    }
}

/// Whether a code object does nothing but call `_tuple_new` with its arguments.
fn generated_code_is(heap: &Heap, code: usize) -> (yes: bool)
    ensures
        yes == is_generated_code(*heap, code),
{
    let names_match = match heap.attribute(code, "co_names") {
        Some(names) => match exact_tuple(heap, names) {
            Some(elements) => elements.len() == 1 && heap.text_is(elements[0], "_tuple_new"),
            None => false,
        },
        None => false,
    };
    let constants_match = match heap.attribute(code, "co_consts") {
        Some(constants) => match exact_tuple(heap, constants) {
            Some(elements) => elements.len() == 1 && heap.none_value(elements[0]),
            None => false,
        },
        None => false,
    };
    let arguments_match = match heap.attribute(code, "co_argcount") {
        Some(count) => count_equals(heap, count, 8),
        None => false,
    };
    let keywords_match = match heap.attribute(code, "co_kwonlyargcount") {
        Some(count) => count_equals(heap, count, 0),
        None => false,
    };
    let free_match = match heap.attribute(code, "co_freevars") {
        Some(free) => match heap.tuple(free) {
            Some(elements) => {
                proof {
                    if elements@.len() == 0 {
                        assert(elements@ =~= Seq::<usize>::empty());
                    }
                }
                elements.len() == 0
            },
            None => false,
        },
        None => false,
    };
    names_match && constants_match && arguments_match && keywords_match && free_match
}

/// Whether a generated constructor's globals are as `namedtuple` made them.
fn generated_globals_are(heap: &Heap, globals: usize) -> (yes: bool)
    ensures
        yes == are_generated_globals(*heap, globals),
{
    match heap.dict(globals) {
        Some(pairs) => {
            if pairs.len() != 3 {
                return false;
            }
        },
        None => {
            return false;
        },
    }
    let new_matches = match heap.entry(globals, "_tuple_new") {
        Some(tuple_new) => builtin_function(heap, tuple_new) && text_attribute_equals(
            heap,
            tuple_new,
            "__name__",
            "__new__",
        ) && match heap.attribute(tuple_new, "__module__") {
            Some(module) => heap.none_value(module),
            None => false,
        } && match heap.attribute(tuple_new, "__self__") {
            Some(owner) => owner == heap.intrinsics.tuple,
            None => false,
        },
        None => false,
    };
    let builtins_match = match heap.entry(globals, "__builtins__") {
        Some(builtins) => heap.exactly(builtins, heap.intrinsics.dict) && match heap.dict(
            builtins,
        ) {
            Some(pairs) => {
                proof {
                    if pairs@.len() == 0 {
                        assert(pairs@ =~= Seq::<crate::heap::Pair>::empty());
                    }
                }
                pairs.len() == 0
            },
            None => false,
        },
        None => false,
    };
    let name_matches = match heap.entry(globals, "__name__") {
        Some(name) => heap.exact_text_is(name, "namedtuple_Url"),
        None => false,
    };
    new_matches && builtins_match && name_matches
}

/// Whether a function is the constructor that `namedtuple` generates for the
/// URL tuple.
fn generated_new_is(heap: &Heap, function: usize) -> (yes: bool)
    ensures
        yes == is_generated_new(*heap, function),
{
    if !heap.exactly(function, heap.intrinsics.function) || !text_attribute_equals(
        heap,
        function,
        "__module__",
        "namedtuple_Url",
    ) || !text_attribute_equals(heap, function, "__qualname__", "Url.__new__") || present(
        heap,
        function,
        "__kwdefaults__",
    ).is_some() || present(heap, function, "__closure__").is_some() {
        return false;
    }
    let defaults_match = match present(heap, function, "__defaults__") {
        Some(defaults) => match exact_tuple(heap, defaults) {
            Some(elements) => {
                proof {
                    if elements@.len() == 0 {
                        assert(elements@ =~= Seq::<usize>::empty());
                    }
                }
                elements.len() == 0
            },
            None => false,
        },
        None => false,
    };
    defaults_match && match heap.attribute(function, "__code__") {
        Some(code) => generated_code_is(heap, code),
        None => false,
    } && match heap.attribute(function, "__globals__") {
        Some(globals) => generated_globals_are(heap, globals),
        None => false,
    }
}

/// Whether a class is the named tuple that the URL type derives from.
pub fn known_namedtuple_url_base_is(heap: &Heap, base: usize) -> (yes: bool)
    ensures
        yes == is_url_base(*heap, base),
{
    let namespace = match heap.attribute(base, "__dict__") {
        Some(namespace) => namespace,
        None => {
            return false;
        },
    };
    if heap.pairs(namespace).is_none() || heap.entry(namespace, "__getattribute__").is_some()
        || heap.entry(namespace, "__getitem__").is_some() || heap.entry(
        namespace,
        "__iter__",
    ).is_some() || heap.entry(namespace, "__len__").is_some() {
        return false;
    }
    let mut index: usize = 0;
    while index < 7
        invariant
            index <= 7,
            heap.attribute_of(base, "__dict__"@) == Some(namespace),
            forall|i: int|
                0 <= i < index ==> (heap.entry_of(
                    namespace,
                    #[trigger] url_fields()[i],
                ) matches Some(getter) && is_tuple_getter(*heap, getter, i as nat)),
        decreases 7 - index,
    {
        let found = match heap.entry(namespace, url_field(index)) {
            Some(getter) => known_tuple_getter_is(heap, getter, index),
            None => false,
        };
        if !found {
            assert(heap.entry_of(namespace, url_fields()[index as int]) matches Some(getter)
                ==> !is_tuple_getter(*heap, getter, index as nat));
            return false;
        }
        index = index + 1;
    }
    match heap.entry(namespace, "__new__") {
        Some(descriptor) => heap.exactly(descriptor, heap.intrinsics.static_method)
            && match heap.attribute(descriptor, "__func__") {
            Some(function) => generated_new_is(heap, function),
            None => false,
        },
        None => false,
    }
}

/// Whether a function is the URL type's own constructor as it was loaded.
pub open spec fn is_url_new(
    heap: Heap,
    class: usize,
    function: usize,
    code: usize,
    globals: usize,
    builtins: usize,
) -> bool {
    &&& heap.is_exactly(function, heap.intrinsics.function)
    &&& text_attribute(heap, function, "__module__"@) == Some("urllib3.util.url"@)
    &&& text_attribute(heap, function, "__qualname__"@) == Some("Url.__new__"@)
    &&& heap.attribute_of(function, "__code__"@) matches Some(own) && same_code(heap, own, code)
    &&& heap.attribute_of(function, "__globals__"@) == Some(globals)
    &&& heap.attribute_of(function, "__builtins__"@) == Some(builtins)
    &&& heap.dict_of(builtins) is Some
    &&& present_attribute(heap, function, "__kwdefaults__"@) is None
    &&& heap.dict_of(globals) is Some
    &&& heap.entry_of(globals, "super"@) is None
    &&& heap.entry_of(builtins, "super"@) == Some(heap.intrinsics.super_type)
    &&& present_attribute(heap, function, "__defaults__"@) matches Some(defaults) && (
    exact_tuple_of(heap, defaults) matches Some(elements) && elements.len() == 7 && forall|
        index: int,
    |
        0 <= index < 7 ==> heap.is_none_value(#[trigger] elements[index]))
    &&& present_attribute(heap, function, "__closure__"@) matches Some(closure) && (exact_tuple_of(
        heap,
        closure,
    ) matches Some(cells) && cells.len() == 1 && heap.attribute_of(cells[0], "cell_contents"@)
        == Some(class))
}

/// Whether an object is `urllib3`'s URL type as it was loaded, with the named
/// tuple it derives from, its constructor and plain attribute access.
pub open spec fn is_url_type(
    heap: Heap,
    current: usize,
    code: usize,
    globals: usize,
    builtins: usize,
) -> bool {
    let order = heap.mro_of(current);
    let base = order[1];
    &&& is_class_named(heap, current, "urllib3.util.url"@, "Url"@)
    &&& order.len() == 4
    &&& order[0] == current
    &&& order[2] == heap.intrinsics.tuple
    &&& order[3] == heap.intrinsics.object
    &&& base != current
    &&& is_class_named(heap, base, "urllib3.util.url"@, "Url"@)
    &&& heap.attribute_of(base, "_fields"@) matches Some(fields) && (exact_tuple_of(
        heap,
        fields,
    ) matches Some(names) && names.len() == 7 && forall|index: int|
        0 <= index < 7 ==> heap.exact_text_of(#[trigger] names[index]) == Some(url_fields()[index]))
    &&& is_url_base(heap, base)
    &&& heap.attribute_of(current, "__dict__"@) matches Some(namespace) && {
        &&& heap.pairs_of(namespace) is Some
        &&& forall|index: int|
            0 <= index < 7 ==> heap.entry_of(namespace, #[trigger] url_fields()[index]) is None
        &&& heap.entry_of(namespace, "__new__"@) matches Some(descriptor) && (is_static_method(
            heap,
            descriptor,
        ) && (heap.attribute_of(descriptor, "__func__"@) matches Some(function) && is_url_new(
            heap,
            current,
            function,
            code,
            globals,
            builtins,
        )))
    }
    &&& heap.type_entry_of(heap.intrinsics.tuple, "__getattribute__"@) is Some
    &&& heap.type_entry_of(current, "__getattribute__"@) == heap.type_entry_of(
        heap.intrinsics.tuple,
        "__getattribute__"@,
    )
}

/// Whether a function is the URL type's own constructor as it was loaded.
fn url_new_is(
    heap: &Heap,
    class: usize,
    function: usize,
    code: usize,
    globals: usize,
    builtins: usize,
) -> (yes: bool)
    ensures
        yes == is_url_new(*heap, class, function, code, globals, builtins),
{
    if !heap.exactly(function, heap.intrinsics.function) || !text_attribute_equals(
        heap,
        function,
        "__module__",
        "urllib3.util.url",
    ) || !text_attribute_equals(heap, function, "__qualname__", "Url.__new__") {
        return false;
    }
    match heap.attribute(function, "__code__") {
        Some(own) => {
            if !codes_equal(heap, own, code) {
                return false;
            }
        },
        None => {
            return false;
        },
    }
    match heap.attribute(function, "__globals__") {
        Some(own) => {
            if own != globals {
                return false;
            }
        },
        None => {
            return false;
        },
    }
    match heap.attribute(function, "__builtins__") {
        Some(own) => {
            if own != builtins {
                return false;
            }
        },
        None => {
            return false;
        },
    }
    if heap.dict(builtins).is_none() || present(heap, function, "__kwdefaults__").is_some()
        || heap.dict(globals).is_none() || heap.entry(globals, "super").is_some() {
        return false;
    }
    match heap.entry(builtins, "super") {
        Some(super_type) => {
            if super_type != heap.intrinsics.super_type {
                return false;
            }
        },
        None => {
            return false;
        },
    }
    let defaults = match present(heap, function, "__defaults__") {
        Some(defaults) => defaults,
        None => {
            return false;
        },
    };
    let elements = match exact_tuple(heap, defaults) {
        Some(elements) => elements,
        None => {
            return false;
        },
    };
    if elements.len() != 7 {
        return false;
    }
    let mut index: usize = 0;
    while index < 7
        invariant
            index <= 7,
            elements@.len() == 7,
            present_attribute(*heap, function, "__defaults__"@) == Some(defaults),
            exact_tuple_of(*heap, defaults) == Some(elements@),
            forall|i: int| 0 <= i < index ==> heap.is_none_value(#[trigger] elements@[i]),
        decreases 7 - index,
    {
        if !heap.none_value(elements[index]) {
            assert(!heap.is_none_value(elements@[index as int]));
            return false;
        }
        index = index + 1;
    }
    match present(heap, function, "__closure__") {
        Some(closure) => match exact_tuple(heap, closure) {
            Some(cells) => cells.len() == 1 && match heap.attribute(cells[0], "cell_contents") {
                Some(contents) => contents == class,
                None => false,
            },
            None => false,
        },
        None => false,
    }
}

/// Whether the fields that a URL base lists are the seven known ones.
fn url_fields_are(heap: &Heap, names: &Vec<usize>) -> (yes: bool)
    ensures
        yes == (names@.len() == 7 && forall|index: int|
            0 <= index < 7 ==> heap.exact_text_of(#[trigger] names@[index]) == Some(
                url_fields()[index],
            )),
{
    if names.len() != 7 {
        return false;
    }
    let mut index: usize = 0;
    while index < 7
        invariant
            index <= 7,
            names@.len() == 7,
            forall|i: int|
                0 <= i < index ==> heap.exact_text_of(#[trigger] names@[i]) == Some(
                    url_fields()[i],
                ),
        decreases 7 - index,
    {
        if !heap.exact_text_is(names[index], url_field(index)) {
            assert(heap.exact_text_of(names@[index as int]) != Some(url_fields()[index as int]));
            return false;
        }
        index = index + 1;
    }
    true
}

/// Whether a name space leaves the fields of the URL tuple to its base.
fn leaves_url_fields(heap: &Heap, namespace: usize) -> (yes: bool)
    ensures
        yes == (forall|index: int|
            0 <= index < 7 ==> heap.entry_of(namespace, #[trigger] url_fields()[index]) is None),
{
    let mut index: usize = 0;
    while index < 7
        invariant
            index <= 7,
            forall|i: int|
                0 <= i < index ==> heap.entry_of(namespace, #[trigger] url_fields()[i]) is None,
        decreases 7 - index,
    {
        if heap.entry(namespace, url_field(index)).is_some() {
            assert(heap.entry_of(namespace, url_fields()[index as int]) is Some);
            return false;
        }
        index = index + 1;
    }
    true
}

/// Whether an object is `urllib3`'s URL type as it was loaded.
pub fn known_url_type_is(
    heap: &Heap,
    current: usize,
    code: usize,
    globals: usize,
    builtins: usize,
) -> (yes: bool)
    ensures
        yes == is_url_type(*heap, current, code, globals, builtins),
{
    if !exact_type_identity_is(heap, current, "urllib3.util.url", "Url") {
        return false;
    }
    let order = resolution_order(heap, current);
    if order.len() != 4 || order[0] != current || order[2] != heap.intrinsics.tuple || order[3]
        != heap.intrinsics.object {
        return false;
    }
    let base: usize = order[1];
    if base == current || !exact_type_identity_is(heap, base, "urllib3.util.url", "Url") {
        return false;
    }
    let fields_match = match heap.attribute(base, "_fields") {
        Some(fields) => match exact_tuple(heap, fields) {
            Some(names) => url_fields_are(heap, names),
            None => false,
        },
        None => false,
    };
    if !fields_match || !known_namedtuple_url_base_is(heap, base) {
        return false;
    }
    let namespace = match heap.attribute(current, "__dict__") {
        Some(namespace) => namespace,
        None => {
            return false;
        },
    };
    if heap.pairs(namespace).is_none() || !leaves_url_fields(heap, namespace) {
        return false;
    }
    let new_matches = match heap.entry(namespace, "__new__") {
        Some(descriptor) => heap.exactly(descriptor, heap.intrinsics.static_method)
            && match heap.attribute(descriptor, "__func__") {
            Some(function) => url_new_is(heap, current, function, code, globals, builtins),
            None => false,
        },
        None => false,
    };
    if !new_matches {
        return false;
    }
    match (
        heap.raw_type_entry(heap.intrinsics.tuple, "__getattribute__"),
        heap.raw_type_entry(current, "__getattribute__"),
    ) {
        (Some(expected), Some(found)) => found == expected,
        _ => false,
    }
}

/// Whether an object is a text of one ASCII character out of a set.
pub open spec fn is_single_character(heap: Heap, value: usize, set: Seq<char>) -> bool {
    heap.exact_text_of(value) matches Some(text) && text.len() == 1 && (text[0] as u32) < 128
        && set.contains(text[0])
}

/// Whether an object is a text of one ASCII character out of a set.
pub fn known_single_character_is(heap: &Heap, value: usize, set: &Vec<char>) -> (yes: bool)
    ensures
        yes == is_single_character(*heap, value, set@),
{
    if !heap.exactly(value, heap.intrinsics.text) {
        return false;
    }
    let text = match heap.text(value) {
        Some(text) => chars_of(text.as_str()),
        None => {
            return false;
        },
    };
    if text.len() != 1 || text[0] as u32 >= 128 {
        return false;
    }
    let mut index: usize = 0;
    while index < set.len()
        invariant
            index <= set.len(),
            text@.len() == 1,
            (text@[0] as u32) < 128,
            heap.exact_text_of(value) == Some(text@),
            forall|i: int| 0 <= i < index ==> set@[i] != text@[0],
        decreases set.len() - index,
    {
        if set[index] == text[0] {
            assert(set@[index as int] == text@[0]);
            return true;
        }
        index = index + 1;
    }
    false
}

/// Whether a collection has as many elements as a set of characters, each one
/// of them.
pub open spec fn are_characters(heap: Heap, elements: Seq<usize>, set: Seq<char>) -> bool {
    elements.len() == set.len() && forall|index: int|
        0 <= index < elements.len() ==> is_single_character(heap, #[trigger] elements[index], set)
}

/// Whether some element is the text of this one character.
pub open spec fn has_character(heap: Heap, elements: Seq<usize>, character: char) -> bool {
    exists|index: int|
        0 <= index < elements.len() && heap.exact_text_of(#[trigger] elements[index]) == Some(
            seq![character],
        )
}

/// Whether the first characters of a text, so many, are in ascending order.
pub open spec fn rises(text: Seq<char>, count: nat) -> bool
    decreases count,
{
    count < 2 || (text[count - 2] < text[count - 1] && rises(text, (count - 1) as nat))
}

/// Characters in ascending order are distinct.
proof fn lemma_rising_is_distinct(text: Seq<char>, count: nat)
    requires
        rises(text, count),
        count <= text.len(),
    ensures
        forall|first: int, second: int|
            0 <= first < second < count ==> text[first] < text[second],
    decreases count,
{
    if count >= 2 {
        lemma_rising_is_distinct(text, (count - 1) as nat);
    }
}

/// No character occurs twice in one of the sets.
pub proof fn law_sets_hold_no_character_twice(set: CharacterSet)
    ensures
        set.characters().no_duplicates(),
{
    let text = set.characters();
    match set {
        CharacterSet::Unreserved => {
            reveal_strlit("-.0123456789ABCDEFGHIJKLMNOPQRSTUVWXYZ_abcdefghijklmnopqrstuvwxyz~");
        },
        CharacterSet::UserInfo => {
            reveal_strlit(
                "!$&'()*+,-.0123456789:;=ABCDEFGHIJKLMNOPQRSTUVWXYZ_abcdefghijklmnopqrstuvwxyz~",
            );
        },
        CharacterSet::Path => {
            reveal_strlit(
                "!$&'()*+,-./0123456789:;=@ABCDEFGHIJKLMNOPQRSTUVWXYZ_abcdefghijklmnopqrstuvwxyz~",
            );
        },
        CharacterSet::QueryOrFragment => {
            reveal_strlit(
                "!$&'()*+,-./0123456789:;=?@ABCDEFGHIJKLMNOPQRSTUVWXYZ_abcdefghijklmnopqrstuvwxyz~",
            );
        },
    }
    assert(rises(text, text.len())) by {
        reveal_with_fuel(rises, 84);
    }
    lemma_rising_is_distinct(text, text.len());
}

/// A Python set holds these characters exactly where each of its elements is one
/// of them and each of them is one of its elements: as it holds no element twice,
/// their number and one half of that are enough.
pub proof fn law_characters_are_those_of_the_set(
    heap: Heap,
    object: usize,
    elements: Seq<usize>,
    given: CharacterSet,
)
    requires
        heap.keys_occur_once(),
        heap.set_of(object) == Some(elements),
    ensures
        are_characters(heap, elements, given.characters()) <==> {
            &&& forall|index: int|
                0 <= index < elements.len() ==> is_single_character(
                    heap,
                    #[trigger] elements[index],
                    given.characters(),
                )
            &&& forall|character: char|
                given.characters().contains(character) ==> #[trigger] has_character(
                    heap,
                    elements,
                    character,
                )
        },
{
    let set = given.characters();
    law_sets_hold_no_character_twice(given);
    let characters = elements.map_values(
        |element: usize| heap.exact_text_of(element)->Some_0[0],
    );
    let all_single = forall|index: int|
        0 <= index < elements.len() ==> is_single_character(heap, #[trigger] elements[index], set);
    if all_single {
        assert forall|index: int| 0 <= index < elements.len() implies heap.exact_text_of(
            #[trigger] elements[index],
        ) == Some(seq![characters[index]]) && set.contains(characters[index]) by {
            assert(is_single_character(heap, elements[index], set));
            assert(heap.exact_text_of(elements[index])->Some_0 =~= seq![characters[index]]);
        }
        assert(characters.no_duplicates()) by {
            assert forall|first: int, second: int|
                0 <= first < characters.len() && 0 <= second < characters.len() && first
                    != second implies characters[first] != characters[second] by {
                assert(heap.exact_text_of(elements[first]) == Some(seq![characters[first]]));
                assert(heap.exact_text_of(elements[second]) == Some(seq![characters[second]]));
                if first < second {
                    assert(heap.exact_text_of(elements[first]) != heap.exact_text_of(
                        elements[second],
                    ));
                } else {
                    assert(heap.exact_text_of(elements[second]) != heap.exact_text_of(
                        elements[first],
                    ));
                }
            }
        }
        if are_characters(heap, elements, set) {
            lemma_same_members(characters, set);
            assert forall|character: char| set.contains(character) implies #[trigger] has_character(
                heap,
                elements,
                character,
            ) by {
                assert(characters.contains(character));
                let place = choose|place: int|
                    0 <= place < characters.len() && characters[place] == character;
                assert(heap.exact_text_of(elements[place]) == Some(seq![character]));
            }
        }
        if forall|character: char|
            set.contains(character) ==> #[trigger] has_character(heap, elements, character) {
            broadcast use vstd::seq_lib::seq_to_set_is_finite;

            assert(characters.to_set() =~= set.to_set()) by {
                assert forall|character: char|
                    characters.contains(character) == set.contains(character) by {
                    if characters.contains(character) {
                        let place = choose|place: int|
                            0 <= place < characters.len() && characters[place] == character;
                        assert(heap.exact_text_of(elements[place]) == Some(
                            seq![characters[place]],
                        ));
                    }
                    if set.contains(character) {
                        assert(has_character(heap, elements, character));
                        let place = choose|place: int|
                            0 <= place < elements.len() && heap.exact_text_of(
                                #[trigger] elements[place],
                            ) == Some(seq![character]);
                        assert(heap.exact_text_of(elements[place]) == Some(
                            seq![characters[place]],
                        ));
                        assert(seq![character][0] == seq![characters[place]][0]);
                    }
                }
            }
            characters.unique_seq_to_set();
            set.unique_seq_to_set();
        }
    }
}

/// Whether a collection has as many elements as a set of characters, each one
/// of them.
fn elements_are_characters(heap: &Heap, elements: &Vec<usize>, set: CharacterSet) -> (yes: bool)
    ensures
        yes == are_characters(*heap, elements@, set.characters()),
{
    let characters = chars_of(set.text());
    if elements.len() != characters.len() {
        return false;
    }
    let mut index: usize = 0;
    while index < elements.len()
        invariant
            index <= elements.len(),
            characters@ == set.characters(),
            forall|i: int|
                0 <= i < index ==> is_single_character(
                    *heap,
                    #[trigger] elements@[i],
                    characters@,
                ),
        decreases elements.len() - index,
    {
        if !known_single_character_is(heap, elements[index], &characters) {
            assert(!is_single_character(*heap, elements@[index as int], characters@));
            return false;
        }
        index = index + 1;
    }
    true
}

/// Whether every element is a text of no subclass, in order; no answer at the
/// first one whose characters cannot be encoded.
pub open spec fn are_exact_texts(heap: Heap, elements: Seq<usize>) -> Check
    decreases elements.len(),
{
    if elements.len() == 0 {
        Ok(true)
    } else if !heap.is_exactly(elements[0], heap.intrinsics.text) {
        Ok(false)
    } else if heap.text_of(elements[0]) is None {
        Err(Failure::Kind)
    } else {
        are_exact_texts(heap, elements.drop_first())
    }
}

/// Whether some element is this text.
pub open spec fn some_element_is(heap: Heap, elements: Seq<usize>, text: Seq<char>) -> bool {
    exists|index: int|
        0 <= index < elements.len() && heap.text_of(#[trigger] elements[index]) == Some(text)
}

/// Whether a list's elements are all texts and hold both schemes.
pub open spec fn are_netloc_schemes(heap: Heap, elements: Seq<usize>) -> Check {
    both(
        are_exact_texts(heap, elements),
        Ok(some_element_is(heap, elements, "http"@) && some_element_is(heap, elements, "https"@)),
    )
}

/// Whether some element is this text.
fn has_text(heap: &Heap, elements: &Vec<usize>, text: &str) -> (found: bool)
    ensures
        found == some_element_is(*heap, elements@, text@),
{
    let mut index: usize = 0;
    while index < elements.len()
        invariant
            index <= elements.len(),
            forall|i: int|
                0 <= i < index ==> heap.text_of(#[trigger] elements@[i]) != Some(text@),
        decreases elements.len() - index,
    {
        if heap.text_is(elements[index], text) {
            assert(heap.text_of(elements@[index as int]) == Some(text@));
            return true;
        }
        index = index + 1;
    }
    false
}

/// Whether a list's elements are all texts and hold both schemes.
fn check_netloc_schemes(heap: &Heap, elements: &Vec<usize>) -> (check: Check)
    ensures
        check == are_netloc_schemes(*heap, elements@),
{
    let mut index: usize = 0;
    assert(elements@.skip(0) =~= elements@);
    while index < elements.len()
        invariant
            index <= elements.len(),
            are_exact_texts(*heap, elements@) == are_exact_texts(
                *heap,
                elements@.skip(index as int),
            ),
        decreases elements.len() - index,
    {
        assert(elements@.skip(index as int).drop_first() =~= elements@.skip(index + 1));
        if !heap.exactly(elements[index], heap.intrinsics.text) {
            return Ok(false);
        }
        if heap.text(elements[index]).is_none() {
            return Err(Failure::Kind);
        }
        index = index + 1;
    }
    Ok(has_text(heap, elements, "http") && has_text(heap, elements, "https"))
}

/// Whether an object holds what a global is known to hold.
pub open spec fn is_known_value(
    heap: Heap,
    builtins_module: usize,
    current: usize,
    expected: KnownValue,
    code: Option<KnownCode>,
) -> Check {
    match expected {
        KnownValue::Intrinsic(intrinsic) => is_intrinsic(
            heap,
            builtins_module,
            current,
            intrinsic,
        ),
        KnownValue::IntrinsicPair(first, second) => match exact_tuple_of(heap, current) {
            None => Ok(false),
            Some(values) => both(
                Ok(values.len() == 2),
                both(
                    is_intrinsic(heap, builtins_module, values[0], first),
                    is_intrinsic(heap, builtins_module, values[1], second),
                ),
            ),
        },
        KnownValue::NormalizableSchemes => Ok(
            exact_tuple_of(heap, current) matches Some(values) && values.len() == 3
                && heap.exact_text_of(values[0]) == Some("http"@) && heap.exact_text_of(values[1])
                == Some("https"@) && heap.is_none_value(values[2]),
        ),
        KnownValue::TextSet(set) => Ok(
            heap.is_exactly(current, heap.intrinsics.set) && (heap.elements_of(
                current,
            ) matches Some(elements) && are_characters(heap, elements, set.characters())),
        ),
        KnownValue::TextFrozenSet(set) => Ok(
            heap.is_exactly(current, heap.intrinsics.frozen_set) && (heap.elements_of(
                current,
            ) matches Some(elements) && are_characters(heap, elements, set.characters())),
        ),
        KnownValue::NetlocSchemes => if heap.is_exactly(current, heap.intrinsics.list) {
            match heap.elements_of(current) {
                None => Ok(false),
                Some(elements) => are_netloc_schemes(heap, elements),
            }
        } else {
            Ok(false)
        },
        KnownValue::AlwaysSafeBytes => Ok(
            heap.is_exactly(current, heap.intrinsics.bytes) && heap.bytes_of(current) == Some(
                always_safe(),
            ),
        ),
        KnownValue::EmptyDict => Ok(
            heap.is_exactly(current, heap.intrinsics.dict) && heap.dict_of(current) == Some(
                Seq::<crate::heap::Pair>::empty(),
            ),
        ),
        KnownValue::UrlType => Ok(
            code matches Some(KnownCode::Url { new, globals, builtins }) && is_url_type(
                heap,
                current,
                new,
                globals,
                builtins,
            ),
        ),
        KnownValue::ByteQuoterFactory => Ok(
            code matches Some(
                KnownCode::ByteQuoterFactory { factory, quoter_init, quoter_missing, globals },
            ) && is_byte_quoter_factory(
                heap,
                current,
                factory,
                quoter_init,
                quoter_missing,
                globals,
            ),
        ),
        KnownValue::QuoterType(class) => Ok(
            code matches Some(KnownCode::QuoterType { init, missing, globals }) && is_quoter_type(
                heap,
                current,
                globals,
                class,
                init,
                missing,
            ),
        ),
        KnownValue::Regex(regex) => is_regex(heap, current, regex),
        KnownValue::RegexPair(first, second) => match exact_tuple_of(heap, current) {
            None => Ok(false),
            Some(values) => both(
                Ok(values.len() == 2),
                both(is_regex(heap, values[0], first), is_regex(heap, values[1], second)),
            ),
        },
    }
}

/// Whether an object holds what a global is known to hold.
pub fn known_value_is(
    heap: &Heap,
    builtins_module: usize,
    current: usize,
    expected: KnownValue,
    code: Option<KnownCode>,
) -> (check: Check)
    ensures
        check == is_known_value(*heap, builtins_module, current, expected, code),
{
    match expected {
        KnownValue::Intrinsic(intrinsic) => intrinsic_builtin_is(
            heap,
            builtins_module,
            current,
            intrinsic,
        ),
        KnownValue::IntrinsicPair(first, second) => match exact_tuple(heap, current) {
            None => Ok(false),
            Some(values) => {
                if values.len() != 2 {
                    return Ok(false);
                }
                match intrinsic_builtin_is(heap, builtins_module, values[0], first) {
                    Ok(true) => intrinsic_builtin_is(heap, builtins_module, values[1], second),
                    other => other,
                }
            },
        },
        KnownValue::NormalizableSchemes => match exact_tuple(heap, current) {
            None => Ok(false),
            Some(values) => Ok(
                values.len() == 3 && heap.exact_text_is(values[0], "http") && heap.exact_text_is(
                    values[1],
                    "https",
                ) && heap.none_value(values[2]),
            ),
        },
        KnownValue::TextSet(set) => Ok(
            heap.exactly(current, heap.intrinsics.set) && match heap.elements(current) {
                Some(elements) => elements_are_characters(heap, elements, set),
                None => false,
            },
        ),
        KnownValue::TextFrozenSet(set) => Ok(
            heap.exactly(current, heap.intrinsics.frozen_set) && match heap.elements(current) {
                Some(elements) => elements_are_characters(heap, elements, set),
                None => false,
            },
        ),
        KnownValue::NetlocSchemes => {
            if !heap.exactly(current, heap.intrinsics.list) {
                return Ok(false);
            }
            match heap.elements(current) {
                None => Ok(false),
                Some(elements) => check_netloc_schemes(heap, elements),
            }
        },
        KnownValue::AlwaysSafeBytes => Ok(
            heap.exactly(current, heap.intrinsics.bytes) && match heap.bytes(current) {
                Some(bytes) => same_bytes(
                    bytes.as_slice(),
                    CharacterSet::Unreserved.text().as_bytes(),
                ),
                None => false,
            },
        ),
        KnownValue::EmptyDict => Ok(
            heap.exactly(current, heap.intrinsics.dict) && match heap.dict(current) {
                Some(pairs) => {
                    proof {
                        if pairs@.len() == 0 {
                            assert(pairs@ =~= Seq::<crate::heap::Pair>::empty());
                        }
                    }
                    pairs.len() == 0
                },
                None => false,
            },
        ),
        KnownValue::UrlType => match code {
            Some(KnownCode::Url { new, globals, builtins }) => Ok(
                known_url_type_is(heap, current, new, globals, builtins),
            ),
            _ => Ok(false),
        },
        KnownValue::ByteQuoterFactory => match code {
            Some(
                KnownCode::ByteQuoterFactory { factory, quoter_init, quoter_missing, globals },
            ) => Ok(
                known_byte_quoter_factory_is(
                    heap,
                    current,
                    factory,
                    quoter_init,
                    quoter_missing,
                    globals,
                ),
            ),
            _ => Ok(false),
        },
        KnownValue::QuoterType(class) => match code {
            Some(KnownCode::QuoterType { init, missing, globals }) => Ok(
                known_quoter_type_is(heap, current, globals, class, init, missing),
            ),
            _ => Ok(false),
        },
        KnownValue::Regex(regex) => known_regex_is(heap, current, regex),
        KnownValue::RegexPair(first, second) => match exact_tuple(heap, current) {
            None => Ok(false),
            Some(values) => {
                if values.len() != 2 {
                    return Ok(false);
                }
                match known_regex_is(heap, values[0], first) {
                    Ok(true) => known_regex_is(heap, values[1], second),
                    other => other,
                }
            },
        },
    }
}

/// Each set of characters is the one before it and these characters more.
pub proof fn law_sets_grow()
    ensures
        ({
            let path = CharacterSet::Path.characters();
            let query = CharacterSet::QueryOrFragment.characters();
            query == path.take(25) + seq!['?'] + path.skip(25)
        }),
        ({
            let user = CharacterSet::UserInfo.characters();
            let path = CharacterSet::Path.characters();
            path == user.take(11) + seq!['/'] + user.subrange(11, 24) + seq!['@'] + user.skip(24)
        }),
        ({
            let plain = CharacterSet::Unreserved.characters();
            let user = CharacterSet::UserInfo.characters();
            user == "!$&'()*+,"@ + plain.take(12) + ":;="@ + plain.skip(12)
        }),
{
    reveal_strlit("!$&'()*+,");
    reveal_strlit(":;=");
    reveal_strlit("-.0123456789ABCDEFGHIJKLMNOPQRSTUVWXYZ_abcdefghijklmnopqrstuvwxyz~");
    reveal_strlit(
        "!$&'()*+,-.0123456789:;=ABCDEFGHIJKLMNOPQRSTUVWXYZ_abcdefghijklmnopqrstuvwxyz~",
    );
    reveal_strlit(
        "!$&'()*+,-./0123456789:;=@ABCDEFGHIJKLMNOPQRSTUVWXYZ_abcdefghijklmnopqrstuvwxyz~",
    );
    reveal_strlit(
        "!$&'()*+,-./0123456789:;=?@ABCDEFGHIJKLMNOPQRSTUVWXYZ_abcdefghijklmnopqrstuvwxyz~",
    );
    let plain = CharacterSet::Unreserved.characters();
    let user = CharacterSet::UserInfo.characters();
    let path = CharacterSet::Path.characters();
    let query = CharacterSet::QueryOrFragment.characters();
    assert(query =~= path.take(25) + seq!['?'] + path.skip(25));
    assert(path =~= user.take(11) + seq!['/'] + user.subrange(11, 24) + seq!['@'] + user.skip(24));
    assert(user =~= "!$&'()*+,"@ + plain.take(12) + ":;="@ + plain.skip(12));
}

/// A known value goes by its own name in its own module.
pub proof fn law_known_values_go_by_their_names(module: Seq<char>, name: Seq<char>)
    ensures
        known_in_module(module, name) matches Some(KnownValue::Regex(regex)) ==> module
            == "urllib3.util.url"@ && name == (match regex {
            KnownRegex::Percent => "_PERCENT_RE"@,
            KnownRegex::Ipv4 => "_IPV4_RE"@,
            KnownRegex::Scheme => "_SCHEME_RE"@,
            KnownRegex::Uri => "_URI_RE"@,
            KnownRegex::Ipv6AddressWithZone => "_IPV6_ADDRZ_RE"@,
            KnownRegex::ZoneId => "_ZONE_ID_RE"@,
            KnownRegex::HostPort => "_HOST_PORT_RE"@,
            _ => name,
        }) && !(regex is HeaderNameText) && !(regex is HeaderNameBytes) && !(regex is HeaderValueText)
            && !(regex is HeaderValueBytes),
        known_in_module(module, name) matches Some(KnownValue::RegexPair(first, second)) ==> module
            == "requests.utils"@ && (if name == "_HEADER_VALIDATORS_STR"@ {
            first is HeaderNameText && second is HeaderValueText
        } else {
            name == "_HEADER_VALIDATORS_BYTE"@ && first is HeaderNameBytes
                && second is HeaderValueBytes
        }),
        known_in_module(module, name) matches Some(KnownValue::TextSet(set)) ==> module
            == "urllib3.util.url"@ && (match set {
            CharacterSet::Unreserved => name == "_UNRESERVED_CHARS"@,
            CharacterSet::UserInfo => name == "_USERINFO_CHARS"@,
            CharacterSet::Path => name == "_PATH_CHARS"@,
            CharacterSet::QueryOrFragment => name == "_QUERY_CHARS"@ || name == "_FRAGMENT_CHARS"@,
        }),
        known_in_module(module, name) matches Some(KnownValue::TextFrozenSet(set)) ==> module
            == "requests.utils"@ && name == "UNRESERVED_SET"@ && set is Unreserved,
        known_in_module(module, name) matches Some(KnownValue::IntrinsicPair(first, second))
            ==> module == "requests.models"@ && name == "basestring"@ && first is Str
            && second is Bytes,
        known_in_module(module, name) matches Some(KnownValue::Intrinsic(intrinsic)) ==> (module
            == "requests._internal_utils"@ && name == "builtin_str"@ && intrinsic is Str) || (module
            == "requests.utils"@ && name == "str"@ && intrinsic is Str) || (module
            == "requests.utils"@ && name == "bytes"@ && intrinsic is Bytes),
        known_in_module(module, name) matches Some(KnownValue::QuoterType(class)) ==> module
            == "urllib.parse"@ && name == class.spelled(),
        known_in_module(module, name) == Some(KnownValue::NormalizableSchemes) ==> module
            == "urllib3.util.url"@ && name == "_NORMALIZABLE_SCHEMES"@,
        known_in_module(module, name) == Some(KnownValue::UrlType) ==> module
            == "urllib3.util.url"@ && name == "Url"@,
        known_in_module(module, name) == Some(KnownValue::AlwaysSafeBytes) ==> module
            == "urllib.parse"@ && name == "_ALWAYS_SAFE_BYTES"@,
        known_in_module(module, name) == Some(KnownValue::ByteQuoterFactory) ==> module
            == "urllib.parse"@ && name == "_byte_quoter_factory"@,
        known_in_module(module, name) == Some(KnownValue::EmptyDict) ==> module == "urllib.parse"@
            && name == "_safe_quoters"@,
        known_in_module(module, name) == Some(KnownValue::NetlocSchemes) ==> module
            == "urllib.parse"@ && name == "uses_netloc"@,
{
}

/// A function is that of the source only where it says its own module and name,
/// has the source's code and the module's globals, and neither a closure nor
/// keyword defaults.
pub proof fn law_functions_of_the_source(
    heap: Heap,
    current: usize,
    module: Seq<char>,
    qualname: Seq<char>,
    code: usize,
    globals: usize,
    ellipsis: bool,
)
    requires
        is_source_function(heap, current, module, qualname, code, globals, ellipsis),
    ensures
        heap.is_exactly(current, heap.intrinsics.function),
        text_attribute(heap, current, "__module__"@) == Some(module),
        text_attribute(heap, current, "__qualname__"@) == Some(qualname),
        heap.attribute_of(current, "__code__"@) matches Some(own) && same_code(heap, own, code),
        heap.attribute_of(current, "__globals__"@) == Some(globals),
        present_attribute(heap, current, "__kwdefaults__"@) is None,
        present_attribute(heap, current, "__closure__"@) is None,
        present_attribute(heap, current, "__defaults__"@) is Some <==> ellipsis,
{
}

/// The same code is told alike from both sides, and a code is the same as itself.
pub proof fn law_same_code_is_an_equality(heap: Heap, left: usize, right: usize, third: usize)
    ensures
        same_code(heap, left, right) <==> same_code(heap, right, left),
        same_code(heap, left, right) && same_code(heap, right, third) ==> same_code(
            heap,
            left,
            third,
        ),
        code_equality(heap, left) is Some ==> same_code(heap, left, left),
        same_code(heap, left, right) ==> code_equality(heap, right) is Some,
{
}

/// A quoter's class adds nothing to a table but the way it starts and the way it
/// fills itself, both of the source.
pub proof fn law_quoters_are_plain_tables(
    heap: Heap,
    current: usize,
    globals: usize,
    class: QuoterClass,
    init_code: usize,
    missing_code: usize,
)
    requires
        is_quoter_type(heap, current, globals, class, init_code, missing_code),
    ensures
        is_class_named(heap, current, "urllib.parse"@, class.spelled()),
        heap.mro_of(current)[0] == current,
        heap.mro_of(current).contains(heap.intrinsics.dict),
        heap.mro_of(current).last() == heap.intrinsics.object,
        class is Quoter ==> heap.mro_of(current).len() == 4,
        class is PrivateQuoter ==> heap.mro_of(current).len() == 3,
        heap.module_entry_of(current, "__new__"@) is None,
        heap.module_entry_of(current, "__getitem__"@) is None,
        heap.module_entry_of(current, "__setitem__"@) is None,
        heap.module_entry_of(current, "__getattribute__"@) is None,
        heap.module_entry_of(current, "__init__"@) matches Some(init) && is_source_function(
            heap,
            init,
            "urllib.parse"@,
            class.spelled() + ".__init__"@,
            init_code,
            globals,
            false,
        ),
        heap.module_entry_of(current, "__missing__"@) matches Some(missing) && is_source_function(
            heap,
            missing,
            "urllib.parse"@,
            class.spelled() + ".__missing__"@,
            missing_code,
            globals,
            false,
        ),
        heap.entry_of(globals, "_ALWAYS_SAFE"@) matches Some(safe) && is_always_safe_set(
            heap,
            safe,
        ),
{
    let order = heap.mro_of(current);
    match class {
        QuoterClass::Quoter => assert(order[2] == heap.intrinsics.dict),
        QuoterClass::PrivateQuoter => assert(order[1] == heap.intrinsics.dict),
    }
}

/// The class of URLs is a tuple of these seven fields, none of which it hides, and
/// it is made by the source's own function with nothing by default.
pub proof fn law_urls_are_tuples_of_their_fields(
    heap: Heap,
    current: usize,
    code: usize,
    globals: usize,
    builtins: usize,
)
    requires
        is_url_type(heap, current, code, globals, builtins),
    ensures
        is_class_named(heap, current, "urllib3.util.url"@, "Url"@),
        heap.mro_of(current).len() == 4,
        heap.mro_of(current)[0] == current,
        heap.mro_of(current)[2] == heap.intrinsics.tuple,
        is_url_base(heap, heap.mro_of(current)[1]),
        heap.module_entry_of(current, "scheme"@) is None,
        heap.module_entry_of(current, "auth"@) is None,
        heap.module_entry_of(current, "host"@) is None,
        heap.module_entry_of(current, "port"@) is None,
        heap.module_entry_of(current, "path"@) is None,
        heap.module_entry_of(current, "query"@) is None,
        heap.module_entry_of(current, "fragment"@) is None,
        heap.module_entry_of(current, "__new__"@) matches Some(descriptor) && is_static_method(
            heap,
            descriptor,
        ) && (heap.attribute_of(descriptor, "__func__"@) matches Some(function) && is_url_new(
            heap,
            current,
            function,
            code,
            globals,
            builtins,
        )),
        heap.type_entry_of(current, "__getattribute__"@) == heap.type_entry_of(
            heap.intrinsics.tuple,
            "__getattribute__"@,
        ),
{
    let fields = url_fields();
    assert(fields[0] == "scheme"@ && fields[1] == "auth"@ && fields[2] == "host"@ && fields[3]
        == "port"@ && fields[4] == "path"@ && fields[5] == "query"@ && fields[6] == "fragment"@);
    let namespace = heap.attribute_of(current, "__dict__"@)->Some_0;
    assert(heap.entry_of(namespace, fields[0]) is None && heap.entry_of(namespace, fields[1])
        is None && heap.entry_of(namespace, fields[2]) is None && heap.entry_of(
        namespace,
        fields[3],
    ) is None && heap.entry_of(namespace, fields[4]) is None && heap.entry_of(namespace, fields[5])
        is None && heap.entry_of(namespace, fields[6]) is None);
}

/// The fields of a URL are got from these places of the tuple, in this order.
pub proof fn law_fields_are_got_from_their_places(heap: Heap, base: usize)
    requires
        is_url_base(heap, base),
    ensures
        heap.module_entry_of(base, "scheme"@) matches Some(getter) && is_tuple_getter(
            heap,
            getter,
            0,
        ),
        heap.module_entry_of(base, "auth"@) matches Some(getter) && is_tuple_getter(
            heap,
            getter,
            1,
        ),
        heap.module_entry_of(base, "host"@) matches Some(getter) && is_tuple_getter(
            heap,
            getter,
            2,
        ),
        heap.module_entry_of(base, "port"@) matches Some(getter) && is_tuple_getter(
            heap,
            getter,
            3,
        ),
        heap.module_entry_of(base, "path"@) matches Some(getter) && is_tuple_getter(
            heap,
            getter,
            4,
        ),
        heap.module_entry_of(base, "query"@) matches Some(getter) && is_tuple_getter(
            heap,
            getter,
            5,
        ),
        heap.module_entry_of(base, "fragment"@) matches Some(getter) && is_tuple_getter(
            heap,
            getter,
            6,
        ),
        heap.module_entry_of(base, "__getattribute__"@) is None,
        heap.module_entry_of(base, "__getitem__"@) is None,
        heap.module_entry_of(base, "__iter__"@) is None,
        heap.module_entry_of(base, "__len__"@) is None,
{
    let fields = url_fields();
    assert(fields[0] == "scheme"@ && fields[1] == "auth"@ && fields[2] == "host"@ && fields[3]
        == "port"@ && fields[4] == "path"@ && fields[5] == "query"@ && fields[6] == "fragment"@);
    let namespace = heap.attribute_of(base, "__dict__"@)->Some_0;
    assert(heap.entry_of(namespace, fields[0]) is Some && heap.entry_of(namespace, fields[1])
        is Some && heap.entry_of(namespace, fields[2]) is Some && heap.entry_of(
        namespace,
        fields[3],
    ) is Some && heap.entry_of(namespace, fields[4]) is Some && heap.entry_of(namespace, fields[5])
        is Some && heap.entry_of(namespace, fields[6]) is Some);
}

/// A type cannot be changed exactly where this flag of it is set.
pub proof fn law_unchangeable_types(heap: Heap, class: usize, flags: u64)
    ensures
        is_immutable(heap, class) <==> (type_flags(heap, class) matches Some(own) && (own >> 8) % 2
            == 1),
{
    if let Some(own) = type_flags(heap, class) {
        assert(own & 0x100 != 0 <==> (own >> 8) % 2 == 1) by (bit_vector);
    }
}

/// The schemes that have a host are texts alone, both ways to browse among them.
pub proof fn law_schemes_with_hosts(heap: Heap, elements: Seq<usize>)
    ensures
        are_netloc_schemes(heap, elements) == Ok::<bool, Failure>(true) <==> {
            &&& forall|index: int|
                0 <= index < elements.len() ==> heap.exact_text_of(#[trigger] elements[index])
                    is Some
            &&& some_element_is(heap, elements, "http"@)
            &&& some_element_is(heap, elements, "https"@)
        },
{
    lemma_texts_are_exact_each(heap, elements);
}

proof fn lemma_texts_are_exact_each(heap: Heap, elements: Seq<usize>)
    ensures
        are_exact_texts(heap, elements) == Ok::<bool, Failure>(true) <==> forall|index: int|
            0 <= index < elements.len() ==> heap.exact_text_of(#[trigger] elements[index]) is Some,
    decreases elements.len(),
{
    if elements.len() > 0 {
        let rest = elements.drop_first();
        lemma_texts_are_exact_each(heap, rest);
        if forall|index: int|
            0 <= index < elements.len() ==> heap.exact_text_of(#[trigger] elements[index])
                is Some {
            assert(heap.exact_text_of(elements[0]) is Some);
            assert forall|index: int| 0 <= index < rest.len() implies heap.exact_text_of(
                #[trigger] rest[index],
            ) is Some by {
                assert(rest[index] == elements[index + 1]);
            }
        }
        if are_exact_texts(heap, elements) == Ok::<bool, Failure>(true) {
            assert forall|index: int| 0 <= index < elements.len() implies heap.exact_text_of(
                #[trigger] elements[index],
            ) is Some by {
                if index > 0 {
                    assert(rest[index - 1] == elements[index]);
                }
            }
        }
    }
}

/// Each quoter class has its own name.
pub proof fn law_names_of_quoter_class()
    ensures
        QuoterClass::Quoter.spelled() == "Quoter"@,
        QuoterClass::PrivateQuoter.spelled() == "_Quoter"@,
{
}

} // verus!
