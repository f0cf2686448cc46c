//! What the request models of `requests` looked like when the backend first
//! met them, and whether they still do.

use vstd::prelude::*;

use crate::canonical::{canonical_function_is, CanonicalFunction, DefaultPolicy};
use crate::canonical::is_canonical;
use crate::canonical_build::{build_canonical_function, Source};
use crate::canonical_build::{all_functions, is_buildable, is_built};
use crate::heap::{Check, Failure, Heap, Payload};
use crate::heap::both;
use crate::intrinsic::{intrinsic_builtin_is, IntrinsicBuiltin};
use crate::intrinsic::is_intrinsic;
use crate::text::text_views;

verus! {

/// An object that is remembered.
#[derive(Clone, Copy, Debug, PartialEq, Eq, Structural)]
pub enum Anchor {
    InternalUtils,
    Builtins,
    Models,
    Structures,
    Utils,
    MethodType,
    PreparedRequest,
    CaseInsensitiveDict,
    DictInit,
    DictNew,
    DictGetAttribute,
    DictSetAttr,
    DictUpdate,
    DictSetItem,
    OrderedDict,
    CheckHeaderValidity,
    ValidateHeaderPart,
    HeaderValidatorsStr,
    HeaderValidatorsByte,
    ToNativeString,
    InvalidHeader,
    InvalidUrl,
    LocationParseError,
    MissingSchema,
    ParseUrl,
    RequoteUri,
    UnicodeIsAscii,
    UrlUnparse,
    EncodeParamsDescriptor,
    EncodeParamsFunction,
    PrepareMethod,
    PrepareHeaders,
    PrepareUrl,
    ObjectGetAttribute,
    ObjectSetAttr,
}

/// The number of anchors.
pub const ANCHORS: usize = 35;

impl Anchor {
    /// The anchor's place.
    pub open spec fn place(self) -> int {
        match self {
            Anchor::InternalUtils => 0,
            Anchor::Builtins => 1,
            Anchor::Models => 2,
            Anchor::Structures => 3,
            Anchor::Utils => 4,
            Anchor::MethodType => 5,
            Anchor::PreparedRequest => 6,
            Anchor::CaseInsensitiveDict => 7,
            Anchor::DictInit => 8,
            Anchor::DictNew => 9,
            Anchor::DictGetAttribute => 10,
            Anchor::DictSetAttr => 11,
            Anchor::DictUpdate => 12,
            Anchor::DictSetItem => 13,
            Anchor::OrderedDict => 14,
            Anchor::CheckHeaderValidity => 15,
            Anchor::ValidateHeaderPart => 16,
            Anchor::HeaderValidatorsStr => 17,
            Anchor::HeaderValidatorsByte => 18,
            Anchor::ToNativeString => 19,
            Anchor::InvalidHeader => 20,
            Anchor::InvalidUrl => 21,
            Anchor::LocationParseError => 22,
            Anchor::MissingSchema => 23,
            Anchor::ParseUrl => 24,
            Anchor::RequoteUri => 25,
            Anchor::UnicodeIsAscii => 26,
            Anchor::UrlUnparse => 27,
            Anchor::EncodeParamsDescriptor => 28,
            Anchor::EncodeParamsFunction => 29,
            Anchor::PrepareMethod => 30,
            Anchor::PrepareHeaders => 31,
            Anchor::PrepareUrl => 32,
            Anchor::ObjectGetAttribute => 33,
            Anchor::ObjectSetAttr => 34,
        }
    }

    /// The anchor's place.
    pub fn index(&self) -> (place: usize)
        ensures
            place == self.place(),
            place < ANCHORS,
    {
        match self {
            Anchor::InternalUtils => 0,
            Anchor::Builtins => 1,
            Anchor::Models => 2,
            Anchor::Structures => 3,
            Anchor::Utils => 4,
            Anchor::MethodType => 5,
            Anchor::PreparedRequest => 6,
            Anchor::CaseInsensitiveDict => 7,
            Anchor::DictInit => 8,
            Anchor::DictNew => 9,
            Anchor::DictGetAttribute => 10,
            Anchor::DictSetAttr => 11,
            Anchor::DictUpdate => 12,
            Anchor::DictSetItem => 13,
            Anchor::OrderedDict => 14,
            Anchor::CheckHeaderValidity => 15,
            Anchor::ValidateHeaderPart => 16,
            Anchor::HeaderValidatorsStr => 17,
            Anchor::HeaderValidatorsByte => 18,
            Anchor::ToNativeString => 19,
            Anchor::InvalidHeader => 20,
            Anchor::InvalidUrl => 21,
            Anchor::LocationParseError => 22,
            Anchor::MissingSchema => 23,
            Anchor::ParseUrl => 24,
            Anchor::RequoteUri => 25,
            Anchor::UnicodeIsAscii => 26,
            Anchor::UrlUnparse => 27,
            Anchor::EncodeParamsDescriptor => 28,
            Anchor::EncodeParamsFunction => 29,
            Anchor::PrepareMethod => 30,
            Anchor::PrepareHeaders => 31,
            Anchor::PrepareUrl => 32,
            Anchor::ObjectGetAttribute => 33,
            Anchor::ObjectSetAttr => 34,
        }
    }

    /// The anchor at a place.
    pub fn at_index(place: usize) -> (anchor: Anchor)
        requires
            place < ANCHORS,
        ensures
            anchor.place() == place,
    {
        if place == 0 {
            Anchor::InternalUtils
        } else if place == 1 {
            Anchor::Builtins
        } else if place == 2 {
            Anchor::Models
        } else if place == 3 {
            Anchor::Structures
        } else if place == 4 {
            Anchor::Utils
        } else if place == 5 {
            Anchor::MethodType
        } else if place == 6 {
            Anchor::PreparedRequest
        } else if place == 7 {
            Anchor::CaseInsensitiveDict
        } else if place == 8 {
            Anchor::DictInit
        } else if place == 9 {
            Anchor::DictNew
        } else if place == 10 {
            Anchor::DictGetAttribute
        } else if place == 11 {
            Anchor::DictSetAttr
        } else if place == 12 {
            Anchor::DictUpdate
        } else if place == 13 {
            Anchor::DictSetItem
        } else if place == 14 {
            Anchor::OrderedDict
        } else if place == 15 {
            Anchor::CheckHeaderValidity
        } else if place == 16 {
            Anchor::ValidateHeaderPart
        } else if place == 17 {
            Anchor::HeaderValidatorsStr
        } else if place == 18 {
            Anchor::HeaderValidatorsByte
        } else if place == 19 {
            Anchor::ToNativeString
        } else if place == 20 {
            Anchor::InvalidHeader
        } else if place == 21 {
            Anchor::InvalidUrl
        } else if place == 22 {
            Anchor::LocationParseError
        } else if place == 23 {
            Anchor::MissingSchema
        } else if place == 24 {
            Anchor::ParseUrl
        } else if place == 25 {
            Anchor::RequoteUri
        } else if place == 26 {
            Anchor::UnicodeIsAscii
        } else if place == 27 {
            Anchor::UrlUnparse
        } else if place == 28 {
            Anchor::EncodeParamsDescriptor
        } else if place == 29 {
            Anchor::EncodeParamsFunction
        } else if place == 30 {
            Anchor::PrepareMethod
        } else if place == 31 {
            Anchor::PrepareHeaders
        } else if place == 32 {
            Anchor::PrepareUrl
        } else if place == 33 {
            Anchor::ObjectGetAttribute
        } else {
            Anchor::ObjectSetAttr
        }
    }
}

/// Whether an object is a type.
pub open spec fn is_type(heap: Heap, object: usize) -> bool {
    heap.at(object) matches Some(found) && found.payload is Type
}

/// Whether an object is a type.
pub fn type_object(heap: &Heap, object: usize) -> (yes: bool)
    ensures
        yes == is_type(*heap, object),
{
    match heap.get(object) {
        Some(found) => match &found.payload {
            Payload::Type => true,
            _ => false,
        },
        None => false,
    }
}

/// What a module holds under a name, in its own name space.
pub open spec fn held_by(heap: Heap, module: Seq<char>, name: Seq<char>) -> Option<usize> {
    match heap.module_of(module) {
        Some(object) => heap.module_entry_of(object, name),
        None => None,
    }
}

/// What a module holds under a name, in its own name space.
pub fn required_module_entry(heap: &Heap, module: &str, name: &str) -> (value: Option<usize>)
    ensures
        value == held_by(*heap, module@, name@),
{
    match heap.module(module) {
        Some(object) => heap.module_entry(object, name),
        None => None,
    }
}

/// A type that a module holds under a name.
pub open spec fn type_held_by(heap: Heap, module: Seq<char>, name: Seq<char>) -> Option<usize> {
    match held_by(heap, module, name) {
        Some(value) => if is_type(heap, value) {
            Some(value)
        } else {
            None
        },
        None => None,
    }
}

/// A type that a module holds under a name.
pub fn required_module_type(heap: &Heap, module: &str, name: &str) -> (value: Option<usize>)
    ensures
        value == type_held_by(*heap, module@, name@),
{
    match required_module_entry(heap, module, name) {
        Some(value) => if type_object(heap, value) {
            Some(value)
        } else {
            None
        },
        None => None,
    }
}

/// The entry of a class that a module of `requests` holds.
pub open spec fn entry_of_type(
    heap: Heap,
    module: Seq<char>,
    class: Seq<char>,
    name: Seq<char>,
) -> Option<usize> {
    match type_held_by(heap, module, class) {
        Some(found) => heap.type_entry_of(found, name),
        None => None,
    }
}

/// The entry of a class that a module of `requests` holds.
pub fn required_raw_type_entry(heap: &Heap, module: &str, class: &str, name: &str) -> (value: Option<
    usize,
>)
    ensures
        value == entry_of_type(*heap, module@, class@, name@),
{
    match required_module_type(heap, module, class) {
        Some(found) => heap.raw_type_entry(found, name),
        None => None,
    }
}

/// The descriptor under which `requests.models` encodes parameters.
pub open spec fn encode_params_descriptor(heap: Heap) -> Option<usize> {
    match type_held_by(heap, "requests.models"@, "RequestEncodingMixin"@) {
        Some(mixin) => match heap.attribute_of(mixin, "__dict__"@) {
            Some(namespace) => heap.entry_of(namespace, "_encode_params"@),
            None => None,
        },
        None => None,
    }
}

/// The descriptor under which `requests.models` encodes parameters.
fn find_encode_params_descriptor(heap: &Heap) -> (value: Option<usize>)
    ensures
        value == encode_params_descriptor(*heap),
{
    match required_module_type(heap, "requests.models", "RequestEncodingMixin") {
        Some(mixin) => match heap.attribute(mixin, "__dict__") {
            Some(namespace) => heap.entry(namespace, "_encode_params"),
            None => None,
        },
        None => None,
    }
}

/// The object that an anchor names on a snapshot.
pub open spec fn anchored_object(heap: Heap, anchor: Anchor) -> Option<usize> {
    match anchor {
        Anchor::InternalUtils => heap.module_of("requests._internal_utils"@),
        Anchor::Builtins => heap.module_of("builtins"@),
        Anchor::Models => heap.module_of("requests.models"@),
        Anchor::Structures => heap.module_of("requests.structures"@),
        Anchor::Utils => heap.module_of("requests.utils"@),
        Anchor::MethodType => type_held_by(heap, "types"@, "MethodType"@),
        Anchor::PreparedRequest => type_held_by(heap, "requests.models"@, "PreparedRequest"@),
        Anchor::CaseInsensitiveDict => type_held_by(
            heap,
            "requests.models"@,
            "CaseInsensitiveDict"@,
        ),
        Anchor::DictInit => entry_of_type(
            heap,
            "requests.models"@,
            "CaseInsensitiveDict"@,
            "__init__"@,
        ),
        Anchor::DictNew => entry_of_type(
            heap,
            "requests.models"@,
            "CaseInsensitiveDict"@,
            "__new__"@,
        ),
        Anchor::DictGetAttribute => entry_of_type(
            heap,
            "requests.models"@,
            "CaseInsensitiveDict"@,
            "__getattribute__"@,
        ),
        Anchor::DictSetAttr => entry_of_type(
            heap,
            "requests.models"@,
            "CaseInsensitiveDict"@,
            "__setattr__"@,
        ),
        Anchor::DictUpdate => entry_of_type(
            heap,
            "requests.models"@,
            "CaseInsensitiveDict"@,
            "update"@,
        ),
        Anchor::DictSetItem => entry_of_type(
            heap,
            "requests.models"@,
            "CaseInsensitiveDict"@,
            "__setitem__"@,
        ),
        Anchor::OrderedDict => held_by(heap, "requests.structures"@, "OrderedDict"@),
        Anchor::CheckHeaderValidity => held_by(
            heap,
            "requests.models"@,
            "check_header_validity"@,
        ),
        Anchor::ValidateHeaderPart => held_by(heap, "requests.utils"@, "_validate_header_part"@),
        Anchor::HeaderValidatorsStr => held_by(heap, "requests.utils"@, "_HEADER_VALIDATORS_STR"@),
        Anchor::HeaderValidatorsByte => held_by(
            heap,
            "requests.utils"@,
            "_HEADER_VALIDATORS_BYTE"@,
        ),
        Anchor::ToNativeString => held_by(heap, "requests.models"@, "to_native_string"@),
        Anchor::InvalidHeader => held_by(heap, "requests.utils"@, "InvalidHeader"@),
        Anchor::InvalidUrl => held_by(heap, "requests.models"@, "InvalidURL"@),
        Anchor::LocationParseError => held_by(heap, "requests.models"@, "LocationParseError"@),
        Anchor::MissingSchema => held_by(heap, "requests.models"@, "MissingSchema"@),
        Anchor::ParseUrl => held_by(heap, "requests.models"@, "parse_url"@),
        Anchor::RequoteUri => held_by(heap, "requests.models"@, "requote_uri"@),
        Anchor::UnicodeIsAscii => held_by(heap, "requests.models"@, "unicode_is_ascii"@),
        Anchor::UrlUnparse => held_by(heap, "requests.models"@, "urlunparse"@),
        Anchor::EncodeParamsDescriptor => encode_params_descriptor(heap),
        Anchor::EncodeParamsFunction => match encode_params_descriptor(heap) {
            Some(descriptor) => heap.attribute_of(descriptor, "__func__"@),
            None => None,
        },
        Anchor::PrepareMethod => entry_of_type(
            heap,
            "requests.models"@,
            "PreparedRequest"@,
            "prepare_method"@,
        ),
        Anchor::PrepareHeaders => entry_of_type(
            heap,
            "requests.models"@,
            "PreparedRequest"@,
            "prepare_headers"@,
        ),
        Anchor::PrepareUrl => entry_of_type(
            heap,
            "requests.models"@,
            "PreparedRequest"@,
            "prepare_url"@,
        ),
        Anchor::ObjectGetAttribute => heap.type_entry_of(
            heap.intrinsics.object,
            "__getattribute__"@,
        ),
        Anchor::ObjectSetAttr => heap.type_entry_of(heap.intrinsics.object, "__setattr__"@),
    }
}

/// The object that an anchor names on a snapshot.
pub fn find_anchor(heap: &Heap, anchor: Anchor) -> (object: Option<usize>)
    ensures
        object == anchored_object(*heap, anchor),
{
    match anchor {
        Anchor::InternalUtils => heap.module("requests._internal_utils"),
        Anchor::Builtins => heap.module("builtins"),
        Anchor::Models => heap.module("requests.models"),
        Anchor::Structures => heap.module("requests.structures"),
        Anchor::Utils => heap.module("requests.utils"),
        Anchor::MethodType => required_module_type(heap, "types", "MethodType"),
        Anchor::PreparedRequest => required_module_type(heap, "requests.models", "PreparedRequest"),
        Anchor::CaseInsensitiveDict => required_module_type(
            heap,
            "requests.models",
            "CaseInsensitiveDict",
        ),
        Anchor::DictInit => required_raw_type_entry(
            heap,
            "requests.models",
            "CaseInsensitiveDict",
            "__init__",
        ),
        Anchor::DictNew => required_raw_type_entry(
            heap,
            "requests.models",
            "CaseInsensitiveDict",
            "__new__",
        ),
        Anchor::DictGetAttribute => required_raw_type_entry(
            heap,
            "requests.models",
            "CaseInsensitiveDict",
            "__getattribute__",
        ),
        Anchor::DictSetAttr => required_raw_type_entry(
            heap,
            "requests.models",
            "CaseInsensitiveDict",
            "__setattr__",
        ),
        Anchor::DictUpdate => required_raw_type_entry(
            heap,
            "requests.models",
            "CaseInsensitiveDict",
            "update",
        ),
        Anchor::DictSetItem => required_raw_type_entry(
            heap,
            "requests.models",
            "CaseInsensitiveDict",
            "__setitem__",
        ),
        Anchor::OrderedDict => required_module_entry(heap, "requests.structures", "OrderedDict"),
        Anchor::CheckHeaderValidity => required_module_entry(
            heap,
            "requests.models",
            "check_header_validity",
        ),
        Anchor::ValidateHeaderPart => required_module_entry(
            heap,
            "requests.utils",
            "_validate_header_part",
        ),
        Anchor::HeaderValidatorsStr => required_module_entry(
            heap,
            "requests.utils",
            "_HEADER_VALIDATORS_STR",
        ),
        Anchor::HeaderValidatorsByte => required_module_entry(
            heap,
            "requests.utils",
            "_HEADER_VALIDATORS_BYTE",
        ),
        Anchor::ToNativeString => required_module_entry(
            heap,
            "requests.models",
            "to_native_string",
        ),
        Anchor::InvalidHeader => required_module_entry(heap, "requests.utils", "InvalidHeader"),
        Anchor::InvalidUrl => required_module_entry(heap, "requests.models", "InvalidURL"),
        Anchor::LocationParseError => required_module_entry(
            heap,
            "requests.models",
            "LocationParseError",
        ),
        Anchor::MissingSchema => required_module_entry(heap, "requests.models", "MissingSchema"),
        Anchor::ParseUrl => required_module_entry(heap, "requests.models", "parse_url"),
        Anchor::RequoteUri => required_module_entry(heap, "requests.models", "requote_uri"),
        Anchor::UnicodeIsAscii => required_module_entry(
            heap,
            "requests.models",
            "unicode_is_ascii",
        ),
        Anchor::UrlUnparse => required_module_entry(heap, "requests.models", "urlunparse"),
        Anchor::EncodeParamsDescriptor => find_encode_params_descriptor(heap),
        Anchor::EncodeParamsFunction => match find_encode_params_descriptor(heap) {
            Some(descriptor) => heap.attribute(descriptor, "__func__"),
            None => None,
        },
        Anchor::PrepareMethod => required_raw_type_entry(
            heap,
            "requests.models",
            "PreparedRequest",
            "prepare_method",
        ),
        Anchor::PrepareHeaders => required_raw_type_entry(
            heap,
            "requests.models",
            "PreparedRequest",
            "prepare_headers",
        ),
        Anchor::PrepareUrl => required_raw_type_entry(
            heap,
            "requests.models",
            "PreparedRequest",
            "prepare_url",
        ),
        Anchor::ObjectGetAttribute => heap.raw_type_entry(
            heap.intrinsics.object,
            "__getattribute__",
        ),
        Anchor::ObjectSetAttr => heap.raw_type_entry(heap.intrinsics.object, "__setattr__"),
    }
}

/// Why a module's own name space does not give a name.
pub open spec fn entry_failure(heap: Heap, module: Seq<char>, name: Seq<char>) -> Option<Failure> {
    if heap.module_of(module) is None {
        Some(Failure::Import)
    } else if held_by(heap, module, name) is None {
        Some(Failure::Attribute)
    } else {
        None
    }
}

/// Why a module's own name space gives no type of a name.
pub open spec fn type_failure(heap: Heap, module: Seq<char>, name: Seq<char>) -> Option<Failure> {
    match entry_failure(heap, module, name) {
        Some(failure) => Some(failure),
        None => if type_held_by(heap, module, name) is None {
            Some(Failure::Kind)
        } else {
            None
        },
    }
}

/// Why a class that a module holds gives no entry of a name.
pub open spec fn member_failure(
    heap: Heap,
    module: Seq<char>,
    class: Seq<char>,
    name: Seq<char>,
) -> Option<Failure> {
    match type_failure(heap, module, class) {
        Some(failure) => Some(failure),
        None => if entry_of_type(heap, module, class, name) is None {
            Some(Failure::Attribute)
        } else {
            None
        },
    }
}

/// Why there is no descriptor under which parameters are encoded.
pub open spec fn descriptor_failure(heap: Heap) -> Option<Failure> {
    match type_held_by(heap, "requests.models"@, "RequestEncodingMixin"@) {
        None => type_failure(heap, "requests.models"@, "RequestEncodingMixin"@),
        Some(mixin) => if heap.attribute_of(mixin, "__dict__"@) is None {
            Some(Failure::Attribute)
        } else if encode_params_descriptor(heap) is None {
            Some(Failure::Item)
        } else {
            None
        },
    }
}

/// Why a module is missing.
pub open spec fn module_failure(heap: Heap, module: Seq<char>) -> Option<Failure> {
    if heap.module_of(module) is None {
        Some(Failure::Import)
    } else {
        None
    }
}

/// Why an anchor names no object on a snapshot.
pub open spec fn anchor_failure(heap: Heap, anchor: Anchor) -> Option<Failure> {
    match anchor {
        Anchor::InternalUtils => module_failure(heap, "requests._internal_utils"@),
        Anchor::Builtins => module_failure(heap, "builtins"@),
        Anchor::Models => module_failure(heap, "requests.models"@),
        Anchor::Structures => module_failure(heap, "requests.structures"@),
        Anchor::Utils => module_failure(heap, "requests.utils"@),
        Anchor::MethodType => type_failure(heap, "types"@, "MethodType"@),
        Anchor::PreparedRequest => type_failure(heap, "requests.models"@, "PreparedRequest"@),
        Anchor::CaseInsensitiveDict => type_failure(
            heap,
            "requests.models"@,
            "CaseInsensitiveDict"@,
        ),
        Anchor::DictInit => member_failure(
            heap,
            "requests.models"@,
            "CaseInsensitiveDict"@,
            "__init__"@,
        ),
        Anchor::DictNew => member_failure(
            heap,
            "requests.models"@,
            "CaseInsensitiveDict"@,
            "__new__"@,
        ),
        Anchor::DictGetAttribute => member_failure(
            heap,
            "requests.models"@,
            "CaseInsensitiveDict"@,
            "__getattribute__"@,
        ),
        Anchor::DictSetAttr => member_failure(
            heap,
            "requests.models"@,
            "CaseInsensitiveDict"@,
            "__setattr__"@,
        ),
        Anchor::DictUpdate => member_failure(
            heap,
            "requests.models"@,
            "CaseInsensitiveDict"@,
            "update"@,
        ),
        Anchor::DictSetItem => member_failure(
            heap,
            "requests.models"@,
            "CaseInsensitiveDict"@,
            "__setitem__"@,
        ),
        Anchor::OrderedDict => entry_failure(heap, "requests.structures"@, "OrderedDict"@),
        Anchor::CheckHeaderValidity => entry_failure(
            heap,
            "requests.models"@,
            "check_header_validity"@,
        ),
        Anchor::ValidateHeaderPart => entry_failure(heap, "requests.utils"@, "_validate_header_part"@),
        Anchor::HeaderValidatorsStr => entry_failure(heap, "requests.utils"@, "_HEADER_VALIDATORS_STR"@),
        Anchor::HeaderValidatorsByte => entry_failure(
            heap,
            "requests.utils"@,
            "_HEADER_VALIDATORS_BYTE"@,
        ),
        Anchor::ToNativeString => entry_failure(heap, "requests.models"@, "to_native_string"@),
        Anchor::InvalidHeader => entry_failure(heap, "requests.utils"@, "InvalidHeader"@),
        Anchor::InvalidUrl => entry_failure(heap, "requests.models"@, "InvalidURL"@),
        Anchor::LocationParseError => entry_failure(heap, "requests.models"@, "LocationParseError"@),
        Anchor::MissingSchema => entry_failure(heap, "requests.models"@, "MissingSchema"@),
        Anchor::ParseUrl => entry_failure(heap, "requests.models"@, "parse_url"@),
        Anchor::RequoteUri => entry_failure(heap, "requests.models"@, "requote_uri"@),
        Anchor::UnicodeIsAscii => entry_failure(heap, "requests.models"@, "unicode_is_ascii"@),
        Anchor::UrlUnparse => entry_failure(heap, "requests.models"@, "urlunparse"@),
        Anchor::EncodeParamsDescriptor => descriptor_failure(heap),
        Anchor::EncodeParamsFunction => match encode_params_descriptor(heap) {
            None => descriptor_failure(heap),
            Some(descriptor) => if heap.attribute_of(descriptor, "__func__"@) is None {
                Some(Failure::Attribute)
            } else {
                None
            },
        },
        Anchor::PrepareMethod => member_failure(
            heap,
            "requests.models"@,
            "PreparedRequest"@,
            "prepare_method"@,
        ),
        Anchor::PrepareHeaders => member_failure(
            heap,
            "requests.models"@,
            "PreparedRequest"@,
            "prepare_headers"@,
        ),
        Anchor::PrepareUrl => member_failure(
            heap,
            "requests.models"@,
            "PreparedRequest"@,
            "prepare_url"@,
        ),
        Anchor::ObjectGetAttribute => if heap.type_entry_of(
            heap.intrinsics.object,
            "__getattribute__"@,
        ) is None {
            Some(Failure::Attribute)
        } else {
            None
        },
        Anchor::ObjectSetAttr => if heap.type_entry_of(
            heap.intrinsics.object,
            "__setattr__"@,
        ) is None {
            Some(Failure::Attribute)
        } else {
            None
        },
    }
}

/// An anchor names an object exactly where nothing keeps it from doing so.
proof fn lemma_anchor_or_failure(heap: Heap, anchor: Anchor)
    ensures
        anchored_object(heap, anchor) is None <==> anchor_failure(heap, anchor) is Some,
{
}

/// Why a module's own name space does not give a name.
fn why_no_entry(heap: &Heap, module: &str, name: &str) -> (failure: Option<Failure>)
    ensures
        failure == entry_failure(*heap, module@, name@),
{
    match heap.module(module) {
        None => Some(Failure::Import),
        Some(object) => if heap.module_entry(object, name).is_none() {
            Some(Failure::Attribute)
        } else {
            None
        },
    }
}

/// Why a module's own name space gives no type of a name.
fn why_no_type(heap: &Heap, module: &str, name: &str) -> (failure: Option<Failure>)
    ensures
        failure == type_failure(*heap, module@, name@),
{
    match why_no_entry(heap, module, name) {
        Some(failure) => Some(failure),
        None => if required_module_type(heap, module, name).is_none() {
            Some(Failure::Kind)
        } else {
            None
        },
    }
}

/// Why a class that a module holds gives no entry of a name.
fn why_no_member(heap: &Heap, module: &str, class: &str, name: &str) -> (failure: Option<Failure>)
    ensures
        failure == member_failure(*heap, module@, class@, name@),
{
    match why_no_type(heap, module, class) {
        Some(failure) => Some(failure),
        None => if required_raw_type_entry(heap, module, class, name).is_none() {
            Some(Failure::Attribute)
        } else {
            None
        },
    }
}

/// Why there is no descriptor under which parameters are encoded.
fn why_no_descriptor(heap: &Heap) -> (failure: Option<Failure>)
    ensures
        failure == descriptor_failure(*heap),
{
    match required_module_type(heap, "requests.models", "RequestEncodingMixin") {
        None => why_no_type(heap, "requests.models", "RequestEncodingMixin"),
        Some(mixin) => if heap.attribute(mixin, "__dict__").is_none() {
            Some(Failure::Attribute)
        } else if find_encode_params_descriptor(heap).is_none() {
            Some(Failure::Item)
        } else {
            None
        },
    }
}

/// Why a module is missing.
fn why_no_module(heap: &Heap, module: &str) -> (failure: Option<Failure>)
    ensures
        failure == module_failure(*heap, module@),
{
    if heap.module(module).is_none() {
        Some(Failure::Import)
    } else {
        None
    }
}

/// Why an anchor names no object on a snapshot.
pub fn why_no_anchor(heap: &Heap, anchor: Anchor) -> (failure: Option<Failure>)
    ensures
        failure == anchor_failure(*heap, anchor),
{
    match anchor {
        Anchor::InternalUtils => why_no_module(heap, "requests._internal_utils"),
        Anchor::Builtins => why_no_module(heap, "builtins"),
        Anchor::Models => why_no_module(heap, "requests.models"),
        Anchor::Structures => why_no_module(heap, "requests.structures"),
        Anchor::Utils => why_no_module(heap, "requests.utils"),
        Anchor::MethodType => why_no_type(heap, "types", "MethodType"),
        Anchor::PreparedRequest => why_no_type(heap, "requests.models", "PreparedRequest"),
        Anchor::CaseInsensitiveDict => why_no_type(
            heap,
            "requests.models",
            "CaseInsensitiveDict",
        ),
        Anchor::DictInit => why_no_member(
            heap,
            "requests.models",
            "CaseInsensitiveDict",
            "__init__",
        ),
        Anchor::DictNew => why_no_member(
            heap,
            "requests.models",
            "CaseInsensitiveDict",
            "__new__",
        ),
        Anchor::DictGetAttribute => why_no_member(
            heap,
            "requests.models",
            "CaseInsensitiveDict",
            "__getattribute__",
        ),
        Anchor::DictSetAttr => why_no_member(
            heap,
            "requests.models",
            "CaseInsensitiveDict",
            "__setattr__",
        ),
        Anchor::DictUpdate => why_no_member(
            heap,
            "requests.models",
            "CaseInsensitiveDict",
            "update",
        ),
        Anchor::DictSetItem => why_no_member(
            heap,
            "requests.models",
            "CaseInsensitiveDict",
            "__setitem__",
        ),
        Anchor::OrderedDict => why_no_entry(heap, "requests.structures", "OrderedDict"),
        Anchor::CheckHeaderValidity => why_no_entry(
            heap,
            "requests.models",
            "check_header_validity",
        ),
        Anchor::ValidateHeaderPart => why_no_entry(heap, "requests.utils", "_validate_header_part"),
        Anchor::HeaderValidatorsStr => why_no_entry(heap, "requests.utils", "_HEADER_VALIDATORS_STR"),
        Anchor::HeaderValidatorsByte => why_no_entry(
            heap,
            "requests.utils",
            "_HEADER_VALIDATORS_BYTE",
        ),
        Anchor::ToNativeString => why_no_entry(heap, "requests.models", "to_native_string"),
        Anchor::InvalidHeader => why_no_entry(heap, "requests.utils", "InvalidHeader"),
        Anchor::InvalidUrl => why_no_entry(heap, "requests.models", "InvalidURL"),
        Anchor::LocationParseError => why_no_entry(heap, "requests.models", "LocationParseError"),
        Anchor::MissingSchema => why_no_entry(heap, "requests.models", "MissingSchema"),
        Anchor::ParseUrl => why_no_entry(heap, "requests.models", "parse_url"),
        Anchor::RequoteUri => why_no_entry(heap, "requests.models", "requote_uri"),
        Anchor::UnicodeIsAscii => why_no_entry(heap, "requests.models", "unicode_is_ascii"),
        Anchor::UrlUnparse => why_no_entry(heap, "requests.models", "urlunparse"),
        Anchor::EncodeParamsDescriptor => why_no_descriptor(heap),
        Anchor::EncodeParamsFunction => match find_encode_params_descriptor(heap) {
            None => why_no_descriptor(heap),
            Some(descriptor) => if heap.attribute(descriptor, "__func__").is_none() {
                Some(Failure::Attribute)
            } else {
                None
            },
        },
        Anchor::PrepareMethod => why_no_member(
            heap,
            "requests.models",
            "PreparedRequest",
            "prepare_method",
        ),
        Anchor::PrepareHeaders => why_no_member(
            heap,
            "requests.models",
            "PreparedRequest",
            "prepare_headers",
        ),
        Anchor::PrepareUrl => why_no_member(
            heap,
            "requests.models",
            "PreparedRequest",
            "prepare_url",
        ),
        Anchor::ObjectGetAttribute => if heap.raw_type_entry(
            heap.intrinsics.object,
            "__getattribute__",
        ).is_none() {
            Some(Failure::Attribute)
        } else {
            None
        },
        Anchor::ObjectSetAttr => if heap.raw_type_entry(
            heap.intrinsics.object,
            "__setattr__",
        ).is_none() {
            Some(Failure::Attribute)
        } else {
            None
        },
    }
}

/// A function that is trusted.
#[derive(Clone, Copy, Debug, PartialEq, Eq, Structural)]
pub enum Trust {
    PrepareMethod,
    PrepareHeaders,
    PrepareUrl,
    EncodeParams,
    ToNativeString,
    ParseUrl,
    RequoteUri,
    UnicodeIsAscii,
    UrlUnparse,
    CheckHeaderValidity,
    ValidateHeaderPart,
    DictInit,
    DictUpdate,
    DictSetItem,
}

/// The number of trusted functions.
pub const TRUSTS: usize = 14;

impl Trust {
    /// The function's place.
    pub open spec fn place(self) -> int {
        match self {
            Trust::PrepareMethod => 0,
            Trust::PrepareHeaders => 1,
            Trust::PrepareUrl => 2,
            Trust::EncodeParams => 3,
            Trust::ToNativeString => 4,
            Trust::ParseUrl => 5,
            Trust::RequoteUri => 6,
            Trust::UnicodeIsAscii => 7,
            Trust::UrlUnparse => 8,
            Trust::CheckHeaderValidity => 9,
            Trust::ValidateHeaderPart => 10,
            Trust::DictInit => 11,
            Trust::DictUpdate => 12,
            Trust::DictSetItem => 13,
        }
    }

    /// The function's place.
    pub fn index(&self) -> (place: usize)
        ensures
            place == self.place(),
            place < TRUSTS,
    {
        match self {
            Trust::PrepareMethod => 0,
            Trust::PrepareHeaders => 1,
            Trust::PrepareUrl => 2,
            Trust::EncodeParams => 3,
            Trust::ToNativeString => 4,
            Trust::ParseUrl => 5,
            Trust::RequoteUri => 6,
            Trust::UnicodeIsAscii => 7,
            Trust::UrlUnparse => 8,
            Trust::CheckHeaderValidity => 9,
            Trust::ValidateHeaderPart => 10,
            Trust::DictInit => 11,
            Trust::DictUpdate => 12,
            Trust::DictSetItem => 13,
        }
    }

    /// The function at a place.
    pub fn at_index(place: usize) -> (trust: Trust)
        requires
            place < TRUSTS,
        ensures
            trust.place() == place,
    {
        if place == 0 {
            Trust::PrepareMethod
        } else if place == 1 {
            Trust::PrepareHeaders
        } else if place == 2 {
            Trust::PrepareUrl
        } else if place == 3 {
            Trust::EncodeParams
        } else if place == 4 {
            Trust::ToNativeString
        } else if place == 5 {
            Trust::ParseUrl
        } else if place == 6 {
            Trust::RequoteUri
        } else if place == 7 {
            Trust::UnicodeIsAscii
        } else if place == 8 {
            Trust::UrlUnparse
        } else if place == 9 {
            Trust::CheckHeaderValidity
        } else if place == 10 {
            Trust::ValidateHeaderPart
        } else if place == 11 {
            Trust::DictInit
        } else if place == 12 {
            Trust::DictUpdate
        } else {
            Trust::DictSetItem
        }
    }

    /// The object that is trusted.
    pub open spec fn anchor(self) -> Anchor {
        match self {
            Trust::PrepareMethod => Anchor::PrepareMethod,
            Trust::PrepareHeaders => Anchor::PrepareHeaders,
            Trust::PrepareUrl => Anchor::PrepareUrl,
            Trust::EncodeParams => Anchor::EncodeParamsFunction,
            Trust::ToNativeString => Anchor::ToNativeString,
            Trust::ParseUrl => Anchor::ParseUrl,
            Trust::RequoteUri => Anchor::RequoteUri,
            Trust::UnicodeIsAscii => Anchor::UnicodeIsAscii,
            Trust::UrlUnparse => Anchor::UrlUnparse,
            Trust::CheckHeaderValidity => Anchor::CheckHeaderValidity,
            Trust::ValidateHeaderPart => Anchor::ValidateHeaderPart,
            Trust::DictInit => Anchor::DictInit,
            Trust::DictUpdate => Anchor::DictUpdate,
            Trust::DictSetItem => Anchor::DictSetItem,
        }
    }

    /// The object that is trusted.
    pub fn object(&self) -> (anchor: Anchor)
        ensures
            anchor == self.anchor(),
    {
        match self {
            Trust::PrepareMethod => Anchor::PrepareMethod,
            Trust::PrepareHeaders => Anchor::PrepareHeaders,
            Trust::PrepareUrl => Anchor::PrepareUrl,
            Trust::EncodeParams => Anchor::EncodeParamsFunction,
            Trust::ToNativeString => Anchor::ToNativeString,
            Trust::ParseUrl => Anchor::ParseUrl,
            Trust::RequoteUri => Anchor::RequoteUri,
            Trust::UnicodeIsAscii => Anchor::UnicodeIsAscii,
            Trust::UrlUnparse => Anchor::UrlUnparse,
            Trust::CheckHeaderValidity => Anchor::CheckHeaderValidity,
            Trust::ValidateHeaderPart => Anchor::ValidateHeaderPart,
            Trust::DictInit => Anchor::DictInit,
            Trust::DictUpdate => Anchor::DictUpdate,
            Trust::DictSetItem => Anchor::DictSetItem,
        }
    }

    /// The module that defines the function.
    pub open spec fn home(self) -> Seq<char> {
        match self {
            Trust::PrepareMethod => "requests.models"@,
            Trust::PrepareHeaders => "requests.models"@,
            Trust::PrepareUrl => "requests.models"@,
            Trust::EncodeParams => "requests.models"@,
            Trust::ToNativeString => "requests._internal_utils"@,
            Trust::ParseUrl => "urllib3.util.url"@,
            Trust::RequoteUri => "requests.utils"@,
            Trust::UnicodeIsAscii => "requests._internal_utils"@,
            Trust::UrlUnparse => "urllib.parse"@,
            Trust::CheckHeaderValidity => "requests.utils"@,
            Trust::ValidateHeaderPart => "requests.utils"@,
            Trust::DictInit => "requests.structures"@,
            Trust::DictUpdate => "_collections_abc"@,
            Trust::DictSetItem => "requests.structures"@,
        }
    }

    /// The function's qualified name.
    pub open spec fn qualname(self) -> Seq<char> {
        match self {
            Trust::PrepareMethod => "PreparedRequest.prepare_method"@,
            Trust::PrepareHeaders => "PreparedRequest.prepare_headers"@,
            Trust::PrepareUrl => "PreparedRequest.prepare_url"@,
            Trust::EncodeParams => "RequestEncodingMixin._encode_params"@,
            Trust::ToNativeString => "to_native_string"@,
            Trust::ParseUrl => "parse_url"@,
            Trust::RequoteUri => "requote_uri"@,
            Trust::UnicodeIsAscii => "unicode_is_ascii"@,
            Trust::UrlUnparse => "urlunparse"@,
            Trust::CheckHeaderValidity => "check_header_validity"@,
            Trust::ValidateHeaderPart => "_validate_header_part"@,
            Trust::DictInit => "CaseInsensitiveDict.__init__"@,
            Trust::DictUpdate => "MutableMapping.update"@,
            Trust::DictSetItem => "CaseInsensitiveDict.__setitem__"@,
        }
    }

    /// The defaults that the function has.
    pub open spec fn policy(self) -> DefaultPolicy {
        match self {
            Trust::ToNativeString => DefaultPolicy::ToNativeString,
            Trust::DictInit => DefaultPolicy::SingleNone,
            Trust::DictUpdate => DefaultPolicy::SingleEmptyTuple,
            _ => DefaultPolicy::Absent,
        }
    }

    /// Whether the globals that the function reads count. The preparing methods
    /// are replaced by native code, which checks what it stands in for itself.
    pub open spec fn counts_globals(self) -> bool {
        !(self is PrepareMethod || self is PrepareHeaders || self is PrepareUrl
            || self is EncodeParams)
    }

    /// The globals that do not count.
    pub open spec fn ignored(self) -> Seq<Seq<char>> {
        match self {
            Trust::ParseUrl => seq!["LocationParseError"@, "ValueError"@, "AttributeError"@],
            Trust::RequoteUri => seq!["InvalidURL"@],
            Trust::UnicodeIsAscii => seq!["UnicodeEncodeError"@],
            Trust::ValidateHeaderPart => seq!["InvalidHeader"@, "type"@],
            Trust::DictInit => seq!["OrderedDict"@],
            Trust::DictUpdate => seq!["Mapping"@],
            _ => Seq::empty(),
        }
    }

    /// Whether the function can be taken down.
    pub open spec fn buildable(self, heap: Heap) -> bool {
        anchored_object(heap, self.anchor()) matches Some(current) && is_buildable(
            heap,
            current,
            self.home(),
            self.qualname(),
            self.policy(),
            self.counts_globals(),
            self.ignored(),
        )
    }

    /// Whether the function was taken down as its source defines it.
    pub open spec fn built(self, heap: Heap, function: CanonicalFunction) -> bool {
        anchored_object(heap, self.anchor()) matches Some(current) && is_built(
            heap,
            current,
            self.home(),
            self.qualname(),
            self.policy(),
            self.counts_globals(),
            self.ignored(),
            all_functions(),
            function,
        )
    }
}

/// Takes down one trusted function.
fn build_trust(heap: &Heap, trust: Trust) -> (function: Option<CanonicalFunction>)
    ensures
        function is Some == trust.buildable(*heap),
        function matches Some(function) ==> trust.built(*heap, function),
{
    let current = match find_anchor(heap, trust.object()) {
        Some(current) => current,
        None => {
            return None;
        },
    };
    let mut ignored: Vec<String> = Vec::new();
    match trust {
        Trust::ParseUrl => {
            ignored.push("LocationParseError".to_owned());
            ignored.push("ValueError".to_owned());
            ignored.push("AttributeError".to_owned());
        },
        Trust::RequoteUri => {
            ignored.push("InvalidURL".to_owned());
        },
        Trust::UnicodeIsAscii => {
            ignored.push("UnicodeEncodeError".to_owned());
        },
        Trust::ValidateHeaderPart => {
            ignored.push("InvalidHeader".to_owned());
            ignored.push("type".to_owned());
        },
        Trust::DictInit => {
            ignored.push("OrderedDict".to_owned());
        },
        Trust::DictUpdate => {
            ignored.push("Mapping".to_owned());
        },
        _ => {},
    }
    assert(text_views(ignored@) =~= trust.ignored());
    let (module, qualname): (&'static str, &'static str) = match trust {
        Trust::PrepareMethod => ("requests.models", "PreparedRequest.prepare_method"),
        Trust::PrepareHeaders => ("requests.models", "PreparedRequest.prepare_headers"),
        Trust::PrepareUrl => ("requests.models", "PreparedRequest.prepare_url"),
        Trust::EncodeParams => ("requests.models", "RequestEncodingMixin._encode_params"),
        Trust::ToNativeString => ("requests._internal_utils", "to_native_string"),
        Trust::ParseUrl => ("urllib3.util.url", "parse_url"),
        Trust::RequoteUri => ("requests.utils", "requote_uri"),
        Trust::UnicodeIsAscii => ("requests._internal_utils", "unicode_is_ascii"),
        Trust::UrlUnparse => ("urllib.parse", "urlunparse"),
        Trust::CheckHeaderValidity => ("requests.utils", "check_header_validity"),
        Trust::ValidateHeaderPart => ("requests.utils", "_validate_header_part"),
        Trust::DictInit => ("requests.structures", "CaseInsensitiveDict.__init__"),
        Trust::DictUpdate => ("_collections_abc", "MutableMapping.update"),
        Trust::DictSetItem => ("requests.structures", "CaseInsensitiveDict.__setitem__"),
    };
    let policy = match trust {
        Trust::ToNativeString => DefaultPolicy::ToNativeString,
        Trust::DictInit => DefaultPolicy::SingleNone,
        Trust::DictUpdate => DefaultPolicy::SingleEmptyTuple,
        _ => DefaultPolicy::Absent,
    };
    let include_globals = match trust {
        Trust::PrepareMethod => false,
        Trust::PrepareHeaders => false,
        Trust::PrepareUrl => false,
        Trust::EncodeParams => false,
        _ => true,
    };
    build_canonical_function(
        heap,
        current,
        Source { module, qualname, policy, include_globals, ignored: &ignored },
    )
}

/// The request models as they were first met.
pub struct ModelsState {
    pub anchors: Vec<usize>,
    pub trusts: Vec<CanonicalFunction>,
}

impl ModelsState {
    /// There is one object for each anchor and one function for each trust.
    pub open spec fn well_formed(&self) -> bool {
        self.anchors@.len() == ANCHORS && self.trusts@.len() == TRUSTS
    }

    /// The object that was remembered.
    pub open spec fn remembered(self, anchor: Anchor) -> usize {
        self.anchors@[anchor.place()]
    }

    /// The function that was taken down.
    pub open spec fn trusted(self, trust: Trust) -> CanonicalFunction {
        self.trusts@[trust.place()]
    }

    /// The object that was remembered.
    pub fn anchor(&self, anchor: Anchor) -> (object: usize)
        requires
            self.well_formed(),
        ensures
            object == self.remembered(anchor),
    {
        self.anchors[anchor.index()]
    }

    /// The function that was taken down.
    pub fn trust(&self, trust: Trust) -> (function: &CanonicalFunction)
        requires
            self.well_formed(),
        ensures
            *function == self.trusted(trust),
    {
        &self.trusts[trust.index()]
    }
}

/// Why the request models cannot be remembered.
#[derive(Clone, Copy, Debug, PartialEq, Eq, Structural)]
pub enum ModelsFault {
    /// An object is missing, for a reason.
    Missing { anchor: Anchor, failure: Failure },
    /// A function cannot be taken down as its source defines it.
    Unloadable(Trust),
}

/// Whether a fault is the first that keeps the request models from being
/// remembered: the objects are looked up in order, then the functions are taken
/// down in order.
pub open spec fn is_models_fault(heap: Heap, fault: ModelsFault) -> bool {
    match fault {
        ModelsFault::Missing { anchor, failure } => {
            &&& anchor_failure(heap, anchor) == Some(failure)
            &&& forall|other: Anchor|
                #[trigger] other.place() < anchor.place() ==> anchored_object(heap, other) is Some
        },
        ModelsFault::Unloadable(trust) => {
            &&& forall|anchor: Anchor| #[trigger] anchored_object(heap, anchor) is Some
            &&& !trust.buildable(heap)
            &&& forall|other: Trust|
                #[trigger] other.place() < trust.place() ==> other.buildable(heap)
        },
    }
}

/// Whether the request models can be remembered: every anchor names an object
/// and every trusted function can be taken down.
pub open spec fn models_available(heap: Heap) -> bool {
    &&& forall|anchor: Anchor| #[trigger] anchored_object(heap, anchor) is Some
    &&& forall|trust: Trust| #[trigger] trust.buildable(heap)
}

/// Remembers the request models.
pub fn initialize_models_state(heap: &Heap) -> (state: Result<ModelsState, ModelsFault>)
    ensures
        state is Ok == models_available(*heap),
        match state {
            Ok(state) => {
                &&& state.well_formed()
                &&& forall|anchor: Anchor|
                    anchored_object(*heap, anchor) == Some(#[trigger] state.remembered(anchor))
                &&& forall|trust: Trust| trust.built(*heap, #[trigger] state.trusted(trust))
            },
            Err(fault) => is_models_fault(*heap, fault),
        },
{
    let mut anchors: Vec<usize> = Vec::new();
    let mut place: usize = 0;
    while place < ANCHORS
        invariant
            place <= ANCHORS,
            anchors@.len() == place,
            forall|anchor: Anchor|
                anchor.place() < place ==> #[trigger] anchored_object(*heap, anchor) == Some(
                    anchors@[anchor.place()],
                ),
        decreases ANCHORS - place,
    {
        let anchor = Anchor::at_index(place);
        match find_anchor(heap, anchor) {
            Some(object) => {
                anchors.push(object);
            },
            None => {
                proof {
                    lemma_anchor_or_failure(*heap, anchor);
                    assert forall|other: Anchor| #[trigger] other.place()
                        < anchor.place() implies anchored_object(*heap, other) is Some by {
                        assert(anchored_object(*heap, other) == Some(anchors@[other.place()]));
                    }
                }
                match why_no_anchor(heap, anchor) {
                    Some(failure) => {
                        return Err(ModelsFault::Missing { anchor, failure });
                    },
                    None => {
                        return Err(ModelsFault::Missing { anchor, failure: Failure::Attribute });
                    },
                }
            },
        }
        place = place + 1;
        assert forall|other: Anchor| other.place() < place implies #[trigger] anchored_object(
            *heap,
            other,
        ) == Some(anchors@[other.place()]) by {
            if other.place() == place - 1 {
                assert(other == anchor);
            }
        }
    }
    assert forall|anchor: Anchor| #[trigger] anchored_object(*heap, anchor) is Some by {
        assert(anchor.place() < ANCHORS);
    }
    let mut trusts: Vec<CanonicalFunction> = Vec::new();
    let mut place: usize = 0;
    while place < TRUSTS
        invariant
            place <= TRUSTS,
            trusts@.len() == place,
            forall|anchor: Anchor| #[trigger] anchored_object(*heap, anchor) is Some,
            forall|trust: Trust|
                #[trigger] trust.place() < place ==> trust.buildable(*heap),
            forall|trust: Trust|
                #[trigger] trust.place() < place ==> trust.built(*heap, trusts@[trust.place()]),
        decreases TRUSTS - place,
    {
        let trust = Trust::at_index(place);
        let ghost before = trusts@;
        match build_trust(heap, trust) {
            Some(function) => {
                trusts.push(function);
            },
            None => {
                assert(!trust.buildable(*heap));
                return Err(ModelsFault::Unloadable(trust));
            },
        }
        place = place + 1;
        assert forall|other: Trust| #[trigger] other.place() < place implies other.buildable(*heap)
            && other.built(*heap, trusts@[other.place()]) by {
            if other.place() == place - 1 {
                assert(other == trust);
            } else {
                assert(trusts@[other.place()] == before[other.place()]);
            }
        }
    }
    let state = ModelsState { anchors, trusts };
    proof {
        assert forall|anchor: Anchor| anchored_object(*heap, anchor) == Some(
            #[trigger] state.remembered(anchor),
        ) by {
            assert(anchor.place() < ANCHORS);
        }
        assert forall|trust: Trust| trust.built(*heap, #[trigger] state.trusted(trust)) by {
            assert(trust.place() < TRUSTS);
        }
        assert forall|trust: Trust| #[trigger] trust.buildable(*heap) by {
            assert(trust.place() < TRUSTS);
        }
    }
    Ok(state)
}

/// Whether a module still binds a name to an object.
pub open spec fn entry_is(heap: Heap, module: usize, name: Seq<char>, expected: usize) -> bool {
    heap.module_entry_of(module, name) == Some(expected)
}

/// Whether a module still binds a name to an object.
pub fn raw_module_entry_is(heap: &Heap, module: usize, name: &str, expected: usize) -> (yes: bool)
    ensures
        yes == entry_is(*heap, module, name@, expected),
{
    match heap.module_entry(module, name) {
        Some(value) => value == expected,
        None => false,
    }
}

/// Whether a class still has an object under a name.
pub open spec fn type_entry_is(heap: Heap, class: usize, name: Seq<char>, expected: usize) -> bool {
    heap.type_entry_of(class, name) == Some(expected)
}

/// Whether a class still has an object under a name.
pub fn raw_type_entry_is(heap: &Heap, class: usize, name: &str, expected: usize) -> (yes: bool)
    ensures
        yes == type_entry_is(*heap, class, name@, expected),
{
    match heap.raw_type_entry(class, name) {
        Some(value) => value == expected,
        None => false,
    }
}

/// Whether a module leaves a name to the built-ins, where it is the built-in
/// object.
pub open spec fn falls_back_to_builtin(
    heap: Heap,
    builtins_module: usize,
    module: usize,
    name: Seq<char>,
    intrinsic: IntrinsicBuiltin,
) -> Check {
    if heap.module_entry_of(module, name) is Some {
        Ok(false)
    } else {
        match heap.module_entry_of(builtins_module, name) {
            None => Ok(false),
            Some(current) => is_intrinsic(heap, builtins_module, current, intrinsic),
        }
    }
}

/// Whether a module leaves a name to the built-ins, where it is the built-in
/// object.
pub fn raw_intrinsic_builtin_fallback_is(
    heap: &Heap,
    builtins_module: usize,
    module: usize,
    name: &str,
    intrinsic: IntrinsicBuiltin,
) -> (check: Check)
    ensures
        check == falls_back_to_builtin(*heap, builtins_module, module, name@, intrinsic),
{
    if heap.module_entry(module, name).is_some() {
        return Ok(false);
    }
    match heap.module_entry(builtins_module, name) {
        None => Ok(false),
        Some(current) => intrinsic_builtin_is(heap, builtins_module, current, intrinsic),
    }
}

/// The dict of an instance; no answer where it has none.
pub open spec fn instance_dict(heap: Heap, subject: usize) -> Result<usize, Failure> {
    match heap.attribute_of(subject, "__dict__"@) {
        None => Err(Failure::Attribute),
        Some(own) => if heap.dict_of(own) is Some {
            Ok(own)
        } else {
            Err(Failure::Kind)
        },
    }
}

/// The dict of an instance.
pub fn raw_instance_dict(heap: &Heap, subject: usize) -> (own: Result<usize, Failure>)
    ensures
        own == instance_dict(*heap, subject),
{
    match heap.attribute(subject, "__dict__") {
        None => Err(Failure::Attribute),
        Some(own) => if heap.dict(own).is_some() {
            Ok(own)
        } else {
            Err(Failure::Kind)
        },
    }
}

/// Whether a field of an instance is set to `None` in its own dict.
pub open spec fn field_is_none(heap: Heap, subject: usize, name: Seq<char>) -> Check {
    match instance_dict(heap, subject) {
        Err(failure) => Err(failure),
        Ok(own) => Ok(heap.entry_of(own, name) matches Some(value) && heap.is_none_value(value)),
    }
}

/// Whether a field of an instance is set to `None` in its own dict.
pub fn authoritative_field_is_none(heap: &Heap, subject: usize, name: &str) -> (check: Check)
    ensures
        check == field_is_none(*heap, subject, name@),
{
    match raw_instance_dict(heap, subject) {
        Err(failure) => Err(failure),
        Ok(own) => Ok(
            match heap.entry(own, name) {
                Some(value) => heap.none_value(value),
                None => false,
            },
        ),
    }
}

/// Whether a callable is a prepared request's own method: the request is
/// exactly of its type, attribute access on it is plain, neither the type nor
/// the instance replaces the method, and the method is the trusted function
/// bound to the request.
pub open spec fn is_trusted_method(
    heap: Heap,
    state: ModelsState,
    subject: usize,
    name: Seq<char>,
    callable: usize,
    expected: usize,
    trust: CanonicalFunction,
) -> Check {
    let class = state.remembered(Anchor::PreparedRequest);
    both(
        Ok(
            heap.is_exactly(subject, class) && type_entry_is(
                heap,
                class,
                "__getattribute__"@,
                state.remembered(Anchor::ObjectGetAttribute),
            ) && type_entry_is(
                heap,
                class,
                "__setattr__"@,
                state.remembered(Anchor::ObjectSetAttr),
            ) && type_entry_is(heap, class, name, expected),
        ),
        both(
            match instance_dict(heap, subject) {
                Err(failure) => Err(failure),
                Ok(own) => Ok(heap.entry_of(own, name) is None),
            },
            both(
                Ok(heap.is_exactly(callable, state.remembered(Anchor::MethodType))),
                match (
                    heap.attribute_of(callable, "__func__"@),
                    heap.attribute_of(callable, "__self__"@),
                ) {
                    (Some(function), Some(bound_to)) => if bound_to == subject && function
                        == expected {
                        is_canonical(heap, function, trust)
                    } else {
                        Ok(false)
                    },
                    _ => Err(Failure::Attribute),
                },
            ),
        ),
    )
}

/// Whether a callable is a prepared request's own method.
pub fn trusted_bound_method_with_callable(
    heap: &Heap,
    state: &ModelsState,
    subject: usize,
    name: &str,
    callable: usize,
    expected: usize,
    trust: &CanonicalFunction,
) -> (check: Check)
    requires
        state.well_formed(),
    ensures
        check == is_trusted_method(*heap, *state, subject, name@, callable, expected, *trust),
{
    let class = state.anchor(Anchor::PreparedRequest);
    if !heap.exactly(subject, class) || !raw_type_entry_is(
        heap,
        class,
        "__getattribute__",
        state.anchor(Anchor::ObjectGetAttribute),
    ) || !raw_type_entry_is(heap, class, "__setattr__", state.anchor(Anchor::ObjectSetAttr))
        || !raw_type_entry_is(heap, class, name, expected) {
        return Ok(false);
    }
    match raw_instance_dict(heap, subject) {
        Err(failure) => {
            return Err(failure);
        },
        Ok(own) => {
            if heap.entry(own, name).is_some() {
                return Ok(false);
            }
        },
    }
    if !heap.exactly(callable, state.anchor(Anchor::MethodType)) {
        return Ok(false);
    }
    match (heap.attribute(callable, "__func__"), heap.attribute(callable, "__self__")) {
        (Some(function), Some(bound_to)) => if bound_to == subject && function == expected {
            canonical_function_is(heap, function, trust)
        } else {
            Ok(false)
        },
        _ => Err(Failure::Attribute),
    }
}

/// A method that was replaced on the instance is never trusted.
pub proof fn law_instance_override_prevents_trust(
    heap: Heap,
    state: ModelsState,
    subject: usize,
    name: Seq<char>,
    callable: usize,
    expected: usize,
    trust: CanonicalFunction,
    own: usize,
)
    requires
        instance_dict(heap, subject) == Ok::<usize, Failure>(own),
        heap.entry_of(own, name) is Some,
    ensures
        is_trusted_method(heap, state, subject, name, callable, expected, trust) != Ok::<
            bool,
            Failure,
        >(true),
{
}

/// A request of any other type, a subclass included, is never trusted.
pub proof fn law_subclass_prevents_trust(
    heap: Heap,
    state: ModelsState,
    subject: usize,
    name: Seq<char>,
    callable: usize,
    expected: usize,
    trust: CanonicalFunction,
)
    requires
        !heap.is_exactly(subject, state.remembered(Anchor::PreparedRequest)),
    ensures
        is_trusted_method(heap, state, subject, name, callable, expected, trust) == Ok::<
            bool,
            Failure,
        >(false),
{
}

/// The objects that are remembered of models, and the functions that are trusted,
/// have places of their own.
pub proof fn law_places_of_anchors(anchor: Anchor, other: Anchor, trust: Trust, second: Trust)
    ensures
        anchor.place() == other.place() ==> anchor == other,
        0 <= anchor.place() < ANCHORS,
        trust.place() == second.place() ==> trust == second,
        0 <= trust.place() < TRUSTS,
{
}

/// A trusted function is the one that its own full name leads to.
pub proof fn law_trusted_functions_are_named(heap: Heap)
    ensures
        anchored_object(heap, Trust::ToNativeString.anchor()) == held_by(
            heap,
            "requests.models"@,
            Trust::ToNativeString.qualname(),
        ),
        anchored_object(heap, Trust::ParseUrl.anchor()) == held_by(
            heap,
            "requests.models"@,
            Trust::ParseUrl.qualname(),
        ),
        anchored_object(heap, Trust::RequoteUri.anchor()) == held_by(
            heap,
            "requests.models"@,
            Trust::RequoteUri.qualname(),
        ),
        anchored_object(heap, Trust::UnicodeIsAscii.anchor()) == held_by(
            heap,
            "requests.models"@,
            Trust::UnicodeIsAscii.qualname(),
        ),
        anchored_object(heap, Trust::UrlUnparse.anchor()) == held_by(
            heap,
            "requests.models"@,
            Trust::UrlUnparse.qualname(),
        ),
        anchored_object(heap, Trust::CheckHeaderValidity.anchor()) == held_by(
            heap,
            "requests.models"@,
            Trust::CheckHeaderValidity.qualname(),
        ),
        anchored_object(heap, Trust::ValidateHeaderPart.anchor()) == held_by(
            heap,
            "requests.utils"@,
            Trust::ValidateHeaderPart.qualname(),
        ),
        anchored_object(heap, Trust::PrepareMethod.anchor()) == entry_of_type(
            heap,
            "requests.models"@,
            "PreparedRequest"@,
            Trust::PrepareMethod.qualname().skip(16),
        ),
        anchored_object(heap, Trust::PrepareHeaders.anchor()) == entry_of_type(
            heap,
            "requests.models"@,
            "PreparedRequest"@,
            Trust::PrepareHeaders.qualname().skip(16),
        ),
        anchored_object(heap, Trust::PrepareUrl.anchor()) == entry_of_type(
            heap,
            "requests.models"@,
            "PreparedRequest"@,
            Trust::PrepareUrl.qualname().skip(16),
        ),
        anchored_object(heap, Trust::DictInit.anchor()) == entry_of_type(
            heap,
            "requests.models"@,
            "CaseInsensitiveDict"@,
            Trust::DictInit.qualname().skip(20),
        ),
        anchored_object(heap, Trust::DictSetItem.anchor()) == entry_of_type(
            heap,
            "requests.models"@,
            "CaseInsensitiveDict"@,
            Trust::DictSetItem.qualname().skip(20),
        ),
        anchored_object(heap, Trust::DictUpdate.anchor()) == entry_of_type(
            heap,
            "requests.models"@,
            "CaseInsensitiveDict"@,
            Trust::DictUpdate.qualname().skip(15),
        ),
{
    reveal_strlit("PreparedRequest.prepare_method");
    reveal_strlit("PreparedRequest.prepare_headers");
    reveal_strlit("PreparedRequest.prepare_url");
    reveal_strlit("CaseInsensitiveDict.__init__");
    reveal_strlit("CaseInsensitiveDict.__setitem__");
    reveal_strlit("MutableMapping.update");
    reveal_strlit("prepare_method");
    reveal_strlit("prepare_headers");
    reveal_strlit("prepare_url");
    reveal_strlit("__init__");
    reveal_strlit("__setitem__");
    reveal_strlit("update");
    assert("PreparedRequest.prepare_method"@.skip(16) =~= "prepare_method"@);
    assert("PreparedRequest.prepare_headers"@.skip(16) =~= "prepare_headers"@);
    assert("PreparedRequest.prepare_url"@.skip(16) =~= "prepare_url"@);
    assert("CaseInsensitiveDict.__init__"@.skip(20) =~= "__init__"@);
    assert("CaseInsensitiveDict.__setitem__"@.skip(20) =~= "__setitem__"@);
    assert("MutableMapping.update"@.skip(15) =~= "update"@);
}

/// What is missing of models is told as what it is: a module that cannot be
/// imported, or something that a module lacks.
pub proof fn law_what_is_missing_is_told(heap: Heap, anchor: Anchor)
    ensures
        anchored_object(heap, anchor) is None <==> anchor_failure(heap, anchor) is Some,
        anchor_failure(heap, anchor) == Some(Failure::Import) ==> heap.module_of(
            "requests._internal_utils"@,
        ) is None || heap.module_of("builtins"@) is None || heap.module_of("requests.models"@)
            is None || heap.module_of("requests.structures"@) is None || heap.module_of(
            "requests.utils"@,
        ) is None || heap.module_of("types"@) is None,
        anchor_failure(heap, anchor) == Some(Failure::Item) ==> anchor is EncodeParamsDescriptor
            || anchor is EncodeParamsFunction,
{
    lemma_anchor_or_failure(heap, anchor);
}

/// The defaults that a trusted function may have, and whether its globals count,
/// are its own.
pub proof fn law_terms_of_trust(trust: Trust)
    ensures
        trust.policy() is Absent <==> !(trust is ToNativeString) && !(trust is DictInit) && !(
        trust is DictUpdate),
        trust.policy() is SingleNone ==> trust is DictInit,
        trust.policy() is SingleEmptyTuple ==> trust is DictUpdate,
        !trust.counts_globals() <==> trust is PrepareMethod || trust is PrepareHeaders
            || trust is PrepareUrl || trust is EncodeParams,
        trust.ignored().len() == 0 <==> !(trust is ParseUrl) && !(trust is RequoteUri) && !(
        trust is UnicodeIsAscii) && !(trust is ValidateHeaderPart) && !(trust is DictInit) && !(
        trust is DictUpdate),
{
}

/// A method is trusted exactly where its subject is of the class that was first
/// met, which gets and sets its attributes plainly and holds the method itself, the
/// subject does not hide it, and it is bound to that subject and unchanged.
pub proof fn law_trusted_methods(
    heap: Heap,
    state: ModelsState,
    subject: usize,
    name: Seq<char>,
    callable: usize,
    expected: usize,
    trust: CanonicalFunction,
)
    ensures
        is_trusted_method(heap, state, subject, name, callable, expected, trust) == Ok::<
            bool,
            Failure,
        >(true) <==> {
            let class = state.remembered(Anchor::PreparedRequest);
            &&& heap.is_exactly(subject, class)
            &&& heap.type_entry_of(class, "__getattribute__"@) == Some(
                state.remembered(Anchor::ObjectGetAttribute),
            )
            &&& heap.type_entry_of(class, "__setattr__"@) == Some(
                state.remembered(Anchor::ObjectSetAttr),
            )
            &&& heap.type_entry_of(class, name) == Some(expected)
            &&& heap.attribute_of(subject, "__dict__"@) matches Some(own)
            &&& heap.dict_of(own) is Some
            &&& heap.entry_of(own, name) is None
            &&& heap.is_exactly(callable, state.remembered(Anchor::MethodType))
            &&& heap.attribute_of(callable, "__func__"@) == Some(expected)
            &&& heap.attribute_of(callable, "__self__"@) == Some(subject)
            &&& is_canonical(heap, expected, trust) == Ok::<bool, Failure>(true)
        },
{
}

/// A name falls back to a builtin exactly where the module does not hold it and the
/// builtins hold the one that is meant.
pub proof fn law_names_fall_back(
    heap: Heap,
    builtins_module: usize,
    module: usize,
    name: Seq<char>,
    intrinsic: IntrinsicBuiltin,
    subject: usize,
)
    ensures
        falls_back_to_builtin(heap, builtins_module, module, name, intrinsic) == Ok::<
            bool,
            Failure,
        >(true) <==> {
            &&& heap.module_entry_of(module, name) is None
            &&& heap.module_entry_of(builtins_module, name) matches Some(current)
            &&& is_intrinsic(heap, builtins_module, current, intrinsic) == Ok::<bool, Failure>(
                true,
            )
        },
        field_is_none(heap, subject, name) == Ok::<bool, Failure>(true) <==> {
            &&& heap.attribute_of(subject, "__dict__"@) matches Some(own)
            &&& heap.dict_of(own) is Some
            &&& heap.entry_of(own, name) matches Some(value)
            &&& heap.is_none_value(value)
        },
{
}

/// Each trusted function is at home in its own module.
pub proof fn law_modules_of_trust()
    ensures
        Trust::PrepareMethod.home() == "requests.models"@,
        Trust::PrepareHeaders.home() == "requests.models"@,
        Trust::PrepareUrl.home() == "requests.models"@,
        Trust::EncodeParams.home() == "requests.models"@,
        Trust::ToNativeString.home() == "requests._internal_utils"@,
        Trust::ParseUrl.home() == "urllib3.util.url"@,
        Trust::RequoteUri.home() == "requests.utils"@,
        Trust::UnicodeIsAscii.home() == "requests._internal_utils"@,
        Trust::UrlUnparse.home() == "urllib.parse"@,
        Trust::CheckHeaderValidity.home() == "requests.utils"@,
        Trust::ValidateHeaderPart.home() == "requests.utils"@,
        Trust::DictInit.home() == "requests.structures"@,
        Trust::DictUpdate.home() == "_collections_abc"@,
        Trust::DictSetItem.home() == "requests.structures"@,
{
}

} // verus!
