//! Python functions as their modules' own source defines them, with every
//! global that they read.
//!
//! A function is trusted only while its code, globals, built-ins and defaults
//! are those that were loaded, and while every global that its code reads still
//! is what the source bound it to.

use vstd::prelude::*;

use crate::heap::{list_contains, Check, Failure, Heap, Payload};
use crate::heap::{both, bound, find_bound, lists_text};
use crate::intrinsic::{intrinsic_builtin_is, IntrinsicBuiltin};
use crate::intrinsic::is_intrinsic;
use crate::known::{codes_equal, known_value_is, present, text_attribute_equals};
use crate::known::{is_known_value, present_attribute, same_code, text_attribute};
use crate::known::{KnownCode, KnownValue};
use crate::text::{pieces, same_text, split_on, text_views};

verus! {

/// The defaults that a trusted function has.
#[derive(Clone, Copy, Debug, PartialEq, Eq, Structural)]
pub enum CanonicalDefaults {
    /// No default at all.
    Absent,
    /// Exactly these objects.
    Captured { defaults: Option<usize>, kwdefaults: Option<usize> },
    /// The single default `"ascii"`.
    ToNativeString,
    /// The single default `None`.
    SingleNone,
    /// The single default `()`.
    SingleEmptyTuple,
}

/// How the defaults of a function are to be taken down.
#[derive(Clone, Copy, Debug, PartialEq, Eq, Structural)]
pub enum DefaultPolicy {
    Absent,
    Captured,
    ToNativeString,
    SingleNone,
    SingleEmptyTuple,
}

/// What a global that trusted code reads has to be.
pub enum CanonicalGlobalResolution {
    /// This object, and where it is a function, a trusted one.
    Module { expected: usize, function: Option<Box<CanonicalFunction>> },
    /// A module value of known contents.
    KnownModule { value: KnownValue, code: Option<KnownCode> },
    /// A built-in object, not hidden by the module.
    IntrinsicBuiltin(IntrinsicBuiltin),
    /// Nothing: the name is bound nowhere.
    Missing,
    /// Nothing is known of it, so that the function is not trusted.
    Unprovable,
}

/// A global that trusted code reads.
pub struct CanonicalGlobal {
    pub name: String,
    pub resolution: CanonicalGlobalResolution,
}

/// A function as its module's source defines it.
pub struct CanonicalFunction {
    pub code: usize,
    pub globals: usize,
    pub builtins_module: usize,
    pub builtins: usize,
    pub defaults: CanonicalDefaults,
    pub dependencies: Vec<CanonicalGlobal>,
}

/// A Python function that trusted code may call.
#[derive(Clone, Copy, Debug, PartialEq, Eq, Structural)]
pub enum KnownFunction {
    ToKeyValList,
    UrlEncode,
    ValidateHeaderPart,
    Quote,
    UnquoteUnreserved,
    CoerceArgs,
    DecodeArgs,
    EncodeResult,
    Noop,
    PrivateUrlUnsplit,
    UrlUnsplit,
    QuoteFromBytes,
    EncodeInvalidChars,
    IdnaEncode,
    NormalizeHost,
    RemovePathDotSegments,
    ToStr,
}

impl KnownFunction {
    /// The module that defines the function.
    pub open spec fn home(self) -> Seq<char> {
        match self {
            KnownFunction::ToKeyValList => "requests.utils"@,
            KnownFunction::UrlEncode => "urllib.parse"@,
            KnownFunction::ValidateHeaderPart => "requests.utils"@,
            KnownFunction::Quote => "urllib.parse"@,
            KnownFunction::UnquoteUnreserved => "requests.utils"@,
            KnownFunction::CoerceArgs => "urllib.parse"@,
            KnownFunction::DecodeArgs => "urllib.parse"@,
            KnownFunction::EncodeResult => "urllib.parse"@,
            KnownFunction::Noop => "urllib.parse"@,
            KnownFunction::PrivateUrlUnsplit => "urllib.parse"@,
            KnownFunction::UrlUnsplit => "urllib.parse"@,
            KnownFunction::QuoteFromBytes => "urllib.parse"@,
            KnownFunction::EncodeInvalidChars => "urllib3.util.url"@,
            KnownFunction::IdnaEncode => "urllib3.util.url"@,
            KnownFunction::NormalizeHost => "urllib3.util.url"@,
            KnownFunction::RemovePathDotSegments => "urllib3.util.url"@,
            KnownFunction::ToStr => "urllib3.util.util"@,
        }
    }

    /// The function's qualified name.
    pub open spec fn qualname(self) -> Seq<char> {
        match self {
            KnownFunction::ToKeyValList => "to_key_val_list"@,
            KnownFunction::UrlEncode => "urlencode"@,
            KnownFunction::ValidateHeaderPart => "_validate_header_part"@,
            KnownFunction::Quote => "quote"@,
            KnownFunction::UnquoteUnreserved => "unquote_unreserved"@,
            KnownFunction::CoerceArgs => "_coerce_args"@,
            KnownFunction::DecodeArgs => "_decode_args"@,
            KnownFunction::EncodeResult => "_encode_result"@,
            KnownFunction::Noop => "_noop"@,
            KnownFunction::PrivateUrlUnsplit => "_urlunsplit"@,
            KnownFunction::UrlUnsplit => "urlunsplit"@,
            KnownFunction::QuoteFromBytes => "quote_from_bytes"@,
            KnownFunction::EncodeInvalidChars => "_encode_invalid_chars"@,
            KnownFunction::IdnaEncode => "_idna_encode"@,
            KnownFunction::NormalizeHost => "_normalize_host"@,
            KnownFunction::RemovePathDotSegments => "_remove_path_dot_segments"@,
            KnownFunction::ToStr => "to_str"@,
        }
    }

    /// The globals that the function reads only to raise an error, or on a path
    /// that native preparation never takes.
    pub open spec fn ignored(self) -> Seq<Seq<char>> {
        match self {
            KnownFunction::ValidateHeaderPart => seq!["InvalidHeader"@],
            KnownFunction::UnquoteUnreserved => seq!["InvalidURL"@],
            KnownFunction::QuoteFromBytes => seq!["math"@],
            KnownFunction::IdnaEncode => seq!["LocationParseError"@],
            _ => Seq::empty(),
        }
    }

    /// The module that defines the function.
    pub fn home_module(&self) -> (name: &'static str)
        ensures
            name@ == self.home(),
    {
        match self {
            KnownFunction::ToKeyValList => "requests.utils",
            KnownFunction::UrlEncode => "urllib.parse",
            KnownFunction::ValidateHeaderPart => "requests.utils",
            KnownFunction::Quote => "urllib.parse",
            KnownFunction::UnquoteUnreserved => "requests.utils",
            KnownFunction::CoerceArgs => "urllib.parse",
            KnownFunction::DecodeArgs => "urllib.parse",
            KnownFunction::EncodeResult => "urllib.parse",
            KnownFunction::Noop => "urllib.parse",
            KnownFunction::PrivateUrlUnsplit => "urllib.parse",
            KnownFunction::UrlUnsplit => "urllib.parse",
            KnownFunction::QuoteFromBytes => "urllib.parse",
            KnownFunction::EncodeInvalidChars => "urllib3.util.url",
            KnownFunction::IdnaEncode => "urllib3.util.url",
            KnownFunction::NormalizeHost => "urllib3.util.url",
            KnownFunction::RemovePathDotSegments => "urllib3.util.url",
            KnownFunction::ToStr => "urllib3.util.util",
        }
    }

    /// The function's qualified name.
    pub fn qualified_name(&self) -> (name: &'static str)
        ensures
            name@ == self.qualname(),
    {
        match self {
            KnownFunction::ToKeyValList => "to_key_val_list",
            KnownFunction::UrlEncode => "urlencode",
            KnownFunction::ValidateHeaderPart => "_validate_header_part",
            KnownFunction::Quote => "quote",
            KnownFunction::UnquoteUnreserved => "unquote_unreserved",
            KnownFunction::CoerceArgs => "_coerce_args",
            KnownFunction::DecodeArgs => "_decode_args",
            KnownFunction::EncodeResult => "_encode_result",
            KnownFunction::Noop => "_noop",
            KnownFunction::PrivateUrlUnsplit => "_urlunsplit",
            KnownFunction::UrlUnsplit => "urlunsplit",
            KnownFunction::QuoteFromBytes => "quote_from_bytes",
            KnownFunction::EncodeInvalidChars => "_encode_invalid_chars",
            KnownFunction::IdnaEncode => "_idna_encode",
            KnownFunction::NormalizeHost => "_normalize_host",
            KnownFunction::RemovePathDotSegments => "_remove_path_dot_segments",
            KnownFunction::ToStr => "to_str",
        }
    }

    /// The globals that the function reads only to raise an error, or on a path
    /// that native preparation never takes.
    pub fn ignored_globals(&self) -> (names: Vec<String>)
        ensures
            text_views(names@) == self.ignored(),
    {
        let mut names: Vec<String> = Vec::new();
        match self {
            KnownFunction::ValidateHeaderPart => {
                names.push("InvalidHeader".to_owned());
            },
            KnownFunction::UnquoteUnreserved => {
                names.push("InvalidURL".to_owned());
            },
            KnownFunction::QuoteFromBytes => {
                names.push("math".to_owned());
            },
            KnownFunction::IdnaEncode => {
                names.push("LocationParseError".to_owned());
            },
            _ => {},
        }
        assert(text_views(names@) =~= self.ignored());
        names
    }
}

/// The function that the global `name` of `module` is known to be, if any.
pub open spec fn known_function(module: Seq<char>, name: Seq<char>) -> Option<KnownFunction> {
    if module == "requests.models"@ && name == "to_key_val_list"@ {
        Some(KnownFunction::ToKeyValList)
    } else if module == "requests.models"@ && name == "urlencode"@ {
        Some(KnownFunction::UrlEncode)
    } else if module == "requests.utils"@ && name == "_validate_header_part"@ {
        Some(KnownFunction::ValidateHeaderPart)
    } else if module == "requests.utils"@ && name == "quote"@ {
        Some(KnownFunction::Quote)
    } else if module == "requests.utils"@ && name == "unquote_unreserved"@ {
        Some(KnownFunction::UnquoteUnreserved)
    } else if module == "urllib.parse"@ && name == "_coerce_args"@ {
        Some(KnownFunction::CoerceArgs)
    } else if module == "urllib.parse"@ && name == "_decode_args"@ {
        Some(KnownFunction::DecodeArgs)
    } else if module == "urllib.parse"@ && name == "_encode_result"@ {
        Some(KnownFunction::EncodeResult)
    } else if module == "urllib.parse"@ && name == "_noop"@ {
        Some(KnownFunction::Noop)
    } else if module == "urllib.parse"@ && name == "_urlunsplit"@ {
        Some(KnownFunction::PrivateUrlUnsplit)
    } else if module == "urllib.parse"@ && name == "urlunsplit"@ {
        Some(KnownFunction::UrlUnsplit)
    } else if module == "urllib.parse"@ && name == "quote"@ {
        Some(KnownFunction::Quote)
    } else if module == "urllib.parse"@ && name == "quote_from_bytes"@ {
        Some(KnownFunction::QuoteFromBytes)
    } else if module == "urllib3.util.url"@ && name == "_encode_invalid_chars"@ {
        Some(KnownFunction::EncodeInvalidChars)
    } else if module == "urllib3.util.url"@ && name == "_idna_encode"@ {
        Some(KnownFunction::IdnaEncode)
    } else if module == "urllib3.util.url"@ && name == "_normalize_host"@ {
        Some(KnownFunction::NormalizeHost)
    } else if module == "urllib3.util.url"@ && name == "_remove_path_dot_segments"@ {
        Some(KnownFunction::RemovePathDotSegments)
    } else if module == "urllib3.util.url"@ && name == "to_str"@ {
        Some(KnownFunction::ToStr)
    } else {
        None
    }
}

/// The function that the global `name` of `module` is known to be, if any.
pub fn known_python_function(module: &str, name: &str) -> (known: Option<KnownFunction>)
    ensures
        known == known_function(module@, name@),
{
    if same_text(module, "requests.models") && same_text(name, "to_key_val_list") {
        Some(KnownFunction::ToKeyValList)
    } else if same_text(module, "requests.models") && same_text(name, "urlencode") {
        Some(KnownFunction::UrlEncode)
    } else if same_text(module, "requests.utils") && same_text(name, "_validate_header_part") {
        Some(KnownFunction::ValidateHeaderPart)
    } else if same_text(module, "requests.utils") && same_text(name, "quote") {
        Some(KnownFunction::Quote)
    } else if same_text(module, "requests.utils") && same_text(name, "unquote_unreserved") {
        Some(KnownFunction::UnquoteUnreserved)
    } else if same_text(module, "urllib.parse") && same_text(name, "_coerce_args") {
        Some(KnownFunction::CoerceArgs)
    } else if same_text(module, "urllib.parse") && same_text(name, "_decode_args") {
        Some(KnownFunction::DecodeArgs)
    } else if same_text(module, "urllib.parse") && same_text(name, "_encode_result") {
        Some(KnownFunction::EncodeResult)
    } else if same_text(module, "urllib.parse") && same_text(name, "_noop") {
        Some(KnownFunction::Noop)
    } else if same_text(module, "urllib.parse") && same_text(name, "_urlunsplit") {
        Some(KnownFunction::PrivateUrlUnsplit)
    } else if same_text(module, "urllib.parse") && same_text(name, "urlunsplit") {
        Some(KnownFunction::UrlUnsplit)
    } else if same_text(module, "urllib.parse") && same_text(name, "quote") {
        Some(KnownFunction::Quote)
    } else if same_text(module, "urllib.parse") && same_text(name, "quote_from_bytes") {
        Some(KnownFunction::QuoteFromBytes)
    } else if same_text(module, "urllib3.util.url") && same_text(name, "_encode_invalid_chars") {
        Some(KnownFunction::EncodeInvalidChars)
    } else if same_text(module, "urllib3.util.url") && same_text(name, "_idna_encode") {
        Some(KnownFunction::IdnaEncode)
    } else if same_text(module, "urllib3.util.url") && same_text(name, "_normalize_host") {
        Some(KnownFunction::NormalizeHost)
    } else if same_text(module, "urllib3.util.url") && same_text(
        name,
        "_remove_path_dot_segments",
    ) {
        Some(KnownFunction::RemovePathDotSegments)
    } else if same_text(module, "urllib3.util.url") && same_text(name, "to_str") {
        Some(KnownFunction::ToStr)
    } else {
        None
    }
}

/// Whether an object is a code object.
pub open spec fn is_code(heap: Heap, object: usize) -> bool {
    heap.at(object) matches Some(found) && found.payload is Code
}

/// Whether an object is a code object.
pub fn code_object(heap: &Heap, object: usize) -> (yes: bool)
    ensures
        yes == is_code(*heap, object),
{
    match heap.get(object) {
        Some(found) => match &found.payload {
            Payload::Code(_) => true,
            _ => false,
        },
        None => false,
    }
}

/// Whether an object is a Python function.
pub open spec fn is_function(heap: Heap, object: usize) -> bool {
    heap.at(object) matches Some(found) && found.payload is Function
}

/// Whether an object is a Python function.
pub fn python_function(heap: &Heap, object: usize) -> (yes: bool)
    ensures
        yes == is_function(*heap, object),
{
    match heap.get(object) {
        Some(found) => match &found.payload {
            Payload::Function => true,
            _ => false,
        },
        None => false,
    }
}

/// The last code object of that name among a list of constants.
pub open spec fn last_code_named(heap: Heap, constants: Seq<usize>, name: Seq<char>) -> Option<usize>
    decreases constants.len(),
{
    if constants.len() == 0 {
        None
    } else if is_code(heap, constants.last()) && text_attribute(heap, constants.last(), "co_name"@)
        == Some(name) {
        Some(constants.last())
    } else {
        last_code_named(heap, constants.drop_last(), name)
    }
}

/// The code of that name that a scope defines directly: the last one, where it
/// defines several.
pub open spec fn nested_code(heap: Heap, scope: usize, name: Seq<char>) -> Option<usize> {
    match heap.attribute_of(scope, "co_consts"@) {
        Some(constants) => match heap.tuple_of(constants) {
            Some(elements) => last_code_named(heap, elements, name),
            None => None,
        },
        None => None,
    }
}

/// The code that a scope defines directly under a name.
pub fn direct_nested_code(heap: &Heap, scope: usize, name: &str) -> (code: Option<usize>)
    ensures
        code == nested_code(*heap, scope, name@),
{
    let constants = match heap.attribute(scope, "co_consts") {
        Some(constants) => constants,
        None => {
            return None;
        },
    };
    let elements = match heap.tuple(constants) {
        Some(elements) => elements,
        None => {
            return None;
        },
    };
    let mut found: Option<usize> = None;
    let mut index: usize = 0;
    while index < elements.len()
        invariant
            index <= elements.len(),
            found == last_code_named(*heap, elements@.take(index as int), name@),
        decreases elements.len() - index,
    {
        let element = elements[index];
        if code_object(heap, element) && text_attribute_equals(heap, element, "co_name", name) {
            found = Some(element);
        }
        index = index + 1;
        assert(elements@.take(index as int).drop_last() =~= elements@.take(index - 1));
    }
    assert(elements@.take(index as int) =~= elements@);
    found
}

/// The code reached from a scope by a path of names.
pub open spec fn code_at(heap: Heap, scope: usize, path: Seq<Seq<char>>) -> Option<usize>
    decreases path.len(),
{
    if path.len() == 0 {
        Some(scope)
    } else if path[0] == "<locals>"@ {
        code_at(heap, scope, path.drop_first())
    } else {
        match nested_code(heap, scope, path[0]) {
            Some(nested) => code_at(heap, nested, path.drop_first()),
            None => None,
        }
    }
}

/// The code of a qualified name, looked up scope by scope.
pub fn find_code_by_scope(heap: &Heap, root: usize, qualname: &str) -> (code: Option<usize>)
    ensures
        code == code_at(*heap, root, pieces(qualname@, '.')),
{
    let path = split_on(qualname, '.');
    let ghost views = text_views(path@);
    let mut scope: usize = root;
    let mut index: usize = 0;
    assert(views.skip(0) =~= views);
    while index < path.len()
        invariant
            index <= path.len(),
            views == text_views(path@),
            views == pieces(qualname@, '.'),
            code_at(*heap, root, views) == code_at(*heap, scope, views.skip(index as int)),
        decreases path.len() - index,
    {
        let ghost rest = views.skip(index as int);
        assert(rest[0] == path@[index as int]@);
        assert(rest.drop_first() =~= views.skip(index + 1));
        if !same_text(path[index].as_str(), "<locals>") {
            match direct_nested_code(heap, scope, path[index].as_str()) {
                Some(nested) => {
                    scope = nested;
                },
                None => {
                    return None;
                },
            }
        }
        index = index + 1;
    }
    assert(views.skip(index as int).len() == 0);
    Some(scope)
}

/// The code that a module's loader gives for a qualified name of the module.
pub open spec fn loaded_code(heap: Heap, module: Seq<char>, qualname: Seq<char>) -> Option<usize> {
    match bound(heap.module_code@, module) {
        Some(root) => if heap.module_of(module) is Some && is_code(heap, root) {
            code_at(heap, root, pieces(qualname, '.'))
        } else {
            None
        },
        None => None,
    }
}

/// The code that a module's loader gives for a qualified name of the module.
pub fn canonical_code(heap: &Heap, module: &str, qualname: &str) -> (code: Option<usize>)
    ensures
        code == loaded_code(*heap, module@, qualname@),
{
    match find_bound(&heap.module_code, module) {
        Some(root) => if heap.module(module).is_some() && code_object(heap, root) {
            find_code_by_scope(heap, root, qualname)
        } else {
            None
        },
        None => None,
    }
}

/// The names that a code object stores.
pub open spec fn stored_names(heap: Heap, code: usize) -> Seq<String> {
    match heap.at(code) {
        Some(found) => match found.payload {
            Payload::Code(facts) => facts.stored@,
            _ => Seq::empty(),
        },
        None => Seq::empty(),
    }
}

/// The global names that a code object loads.
pub open spec fn loaded_names(heap: Heap, code: usize) -> Seq<String> {
    match heap.at(code) {
        Some(found) => match found.payload {
            Payload::Code(facts) => facts.loaded@,
            _ => Seq::empty(),
        },
        None => Seq::empty(),
    }
}

/// The globals that a module's own code binds.
pub open spec fn module_binds(heap: Heap, module: Seq<char>, name: Seq<char>) -> bool {
    bound(heap.module_code@, module) matches Some(root) && lists_text(
        stored_names(heap, root),
        name,
    )
}

/// Whether a module's own code binds a name.
pub fn canonical_module_binds(heap: &Heap, module: &str, name: &str) -> (yes: bool)
    ensures
        yes == module_binds(*heap, module@, name@),
{
    match find_bound(&heap.module_code, module) {
        Some(root) => match heap.get(root) {
            Some(found) => match &found.payload {
                Payload::Code(facts) => list_contains(&facts.stored, name),
                _ => false,
            },
            None => false,
        },
        None => false,
    }
}

/// The loaded code behind a known class or factory; no answer where the loader
/// does not give it.
pub open spec fn known_code(
    heap: Heap,
    globals: usize,
    builtins: usize,
    known: KnownValue,
) -> Option<Option<KnownCode>> {
    match known {
        KnownValue::UrlType => match loaded_code(heap, "urllib3.util.url"@, "Url.__new__"@) {
            Some(new) => Some(Some(KnownCode::Url { new, globals, builtins })),
            None => None,
        },
        KnownValue::ByteQuoterFactory => match (
            loaded_code(heap, "urllib.parse"@, "_byte_quoter_factory"@),
            loaded_code(heap, "urllib.parse"@, "_Quoter.__init__"@),
            loaded_code(heap, "urllib.parse"@, "_Quoter.__missing__"@),
        ) {
            (Some(factory), Some(quoter_init), Some(quoter_missing)) => Some(
                Some(
                    KnownCode::ByteQuoterFactory { factory, quoter_init, quoter_missing, globals },
                ),
            ),
            _ => None,
        },
        KnownValue::QuoterType(class) => match (
            loaded_code(heap, "urllib.parse"@, class.spelled() + ".__init__"@),
            loaded_code(heap, "urllib.parse"@, class.spelled() + ".__missing__"@),
        ) {
            (Some(init), Some(missing)) => Some(
                Some(KnownCode::QuoterType { init, missing, globals }),
            ),
            _ => None,
        },
        _ => Some(None),
    }
}

/// The loaded code behind a known class or factory.
pub fn build_known_code(heap: &Heap, globals: usize, builtins: usize, known: KnownValue) -> (code:
    Option<Option<KnownCode>>)
    ensures
        code == known_code(*heap, globals, builtins, known),
{
    match known {
        KnownValue::UrlType => match canonical_code(heap, "urllib3.util.url", "Url.__new__") {
            Some(new) => Some(Some(KnownCode::Url { new, globals, builtins })),
            None => None,
        },
        KnownValue::ByteQuoterFactory => match (
            canonical_code(heap, "urllib.parse", "_byte_quoter_factory"),
            canonical_code(heap, "urllib.parse", "_Quoter.__init__"),
            canonical_code(heap, "urllib.parse", "_Quoter.__missing__"),
        ) {
            (Some(factory), Some(quoter_init), Some(quoter_missing)) => Some(
                Some(
                    KnownCode::ByteQuoterFactory { factory, quoter_init, quoter_missing, globals },
                ),
            ),
            _ => None,
        },
        KnownValue::QuoterType(class) => {
            let init_name = vstd::string::StringExecFns::concat(
                class.name().to_owned(),
                ".__init__",
            );
            let missing_name = vstd::string::StringExecFns::concat(
                class.name().to_owned(),
                ".__missing__",
            );
            match (
                canonical_code(heap, "urllib.parse", init_name.as_str()),
                canonical_code(heap, "urllib.parse", missing_name.as_str()),
            ) {
                (Some(init), Some(missing)) => Some(
                    Some(KnownCode::QuoterType { init, missing, globals }),
                ),
                _ => None,
            }
        },
        _ => Some(None),
    }
}

/// Whether a function's defaults are still those that trusted code has.
pub open spec fn defaults_current(heap: Heap, function: usize, expected: CanonicalDefaults) -> bool {
    let defaults = present_attribute(heap, function, "__defaults__"@);
    let kwdefaults = present_attribute(heap, function, "__kwdefaults__"@);
    match expected {
        CanonicalDefaults::Absent => defaults is None && kwdefaults is None,
        CanonicalDefaults::Captured { defaults: own, kwdefaults: own_kw } => defaults == own
            && kwdefaults == own_kw,
        CanonicalDefaults::ToNativeString => kwdefaults is None && (defaults matches Some(tuple) && (
        heap.tuple_of(tuple) matches Some(elements) && elements.len() == 1 && heap.text_of(
            elements[0],
        ) == Some("ascii"@))),
        CanonicalDefaults::SingleNone => kwdefaults is None && (defaults matches Some(tuple) && (
        heap.tuple_of(tuple) matches Some(elements) && elements.len() == 1 && heap.is_none_value(
            elements[0],
        ))),
        CanonicalDefaults::SingleEmptyTuple => kwdefaults is None && (defaults matches Some(tuple)
            && (heap.tuple_of(tuple) matches Some(elements) && elements.len() == 1
            && heap.tuple_of(elements[0]) == Some(Seq::<usize>::empty()))),
    }
}

/// Whether a function's defaults are still those that trusted code has.
pub fn canonical_defaults_are_current(
    heap: &Heap,
    function: usize,
    expected: &CanonicalDefaults,
) -> (current: bool)
    ensures
        current == defaults_current(*heap, function, *expected),
{
    let defaults = present(heap, function, "__defaults__");
    let kwdefaults = present(heap, function, "__kwdefaults__");
    match expected {
        CanonicalDefaults::Absent => defaults.is_none() && kwdefaults.is_none(),
        CanonicalDefaults::Captured { defaults: own, kwdefaults: own_kw } => {
            same_reference(defaults, *own) && same_reference(kwdefaults, *own_kw)
        },
        _ => {
            if kwdefaults.is_some() {
                return false;
            }
            let tuple = match defaults {
                Some(tuple) => tuple,
                None => {
                    return false;
                },
            };
            let elements = match heap.tuple(tuple) {
                Some(elements) => elements,
                None => {
                    return false;
                },
            };
            if elements.len() != 1 {
                return false;
            }
            match expected {
                CanonicalDefaults::ToNativeString => heap.text_is(elements[0], "ascii"),
                CanonicalDefaults::SingleNone => heap.none_value(elements[0]),
                _ => match heap.tuple(elements[0]) {
                    Some(inner) => {
                        proof {
                            if inner@.len() == 0 {
                                assert(inner@ =~= Seq::<usize>::empty());
                            }
                        }
                        inner.len() == 0
                    },
                    None => false,
                },
            }
        },
    }
}

/// Whether two optional references are both absent or to one object.
pub fn same_reference(left: Option<usize>, right: Option<usize>) -> (same: bool)
    ensures
        same == (left == right),
{
    match (left, right) {
        (None, None) => true,
        (Some(left), Some(right)) => left == right,
        _ => false,
    }
}

/// Whether an object is a function with the code, globals, built-ins and
/// defaults of a trusted one; no answer where its built-ins are not a dict.
pub open spec fn has_shape(heap: Heap, current: usize, expected: CanonicalFunction) -> Check {
    if !is_function(heap, current) {
        Ok(false)
    } else {
        match heap.attribute_of(current, "__builtins__"@) {
            None => Err(Failure::Attribute),
            Some(builtins) => if heap.dict_of(builtins) is None {
                Err(Failure::Kind)
            } else {
                Ok(
                    (heap.attribute_of(current, "__code__"@) matches Some(code) && same_code(
                        heap,
                        code,
                        expected.code,
                    )) && heap.attribute_of(current, "__globals__"@) == Some(expected.globals)
                        && builtins == expected.builtins && defaults_current(
                        heap,
                        current,
                        expected.defaults,
                    ),
                )
            },
        }
    }
}

/// Whether an object has the shape of a trusted function.
pub fn canonical_function_shape_is(heap: &Heap, current: usize, expected: &CanonicalFunction) -> (
    check: Check)
    ensures
        check == has_shape(*heap, current, *expected),
{
    if !python_function(heap, current) {
        return Ok(false);
    }
    let builtins = match heap.attribute(current, "__builtins__") {
        None => {
            return Err(Failure::Attribute);
        },
        Some(builtins) => builtins,
    };
    if heap.dict(builtins).is_none() {
        return Err(Failure::Kind);
    }
    let code_matches = match heap.attribute(current, "__code__") {
        Some(code) => codes_equal(heap, code, expected.code),
        None => false,
    };
    let globals_match = match heap.attribute(current, "__globals__") {
        Some(globals) => globals == expected.globals,
        None => false,
    };
    Ok(
        code_matches && globals_match && builtins == expected.builtins
            && canonical_defaults_are_current(heap, current, &expected.defaults),
    )
}

/// Whether one global of a trusted function still is what it has to be.
pub open spec fn dependency_holds(heap: Heap, expected: CanonicalFunction, index: nat) -> Check
    decreases expected, 0nat,
{
    if index >= expected.dependencies@.len() {
        Ok(true)
    } else {
        let dependency = expected.dependencies@[index as int];
        let current = heap.entry_of(expected.globals, dependency.name@);
        match dependency.resolution {
            CanonicalGlobalResolution::Module { expected: object, function } => match current {
                None => Ok(false),
                Some(value) => if value != object {
                    Ok(false)
                } else {
                    match function {
                        None => Ok(true),
                        Some(inner) => is_canonical(heap, value, *inner),
                    }
                },
            },
            CanonicalGlobalResolution::KnownModule { value, code } => match current {
                None => Ok(false),
                Some(object) => is_known_value(
                    heap,
                    expected.builtins_module,
                    object,
                    value,
                    code,
                ),
            },
            CanonicalGlobalResolution::IntrinsicBuiltin(intrinsic) => if current is Some {
                Ok(false)
            } else {
                match heap.entry_of(expected.builtins, dependency.name@) {
                    None => Ok(false),
                    Some(object) => is_intrinsic(heap, expected.builtins_module, object, intrinsic),
                }
            },
            CanonicalGlobalResolution::Missing => Ok(
                current is None && heap.entry_of(expected.builtins, dependency.name@) is None,
            ),
            CanonicalGlobalResolution::Unprovable => Ok(false),
        }
    }
}

/// Whether the globals of a trusted function from `index` on still are what
/// they have to be, in order.
pub open spec fn dependencies_hold(heap: Heap, expected: CanonicalFunction, index: nat) -> Check
    decreases expected, 1 + expected.dependencies@.len() - index,
{
    if index >= expected.dependencies@.len() {
        Ok(true)
    } else {
        both(
            dependency_holds(heap, expected, index),
            dependencies_hold(heap, expected, index + 1),
        )
    }
}

/// Whether an object is a trusted function: it has its shape, and every global
/// that its code reads is what it has to be.
pub open spec fn is_canonical(heap: Heap, current: usize, expected: CanonicalFunction) -> Check
    decreases expected, 2 + expected.dependencies@.len(),
{
    both(has_shape(heap, current, expected), dependencies_hold(heap, expected, 0))
}

/// Whether one global of a trusted function still is what it has to be.
fn check_dependency(heap: &Heap, expected: &CanonicalFunction, index: usize) -> (check: Check)
    requires
        index < expected.dependencies@.len(),
    ensures
        check == dependency_holds(*heap, *expected, index as nat),
    decreases *expected, 0nat,
{
    let dependency = &expected.dependencies[index];
    let current = heap.entry(expected.globals, dependency.name.as_str());
    match &dependency.resolution {
        CanonicalGlobalResolution::Module { expected: object, function } => match current {
            None => Ok(false),
            Some(value) => {
                if value != *object {
                    return Ok(false);
                }
                match function {
                    None => Ok(true),
                    Some(inner) => canonical_function_is(heap, value, &**inner),
                }
            },
        },
        CanonicalGlobalResolution::KnownModule { value, code } => match current {
            None => Ok(false),
            Some(object) => known_value_is(heap, expected.builtins_module, object, *value, *code),
        },
        CanonicalGlobalResolution::IntrinsicBuiltin(intrinsic) => {
            if current.is_some() {
                return Ok(false);
            }
            match heap.entry(expected.builtins, dependency.name.as_str()) {
                None => Ok(false),
                Some(object) => intrinsic_builtin_is(
                    heap,
                    expected.builtins_module,
                    object,
                    *intrinsic,
                ),
            }
        },
        CanonicalGlobalResolution::Missing => Ok(
            current.is_none() && heap.entry(
                expected.builtins,
                dependency.name.as_str(),
            ).is_none(),
        ),
        CanonicalGlobalResolution::Unprovable => Ok(false),
    }
}

/// Whether an object is a trusted function.
pub fn canonical_function_is(heap: &Heap, current: usize, expected: &CanonicalFunction) -> (check:
    Check)
    ensures
        check == is_canonical(*heap, current, *expected),
    decreases *expected, 1nat,
{
    match canonical_function_shape_is(heap, current, expected) {
        Ok(true) => {},
        other => {
            return other;
        },
    }
    let mut index: usize = 0;
    while index < expected.dependencies.len()
        invariant
            index <= expected.dependencies@.len(),
            has_shape(*heap, current, *expected) == Ok::<bool, Failure>(true),
            dependencies_hold(*heap, *expected, 0) == dependencies_hold(
                *heap,
                *expected,
                index as nat,
            ),
        decreases expected.dependencies@.len() - index,
    {
        match check_dependency(heap, expected, index) {
            Ok(true) => {},
            other => {
                return other;
            },
        }
        index = index + 1;
    }
    Ok(true)
}

/// Whether a check of the globals from `index` on covers each of them.
proof fn lemma_dependencies_hold_each(heap: Heap, expected: CanonicalFunction, index: nat, at: nat)
    requires
        index <= at < expected.dependencies@.len(),
        dependencies_hold(heap, expected, index) == Ok::<bool, Failure>(true),
    ensures
        dependency_holds(heap, expected, at) == Ok::<bool, Failure>(true),
    decreases at - index,
{
    if index < at {
        lemma_dependencies_hold_each(heap, expected, index + 1, at);
    }
}

/// A function that reads a global of which nothing is known is never trusted.
pub proof fn law_unprovable_global_prevents_trust(
    heap: Heap,
    current: usize,
    expected: CanonicalFunction,
    at: nat,
)
    requires
        at < expected.dependencies@.len(),
        expected.dependencies@[at as int].resolution is Unprovable,
    ensures
        is_canonical(heap, current, expected) != Ok::<bool, Failure>(true),
{
    if is_canonical(heap, current, expected) == Ok::<bool, Failure>(true) {
        lemma_dependencies_hold_each(heap, expected, 0, at);
    }
}

/// Trust in a function means that each global of its module that it reads is
/// still bound to the object it was bound to, and that no built-in name that it
/// reads has been hidden by a global.
pub proof fn law_trust_fixes_globals(
    heap: Heap,
    current: usize,
    expected: CanonicalFunction,
    at: nat,
)
    requires
        at < expected.dependencies@.len(),
        is_canonical(heap, current, expected) == Ok::<bool, Failure>(true),
    ensures
        match expected.dependencies@[at as int].resolution {
            CanonicalGlobalResolution::Module { expected: object, .. } => heap.entry_of(
                expected.globals,
                expected.dependencies@[at as int].name@,
            ) == Some(object),
            CanonicalGlobalResolution::KnownModule { .. } => heap.entry_of(
                expected.globals,
                expected.dependencies@[at as int].name@,
            ) is Some,
            _ => heap.entry_of(expected.globals, expected.dependencies@[at as int].name@) is None,
        },
{
    lemma_dependencies_hold_each(heap, expected, 0, at);
}

/// A trusted function has the code, globals and built-ins that were loaded.
pub proof fn law_trust_fixes_shape(heap: Heap, current: usize, expected: CanonicalFunction)
    requires
        is_canonical(heap, current, expected) == Ok::<bool, Failure>(true),
    ensures
        heap.attribute_of(current, "__code__"@) matches Some(code) && same_code(
            heap,
            code,
            expected.code,
        ),
        heap.attribute_of(current, "__globals__"@) == Some(expected.globals),
        heap.attribute_of(current, "__builtins__"@) == Some(expected.builtins),
        defaults_current(heap, current, expected.defaults),
{
}

/// A known function goes by the name that it has at home. A module knows its own
/// functions, and those that it takes from another.
pub proof fn law_known_functions_keep_their_names(module: Seq<char>, name: Seq<char>)
    ensures
        known_function(module, name) matches Some(function) ==> function.qualname() == name,
        known_function(module, name) matches Some(function) ==> function.home() == module || module
            == "requests.models"@ || module == "requests.utils"@ || (module == "urllib3.util.url"@
            && function is ToStr),
{
}

/// Code below a code is the last of that name among its constants.
pub proof fn law_the_last_code_counts(
    heap: Heap,
    constants: Seq<usize>,
    name: Seq<char>,
    place: int,
)
    requires
        0 <= place < constants.len(),
        is_code(heap, constants[place]),
        text_attribute(heap, constants[place], "co_name"@) == Some(name),
        forall|later: int|
            place < later < constants.len() ==> !is_code(heap, #[trigger] constants[later])
                || text_attribute(heap, constants[later], "co_name"@) != Some(name),
    ensures
        last_code_named(heap, constants, name) == Some(constants[place]),
    decreases constants.len(),
{
    if place < constants.len() - 1 {
        let front = constants.drop_last();
        assert(constants[constants.len() - 1] == constants.last());
        assert(front[place] == constants[place]);
        assert forall|later: int| place < later < front.len() implies !is_code(
            heap,
            #[trigger] front[later],
        ) || text_attribute(heap, front[later], "co_name"@) != Some(name) by {
            assert(front[later] == constants[later]);
        }
        law_the_last_code_counts(heap, front, name, place);
    }
}

/// A way to a code can be gone in two parts, and what names the inside of a
/// function is passed over.
pub proof fn law_ways_to_code(
    heap: Heap,
    scope: usize,
    first: Seq<Seq<char>>,
    second: Seq<Seq<char>>,
)
    ensures
        code_at(heap, scope, first + second) == (match code_at(heap, scope, first) {
            Some(middle) => code_at(heap, middle, second),
            None => None,
        }),
        code_at(heap, scope, Seq::empty()) == Some(scope),
        code_at(heap, scope, seq!["<locals>"@] + second) == code_at(heap, scope, second),
    decreases first.len(),
{
    if first.len() == 0 {
        assert(first + second =~= second);
    } else {
        let rest = first.drop_first();
        assert((first + second).drop_first() =~= rest + second);
        assert((first + second)[0] == first[0]);
        if first[0] == "<locals>"@ {
            law_ways_to_code(heap, scope, rest, second);
        } else if let Some(nested) = nested_code(heap, scope, first[0]) {
            law_ways_to_code(heap, nested, rest, second);
        }
    }
    let passed = seq!["<locals>"@] + second;
    assert(passed[0] == "<locals>"@);
    assert(passed.drop_first() =~= second);
}

/// The code of a module's function is looked up in the module's own code, where the
/// module is loaded.
pub proof fn law_loaded_code(heap: Heap, module: Seq<char>, qualname: Seq<char>, code: usize)
    ensures
        loaded_code(heap, module, qualname) == Some(code) <==> {
            &&& bound(heap.module_code@, module) matches Some(root)
            &&& heap.module_of(module) is Some
            &&& is_code(heap, root)
            &&& code_at(heap, root, pieces(qualname, '.')) == Some(code)
        },
{
}

/// Defaults are what they should be only where there are no keyword defaults, but
/// for those that were captured; and the ones by position are as few as said.
pub proof fn law_defaults_are_what_they_should_be(
    heap: Heap,
    function: usize,
    expected: CanonicalDefaults,
)
    requires
        defaults_current(heap, function, expected),
    ensures
        !(expected is Captured) ==> present_attribute(heap, function, "__kwdefaults__"@) is None,
        expected is Absent ==> present_attribute(heap, function, "__defaults__"@) is None,
        !(expected is Captured) && !(expected is Absent) ==> (present_attribute(
            heap,
            function,
            "__defaults__"@,
        ) matches Some(tuple) && heap.tuple_of(tuple) matches Some(elements) && elements.len() == 1
            && (expected is ToNativeString ==> heap.text_of(elements[0]) == Some("ascii"@)) && (
        expected is SingleNone ==> heap.is_none_value(elements[0])) && (expected is SingleEmptyTuple
            ==> (heap.tuple_of(elements[0]) matches Some(inner) && inner.len() == 0))),
        expected matches CanonicalDefaults::Captured { defaults, kwdefaults } ==> present_attribute(
            heap,
            function,
            "__defaults__"@,
        ) == defaults && present_attribute(heap, function, "__kwdefaults__"@) == kwdefaults,
{
}

/// What a trusted function finds in the builtins is what it found before: a known
/// value of its module, a builtin that its module does not hide, or nothing.
pub proof fn law_trust_fixes_builtins(
    heap: Heap,
    current: usize,
    expected: CanonicalFunction,
    at: nat,
)
    requires
        at < expected.dependencies@.len(),
        is_canonical(heap, current, expected) == Ok::<bool, Failure>(true),
    ensures
        ({
            let name = expected.dependencies@[at as int].name@;
            match expected.dependencies@[at as int].resolution {
                CanonicalGlobalResolution::Module { expected: object, function } => function matches Some(
                    inner,
                ) ==> is_canonical(heap, object, *inner) == Ok::<bool, Failure>(true),
                CanonicalGlobalResolution::KnownModule { value, code } => heap.entry_of(
                    expected.globals,
                    name,
                ) matches Some(object) && is_known_value(
                    heap,
                    expected.builtins_module,
                    object,
                    value,
                    code,
                ) == Ok::<bool, Failure>(true),
                CanonicalGlobalResolution::IntrinsicBuiltin(intrinsic) => heap.entry_of(
                    expected.builtins,
                    name,
                ) matches Some(object) && is_intrinsic(
                    heap,
                    expected.builtins_module,
                    object,
                    intrinsic,
                ) == Ok::<bool, Failure>(true),
                CanonicalGlobalResolution::Missing => heap.entry_of(expected.builtins, name)
                    is None,
                CanonicalGlobalResolution::Unprovable => false,
            }
        }),
{
    lemma_dependencies_hold_each(heap, expected, 0, at);
}

/// Each known function is at home in its own module.
pub proof fn law_modules_of_known_function()
    ensures
        KnownFunction::ToKeyValList.home() == "requests.utils"@,
        KnownFunction::UrlEncode.home() == "urllib.parse"@,
        KnownFunction::ValidateHeaderPart.home() == "requests.utils"@,
        KnownFunction::Quote.home() == "urllib.parse"@,
        KnownFunction::UnquoteUnreserved.home() == "requests.utils"@,
        KnownFunction::CoerceArgs.home() == "urllib.parse"@,
        KnownFunction::DecodeArgs.home() == "urllib.parse"@,
        KnownFunction::EncodeResult.home() == "urllib.parse"@,
        KnownFunction::Noop.home() == "urllib.parse"@,
        KnownFunction::PrivateUrlUnsplit.home() == "urllib.parse"@,
        KnownFunction::UrlUnsplit.home() == "urllib.parse"@,
        KnownFunction::QuoteFromBytes.home() == "urllib.parse"@,
        KnownFunction::EncodeInvalidChars.home() == "urllib3.util.url"@,
        KnownFunction::IdnaEncode.home() == "urllib3.util.url"@,
        KnownFunction::NormalizeHost.home() == "urllib3.util.url"@,
        KnownFunction::RemovePathDotSegments.home() == "urllib3.util.url"@,
        KnownFunction::ToStr.home() == "urllib3.util.util"@,
{
}

/// Each known function has its own full name.
pub proof fn law_full_names_of_known_function()
    ensures
        KnownFunction::ToKeyValList.qualname() == "to_key_val_list"@,
        KnownFunction::UrlEncode.qualname() == "urlencode"@,
        KnownFunction::ValidateHeaderPart.qualname() == "_validate_header_part"@,
        KnownFunction::Quote.qualname() == "quote"@,
        KnownFunction::UnquoteUnreserved.qualname() == "unquote_unreserved"@,
        KnownFunction::CoerceArgs.qualname() == "_coerce_args"@,
        KnownFunction::DecodeArgs.qualname() == "_decode_args"@,
        KnownFunction::EncodeResult.qualname() == "_encode_result"@,
        KnownFunction::Noop.qualname() == "_noop"@,
        KnownFunction::PrivateUrlUnsplit.qualname() == "_urlunsplit"@,
        KnownFunction::UrlUnsplit.qualname() == "urlunsplit"@,
        KnownFunction::QuoteFromBytes.qualname() == "quote_from_bytes"@,
        KnownFunction::EncodeInvalidChars.qualname() == "_encode_invalid_chars"@,
        KnownFunction::IdnaEncode.qualname() == "_idna_encode"@,
        KnownFunction::NormalizeHost.qualname() == "_normalize_host"@,
        KnownFunction::RemovePathDotSegments.qualname() == "_remove_path_dot_segments"@,
        KnownFunction::ToStr.qualname() == "to_str"@,
{
}

} // verus!
