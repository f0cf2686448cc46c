//! Built-in Python objects that can be told by identity or by structure.

use vstd::prelude::*;

use crate::heap::{Check, Failure, Heap, Payload};
use crate::heap::{both, holds};
use crate::text::same_text;

verus! {

/// A built-in function that a trusted Python function may call.
#[derive(Clone, Copy, Debug, PartialEq, Eq, Structural)]
pub enum BuiltinName {
    GetAttr,
    SetAttr,
    IsInstance,
    HasAttr,
    Len,
    Ord,
    Hex,
    Chr,
}

impl BuiltinName {
    /// The function's Python name.
    pub open spec fn spelled(self) -> Seq<char> {
        match self {
            BuiltinName::GetAttr => "getattr"@,
            BuiltinName::SetAttr => "setattr"@,
            BuiltinName::IsInstance => "isinstance"@,
            BuiltinName::HasAttr => "hasattr"@,
            BuiltinName::Len => "len"@,
            BuiltinName::Ord => "ord"@,
            BuiltinName::Hex => "hex"@,
            BuiltinName::Chr => "chr"@,
        }
    }

    /// The function's Python name.
    pub fn name(&self) -> (name: &'static str)
        ensures
            name@ == self.spelled(),
    {
        match self {
            BuiltinName::GetAttr => "getattr",
            BuiltinName::SetAttr => "setattr",
            BuiltinName::IsInstance => "isinstance",
            BuiltinName::HasAttr => "hasattr",
            BuiltinName::Len => "len",
            BuiltinName::Ord => "ord",
            BuiltinName::Hex => "hex",
            BuiltinName::Chr => "chr",
        }
    }
}

/// A built-in object that a trusted Python function may read.
#[derive(Clone, Copy, Debug, PartialEq, Eq, Structural)]
pub enum IntrinsicBuiltin {
    Function(BuiltinName),
    Str,
    Bytes,
    Bool,
    Int,
    List,
    Tuple,
    ByteArray,
    Range,
    MapType,
    Type,
    TypeError,
    ValueError,
    AttributeError,
    RuntimeError,
    LookupError,
    UnicodeDecodeError,
    UnicodeEncodeError,
    ImportError,
    KeyError,
}

/// The object that a built-in type is, where its identity is fixed. That of
/// `range` and `map` could only be read from a binding that may have changed.
pub open spec fn intrinsic_identity(heap: Heap, intrinsic: IntrinsicBuiltin) -> Option<usize> {
    match intrinsic {
        IntrinsicBuiltin::Str => Some(heap.intrinsics.text),
        IntrinsicBuiltin::Bytes => Some(heap.intrinsics.bytes),
        IntrinsicBuiltin::Bool => Some(heap.intrinsics.boolean),
        IntrinsicBuiltin::Int => Some(heap.intrinsics.int),
        IntrinsicBuiltin::List => Some(heap.intrinsics.list),
        IntrinsicBuiltin::Tuple => Some(heap.intrinsics.tuple),
        IntrinsicBuiltin::ByteArray => Some(heap.intrinsics.byte_array),
        IntrinsicBuiltin::Type => Some(heap.intrinsics.type_type),
        IntrinsicBuiltin::TypeError => Some(heap.intrinsics.type_error),
        IntrinsicBuiltin::ValueError => Some(heap.intrinsics.value_error),
        IntrinsicBuiltin::AttributeError => Some(heap.intrinsics.attribute_error),
        IntrinsicBuiltin::RuntimeError => Some(heap.intrinsics.runtime_error),
        IntrinsicBuiltin::LookupError => Some(heap.intrinsics.lookup_error),
        IntrinsicBuiltin::UnicodeDecodeError => Some(heap.intrinsics.unicode_decode_error),
        IntrinsicBuiltin::UnicodeEncodeError => Some(heap.intrinsics.unicode_encode_error),
        IntrinsicBuiltin::ImportError => Some(heap.intrinsics.import_error),
        IntrinsicBuiltin::KeyError => Some(heap.intrinsics.key_error),
        IntrinsicBuiltin::Range => None,
        IntrinsicBuiltin::MapType => None,
        IntrinsicBuiltin::Function(_) => None,
    }
}

/// Whether an attribute is a text of these characters; no answer where it is
/// missing or no text.
pub open spec fn text_attribute_is(
    heap: Heap,
    object: usize,
    name: Seq<char>,
    expected: Seq<char>,
) -> Check {
    match heap.attribute_of(object, name) {
        None => Err(Failure::Attribute),
        Some(value) => match heap.text_of(value) {
            None => Err(Failure::Kind),
            Some(text) => Ok(text == expected),
        },
    }
}

/// Compares a text attribute.
pub fn check_text_attribute(heap: &Heap, object: usize, name: &str, expected: &str) -> (check:
    Check)
    ensures
        check == text_attribute_is(*heap, object, name@, expected@),
{
    match heap.attribute(object, name) {
        None => Err(Failure::Attribute),
        Some(value) => match heap.text(value) {
            None => Err(Failure::Kind),
            Some(text) => Ok(same_text(text.as_str(), expected)),
        },
    }
}

/// Whether an object is a function implemented by the interpreter.
pub open spec fn is_builtin_function(heap: Heap, object: usize) -> bool {
    heap.at(object) matches Some(found) && found.payload is BuiltinFunction
}

/// Whether an object is a function implemented by the interpreter.
pub fn builtin_function(heap: &Heap, object: usize) -> (yes: bool)
    ensures
        yes == is_builtin_function(*heap, object),
{
    match heap.get(object) {
        Some(found) => match &found.payload {
            Payload::BuiltinFunction => true,
            _ => false,
        },
        None => false,
    }
}

/// Whether an object is the built-in one: a type by its identity, a function
/// by its name, its module and the module object that owns it.
pub open spec fn is_intrinsic(
    heap: Heap,
    builtins_module: usize,
    current: usize,
    intrinsic: IntrinsicBuiltin,
) -> Check {
    match intrinsic {
        IntrinsicBuiltin::Function(name) => if is_builtin_function(heap, current) {
            both(
                text_attribute_is(heap, current, "__name__"@, name.spelled()),
                both(
                    text_attribute_is(heap, current, "__module__"@, "builtins"@),
                    Ok(heap.attribute_of(current, "__self__"@) == Some(builtins_module)),
                ),
            )
        } else {
            Ok(false)
        },
        _ => Ok(intrinsic_identity(heap, intrinsic) == Some(current)),
    }
}

/// Whether an object is the built-in one.
pub fn intrinsic_builtin_is(
    heap: &Heap,
    builtins_module: usize,
    current: usize,
    intrinsic: IntrinsicBuiltin,
) -> (check: Check)
    ensures
        check == is_intrinsic(*heap, builtins_module, current, intrinsic),
{
    let known: usize = match intrinsic {
        IntrinsicBuiltin::Function(name) => {
            if !builtin_function(heap, current) {
                return Ok(false);
            }
            match check_text_attribute(heap, current, "__name__", name.name()) {
                Ok(true) => {},
                other => {
                    return other;
                },
            }
            match check_text_attribute(heap, current, "__module__", "builtins") {
                Ok(true) => {},
                other => {
                    return other;
                },
            }
            return Ok(
                match heap.attribute(current, "__self__") {
                    Some(owner) => owner == builtins_module,
                    None => false,
                },
            );
        },
        IntrinsicBuiltin::Range => {
            return Ok(false);
        },
        IntrinsicBuiltin::MapType => {
            return Ok(false);
        },
        IntrinsicBuiltin::Str => heap.intrinsics.text,
        IntrinsicBuiltin::Bytes => heap.intrinsics.bytes,
        IntrinsicBuiltin::Bool => heap.intrinsics.boolean,
        IntrinsicBuiltin::Int => heap.intrinsics.int,
        IntrinsicBuiltin::List => heap.intrinsics.list,
        IntrinsicBuiltin::Tuple => heap.intrinsics.tuple,
        IntrinsicBuiltin::ByteArray => heap.intrinsics.byte_array,
        IntrinsicBuiltin::Type => heap.intrinsics.type_type,
        IntrinsicBuiltin::TypeError => heap.intrinsics.type_error,
        IntrinsicBuiltin::ValueError => heap.intrinsics.value_error,
        IntrinsicBuiltin::AttributeError => heap.intrinsics.attribute_error,
        IntrinsicBuiltin::RuntimeError => heap.intrinsics.runtime_error,
        IntrinsicBuiltin::LookupError => heap.intrinsics.lookup_error,
        IntrinsicBuiltin::UnicodeDecodeError => heap.intrinsics.unicode_decode_error,
        IntrinsicBuiltin::UnicodeEncodeError => heap.intrinsics.unicode_encode_error,
        IntrinsicBuiltin::ImportError => heap.intrinsics.import_error,
        IntrinsicBuiltin::KeyError => heap.intrinsics.key_error,
    };
    Ok(known == current)
}

/// The built-in object of a name, where that name is one that trusted code may
/// read.
pub open spec fn intrinsic_named(name: Seq<char>) -> Option<IntrinsicBuiltin> {
    if name == "getattr"@ {
        Some(IntrinsicBuiltin::Function(BuiltinName::GetAttr))
    } else if name == "setattr"@ {
        Some(IntrinsicBuiltin::Function(BuiltinName::SetAttr))
    } else if name == "isinstance"@ {
        Some(IntrinsicBuiltin::Function(BuiltinName::IsInstance))
    } else if name == "hasattr"@ {
        Some(IntrinsicBuiltin::Function(BuiltinName::HasAttr))
    } else if name == "len"@ {
        Some(IntrinsicBuiltin::Function(BuiltinName::Len))
    } else if name == "ord"@ {
        Some(IntrinsicBuiltin::Function(BuiltinName::Ord))
    } else if name == "hex"@ {
        Some(IntrinsicBuiltin::Function(BuiltinName::Hex))
    } else if name == "chr"@ {
        Some(IntrinsicBuiltin::Function(BuiltinName::Chr))
    } else if name == "str"@ {
        Some(IntrinsicBuiltin::Str)
    } else if name == "bytes"@ {
        Some(IntrinsicBuiltin::Bytes)
    } else if name == "bool"@ {
        Some(IntrinsicBuiltin::Bool)
    } else if name == "int"@ {
        Some(IntrinsicBuiltin::Int)
    } else if name == "list"@ {
        Some(IntrinsicBuiltin::List)
    } else if name == "tuple"@ {
        Some(IntrinsicBuiltin::Tuple)
    } else if name == "bytearray"@ {
        Some(IntrinsicBuiltin::ByteArray)
    } else if name == "range"@ {
        Some(IntrinsicBuiltin::Range)
    } else if name == "map"@ {
        Some(IntrinsicBuiltin::MapType)
    } else if name == "type"@ {
        Some(IntrinsicBuiltin::Type)
    } else if name == "TypeError"@ {
        Some(IntrinsicBuiltin::TypeError)
    } else if name == "ValueError"@ {
        Some(IntrinsicBuiltin::ValueError)
    } else if name == "AttributeError"@ {
        Some(IntrinsicBuiltin::AttributeError)
    } else if name == "RuntimeError"@ {
        Some(IntrinsicBuiltin::RuntimeError)
    } else if name == "LookupError"@ {
        Some(IntrinsicBuiltin::LookupError)
    } else if name == "UnicodeDecodeError"@ {
        Some(IntrinsicBuiltin::UnicodeDecodeError)
    } else if name == "UnicodeEncodeError"@ {
        Some(IntrinsicBuiltin::UnicodeEncodeError)
    } else if name == "ImportError"@ {
        Some(IntrinsicBuiltin::ImportError)
    } else if name == "KeyError"@ {
        Some(IntrinsicBuiltin::KeyError)
    } else {
        None
    }
}

/// The built-in object of a name.
pub fn intrinsic_builtin_for_name(name: &str) -> (intrinsic: Option<IntrinsicBuiltin>)
    ensures
        intrinsic == intrinsic_named(name@),
{
    if same_text(name, "getattr") {
        Some(IntrinsicBuiltin::Function(BuiltinName::GetAttr))
    } else if same_text(name, "setattr") {
        Some(IntrinsicBuiltin::Function(BuiltinName::SetAttr))
    } else if same_text(name, "isinstance") {
        Some(IntrinsicBuiltin::Function(BuiltinName::IsInstance))
    } else if same_text(name, "hasattr") {
        Some(IntrinsicBuiltin::Function(BuiltinName::HasAttr))
    } else if same_text(name, "len") {
        Some(IntrinsicBuiltin::Function(BuiltinName::Len))
    } else if same_text(name, "ord") {
        Some(IntrinsicBuiltin::Function(BuiltinName::Ord))
    } else if same_text(name, "hex") {
        Some(IntrinsicBuiltin::Function(BuiltinName::Hex))
    } else if same_text(name, "chr") {
        Some(IntrinsicBuiltin::Function(BuiltinName::Chr))
    } else if same_text(name, "str") {
        Some(IntrinsicBuiltin::Str)
    } else if same_text(name, "bytes") {
        Some(IntrinsicBuiltin::Bytes)
    } else if same_text(name, "bool") {
        Some(IntrinsicBuiltin::Bool)
    } else if same_text(name, "int") {
        Some(IntrinsicBuiltin::Int)
    } else if same_text(name, "list") {
        Some(IntrinsicBuiltin::List)
    } else if same_text(name, "tuple") {
        Some(IntrinsicBuiltin::Tuple)
    } else if same_text(name, "bytearray") {
        Some(IntrinsicBuiltin::ByteArray)
    } else if same_text(name, "range") {
        Some(IntrinsicBuiltin::Range)
    } else if same_text(name, "map") {
        Some(IntrinsicBuiltin::MapType)
    } else if same_text(name, "type") {
        Some(IntrinsicBuiltin::Type)
    } else if same_text(name, "TypeError") {
        Some(IntrinsicBuiltin::TypeError)
    } else if same_text(name, "ValueError") {
        Some(IntrinsicBuiltin::ValueError)
    } else if same_text(name, "AttributeError") {
        Some(IntrinsicBuiltin::AttributeError)
    } else if same_text(name, "RuntimeError") {
        Some(IntrinsicBuiltin::RuntimeError)
    } else if same_text(name, "LookupError") {
        Some(IntrinsicBuiltin::LookupError)
    } else if same_text(name, "UnicodeDecodeError") {
        Some(IntrinsicBuiltin::UnicodeDecodeError)
    } else if same_text(name, "UnicodeEncodeError") {
        Some(IntrinsicBuiltin::UnicodeEncodeError)
    } else if same_text(name, "ImportError") {
        Some(IntrinsicBuiltin::ImportError)
    } else if same_text(name, "KeyError") {
        Some(IntrinsicBuiltin::KeyError)
    } else {
        None
    }
}

/// Whether a table of built-in names holds the built-in object under a name.
pub open spec fn names_intrinsic(heap: Heap, builtins: usize, name: Seq<char>) -> Check {
    match intrinsic_named(name) {
        None => Ok(false),
        Some(intrinsic) => match heap.entry_of(builtins, name) {
            None => Ok(false),
            Some(current) => match heap.module_of("builtins"@) {
                None => Err(Failure::Import),
                Some(module) => is_intrinsic(heap, module, current, intrinsic),
            },
        },
    }
}

/// Whether a table of built-in names holds the built-in object under a name.
pub fn intrinsic_builtin_name_is(heap: &Heap, builtins: usize, name: &str) -> (check: Check)
    ensures
        check == names_intrinsic(*heap, builtins, name@),
{
    match intrinsic_builtin_for_name(name) {
        None => Ok(false),
        Some(intrinsic) => match heap.entry(builtins, name) {
            None => Ok(false),
            Some(current) => match heap.module("builtins") {
                None => Err(Failure::Import),
                Some(module) => intrinsic_builtin_is(heap, module, current, intrinsic),
            },
        },
    }
}

/// Neither `range` nor `map` is ever taken for the built-in one.
pub proof fn law_range_and_map_stay_in_python(heap: Heap, builtins_module: usize, current: usize)
    ensures
        is_intrinsic(heap, builtins_module, current, IntrinsicBuiltin::Range) == Ok::<
            bool,
            Failure,
        >(false),
        is_intrinsic(heap, builtins_module, current, IntrinsicBuiltin::MapType) == Ok::<
            bool,
            Failure,
        >(false),
{
}

/// At most one object of a snapshot is a given built-in type.
pub proof fn law_intrinsic_type_is_unique(
    heap: Heap,
    builtins_module: usize,
    left: usize,
    right: usize,
    intrinsic: IntrinsicBuiltin,
)
    requires
        !(intrinsic is Function),
        is_intrinsic(heap, builtins_module, left, intrinsic) == Ok::<bool, Failure>(true),
        is_intrinsic(heap, builtins_module, right, intrinsic) == Ok::<bool, Failure>(true),
    ensures
        left == right,
{
}

/// A builtin function goes by its own name.
pub proof fn law_functions_go_by_their_names(name: BuiltinName)
    ensures
        intrinsic_named(name.spelled()) == Some(IntrinsicBuiltin::Function(name)),
{
    reveal_strlit("getattr");
    reveal_strlit("setattr");
    reveal_strlit("isinstance");
    reveal_strlit("hasattr");
    reveal_strlit("len");
    reveal_strlit("ord");
    reveal_strlit("hex");
    reveal_strlit("chr");
    assert("getattr"@[0] == 'g' && "setattr"@[0] == 's' && "hasattr"@[0] == 'h' && "hasattr"@.len()
        == 7 && "isinstance"@.len() == 10);
    assert("len"@[0] == 'l' && "ord"@[0] == 'o' && "hex"@[0] == 'h' && "chr"@[0] == 'c'
        && "hex"@.len() == 3 && "chr"@.len() == 3 && "len"@.len() == 3 && "ord"@.len() == 3);
}

/// A builtin type is named by its own name alone.
pub proof fn law_types_are_named(name: Seq<char>)
    ensures
        intrinsic_named(name) == Some(IntrinsicBuiltin::Str) ==> name == "str"@,
        intrinsic_named(name) == Some(IntrinsicBuiltin::Bytes) ==> name == "bytes"@,
        intrinsic_named(name) == Some(IntrinsicBuiltin::Bool) ==> name == "bool"@,
        intrinsic_named(name) == Some(IntrinsicBuiltin::Int) ==> name == "int"@,
        intrinsic_named(name) == Some(IntrinsicBuiltin::List) ==> name == "list"@,
        intrinsic_named(name) == Some(IntrinsicBuiltin::Tuple) ==> name == "tuple"@,
        intrinsic_named(name) == Some(IntrinsicBuiltin::ByteArray) ==> name == "bytearray"@,
        intrinsic_named(name) == Some(IntrinsicBuiltin::Range) ==> name == "range"@,
        intrinsic_named(name) == Some(IntrinsicBuiltin::MapType) ==> name == "map"@,
        intrinsic_named(name) == Some(IntrinsicBuiltin::Type) ==> name == "type"@,
        intrinsic_named(name) == Some(IntrinsicBuiltin::TypeError) ==> name == "TypeError"@,
        intrinsic_named(name) == Some(IntrinsicBuiltin::ValueError) ==> name == "ValueError"@,
        intrinsic_named(name) == Some(IntrinsicBuiltin::AttributeError) ==> name
            == "AttributeError"@,
        intrinsic_named(name) == Some(IntrinsicBuiltin::RuntimeError) ==> name == "RuntimeError"@,
        intrinsic_named(name) == Some(IntrinsicBuiltin::LookupError) ==> name == "LookupError"@,
        intrinsic_named(name) == Some(IntrinsicBuiltin::UnicodeDecodeError) ==> name
            == "UnicodeDecodeError"@,
        intrinsic_named(name) == Some(IntrinsicBuiltin::UnicodeEncodeError) ==> name
            == "UnicodeEncodeError"@,
        intrinsic_named(name) == Some(IntrinsicBuiltin::ImportError) ==> name == "ImportError"@,
        intrinsic_named(name) == Some(IntrinsicBuiltin::KeyError) ==> name == "KeyError"@,
        intrinsic_named(name) matches Some(IntrinsicBuiltin::Function(function)) ==> name
            == function.spelled(),
        intrinsic_named(name) is None ==> name != "str"@ && name != "bytes"@ && name != "bool"@
            && name != "int"@ && name != "list"@ && name != "tuple"@ && name != "bytearray"@ && name
            != "range"@ && name != "map"@ && name != "type"@ && name != "TypeError"@ && name
            != "ValueError"@ && name != "AttributeError"@ && name != "RuntimeError"@ && name
            != "LookupError"@ && name != "UnicodeDecodeError"@ && name != "UnicodeEncodeError"@
            && name != "ImportError"@ && name != "KeyError"@,
{
}

/// A builtin type is the interpreter's own of that kind, and nothing else.
pub proof fn law_types_are_the_interpreters_own(heap: Heap, module: usize, current: usize)
    ensures
        holds(is_intrinsic(heap, module, current, IntrinsicBuiltin::Str)) <==> current
            == heap.intrinsics.text,
        holds(is_intrinsic(heap, module, current, IntrinsicBuiltin::Bytes)) <==> current
            == heap.intrinsics.bytes,
        holds(is_intrinsic(heap, module, current, IntrinsicBuiltin::Bool)) <==> current
            == heap.intrinsics.boolean,
        holds(is_intrinsic(heap, module, current, IntrinsicBuiltin::Int)) <==> current
            == heap.intrinsics.int,
        holds(is_intrinsic(heap, module, current, IntrinsicBuiltin::List)) <==> current
            == heap.intrinsics.list,
        holds(is_intrinsic(heap, module, current, IntrinsicBuiltin::Tuple)) <==> current
            == heap.intrinsics.tuple,
        holds(is_intrinsic(heap, module, current, IntrinsicBuiltin::ByteArray)) <==> current
            == heap.intrinsics.byte_array,
        holds(is_intrinsic(heap, module, current, IntrinsicBuiltin::Type)) <==> current
            == heap.intrinsics.type_type,
        holds(is_intrinsic(heap, module, current, IntrinsicBuiltin::TypeError)) <==> current
            == heap.intrinsics.type_error,
        holds(is_intrinsic(heap, module, current, IntrinsicBuiltin::ValueError)) <==> current
            == heap.intrinsics.value_error,
        holds(is_intrinsic(heap, module, current, IntrinsicBuiltin::AttributeError)) <==> current
            == heap.intrinsics.attribute_error,
        holds(is_intrinsic(heap, module, current, IntrinsicBuiltin::RuntimeError)) <==> current
            == heap.intrinsics.runtime_error,
        holds(is_intrinsic(heap, module, current, IntrinsicBuiltin::LookupError)) <==> current
            == heap.intrinsics.lookup_error,
        holds(is_intrinsic(heap, module, current, IntrinsicBuiltin::UnicodeDecodeError))
            <==> current == heap.intrinsics.unicode_decode_error,
        holds(is_intrinsic(heap, module, current, IntrinsicBuiltin::UnicodeEncodeError))
            <==> current == heap.intrinsics.unicode_encode_error,
        holds(is_intrinsic(heap, module, current, IntrinsicBuiltin::ImportError)) <==> current
            == heap.intrinsics.import_error,
        holds(is_intrinsic(heap, module, current, IntrinsicBuiltin::KeyError)) <==> current
            == heap.intrinsics.key_error,
{
}

/// A builtin function is one exactly where it says its own name and that of the
/// builtins, and is bound to them.
pub proof fn law_builtin_functions_say_their_names(
    heap: Heap,
    module: usize,
    current: usize,
    name: BuiltinName,
    builtins: usize,
    word: Seq<char>,
)
    ensures
        holds(is_intrinsic(heap, module, current, IntrinsicBuiltin::Function(name))) <==> {
            &&& is_builtin_function(heap, current)
            &&& heap.attribute_of(current, "__name__"@) matches Some(label)
            &&& heap.text_of(label) == Some(name.spelled())
            &&& heap.attribute_of(current, "__module__"@) matches Some(home)
            &&& heap.text_of(home) == Some("builtins"@)
            &&& heap.attribute_of(current, "__self__"@) == Some(module)
        },
        holds(names_intrinsic(heap, builtins, word)) <==> {
            &&& intrinsic_named(word) matches Some(intrinsic)
            &&& heap.entry_of(builtins, word) matches Some(object)
            &&& heap.module_of("builtins"@) matches Some(own)
            &&& holds(is_intrinsic(heap, own, object, intrinsic))
        },
{
}

} // verus!
