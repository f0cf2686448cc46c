use requests_native::canonical::{
    build_known_code, canonical_code, canonical_defaults_are_current, canonical_function_is,
    canonical_function_shape_is, direct_nested_code, CanonicalDefaults, CanonicalFunction,
    CanonicalGlobalResolution, DefaultPolicy,
};
use requests_native::canonical_build::{build_canonical_function, Source};
use requests_native::errors::{
    exception_matches, map_decoder_error, map_json_error, map_stream_error, DecoderMapped,
    Mapped, MappedName,
};
use requests_native::heap::{
    Binding, CodeFacts, Failure, Heap, Intrinsics, Pair, Payload, PyObject,
};
use requests_native::intrinsic::{
    builtin_function, check_text_attribute, IntrinsicBuiltin,
};
use requests_native::known::{
    codes_equal, known_value_is, CharacterSet, KnownCode, KnownValue, QuoterClass,
};
use requests_native::patterns::{known_pattern, known_regex_is, KnownRegex};

const TEXT: usize = 0;
const BYTES: usize = 1;
const BOOLEAN: usize = 2;
const NUMBER: usize = 3;
const FLOAT: usize = 4;
const TUPLE: usize = 6;
const FROZEN: usize = 9;
const DICT: usize = 10;
const TYPE: usize = 11;
const OBJECT: usize = 12;
const MODULE: usize = 28;

struct World {
    heap: Heap,
}

impl World {
    fn new() -> World {
        let mut objects = Vec::new();
        for _ in 0..29 {
            objects.push(PyObject { class: TYPE, payload: Payload::Type, attributes: Vec::new() });
        }
        let heap = Heap {
            objects,
            intrinsics: Intrinsics {
                text: TEXT,
                bytes: BYTES,
                boolean: BOOLEAN,
                int: NUMBER,
                float: FLOAT,
                list: 5,
                tuple: TUPLE,
                byte_array: 7,
                set: 8,
                frozen_set: FROZEN,
                dict: DICT,
                type_type: TYPE,
                object: OBJECT,
                super_type: 13,
                function: 14,
                type_error: 15,
                value_error: 16,
                attribute_error: 17,
                runtime_error: 18,
                lookup_error: 19,
                unicode_decode_error: 20,
                unicode_encode_error: 21,
                import_error: 22,
                key_error: 23,
                base_exception: 24,
                static_method: 25,
                method_descriptor: 26,
                member_descriptor: 27,
                module_type: MODULE,
            },
            modules: Vec::new(),
            module_code: Vec::new(),
        };
        let mut world = World { heap };
        let bases = world.add(TUPLE, Payload::Tuple(Vec::new()));
        let names = world.add(OBJECT, Payload::Mapping(Vec::new()));
        for class in 0..29 {
            world.set(class, "__bases__", bases);
            world.set(class, "__dict__", names);
        }
        world
    }

    fn add(&mut self, class: usize, payload: Payload) -> usize {
        self.heap.objects.push(PyObject { class, payload, attributes: Vec::new() });
        self.heap.objects.len() - 1
    }

    fn set(&mut self, object: usize, name: &str, value: usize) {
        let attributes = &mut self.heap.objects[object].attributes;
        for binding in attributes.iter_mut() {
            if binding.name == name {
                binding.value = value;
                return;
            }
        }
        attributes.push(Binding { name: String::from(name), value });
    }

    fn unset(&mut self, object: usize, name: &str) {
        self.heap.objects[object].attributes.retain(|binding| binding.name != name);
    }

    fn text(&mut self, text: &str) -> usize {
        self.add(TEXT, Payload::Text(Some(String::from(text))))
    }

    fn number(&mut self, value: i128) -> usize {
        let number = self.add(NUMBER, Payload::Int(Some(value)));
        let float = self.add(FLOAT, Payload::Float((value as f64).to_bits()));
        self.set(number, "float()", float);
        number
    }

    fn float(&mut self, value: f64) -> usize {
        let number = self.add(FLOAT, Payload::Float(value.to_bits()));
        self.set(number, "float()", number);
        number
    }

    fn flag(&mut self, value: bool) -> usize {
        self.add(BOOLEAN, Payload::Bool(value))
    }

    fn none(&mut self) -> usize {
        self.add(OBJECT, Payload::NoneValue)
    }

    fn opaque(&mut self, class: usize) -> usize {
        self.add(class, Payload::Opaque)
    }

    fn pairs(&mut self, entries: &[(&str, usize)]) -> Vec<Pair> {
        let mut pairs = Vec::new();
        for (name, value) in entries {
            let key = self.text(name);
            pairs.push(Pair { key, value: *value });
        }
        pairs
    }

    fn dict(&mut self, entries: &[(&str, usize)]) -> usize {
        let pairs = self.pairs(entries);
        self.add(DICT, Payload::Dict(pairs))
    }

    fn class(&mut self, entries: &[(&str, usize)]) -> usize {
        let class = self.add(TYPE, Payload::Type);
        let pairs = self.pairs(entries);
        let names = self.add(OBJECT, Payload::Mapping(pairs));
        let bases = self.add(TUPLE, Payload::Tuple(vec![OBJECT]));
        self.set(class, "__dict__", names);
        self.set(class, "__bases__", bases);
        for (name, value) in entries {
            self.set(class, name, *value);
        }
        class
    }

    fn module(&mut self, name: &str, entries: &[(&str, usize)]) -> usize {
        let module = self.add(MODULE, Payload::Module);
        let names = self.dict(entries);
        self.set(module, "__dict__", names);
        for (entry, value) in entries {
            self.set(module, entry, *value);
        }
        self.heap.modules.push(Binding { name: String::from(name), value: module });
        module
    }
}

const FUNCTION: usize = 14;

fn strings(names: &[&str]) -> Vec<String> {
    names.iter().map(|name| String::from(*name)).collect()
}

impl World {
    fn code(&mut self, name: &str, equality: u64, stored: &[&str], loaded: &[&str]) -> usize {
        let facts = CodeFacts { equality, stored: strings(stored), loaded: strings(loaded) };
        let code = self.add(OBJECT, Payload::Code(facts));
        let own = self.text(name);
        let none = self.add(TUPLE, Payload::Tuple(Vec::new()));
        self.set(code, "co_name", own);
        self.set(code, "co_consts", none);
        code
    }

    fn builtins(&mut self) -> (usize, usize) {
        let isinstance = self.add(OBJECT, Payload::BuiltinFunction);
        let name = self.text("isinstance");
        let home = self.text("builtins");
        self.set(isinstance, "__name__", name);
        self.set(isinstance, "__module__", home);
        let print = self.add(OBJECT, Payload::BuiltinFunction);
        let table = self.dict(&[("isinstance", isinstance), ("print", print), ("str", TEXT)]);
        let module = self.module("builtins", &[("isinstance", isinstance)]);
        self.set(isinstance, "__self__", module);
        (module, table)
    }

    /// A module whose loader gives code that defines these functions.
    fn source(
        &mut self,
        name: &str,
        table: usize,
        stored: &[&str],
        entries: &[(&str, usize)],
        codes: &[usize],
    ) -> usize {
        let mut all = entries.to_vec();
        all.push(("__builtins__", table));
        let module = self.module(name, &all);
        let own = self.text(name);
        self.set(module, "__name__", own);
        let root = self.code("<module>", 1, stored, &[]);
        let constants = self.add(TUPLE, Payload::Tuple(codes.to_vec()));
        self.set(root, "co_consts", constants);
        self.heap.module_code.push(Binding { name: String::from(name), value: root });
        module
    }

    fn function(&mut self, module: &str, name: &str, code: usize, table: usize) -> usize {
        let function = self.add(FUNCTION, Payload::Function);
        let home = self.text(module);
        let own = self.text(name);
        let none = self.none();
        for (attribute, value) in [
            ("__module__", home),
            ("__qualname__", own),
            ("__name__", own),
            ("__code__", code),
            ("__builtins__", table),
            ("__defaults__", none),
            ("__kwdefaults__", none),
        ] {
            self.set(function, attribute, value);
        }
        function
    }

    fn globals(&mut self, module: usize) -> usize {
        match self.heap.attribute(module, "__dict__") {
            Some(globals) => globals,
            None => panic!("a module has a name space"),
        }
    }

    fn bind(&mut self, dictionary: usize, name: &str, value: usize) {
        let key = self.text(name);
        match &mut self.heap.objects[dictionary].payload {
            Payload::Dict(pairs) => pairs.push(Pair { key, value }),
            _ => panic!("a dict is expected"),
        }
    }
}

struct NativeString {
    world: World,
    function: usize,
    globals: usize,
    table: usize,
    code: usize,
}

fn native_string(loaded: &[&str]) -> NativeString {
    let mut world = World::new();
    let (_, table) = world.builtins();
    let home = "requests._internal_utils";
    let code = world.code("to_native_string", 7, &[], loaded);
    let function = world.function(home, "to_native_string", code, table);
    let module = world.source(
        home,
        table,
        &["builtin_str", "to_native_string"],
        &[("builtin_str", TEXT), ("to_native_string", function)],
        &[code],
    );
    let globals = world.globals(module);
    world.set(function, "__globals__", globals);
    let ascii = world.text("ascii");
    let defaults = world.add(TUPLE, Payload::Tuple(vec![ascii]));
    world.set(function, "__defaults__", defaults);
    NativeString { world, function, globals, table, code }
}

fn take(native: &NativeString) -> CanonicalFunction {
    let ignored = Vec::new();
    let source = Source {
        module: "requests._internal_utils",
        qualname: "to_native_string",
        policy: DefaultPolicy::ToNativeString,
        include_globals: true,
        ignored: &ignored,
    };
    match build_canonical_function(&native.world.heap, native.function, source) {
        Some(built) => built,
        None => panic!("the function can be taken down"),
    }
}

#[test]
fn a_function_is_trusted_as_its_source_defines_it() {
    let native = native_string(&["isinstance", "builtin_str", "isinstance"]);
    let built = take(&native);
    assert_eq!(built.code, native.code);
    assert_eq!(built.globals, native.globals);
    assert_eq!(built.builtins, native.table);
    assert_eq!(built.defaults, CanonicalDefaults::ToNativeString);
    assert_eq!(built.dependencies.len(), 2);
    assert_eq!(built.dependencies[0].name, "isinstance");
    assert!(matches!(
        built.dependencies[0].resolution,
        CanonicalGlobalResolution::IntrinsicBuiltin(IntrinsicBuiltin::Function(_))
    ));
    assert!(matches!(
        built.dependencies[1].resolution,
        CanonicalGlobalResolution::KnownModule {
            value: KnownValue::Intrinsic(IntrinsicBuiltin::Str),
            code: None,
        }
    ));
    let heap = &native.world.heap;
    assert_eq!(canonical_function_shape_is(heap, native.function, &built), Ok(true));
    assert_eq!(canonical_function_is(heap, native.function, &built), Ok(true));
}

#[test]
fn a_hidden_or_replaced_global_ends_trust() {
    let mut hidden = native_string(&["isinstance", "builtin_str"]);
    let built = take(&hidden);
    let other = hidden.world.opaque(OBJECT);
    let globals = hidden.globals;
    hidden.world.bind(globals, "isinstance", other);
    assert_eq!(canonical_function_is(&hidden.world.heap, hidden.function, &built), Ok(false));

    let mut replaced = native_string(&["isinstance", "builtin_str"]);
    let built = take(&replaced);
    match &mut replaced.world.heap.objects[replaced.globals].payload {
        Payload::Dict(pairs) => pairs[0].value = BYTES,
        _ => panic!("a dict is expected"),
    }
    assert_eq!(
        canonical_function_is(&replaced.world.heap, replaced.function, &built),
        Ok(false)
    );
}

#[test]
fn other_code_or_defaults_end_trust() {
    let mut native = native_string(&["isinstance"]);
    let built = take(&native);
    let same = native.world.code("elsewhere", 7, &[], &[]);
    native.world.set(native.function, "__code__", same);
    assert!(codes_equal(&native.world.heap, same, native.code));
    assert_eq!(canonical_function_is(&native.world.heap, native.function, &built), Ok(true));
    let other = native.world.code("to_native_string", 8, &[], &["isinstance"]);
    native.world.set(native.function, "__code__", other);
    assert_eq!(canonical_function_is(&native.world.heap, native.function, &built), Ok(false));
    native.world.set(native.function, "__code__", native.code);
    let latin = native.world.text("latin-1");
    let defaults = native.world.add(TUPLE, Payload::Tuple(vec![latin]));
    native.world.set(native.function, "__defaults__", defaults);
    assert_eq!(canonical_function_is(&native.world.heap, native.function, &built), Ok(false));
    assert!(!canonical_defaults_are_current(
        &native.world.heap,
        native.function,
        &CanonicalDefaults::Absent
    ));
    assert!(canonical_defaults_are_current(
        &native.world.heap,
        native.function,
        &CanonicalDefaults::Captured { defaults: Some(defaults), kwdefaults: None }
    ));
    native.world.unset(native.function, "__builtins__");
    assert_eq!(
        canonical_function_is(&native.world.heap, native.function, &built),
        Err(Failure::Attribute)
    );
}

#[test]
fn an_unknown_built_in_prevents_trust() {
    let native = native_string(&["print"]);
    let built = take(&native);
    assert!(matches!(built.dependencies[0].resolution, CanonicalGlobalResolution::Unprovable));
    assert_eq!(canonical_function_is(&native.world.heap, native.function, &built), Ok(false));
}

#[test]
fn a_missing_name_may_not_appear() {
    let mut native = native_string(&["unicode"]);
    let built = take(&native);
    assert!(matches!(built.dependencies[0].resolution, CanonicalGlobalResolution::Missing));
    assert_eq!(canonical_function_is(&native.world.heap, native.function, &built), Ok(true));
    let table = native.table;
    native.world.bind(table, "unicode", TEXT);
    assert_eq!(canonical_function_is(&native.world.heap, native.function, &built), Ok(false));
}

#[test]
fn trust_reaches_the_functions_that_are_called() {
    let mut world = World::new();
    let (_, table) = world.builtins();
    let home = "requests.utils";
    let inner_code = world.code("unquote_unreserved", 21, &[], &["isinstance"]);
    let outer_code = world.code("requote_uri", 22, &[], &["unquote_unreserved"]);
    let inner = world.function(home, "unquote_unreserved", inner_code, table);
    let outer = world.function(home, "requote_uri", outer_code, table);
    let module = world.source(
        home,
        table,
        &["unquote_unreserved", "requote_uri"],
        &[("unquote_unreserved", inner), ("requote_uri", outer)],
        &[inner_code, outer_code],
    );
    let globals = world.globals(module);
    world.set(inner, "__globals__", globals);
    world.set(outer, "__globals__", globals);
    let ignored = Vec::new();
    let source = Source {
        module: home,
        qualname: "requote_uri",
        policy: DefaultPolicy::Absent,
        include_globals: true,
        ignored: &ignored,
    };
    let built = match build_canonical_function(&world.heap, outer, source) {
        Some(built) => built,
        None => panic!("the function can be taken down"),
    };
    match &built.dependencies[0].resolution {
        CanonicalGlobalResolution::Module { expected, function: Some(called) } => {
            assert_eq!(*expected, inner);
            assert_eq!(called.code, inner_code);
        }
        _ => panic!("the called function is taken down too"),
    }
    assert_eq!(canonical_function_is(&world.heap, outer, &built), Ok(true));
    let changed = world.code("unquote_unreserved", 23, &[], &[]);
    world.set(inner, "__code__", changed);
    assert_eq!(canonical_function_is(&world.heap, outer, &built), Ok(false));
}

#[test]
fn the_last_definition_of_a_name_counts() {
    let mut world = World::new();
    let first = world.code("twice", 1, &[], &[]);
    let second = world.code("twice", 2, &[], &[]);
    let root = world.code("<module>", 3, &[], &[]);
    let constants = world.add(TUPLE, Payload::Tuple(vec![first, second]));
    world.set(root, "co_consts", constants);
    assert_eq!(direct_nested_code(&world.heap, root, "twice"), Some(second));
    assert_eq!(direct_nested_code(&world.heap, root, "thrice"), None);
    world.module("somewhere", &[]);
    assert_eq!(canonical_code(&world.heap, "somewhere", "twice"), None);
    world.heap.module_code.push(Binding { name: String::from("somewhere"), value: root });
    assert_eq!(canonical_code(&world.heap, "somewhere", "twice"), Some(second));
}

#[test]
fn known_classes_need_their_loaded_code() {
    let mut world = World::new();
    let (_, table) = world.builtins();
    let init = world.code("__init__", 1, &[], &[]);
    let missing = world.code("__missing__", 2, &[], &[]);
    let quoter = world.code("Quoter", 3, &[], &[]);
    let constants = world.add(TUPLE, Payload::Tuple(vec![init, missing]));
    world.set(quoter, "co_consts", constants);
    let module = world.source("urllib.parse", table, &[], &[], &[quoter]);
    let globals = world.globals(module);
    assert_eq!(
        build_known_code(
            &world.heap,
            globals,
            table,
            KnownValue::QuoterType(QuoterClass::Quoter)
        ),
        Some(Some(KnownCode::QuoterType { init, missing, globals }))
    );
    assert_eq!(
        build_known_code(&world.heap, globals, table, KnownValue::ByteQuoterFactory),
        None
    );
    assert_eq!(
        build_known_code(&world.heap, globals, table, KnownValue::EmptyDict),
        Some(None)
    );
}

fn is_known(world: &World, current: usize, expected: KnownValue) -> Result<bool, Failure> {
    known_value_is(&world.heap, MODULE, current, expected, None)
}

#[test]
fn known_values_are_told_by_what_they_hold() {
    let mut world = World::new();
    let pair = world.add(TUPLE, Payload::Tuple(vec![TEXT, BYTES]));
    let expected = KnownValue::IntrinsicPair(IntrinsicBuiltin::Str, IntrinsicBuiltin::Bytes);
    assert_eq!(is_known(&world, pair, expected), Ok(true));
    let swapped = world.add(TUPLE, Payload::Tuple(vec![BYTES, TEXT]));
    assert_eq!(is_known(&world, swapped, expected), Ok(false));

    let http = world.text("http");
    let https = world.text("https");
    let none = world.none();
    let schemes = world.add(TUPLE, Payload::Tuple(vec![http, https, none]));
    assert_eq!(is_known(&world, schemes, KnownValue::NormalizableSchemes), Ok(true));
    let short = world.add(TUPLE, Payload::Tuple(vec![http, https]));
    assert_eq!(is_known(&world, short, KnownValue::NormalizableSchemes), Ok(false));

    let ftp = world.text("ftp");
    let listed = world.add(5, Payload::List(vec![ftp, https, http]));
    assert_eq!(is_known(&world, listed, KnownValue::NetlocSchemes), Ok(true));
    let lacking = world.add(5, Payload::List(vec![ftp, https]));
    assert_eq!(is_known(&world, lacking, KnownValue::NetlocSchemes), Ok(false));

    let empty = world.dict(&[]);
    let filled = world.dict(&[("a", http)]);
    assert_eq!(is_known(&world, empty, KnownValue::EmptyDict), Ok(true));
    assert_eq!(is_known(&world, filled, KnownValue::EmptyDict), Ok(false));

    let safe = b"-.0123456789ABCDEFGHIJKLMNOPQRSTUVWXYZ_abcdefghijklmnopqrstuvwxyz~";
    let bytes = world.add(BYTES, Payload::Bytes(safe.to_vec()));
    assert_eq!(is_known(&world, bytes, KnownValue::AlwaysSafeBytes), Ok(true));
    let fewer = world.add(BYTES, Payload::Bytes(safe[1..].to_vec()));
    assert_eq!(is_known(&world, fewer, KnownValue::AlwaysSafeBytes), Ok(false));
}

#[test]
fn sets_of_characters_are_counted_and_compared() {
    let mut world = World::new();
    let mut characters = Vec::new();
    for character in CharacterSet::Unreserved.text().chars() {
        characters.push(world.text(&character.to_string()));
    }
    let full = world.add(FROZEN, Payload::FrozenSet(characters.clone()));
    let frozen = KnownValue::TextFrozenSet(CharacterSet::Unreserved);
    assert_eq!(is_known(&world, full, frozen), Ok(true));
    assert_eq!(
        is_known(&world, full, KnownValue::TextSet(CharacterSet::Unreserved)),
        Ok(false)
    );
    characters.pop();
    let fewer = world.add(FROZEN, Payload::FrozenSet(characters.clone()));
    assert_eq!(is_known(&world, fewer, frozen), Ok(false));
    let slash = world.text("/");
    characters.push(slash);
    let other = world.add(FROZEN, Payload::FrozenSet(characters));
    assert_eq!(is_known(&world, other, frozen), Ok(false));
}

fn pattern_type(world: &mut World) -> usize {
    let class = world.class(&[]);
    let mut entries = Vec::new();
    for (name, kind) in [("match", 26), ("search", 26), ("pattern", 27), ("flags", 27)] {
        let descriptor = world.opaque(kind);
        let own = world.text(name);
        world.set(descriptor, "__objclass__", class);
        world.set(descriptor, "__name__", own);
        entries.push((name, descriptor));
    }
    let pairs = world.pairs(&entries);
    let names = world.add(OBJECT, Payload::Mapping(pairs));
    let name = world.text("Pattern");
    let home = world.text("re");
    world.set(class, "__dict__", names);
    world.set(class, "__name__", name);
    world.set(class, "__module__", home);
    class
}

#[test]
fn regular_expressions_are_known_by_pattern_and_flags() {
    let mut world = World::new();
    let class = pattern_type(&mut world);
    let compiled = world.opaque(class);
    let pattern = world.text("%[a-fA-F0-9]{2}");
    let flags = world.number(32);
    world.set(compiled, "pattern", pattern);
    world.set(compiled, "flags", flags);
    assert_eq!(known_pattern(KnownRegex::Percent), "%[a-fA-F0-9]{2}");
    assert_eq!(known_regex_is(&world.heap, compiled, KnownRegex::Percent), Ok(true));
    assert_eq!(known_regex_is(&world.heap, compiled, KnownRegex::Scheme), Ok(false));
    assert_eq!(
        is_known(&world, compiled, KnownValue::Regex(KnownRegex::Percent)),
        Ok(true)
    );
    let ignoring_case = world.number(34);
    world.set(compiled, "flags", ignoring_case);
    assert_eq!(known_regex_is(&world.heap, compiled, KnownRegex::Percent), Ok(false));
    world.unset(compiled, "flags");
    assert_eq!(
        known_regex_is(&world.heap, compiled, KnownRegex::Percent),
        Err(Failure::Attribute)
    );
    let foreign = world.opaque(OBJECT);
    assert_ne!(known_regex_is(&world.heap, foreign, KnownRegex::Percent), Ok(true));
}

#[test]
fn built_in_functions_are_told_by_their_attributes() {
    let mut world = World::new();
    let (module, _) = world.builtins();
    let function = match world.heap.attribute(module, "isinstance") {
        Some(function) => function,
        None => panic!("the module has the function"),
    };
    assert!(builtin_function(&world.heap, function));
    assert!(!builtin_function(&world.heap, module));
    assert_eq!(
        check_text_attribute(&world.heap, function, "__name__", "isinstance"),
        Ok(true)
    );
    assert_eq!(check_text_attribute(&world.heap, function, "__name__", "len"), Ok(false));
    assert_eq!(
        check_text_attribute(&world.heap, function, "__doc__", "len"),
        Err(Failure::Attribute)
    );
}

const BASE_EXCEPTION: usize = 24;

impl World {
    fn error_class(&mut self, base: usize) -> usize {
        let class = self.class(&[]);
        let mut order = vec![class];
        if base != BASE_EXCEPTION {
            order.push(base);
        }
        order.push(BASE_EXCEPTION);
        let order = self.add(TUPLE, Payload::Tuple(order));
        self.set(class, "__mro__", order);
        class
    }

    fn errors(&mut self) -> (usize, Vec<usize>) {
        let mut classes = Vec::new();
        let mut entries = Vec::new();
        for name in [
            "ProtocolError",
            "ChunkedEncodingError",
            "DecodeError",
            "ContentDecodingError",
            "ReadTimeoutError",
            "ConnectionError",
            "SSLError",
            "RequestsSSLError",
            "JSONDecodeError",
            "RequestsJSONDecodeError",
        ] {
            let class = self.error_class(BASE_EXCEPTION);
            classes.push(class);
            entries.push((name, class));
        }
        let globals = self.dict(&entries);
        (globals, classes)
    }
}

#[test]
fn errors_of_a_stream_are_wrapped_in_their_own_class() {
    let mut world = World::new();
    let (globals, classes) = world.errors();
    for pair in 0..4 {
        let derived = world.error_class(classes[2 * pair]);
        for class in [classes[2 * pair], derived] {
            assert_eq!(
                map_stream_error(&world.heap, globals, class),
                Mapped::Wrapped(classes[2 * pair + 1])
            );
        }
    }
    let foreign = world.error_class(BASE_EXCEPTION);
    assert_eq!(map_stream_error(&world.heap, globals, foreign), Mapped::Original);
    let empty = world.dict(&[]);
    assert_eq!(
        map_stream_error(&world.heap, empty, foreign),
        Mapped::Undefined(MappedName::ProtocolError)
    );
    assert_eq!(
        MappedName::ProtocolError.undefined_message(),
        "name 'ProtocolError' is not defined"
    );
    let number = world.number(1);
    let odd = world.dict(&[("ProtocolError", number)]);
    assert_eq!(map_stream_error(&world.heap, odd, foreign), Mapped::InvalidTarget);
}

#[test]
fn errors_of_the_json_decoder_keep_their_parts() {
    let mut world = World::new();
    let (globals, classes) = world.errors();
    let error = world.opaque(classes[8]);
    assert_eq!(
        map_json_error(&world.heap, globals, error, classes[8]),
        Mapped::MissingPart
    );
    let part = world.text("part");
    for name in ["msg", "doc", "pos"] {
        world.set(error, name, part);
    }
    assert_eq!(
        map_json_error(&world.heap, globals, error, classes[8]),
        Mapped::Wrapped(classes[9])
    );
    assert_eq!(map_json_error(&world.heap, globals, error, classes[0]), Mapped::Original);
}

#[test]
fn decoders_raise_from_their_source_in_version_2() {
    let mut world = World::new();
    let (_, classes) = world.errors();
    let targets = world.add(TUPLE, Payload::Tuple(vec![classes[0], classes[2]]));
    assert_eq!(
        map_decoder_error(&world.heap, classes[2], targets, true),
        DecoderMapped::Decode { explicit_cause: true }
    );
    assert_eq!(
        map_decoder_error(&world.heap, classes[2], targets, false),
        DecoderMapped::Decode { explicit_cause: false }
    );
    assert_eq!(
        map_decoder_error(&world.heap, classes[4], targets, true),
        DecoderMapped::Original
    );
    let number = world.number(1);
    assert_eq!(
        map_decoder_error(&world.heap, classes[4], number, true),
        DecoderMapped::InvalidTarget
    );
}

#[test]
fn tuples_in_tuples_are_no_targets() {
    let mut world = World::new();
    let (_, classes) = world.errors();
    let inner = world.add(TUPLE, Payload::Tuple(vec![classes[2]]));
    let outer = world.add(TUPLE, Payload::Tuple(vec![classes[0], inner]));
    assert_eq!(exception_matches(&world.heap, classes[0], inner), Ok(false));
    assert_eq!(exception_matches(&world.heap, classes[2], inner), Ok(true));
    assert_eq!(exception_matches(&world.heap, classes[0], outer), Err(Failure::Kind));
}
