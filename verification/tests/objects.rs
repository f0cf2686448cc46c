use requests_native::adapter_state::{
    exact_dict, keys_are_texts, live_adapter_global, routing_keys_message, routing_mapping_proof,
};
use requests_native::admission::{
    duration_value, is_unverified, pool_key, proxy_kind, request_body, selected_proxy,
    tls_value, AdmissionRefusal, ProxyKind, Roots, SelectedProxy, Span,
};
use requests_native::auth::{
    basic_auth_apply_trial, basic_auth_trial, basic_is_pristine, count_value, digest_401_trial,
    digest_auth_trial, digest_is_pristine, exact_string, initialize_auth_state,
    is_non_exact_string_or_bytes_subclass, BasicPlan, DigestStop,
};
use requests_native::behavior::{behavior_proof, check_facts};
use requests_native::body_prepare::GlobalResolver;
use requests_native::callables::{backend_name, function_builtins, function_builtins_dict};
use requests_native::canonical::{
    canonical_module_binds, find_code_by_scope, known_python_function, KnownFunction,
};
use requests_native::cookie_make::{keyword_arguments, validate_create_kwargs};
use requests_native::cookie_shape::{
    optional_integer, optional_string, required_bool, required_string, scalar_from_python,
    CookieScalar, SnapshotRefusal,
};
use requests_native::cookie_trial::{
    callback_free_policy_value, empty_arguments_are_supported, jar_operation,
    matches_exact_optional_string, JarOperation,
};
use requests_native::errors::{
    exception_matches, is_subclass, map_original_error, validate_exception_class, Mapped,
    MappingSite,
};
use requests_native::headers::{
    exact_header_name_is_native, exact_header_rows, header_preparation_error, materialize_headers,
    model_facade_operation, refused_object, HeaderKey, InvalidHeaderPart, ModelOperation,
    PreparedHeader,
};
use requests_native::heap::{
    Binding, CodeFacts, Failure, Heap, Intrinsics, Pair, Payload, PyObject,
};
use requests_native::intrinsic::{
    intrinsic_builtin_for_name, intrinsic_builtin_is, BuiltinName, IntrinsicBuiltin,
};
use requests_native::known::{known_module_value, CharacterSet, KnownValue};
use requests_native::landmarks::{
    check_expectations, find_landmark, Demand, Expectation, Landmark,
};
use requests_native::managers::{
    exact_python_value_equal, exact_string_dict_equal, exact_usize, is_socks_url, socks_version,
    ProofAttempts,
};
use requests_native::model_state::{Anchor, Trust};
use requests_native::patterns::{known_pattern, KnownRegex};
use requests_native::prepare::{
    exact_parameter_bytes, exact_query_pairs, exact_url_text, is_ascii_bytes,
    url_preparation_error, UrlErrorKind, UrlPreparationError,
};
use requests_native::registry::{
    closing_changed_message, PoolRefusal, Registry,
};
use requests_native::response_meta::{value_record, RecordKind};
use requests_native::response_read::chunk_size_is_valid;
use requests_native::retry::{
    check_attribute_is, exact_bool, nonnegative_float, retry_count, status_set, string_set,
    RetryCount,
};

struct World {
    heap: Heap,
}

impl World {
    fn new() -> World {
        let mut objects = Vec::new();
        for _ in 0..29 {
            objects.push(PyObject { class: 11, payload: Payload::Type, attributes: Vec::new() });
        }
        let heap = Heap {
            objects,
            intrinsics: Intrinsics {
                text: 0,
                bytes: 1,
                boolean: 2,
                int: 3,
                float: 4,
                list: 5,
                tuple: 6,
                byte_array: 7,
                set: 8,
                frozen_set: 9,
                dict: 10,
                type_type: 11,
                object: 12,
                super_type: 13,
                function: 14,
                type_error: 15,
                value_error: 16,
                attribute_error: 17,
                runtime_error: 18,
                lookup_error: 19,
                unicode_decode_error: 20,
                unicode_encode_error: 21,
                import_error: 22,
                key_error: 23,
                base_exception: 24,
                static_method: 25,
                method_descriptor: 26,
                member_descriptor: 27,
                module_type: 28,
            },
            modules: Vec::new(),
            module_code: Vec::new(),
        };
        let mut world = World { heap };
        for class in 0..29 {
            let base = if (15..=23).contains(&class) { 24 } else { 12 };
            let mut order = vec![class, base];
            if class == 2 {
                order = vec![2, 3, 12];
            }
            let order = world.add(6, Payload::Tuple(order));
            world.set(class, "__mro__", order);
        }
        world
    }

    fn add(&mut self, class: usize, payload: Payload) -> usize {
        self.heap.objects.push(PyObject { class, payload, attributes: Vec::new() });
        self.heap.objects.len() - 1
    }

    fn set(&mut self, object: usize, name: &str, value: usize) {
        let attributes = &mut self.heap.objects[object].attributes;
        for binding in attributes.iter_mut() {
            if binding.name == name {
                binding.value = value;
                return;
            }
        }
        attributes.push(Binding { name: String::from(name), value });
    }

    fn text(&mut self, text: &str) -> usize {
        self.add(0, Payload::Text(Some(String::from(text))))
    }

    fn number(&mut self, value: i128) -> usize {
        self.add(3, Payload::Int(Some(value)))
    }

    fn flag(&mut self, value: bool) -> usize {
        self.add(2, Payload::Bool(value))
    }

    fn none(&mut self) -> usize {
        self.add(12, Payload::NoneValue)
    }

    fn opaque(&mut self) -> usize {
        self.add(12, Payload::Opaque)
    }

    fn dict(&mut self, entries: &[(&str, usize)]) -> usize {
        let mut pairs = Vec::new();
        for (name, value) in entries {
            let key = self.text(name);
            pairs.push(Pair { key, value: *value });
        }
        self.add(10, Payload::Dict(pairs))
    }

    fn class(&mut self, base: usize) -> usize {
        let class = self.add(11, Payload::Type);
        let order = self.add(6, Payload::Tuple(vec![class, base, 12]));
        self.set(class, "__mro__", order);
        class
    }

    fn module(&mut self, name: &str) -> usize {
        for binding in &self.heap.modules {
            if binding.name == name {
                return binding.value;
            }
        }
        let module = self.add(28, Payload::Module);
        self.heap.modules.push(Binding { name: String::from(name), value: module });
        module
    }

    fn place(&mut self, module: &str, names: &[&str], payload: Payload) -> usize {
        let mut holder = self.module(module);
        for name in &names[..names.len() - 1] {
            holder = match self.heap.attribute(holder, name) {
                Some(value) => value,
                None => {
                    let value = self.opaque();
                    self.set(holder, name, value);
                    value
                }
            };
        }
        let class = match payload {
            Payload::Type => 11,
            _ => 12,
        };
        let object = self.add(class, payload);
        self.set(holder, names[names.len() - 1], object);
        object
    }
}

fn auth_world() -> World {
    let mut world = World::new();
    for name in ["requests.auth", "requests.models", "requests.cookies", "requests.structures"] {
        world.module(name);
    }
    for name in ["HTTPBasicAuth", "HTTPProxyAuth", "HTTPDigestAuth"] {
        world.place("requests.auth", &[name], Payload::Type);
    }
    for (module, name) in [
        ("requests.models", "Response"),
        ("requests.models", "PreparedRequest"),
        ("requests.cookies", "RequestsCookieJar"),
        ("requests.structures", "CaseInsensitiveDict"),
    ] {
        world.place(module, &[name], Payload::Type);
    }
    for names in [
        vec!["_basic_auth_str", "__code__"],
        vec!["to_native_string", "__code__"],
        vec!["warnings", "warn"],
        vec!["HTTPDigestAuth", "build_digest_header", "__code__"],
        vec!["HTTPDigestAuth", "handle_401", "__code__"],
        vec!["hashlib", "md5"],
        vec!["hashlib", "sha1"],
        vec!["hashlib", "sha256"],
        vec!["hashlib", "sha512"],
        vec!["basestring"],
        vec!["str"],
        vec!["b64encode"],
        vec!["HTTPBasicAuth", "__call__"],
        vec!["HTTPProxyAuth", "__call__"],
        vec!["os"],
        vec!["time"],
        vec!["urlparse"],
        vec!["extract_cookies_to_jar"],
        vec!["parse_dict_header"],
        vec!["re"],
    ] {
        world.place("requests.auth", &names, Payload::Opaque);
    }
    for names in [
        vec!["Response", "content"],
        vec!["Response", "close"],
        vec!["PreparedRequest", "copy"],
        vec!["PreparedRequest", "prepare_cookies"],
    ] {
        world.place("requests.models", &names, Payload::Opaque);
    }
    world
}

#[test]
fn basic_authentication_is_native_until_something_is_replaced() {
    let mut world = auth_world();
    let state = initialize_auth_state(&world.heap).unwrap();
    let username = world.text("user");
    let password = world.text("secret word");
    assert_eq!(basic_is_pristine(&world.heap, &state), Ok(true));
    assert_eq!(
        basic_auth_trial(&world.heap, &state, username, password),
        BasicPlan::Native
    );
    let subclass = world.class(0);
    let odd = world.add(subclass, Payload::Text(Some(String::from("user"))));
    assert!(is_non_exact_string_or_bytes_subclass(&world.heap, odd));
    assert_eq!(basic_auth_trial(&world.heap, &state, odd, password), BasicPlan::Fallback);
    let other = world.opaque();
    world.set(state.warnings, "warn", other);
    assert_eq!(basic_is_pristine(&world.heap, &state), Ok(false));
    assert_eq!(
        basic_auth_trial(&world.heap, &state, username, password),
        BasicPlan::Fallback
    );
}

#[test]
fn a_missing_object_stops_the_first_look() {
    let mut world = auth_world();
    let module = world.module("requests.auth");
    world.heap.objects[module].attributes.retain(|binding| binding.name != "urlparse");
    assert_eq!(initialize_auth_state(&world.heap).err(), Some(Failure::Attribute));
    assert_eq!(
        initialize_auth_state(&World::new().heap).err(),
        Some(Failure::Import)
    );
}

#[test]
fn foreign_digest_objects_are_not_pristine() {
    let mut world = auth_world();
    let state = initialize_auth_state(&world.heap).unwrap();
    let subject = world.opaque();
    assert_ne!(digest_is_pristine(&world.heap, &state, subject), Ok(true));
}

#[test]
fn basic_authentication_is_applied_by_the_class_met_first() {
    let mut world = auth_world();
    let state = initialize_auth_state(&world.heap).unwrap();
    let username = world.text("user");
    let password = world.text("secret word");
    for proxy in [false, true] {
        assert_eq!(
            basic_auth_apply_trial(&world.heap, &state, username, password, proxy),
            BasicPlan::Native
        );
    }
    let other = world.opaque();
    world.set(state.proxy_type, "__call__", other);
    assert_eq!(
        basic_auth_apply_trial(&world.heap, &state, username, password, true),
        BasicPlan::Fallback
    );
    assert_eq!(
        basic_auth_apply_trial(&world.heap, &state, username, password, false),
        BasicPlan::Native
    );
}

#[test]
fn a_digest_header_is_built_from_what_the_thread_holds() {
    let mut world = auth_world();
    let state = initialize_auth_state(&world.heap).unwrap();
    let subject = world.add(state.digest_type, Payload::Opaque);
    let username = world.text("user");
    let password = world.text("secret word");
    let thread_local = world.opaque();
    world.set(subject, "username", username);
    world.set(subject, "password", password);
    world.set(subject, "_thread_local", thread_local);
    let realm = world.text("realm of tests");
    let nonce = world.text("first");
    let none = world.none();
    let challenge = world.dict(&[("realm", realm), ("nonce", nonce), ("qop", none)]);
    let last = world.text("");
    let count = world.number(3);
    world.set(thread_local, "chal", challenge);
    world.set(thread_local, "last_nonce", last);
    world.set(thread_local, "nonce_count", count);
    let get = world.text("GET");
    let url = world.text("https://host/path");
    let ftp = world.text("ftp://host/path");
    let build = "build_digest_header";
    match digest_auth_trial(&world.heap, &state, subject, build, &vec![get, url]) {
        Ok(input) => {
            assert_eq!(input.request.username, "user");
            assert_eq!(input.request.password, "secret word");
            assert_eq!(input.request.method, "GET");
            assert_eq!(input.request.url, "https://host/path");
            assert_eq!(input.challenge.realm, "realm of tests");
            assert_eq!(input.challenge.nonce, "first");
            assert_eq!(input.challenge.qop, None);
            assert_eq!(input.challenge.algorithm, None);
            assert_eq!(input.state.last_nonce, "");
            assert_eq!(input.state.nonce_count, 3);
            assert_eq!(input.thread_local, thread_local);
        }
        Err(stop) => panic!("{stop:?}"),
    }
    let stopped = |heap: &Heap, arguments: Vec<usize>| {
        digest_auth_trial(heap, &state, subject, build, &arguments).err()
    };
    assert_eq!(stopped(&world.heap, vec![get, ftp]), Some(DigestStop::Fallback));
    assert_eq!(stopped(&world.heap, vec![get]), Some(DigestStop::Fallback));
    let unnamed = world.dict(&[("nonce", nonce)]);
    world.set(thread_local, "chal", unnamed);
    assert_eq!(stopped(&world.heap, vec![get, url]), Some(DigestStop::MissingRealm));
    let stale = world.dict(&[("realm", realm)]);
    world.set(thread_local, "chal", stale);
    assert_eq!(stopped(&world.heap, vec![get, url]), Some(DigestStop::MissingNonce));
    let odd = world.dict(&[("realm", count), ("nonce", nonce)]);
    world.set(thread_local, "chal", odd);
    assert_eq!(stopped(&world.heap, vec![get, url]), Some(DigestStop::NotText));
    world.heap.objects[thread_local].attributes.retain(|binding| binding.name != "chal");
    assert_eq!(
        stopped(&world.heap, vec![get, url]),
        Some(DigestStop::Failed(Failure::Attribute))
    );
}

#[test]
fn challenges_are_counted_on_exact_responses() {
    let mut world = auth_world();
    let state = initialize_auth_state(&world.heap).unwrap();
    let subject = world.add(state.digest_type, Payload::Opaque);
    let thread_local = world.opaque();
    let calls = world.number(1);
    world.set(subject, "_thread_local", thread_local);
    world.set(thread_local, "num_401_calls", calls);
    let response = world.add(state.response_type, Payload::Opaque);
    let request = world.add(state.prepared_request_type, Payload::Opaque);
    let headers = world.add(state.header_type, Payload::Opaque);
    let cookies = world.add(state.cookie_jar_type, Payload::Opaque);
    let status = world.number(401);
    world.set(response, "request", request);
    world.set(response, "headers", headers);
    world.set(response, "status_code", status);
    world.set(request, "headers", headers);
    world.set(request, "_cookies", cookies);
    assert_eq!(digest_401_trial(&world.heap, &state, subject, response), Ok(1));
    let odd = world.opaque();
    world.set(thread_local, "num_401_calls", odd);
    assert_eq!(
        digest_401_trial(&world.heap, &state, subject, response),
        Err(DigestStop::Fallback)
    );
    let two = world.number(2);
    world.set(odd, "__index__()", two);
    assert_eq!(digest_401_trial(&world.heap, &state, subject, response), Ok(2));
    world.set(thread_local, "num_401_calls", calls);
    let fine = world.number(200);
    world.set(response, "status_code", fine);
    assert_eq!(
        digest_401_trial(&world.heap, &state, subject, response),
        Err(DigestStop::Fallback)
    );
    let huge = world.number(1i128 << 70);
    world.set(response, "status_code", huge);
    assert_eq!(
        digest_401_trial(&world.heap, &state, subject, response),
        Err(DigestStop::Failed(Failure::Kind))
    );
    world.set(response, "status_code", status);
    let jar = world.opaque();
    world.set(request, "_cookies", jar);
    assert_eq!(
        digest_401_trial(&world.heap, &state, subject, response),
        Err(DigestStop::Fallback)
    );
}

#[test]
fn exact_values_are_read() {
    let mut world = World::new();
    let none = world.none();
    let yes = world.flag(true);
    let seven = world.number(7);
    let negative = world.number(-1);
    let huge = world.number(1i128 << 40);
    let name = world.text("name");
    let subclass = world.class(3);
    let odd = world.add(subclass, Payload::Int(Some(7)));
    assert_eq!(exact_bool(&world.heap, yes), Some(true));
    assert_eq!(exact_bool(&world.heap, seven), None);
    assert_eq!(retry_count(&world.heap, none), Some(RetryCount::Unlimited));
    assert_eq!(retry_count(&world.heap, yes), Some(RetryCount::Boolean(true)));
    assert_eq!(retry_count(&world.heap, seven), Some(RetryCount::Limited(7)));
    assert_eq!(retry_count(&world.heap, negative), None);
    assert_eq!(retry_count(&world.heap, huge), None);
    assert_eq!(retry_count(&world.heap, odd), None);
    assert_eq!(exact_string(&world.heap, name), Ok(Some(String::from("name"))));
    assert_eq!(exact_string(&world.heap, seven), Ok(None));
    assert_eq!(count_value(&world.heap, seven), Some(7));
    assert_eq!(count_value(&world.heap, negative), None);
    assert_eq!(exact_usize(&world.heap, seven), Some(7));
    assert_eq!(exact_usize(&world.heap, yes), None);
    assert!(chunk_size_is_valid(&world.heap, none));
    assert!(chunk_size_is_valid(&world.heap, odd));
    assert!(!chunk_size_is_valid(&world.heap, name));
    assert_eq!(value_record(&world.heap, none), RecordKind::Nothing);
    assert_eq!(value_record(&world.heap, name), RecordKind::Text);
    assert_eq!(value_record(&world.heap, yes), RecordKind::Number);
    let thing = world.opaque();
    assert_eq!(value_record(&world.heap, thing), RecordKind::Opaque);
}

#[test]
fn numbers_must_be_finite_and_not_negative() {
    let mut world = World::new();
    for (value, expected) in [
        (1.5f64, true),
        (0.0, true),
        (-0.0, true),
        (-1.0, false),
        (f64::INFINITY, false),
        (f64::NAN, false),
    ] {
        let object = world.opaque();
        let number = world.add(4, Payload::Float(value.to_bits()));
        world.set(object, "float()", number);
        assert_eq!(nonnegative_float(&world.heap, object).is_some(), expected);
    }
}

#[test]
fn methods_and_statuses_are_read_from_plain_collections() {
    let mut world = World::new();
    let get = world.text("GET");
    let put = world.text("PUT");
    let methods = world.add(9, Payload::FrozenSet(vec![get, put]));
    assert_eq!(
        string_set(&world.heap, methods),
        Ok(Some(Some(vec![String::from("GET"), String::from("PUT")])))
    );
    let none = world.none();
    assert_eq!(string_set(&world.heap, none), Ok(Some(None)));
    assert_eq!(string_set(&world.heap, get), Ok(None));
    let busy = world.number(503);
    let slow = world.number(429);
    let statuses = world.add(5, Payload::List(vec![busy, slow]));
    assert_eq!(status_set(&world.heap, statuses), Some(vec![503, 429]));
    let wide = world.number(70000);
    let broken = world.add(5, Payload::List(vec![busy, wide]));
    assert_eq!(status_set(&world.heap, broken), None);
}

#[test]
fn classes_are_matched_by_their_order() {
    let mut world = World::new();
    let error = world.class(16);
    let order = world.add(6, Payload::Tuple(vec![error, 16, 24, 12]));
    world.set(error, "__mro__", order);
    assert!(is_subclass(&world.heap, error, 16));
    assert!(!is_subclass(&world.heap, error, 15));
    assert!(validate_exception_class(&world.heap, error));
    assert!(!validate_exception_class(&world.heap, 0));
    let pair = world.add(6, Payload::Tuple(vec![15, 16]));
    assert_eq!(exception_matches(&world.heap, error, pair), Ok(true));
    assert_eq!(exception_matches(&world.heap, error, 15), Ok(false));
}

#[test]
fn errors_that_nobody_catches_go_on() {
    let mut world = World::new();
    let error = world.opaque();
    let globals = world.dict(&[]);
    assert_eq!(
        map_original_error(&world.heap, globals, MappingSite::Passthrough, error, 16),
        Mapped::Original
    );
}

#[test]
fn builtins_are_found_on_a_function_or_in_its_globals() {
    let mut world = World::new();
    let builtins = world.dict(&[]);
    let own = world.opaque();
    world.set(own, "__builtins__", builtins);
    assert_eq!(function_builtins(&world.heap, own), Ok(builtins));
    assert_eq!(function_builtins_dict(&world.heap, own), Ok(builtins));
    let shared = world.opaque();
    let module = world.add(28, Payload::Module);
    world.set(module, "__dict__", builtins);
    let globals = world.dict(&[("__builtins__", module)]);
    world.set(shared, "__globals__", globals);
    assert_eq!(function_builtins(&world.heap, shared), Ok(module));
    assert_eq!(function_builtins_dict(&world.heap, shared), Ok(builtins));
    let bare = world.opaque();
    let empty = world.dict(&[]);
    world.set(bare, "__globals__", empty);
    assert_eq!(function_builtins(&world.heap, bare), Err(Failure::Name));
    let nothing = world.opaque();
    assert_eq!(function_builtins(&world.heap, nothing), Err(Failure::Attribute));
    assert_eq!(backend_name(), "requests-native");
}

#[test]
fn global_names_come_before_built_in_ones() {
    let mut world = World::new();
    let first = world.opaque();
    let second = world.opaque();
    let globals = world.dict(&[("len", first)]);
    let builtins = world.dict(&[("len", second), ("ord", second)]);
    let resolver = GlobalResolver { globals, builtins };
    assert_eq!(resolver.get(&world.heap, "len"), Some(first));
    assert_eq!(resolver.get(&world.heap, "ord"), Some(second));
    assert_eq!(resolver.get(&world.heap, "chr"), None);
    assert!(resolver.has_all(&world.heap, &vec!["len", "ord"]));
    assert!(!resolver.has_all(&world.heap, &vec!["len", "chr"]));
    assert_eq!(live_adapter_global(&world.heap, globals, builtins, "ord"), Some(second));
}

#[test]
fn landmarks_are_found_below_modules() {
    let mut world = World::new();
    let object = world.place("requests.utils", &["outer", "inner"], Payload::Opaque);
    let module = world.module("requests.utils");
    assert_eq!(
        find_landmark(&world.heap, &Landmark::two("requests.utils", "outer", "inner")),
        Ok(object)
    );
    assert_eq!(
        find_landmark(&world.heap, &Landmark::module("requests.utils")),
        Ok(module)
    );
    assert_eq!(
        find_landmark(&world.heap, &Landmark::class("requests.utils", "outer")),
        Err(Failure::Kind)
    );
    assert_eq!(
        find_landmark(&world.heap, &Landmark::module("requests.nothing")),
        Err(Failure::Import)
    );
    assert!(Demand::Module.is_met(&world.heap, module));
    let outer = world.heap.attribute(module, "outer").unwrap();
    let held = vec![
        Expectation::new(module, "outer", outer),
        Expectation::new(outer, "inner", object),
    ];
    assert_eq!(check_expectations(&world.heap, &held), Ok(true));
    assert_eq!(check_attribute_is(&world.heap, module, "outer", object), Ok(false));
    assert_eq!(
        check_attribute_is(&world.heap, module, "missing", object),
        Err(Failure::Attribute)
    );
}

#[test]
fn a_fresh_proof_holds_until_a_fact_changes() {
    let mut world = World::new();
    let function = world.add(14, Payload::Function);
    let code = world.opaque();
    let none = world.none();
    let namespace = world.dict(&[]);
    let annotations = world.dict(&[]);
    world.set(function, "__code__", code);
    world.set(function, "__defaults__", none);
    world.set(function, "__kwdefaults__", none);
    world.set(function, "__closure__", none);
    world.set(function, "__dict__", namespace);
    world.set(function, "__annotations__", annotations);
    let facts = behavior_proof(&world.heap, function).unwrap();
    assert_eq!(check_facts(&world.heap, &facts), Ok(true));
    let other = world.opaque();
    world.set(function, "__code__", other);
    assert_eq!(check_facts(&world.heap, &facts), Ok(false));
}

#[test]
fn routing_tables_have_text_keys() {
    let mut world = World::new();
    let pool = world.opaque();
    let table = world.dict(&[("http", pool)]);
    assert!(routing_mapping_proof(&world.heap, table).is_ok());
    let key = world.number(1);
    let odd = world.add(10, Payload::Dict(vec![Pair { key, value: pool }]));
    assert!(routing_mapping_proof(&world.heap, odd).is_err());
    assert!(!keys_are_texts(&world.heap, &vec![Pair { key, value: pool }]));
    assert!(exact_dict(&world.heap, table).is_some());
    assert!(exact_dict(&world.heap, pool).is_none());
    assert!(!routing_keys_message().is_empty());
}

#[test]
fn equal_values_are_equal_dicts() {
    let mut world = World::new();
    let one = world.text("x");
    let same = world.text("x");
    let other = world.text("y");
    assert_eq!(exact_python_value_equal(&world.heap, one, same), Ok(true));
    assert_eq!(exact_python_value_equal(&world.heap, one, other), Ok(false));
    let left = world.dict(&[("a", one), ("b", other)]);
    let right = world.dict(&[("b", other), ("a", same)]);
    let short = world.dict(&[("a", one)]);
    assert!(exact_string_dict_equal(&world.heap, left, right));
    assert!(!exact_string_dict_equal(&world.heap, left, short));
}

#[test]
fn proxies_are_told_by_scheme() {
    assert_eq!(proxy_kind("http"), Some(ProxyKind::Http));
    assert_eq!(proxy_kind("socks5"), Some(ProxyKind::Socks5 { remote_dns: false }));
    assert_eq!(proxy_kind("socks5h"), Some(ProxyKind::Socks5 { remote_dns: true }));
    assert_eq!(proxy_kind("ftp"), None);
    assert!(is_socks_url("SOCKS5://localhost"));
    assert!(!is_socks_url("http://localhost"));
    assert!(socks_version("socks4").is_some());
    assert!(socks_version("http").is_none());
    let mut attempts = ProofAttempts::new();
    assert!(attempts.begin());
}

#[test]
fn selected_proxies_and_durations_are_read() {
    let mut world = World::new();
    let none = world.none();
    assert_eq!(selected_proxy(&world.heap, none), SelectedProxy::Direct);
    let named = world.text("http://proxy");
    assert_eq!(selected_proxy(&world.heap, named), SelectedProxy::Named);
    let number = world.number(1);
    assert_eq!(selected_proxy(&world.heap, number), SelectedProxy::Unsupported);
    assert_eq!(duration_value(&world.heap, none), Some(Span::Endless));
    let off = world.flag(false);
    assert!(is_unverified(&world.heap, off));
    assert!(!is_unverified(&world.heap, none));
    assert!(!AdmissionRefusal::ZeroPool.message().is_empty());
}

#[test]
fn verification_can_be_switched_off() {
    let mut world = World::new();
    let module = world.module("requests.adapters");
    let off = world.flag(false);
    let none = world.none();
    let plan = tls_value(&world.heap, module, off, none).unwrap().unwrap();
    assert!(matches!(plan.roots, Roots::Disabled));
    assert!(plan.identity.is_none());
}

#[test]
fn pools_are_keyed_by_where_they_lead() {
    let given = pool_key("https", "example.com", Some(443), "", "default", 10);
    let implied = pool_key("https", "example.com", None, "", "default", 10);
    assert_eq!(given, implied);
    assert_ne!(given, pool_key("http", "example.com", Some(443), "", "default", 10));
    assert_ne!(given, pool_key("https", "example.com", Some(443), "", "default", 11));
    assert_ne!(given, pool_key("https", "example.com", Some(44), "", "default", 10));
    assert_ne!(given, pool_key("https", "example.com", Some(80), "", "default", 10));
}

#[test]
fn bodies_of_requests_are_bytes_or_text() {
    let mut world = World::new();
    let request = world.opaque();
    let body = world.add(1, Payload::Bytes(vec![1, 2]));
    world.set(request, "body", body);
    assert_eq!(request_body(&world.heap, request), Ok(Some(Some(vec![1, 2]))));
    let none = world.none();
    world.set(request, "body", none);
    assert_eq!(request_body(&world.heap, request), Ok(Some(None)));
    let thing = world.opaque();
    world.set(request, "body", thing);
    assert_eq!(request_body(&world.heap, request), Ok(None));
}

#[test]
fn parameters_are_paired_in_order() {
    let mut world = World::new();
    let one = world.text("1");
    let two = world.add(1, Payload::Bytes(vec![50]));
    let none = world.none();
    let list = world.add(5, Payload::List(vec![one, none, two]));
    let params = world.dict(&[("a", list), ("b", one), ("c", none)]);
    let pairs = exact_query_pairs(&world.heap, params).unwrap();
    let plain: Vec<(Vec<u8>, Vec<u8>)> =
        pairs.into_iter().map(|pair| (pair.name, pair.value)).collect();
    assert_eq!(
        plain,
        vec![
            (b"a".to_vec(), b"1".to_vec()),
            (b"a".to_vec(), b"2".to_vec()),
            (b"b".to_vec(), b"1".to_vec())
        ]
    );
    assert_eq!(exact_parameter_bytes(&world.heap, one), Some(vec![49]));
    assert_eq!(exact_parameter_bytes(&world.heap, none), None);
    assert!(is_ascii_bytes(&vec![0, 127]));
    assert!(!is_ascii_bytes(&vec![128]));
}

#[test]
fn addresses_are_read_as_text() {
    let mut world = World::new();
    let url = world.text("http://example.com/");
    assert_eq!(
        exact_url_text(&world.heap, url),
        Ok(Some(String::from("http://example.com/")))
    );
    let (kind, message) = url_preparation_error(UrlPreparationError::MissingScheme, "host", "'host'");
    assert_eq!(kind, UrlErrorKind::MissingSchema);
    assert!(message.contains("No scheme supplied"));
    let (kind, _) = url_preparation_error(UrlPreparationError::MissingHost, "http://", "'http://'");
    assert_eq!(kind, UrlErrorKind::InvalidUrl);
}

#[test]
fn headers_are_taken_over_in_order() {
    let mut world = World::new();
    let value = world.text("value");
    let raw = world.add(1, Payload::Bytes(b"raw".to_vec()));
    let headers = world.dict(&[("First", value), ("Second", raw)]);
    let taken = exact_header_rows(&world.heap, headers).unwrap();
    assert_eq!(taken.rows.len(), 2);
    assert_eq!(taken.rows[1].value, raw);
    let name = taken.rows[0].name;
    assert!(exact_header_name_is_native(&world.heap, name));
    let prepared = vec![
        PreparedHeader { source_index: 0, name: String::from("First") },
        PreparedHeader { source_index: 1, name: String::from("Second") },
    ];
    let assignments = materialize_headers(&taken.rows, &prepared);
    assert_eq!(assignments.len(), 2);
    assert_eq!(assignments[1].value, raw);
    assert!(matches!(assignments[0].key, HeaderKey::Given(key) if key == name));
    assert_eq!(refused_object(&taken.rows, 1, InvalidHeaderPart::Value), raw);
    assert!(header_preparation_error(InvalidHeaderPart::Name, "' x'").contains("' x'"));
    assert_eq!(
        model_facade_operation("prepare_method", 1),
        Some(ModelOperation::PrepareMethod)
    );
    assert_eq!(model_facade_operation("prepare_cookies", 1), None);
}

#[test]
fn scalars_of_cookies_are_read_exactly() {
    let mut world = World::new();
    let none = world.none();
    let yes = world.flag(true);
    let five = world.number(5);
    let text = world.text("t");
    let thing = world.opaque();
    assert!(matches!(scalar_from_python(&world.heap, none), Ok(CookieScalar::Nothing)));
    assert!(matches!(scalar_from_python(&world.heap, yes), Ok(CookieScalar::Flag(true))));
    assert!(matches!(scalar_from_python(&world.heap, five), Ok(CookieScalar::Integer(5))));
    assert!(matches!(
        scalar_from_python(&world.heap, text),
        Ok(CookieScalar::Text(text)) if text == "t"
    ));
    assert!(matches!(
        scalar_from_python(&world.heap, thing),
        Err(SnapshotRefusal::RestValue)
    ));
    assert!(matches!(required_string(&world.heap, text), Ok(text) if text == "t"));
    assert!(required_string(&world.heap, none).is_err());
    assert!(matches!(optional_string(&world.heap, none), Ok(None)));
    assert!(optional_string(&world.heap, five).is_err());
    assert!(matches!(optional_integer(&world.heap, five), Ok(Some(5))));
    assert!(optional_integer(&world.heap, text).is_err());
    assert!(matches!(required_bool(&world.heap, yes), Ok(true)));
    assert!(required_bool(&world.heap, five).is_err());
    assert!(matches_exact_optional_string(&world.heap, none));
    assert!(!matches_exact_optional_string(&world.heap, five));
    assert!(callback_free_policy_value(&world.heap, none));
    assert!(!callback_free_policy_value(&world.heap, thing));
    let empty = world.add(6, Payload::Tuple(Vec::new()));
    assert!(empty_arguments_are_supported(&world.heap, empty));
    assert_eq!(jar_operation("mutate"), Some(JarOperation::Mutate));
    assert_eq!(jar_operation("eat"), None);
}

#[test]
fn unexpected_keywords_are_collected() {
    let mut world = World::new();
    let value = world.text("v");
    let known = world.text("domain");
    let unknown = world.text("samesite");
    let pairs = vec![Pair { key: known, value }, Pair { key: unknown, value }];
    assert_eq!(validate_create_kwargs(&world.heap, &pairs), vec![unknown]);
    let arguments = keyword_arguments(&world.heap, &vec![Pair { key: known, value }]).unwrap();
    assert_eq!(arguments.len(), 1);
    assert_eq!(arguments[0].name, "domain");
}

#[test]
fn built_in_names_are_intrinsic() {
    assert_eq!(
        intrinsic_builtin_for_name("len"),
        Some(IntrinsicBuiltin::Function(BuiltinName::Len))
    );
    assert_eq!(intrinsic_builtin_for_name("str"), Some(IntrinsicBuiltin::Str));
    assert_eq!(intrinsic_builtin_for_name("print"), None);
    let world = World::new();
    assert_eq!(
        intrinsic_builtin_is(&world.heap, 0, 0, IntrinsicBuiltin::Str),
        Ok(true)
    );
    assert_eq!(
        intrinsic_builtin_is(&world.heap, 0, 1, IntrinsicBuiltin::Str),
        Ok(false)
    );
}

#[test]
fn known_values_and_functions_have_a_home() {
    assert!(matches!(
        known_module_value("requests.utils", "UNRESERVED_SET"),
        Some(KnownValue::TextFrozenSet(CharacterSet::Unreserved))
    ));
    assert!(known_module_value("requests.utils", "nothing").is_none());
    assert!(matches!(
        known_python_function("requests.utils", "unquote_unreserved"),
        Some(KnownFunction::UnquoteUnreserved)
    ));
    assert_eq!(KnownFunction::ToStr.home_module(), "urllib3.util.util");
    assert!(known_pattern(KnownRegex::Percent).contains("%"));
    for index in 0..10 {
        assert_eq!(Anchor::at_index(index).index(), index);
        assert_eq!(Trust::at_index(index).index(), index);
    }
}

#[test]
fn code_is_found_by_its_scope() {
    let mut world = World::new();
    let inner = world.add(
        12,
        Payload::Code(CodeFacts { equality: 2, stored: Vec::new(), loaded: Vec::new() }),
    );
    let name = world.text("inner");
    world.set(inner, "co_name", name);
    let outer = world.add(
        12,
        Payload::Code(CodeFacts {
            equality: 1,
            stored: vec![String::from("inner")],
            loaded: Vec::new(),
        }),
    );
    let constants = world.add(6, Payload::Tuple(vec![inner]));
    world.set(outer, "co_consts", constants);
    world.heap.module_code.push(Binding { name: String::from("m"), value: outer });
    assert_eq!(find_code_by_scope(&world.heap, outer, "inner"), Some(inner));
    assert_eq!(find_code_by_scope(&world.heap, outer, "other"), None);
    assert!(canonical_module_binds(&world.heap, "m", "inner"));
    assert!(!canonical_module_binds(&world.heap, "m", "other"));
}

#[test]
fn an_empty_registry_knows_no_adapter() {
    let mut registry = Registry::new();
    assert!(registry.find(3).is_none());
    assert!(registry.query_pool(3, None, "key").is_none());
    assert!(registry.query_close(3).is_none());
    assert_eq!(registry.drop_adapter(3), Vec::<usize>::new());
    assert_eq!(registry.reap(3, 1), Vec::<usize>::new());
    assert_eq!(registry.adapters_with_pools(), 0);
    assert!(!PoolRefusal::NotRegistered.message().is_empty());
    assert!(!closing_changed_message().is_empty());
}
