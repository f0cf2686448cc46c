use requests_native::cookie_make::{
    detailed_cookie_rows, live_simple_cookie_rows, DetailedRow, SimpleRow,
};
use requests_native::cookie_shape::{raw_cookie_snapshot, snapshot_shape_is_supported};
use requests_native::cookie_state::{
    find_cookie_objects, initialize_cookie_state, load_live_cookielib_global,
    load_live_function_global,
    module_functions_are_pristine, threading_rlock_is_pristine, CookieFunction,
};
use requests_native::cookie_trial::{
    cookie_bridge_trial, cookie_jar_trial, cookie_operation_is_pristine, cookie_pipeline_trial,
    BridgePlan, JarPlan,
};
use requests_native::body_prepare::GlobalResolver;
use requests_native::heap::{Binding, Failure, Heap, Intrinsics, Pair, Payload, PyObject};

struct World {
    heap: Heap,
}

impl World {
    fn new() -> World {
        let mut objects = Vec::new();
        for _ in 0..29 {
            objects.push(PyObject { class: 11, payload: Payload::Type, attributes: Vec::new() });
        }
        let heap = Heap {
            objects,
            intrinsics: Intrinsics {
                text: 0,
                bytes: 1,
                boolean: 2,
                int: 3,
                float: 4,
                list: 5,
                tuple: 6,
                byte_array: 7,
                set: 8,
                frozen_set: 9,
                dict: 10,
                type_type: 11,
                object: 12,
                super_type: 13,
                function: 14,
                type_error: 15,
                value_error: 16,
                attribute_error: 17,
                runtime_error: 18,
                lookup_error: 19,
                unicode_decode_error: 20,
                unicode_encode_error: 21,
                import_error: 22,
                key_error: 23,
                base_exception: 24,
                static_method: 25,
                method_descriptor: 26,
                member_descriptor: 27,
                module_type: 28,
            },
            modules: Vec::new(),
            module_code: Vec::new(),
        };
        let mut world = World { heap };
        for class in 0..29 {
            let base = if (15..=23).contains(&class) { 24 } else { 12 };
            let mut order = vec![class, base];
            if class == 2 {
                order = vec![2, 3, 12];
            }
            let order = world.add(6, Payload::Tuple(order));
            world.set(class, "__mro__", order);
        }
        world
    }

    fn add(&mut self, class: usize, payload: Payload) -> usize {
        self.heap.objects.push(PyObject { class, payload, attributes: Vec::new() });
        self.heap.objects.len() - 1
    }

    fn set(&mut self, object: usize, name: &str, value: usize) {
        let attributes = &mut self.heap.objects[object].attributes;
        for binding in attributes.iter_mut() {
            if binding.name == name {
                binding.value = value;
                return;
            }
        }
        attributes.push(Binding { name: String::from(name), value });
    }

    fn text(&mut self, text: &str) -> usize {
        self.add(0, Payload::Text(Some(String::from(text))))
    }

    fn opaque(&mut self) -> usize {
        self.add(12, Payload::Opaque)
    }

    fn dict(&mut self, entries: &[(&str, usize)]) -> usize {
        let mut pairs = Vec::new();
        for (name, value) in entries {
            let key = self.text(name);
            pairs.push(Pair { key, value: *value });
        }
        self.add(10, Payload::Dict(pairs))
    }

    fn module(&mut self, name: &str) -> usize {
        for binding in &self.heap.modules {
            if binding.name == name {
                return binding.value;
            }
        }
        let module = self.add(28, Payload::Module);
        self.heap.modules.push(Binding { name: String::from(name), value: module });
        module
    }

    fn place(&mut self, module: &str, names: &[&str], payload: Payload) -> usize {
        let mut holder = self.module(module);
        for name in &names[..names.len() - 1] {
            holder = match self.heap.attribute(holder, name) {
                Some(value) => value,
                None => {
                    let value = self.opaque();
                    self.set(holder, name, value);
                    value
                }
            };
        }
        let class = match payload {
            Payload::Type => 11,
            _ => 12,
        };
        let object = self.add(class, payload);
        self.set(holder, names[names.len() - 1], object);
        object
    }
}

fn cookie_world() -> World {
    let mut world = World::new();
    world.module("pickle");
    world.module("copy");
    world.module("requests.models");
    world.module("http.cookiejar");
    world.module("requests.cookies");
    world.place("requests.cookies", &["RequestsCookieJar"], Payload::Type);
    world.place("http.cookiejar", &["CookieJar"], Payload::Type);
    world.place("http.cookiejar", &["DefaultCookiePolicy"], Payload::Type);
    world.place("http.cookiejar", &["Cookie"], Payload::Type);
    world.place("http.cookies", &["Morsel"], Payload::Type);
    world.place("requests.models", &["PreparedRequest"], Payload::Type);
    world.place("requests.models", &["Response"], Payload::Type);
    world.place("requests.cookies", &["MockRequest"], Payload::Type);
    world.place("requests.cookies", &["MockResponse"], Payload::Type);
    world.place("requests.cookies", &["threading"], Payload::Module);
    world.place("requests.cookies", &["cookielib", "Cookie"], Payload::Opaque);
    world.place("requests.cookies", &["cookielib", "deepvalues", "__code__"], Payload::Opaque);
    world.place("requests.cookies", &["threading", "RLock", "__code__"], Payload::Opaque);
    world.place("requests.cookies", &["create_cookie", "__code__"], Payload::Opaque);
    world.place("requests.cookies", &["morsel_to_cookie", "__code__"], Payload::Opaque);
    world.place("requests.cookies", &["remove_cookie_by_name", "__code__"], Payload::Opaque);
    world.place("requests.cookies", &["get_cookie_header", "__code__"], Payload::Opaque);
    world.place("requests.cookies", &["extract_cookies_to_jar", "__code__"], Payload::Opaque);
    world.place("requests.cookies", &["RequestsCookieJar", "__getattribute__"], Payload::Opaque);
    world.place("requests.cookies", &["RequestsCookieJar", "__iter__"], Payload::Opaque);
    world.place("requests.cookies", &["RequestsCookieJar", "__contains__"], Payload::Opaque);
    world.place("requests.cookies", &["RequestsCookieJar", "set"], Payload::Opaque);
    world.place("requests.cookies", &["RequestsCookieJar", "set_cookie"], Payload::Opaque);
    world.place("requests.cookies", &["RequestsCookieJar", "get_dict"], Payload::Opaque);
    world.place("requests.cookies", &["RequestsCookieJar", "copy"], Payload::Opaque);
    world.place("requests.cookies", &["RequestsCookieJar", "update"], Payload::Opaque);
    world.place("requests.cookies", &["RequestsCookieJar", "set_policy"], Payload::Opaque);
    world.place("requests.cookies", &["RequestsCookieJar", "get_policy"], Payload::Opaque);
    world.place("requests.cookies", &["RequestsCookieJar", "__getstate__"], Payload::Opaque);
    world.place("requests.cookies", &["RequestsCookieJar", "__setstate__"], Payload::Opaque);
    world.place("http.cookiejar", &["CookieJar", "__getattribute__"], Payload::Opaque);
    world.place("http.cookiejar", &["CookieJar", "__iter__"], Payload::Opaque);
    world.place("http.cookiejar", &["CookieJar", "set_cookie"], Payload::Opaque);
    world.place("http.cookiejar", &["CookieJar", "clear"], Payload::Opaque);
    world.place("http.cookiejar", &["CookieJar", "add_cookie_header"], Payload::Opaque);
    world.place("http.cookiejar", &["CookieJar", "extract_cookies"], Payload::Opaque);
    world.place("http.cookiejar", &["CookieJar", "set_policy"], Payload::Opaque);
    world.place("requests.cookies", &["RequestsCookieJar", "iterkeys"], Payload::Opaque);
    world.place("requests.cookies", &["RequestsCookieJar", "keys"], Payload::Opaque);
    world.place("requests.cookies", &["RequestsCookieJar", "itervalues"], Payload::Opaque);
    world.place("requests.cookies", &["RequestsCookieJar", "values"], Payload::Opaque);
    world.place("requests.cookies", &["RequestsCookieJar", "iteritems"], Payload::Opaque);
    world.place("requests.cookies", &["RequestsCookieJar", "items"], Payload::Opaque);
    world.place("requests.cookies", &["RequestsCookieJar", "list_domains"], Payload::Opaque);
    world.place("requests.cookies", &["RequestsCookieJar", "list_paths"], Payload::Opaque);
    world.place("requests.cookies", &["RequestsCookieJar", "multiple_domains"], Payload::Opaque);
    world.place("requests.cookies", &["RequestsCookieJar", "__getitem__"], Payload::Opaque);
    world.place("requests.cookies", &["RequestsCookieJar", "get"], Payload::Opaque);
    world.place("requests.cookies", &["RequestsCookieJar", "_find_no_duplicates"], Payload::Opaque);
    world.place("requests.models", &["PreparedRequest", "prepare_cookies"], Payload::Opaque);
    world.place("requests.cookies", &["time", "time"], Payload::Opaque);
    world.place("requests.cookies", &["time", "strptime"], Payload::Opaque);
    world.place("requests.cookies", &["calendar", "timegm"], Payload::Opaque);
    world.place("copy", &["copy"], Payload::Opaque);
    world.place("pickle", &["dumps"], Payload::Opaque);
    world.place("pickle", &["loads"], Payload::Opaque);
    world.place("http.cookies", &["Morsel", "__getitem__"], Payload::Opaque);
    world.place("http.cookies", &["Morsel", "key"], Payload::Opaque);
    world.place("http.cookies", &["Morsel", "value"], Payload::Opaque);
    world.place("requests.cookies", &["create_cookie", "__builtins__"], Payload::Dict(Vec::new()));
    world.place("requests.cookies", &["threading", "RLock", "()"], Payload::Opaque);
    let getattribute = world.opaque();
    world.set(12, "__getattribute__", getattribute);
    let module = world.module("requests.cookies");
    let mut entries = Vec::new();
    for name in [
        "create_cookie",
        "morsel_to_cookie",
        "remove_cookie_by_name",
        "get_cookie_header",
        "extract_cookies_to_jar",
    ] {
        let value = world.heap.attribute(module, name).unwrap();
        entries.push((name, value));
    }
    let namespace = world.dict(&entries);
    world.set(module, "__dict__", namespace);
    world
}

fn every_function() -> Vec<CookieFunction> {
    vec![
        CookieFunction::CreateCookie,
        CookieFunction::MorselToCookie,
        CookieFunction::RemoveCookieByName,
        CookieFunction::GetCookieHeader,
        CookieFunction::ExtractCookiesToJar,
    ]
}

#[test]
fn functions_of_the_cookie_module_are_held_against_the_first_look() {
    let mut world = cookie_world();
    let state = initialize_cookie_state(&world.heap).unwrap();
    assert_eq!(
        module_functions_are_pristine(&world.heap, &state.objects, &every_function()),
        Ok(true)
    );
    let module = world.module("requests.cookies");
    let function = world.heap.attribute(module, "create_cookie").unwrap();
    let code = world.opaque();
    world.set(function, "__code__", code);
    assert_eq!(
        module_functions_are_pristine(&world.heap, &state.objects, &every_function()),
        Ok(false)
    );
}

#[test]
fn a_replaced_lock_is_noticed() {
    let mut world = cookie_world();
    let state = initialize_cookie_state(&world.heap).unwrap();
    let module = world.module("requests.cookies");
    let threading = world.heap.attribute(module, "threading").unwrap();
    let other = world.opaque();
    world.set(threading, "RLock", other);
    assert_ne!(threading_rlock_is_pristine(&world.heap, &state.objects), Ok(true));
}

#[test]
fn jars_of_foreign_classes_are_left_to_python() {
    let mut world = cookie_world();
    let state = initialize_cookie_state(&world.heap).unwrap();
    let jar = world.opaque();
    let request = world.opaque();
    let response = world.opaque();
    let fallback = world.opaque();
    let arguments = world.add(6, Payload::Tuple(Vec::new()));
    assert_ne!(
        cookie_operation_is_pristine(&world.heap, &state, jar, "inspect", arguments),
        Ok(true)
    );
    for operation in ["inspect", "mutate", "bad-create", "morsel", "copy-pickle", "other"] {
        assert!(matches!(
            cookie_jar_trial(&world.heap, &state, fallback, jar, operation, arguments),
            Ok(JarPlan::Fallback)
        ));
    }
    for operation in ["header", "extract-header", "other"] {
        assert!(matches!(
            cookie_bridge_trial(&world.heap, &state, fallback, jar, request, operation),
            Ok(BridgePlan::Fallback)
        ));
    }
    assert!(matches!(
        cookie_pipeline_trial(&world.heap, &state, fallback, jar, request, response),
        Ok(None)
    ));
    assert_ne!(snapshot_shape_is_supported(&world.heap, &state, jar), Ok(true));
    assert!(raw_cookie_snapshot(&world.heap, &state, jar).is_err());
}

#[test]
fn a_missing_cookie_function_stops_the_first_look() {
    let mut world = cookie_world();
    let module = world.module("requests.cookies");
    world.heap.objects[module].attributes.retain(|binding| binding.name != "morsel_to_cookie");
    assert_eq!(find_cookie_objects(&world.heap).err(), Some(Failure::Attribute));
}

#[test]
fn live_globals_are_looked_up_when_they_are_needed() {
    let mut world = World::new();
    let value = world.opaque();
    let globals = world.dict(&[("time", value)]);
    let builtins = world.dict(&[]);
    let resolver = GlobalResolver { globals, builtins };
    assert_eq!(load_live_function_global(&world.heap, &resolver, "time"), Ok(value));
    assert_eq!(
        load_live_function_global(&world.heap, &resolver, "calendar"),
        Err(Failure::Name)
    );
}

#[test]
fn the_cookie_library_is_looked_up_as_code_does() {
    let mut world = cookie_world();
    let state = initialize_cookie_state(&world.heap).unwrap();
    let objects = &state.objects;
    assert_eq!(load_live_cookielib_global(&world.heap, objects), Err(Failure::Name));
    let builtin = world.opaque();
    let key = world.text("cookielib");
    world.heap.objects[objects.create_cookie_builtins].payload =
        Payload::Dict(vec![Pair { key, value: builtin }]);
    assert_eq!(load_live_cookielib_global(&world.heap, objects), Ok(builtin));
    let own = world.opaque();
    let namespace = world.dict(&[("cookielib", own)]);
    world.set(objects.module, "__dict__", namespace);
    assert_eq!(load_live_cookielib_global(&world.heap, objects), Ok(own));
}

#[test]
fn cookies_are_shown_in_rows() {
    let mut world = World::new();
    let mut cookies = Vec::new();
    let mut rows = Vec::new();
    for _ in 0..2 {
        let cookie = world.opaque();
        let mut values = Vec::new();
        for name in ["name", "value", "domain", "path", "secure", "expires", "discard", "_rest"] {
            let value = world.opaque();
            world.set(cookie, name, value);
            values.push(value);
        }
        let simple =
            SimpleRow { name: values[0], value: values[1], domain: values[2], path: values[3] };
        cookies.push(cookie);
        rows.push(DetailedRow {
            simple,
            secure: values[4],
            expires: values[5],
            discard: values[6],
            rest: values[7],
        });
    }
    let simple: Vec<SimpleRow> = rows.iter().map(|row| row.simple).collect();
    assert_eq!(live_simple_cookie_rows(&world.heap, &cookies), Ok(simple.clone()));
    assert_eq!(detailed_cookie_rows(&world.heap, &cookies), Ok(rows));
    let bare = world.opaque();
    cookies.push(bare);
    assert_eq!(live_simple_cookie_rows(&world.heap, &cookies), Err(Failure::Attribute));
    assert_eq!(detailed_cookie_rows(&world.heap, &cookies), Err(Failure::Attribute));
}
