use requests_native::canonical::canonical_function_is;
use requests_native::headers::prepare_headers_trial;
use requests_native::heap::{
    Binding, CodeFacts, Failure, Heap, Intrinsics, Pair, Payload, PyObject,
};
use requests_native::model_state::{
    find_anchor, initialize_models_state, trusted_bound_method_with_callable, Anchor, ModelsFault,
    ModelsState, Trust, ANCHORS, TRUSTS,
};
use requests_native::prepare::{
    prepare_method_trial, prepare_url_trial, MethodPlan, UrlFacts, UrlPlan, UrlPreparationError,
};
use requests_native::response_state::{
    exact_operation, initialize_response_state, type_is_current, ResponseFault, ResponseGlobal,
    ResponseMember, GLOBALS, MEMBERS,
};

const TEXT: usize = 0;
const BYTES: usize = 1;
const BOOLEAN: usize = 2;
const NUMBER: usize = 3;
const FLOAT: usize = 4;
const TUPLE: usize = 6;
const FROZEN: usize = 9;
const DICT: usize = 10;
const TYPE: usize = 11;
const OBJECT: usize = 12;
const MODULE: usize = 28;

struct World {
    heap: Heap,
}

impl World {
    fn new() -> World {
        let mut objects = Vec::new();
        for _ in 0..29 {
            objects.push(PyObject { class: TYPE, payload: Payload::Type, attributes: Vec::new() });
        }
        let heap = Heap {
            objects,
            intrinsics: Intrinsics {
                text: TEXT,
                bytes: BYTES,
                boolean: BOOLEAN,
                int: NUMBER,
                float: FLOAT,
                list: 5,
                tuple: TUPLE,
                byte_array: 7,
                set: 8,
                frozen_set: FROZEN,
                dict: DICT,
                type_type: TYPE,
                object: OBJECT,
                super_type: 13,
                function: 14,
                type_error: 15,
                value_error: 16,
                attribute_error: 17,
                runtime_error: 18,
                lookup_error: 19,
                unicode_decode_error: 20,
                unicode_encode_error: 21,
                import_error: 22,
                key_error: 23,
                base_exception: 24,
                static_method: 25,
                method_descriptor: 26,
                member_descriptor: 27,
                module_type: MODULE,
            },
            modules: Vec::new(),
            module_code: Vec::new(),
        };
        let mut world = World { heap };
        let bases = world.add(TUPLE, Payload::Tuple(Vec::new()));
        let names = world.add(OBJECT, Payload::Mapping(Vec::new()));
        for class in 0..29 {
            world.set(class, "__bases__", bases);
            world.set(class, "__dict__", names);
        }
        world
    }

    fn add(&mut self, class: usize, payload: Payload) -> usize {
        self.heap.objects.push(PyObject { class, payload, attributes: Vec::new() });
        self.heap.objects.len() - 1
    }

    fn set(&mut self, object: usize, name: &str, value: usize) {
        let attributes = &mut self.heap.objects[object].attributes;
        for binding in attributes.iter_mut() {
            if binding.name == name {
                binding.value = value;
                return;
            }
        }
        attributes.push(Binding { name: String::from(name), value });
    }

    fn unset(&mut self, object: usize, name: &str) {
        self.heap.objects[object].attributes.retain(|binding| binding.name != name);
    }

    fn text(&mut self, text: &str) -> usize {
        self.add(TEXT, Payload::Text(Some(String::from(text))))
    }

    fn number(&mut self, value: i128) -> usize {
        let number = self.add(NUMBER, Payload::Int(Some(value)));
        let float = self.add(FLOAT, Payload::Float((value as f64).to_bits()));
        self.set(number, "float()", float);
        number
    }

    fn float(&mut self, value: f64) -> usize {
        let number = self.add(FLOAT, Payload::Float(value.to_bits()));
        self.set(number, "float()", number);
        number
    }

    fn flag(&mut self, value: bool) -> usize {
        self.add(BOOLEAN, Payload::Bool(value))
    }

    fn none(&mut self) -> usize {
        self.add(OBJECT, Payload::NoneValue)
    }

    fn opaque(&mut self, class: usize) -> usize {
        self.add(class, Payload::Opaque)
    }

    fn pairs(&mut self, entries: &[(&str, usize)]) -> Vec<Pair> {
        let mut pairs = Vec::new();
        for (name, value) in entries {
            let key = self.text(name);
            pairs.push(Pair { key, value: *value });
        }
        pairs
    }

    fn dict(&mut self, entries: &[(&str, usize)]) -> usize {
        let pairs = self.pairs(entries);
        self.add(DICT, Payload::Dict(pairs))
    }

    fn class(&mut self, entries: &[(&str, usize)]) -> usize {
        let class = self.add(TYPE, Payload::Type);
        let pairs = self.pairs(entries);
        let names = self.add(OBJECT, Payload::Mapping(pairs));
        let bases = self.add(TUPLE, Payload::Tuple(vec![OBJECT]));
        self.set(class, "__dict__", names);
        self.set(class, "__bases__", bases);
        for (name, value) in entries {
            self.set(class, name, *value);
        }
        class
    }

    fn module(&mut self, name: &str, entries: &[(&str, usize)]) -> usize {
        let module = self.add(MODULE, Payload::Module);
        let names = self.dict(entries);
        self.set(module, "__dict__", names);
        for (entry, value) in entries {
            self.set(module, entry, *value);
        }
        self.heap.modules.push(Binding { name: String::from(name), value: module });
        module
    }
}

const FUNCTION: usize = 14;

impl World {
    fn code(&mut self, name: &str) -> usize {
        let equality = self.heap.objects.len() as u64;
        let facts = CodeFacts { equality, stored: Vec::new(), loaded: Vec::new() };
        let code = self.add(OBJECT, Payload::Code(facts));
        let own = self.text(name);
        let none = self.add(TUPLE, Payload::Tuple(Vec::new()));
        self.set(code, "co_name", own);
        self.set(code, "co_consts", none);
        code
    }

    fn attribute(&self, object: usize, name: &str) -> usize {
        match self.heap.attribute(object, name) {
            Some(value) => value,
            None => panic!("{name} is missing"),
        }
    }

    fn bind(&mut self, dictionary: usize, name: &str, value: usize) {
        let key = self.text(name);
        match &mut self.heap.objects[dictionary].payload {
            Payload::Dict(pairs) | Payload::Mapping(pairs) => pairs.push(Pair { key, value }),
            _ => panic!("a dict is expected"),
        }
    }

    fn rebind(&mut self, dictionary: usize, name: &str, value: usize) {
        let key = self.text(name);
        let World { heap } = self;
        let mut place = None;
        match &heap.objects[dictionary].payload {
            Payload::Dict(pairs) | Payload::Mapping(pairs) => {
                for (index, pair) in pairs.iter().enumerate() {
                    if heap.text(pair.key).map(String::as_str) == Some(name) {
                        place = Some(index);
                    }
                }
            }
            _ => panic!("a dict is expected"),
        }
        match (&mut heap.objects[dictionary].payload, place) {
            (Payload::Dict(pairs), Some(place)) | (Payload::Mapping(pairs), Some(place)) => {
                pairs[place] = Pair { key, value };
            }
            _ => panic!("{name} is missing"),
        }
    }

    /// The code of a name inside other code, which is made where it is missing.
    fn nested(&mut self, scope: usize, name: &str) -> usize {
        let constants = self.attribute(scope, "co_consts");
        let known = match &self.heap.objects[constants].payload {
            Payload::Tuple(known) => known.clone(),
            _ => panic!("a tuple is expected"),
        };
        for code in known {
            let own = self.attribute(code, "co_name");
            if self.heap.text(own).map(String::as_str) == Some(name) {
                return code;
            }
        }
        let code = self.code(name);
        match &mut self.heap.objects[constants].payload {
            Payload::Tuple(known) => known.push(code),
            _ => panic!("a tuple is expected"),
        }
        code
    }

    fn home(&mut self, name: &str, table: usize) -> usize {
        for binding in &self.heap.modules {
            if binding.name == name {
                return binding.value;
            }
        }
        let module = self.module(name, &[("__builtins__", table)]);
        let own = self.text(name);
        self.set(module, "__name__", own);
        let root = self.code("<module>");
        self.heap.module_code.push(Binding { name: String::from(name), value: root });
        module
    }

    fn define(&mut self, module: &str, qualname: &str, table: usize) -> usize {
        let home = self.home(module, table);
        let mut code = 0;
        for binding in &self.heap.module_code {
            if binding.name == module {
                code = binding.value;
            }
        }
        for part in qualname.split('.') {
            code = self.nested(code, part);
        }
        let globals = self.attribute(home, "__dict__");
        let function = self.add(FUNCTION, Payload::Function);
        let home_name = self.text(module);
        let own = self.text(qualname);
        let none = self.none();
        for (attribute, value) in [
            ("__module__", home_name),
            ("__qualname__", own),
            ("__code__", code),
            ("__globals__", globals),
            ("__builtins__", table),
            ("__defaults__", none),
            ("__kwdefaults__", none),
        ] {
            self.set(function, attribute, value);
        }
        function
    }

    fn ordered_class(&mut self, bases: &[usize], entries: &[(&str, usize)]) -> usize {
        let class = self.class(entries);
        let mut order = vec![class];
        order.extend_from_slice(bases);
        order.push(OBJECT);
        let order = self.add(TUPLE, Payload::Tuple(order));
        self.set(class, "__mro__", order);
        class
    }

    fn method(&mut self, class: usize, subject: usize, function: usize) -> usize {
        let method = self.opaque(class);
        self.set(method, "__func__", function);
        self.set(method, "__self__", subject);
        method
    }
}

struct Models {
    world: World,
    class: usize,
    method_type: usize,
    prepare_method: usize,
    prepare_headers: usize,
    prepare_url: usize,
}

fn models() -> Models {
    let mut world = World::new();
    let get = world.opaque(OBJECT);
    let set = world.opaque(OBJECT);
    let pairs = world.pairs(&[("__getattribute__", get), ("__setattr__", set)]);
    let names = world.add(OBJECT, Payload::Mapping(pairs));
    world.set(OBJECT, "__dict__", names);
    let order = world.add(TUPLE, Payload::Tuple(vec![OBJECT]));
    world.set(OBJECT, "__mro__", order);

    let isinstance = world.add(OBJECT, Payload::BuiltinFunction);
    let name = world.text("isinstance");
    let builtins_name = world.text("builtins");
    world.set(isinstance, "__name__", name);
    world.set(isinstance, "__module__", builtins_name);
    let entries = [("isinstance", isinstance), ("str", TEXT), ("bytes", BYTES)];
    let table = world.dict(&entries);
    let builtins = world.module("builtins", &entries);
    world.set(isinstance, "__self__", builtins);

    let method_type = world.class(&[]);
    world.module("types", &[("MethodType", method_type)]);
    for name in [
        "requests._internal_utils",
        "requests.models",
        "requests.structures",
        "requests.utils",
    ] {
        world.home(name, table);
    }

    let prepare_method = world.define("requests.models", "PreparedRequest.prepare_method", table);
    let prepare_headers =
        world.define("requests.models", "PreparedRequest.prepare_headers", table);
    let prepare_url = world.define("requests.models", "PreparedRequest.prepare_url", table);
    let encode =
        world.define("requests.models", "RequestEncodingMixin._encode_params", table);
    let descriptor = world.opaque(25);
    world.set(descriptor, "__func__", encode);
    let mixin = world.ordered_class(&[], &[("_encode_params", descriptor)]);
    let class = world.ordered_class(
        &[mixin],
        &[
            ("prepare_method", prepare_method),
            ("prepare_headers", prepare_headers),
            ("prepare_url", prepare_url),
        ],
    );

    let init = world.define("requests.structures", "CaseInsensitiveDict.__init__", table);
    let none = world.none();
    let defaults = world.add(TUPLE, Payload::Tuple(vec![none]));
    world.set(init, "__defaults__", defaults);
    let store = world.define("requests.structures", "CaseInsensitiveDict.__setitem__", table);
    let update = world.define("_collections_abc", "MutableMapping.update", table);
    let empty = world.add(TUPLE, Payload::Tuple(Vec::new()));
    let defaults = world.add(TUPLE, Payload::Tuple(vec![empty]));
    world.set(update, "__defaults__", defaults);
    let new = world.opaque(OBJECT);
    let headers = world.ordered_class(
        &[],
        &[("__init__", init), ("__setitem__", store), ("update", update), ("__new__", new)],
    );

    let native = world.define("requests._internal_utils", "to_native_string", table);
    let ascii = world.text("ascii");
    let defaults = world.add(TUPLE, Payload::Tuple(vec![ascii]));
    world.set(native, "__defaults__", defaults);
    let internal = world.home("requests._internal_utils", table);
    let internal = world.attribute(internal, "__dict__");
    world.bind(internal, "builtin_str", TEXT);
    let is_ascii = world.define("requests._internal_utils", "unicode_is_ascii", table);
    let parse = world.define("urllib3.util.url", "parse_url", table);
    let requote = world.define("requests.utils", "requote_uri", table);
    let unparse = world.define("urllib.parse", "urlunparse", table);
    let check = world.define("requests.utils", "check_header_validity", table);
    let part = world.define("requests.utils", "_validate_header_part", table);

    let module = world.home("requests.models", table);
    let globals = world.attribute(module, "__dict__");
    let invalid = world.opaque(TYPE);
    let location = world.opaque(TYPE);
    let missing = world.opaque(TYPE);
    let texts_or_bytes = world.add(TUPLE, Payload::Tuple(vec![TEXT, BYTES]));
    for (name, value) in [
        ("basestring", texts_or_bytes),
        ("PreparedRequest", class),
        ("RequestEncodingMixin", mixin),
        ("CaseInsensitiveDict", headers),
        ("check_header_validity", check),
        ("to_native_string", native),
        ("InvalidURL", invalid),
        ("LocationParseError", location),
        ("MissingSchema", missing),
        ("parse_url", parse),
        ("requote_uri", requote),
        ("unicode_is_ascii", is_ascii),
        ("urlunparse", unparse),
    ] {
        world.bind(globals, name, value);
    }
    let ordered = world.class(&[]);
    let module = world.home("requests.structures", table);
    let globals = world.attribute(module, "__dict__");
    world.bind(globals, "OrderedDict", ordered);
    let module = world.home("requests.utils", table);
    let globals = world.attribute(module, "__dict__");
    let texts = world.opaque(TUPLE);
    let bytes = world.opaque(TUPLE);
    let header = world.opaque(TYPE);
    for (name, value) in [
        ("_validate_header_part", part),
        ("_HEADER_VALIDATORS_STR", texts),
        ("_HEADER_VALIDATORS_BYTE", bytes),
        ("InvalidHeader", header),
        ("str", TEXT),
        ("bytes", BYTES),
    ] {
        world.bind(globals, name, value);
    }
    Models { world, class, method_type, prepare_method, prepare_headers, prepare_url }
}

fn state(models: &Models) -> ModelsState {
    for place in 0..ANCHORS {
        let anchor = Anchor::at_index(place);
        assert!(find_anchor(&models.world.heap, anchor).is_some(), "{anchor:?}");
    }
    match initialize_models_state(&models.world.heap) {
        Ok(state) => state,
        Err(fault) => panic!("{fault:?}"),
    }
}

fn request(models: &mut Models) -> usize {
    let subject = models.world.opaque(models.class);
    let none = models.world.none();
    let own = models.world.dict(&[("method", none), ("headers", none)]);
    models.world.set(subject, "__dict__", own);
    subject
}

#[test]
fn the_models_are_remembered_with_their_functions() {
    let models = models();
    let state = state(&models);
    assert_eq!(state.anchors.len(), ANCHORS);
    assert_eq!(state.trusts.len(), TRUSTS);
    assert_eq!(state.anchor(Anchor::PreparedRequest), models.class);
    assert_eq!(state.anchor(Anchor::PrepareMethod), models.prepare_method);
    for place in 0..TRUSTS {
        let trust = Trust::at_index(place);
        assert_eq!(
            canonical_function_is(
                &models.world.heap,
                state.anchor(trust.object()),
                state.trust(trust)
            ),
            Ok(true),
            "{trust:?}"
        );
    }
}

fn missing(anchor: Anchor, failure: Failure) -> ModelsFault {
    ModelsFault::Missing { anchor, failure }
}

#[test]
fn without_one_of_the_modules_nothing_is_remembered() {
    for (name, fault) in [
        ("types", missing(Anchor::MethodType, Failure::Import)),
        ("urllib.parse", ModelsFault::Unloadable(Trust::UrlUnparse)),
        ("requests.utils", missing(Anchor::Utils, Failure::Import)),
        ("builtins", missing(Anchor::Builtins, Failure::Import)),
    ] {
        let mut models = models();
        models.world.heap.modules.retain(|binding| binding.name != name);
        assert_eq!(initialize_models_state(&models.world.heap).err(), Some(fault), "{name}");
    }
    let mut unloaded = models();
    unloaded.world.heap.module_code.retain(|binding| binding.name != "urllib3.util.url");
    assert_eq!(
        initialize_models_state(&unloaded.world.heap).err(),
        Some(ModelsFault::Unloadable(Trust::ParseUrl))
    );
    let mut bare = models();
    let names = bare.world.add(OBJECT, Payload::Mapping(Vec::new()));
    bare.world.set(bare.class, "__dict__", names);
    assert_eq!(
        initialize_models_state(&bare.world.heap).err(),
        Some(missing(Anchor::PrepareMethod, Failure::Attribute))
    );
    bare.world.heap.objects[bare.class].payload = Payload::Opaque;
    assert_eq!(
        initialize_models_state(&bare.world.heap).err(),
        Some(missing(Anchor::PreparedRequest, Failure::Kind))
    );
}

#[test]
fn methods_are_prepared_natively_while_nothing_is_replaced() {
    let mut models = models();
    let state = state(&models);
    let subject = request(&mut models);
    let function = models.prepare_method;
    let callable = models.world.method(models.method_type, subject, function);
    let get = models.world.text("get");
    let single = models.world.text("g");
    let wide = models.world.text("g\u{e9}t");
    let bytes = models.world.add(BYTES, Payload::Bytes(b"get".to_vec()));
    let none = models.world.none();
    let number = models.world.number(1);
    let heap = &models.world.heap;
    let plan = |method: usize| prepare_method_trial(heap, Some(&state), subject, callable, method);
    assert_eq!(plan(get), Ok(MethodPlan::Native));
    assert_eq!(plan(bytes), Ok(MethodPlan::Native));
    assert_eq!(plan(none), Ok(MethodPlan::SetNone));
    for method in [single, wide, number] {
        assert_eq!(plan(method), Ok(MethodPlan::CallPython));
    }
    assert_eq!(
        prepare_method_trial(heap, None, subject, callable, get),
        Ok(MethodPlan::CallPython)
    );
    assert_eq!(
        trusted_bound_method_with_callable(
            heap,
            &state,
            subject,
            "prepare_method",
            callable,
            function,
            state.trust(Trust::PrepareMethod)
        ),
        Ok(true)
    );
}

#[test]
fn a_replaced_method_stays_with_python() {
    let mut shadowed = models();
    let known = state(&shadowed);
    let subject = request(&mut shadowed);
    let callable =
        shadowed.world.method(shadowed.method_type, subject, shadowed.prepare_method);
    let get = shadowed.world.text("get");
    let own = shadowed.world.attribute(subject, "__dict__");
    shadowed.world.bind(own, "prepare_method", get);
    assert_eq!(
        prepare_method_trial(&shadowed.world.heap, Some(&known), subject, callable, get),
        Ok(MethodPlan::CallPython)
    );

    let mut patched = models();
    let known = state(&patched);
    let subject = request(&mut patched);
    let callable = patched.world.method(patched.method_type, subject, patched.prepare_method);
    let get = patched.world.text("get");
    let names = patched.world.attribute(patched.class, "__dict__");
    let other = patched.world.opaque(OBJECT);
    patched.world.rebind(names, "prepare_method", other);
    assert_eq!(
        prepare_method_trial(&patched.world.heap, Some(&known), subject, callable, get),
        Ok(MethodPlan::CallPython)
    );

    let mut derived = models();
    let known = state(&derived);
    let subject = request(&mut derived);
    let class = derived.world.ordered_class(&[derived.class], &[]);
    derived.world.heap.objects[subject].class = class;
    let callable = derived.world.method(derived.method_type, subject, derived.prepare_method);
    let get = derived.world.text("get");
    assert_eq!(
        prepare_method_trial(&derived.world.heap, Some(&known), subject, callable, get),
        Ok(MethodPlan::CallPython)
    );
}

#[test]
fn urls_are_prepared_as_the_core_answers() {
    let mut models = models();
    let state = state(&models);
    let subject = request(&mut models);
    let callable = models.world.method(models.method_type, subject, models.prepare_url);
    let url = models.world.text(" http://host/");
    let none = models.world.none();
    let query = models.world.text("a=b");
    let facts = |non_http: bool, native_safe: bool, failure: Option<UrlPreparationError>| UrlFacts {
        trimmed: String::from("http://host/"),
        non_http,
        native_safe,
        failure,
    };
    let heap = &models.world.heap;
    let plan = |params: usize, facts: UrlFacts| {
        prepare_url_trial(heap, Some(&state), subject, callable, url, params, &facts)
    };
    match plan(none, facts(false, true, None)) {
        Ok(UrlPlan::SetPrepared(parameters)) => assert_eq!(parameters, ""),
        _ => panic!("the URL is prepared"),
    }
    match plan(query, facts(false, true, None)) {
        Ok(UrlPlan::SetPrepared(parameters)) => assert_eq!(parameters, "a=b"),
        _ => panic!("the URL is prepared with its parameters"),
    }
    assert!(matches!(plan(none, facts(true, true, None)), Ok(UrlPlan::SetTrimmed)));
    assert!(matches!(plan(none, facts(false, false, None)), Ok(UrlPlan::CallPython)));
    assert!(matches!(
        plan(none, facts(false, true, Some(UrlPreparationError::MissingHost))),
        Ok(UrlPlan::Fail(UrlPreparationError::MissingHost))
    ));
    assert!(matches!(plan(subject, facts(false, true, None)), Ok(UrlPlan::CallPython)));
    let trimmed = models.world.text("http://host/");
    assert!(matches!(
        prepare_url_trial(
            &models.world.heap,
            Some(&state),
            subject,
            callable,
            trimmed,
            none,
            &facts(true, true, None)
        ),
        Ok(UrlPlan::KeepInput)
    ));
}

#[test]
fn headers_are_taken_over_from_exact_dicts() {
    let mut models = models();
    let state = state(&models);
    let subject = request(&mut models);
    let callable = models.world.method(models.method_type, subject, models.prepare_headers);
    let none = models.world.none();
    match prepare_headers_trial(&models.world.heap, Some(&state), subject, callable, none) {
        Ok(Some(taken)) => assert_eq!(taken.rows.len(), 0),
        _ => panic!("no headers are taken over"),
    }
    let plain = models.world.text("text/plain");
    let number = models.world.number(1);
    let accepted = models.world.dict(&[("Accept", plain)]);
    let refused = models.world.dict(&[("Accept", number)]);
    match prepare_headers_trial(&models.world.heap, Some(&state), subject, callable, accepted) {
        Ok(Some(taken)) => assert_eq!(taken.rows.len(), 1),
        _ => panic!("one header is taken over"),
    }
    assert!(matches!(
        prepare_headers_trial(&models.world.heap, Some(&state), subject, callable, refused),
        Ok(None)
    ));
    let list = models.world.add(5, Payload::List(Vec::new()));
    assert!(matches!(
        prepare_headers_trial(&models.world.heap, Some(&state), subject, callable, list),
        Ok(None)
    ));
    assert!(matches!(
        prepare_headers_trial(&models.world.heap, None, subject, callable, none),
        Ok(None)
    ));
    let own = models.world.attribute(subject, "__dict__");
    let kept = models.world.text("kept");
    models.world.rebind(own, "headers", kept);
    assert!(matches!(
        prepare_headers_trial(&models.world.heap, Some(&state), subject, callable, none),
        Ok(None)
    ));
    models.world.unset(subject, "__dict__");
    assert!(matches!(
        prepare_headers_trial(&models.world.heap, Some(&state), subject, callable, none),
        Err(Failure::Attribute)
    ));
}

struct Responses {
    world: World,
    class: usize,
    globals: usize,
    table: usize,
}

fn responses() -> Responses {
    let mut world = World::new();
    let get = world.opaque(OBJECT);
    let set = world.opaque(OBJECT);
    let entries = [("__getattribute__", get), ("__setattr__", set)];
    let pairs = world.pairs(&entries);
    let names = world.add(OBJECT, Payload::Mapping(pairs));
    world.set(OBJECT, "__dict__", names);
    for (name, value) in entries {
        world.set(OBJECT, name, value);
    }
    let cast = world.opaque(OBJECT);
    world.module("typing", &[("cast", cast)]);
    let protocol = world.class(&[]);
    world.module("urllib3.exceptions", &[("ProtocolError", protocol)]);
    let table = world.dict(&[]);
    let none = world.none();
    let mut members = Vec::new();
    for place in 0..MEMBERS {
        let member = ResponseMember::at_index(place);
        let function = world.define("requests.models", member.qualified_name(), table);
        world.set(function, "__closure__", none);
        if member.property() {
            let property = world.opaque(OBJECT);
            world.set(property, "fget", function);
            members.push((member.name(), property));
        } else {
            members.push((member.name(), function));
        }
    }
    let class = world.ordered_class(&[], &members);
    let module = world.home("requests.models", table);
    let globals = world.attribute(module, "__dict__");
    world.set(module, "Response", class);
    world.bind(globals, "Response", class);
    world.bind(globals, "ProtocolError", protocol);
    Responses { world, class, globals, table }
}

#[test]
fn responses_are_native_while_their_class_is_what_it_was() {
    let mut responses = responses();
    let state = match initialize_response_state(&responses.world.heap) {
        Ok(state) => state,
        Err(fault) => panic!("{fault:?}"),
    };
    assert!(state.trusted_at_import);
    assert_eq!(state.response_type, responses.class);
    assert_eq!(state.descriptors.len(), MEMBERS);
    assert_eq!(state.descriptors[0].builtins, responses.table);
    assert_eq!(state.globals.len(), GLOBALS);
    assert!(type_is_current(&responses.world.heap, &state, responses.class));
    assert!(!type_is_current(&responses.world.heap, &state, OBJECT));
    let subject = responses.world.opaque(responses.class);
    let own = responses.world.dict(&[]);
    responses.world.set(subject, "__dict__", own);
    for place in 0..MEMBERS {
        assert_eq!(
            exact_operation(
                &responses.world.heap,
                &state,
                subject,
                ResponseMember::at_index(place),
                &vec![ResponseGlobal::ProtocolError]
            ),
            Ok(true)
        );
    }
    let foreign = responses.world.opaque(OBJECT);
    assert_eq!(
        exact_operation(
            &responses.world.heap,
            &state,
            foreign,
            ResponseMember::Content,
            &Vec::new()
        ),
        Ok(false)
    );
    let other = responses.world.class(&[]);
    let globals = responses.globals;
    responses.world.rebind(globals, "ProtocolError", other);
    assert_eq!(
        exact_operation(
            &responses.world.heap,
            &state,
            subject,
            ResponseMember::Content,
            &vec![ResponseGlobal::ProtocolError]
        ),
        Ok(false)
    );
    responses.world.bind(own, "iter_content", other);
    assert_eq!(
        exact_operation(
            &responses.world.heap,
            &state,
            subject,
            ResponseMember::IterContent,
            &Vec::new()
        ),
        Ok(false)
    );
    let names = responses.world.attribute(responses.class, "__dict__");
    responses.world.rebind(names, "content", other);
    assert_eq!(
        exact_operation(
            &responses.world.heap,
            &state,
            subject,
            ResponseMember::Content,
            &Vec::new()
        ),
        Ok(false)
    );
}

#[test]
fn a_response_class_without_a_member_is_not_remembered() {
    let mut unloaded = responses();
    unloaded.world.heap.module_code.clear();
    assert_eq!(
        initialize_response_state(&unloaded.world.heap).err(),
        Some(ResponseFault::MissingCode(ResponseMember::at_index(0)))
    );
    let mut bare = responses();
    let names = bare.world.add(OBJECT, Payload::Mapping(Vec::new()));
    bare.world.set(bare.class, "__dict__", names);
    assert_eq!(
        initialize_response_state(&bare.world.heap).err(),
        Some(ResponseFault::MissingMember(ResponseMember::at_index(0)))
    );
    assert_eq!(
        initialize_response_state(&World::new().heap).err(),
        Some(ResponseFault::Failed(Failure::Import))
    );
}

#[test]
fn a_class_that_was_changed_before_is_never_native() {
    let mut responses = responses();
    let names = responses.world.attribute(responses.class, "__dict__");
    let close = match responses.world.heap.raw_type_entry(responses.class, "close") {
        Some(close) => close,
        None => panic!("the class has the member"),
    };
    let code = responses.world.code("close");
    responses.world.set(close, "__code__", code);
    responses.world.rebind(names, "close", close);
    let state = match initialize_response_state(&responses.world.heap) {
        Ok(state) => state,
        Err(fault) => panic!("{fault:?}"),
    };
    assert!(!state.trusted_at_import);
    assert!(!type_is_current(&responses.world.heap, &state, responses.class));
}
