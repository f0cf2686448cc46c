use requests_native::adapter_state::{
    adapter_identity_is_pristine, canonical_routing_mapping_is_pristine,
    canonical_routing_sources_are_pristine, initialize_adapter_state, routing_mapping_proof,
    routing_mapping_snapshot, AdapterFault, AdapterState, RoutingProof,
};
use requests_native::behavior::{behavior_proof, check_facts, dict_proof, mapping_proof};
use requests_native::heap::{Binding, Failure, Heap, Intrinsics, Pair, Payload, PyObject};
use requests_native::managers::{
    exact_dict_has_keys, manager_immutable_proof_is_pristine, manager_pools_proof,
    manager_pools_proof_is_pristine, manager_proof, manager_proof_is_pristine,
    stable_manager_pools_proof, ManagerAttempt, ManagerRecord, ProxyManagerConfiguration,
};
use requests_native::registry::{
    adapter_register_trial, closes_natively, record_visible_proxy_manager,
    registered_adapter_pristine, CloseCall, CloseEvent, CloseState, CloseStep, Commit,
    Confirmation, EntryProofs, InspectCall, InspectEvent, InspectState, ProxyCalls, RecordCall,
    RecordEvent, RecordState, Registry, VisibleAttempt,
};
use requests_native::sending::{handler_catches, HandlerCall};

const TEXT: usize = 0;
const BYTES: usize = 1;
const BOOLEAN: usize = 2;
const NUMBER: usize = 3;
const FLOAT: usize = 4;
const TUPLE: usize = 6;
const FROZEN: usize = 9;
const DICT: usize = 10;
const TYPE: usize = 11;
const OBJECT: usize = 12;
const MODULE: usize = 28;

struct World {
    heap: Heap,
}

impl World {
    fn new() -> World {
        let mut objects = Vec::new();
        for _ in 0..29 {
            objects.push(PyObject { class: TYPE, payload: Payload::Type, attributes: Vec::new() });
        }
        let heap = Heap {
            objects,
            intrinsics: Intrinsics {
                text: TEXT,
                bytes: BYTES,
                boolean: BOOLEAN,
                int: NUMBER,
                float: FLOAT,
                list: 5,
                tuple: TUPLE,
                byte_array: 7,
                set: 8,
                frozen_set: FROZEN,
                dict: DICT,
                type_type: TYPE,
                object: OBJECT,
                super_type: 13,
                function: 14,
                type_error: 15,
                value_error: 16,
                attribute_error: 17,
                runtime_error: 18,
                lookup_error: 19,
                unicode_decode_error: 20,
                unicode_encode_error: 21,
                import_error: 22,
                key_error: 23,
                base_exception: 24,
                static_method: 25,
                method_descriptor: 26,
                member_descriptor: 27,
                module_type: MODULE,
            },
            modules: Vec::new(),
            module_code: Vec::new(),
        };
        let mut world = World { heap };
        let bases = world.add(TUPLE, Payload::Tuple(Vec::new()));
        let names = world.add(OBJECT, Payload::Mapping(Vec::new()));
        for class in 0..29 {
            world.set(class, "__bases__", bases);
            world.set(class, "__dict__", names);
        }
        world
    }

    fn add(&mut self, class: usize, payload: Payload) -> usize {
        self.heap.objects.push(PyObject { class, payload, attributes: Vec::new() });
        self.heap.objects.len() - 1
    }

    fn set(&mut self, object: usize, name: &str, value: usize) {
        let attributes = &mut self.heap.objects[object].attributes;
        for binding in attributes.iter_mut() {
            if binding.name == name {
                binding.value = value;
                return;
            }
        }
        attributes.push(Binding { name: String::from(name), value });
    }

    fn unset(&mut self, object: usize, name: &str) {
        self.heap.objects[object].attributes.retain(|binding| binding.name != name);
    }

    fn text(&mut self, text: &str) -> usize {
        self.add(TEXT, Payload::Text(Some(String::from(text))))
    }

    fn number(&mut self, value: i128) -> usize {
        let number = self.add(NUMBER, Payload::Int(Some(value)));
        let float = self.add(FLOAT, Payload::Float((value as f64).to_bits()));
        self.set(number, "float()", float);
        number
    }

    fn float(&mut self, value: f64) -> usize {
        let number = self.add(FLOAT, Payload::Float(value.to_bits()));
        self.set(number, "float()", number);
        number
    }

    fn flag(&mut self, value: bool) -> usize {
        self.add(BOOLEAN, Payload::Bool(value))
    }

    fn none(&mut self) -> usize {
        self.add(OBJECT, Payload::NoneValue)
    }

    fn opaque(&mut self, class: usize) -> usize {
        self.add(class, Payload::Opaque)
    }

    fn pairs(&mut self, entries: &[(&str, usize)]) -> Vec<Pair> {
        let mut pairs = Vec::new();
        for (name, value) in entries {
            let key = self.text(name);
            pairs.push(Pair { key, value: *value });
        }
        pairs
    }

    fn dict(&mut self, entries: &[(&str, usize)]) -> usize {
        let pairs = self.pairs(entries);
        self.add(DICT, Payload::Dict(pairs))
    }

    fn class(&mut self, entries: &[(&str, usize)]) -> usize {
        let class = self.add(TYPE, Payload::Type);
        let pairs = self.pairs(entries);
        let names = self.add(OBJECT, Payload::Mapping(pairs));
        let bases = self.add(TUPLE, Payload::Tuple(vec![OBJECT]));
        self.set(class, "__dict__", names);
        self.set(class, "__bases__", bases);
        for (name, value) in entries {
            self.set(class, name, *value);
        }
        class
    }

    fn module(&mut self, name: &str, entries: &[(&str, usize)]) -> usize {
        let module = self.add(MODULE, Payload::Module);
        let names = self.dict(entries);
        self.set(module, "__dict__", names);
        for (entry, value) in entries {
            self.set(module, entry, *value);
        }
        self.heap.modules.push(Binding { name: String::from(name), value: module });
        module
    }
}

struct Managers {
    world: World,
    manager: usize,
    pools: usize,
    container: usize,
    headers: usize,
    classes: RoutingProof,
    keys: RoutingProof,
}

fn routing(world: &World, mapping: usize) -> RoutingProof {
    match routing_mapping_proof(&world.heap, mapping) {
        Ok(proof) => proof,
        Err(failure) => panic!("{failure:?}"),
    }
}

fn managers() -> Managers {
    let mut world = World::new();
    let http = world.opaque(OBJECT);
    let https = world.opaque(OBJECT);
    let pool_classes = world.dict(&[("http", http), ("https", https)]);
    let key_functions = world.dict(&[("http", http)]);
    let manager_class = world.class(&[]);
    let pools_class = world.class(&[]);
    let manager = world.opaque(manager_class);
    let pools = world.opaque(pools_class);
    let pool = world.opaque(OBJECT);
    let container = world.dict(&[("origin", pool)]);
    let one = world.number(1);
    let limit = world.number(10);
    let agent = world.text("agent");
    let headers = world.dict(&[("User-Agent", agent)]);
    let arguments = world.dict(&[("maxsize", limit)]);
    for (name, value) in [("_container", container), ("len()", one)] {
        world.set(pools, name, value);
    }
    let pools_names = world.dict(&[("_container", container), ("_maxsize", limit)]);
    world.set(pools, "__dict__", pools_names);
    let manager_names = world.dict(&[("pools", pools), ("headers", headers)]);
    for (name, value) in [
        ("pools", pools),
        ("headers", headers),
        ("connection_pool_kw", arguments),
        ("pool_classes_by_scheme", pool_classes),
        ("key_fn_by_scheme", key_functions),
        ("__dict__", manager_names),
    ] {
        world.set(manager, name, value);
    }
    let classes = routing(&world, pool_classes);
    let keys = routing(&world, key_functions);
    Managers { world, manager, pools, container, headers, classes, keys }
}

fn taken(managers: &Managers) -> ManagerRecord {
    let heap = &managers.world.heap;
    match manager_proof(heap, heap, managers.manager, &managers.classes, &managers.keys) {
        Ok(ManagerAttempt::Taken(record)) => record,
        Ok(_) => panic!("the manager is not recorded"),
        Err(failure) => panic!("{failure:?}"),
    }
}

fn add_pool(managers: &mut Managers) {
    let pool = managers.world.opaque(OBJECT);
    let key = managers.world.text("another");
    match &mut managers.world.heap.objects[managers.container].payload {
        Payload::Dict(pairs) => pairs.push(Pair { key, value: pool }),
        _ => panic!("a dict is expected"),
    }
    let two = managers.world.number(2);
    managers.world.set(managers.pools, "len()", two);
}

#[test]
fn an_unchanged_manager_keeps_its_record() {
    let managers = managers();
    let record = taken(&managers);
    assert_eq!(record.manager.manager, managers.manager);
    assert_eq!(record.pools.pools, managers.pools);
    assert_eq!(record.pools.count, 1);
    let names: Vec<&str> =
        record.manager.mappings.iter().map(|named| named.name.as_str()).collect();
    assert_eq!(
        names,
        vec!["headers", "connection_pool_kw", "pool_classes_by_scheme", "key_fn_by_scheme"]
    );
    assert_eq!(
        manager_proof_is_pristine(&managers.world.heap, managers.manager, &record),
        Ok(true)
    );
    assert_eq!(
        manager_proof_is_pristine(&managers.world.heap, managers.pools, &record),
        Ok(false)
    );
}

#[test]
fn a_new_pool_changes_the_pools_alone() {
    let mut managers = managers();
    let record = taken(&managers);
    add_pool(&mut managers);
    let heap = &managers.world.heap;
    assert_eq!(
        manager_immutable_proof_is_pristine(heap, managers.manager, &record.manager),
        Ok(true)
    );
    assert_eq!(
        manager_pools_proof_is_pristine(heap, managers.manager, &record.pools),
        Ok(false)
    );
    assert_eq!(manager_proof_is_pristine(heap, managers.manager, &record), Ok(false));
    match manager_pools_proof(heap, managers.manager) {
        Ok(pools) => assert_eq!(pools.count, 2),
        Err(failure) => panic!("{failure:?}"),
    }
}

#[test]
fn a_wrong_length_is_noticed() {
    let mut managers = managers();
    let record = taken(&managers);
    let two = managers.world.number(2);
    managers.world.set(managers.pools, "len()", two);
    assert_eq!(
        manager_pools_proof_is_pristine(&managers.world.heap, managers.manager, &record.pools),
        Ok(false)
    );
    managers.world.unset(managers.pools, "len()");
    assert_eq!(
        manager_pools_proof_is_pristine(&managers.world.heap, managers.manager, &record.pools),
        Err(Failure::Attribute)
    );
}

#[test]
fn a_changed_header_ends_the_record() {
    let mut managers = managers();
    let record = taken(&managers);
    let other = managers.world.text("other");
    match &mut managers.world.heap.objects[managers.headers].payload {
        Payload::Dict(pairs) => pairs[0].value = other,
        _ => panic!("a dict is expected"),
    }
    assert_eq!(
        manager_proof_is_pristine(&managers.world.heap, managers.manager, &record),
        Ok(false)
    );
}

#[test]
fn a_change_between_two_looks_asks_for_another_try() {
    let before = managers();
    let mut after = managers();
    add_pool(&mut after);
    match manager_proof(
        &before.world.heap,
        &after.world.heap,
        before.manager,
        &before.classes,
        &before.keys,
    ) {
        Ok(ManagerAttempt::Again) => {}
        _ => panic!("another try is due"),
    }
    match stable_manager_pools_proof(&before.world.heap, &after.world.heap, before.manager) {
        Ok(None) => {}
        _ => panic!("another try is due"),
    }
    match stable_manager_pools_proof(&before.world.heap, &before.world.heap, before.manager) {
        Ok(Some(pools)) => assert_eq!(pools.pools, before.pools),
        _ => panic!("the pools did not change"),
    }
}

#[test]
fn other_routes_are_refused() {
    let mut managers = managers();
    let class = managers.world.opaque(OBJECT);
    let own = managers.world.dict(&[("http", class)]);
    managers.world.set(managers.manager, "pool_classes_by_scheme", own);
    let heap = &managers.world.heap;
    match manager_proof(heap, heap, managers.manager, &managers.classes, &managers.keys) {
        Ok(ManagerAttempt::Refused) => {}
        _ => panic!("the manager routes otherwise"),
    }
    managers.world.unset(managers.manager, "key_fn_by_scheme");
    let heap = &managers.world.heap;
    match manager_proof(heap, heap, managers.manager, &managers.classes, &managers.keys) {
        Ok(ManagerAttempt::Refused) => {}
        _ => panic!("the manager has no key functions"),
    }
}

#[test]
fn routing_mappings_are_dicts_of_texts() {
    let mut managers = managers();
    let mapping = managers.classes.mapping;
    assert_eq!(
        canonical_routing_mapping_is_pristine(&managers.world.heap, mapping, &managers.classes),
        Ok(true)
    );
    let key = managers.world.number(1);
    let odd = managers.world.add(DICT, Payload::Dict(vec![Pair { key, value: key }]));
    assert!(routing_mapping_snapshot(&managers.world.heap, odd).is_none());
    assert!(routing_mapping_snapshot(&managers.world.heap, mapping).is_some());
    assert_eq!(
        canonical_routing_mapping_is_pristine(&managers.world.heap, odd, &managers.classes),
        Ok(false)
    );
    let names = vec!["http", "https"];
    assert!(exact_dict_has_keys(
        &managers.world.heap,
        &managers.classes.entries,
        &names
    ));
    let fewer = vec!["http"];
    assert!(!exact_dict_has_keys(
        &managers.world.heap,
        &managers.classes.entries,
        &fewer
    ));
}

#[test]
fn a_class_is_observed_with_its_functions() {
    let mut world = World::new();
    let none = world.none();
    let code = world.opaque(OBJECT);
    let function = world.add(14, Payload::Function);
    let names = world.dict(&[]);
    let annotations = world.dict(&[]);
    for (name, value) in [
        ("__code__", code),
        ("__defaults__", none),
        ("__kwdefaults__", none),
        ("__closure__", none),
        ("__annotations__", annotations),
        ("__dict__", names),
    ] {
        world.set(function, name, value);
    }
    let class = world.class(&[("run", function)]);
    let facts = match behavior_proof(&world.heap, class) {
        Ok(facts) => facts,
        Err(failure) => panic!("{failure:?}"),
    };
    assert_eq!(check_facts(&world.heap, &facts), Ok(true));
    let other = world.opaque(OBJECT);
    world.set(function, "__code__", other);
    assert_eq!(check_facts(&world.heap, &facts), Ok(false));
    world.set(function, "__code__", code);
    assert_eq!(check_facts(&world.heap, &facts), Ok(true));
    world.unset(function, "__defaults__");
    assert_eq!(check_facts(&world.heap, &facts), Err(Failure::Attribute));
    assert!(matches!(behavior_proof(&world.heap, class), Err(Failure::Attribute)));
}

#[test]
fn name_spaces_and_mappings_are_observed_by_their_entries() {
    let mut world = World::new();
    let value = world.opaque(OBJECT);
    let names = world.dict(&[("a", value)]);
    let holder = world.opaque(OBJECT);
    world.set(holder, "__dict__", names);
    let (of_holder, of_mapping) =
        match (dict_proof(&world.heap, holder), mapping_proof(&world.heap, names)) {
            (Ok(first), Ok(second)) => (first, second),
            _ => panic!("both are observed"),
        };
    assert_eq!(check_facts(&world.heap, &of_holder), Ok(true));
    assert_eq!(check_facts(&world.heap, &of_mapping), Ok(true));
    let key = world.text("b");
    match &mut world.heap.objects[names].payload {
        Payload::Dict(pairs) => pairs.push(Pair { key, value }),
        _ => panic!("a dict is expected"),
    }
    assert_eq!(check_facts(&world.heap, &of_holder), Ok(false));
    assert_eq!(check_facts(&world.heap, &of_mapping), Ok(false));
    assert!(matches!(mapping_proof(&world.heap, value), Err(Failure::Kind)));
}

#[test]
fn clauses_look_their_names_up_when_they_are_asked() {
    let mut world = World::new();
    let order = world.add(TUPLE, Payload::Tuple(vec![24]));
    world.set(24, "__mro__", order);
    let mut classes = Vec::new();
    for _ in 0..2 {
        let class = world.class(&[]);
        let order = world.add(TUPLE, Payload::Tuple(vec![class, 24]));
        world.set(class, "__mro__", order);
        classes.push(class);
    }
    let globals = world.dict(&[("ProtocolError", classes[0]), ("MaxRetryError", classes[1])]);
    let builtins = world.dict(&[("OSError", classes[1])]);
    let asked = |heap: &Heap, class: usize, call: HandlerCall| {
        handler_catches(heap, globals, builtins, class, call)
    };
    assert_eq!(asked(&world.heap, classes[0], HandlerCall::CatchConnection), Ok(true));
    assert_eq!(asked(&world.heap, classes[1], HandlerCall::CatchConnection), Ok(true));
    assert_eq!(asked(&world.heap, classes[0], HandlerCall::CatchMaxRetry), Ok(false));
    assert_eq!(asked(&world.heap, classes[1], HandlerCall::CatchMaxRetry), Ok(true));
    assert_eq!(
        asked(&world.heap, classes[0], HandlerCall::CatchClosedPool),
        Err(Failure::Name)
    );
}

struct Adapters {
    world: World,
    module: usize,
    adapter: usize,
    manager: usize,
    proxies: usize,
    proxy_class: usize,
    pool_classes: usize,
    key_functions: usize,
}

impl Adapters {
    fn pools(&mut self) -> usize {
        let class = self.world.class(&[]);
        let pools = self.world.opaque(class);
        let container = self.world.dict(&[]);
        let none = self.world.none();
        let zero = self.world.number(0);
        let ten = self.world.number(10);
        let names = self.world.dict(&[("_container", container)]);
        for (name, value) in [
            ("_container", container),
            ("_maxsize", ten),
            ("dispose_func", none),
            ("len()", zero),
            ("__dict__", names),
        ] {
            self.world.set(pools, name, value);
        }
        pools
    }

    fn manager(&mut self, class: usize, arguments: usize) -> usize {
        let manager = self.world.opaque(class);
        let pools = self.pools();
        let headers = self.world.dict(&[]);
        let names = self.world.dict(&[("pools", pools)]);
        for (name, value) in [
            ("pools", pools),
            ("headers", headers),
            ("connection_pool_kw", arguments),
            ("pool_classes_by_scheme", self.pool_classes),
            ("key_fn_by_scheme", self.key_functions),
            ("__dict__", names),
        ] {
            self.world.set(manager, name, value);
        }
        manager
    }

    fn parsed(&mut self, port: usize) -> usize {
        let url = self.world.opaque(OBJECT);
        let none = self.world.none();
        let scheme = self.world.text("http");
        let host = self.world.text("proxy");
        for (name, value) in [
            ("scheme", scheme),
            ("auth", none),
            ("host", host),
            ("port", port),
            ("path", none),
            ("query", none),
            ("fragment", none),
        ] {
            self.world.set(url, name, value);
        }
        url
    }

    /// A manager for `http://proxy`, bound in the adapter's dict, and what
    /// Python gives for that URL.
    fn add_proxy(&mut self) -> ProxyCalls {
        let eighty = self.world.number(80);
        let none = self.world.none();
        let proxy = self.parsed(eighty);
        let parsed = self.parsed(none);
        let no = self.world.flag(false);
        let ten = self.world.number(10);
        let headers = self.world.dict(&[]);
        let expected = self.world.dict(&[]);
        let config = self.world.opaque(OBJECT);
        self.world.set(config, "ssl_context", none);
        self.world.set(config, "use_forwarding_for_https", no);
        let arguments = self.world.dict(&[
            ("maxsize", ten),
            ("block", no),
            ("_proxy", proxy),
            ("_proxy_headers", headers),
            ("_proxy_config", config),
        ]);
        let manager = self.manager(self.proxy_class, arguments);
        for (name, value) in [
            ("proxy", proxy),
            ("proxy_headers", headers),
            ("proxy_config", config),
            ("proxy_ssl_context", none),
        ] {
            self.world.set(manager, name, value);
        }
        let key = self.world.text("http://proxy");
        match &mut self.world.heap.objects[self.proxies].payload {
            Payload::Dict(pairs) => pairs.push(Pair { key, value: manager }),
            _ => panic!("a dict is expected"),
        }
        ProxyCalls { parsed, extra: expected }
    }
}

const CONFIGURATION: ProxyManagerConfiguration =
    ProxyManagerConfiguration { pool_connections: 10, pool_maxsize: 10, pool_block: false };

fn adapters() -> Adapters {
    let mut world = World::new();
    let get = world.opaque(OBJECT);
    let request = world.class(&[("__getattribute__", get)]);
    world.module("requests.models", &[("PreparedRequest", request)]);
    let http = world.opaque(OBJECT);
    let pool_classes = world.dict(&[("http", http)]);
    let key_functions = world.dict(&[("http", http)]);
    let pool_class = world.class(&[]);
    let proxy_class = world.class(&[]);
    world.module(
        "urllib3.poolmanager",
        &[
            ("ProxyManager", proxy_class),
            ("pool_classes_by_scheme", pool_classes),
            ("key_fn_by_scheme", key_functions),
        ],
    );
    let isinstance = world.opaque(OBJECT);
    let builtins = world.dict(&[("isinstance", isinstance)]);
    let mut errors = Vec::new();
    for name in [
        "LocationValueError",
        "InvalidURL",
        "ProtocolError",
        "OSError",
        "MaxRetryError",
        "ConnectTimeoutError",
        "NewConnectionError",
        "ConnectTimeout",
        "ResponseError",
        "RetryError",
        "_ProxyError",
        "ProxyError",
        "_SSLError",
        "SSLError",
        "ClosedPoolError",
        "_HTTPError",
        "ReadTimeoutError",
        "ReadTimeout",
        "_InvalidHeader",
        "InvalidHeader",
        "ConnectionError",
    ] {
        errors.push((name, world.class(&[])));
    }
    let globals = world.dict(&errors);
    let mut methods = Vec::new();
    for name in [
        "__getattribute__",
        "__setstate__",
        "send",
        "close",
        "build_response",
        "get_connection_with_tls_context",
        "cert_verify",
        "request_url",
        "add_headers",
        "proxy_headers",
        "proxy_manager_for",
        "build_connection_pool_key_attributes",
    ] {
        let method = world.opaque(OBJECT);
        if name == "send" {
            world.set(method, "__globals__", globals);
            world.set(method, "__builtins__", builtins);
        }
        methods.push((name, method));
    }
    let class = world.class(&methods);
    let socks = world.class(&[]);
    let mut names = vec![("HTTPAdapter", class), ("PoolManager", pool_class)];
    for name in [
        "proxy_from_url",
        "TimeoutSauce",
        "parse_url",
        "Retry",
        "_basic_auth_str",
        "extract_cookies_to_jar",
        "Response",
        "CaseInsensitiveDict",
        "get_auth_from_url",
        "get_encoding_from_headers",
        "prepend_scheme_if_needed",
        "select_proxy",
        "urldefragauth",
        "DEFAULT_CA_BUNDLE_PATH",
    ] {
        names.push((name, world.opaque(OBJECT)));
    }
    names.push(("SOCKSProxyManager", socks));
    let module = world.module("requests.adapters", &names);
    let adapter = world.opaque(class);
    let proxies = world.dict(&[]);
    let own = world.dict(&[]);
    let ten = world.number(10);
    let no = world.flag(false);
    for (name, value) in [
        ("proxy_manager", proxies),
        ("_pool_connections", ten),
        ("_pool_maxsize", ten),
        ("_pool_block", no),
        ("__dict__", own),
    ] {
        world.set(adapter, name, value);
    }
    let mut adapters = Adapters {
        world,
        module,
        adapter,
        manager: 0,
        proxies,
        proxy_class,
        pool_classes,
        key_functions,
    };
    let arguments = adapters.world.dict(&[("maxsize", ten), ("block", no)]);
    let manager = adapters.manager(pool_class, arguments);
    adapters.world.set(adapter, "poolmanager", manager);
    adapters.manager = manager;
    adapters
}

fn known(adapters: &Adapters) -> AdapterState {
    match initialize_adapter_state(&adapters.world.heap) {
        Ok(state) => state,
        Err(failure) => panic!("{failure:?}"),
    }
}

fn entry(adapters: &Adapters, state: &AdapterState) -> EntryProofs {
    let heap = &adapters.world.heap;
    let record = match manager_proof(
        heap,
        heap,
        adapters.manager,
        &state.http_pool_classes,
        &state.key_functions,
    ) {
        Ok(ManagerAttempt::Taken(record)) => record,
        _ => panic!("the manager is recorded"),
    };
    EntryProofs {
        weak_adapter: adapters.adapter,
        proxy_mapping: adapters.proxies,
        manager: record,
        proxy_managers: Vec::new(),
    }
}

#[test]
fn the_adapter_is_remembered_with_its_surroundings() {
    let mut adapters = adapters();
    let state = known(&adapters);
    assert_eq!(state.adapters_module, adapters.module);
    assert_eq!(state.methods.len(), 12);
    assert_eq!(state.globals.len(), 16);
    assert_eq!(state.exception_globals.len(), 22);
    assert!(state.socks_pool_classes.is_none());
    assert!(canonical_routing_sources_are_pristine(&adapters.world.heap, &state));
    let request = adapters.world.opaque(state.prepared_request_type);
    let own = adapters.world.dict(&[]);
    adapters.world.set(request, "__dict__", own);
    assert_eq!(
        adapter_identity_is_pristine(&adapters.world.heap, &state, adapters.adapter, request),
        Ok(true)
    );
    assert_eq!(
        adapter_identity_is_pristine(&adapters.world.heap, &state, request, request),
        Ok(false)
    );
    let other = adapters.world.dict(&[]);
    let poolmanager = state.poolmanager_module;
    adapters.world.set(poolmanager, "key_fn_by_scheme", other);
    assert!(!canonical_routing_sources_are_pristine(&adapters.world.heap, &state));
    let module = adapters.module;
    adapters.world.unset(module, "select_proxy");
    assert!(matches!(
        initialize_adapter_state(&adapters.world.heap),
        Err(AdapterFault::Failed(Failure::Attribute))
    ));
    adapters.world.heap.modules.clear();
    assert!(matches!(
        initialize_adapter_state(&adapters.world.heap),
        Err(AdapterFault::Failed(Failure::Import))
    ));
}

#[test]
fn a_fresh_adapter_can_be_taken_over() {
    let mut adapters = adapters();
    let state = known(&adapters);
    let adapter = adapters.adapter;
    assert_eq!(adapter_register_trial(&adapters.world.heap, &state, adapter), Ok(true));
    let proofs = entry(&adapters, &state);
    assert_eq!(
        registered_adapter_pristine(
            &adapters.world.heap,
            &adapters.world.heap,
            &state,
            adapter,
            adapter,
            &proofs
        ),
        Ok(Some(true))
    );
    let five = adapters.world.number(5);
    adapters.world.set(adapter, "_pool_maxsize", five);
    assert_eq!(adapter_register_trial(&adapters.world.heap, &state, adapter), Ok(false));
    let ten = adapters.world.number(10);
    adapters.world.set(adapter, "_pool_maxsize", ten);
    adapters.add_proxy();
    assert_eq!(adapter_register_trial(&adapters.world.heap, &state, adapter), Ok(false));
    assert_eq!(
        registered_adapter_pristine(
            &adapters.world.heap,
            &adapters.world.heap,
            &state,
            adapter,
            adapter,
            &proofs
        ),
        Ok(Some(false))
    );
}

#[test]
fn the_manager_of_a_proxy_is_recorded_once_it_is_visible() {
    let mut adapters = adapters();
    let state = known(&adapters);
    let mut proofs = entry(&adapters, &state);
    let calls = vec![adapters.add_proxy()];
    let heap = &adapters.world.heap;
    let attempt = |url: &str, proofs: &EntryProofs| {
        record_visible_proxy_manager(
            heap,
            heap,
            &state,
            adapters.adapter,
            url,
            proofs,
            CONFIGURATION,
            &calls,
        )
    };
    assert!(matches!(attempt("http://elsewhere", &proofs), Ok(VisibleAttempt::Refused)));
    let records = match attempt("http://proxy", &proofs) {
        Ok(VisibleAttempt::Taken(records)) => records,
        _ => panic!("the manager is recorded"),
    };
    assert_eq!(records.len(), 1);
    assert_eq!(records[0].url, "http://proxy");
    proofs.proxy_managers = records;
    match attempt("http://proxy", &proofs) {
        Ok(VisibleAttempt::Taken(records)) => assert_eq!(records.len(), 1),
        _ => panic!("a known manager stays recorded"),
    }
    assert_eq!(
        registered_adapter_pristine(
            heap,
            heap,
            &state,
            adapters.adapter,
            adapters.adapter,
            &proofs
        ),
        Ok(Some(true))
    );
}

#[test]
fn the_manager_of_another_configuration_is_refused() {
    let mut adapters = adapters();
    let state = known(&adapters);
    let proofs = entry(&adapters, &state);
    let calls = vec![adapters.add_proxy()];
    let heap = &adapters.world.heap;
    let other = ProxyManagerConfiguration { pool_block: true, ..CONFIGURATION };
    assert!(matches!(
        record_visible_proxy_manager(
            heap,
            heap,
            &state,
            adapters.adapter,
            "http://proxy",
            &proofs,
            other,
            &calls
        ),
        Ok(VisibleAttempt::Refused)
    ));
    let earlier = self::adapters();
    assert!(matches!(
        record_visible_proxy_manager(
            heap,
            &earlier.world.heap,
            &state,
            adapters.adapter,
            "http://proxy",
            &proofs,
            CONFIGURATION,
            &calls
        ),
        Err(_)
    ));
}

#[test]
fn the_first_missing_name_is_told() {
    let mut adapters = adapters();
    let state = known(&adapters);
    for name in ["SSLError", "MaxRetryError"] {
        let key = adapters.world.text("elsewhere");
        let mut gone = None;
        let World { heap } = &mut adapters.world;
        if let Payload::Dict(pairs) = &heap.objects[state.send_globals].payload {
            for (index, pair) in pairs.iter().enumerate() {
                if heap.text(pair.key).map(String::as_str) == Some(name) {
                    gone = Some(index);
                }
            }
        }
        match (&mut heap.objects[state.send_globals].payload, gone) {
            (Payload::Dict(pairs), Some(gone)) => pairs[gone].key = key,
            _ => panic!("the name is there"),
        }
        match initialize_adapter_state(heap) {
            Err(fault) => assert_eq!(
                fault.message(),
                Some(format!("name '{name}' is not defined"))
            ),
            Ok(_) => panic!("a name is missing"),
        }
    }
}

fn closing(registry: &mut Registry, adapters: &Adapters, state: &AdapterState) -> (usize, Vec<usize>) {
    let heap = &adapters.world.heap;
    let identity = 5;
    let mut cleared = Vec::new();
    let mut close = CloseState::new();
    let mut query = None;
    loop {
        let event = match close.call {
            CloseCall::CheckClass => closes_natively(heap, state, adapters.adapter),
            CloseCall::Query => {
                query = registry.query_close(identity);
                CloseEvent::Registered(query.is_some())
            }
            CloseCall::Prove => CloseEvent::Stable(true),
            CloseCall::Commit => {
                let query = query.as_ref().unwrap();
                let pools = manager_pools_proof(heap, query.manager).unwrap();
                CloseEvent::Step(registry.close(identity, query, pools, Vec::new()))
            }
            CloseCall::Clear(pool) => {
                cleared.push(pool);
                CloseEvent::Cleared
            }
            CloseCall::Return(count) => return (count, cleared),
            CloseCall::RaiseChanged | CloseCall::RaiseCurrent => panic!("nothing changed"),
        };
        close.adapter_close(event);
    }
}

#[test]
fn closing_clears_each_pool_once() {
    let adapters = adapters();
    let state = known(&adapters);
    let mut registry = Registry::new();
    assert_eq!(closing(&mut registry, &adapters, &state), (0, Vec::new()));
    registry.register(5, entry(&adapters, &state));
    for (key, pool) in [("first", 900), ("second", 901)] {
        let query = registry.query_pool(5, None, key).unwrap();
        assert!(registry.adapter_pool(5, query, None, key, 10, Some(pool)).is_ok());
    }
    let epoch = registry.find(5).unwrap().lifecycle_epoch;
    assert_eq!(closing(&mut registry, &adapters, &state), (2, vec![900, 901]));
    assert_ne!(registry.find(5).unwrap().lifecycle_epoch, epoch);
    assert_eq!(closing(&mut registry, &adapters, &state), (0, Vec::new()));
    assert!(registry.find(5).is_some());
}

#[test]
fn foreign_adapters_close_nothing() {
    let mut adapters = adapters();
    let state = known(&adapters);
    let mut registry = Registry::new();
    registry.register(5, entry(&adapters, &state));
    let query = registry.query_pool(5, None, "key").unwrap();
    assert!(registry.adapter_pool(5, query, None, "key", 10, Some(900)).is_ok());
    let subclass = adapters.world.class(&[]);
    adapters.adapter = adapters.world.opaque(subclass);
    assert_eq!(closing(&mut registry, &adapters, &state), (0, Vec::new()));
    assert_eq!(registry.adapters_with_pools(), 1);
}

#[test]
fn closing_is_tried_so_often() {
    let mut close = CloseState::new();
    close.adapter_close(CloseEvent::Exact(true));
    let mut tries = 0;
    while close.call == CloseCall::Query {
        tries += 1;
        close.adapter_close(CloseEvent::Registered(true));
        close.adapter_close(CloseEvent::Stable(true));
        close.adapter_close(CloseEvent::Step(CloseStep::Again));
    }
    assert_eq!(tries, 8);
    assert_eq!(close.call, CloseCall::RaiseChanged);
    let mut unstable = CloseState::new();
    unstable.adapter_close(CloseEvent::Exact(true));
    unstable.adapter_close(CloseEvent::Registered(true));
    unstable.adapter_close(CloseEvent::Stable(false));
    assert_eq!(unstable.call, CloseCall::RaiseChanged);
}

#[test]
fn recordings_are_tried_so_often() {
    let mut recording = RecordState::new(3);
    let mut replacements = 0;
    while recording.call == RecordCall::Query {
        recording.record(RecordEvent::Epoch(Some(3)));
        assert_eq!(recording.call, RecordCall::Replace);
        replacements += 1;
        recording.record(RecordEvent::Replaced(Commit::Again));
    }
    assert_eq!(replacements, 8);
    assert_eq!(recording.call, RecordCall::Return(false));
    recording.record(RecordEvent::Replaced(Commit::Done));
    assert_eq!(recording.call, RecordCall::Return(false));
    for (epoch, commit, answer) in [
        (Some(3), Commit::Done, true),
        (Some(3), Commit::Refused, false),
        (Some(4), Commit::Done, false),
        (None, Commit::Done, false),
    ] {
        let mut recording = RecordState::new(3);
        recording.record(RecordEvent::Epoch(epoch));
        recording.record(RecordEvent::Replaced(commit));
        assert_eq!(recording.call, RecordCall::Return(answer));
    }
    let mut raised = RecordState::new(3);
    raised.record(RecordEvent::Raised);
    assert_eq!(raised.call, RecordCall::RaiseCurrent);
}

#[test]
fn inspections_are_confirmed() {
    let mut inspection = InspectState::new();
    inspection.inspect(InspectEvent::Registered(true));
    inspection.inspect(InspectEvent::Found(Ok(None)));
    assert_eq!(inspection.call, InspectCall::Query);
    inspection.inspect(InspectEvent::Registered(true));
    inspection.inspect(InspectEvent::Found(Ok(Some(true))));
    assert_eq!(inspection.call, InspectCall::Confirm(true));
    inspection.inspect(InspectEvent::Confirmed(Confirmation::Again));
    assert_eq!(inspection.call, InspectCall::Query);
    inspection.inspect(InspectEvent::Registered(true));
    inspection.inspect(InspectEvent::Found(Ok(Some(true))));
    inspection.inspect(InspectEvent::Confirmed(Confirmation::Answer(true)));
    assert_eq!(inspection.call, InspectCall::Return(true));
    let mut absent = InspectState::new();
    absent.inspect(InspectEvent::Registered(false));
    assert_eq!(absent.call, InspectCall::Return(false));
    let mut failed = InspectState::new();
    failed.inspect(InspectEvent::Registered(true));
    failed.inspect(InspectEvent::Found(Err(Failure::Attribute)));
    assert_eq!(failed.call, InspectCall::Fail(Failure::Attribute));
    let mut restless = InspectState::new();
    let mut looks = 0;
    while restless.call == InspectCall::Query {
        looks += 1;
        restless.inspect(InspectEvent::Registered(true));
        restless.inspect(InspectEvent::Found(Ok(None)));
    }
    assert_eq!((looks, restless.call), (8, InspectCall::Return(false)));
}
