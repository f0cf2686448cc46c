use requests_native::adapter_state::{
    adapter_identity_is_pristine, routing_mapping_proof, AdapterState, BehaviorProof, RoutingProof,
};
use requests_native::admission::{
    begin_send_input, finish_send_input, proxies_are_supported, request_headers, retries_equal,
    timeout_value, AdmissionRefusal, AdmissionStop, OutsideFacts, Roots, SendArguments, Span,
    TimeoutPlan, UrlFacts,
};
use requests_native::heap::{Binding, Failure, Heap, Intrinsics, Pair, Payload, PyObject};
use requests_native::retry::{
    exact_retry, initialize_retry_state, retry_snapshot, RetryCount, RetryGuard, RetryRefusal,
    RetrySnapshot, Stop,
};

const TEXT: usize = 0;
const BYTES: usize = 1;
const BOOLEAN: usize = 2;
const NUMBER: usize = 3;
const FLOAT: usize = 4;
const TUPLE: usize = 6;
const FROZEN: usize = 9;
const DICT: usize = 10;
const TYPE: usize = 11;
const OBJECT: usize = 12;
const MODULE: usize = 28;

struct World {
    heap: Heap,
}

impl World {
    fn new() -> World {
        let mut objects = Vec::new();
        for _ in 0..29 {
            objects.push(PyObject { class: TYPE, payload: Payload::Type, attributes: Vec::new() });
        }
        let heap = Heap {
            objects,
            intrinsics: Intrinsics {
                text: TEXT,
                bytes: BYTES,
                boolean: BOOLEAN,
                int: NUMBER,
                float: FLOAT,
                list: 5,
                tuple: TUPLE,
                byte_array: 7,
                set: 8,
                frozen_set: FROZEN,
                dict: DICT,
                type_type: TYPE,
                object: OBJECT,
                super_type: 13,
                function: 14,
                type_error: 15,
                value_error: 16,
                attribute_error: 17,
                runtime_error: 18,
                lookup_error: 19,
                unicode_decode_error: 20,
                unicode_encode_error: 21,
                import_error: 22,
                key_error: 23,
                base_exception: 24,
                static_method: 25,
                method_descriptor: 26,
                member_descriptor: 27,
                module_type: MODULE,
            },
            modules: Vec::new(),
            module_code: Vec::new(),
        };
        let mut world = World { heap };
        let bases = world.add(TUPLE, Payload::Tuple(Vec::new()));
        let names = world.add(OBJECT, Payload::Mapping(Vec::new()));
        for class in 0..29 {
            world.set(class, "__bases__", bases);
            world.set(class, "__dict__", names);
        }
        world
    }

    fn add(&mut self, class: usize, payload: Payload) -> usize {
        self.heap.objects.push(PyObject { class, payload, attributes: Vec::new() });
        self.heap.objects.len() - 1
    }

    fn set(&mut self, object: usize, name: &str, value: usize) {
        let attributes = &mut self.heap.objects[object].attributes;
        for binding in attributes.iter_mut() {
            if binding.name == name {
                binding.value = value;
                return;
            }
        }
        attributes.push(Binding { name: String::from(name), value });
    }

    fn unset(&mut self, object: usize, name: &str) {
        self.heap.objects[object].attributes.retain(|binding| binding.name != name);
    }

    fn text(&mut self, text: &str) -> usize {
        self.add(TEXT, Payload::Text(Some(String::from(text))))
    }

    fn number(&mut self, value: i128) -> usize {
        let number = self.add(NUMBER, Payload::Int(Some(value)));
        let float = self.add(FLOAT, Payload::Float((value as f64).to_bits()));
        self.set(number, "float()", float);
        number
    }

    fn float(&mut self, value: f64) -> usize {
        let number = self.add(FLOAT, Payload::Float(value.to_bits()));
        self.set(number, "float()", number);
        number
    }

    fn flag(&mut self, value: bool) -> usize {
        self.add(BOOLEAN, Payload::Bool(value))
    }

    fn none(&mut self) -> usize {
        self.add(OBJECT, Payload::NoneValue)
    }

    fn opaque(&mut self, class: usize) -> usize {
        self.add(class, Payload::Opaque)
    }

    fn pairs(&mut self, entries: &[(&str, usize)]) -> Vec<Pair> {
        let mut pairs = Vec::new();
        for (name, value) in entries {
            let key = self.text(name);
            pairs.push(Pair { key, value: *value });
        }
        pairs
    }

    fn dict(&mut self, entries: &[(&str, usize)]) -> usize {
        let pairs = self.pairs(entries);
        self.add(DICT, Payload::Dict(pairs))
    }

    fn class(&mut self, entries: &[(&str, usize)]) -> usize {
        let class = self.add(TYPE, Payload::Type);
        let pairs = self.pairs(entries);
        let names = self.add(OBJECT, Payload::Mapping(pairs));
        let bases = self.add(TUPLE, Payload::Tuple(vec![OBJECT]));
        self.set(class, "__dict__", names);
        self.set(class, "__bases__", bases);
        for (name, value) in entries {
            self.set(class, name, *value);
        }
        class
    }

    fn module(&mut self, name: &str, entries: &[(&str, usize)]) -> usize {
        let module = self.add(MODULE, Payload::Module);
        let names = self.dict(entries);
        self.set(module, "__dict__", names);
        for (entry, value) in entries {
            self.set(module, entry, *value);
        }
        self.heap.modules.push(Binding { name: String::from(name), value: module });
        module
    }
}

struct Retries {
    world: World,
    class: usize,
    history: usize,
    retry: usize,
}

fn retries(version: &str) -> Retries {
    let mut world = World::new();
    let version = world.text(version);
    world.module("urllib3", &[("__version__", version)]);
    let increment = world.opaque(OBJECT);
    let maximum = world.number(120);
    let slots = world.add(5, Payload::List(Vec::new()));
    let class = world.class(&[
        ("increment", increment),
        ("DEFAULT_BACKOFF_MAX", maximum),
        ("__slotnames__", slots),
    ]);
    let history = world.class(&[]);
    world.module("urllib3.util.retry", &[("Retry", class), ("RequestHistory", history)]);
    let retry = world.opaque(class);
    let own = world.dict(&[]);
    let three = world.number(3);
    let none = world.none();
    let no = world.flag(false);
    let yes = world.flag(true);
    let get = world.text("GET");
    let put = world.text("PUT");
    let methods = world.add(FROZEN, Payload::FrozenSet(vec![get, put]));
    let busy = world.number(503);
    let statuses = world.add(FROZEN, Payload::FrozenSet(vec![busy]));
    let factor = world.float(0.5);
    let rows = world.add(TUPLE, Payload::Tuple(Vec::new()));
    for (name, value) in [
        ("__dict__", own),
        ("total", three),
        ("connect", none),
        ("read", no),
        ("status", none),
        ("redirect", yes),
        ("other", none),
        ("allowed_methods", methods),
        ("status_forcelist", statuses),
        ("backoff_factor", factor),
        ("respect_retry_after_header", yes),
        ("raise_on_status", no),
        ("raise_on_redirect", yes),
        ("history", rows),
    ] {
        world.set(retry, name, value);
    }
    Retries { world, class, history, retry }
}

fn guard(world: &World) -> RetryGuard {
    match initialize_retry_state(&world.heap) {
        Ok(guard) => guard,
        Err(failure) => panic!("{failure:?}"),
    }
}

fn read(retries: &Retries, guard: &RetryGuard) -> Result<RetrySnapshot, Stop> {
    retry_snapshot(&retries.world.heap, guard, retries.retry)
}

fn refusal(retries: &Retries, guard: &RetryGuard) -> Option<Stop> {
    read(retries, guard).err()
}

#[test]
fn a_retry_object_is_read_in_full() {
    let retries = retries("2.2.1");
    let guard = guard(&retries.world);
    assert_eq!(exact_retry(&retries.world.heap, &guard, retries.retry), Ok(true));
    let snapshot = match read(&retries, &guard) {
        Ok(snapshot) => snapshot,
        Err(stop) => panic!("{stop:?}"),
    };
    assert_eq!(snapshot.version, "2.2.1");
    assert_eq!(snapshot.counters.total, RetryCount::Limited(3));
    assert_eq!(snapshot.counters.connect, RetryCount::Unlimited);
    assert_eq!(snapshot.counters.read, RetryCount::Boolean(false));
    assert_eq!(snapshot.counters.redirect, RetryCount::Boolean(true));
    assert_eq!(
        snapshot.allowed_methods,
        Some(vec![String::from("GET"), String::from("PUT")])
    );
    assert_eq!(snapshot.status_forcelist, vec![503]);
    assert_eq!(f64::from_bits(snapshot.backoff.factor), 0.5);
    assert_eq!(f64::from_bits(snapshot.backoff.maximum), 120.0);
    assert_eq!(f64::from_bits(snapshot.backoff.jitter), 0.0);
    assert!(snapshot.switches.respect_retry_after);
    assert!(!snapshot.switches.raise_on_status);
    assert!(snapshot.switches.raise_on_redirect);
    assert_eq!(snapshot.retry_after_max, None);
    assert!(snapshot.history.is_empty());
}

#[test]
fn each_part_of_a_retry_object_can_refuse_it() {
    for (name, expected) in [
        ("total", RetryRefusal::Total),
        ("connect", RetryRefusal::Connect),
        ("read", RetryRefusal::Read),
        ("status", RetryRefusal::Status),
        ("redirect", RetryRefusal::Redirect),
        ("other", RetryRefusal::Other),
        ("allowed_methods", RetryRefusal::AllowedMethods),
        ("status_forcelist", RetryRefusal::StatusForcelist),
        ("backoff_factor", RetryRefusal::BackoffFactor),
        ("backoff_max", RetryRefusal::BackoffMax),
        ("backoff_jitter", RetryRefusal::BackoffJitter),
        ("respect_retry_after_header", RetryRefusal::RespectRetryAfter),
        ("raise_on_status", RetryRefusal::RaiseOnStatus),
        ("raise_on_redirect", RetryRefusal::RaiseOnRedirect),
        ("retry_after_max", RetryRefusal::RetryAfterMax),
        ("history", RetryRefusal::HistoryTuple),
        ("__dict__", RetryRefusal::InstanceDict),
    ] {
        let mut retries = retries("2.2.1");
        let guard = guard(&retries.world);
        let odd = retries.world.text("odd");
        retries.world.set(retries.retry, name, odd);
        assert_eq!(refusal(&retries, &guard), Some(Stop::Refused(expected)), "{name}");
    }
    let mut retries = retries("2.2.1");
    let guard = guard(&retries.world);
    retries.world.unset(retries.retry, "total");
    assert_eq!(refusal(&retries, &guard), Some(Stop::Failed(Failure::Attribute)));
}

#[test]
fn the_first_part_that_is_wrong_is_told() {
    let mut retries = retries("2.2.1");
    let guard = guard(&retries.world);
    let odd = retries.world.text("odd");
    retries.world.set(retries.retry, "history", odd);
    retries.world.set(retries.retry, "read", odd);
    retries.world.set(retries.retry, "other", odd);
    assert_eq!(refusal(&retries, &guard), Some(Stop::Refused(RetryRefusal::Read)));
}

#[test]
fn a_replaced_method_or_another_class_is_refused() {
    let mut changed = retries("2.2.1");
    let first = guard(&changed.world);
    let other = changed.world.opaque(OBJECT);
    let namespace = match changed.world.heap.attribute(changed.class, "__dict__") {
        Some(namespace) => namespace,
        None => panic!("the class has a name space"),
    };
    let maximum = changed.world.number(120);
    let pairs = changed.world.pairs(&[("increment", other), ("DEFAULT_BACKOFF_MAX", maximum)]);
    changed.world.heap.objects[namespace].payload = Payload::Mapping(pairs);
    assert_eq!(refusal(&changed, &first), Some(Stop::Refused(RetryRefusal::ExactType)));

    let mut derived = retries("2.2.1");
    let second = guard(&derived.world);
    let subclass = derived.world.class(&[]);
    derived.world.heap.objects[derived.retry].class = subclass;
    assert_eq!(refusal(&derived, &second), Some(Stop::Refused(RetryRefusal::ExactType)));

    let mut shadowed = retries("2.2.1");
    let third = guard(&shadowed.world);
    let own = shadowed.world.dict(&[("increment", other)]);
    shadowed.world.set(shadowed.retry, "__dict__", own);
    assert_eq!(refusal(&shadowed, &third), Some(Stop::Refused(RetryRefusal::Shadowed)));
}

#[test]
fn version_1_26_may_hold_a_whitelist() {
    let mut retries = retries("1.26.18");
    let guard = guard(&retries.world);
    let head = retries.world.text("HEAD");
    let listed = retries.world.add(5, Payload::List(vec![head]));
    let own = retries.world.dict(&[("method_whitelist", listed)]);
    retries.world.set(retries.retry, "__dict__", own);
    match read(&retries, &guard) {
        Ok(snapshot) => {
            assert_eq!(snapshot.allowed_methods, Some(vec![String::from("HEAD")]));
        }
        Err(stop) => panic!("{stop:?}"),
    }
    let odd = retries.world.number(1);
    let own = retries.world.dict(&[("method_whitelist", odd)]);
    retries.world.set(retries.retry, "__dict__", own);
    assert_eq!(refusal(&retries, &guard), Some(Stop::Refused(RetryRefusal::MethodWhitelist)));
}

#[test]
fn the_history_is_read_row_by_row() {
    let mut retries = retries("2.2.1");
    let guard = guard(&retries.world);
    let method = retries.world.text("GET");
    let url = retries.world.text("/a");
    let none = retries.world.none();
    let status = retries.world.number(302);
    let target = retries.world.text("/b");
    let row = retries
        .world
        .add(retries.history, Payload::Tuple(vec![method, url, none, status, target]));
    for (name, value) in [
        ("method", method),
        ("url", url),
        ("error", none),
        ("status", status),
        ("redirect_location", target),
    ] {
        retries.world.set(row, name, value);
    }
    let rows = retries.world.add(TUPLE, Payload::Tuple(vec![row]));
    retries.world.set(retries.retry, "history", rows);
    match read(&retries, &guard) {
        Ok(snapshot) => {
            assert_eq!(snapshot.history.len(), 1);
            assert_eq!(snapshot.history[0].method, "GET");
            assert_eq!(snapshot.history[0].url, "/a");
            assert_eq!(snapshot.history[0].status, Some(302));
            assert_eq!(snapshot.history[0].redirect_location.as_deref(), Some("/b"));
        }
        Err(stop) => panic!("{stop:?}"),
    }
    let odd = retries.world.opaque(OBJECT);
    retries.world.set(row, "status", odd);
    assert_eq!(refusal(&retries, &guard), Some(Stop::Refused(RetryRefusal::HistoryStatus)));
    let index = retries.world.number(303);
    retries.world.set(odd, "__index__()", index);
    match read(&retries, &guard) {
        Ok(snapshot) => assert_eq!(snapshot.history[0].status, Some(303)),
        Err(stop) => panic!("{stop:?}"),
    }
    retries.world.set(row, "status", status);
    let error = retries.world.opaque(15);
    retries.world.set(row, "error", error);
    retries.world.heap.objects[row].payload =
        Payload::Tuple(vec![method, url, error, status, target]);
    assert_eq!(refusal(&retries, &guard), Some(Stop::Refused(RetryRefusal::HistoryError)));
    retries.world.heap.objects[row].class = TUPLE;
    assert_eq!(refusal(&retries, &guard), Some(Stop::Refused(RetryRefusal::HistoryRow)));
}

#[test]
fn unchanged_retries_compare_equal() {
    let mut retries = retries("2.2.1");
    let guard = guard(&retries.world);
    let (Ok(first), Ok(second)) = (read(&retries, &guard), read(&retries, &guard)) else {
        panic!("the object can be read");
    };
    assert!(retries_equal(&first, &second));
    let two = retries.world.number(2);
    retries.world.set(retries.retry, "total", two);
    match read(&retries, &guard) {
        Ok(third) => assert!(!retries_equal(&first, &third)),
        Err(stop) => panic!("{stop:?}"),
    }
}

struct Sends {
    retries: Retries,
    guard: RetryGuard,
    state: AdapterState,
    arguments: SendArguments,
    store: usize,
}

fn behavior(object: usize) -> BehaviorProof {
    BehaviorProof { object, facts: Vec::new() }
}

fn routing(world: &World, mapping: usize) -> RoutingProof {
    match routing_mapping_proof(&world.heap, mapping) {
        Ok(proof) => proof,
        Err(failure) => panic!("{failure:?}"),
    }
}

fn sends() -> Sends {
    let mut retries = retries("2.2.1");
    let world = &mut retries.world;
    let globals = world.dict(&[]);
    let builtins = world.dict(&[]);
    let send = world.opaque(OBJECT);
    world.set(send, "__globals__", globals);
    world.set(send, "__builtins__", builtins);
    let adapter_type = world.class(&[("send", send)]);
    let getattribute = world.opaque(OBJECT);
    let request_type = world.class(&[("__getattribute__", getattribute)]);
    let header_type = world.class(&[]);
    let ordered = world.class(&[]);
    let proxy_manager = world.opaque(OBJECT);
    let socks_manager = world.opaque(OBJECT);
    let timeout_type = world.class(&[]);
    let bundle = world.text("/etc/ca.pem");
    let adapters_module = world.module(
        "requests.adapters",
        &[
            ("CaseInsensitiveDict", header_type),
            ("SOCKSProxyManager", socks_manager),
            ("TimeoutSauce", timeout_type),
            ("DEFAULT_CA_BUNDLE_PATH", bundle),
        ],
    );
    let pool_classes = world.dict(&[]);
    let key_functions = world.dict(&[]);
    let poolmanager_module = world.module(
        "urllib3.poolmanager",
        &[
            ("ProxyManager", proxy_manager),
            ("pool_classes_by_scheme", pool_classes),
            ("key_fn_by_scheme", key_functions),
        ],
    );
    world.module("collections", &[("OrderedDict", ordered)]);
    let adapter = world.opaque(adapter_type);
    let own = world.dict(&[]);
    let config = world.dict(&[]);
    let ten = world.number(10);
    let no = world.flag(false);
    let retry = retries.retry;
    for (name, value) in [
        ("__dict__", own),
        ("config", config),
        ("_pool_maxsize", ten),
        ("_pool_connections", ten),
        ("_pool_block", no),
        ("max_retries", retry),
    ] {
        world.set(adapter, name, value);
    }
    let request = world.opaque(request_type);
    let headers = world.opaque(header_type);
    let name = world.text("Accept");
    let value = world.text("*/*");
    let pair = world.add(TUPLE, Payload::Tuple(vec![name, value]));
    let lower = world.text("accept");
    let store = world.add(ordered, Payload::Dict(vec![Pair { key: lower, value: pair }]));
    world.set(headers, "_store", store);
    let method = world.text("GET");
    let url = world.text("http://a.test/x?q=1");
    let path_url = world.text("/x?q=1");
    let none = world.none();
    for (name, value) in [
        ("method", method),
        ("url", url),
        ("path_url", path_url),
        ("headers", headers),
        ("body", none),
    ] {
        world.set(request, name, value);
    }
    let timeout = world.float(2.5);
    let verify = world.flag(true);
    let state = AdapterState {
        adapters_module,
        adapter_type,
        prepared_request_type: request_type,
        prepared_getattribute: getattribute,
        poolmanager_module,
        poolmanager: behavior(OBJECT),
        proxy_manager: behavior(proxy_manager),
        socks_manager: behavior(socks_manager),
        http_pool_classes: routing(world, pool_classes),
        socks_pool_classes: None,
        key_functions: routing(world, key_functions),
        methods: Vec::new(),
        globals: Vec::new(),
        send_globals: globals,
        send_builtins: builtins,
        exception_globals: Vec::new(),
    };
    let guard = guard(world);
    let arguments = SendArguments { adapter, request, timeout, verify, cert: none };
    Sends { retries, guard, state, arguments, store }
}

fn outside() -> OutsideFacts {
    OutsideFacts {
        method_parses: true,
        url: Some(UrlFacts {
            scheme: Some(String::from("http")),
            has_authority: true,
            host: String::from("a.test"),
            port: None,
        }),
        headers_parse: vec![true],
    }
}

fn begin(sends: &Sends) -> Result<requests_native::admission::SendDraft, AdmissionStop> {
    begin_send_input(
        &sends.retries.world.heap,
        &sends.state,
        &sends.guard,
        sends.arguments,
        &outside(),
    )
}

#[test]
fn a_plain_request_is_admitted() {
    let sends = sends();
    let heap = &sends.retries.world.heap;
    assert_eq!(
        adapter_identity_is_pristine(
            heap,
            &sends.state,
            sends.arguments.adapter,
            sends.arguments.request
        ),
        Ok(true)
    );
    let draft = match begin(&sends) {
        Ok(draft) => draft,
        Err(stop) => panic!("{stop:?}"),
    };
    assert_eq!(draft.method, "GET");
    assert_eq!(draft.url, "http://a.test/x?q=1");
    assert_eq!(draft.headers.len(), 1);
    assert_eq!(draft.headers[0].name, "Accept");
    assert_eq!(draft.headers[0].value, "*/*");
    assert_eq!(draft.body, None);
    assert_eq!(draft.settings.pool_maxsize, 10);
    assert!(!draft.settings.pool_block);
    let span = Span::Seconds((2.5f64).to_bits());
    assert_eq!(draft.timeout, TimeoutPlan { connect: span, read: span });
    assert!(matches!(&draft.tls.roots, Roots::Bundle(path) if path == "/etc/ca.pem"));
    assert!(draft.tls.identity.is_none());
    let finish = |through: bool, registered| {
        finish_send_input(
            heap,
            &sends.state,
            &sends.guard,
            sends.arguments,
            &draft,
            through,
            registered,
        )
    };
    assert_eq!(finish(false, Ok(true)), Ok(String::from("/x?q=1")));
    assert_eq!(finish(true, Ok(true)), Ok(String::from("http://a.test/x?q=1")));
    assert_eq!(
        finish(true, Ok(false)),
        Err(AdmissionStop::Refused(AdmissionRefusal::IdentityChanged))
    );
    assert_eq!(
        finish(true, Err(Failure::Attribute)),
        Err(AdmissionStop::Failed(Failure::Attribute))
    );
}

#[test]
fn each_part_of_a_request_can_stop_its_admission() {
    for (name, expected) in [
        ("config", AdmissionRefusal::Config),
        ("_pool_maxsize", AdmissionRefusal::PoolMaximum),
        ("_pool_connections", AdmissionRefusal::PoolSettings),
        ("_pool_block", AdmissionRefusal::PoolSettings),
        ("max_retries", AdmissionRefusal::Retry(RetryRefusal::ExactType)),
    ] {
        let mut sends = sends();
        let odd = sends.retries.world.text("odd");
        sends.retries.world.set(sends.arguments.adapter, name, odd);
        assert_eq!(begin(&sends).err(), Some(AdmissionStop::Refused(expected)), "{name}");
    }
    for (name, expected) in [
        ("method", AdmissionRefusal::Method),
        ("url", AdmissionRefusal::Url),
        ("headers", AdmissionRefusal::Headers),
        ("body", AdmissionRefusal::Body),
    ] {
        let mut sends = sends();
        let odd = sends.retries.world.number(1);
        sends.retries.world.set(sends.arguments.request, name, odd);
        assert_eq!(begin(&sends).err(), Some(AdmissionStop::Refused(expected)), "{name}");
    }
    let mut sends = sends();
    let zero = sends.retries.world.number(0);
    sends.retries.world.set(sends.arguments.adapter, "_pool_maxsize", zero);
    assert_eq!(
        begin(&sends).err(),
        Some(AdmissionStop::Refused(AdmissionRefusal::ZeroPool))
    );
}

#[test]
fn arguments_of_a_send_are_held_against_what_is_supported() {
    let mut odd_timeout = sends();
    odd_timeout.arguments.timeout = odd_timeout.retries.world.text("soon");
    assert_eq!(
        begin(&odd_timeout).err(),
        Some(AdmissionStop::Refused(AdmissionRefusal::Timeout))
    );
    let mut odd_verify = sends();
    odd_verify.arguments.verify = odd_verify.retries.world.number(1);
    assert_eq!(
        begin(&odd_verify).err(),
        Some(AdmissionStop::Refused(AdmissionRefusal::Tls))
    );
    let mut foreign = sends();
    let request = foreign.arguments.request;
    foreign.retries.world.heap.objects[request].class = OBJECT;
    assert_eq!(
        begin(&foreign).err(),
        Some(AdmissionStop::Refused(AdmissionRefusal::Identity))
    );
}

#[test]
fn a_request_that_changed_is_not_finished() {
    let mut sends = sends();
    let draft = match begin(&sends) {
        Ok(draft) => draft,
        Err(stop) => panic!("{stop:?}"),
    };
    let two = sends.retries.world.number(2);
    let retry = sends.retries.retry;
    sends.retries.world.set(retry, "total", two);
    assert_eq!(
        finish_send_input(
            &sends.retries.world.heap,
            &sends.state,
            &sends.guard,
            sends.arguments,
            &draft,
            true,
            Ok(true)
        ),
        Err(AdmissionStop::Refused(AdmissionRefusal::RetryChanged))
    );
    let number = sends.retries.world.number(1);
    sends.retries.world.set(sends.arguments.request, "path_url", number);
    assert_eq!(
        finish_send_input(
            &sends.retries.world.heap,
            &sends.state,
            &sends.guard,
            sends.arguments,
            &draft,
            false,
            Ok(true)
        ),
        Err(AdmissionStop::Refused(AdmissionRefusal::PathUrl))
    );
}

#[test]
fn headers_are_read_from_the_ordered_store() {
    let mut sends = sends();
    let module = sends.state.adapters_module;
    let request = sends.arguments.request;
    match request_headers(&sends.retries.world.heap, module, request, &vec![true]) {
        Ok(Some(headers)) => assert_eq!(headers.len(), 1),
        _ => panic!("the headers can be read"),
    }
    assert!(matches!(
        request_headers(&sends.retries.world.heap, module, request, &vec![false]),
        Ok(None)
    ));
    sends.retries.world.heap.objects[sends.store].class = DICT;
    assert!(matches!(
        request_headers(&sends.retries.world.heap, module, request, &vec![true]),
        Ok(None)
    ));
}

#[test]
fn timeouts_come_in_three_forms() {
    let mut sends = sends();
    let module = sends.state.adapters_module;
    let world = &mut sends.retries.world;
    let half = world.float(0.5);
    let two = world.number(2);
    let none = world.none();
    let seconds = |value: f64| Span::Seconds(value.to_bits());
    assert_eq!(
        timeout_value(&world.heap, module, none),
        Ok(Some(TimeoutPlan { connect: Span::Endless, read: Span::Endless }))
    );
    let pair = world.add(TUPLE, Payload::Tuple(vec![half, two]));
    assert_eq!(
        timeout_value(&world.heap, module, pair),
        Ok(Some(TimeoutPlan { connect: seconds(0.5), read: seconds(2.0) }))
    );
    let three = world.add(TUPLE, Payload::Tuple(vec![half, two, two]));
    assert_eq!(timeout_value(&world.heap, module, three), Ok(None));
    let zero = world.float(0.0);
    assert_eq!(timeout_value(&world.heap, module, zero), Ok(None));
    let class = match world.heap.attribute(module, "TimeoutSauce") {
        Some(class) => class,
        None => panic!("the module has the class"),
    };
    let object = world.opaque(class);
    assert_eq!(timeout_value(&world.heap, module, object), Err(Failure::Attribute));
    world.set(object, "total", none);
    world.set(object, "connect_timeout", half);
    world.set(object, "read_timeout", none);
    assert_eq!(
        timeout_value(&world.heap, module, object),
        Ok(Some(TimeoutPlan { connect: seconds(0.5), read: Span::Endless }))
    );
    world.set(object, "total", two);
    assert_eq!(timeout_value(&world.heap, module, object), Ok(None));
}

#[test]
fn proxies_are_a_plain_dict_or_nothing() {
    let mut world = World::new();
    let none = world.none();
    let dict = world.dict(&[]);
    let text = world.text("http://proxy");
    assert!(proxies_are_supported(&world.heap, none));
    assert!(proxies_are_supported(&world.heap, dict));
    assert!(!proxies_are_supported(&world.heap, text));
}

#[test]
fn the_class_is_remembered_with_its_slot_names() {
    let mut retries = retries("2.2.1");
    let guard = guard(&retries.world);
    assert!(read(&retries, &guard).is_ok());
    let names = retries.world.heap.attribute(retries.class, "__dict__").unwrap();
    let place = match &retries.world.heap.objects[names].payload {
        Payload::Mapping(pairs) => pairs
            .iter()
            .position(|pair| {
                retries.world.heap.text(pair.key).map(String::as_str) == Some("__slotnames__")
            })
            .unwrap(),
        _ => panic!("a name space is expected"),
    };
    let none = retries.world.none();
    let mut kept = usize::MAX;
    match &mut retries.world.heap.objects[names].payload {
        Payload::Mapping(pairs) => {
            kept = std::mem::replace(&mut pairs[place].value, none);
        }
        _ => {}
    }
    assert_eq!(initialize_retry_state(&retries.world.heap).err(), Some(Failure::Attribute));
    assert_eq!(
        read(&retries, &guard).err(),
        Some(Stop::Refused(RetryRefusal::ExactType))
    );
    match &mut retries.world.heap.objects[names].payload {
        Payload::Mapping(pairs) => pairs[place].value = kept,
        _ => {}
    }
    assert!(read(&retries, &guard).is_ok());
    match &mut retries.world.heap.objects[names].payload {
        Payload::Mapping(pairs) => {
            pairs.remove(place);
        }
        _ => {}
    }
    assert_eq!(initialize_retry_state(&retries.world.heap).err(), Some(Failure::Attribute));
}
