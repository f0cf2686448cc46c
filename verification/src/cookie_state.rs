//! The cookie modules as they were first met, and whether they still are so.

use vstd::prelude::*;

use crate::adapter_state::{has_text_keys, keys_are_texts};
use crate::body_prepare::GlobalResolver;
use crate::heap::{both, Check, Failure, Heap, Pair};
use crate::known::resolution_order;
use crate::landmarks::{
    below, below_three, below_two, check_type_entries, class_below, dictionary_below,
    expectation_views, expects, find_landmarks, in_module, is_module, landmark_views, module_below,
    module_object, object_at, objects_at, type_entries_are, Expectation, ExpectationView, Landmark,
    LandmarkView,
};
use crate::managers::class_of;
use crate::retry::{attribute_is, check_attribute_is};

verus! {

/// The objects of the cookie modules as they were first met.
#[derive(Clone, Copy, Debug, PartialEq, Eq, Structural)]
pub struct CookieObjects {
    pub module: usize,
    pub jar_type: usize,
    pub std_jar_type: usize,
    pub default_policy_type: usize,
    pub cookie_type: usize,
    pub cookielib: usize,
    pub cookie_constructor: usize,
    pub create_cookie_builtins: usize,
    pub deepvalues: usize,
    pub deepvalues_code: usize,
    pub morsel_type: usize,
    pub prepared_type: usize,
    pub response_type: usize,
    pub time_module: usize,
    pub calendar_module: usize,
    pub copy_module: usize,
    pub pickle_module: usize,
    pub threading_module: usize,
    pub threading_rlock: usize,
    pub threading_rlock_code: usize,
    pub made_rlock: usize,
    pub create_cookie: usize,
    pub create_cookie_code: usize,
    pub morsel_to_cookie: usize,
    pub morsel_to_cookie_code: usize,
    pub remove_cookie_by_name: usize,
    pub remove_cookie_by_name_code: usize,
    pub get_cookie_header: usize,
    pub get_cookie_header_code: usize,
    pub extract_cookies_to_jar: usize,
    pub extract_cookies_to_jar_code: usize,
    pub jar_getattribute: usize,
    pub jar_iter: usize,
    pub jar_contains: usize,
    pub jar_set: usize,
    pub jar_set_cookie: usize,
    pub jar_get_dict: usize,
    pub jar_copy: usize,
    pub jar_update: usize,
    pub jar_set_policy: usize,
    pub jar_get_policy: usize,
    pub jar_getstate: usize,
    pub jar_setstate: usize,
    pub std_getattribute: usize,
    pub std_iter: usize,
    pub std_set_cookie: usize,
    pub std_clear: usize,
    pub std_add_cookie_header: usize,
    pub std_extract_cookies: usize,
    pub std_set_policy: usize,
    pub jar_iterkeys: usize,
    pub jar_keys: usize,
    pub jar_itervalues: usize,
    pub jar_values: usize,
    pub jar_iteritems: usize,
    pub jar_items: usize,
    pub jar_list_domains: usize,
    pub jar_list_paths: usize,
    pub jar_multiple_domains: usize,
    pub jar_getitem: usize,
    pub jar_get: usize,
    pub jar_find_no_duplicates: usize,
    pub prepared_cookies: usize,
    pub mock_request_type: usize,
    pub mock_response_type: usize,
    pub time_time: usize,
    pub time_strptime: usize,
    pub calendar_timegm: usize,
    pub copy_function: usize,
    pub pickle_dumps: usize,
    pub pickle_loads: usize,
    pub morsel_getitem: usize,
    pub morsel_key: usize,
    pub morsel_value: usize,
}

/// Where the objects are found, in the order in which they are looked up.
pub open spec fn cookie_landmarks() -> Seq<LandmarkView> {
    seq![
        in_module("requests.cookies"@),
        class_below("requests.cookies"@, "RequestsCookieJar"@),
        in_module("http.cookiejar"@),
        class_below("http.cookiejar"@, "CookieJar"@),
        class_below("http.cookiejar"@, "DefaultCookiePolicy"@),
        class_below("http.cookiejar"@, "Cookie"@),
        below("requests.cookies"@, "cookielib"@),
        below_two("requests.cookies"@, "cookielib"@, "Cookie"@),
        dictionary_below("requests.cookies"@, "create_cookie"@, "__builtins__"@),
        below_two("requests.cookies"@, "cookielib"@, "deepvalues"@),
        below_three("requests.cookies"@, "cookielib"@, "deepvalues"@, "__code__"@),
        class_below("http.cookies"@, "Morsel"@),
        in_module("requests.models"@),
        class_below("requests.models"@, "PreparedRequest"@),
        class_below("requests.models"@, "Response"@),
        below("requests.cookies"@, "time"@),
        below("requests.cookies"@, "calendar"@),
        in_module("copy"@),
        in_module("pickle"@),
        module_below("requests.cookies"@, "threading"@),
        below_two("requests.cookies"@, "threading"@, "RLock"@),
        below_three("requests.cookies"@, "threading"@, "RLock"@, "__code__"@),
        below_three("requests.cookies"@, "threading"@, "RLock"@, "()"@),
        below("requests.cookies"@, "create_cookie"@),
        below_two("requests.cookies"@, "create_cookie"@, "__code__"@),
        below("requests.cookies"@, "morsel_to_cookie"@),
        below_two("requests.cookies"@, "morsel_to_cookie"@, "__code__"@),
        below("requests.cookies"@, "remove_cookie_by_name"@),
        below_two("requests.cookies"@, "remove_cookie_by_name"@, "__code__"@),
        below("requests.cookies"@, "get_cookie_header"@),
        below_two("requests.cookies"@, "get_cookie_header"@, "__code__"@),
        below("requests.cookies"@, "extract_cookies_to_jar"@),
        below_two("requests.cookies"@, "extract_cookies_to_jar"@, "__code__"@),
        below_two("requests.cookies"@, "RequestsCookieJar"@, "__getattribute__"@),
        below_two("requests.cookies"@, "RequestsCookieJar"@, "__iter__"@),
        below_two("requests.cookies"@, "RequestsCookieJar"@, "__contains__"@),
        below_two("requests.cookies"@, "RequestsCookieJar"@, "set"@),
        below_two("requests.cookies"@, "RequestsCookieJar"@, "set_cookie"@),
        below_two("requests.cookies"@, "RequestsCookieJar"@, "get_dict"@),
        below_two("requests.cookies"@, "RequestsCookieJar"@, "copy"@),
        below_two("requests.cookies"@, "RequestsCookieJar"@, "update"@),
        below_two("requests.cookies"@, "RequestsCookieJar"@, "set_policy"@),
        below_two("requests.cookies"@, "RequestsCookieJar"@, "get_policy"@),
        below_two("requests.cookies"@, "RequestsCookieJar"@, "__getstate__"@),
        below_two("requests.cookies"@, "RequestsCookieJar"@, "__setstate__"@),
        below_two("http.cookiejar"@, "CookieJar"@, "__getattribute__"@),
        below_two("http.cookiejar"@, "CookieJar"@, "__iter__"@),
        below_two("http.cookiejar"@, "CookieJar"@, "set_cookie"@),
        below_two("http.cookiejar"@, "CookieJar"@, "clear"@),
        below_two("http.cookiejar"@, "CookieJar"@, "add_cookie_header"@),
        below_two("http.cookiejar"@, "CookieJar"@, "extract_cookies"@),
        below_two("http.cookiejar"@, "CookieJar"@, "set_policy"@),
        below_two("requests.cookies"@, "RequestsCookieJar"@, "iterkeys"@),
        below_two("requests.cookies"@, "RequestsCookieJar"@, "keys"@),
        below_two("requests.cookies"@, "RequestsCookieJar"@, "itervalues"@),
        below_two("requests.cookies"@, "RequestsCookieJar"@, "values"@),
        below_two("requests.cookies"@, "RequestsCookieJar"@, "iteritems"@),
        below_two("requests.cookies"@, "RequestsCookieJar"@, "items"@),
        below_two("requests.cookies"@, "RequestsCookieJar"@, "list_domains"@),
        below_two("requests.cookies"@, "RequestsCookieJar"@, "list_paths"@),
        below_two("requests.cookies"@, "RequestsCookieJar"@, "multiple_domains"@),
        below_two("requests.cookies"@, "RequestsCookieJar"@, "__getitem__"@),
        below_two("requests.cookies"@, "RequestsCookieJar"@, "get"@),
        below_two("requests.cookies"@, "RequestsCookieJar"@, "_find_no_duplicates"@),
        below_two("requests.models"@, "PreparedRequest"@, "prepare_cookies"@),
        class_below("requests.cookies"@, "MockRequest"@),
        class_below("requests.cookies"@, "MockResponse"@),
        below_two("requests.cookies"@, "time"@, "time"@),
        below_two("requests.cookies"@, "time"@, "strptime"@),
        below_two("requests.cookies"@, "calendar"@, "timegm"@),
        below("copy"@, "copy"@),
        below("pickle"@, "dumps"@),
        below("pickle"@, "loads"@),
        below_two("http.cookies"@, "Morsel"@, "__getitem__"@),
        below_two("http.cookies"@, "Morsel"@, "key"@),
        below_two("http.cookies"@, "Morsel"@, "value"@),
    ]
}

/// Where the objects are found.
fn landmark_list() -> (landmarks: Vec<Landmark>)
    ensures
        landmark_views(landmarks@) == cookie_landmarks(),
{
    let landmarks: Vec<Landmark> = vec![
        Landmark::module("requests.cookies"),
        Landmark::class("requests.cookies", "RequestsCookieJar"),
        Landmark::module("http.cookiejar"),
        Landmark::class("http.cookiejar", "CookieJar"),
        Landmark::class("http.cookiejar", "DefaultCookiePolicy"),
        Landmark::class("http.cookiejar", "Cookie"),
        Landmark::name("requests.cookies", "cookielib"),
        Landmark::two("requests.cookies", "cookielib", "Cookie"),
        Landmark::dictionary("requests.cookies", "create_cookie", "__builtins__"),
        Landmark::two("requests.cookies", "cookielib", "deepvalues"),
        Landmark::three("requests.cookies", "cookielib", "deepvalues", "__code__"),
        Landmark::class("http.cookies", "Morsel"),
        Landmark::module("requests.models"),
        Landmark::class("requests.models", "PreparedRequest"),
        Landmark::class("requests.models", "Response"),
        Landmark::name("requests.cookies", "time"),
        Landmark::name("requests.cookies", "calendar"),
        Landmark::module("copy"),
        Landmark::module("pickle"),
        Landmark::submodule("requests.cookies", "threading"),
        Landmark::two("requests.cookies", "threading", "RLock"),
        Landmark::three("requests.cookies", "threading", "RLock", "__code__"),
        Landmark::three("requests.cookies", "threading", "RLock", "()"),
        Landmark::name("requests.cookies", "create_cookie"),
        Landmark::two("requests.cookies", "create_cookie", "__code__"),
        Landmark::name("requests.cookies", "morsel_to_cookie"),
        Landmark::two("requests.cookies", "morsel_to_cookie", "__code__"),
        Landmark::name("requests.cookies", "remove_cookie_by_name"),
        Landmark::two("requests.cookies", "remove_cookie_by_name", "__code__"),
        Landmark::name("requests.cookies", "get_cookie_header"),
        Landmark::two("requests.cookies", "get_cookie_header", "__code__"),
        Landmark::name("requests.cookies", "extract_cookies_to_jar"),
        Landmark::two("requests.cookies", "extract_cookies_to_jar", "__code__"),
        Landmark::two("requests.cookies", "RequestsCookieJar", "__getattribute__"),
        Landmark::two("requests.cookies", "RequestsCookieJar", "__iter__"),
        Landmark::two("requests.cookies", "RequestsCookieJar", "__contains__"),
        Landmark::two("requests.cookies", "RequestsCookieJar", "set"),
        Landmark::two("requests.cookies", "RequestsCookieJar", "set_cookie"),
        Landmark::two("requests.cookies", "RequestsCookieJar", "get_dict"),
        Landmark::two("requests.cookies", "RequestsCookieJar", "copy"),
        Landmark::two("requests.cookies", "RequestsCookieJar", "update"),
        Landmark::two("requests.cookies", "RequestsCookieJar", "set_policy"),
        Landmark::two("requests.cookies", "RequestsCookieJar", "get_policy"),
        Landmark::two("requests.cookies", "RequestsCookieJar", "__getstate__"),
        Landmark::two("requests.cookies", "RequestsCookieJar", "__setstate__"),
        Landmark::two("http.cookiejar", "CookieJar", "__getattribute__"),
        Landmark::two("http.cookiejar", "CookieJar", "__iter__"),
        Landmark::two("http.cookiejar", "CookieJar", "set_cookie"),
        Landmark::two("http.cookiejar", "CookieJar", "clear"),
        Landmark::two("http.cookiejar", "CookieJar", "add_cookie_header"),
        Landmark::two("http.cookiejar", "CookieJar", "extract_cookies"),
        Landmark::two("http.cookiejar", "CookieJar", "set_policy"),
        Landmark::two("requests.cookies", "RequestsCookieJar", "iterkeys"),
        Landmark::two("requests.cookies", "RequestsCookieJar", "keys"),
        Landmark::two("requests.cookies", "RequestsCookieJar", "itervalues"),
        Landmark::two("requests.cookies", "RequestsCookieJar", "values"),
        Landmark::two("requests.cookies", "RequestsCookieJar", "iteritems"),
        Landmark::two("requests.cookies", "RequestsCookieJar", "items"),
        Landmark::two("requests.cookies", "RequestsCookieJar", "list_domains"),
        Landmark::two("requests.cookies", "RequestsCookieJar", "list_paths"),
        Landmark::two("requests.cookies", "RequestsCookieJar", "multiple_domains"),
        Landmark::two("requests.cookies", "RequestsCookieJar", "__getitem__"),
        Landmark::two("requests.cookies", "RequestsCookieJar", "get"),
        Landmark::two("requests.cookies", "RequestsCookieJar", "_find_no_duplicates"),
        Landmark::two("requests.models", "PreparedRequest", "prepare_cookies"),
        Landmark::class("requests.cookies", "MockRequest"),
        Landmark::class("requests.cookies", "MockResponse"),
        Landmark::two("requests.cookies", "time", "time"),
        Landmark::two("requests.cookies", "time", "strptime"),
        Landmark::two("requests.cookies", "calendar", "timegm"),
        Landmark::name("copy", "copy"),
        Landmark::name("pickle", "dumps"),
        Landmark::name("pickle", "loads"),
        Landmark::two("http.cookies", "Morsel", "__getitem__"),
        Landmark::two("http.cookies", "Morsel", "key"),
        Landmark::two("http.cookies", "Morsel", "value"),
    ];
    assert(landmark_views(landmarks@) =~= cookie_landmarks());
    landmarks
}

/// The objects as they are first met, or why one of them is missing.
pub open spec fn cookie_objects_of(heap: Heap) -> Result<CookieObjects, Failure> {
    match objects_at(heap, cookie_landmarks()) {
        Err(failure) => Err(failure),
        Ok(objects) => Ok(
            CookieObjects {
                module: objects[0],
                jar_type: objects[1],
                std_jar_type: objects[3],
                default_policy_type: objects[4],
                cookie_type: objects[5],
                cookielib: objects[6],
                cookie_constructor: objects[7],
                create_cookie_builtins: objects[8],
                deepvalues: objects[9],
                deepvalues_code: objects[10],
                morsel_type: objects[11],
                prepared_type: objects[13],
                response_type: objects[14],
                time_module: objects[15],
                calendar_module: objects[16],
                copy_module: objects[17],
                pickle_module: objects[18],
                threading_module: objects[19],
                threading_rlock: objects[20],
                threading_rlock_code: objects[21],
                made_rlock: objects[22],
                create_cookie: objects[23],
                create_cookie_code: objects[24],
                morsel_to_cookie: objects[25],
                morsel_to_cookie_code: objects[26],
                remove_cookie_by_name: objects[27],
                remove_cookie_by_name_code: objects[28],
                get_cookie_header: objects[29],
                get_cookie_header_code: objects[30],
                extract_cookies_to_jar: objects[31],
                extract_cookies_to_jar_code: objects[32],
                jar_getattribute: objects[33],
                jar_iter: objects[34],
                jar_contains: objects[35],
                jar_set: objects[36],
                jar_set_cookie: objects[37],
                jar_get_dict: objects[38],
                jar_copy: objects[39],
                jar_update: objects[40],
                jar_set_policy: objects[41],
                jar_get_policy: objects[42],
                jar_getstate: objects[43],
                jar_setstate: objects[44],
                std_getattribute: objects[45],
                std_iter: objects[46],
                std_set_cookie: objects[47],
                std_clear: objects[48],
                std_add_cookie_header: objects[49],
                std_extract_cookies: objects[50],
                std_set_policy: objects[51],
                jar_iterkeys: objects[52],
                jar_keys: objects[53],
                jar_itervalues: objects[54],
                jar_values: objects[55],
                jar_iteritems: objects[56],
                jar_items: objects[57],
                jar_list_domains: objects[58],
                jar_list_paths: objects[59],
                jar_multiple_domains: objects[60],
                jar_getitem: objects[61],
                jar_get: objects[62],
                jar_find_no_duplicates: objects[63],
                prepared_cookies: objects[64],
                mock_request_type: objects[65],
                mock_response_type: objects[66],
                time_time: objects[67],
                time_strptime: objects[68],
                calendar_timegm: objects[69],
                copy_function: objects[70],
                pickle_dumps: objects[71],
                pickle_loads: objects[72],
                morsel_getitem: objects[73],
                morsel_key: objects[74],
                morsel_value: objects[75],
            },
        ),
    }
}

/// Remembers the objects.
pub fn find_cookie_objects(heap: &Heap) -> (state: Result<CookieObjects, Failure>)
    ensures
        state == cookie_objects_of(*heap),
{
    let landmarks = landmark_list();
    assert(landmarks@.len() == 76) by {
        assert(landmark_views(landmarks@).len() == cookie_landmarks().len());
    }
    match find_landmarks(heap, &landmarks) {
        Err(failure) => Err(failure),
        Ok(objects) => Ok(
            CookieObjects {
                module: objects[0],
                jar_type: objects[1],
                std_jar_type: objects[3],
                default_policy_type: objects[4],
                cookie_type: objects[5],
                cookielib: objects[6],
                cookie_constructor: objects[7],
                create_cookie_builtins: objects[8],
                deepvalues: objects[9],
                deepvalues_code: objects[10],
                morsel_type: objects[11],
                prepared_type: objects[13],
                response_type: objects[14],
                time_module: objects[15],
                calendar_module: objects[16],
                copy_module: objects[17],
                pickle_module: objects[18],
                threading_module: objects[19],
                threading_rlock: objects[20],
                threading_rlock_code: objects[21],
                made_rlock: objects[22],
                create_cookie: objects[23],
                create_cookie_code: objects[24],
                morsel_to_cookie: objects[25],
                morsel_to_cookie_code: objects[26],
                remove_cookie_by_name: objects[27],
                remove_cookie_by_name_code: objects[28],
                get_cookie_header: objects[29],
                get_cookie_header_code: objects[30],
                extract_cookies_to_jar: objects[31],
                extract_cookies_to_jar_code: objects[32],
                jar_getattribute: objects[33],
                jar_iter: objects[34],
                jar_contains: objects[35],
                jar_set: objects[36],
                jar_set_cookie: objects[37],
                jar_get_dict: objects[38],
                jar_copy: objects[39],
                jar_update: objects[40],
                jar_set_policy: objects[41],
                jar_get_policy: objects[42],
                jar_getstate: objects[43],
                jar_setstate: objects[44],
                std_getattribute: objects[45],
                std_iter: objects[46],
                std_set_cookie: objects[47],
                std_clear: objects[48],
                std_add_cookie_header: objects[49],
                std_extract_cookies: objects[50],
                std_set_policy: objects[51],
                jar_iterkeys: objects[52],
                jar_keys: objects[53],
                jar_itervalues: objects[54],
                jar_values: objects[55],
                jar_iteritems: objects[56],
                jar_items: objects[57],
                jar_list_domains: objects[58],
                jar_list_paths: objects[59],
                jar_multiple_domains: objects[60],
                jar_getitem: objects[61],
                jar_get: objects[62],
                jar_find_no_duplicates: objects[63],
                prepared_cookies: objects[64],
                mock_request_type: objects[65],
                mock_response_type: objects[66],
                time_time: objects[67],
                time_strptime: objects[68],
                calendar_timegm: objects[69],
                copy_function: objects[70],
                pickle_dumps: objects[71],
                pickle_loads: objects[72],
                morsel_getitem: objects[73],
                morsel_key: objects[74],
                morsel_value: objects[75],
            },
        ),
    }
}

/// The cookie modules as they were first met.
pub struct CookieState {
    pub objects: CookieObjects,
    /// The type of a lock that `threading.RLock` makes.
    pub rlock_type: usize,
    /// `object.__getattribute__`.
    pub object_getattribute: usize,
    pub cookie_mro: Vec<usize>,
    pub jar_mro: Vec<usize>,
    pub std_jar_mro: Vec<usize>,
    pub prepared_mro: Vec<usize>,
    pub response_mro: Vec<usize>,
    pub morsel_mro: Vec<usize>,
}

/// The cookie modules as they were first met.
pub struct CookieView {
    pub objects: CookieObjects,
    pub rlock_type: usize,
    pub object_getattribute: usize,
    pub cookie_mro: Seq<usize>,
    pub jar_mro: Seq<usize>,
    pub std_jar_mro: Seq<usize>,
    pub prepared_mro: Seq<usize>,
    pub response_mro: Seq<usize>,
    pub morsel_mro: Seq<usize>,
}

impl View for CookieState {
    type V = CookieView;

    open spec fn view(&self) -> CookieView {
        CookieView {
            objects: self.objects,
            rlock_type: self.rlock_type,
            object_getattribute: self.object_getattribute,
            cookie_mro: self.cookie_mro@,
            jar_mro: self.jar_mro@,
            std_jar_mro: self.std_jar_mro@,
            prepared_mro: self.prepared_mro@,
            response_mro: self.response_mro@,
            morsel_mro: self.morsel_mro@,
        }
    }
}

/// The cookie modules as they are first met, or why a part of them is missing.
pub open spec fn cookie_state_of(heap: Heap) -> Result<CookieView, Failure> {
    match cookie_objects_of(heap) {
        Err(failure) => Err(failure),
        Ok(objects) => match class_of(heap, objects.made_rlock) {
            None => Err(Failure::Kind),
            Some(rlock_type) => match heap.attribute_of(
                heap.intrinsics.object,
                "__getattribute__"@,
            ) {
                None => Err(Failure::Attribute),
                Some(object_getattribute) => Ok(
                    CookieView {
                        objects,
                        rlock_type,
                        object_getattribute,
                        cookie_mro: heap.mro_of(objects.cookie_type),
                        jar_mro: heap.mro_of(objects.jar_type),
                        std_jar_mro: heap.mro_of(objects.std_jar_type),
                        prepared_mro: heap.mro_of(objects.prepared_type),
                        response_mro: heap.mro_of(objects.response_type),
                        morsel_mro: heap.mro_of(objects.morsel_type),
                    },
                ),
            },
        },
    }
}

/// Remembers the cookie modules.
pub fn initialize_cookie_state(heap: &Heap) -> (state: Result<CookieState, Failure>)
    ensures
        match state {
            Ok(state) => cookie_state_of(*heap) == Ok::<CookieView, Failure>(state@),
            Err(failure) => cookie_state_of(*heap) == Err::<CookieView, Failure>(failure),
        },
{
    let objects = match find_cookie_objects(heap) {
        Ok(objects) => objects,
        Err(failure) => {
            return Err(failure);
        },
    };
    let rlock_type = match heap.get(objects.made_rlock) {
        Some(found) => found.class,
        None => {
            return Err(Failure::Kind);
        },
    };
    let object_getattribute = match heap.attribute(heap.intrinsics.object, "__getattribute__") {
        Some(method) => method,
        None => {
            return Err(Failure::Attribute);
        },
    };
    Ok(
        CookieState {
            objects,
            rlock_type,
            object_getattribute,
            cookie_mro: resolution_order(heap, objects.cookie_type),
            jar_mro: resolution_order(heap, objects.jar_type),
            std_jar_mro: resolution_order(heap, objects.std_jar_type),
            prepared_mro: resolution_order(heap, objects.prepared_type),
            response_mro: resolution_order(heap, objects.response_type),
            morsel_mro: resolution_order(heap, objects.morsel_type),
        },
    )
}

/// The methods that an inspection calls.
pub open spec fn inspect_methods(state: CookieObjects) -> Seq<ExpectationView> {
    seq![
        expects(state.jar_type, "__iter__"@, state.jar_iter),
        expects(state.jar_type, "iterkeys"@, state.jar_iterkeys),
        expects(state.jar_type, "keys"@, state.jar_keys),
        expects(state.jar_type, "itervalues"@, state.jar_itervalues),
        expects(state.jar_type, "values"@, state.jar_values),
        expects(state.jar_type, "iteritems"@, state.jar_iteritems),
        expects(state.jar_type, "items"@, state.jar_items),
        expects(state.jar_type, "list_domains"@, state.jar_list_domains),
        expects(state.jar_type, "list_paths"@, state.jar_list_paths),
        expects(state.jar_type, "multiple_domains"@, state.jar_multiple_domains),
        expects(state.jar_type, "get_dict"@, state.jar_get_dict),
        expects(state.jar_type, "__getitem__"@, state.jar_getitem),
        expects(state.jar_type, "get"@, state.jar_get),
        expects(state.jar_type, "_find_no_duplicates"@, state.jar_find_no_duplicates),
    ]
}

/// Checks the methods that an inspection calls.
pub fn inspect_methods_are_pristine(heap: &Heap, state: &CookieObjects) -> (yes: bool)
    ensures
        yes == type_entries_are(*heap, inspect_methods(*state)),
{
    let expectations: Vec<Expectation> = vec![
        Expectation::new(state.jar_type, "__iter__", state.jar_iter),
        Expectation::new(state.jar_type, "iterkeys", state.jar_iterkeys),
        Expectation::new(state.jar_type, "keys", state.jar_keys),
        Expectation::new(state.jar_type, "itervalues", state.jar_itervalues),
        Expectation::new(state.jar_type, "values", state.jar_values),
        Expectation::new(state.jar_type, "iteritems", state.jar_iteritems),
        Expectation::new(state.jar_type, "items", state.jar_items),
        Expectation::new(state.jar_type, "list_domains", state.jar_list_domains),
        Expectation::new(state.jar_type, "list_paths", state.jar_list_paths),
        Expectation::new(state.jar_type, "multiple_domains", state.jar_multiple_domains),
        Expectation::new(state.jar_type, "get_dict", state.jar_get_dict),
        Expectation::new(state.jar_type, "__getitem__", state.jar_getitem),
        Expectation::new(state.jar_type, "get", state.jar_get),
        Expectation::new(state.jar_type, "_find_no_duplicates", state.jar_find_no_duplicates),
    ];
    assert(expectation_views(expectations@) =~= inspect_methods(*state));
    check_type_entries(heap, &expectations)
}

/// The methods that a mutation calls.
pub open spec fn mutate_methods(state: CookieObjects) -> Seq<ExpectationView> {
    seq![
        expects(state.jar_type, "__getattribute__"@, state.jar_getattribute),
        expects(state.jar_type, "__iter__"@, state.jar_iter),
        expects(state.jar_type, "set"@, state.jar_set),
        expects(state.jar_type, "set_cookie"@, state.jar_set_cookie),
        expects(state.jar_type, "get_dict"@, state.jar_get_dict),
        expects(state.std_jar_type, "set_cookie"@, state.std_set_cookie),
        expects(state.std_jar_type, "clear"@, state.std_clear),
    ]
}

/// Checks the methods that a mutation calls.
pub fn mutate_methods_are_pristine(heap: &Heap, state: &CookieObjects) -> (yes: bool)
    ensures
        yes == type_entries_are(*heap, mutate_methods(*state)),
{
    let expectations: Vec<Expectation> = vec![
        Expectation::new(state.jar_type, "__getattribute__", state.jar_getattribute),
        Expectation::new(state.jar_type, "__iter__", state.jar_iter),
        Expectation::new(state.jar_type, "set", state.jar_set),
        Expectation::new(state.jar_type, "set_cookie", state.jar_set_cookie),
        Expectation::new(state.jar_type, "get_dict", state.jar_get_dict),
        Expectation::new(state.std_jar_type, "set_cookie", state.std_set_cookie),
        Expectation::new(state.std_jar_type, "clear", state.std_clear),
    ];
    assert(expectation_views(expectations@) =~= mutate_methods(*state));
    check_type_entries(heap, &expectations)
}

/// The methods that a copy and its pickling call.
pub open spec fn copy_methods(state: CookieObjects) -> Seq<ExpectationView> {
    seq![
        expects(state.jar_type, "__getattribute__"@, state.jar_getattribute),
        expects(state.jar_type, "__iter__"@, state.jar_iter),
        expects(state.jar_type, "__contains__"@, state.jar_contains),
        expects(state.jar_type, "set"@, state.jar_set),
        expects(state.jar_type, "set_cookie"@, state.jar_set_cookie),
        expects(state.jar_type, "copy"@, state.jar_copy),
        expects(state.jar_type, "update"@, state.jar_update),
        expects(state.jar_type, "set_policy"@, state.jar_set_policy),
        expects(state.jar_type, "get_policy"@, state.jar_get_policy),
        expects(state.jar_type, "__getstate__"@, state.jar_getstate),
        expects(state.jar_type, "__setstate__"@, state.jar_setstate),
        expects(state.std_jar_type, "set_cookie"@, state.std_set_cookie),
        expects(state.std_jar_type, "set_policy"@, state.std_set_policy),
    ]
}

/// Checks the methods that a copy and its pickling call.
pub fn copy_methods_are_pristine(heap: &Heap, state: &CookieObjects) -> (yes: bool)
    ensures
        yes == type_entries_are(*heap, copy_methods(*state)),
{
    let expectations: Vec<Expectation> = vec![
        Expectation::new(state.jar_type, "__getattribute__", state.jar_getattribute),
        Expectation::new(state.jar_type, "__iter__", state.jar_iter),
        Expectation::new(state.jar_type, "__contains__", state.jar_contains),
        Expectation::new(state.jar_type, "set", state.jar_set),
        Expectation::new(state.jar_type, "set_cookie", state.jar_set_cookie),
        Expectation::new(state.jar_type, "copy", state.jar_copy),
        Expectation::new(state.jar_type, "update", state.jar_update),
        Expectation::new(state.jar_type, "set_policy", state.jar_set_policy),
        Expectation::new(state.jar_type, "get_policy", state.jar_get_policy),
        Expectation::new(state.jar_type, "__getstate__", state.jar_getstate),
        Expectation::new(state.jar_type, "__setstate__", state.jar_setstate),
        Expectation::new(state.std_jar_type, "set_cookie", state.std_set_cookie),
        Expectation::new(state.std_jar_type, "set_policy", state.std_set_policy),
    ];
    assert(expectation_views(expectations@) =~= copy_methods(*state));
    check_type_entries(heap, &expectations)
}

/// The methods that walk over a jar of Requests.
pub open spec fn jar_iteration(state: CookieObjects) -> Seq<ExpectationView> {
    seq![
        expects(state.jar_type, "__getattribute__"@, state.jar_getattribute),
        expects(state.jar_type, "__iter__"@, state.jar_iter),
    ]
}

/// Checks the methods that walk over a jar of Requests.
pub fn jar_iteration_are_pristine(heap: &Heap, state: &CookieObjects) -> (yes: bool)
    ensures
        yes == type_entries_are(*heap, jar_iteration(*state)),
{
    let expectations: Vec<Expectation> = vec![
        Expectation::new(state.jar_type, "__getattribute__", state.jar_getattribute),
        Expectation::new(state.jar_type, "__iter__", state.jar_iter),
    ];
    assert(expectation_views(expectations@) =~= jar_iteration(*state));
    check_type_entries(heap, &expectations)
}

/// The methods that walk over a jar of the standard library.
pub open spec fn std_iteration(state: CookieObjects) -> Seq<ExpectationView> {
    seq![
        expects(state.std_jar_type, "__getattribute__"@, state.std_getattribute),
        expects(state.std_jar_type, "__iter__"@, state.std_iter),
    ]
}

/// Checks the methods that walk over a jar of the standard library.
pub fn std_iteration_are_pristine(heap: &Heap, state: &CookieObjects) -> (yes: bool)
    ensures
        yes == type_entries_are(*heap, std_iteration(*state)),
{
    let expectations: Vec<Expectation> = vec![
        Expectation::new(state.std_jar_type, "__getattribute__", state.std_getattribute),
        Expectation::new(state.std_jar_type, "__iter__", state.std_iter),
    ];
    assert(expectation_views(expectations@) =~= std_iteration(*state));
    check_type_entries(heap, &expectations)
}

/// The name space of an object.
pub open spec fn namespace_pairs(heap: Heap, object: usize) -> Result<Seq<Pair>, Failure> {
    match heap.attribute_of(object, "__dict__"@) {
        None => Err(Failure::Attribute),
        Some(namespace) => match heap.dict_of(namespace) {
            None => Err(Failure::Kind),
            Some(pairs) => Ok(pairs),
        },
    }
}

/// The name space of an object, which has to be a dict.
pub fn raw_instance_dict(heap: &Heap, object: usize) -> (pairs: Result<&Vec<Pair>, Failure>)
    ensures
        match pairs {
            Ok(pairs) => namespace_pairs(*heap, object) == Ok::<Seq<Pair>, Failure>(pairs@),
            Err(failure) => namespace_pairs(*heap, object) == Err::<Seq<Pair>, Failure>(failure),
        },
{
    match heap.attribute(object, "__dict__") {
        None => Err(Failure::Attribute),
        Some(namespace) => match heap.dict(namespace) {
            None => Err(Failure::Kind),
            Some(pairs) => Ok(pairs),
        },
    }
}

/// Whether a module's name space has exact texts as keys only, and an object
/// under a name.
pub open spec fn module_holds(heap: Heap, module: usize, name: Seq<char>, value: usize) -> Check {
    match namespace_pairs(heap, module) {
        Err(failure) => Err(failure),
        Ok(pairs) => Ok(has_text_keys(heap, pairs) && heap.keyed(pairs, name) == Some(value)),
    }
}

/// Whether a module's name space has exact texts as keys only, and an object
/// under a name.
pub fn module_entry_is(heap: &Heap, module: usize, name: &str, value: usize) -> (check: Check)
    ensures
        check == module_holds(*heap, module, name@, value),
{
    let pairs = match raw_instance_dict(heap, module) {
        Ok(pairs) => pairs,
        Err(failure) => {
            return Err(failure);
        },
    };
    if !keys_are_texts(heap, pairs) {
        return Ok(false);
    }
    match heap.find_keyed(pairs, name) {
        Some(found) => Ok(found == value),
        None => Ok(false),
    }
}

/// A function of the cookie module, with its code.
#[derive(Clone, Copy)]
pub struct TrustedFunction {
    pub name: &'static str,
    pub function: usize,
    pub code: usize,
}

/// A function of the cookie module, with its code.
pub struct TrustedFunctionView {
    pub name: Seq<char>,
    pub function: usize,
    pub code: usize,
}

impl View for TrustedFunction {
    type V = TrustedFunctionView;

    open spec fn view(&self) -> TrustedFunctionView {
        TrustedFunctionView { name: self.name@, function: self.function, code: self.code }
    }
}

/// The functions of the cookie module that are guarded.
#[derive(Clone, Copy, Debug, PartialEq, Eq, Structural)]
pub enum CookieFunction {
    CreateCookie,
    MorselToCookie,
    RemoveCookieByName,
    GetCookieHeader,
    ExtractCookiesToJar,
}

impl CookieFunction {
    /// The function as it was first met.
    pub open spec fn met(self, state: CookieObjects) -> TrustedFunctionView {
        match self {
            CookieFunction::CreateCookie => TrustedFunctionView {
                name: "create_cookie"@,
                function: state.create_cookie,
                code: state.create_cookie_code,
            },
            CookieFunction::MorselToCookie => TrustedFunctionView {
                name: "morsel_to_cookie"@,
                function: state.morsel_to_cookie,
                code: state.morsel_to_cookie_code,
            },
            CookieFunction::RemoveCookieByName => TrustedFunctionView {
                name: "remove_cookie_by_name"@,
                function: state.remove_cookie_by_name,
                code: state.remove_cookie_by_name_code,
            },
            CookieFunction::GetCookieHeader => TrustedFunctionView {
                name: "get_cookie_header"@,
                function: state.get_cookie_header,
                code: state.get_cookie_header_code,
            },
            CookieFunction::ExtractCookiesToJar => TrustedFunctionView {
                name: "extract_cookies_to_jar"@,
                function: state.extract_cookies_to_jar,
                code: state.extract_cookies_to_jar_code,
            },
        }
    }

    /// The function as it was first met.
    pub fn first_met(&self, state: &CookieObjects) -> (function: TrustedFunction)
        ensures
            function@ == self.met(*state),
    {
        match self {
            CookieFunction::CreateCookie => TrustedFunction {
                name: "create_cookie",
                function: state.create_cookie,
                code: state.create_cookie_code,
            },
            CookieFunction::MorselToCookie => TrustedFunction {
                name: "morsel_to_cookie",
                function: state.morsel_to_cookie,
                code: state.morsel_to_cookie_code,
            },
            CookieFunction::RemoveCookieByName => TrustedFunction {
                name: "remove_cookie_by_name",
                function: state.remove_cookie_by_name,
                code: state.remove_cookie_by_name_code,
            },
            CookieFunction::GetCookieHeader => TrustedFunction {
                name: "get_cookie_header",
                function: state.get_cookie_header,
                code: state.get_cookie_header_code,
            },
            CookieFunction::ExtractCookiesToJar => TrustedFunction {
                name: "extract_cookies_to_jar",
                function: state.extract_cookies_to_jar,
                code: state.extract_cookies_to_jar_code,
            },
        }
    }
}

/// Whether a name space holds a function with its code.
pub open spec fn holds_function(heap: Heap, pairs: Seq<Pair>, function: TrustedFunctionView) -> Check {
    match heap.keyed(pairs, function.name) {
        None => Ok(false),
        Some(current) => both(
            Ok(current == function.function),
            attribute_is(heap, current, "__code__"@, function.code),
        ),
    }
}

/// Whether a name space holds a function with its code.
fn check_function(heap: &Heap, pairs: &Vec<Pair>, function: &TrustedFunction) -> (check: Check)
    ensures
        check == holds_function(*heap, pairs@, function@),
{
    match heap.find_keyed(pairs, function.name) {
        None => Ok(false),
        Some(current) => if current != function.function {
            Ok(false)
        } else {
            check_attribute_is(heap, current, "__code__", function.code)
        },
    }
}

/// Whether a name space holds every function of a list with its code.
pub open spec fn hold_functions(
    heap: Heap,
    pairs: Seq<Pair>,
    state: CookieObjects,
    functions: Seq<CookieFunction>,
) -> Check
    decreases functions.len(),
{
    if functions.len() == 0 {
        Ok(true)
    } else {
        both(
            holds_function(heap, pairs, functions[0].met(state)),
            hold_functions(heap, pairs, state, functions.drop_first()),
        )
    }
}

/// Whether the cookie module holds every function of a list with its code.
pub open spec fn functions_pristine(heap: Heap, state: CookieObjects, functions: Seq<CookieFunction>) -> Check {
    match namespace_pairs(heap, state.module) {
        Err(failure) => Err(failure),
        Ok(pairs) => both(
            Ok(has_text_keys(heap, pairs)),
            hold_functions(heap, pairs, state, functions),
        ),
    }
}

/// Whether the cookie module holds every function of a list with its code.
pub fn module_functions_are_pristine(
    heap: &Heap,
    state: &CookieObjects,
    functions: &Vec<CookieFunction>,
) -> (check: Check)
    ensures
        check == functions_pristine(*heap, *state, functions@),
{
    let pairs = match raw_instance_dict(heap, state.module) {
        Ok(pairs) => pairs,
        Err(failure) => {
            return Err(failure);
        },
    };
    if !keys_are_texts(heap, pairs) {
        return Ok(false);
    }
    let mut index: usize = 0;
    assert(functions@.skip(0) =~= functions@);
    while index < functions.len()
        invariant
            index <= functions.len(),
            functions_pristine(*heap, *state, functions@) == hold_functions(
                *heap,
                pairs@,
                *state,
                functions@.skip(index as int),
            ),
        decreases functions.len() - index,
    {
        assert(functions@.skip(index as int).drop_first() =~= functions@.skip(index + 1));
        assert(functions@.skip(index as int)[0] == functions@[index as int]);
        let function = functions[index].first_met(state);
        match check_function(heap, pairs, &function) {
            Ok(true) => {},
            other => {
                return other;
            },
        }
        index = index + 1;
    }
    Ok(true)
}

/// Whether looking a function of the cookie module up, from code with given
/// globals, runs no code of anybody else.
pub open spec fn lookup_is_plain(
    heap: Heap,
    state: CookieObjects,
    globals: GlobalResolver,
    function: CookieFunction,
) -> Check {
    match (heap.dict_of(globals.globals), heap.dict_of(globals.builtins)) {
        (Some(module_names), Some(builtin_names)) => if !has_text_keys(heap, module_names)
            || !has_text_keys(heap, builtin_names) {
            Ok(false)
        } else {
            match globals.resolved(heap, "cookies_module"@) {
                None => Ok(false),
                Some(source) => if source != state.module || !heap.is_exactly(
                    source,
                    heap.intrinsics.module_type,
                ) {
                    Ok(false)
                } else {
                    functions_pristine(heap, state, seq![function])
                },
            }
        },
        _ => Err(Failure::Kind),
    }
}

/// Whether looking a function of the cookie module up runs no code of anybody
/// else.
pub fn source_module_function_lookup_is_callback_free(
    heap: &Heap,
    state: &CookieObjects,
    globals: &GlobalResolver,
    function: CookieFunction,
) -> (check: Check)
    ensures
        check == lookup_is_plain(*heap, *state, *globals, function),
{
    let (module_names, builtin_names) = match (
        heap.dict(globals.globals),
        heap.dict(globals.builtins),
    ) {
        (Some(module_names), Some(builtin_names)) => (module_names, builtin_names),
        _ => {
            return Err(Failure::Kind);
        },
    };
    if !keys_are_texts(heap, module_names) || !keys_are_texts(heap, builtin_names) {
        return Ok(false);
    }
    let source = match globals.get(heap, "cookies_module") {
        Some(source) => source,
        None => {
            return Ok(false);
        },
    };
    if source != state.module || !heap.exactly(source, heap.intrinsics.module_type) {
        return Ok(false);
    }
    let functions: Vec<CookieFunction> = vec![function];
    assert(functions@ =~= seq![function]);
    module_functions_are_pristine(heap, state, &functions)
}

/// What the cookie module's own name for the standard library's cookie module
/// gives, where it is the one first met.
pub open spec fn cookielib_pairs(heap: Heap, state: CookieObjects) -> Result<Option<Seq<Pair>>, Failure> {
    match namespace_pairs(heap, state.module) {
        Err(failure) => Err(failure),
        Ok(pairs) => if heap.keyed(pairs, "cookielib"@) != Some(state.cookielib) {
            Ok(None)
        } else if !is_module(heap, state.cookielib) {
            Err(Failure::Kind)
        } else {
            match namespace_pairs(heap, state.cookielib) {
                Err(failure) => Err(failure),
                Ok(inner) => if has_text_keys(heap, inner) {
                    Ok(Some(inner))
                } else {
                    Ok(None)
                },
            }
        },
    }
}

/// What the cookie module's own name for the standard library's cookie module
/// gives, where it is the one first met.
fn live_cookielib<'a>(heap: &'a Heap, state: &CookieObjects) -> (pairs: Result<
    Option<&'a Vec<Pair>>,
    Failure,
>)
    ensures
        match pairs {
            Ok(Some(pairs)) => cookielib_pairs(*heap, *state) == Ok::<Option<Seq<Pair>>, Failure>(
                Some(pairs@),
            ),
            Ok(None) => cookielib_pairs(*heap, *state) == Ok::<Option<Seq<Pair>>, Failure>(None),
            Err(failure) => cookielib_pairs(*heap, *state) == Err::<Option<Seq<Pair>>, Failure>(
                failure,
            ),
        },
{
    let pairs = match raw_instance_dict(heap, state.module) {
        Ok(pairs) => pairs,
        Err(failure) => {
            return Err(failure);
        },
    };
    match heap.find_keyed(pairs, "cookielib") {
        Some(found) => if found != state.cookielib {
            return Ok(None);
        },
        None => {
            return Ok(None);
        },
    }
    if !module_object(heap, state.cookielib) {
        return Err(Failure::Kind);
    }
    match raw_instance_dict(heap, state.cookielib) {
        Ok(inner) => if keys_are_texts(heap, inner) {
            Ok(Some(inner))
        } else {
            Ok(None)
        },
        Err(failure) => Err(failure),
    }
}

/// Whether the cookie module has exact texts as keys only.
pub open spec fn module_is_plain(heap: Heap, state: CookieObjects) -> Check {
    match namespace_pairs(heap, state.module) {
        Err(failure) => Err(failure),
        Ok(pairs) => Ok(has_text_keys(heap, pairs)),
    }
}

/// Whether the cookie module has exact texts as keys only.
fn check_module_is_plain(heap: &Heap, state: &CookieObjects) -> (check: Check)
    ensures
        check == module_is_plain(*heap, *state),
{
    match raw_instance_dict(heap, state.module) {
        Ok(pairs) => Ok(keys_are_texts(heap, pairs)),
        Err(failure) => Err(failure),
    }
}

/// Whether the walk over nested values is the one first met.
pub open spec fn deepvalues_pristine(heap: Heap, state: CookieObjects) -> Check {
    both(
        module_is_plain(heap, state),
        match cookielib_pairs(heap, state) {
            Err(failure) => Err(failure),
            Ok(None) => Ok(false),
            Ok(Some(pairs)) => holds_function(
                heap,
                pairs,
                TrustedFunctionView {
                    name: "deepvalues"@,
                    function: state.deepvalues,
                    code: state.deepvalues_code,
                },
            ),
        },
    )
}

/// Whether the walk over nested values is the one first met.
pub fn deepvalues_is_pristine(heap: &Heap, state: &CookieObjects) -> (check: Check)
    ensures
        check == deepvalues_pristine(*heap, *state),
{
    match check_module_is_plain(heap, state) {
        Ok(true) => {},
        other => {
            return other;
        },
    }
    match live_cookielib(heap, state) {
        Err(failure) => Err(failure),
        Ok(None) => Ok(false),
        Ok(Some(pairs)) => {
            let function = TrustedFunction {
                name: "deepvalues",
                function: state.deepvalues,
                code: state.deepvalues_code,
            };
            check_function(heap, pairs, &function)
        },
    }
}

/// Whether the clock and the calendar are the ones first met.
pub open spec fn clock_pristine(heap: Heap, state: CookieObjects) -> Check {
    both(
        module_holds(heap, state.module, "time"@, state.time_module),
        both(
            attribute_is(heap, state.time_module, "time"@, state.time_time),
            both(
                attribute_is(heap, state.time_module, "strptime"@, state.time_strptime),
                both(
                    module_holds(heap, state.module, "calendar"@, state.calendar_module),
                    attribute_is(heap, state.calendar_module, "timegm"@, state.calendar_timegm),
                ),
            ),
        ),
    )
}

/// Whether the clock and the calendar are the ones first met.
fn check_clock(heap: &Heap, state: &CookieObjects) -> (check: Check)
    ensures
        check == clock_pristine(*heap, *state),
{
    match module_entry_is(heap, state.module, "time", state.time_module) {
        Ok(true) => {},
        other => {
            return other;
        },
    }
    match check_attribute_is(heap, state.time_module, "time", state.time_time) {
        Ok(true) => {},
        other => {
            return other;
        },
    }
    match check_attribute_is(heap, state.time_module, "strptime", state.time_strptime) {
        Ok(true) => {},
        other => {
            return other;
        },
    }
    match module_entry_is(heap, state.module, "calendar", state.calendar_module) {
        Ok(true) => {},
        other => {
            return other;
        },
    }
    check_attribute_is(heap, state.calendar_module, "timegm", state.calendar_timegm)
}

/// Whether the constructor of cookies is the one first met.
pub open spec fn constructor_pristine(heap: Heap, state: CookieObjects) -> Check {
    match cookielib_pairs(heap, state) {
        Err(failure) => Err(failure),
        Ok(None) => Ok(false),
        Ok(Some(pairs)) => Ok(heap.keyed(pairs, "Cookie"@) == Some(state.cookie_constructor)),
    }
}

/// Whether what makes cookies is what was first met: the functions of a list,
/// the constructor and, where morsels are turned into cookies, the clock.
pub open spec fn conversion_pristine(
    heap: Heap,
    state: CookieObjects,
    functions: Seq<CookieFunction>,
) -> Check {
    both(
        functions_pristine(heap, state, functions),
        both(
            constructor_pristine(heap, state),
            if functions.contains(CookieFunction::MorselToCookie) {
                clock_pristine(heap, state)
            } else {
                Ok(true)
            },
        ),
    )
}

/// Whether a list has the function that turns morsels into cookies.
fn lists_morsel(functions: &Vec<CookieFunction>) -> (yes: bool)
    ensures
        yes == functions@.contains(CookieFunction::MorselToCookie),
{
    let mut index: usize = 0;
    while index < functions.len()
        invariant
            index <= functions.len(),
            forall|i: int| 0 <= i < index ==> functions@[i] != CookieFunction::MorselToCookie,
        decreases functions.len() - index,
    {
        if functions[index] == CookieFunction::MorselToCookie {
            assert(functions@[index as int] == CookieFunction::MorselToCookie);
            return true;
        }
        index = index + 1;
    }
    false
}

/// Whether what makes cookies is what was first met.
pub fn conversion_globals_are_pristine(
    heap: &Heap,
    state: &CookieObjects,
    functions: &Vec<CookieFunction>,
) -> (check: Check)
    ensures
        check == conversion_pristine(*heap, *state, functions@),
{
    match module_functions_are_pristine(heap, state, functions) {
        Ok(true) => {},
        other => {
            return other;
        },
    }
    match live_cookielib(heap, state) {
        Err(failure) => {
            return Err(failure);
        },
        Ok(None) => {
            return Ok(false);
        },
        Ok(Some(pairs)) => match heap.find_keyed(pairs, "Cookie") {
            Some(found) => if found != state.cookie_constructor {
                return Ok(false);
            },
            None => {
                return Ok(false);
            },
        },
    }
    if lists_morsel(functions) {
        check_clock(heap, state)
    } else {
        Ok(true)
    }
}

/// Whether copying and pickling are the ones first met.
pub open spec fn copy_pickle_pristine(heap: Heap, state: CookieObjects) -> Check {
    both(
        Ok(type_entries_are(heap, copy_methods(state))),
        both(
            module_holds(heap, state.copy_module, "copy"@, state.copy_function),
            both(
                module_holds(heap, state.pickle_module, "dumps"@, state.pickle_dumps),
                module_holds(heap, state.pickle_module, "loads"@, state.pickle_loads),
            ),
        ),
    )
}

/// Whether copying and pickling are the ones first met.
pub fn copy_pickle_dependencies_are_pristine(heap: &Heap, state: &CookieObjects) -> (check: Check)
    ensures
        check == copy_pickle_pristine(*heap, *state),
{
    if !copy_methods_are_pristine(heap, state) {
        return Ok(false);
    }
    match module_entry_is(heap, state.copy_module, "copy", state.copy_function) {
        Ok(true) => {},
        other => {
            return other;
        },
    }
    match module_entry_is(heap, state.pickle_module, "dumps", state.pickle_dumps) {
        Ok(true) => {},
        other => {
            return other;
        },
    }
    module_entry_is(heap, state.pickle_module, "loads", state.pickle_loads)
}

/// Whether the maker of locks is the one first met.
pub open spec fn threading_pristine(heap: Heap, state: CookieObjects) -> Check {
    both(
        module_holds(heap, state.module, "threading"@, state.threading_module),
        match namespace_pairs(heap, state.threading_module) {
            Err(failure) => Err(failure),
            Ok(pairs) => both(
                Ok(has_text_keys(heap, pairs)),
                holds_function(
                    heap,
                    pairs,
                    TrustedFunctionView {
                        name: "RLock"@,
                        function: state.threading_rlock,
                        code: state.threading_rlock_code,
                    },
                ),
            ),
        },
    )
}

/// Whether the maker of locks is the one first met.
pub fn threading_rlock_is_pristine(heap: &Heap, state: &CookieObjects) -> (check: Check)
    ensures
        check == threading_pristine(*heap, *state),
{
    match module_entry_is(heap, state.module, "threading", state.threading_module) {
        Ok(true) => {},
        other => {
            return other;
        },
    }
    let pairs = match raw_instance_dict(heap, state.threading_module) {
        Ok(pairs) => pairs,
        Err(failure) => {
            return Err(failure);
        },
    };
    if !keys_are_texts(heap, pairs) {
        return Ok(false);
    }
    let function = TrustedFunction {
        name: "RLock",
        function: state.threading_rlock,
        code: state.threading_rlock_code,
    };
    check_function(heap, pairs, &function)
}

/// What the cookie module's code gets for `cookielib`: the module's own name,
/// else a built-in of `create_cookie`, else an error.
pub fn load_live_cookielib_global(heap: &Heap, state: &CookieObjects) -> (found: Result<
    usize,
    Failure,
>)
    ensures
        found == (match namespace_pairs(*heap, state.module) {
            Err(failure) => Err(failure),
            Ok(pairs) => match heap.keyed(pairs, "cookielib"@) {
                Some(value) => Ok(value),
                None => match heap.entry_of(state.create_cookie_builtins, "cookielib"@) {
                    Some(value) => Ok(value),
                    None => Err(Failure::Name),
                },
            },
        }),
{
    let pairs = match raw_instance_dict(heap, state.module) {
        Ok(pairs) => pairs,
        Err(failure) => {
            return Err(failure);
        },
    };
    match heap.find_keyed(pairs, "cookielib") {
        Some(value) => Ok(value),
        None => match heap.entry(state.create_cookie_builtins, "cookielib") {
            Some(value) => Ok(value),
            None => Err(Failure::Name),
        },
    }
}

/// What a function's code gets for a name, or an error.
pub fn load_live_function_global(heap: &Heap, globals: &GlobalResolver, name: &str) -> (found: Result<
    usize,
    Failure,
>)
    ensures
        found == (match globals.resolved(*heap, name@) {
            Some(value) => Ok(value),
            None => Err(Failure::Name),
        }),
{
    match globals.get(heap, name) {
        Some(value) => Ok(value),
        None => Err(Failure::Name),
    }
}

/// The name spaces of a callable, where it is exactly a Python function whose
/// built-ins are exactly a dict.
pub open spec fn function_globals_of(heap: Heap, callable: usize) -> Result<
    Option<GlobalResolver>,
    Failure,
> {
    if !heap.is_exactly(callable, heap.intrinsics.function) {
        Ok(None)
    } else {
        match heap.attribute_of(callable, "__globals__"@) {
            None => Err(Failure::Attribute),
            Some(globals) => if heap.dict_of(globals) is None {
                Err(Failure::Kind)
            } else {
                match heap.attribute_of(callable, "__builtins__"@) {
                    None => Err(Failure::Attribute),
                    Some(builtins) => if heap.is_exactly(builtins, heap.intrinsics.dict) {
                        Ok(Some(GlobalResolver { globals, builtins }))
                    } else {
                        Ok(None)
                    },
                }
            },
        }
    }
}

/// The name spaces of a callable, where it is exactly a Python function whose
/// built-ins are exactly a dict.
pub fn exact_function_global_owner(heap: &Heap, callable: usize) -> (owner: Result<
    Option<GlobalResolver>,
    Failure,
>)
    ensures
        owner == function_globals_of(*heap, callable),
{
    if !heap.exactly(callable, heap.intrinsics.function) {
        return Ok(None);
    }
    let globals = match heap.attribute(callable, "__globals__") {
        Some(globals) => globals,
        None => {
            return Err(Failure::Attribute);
        },
    };
    if heap.dict(globals).is_none() {
        return Err(Failure::Kind);
    }
    match heap.attribute(callable, "__builtins__") {
        None => Err(Failure::Attribute),
        Some(builtins) => if heap.exactly(builtins, heap.intrinsics.dict) {
            Ok(Some(GlobalResolver { globals, builtins }))
        } else {
            Ok(None)
        },
    }
}

/// A function that was replaced in the cookie module is no longer trusted,
/// whichever of a list it is.
pub proof fn law_replaced_functions_are_refused(
    heap: Heap,
    state: CookieObjects,
    functions: Seq<CookieFunction>,
    place: int,
)
    requires
        0 <= place < functions.len(),
        namespace_pairs(heap, state.module) matches Ok(pairs) && heap.keyed(
            pairs,
            functions[place].met(state).name,
        ) != Some(functions[place].met(state).function),
    ensures
        functions_pristine(heap, state, functions) != Ok::<bool, Failure>(true),
        conversion_pristine(heap, state, functions) != Ok::<bool, Failure>(true),
{
    match namespace_pairs(heap, state.module) {
        Ok(pairs) => {
            lemma_replaced_function(heap, pairs, state, functions, place);
        },
        Err(_) => {},
    }
}

/// A name space without one of the functions does not hold them all.
proof fn lemma_replaced_function(
    heap: Heap,
    pairs: Seq<Pair>,
    state: CookieObjects,
    functions: Seq<CookieFunction>,
    place: int,
)
    requires
        0 <= place < functions.len(),
        heap.keyed(pairs, functions[place].met(state).name) != Some(
            functions[place].met(state).function,
        ),
    ensures
        hold_functions(heap, pairs, state, functions) != Ok::<bool, Failure>(true),
    decreases functions.len(),
{
    if place > 0 {
        assert(functions.drop_first()[place - 1] == functions[place]);
        lemma_replaced_function(heap, pairs, state, functions.drop_first(), place - 1);
    }
}

/// Whether an object stands at a landmark.
pub open spec fn stands_at(heap: Heap, landmark: LandmarkView, object: usize) -> bool {
    object_at(heap, landmark) == Ok::<usize, Failure>(object)
}

/// The modules, classes and functions of cookies are those at the places that their
/// names tell.
pub proof fn law_modules_and_classes_of_cookies(heap: Heap, objects: CookieObjects)
    requires
        cookie_objects_of(heap) == Ok::<CookieObjects, Failure>(objects),
    ensures
        stands_at(heap, in_module("requests.cookies"@), objects.module),
        stands_at(heap, class_below("requests.cookies"@, "RequestsCookieJar"@), objects.jar_type),
        stands_at(heap, class_below("http.cookiejar"@, "CookieJar"@), objects.std_jar_type),
        stands_at(heap, class_below("http.cookiejar"@, "DefaultCookiePolicy"@), objects.default_policy_type),
        stands_at(heap, class_below("http.cookiejar"@, "Cookie"@), objects.cookie_type),
        stands_at(heap, below("requests.cookies"@, "cookielib"@), objects.cookielib),
        stands_at(heap, below_two("requests.cookies"@, "cookielib"@, "Cookie"@), objects.cookie_constructor),
        stands_at(heap, dictionary_below("requests.cookies"@, "create_cookie"@, "__builtins__"@), objects.create_cookie_builtins),
        stands_at(heap, below_two("requests.cookies"@, "cookielib"@, "deepvalues"@), objects.deepvalues),
        stands_at(heap, below_three("requests.cookies"@, "cookielib"@, "deepvalues"@, "__code__"@), objects.deepvalues_code),
        stands_at(heap, class_below("http.cookies"@, "Morsel"@), objects.morsel_type),
        stands_at(heap, class_below("requests.models"@, "PreparedRequest"@), objects.prepared_type),
        stands_at(heap, class_below("requests.models"@, "Response"@), objects.response_type),
        stands_at(heap, below("requests.cookies"@, "time"@), objects.time_module),
        stands_at(heap, below("requests.cookies"@, "calendar"@), objects.calendar_module),
        stands_at(heap, in_module("copy"@), objects.copy_module),
        stands_at(heap, in_module("pickle"@), objects.pickle_module),
        stands_at(heap, module_below("requests.cookies"@, "threading"@), objects.threading_module),
        stands_at(heap, below_two("requests.cookies"@, "threading"@, "RLock"@), objects.threading_rlock),
{
    let landmarks = cookie_landmarks();
    let found = objects_at(heap, landmarks)->Ok_0;
    crate::landmarks::law_objects_are_those_at_their_landmarks(heap, landmarks, found);
    assert(object_at(heap, landmarks[0]) is Ok);
    assert(object_at(heap, landmarks[1]) is Ok);
    assert(object_at(heap, landmarks[3]) is Ok);
    assert(object_at(heap, landmarks[4]) is Ok);
    assert(object_at(heap, landmarks[5]) is Ok);
    assert(object_at(heap, landmarks[6]) is Ok);
    assert(object_at(heap, landmarks[7]) is Ok);
    assert(object_at(heap, landmarks[8]) is Ok);
    assert(object_at(heap, landmarks[9]) is Ok);
    assert(object_at(heap, landmarks[10]) is Ok);
    assert(object_at(heap, landmarks[11]) is Ok);
    assert(object_at(heap, landmarks[13]) is Ok);
    assert(object_at(heap, landmarks[14]) is Ok);
    assert(object_at(heap, landmarks[15]) is Ok);
    assert(object_at(heap, landmarks[16]) is Ok);
    assert(object_at(heap, landmarks[17]) is Ok);
    assert(object_at(heap, landmarks[18]) is Ok);
    assert(object_at(heap, landmarks[19]) is Ok);
    assert(object_at(heap, landmarks[20]) is Ok);
}

/// The functions of cookies, and the methods that change a jar, are those at the
/// places that their names tell.
pub proof fn law_functions_of_cookies(heap: Heap, objects: CookieObjects)
    requires
        cookie_objects_of(heap) == Ok::<CookieObjects, Failure>(objects),
    ensures
        stands_at(heap, below_three("requests.cookies"@, "threading"@, "RLock"@, "__code__"@), objects.threading_rlock_code),
        stands_at(heap, below_three("requests.cookies"@, "threading"@, "RLock"@, "()"@), objects.made_rlock),
        stands_at(heap, below("requests.cookies"@, "create_cookie"@), objects.create_cookie),
        stands_at(heap, below_two("requests.cookies"@, "create_cookie"@, "__code__"@), objects.create_cookie_code),
        stands_at(heap, below("requests.cookies"@, "morsel_to_cookie"@), objects.morsel_to_cookie),
        stands_at(heap, below_two("requests.cookies"@, "morsel_to_cookie"@, "__code__"@), objects.morsel_to_cookie_code),
        stands_at(heap, below("requests.cookies"@, "remove_cookie_by_name"@), objects.remove_cookie_by_name),
        stands_at(heap, below_two("requests.cookies"@, "remove_cookie_by_name"@, "__code__"@), objects.remove_cookie_by_name_code),
        stands_at(heap, below("requests.cookies"@, "get_cookie_header"@), objects.get_cookie_header),
        stands_at(heap, below_two("requests.cookies"@, "get_cookie_header"@, "__code__"@), objects.get_cookie_header_code),
        stands_at(heap, below("requests.cookies"@, "extract_cookies_to_jar"@), objects.extract_cookies_to_jar),
        stands_at(heap, below_two("requests.cookies"@, "extract_cookies_to_jar"@, "__code__"@), objects.extract_cookies_to_jar_code),
        stands_at(heap, below_two("requests.cookies"@, "RequestsCookieJar"@, "__getattribute__"@), objects.jar_getattribute),
        stands_at(heap, below_two("requests.cookies"@, "RequestsCookieJar"@, "__iter__"@), objects.jar_iter),
        stands_at(heap, below_two("requests.cookies"@, "RequestsCookieJar"@, "__contains__"@), objects.jar_contains),
        stands_at(heap, below_two("requests.cookies"@, "RequestsCookieJar"@, "set"@), objects.jar_set),
        stands_at(heap, below_two("requests.cookies"@, "RequestsCookieJar"@, "set_cookie"@), objects.jar_set_cookie),
        stands_at(heap, below_two("requests.cookies"@, "RequestsCookieJar"@, "get_dict"@), objects.jar_get_dict),
        stands_at(heap, below_two("requests.cookies"@, "RequestsCookieJar"@, "copy"@), objects.jar_copy),
{
    let landmarks = cookie_landmarks();
    let found = objects_at(heap, landmarks)->Ok_0;
    crate::landmarks::law_objects_are_those_at_their_landmarks(heap, landmarks, found);
    assert(object_at(heap, landmarks[21]) is Ok);
    assert(object_at(heap, landmarks[22]) is Ok);
    assert(object_at(heap, landmarks[23]) is Ok);
    assert(object_at(heap, landmarks[24]) is Ok);
    assert(object_at(heap, landmarks[25]) is Ok);
    assert(object_at(heap, landmarks[26]) is Ok);
    assert(object_at(heap, landmarks[27]) is Ok);
    assert(object_at(heap, landmarks[28]) is Ok);
    assert(object_at(heap, landmarks[29]) is Ok);
    assert(object_at(heap, landmarks[30]) is Ok);
    assert(object_at(heap, landmarks[31]) is Ok);
    assert(object_at(heap, landmarks[32]) is Ok);
    assert(object_at(heap, landmarks[33]) is Ok);
    assert(object_at(heap, landmarks[34]) is Ok);
    assert(object_at(heap, landmarks[35]) is Ok);
    assert(object_at(heap, landmarks[36]) is Ok);
    assert(object_at(heap, landmarks[37]) is Ok);
    assert(object_at(heap, landmarks[38]) is Ok);
    assert(object_at(heap, landmarks[39]) is Ok);
}

/// The methods of jars are those at the places that their names tell.
pub proof fn law_methods_of_jars(heap: Heap, objects: CookieObjects)
    requires
        cookie_objects_of(heap) == Ok::<CookieObjects, Failure>(objects),
    ensures
        stands_at(heap, below_two("requests.cookies"@, "RequestsCookieJar"@, "update"@), objects.jar_update),
        stands_at(heap, below_two("requests.cookies"@, "RequestsCookieJar"@, "set_policy"@), objects.jar_set_policy),
        stands_at(heap, below_two("requests.cookies"@, "RequestsCookieJar"@, "get_policy"@), objects.jar_get_policy),
        stands_at(heap, below_two("requests.cookies"@, "RequestsCookieJar"@, "__getstate__"@), objects.jar_getstate),
        stands_at(heap, below_two("requests.cookies"@, "RequestsCookieJar"@, "__setstate__"@), objects.jar_setstate),
        stands_at(heap, below_two("http.cookiejar"@, "CookieJar"@, "__getattribute__"@), objects.std_getattribute),
        stands_at(heap, below_two("http.cookiejar"@, "CookieJar"@, "__iter__"@), objects.std_iter),
        stands_at(heap, below_two("http.cookiejar"@, "CookieJar"@, "set_cookie"@), objects.std_set_cookie),
        stands_at(heap, below_two("http.cookiejar"@, "CookieJar"@, "clear"@), objects.std_clear),
        stands_at(heap, below_two("http.cookiejar"@, "CookieJar"@, "add_cookie_header"@), objects.std_add_cookie_header),
        stands_at(heap, below_two("http.cookiejar"@, "CookieJar"@, "extract_cookies"@), objects.std_extract_cookies),
        stands_at(heap, below_two("http.cookiejar"@, "CookieJar"@, "set_policy"@), objects.std_set_policy),
        stands_at(heap, below_two("requests.cookies"@, "RequestsCookieJar"@, "iterkeys"@), objects.jar_iterkeys),
        stands_at(heap, below_two("requests.cookies"@, "RequestsCookieJar"@, "keys"@), objects.jar_keys),
        stands_at(heap, below_two("requests.cookies"@, "RequestsCookieJar"@, "itervalues"@), objects.jar_itervalues),
        stands_at(heap, below_two("requests.cookies"@, "RequestsCookieJar"@, "values"@), objects.jar_values),
        stands_at(heap, below_two("requests.cookies"@, "RequestsCookieJar"@, "iteritems"@), objects.jar_iteritems),
        stands_at(heap, below_two("requests.cookies"@, "RequestsCookieJar"@, "items"@), objects.jar_items),
        stands_at(heap, below_two("requests.cookies"@, "RequestsCookieJar"@, "list_domains"@), objects.jar_list_domains),
{
    let landmarks = cookie_landmarks();
    let found = objects_at(heap, landmarks)->Ok_0;
    crate::landmarks::law_objects_are_those_at_their_landmarks(heap, landmarks, found);
    assert(object_at(heap, landmarks[40]) is Ok);
    assert(object_at(heap, landmarks[41]) is Ok);
    assert(object_at(heap, landmarks[42]) is Ok);
    assert(object_at(heap, landmarks[43]) is Ok);
    assert(object_at(heap, landmarks[44]) is Ok);
    assert(object_at(heap, landmarks[45]) is Ok);
    assert(object_at(heap, landmarks[46]) is Ok);
    assert(object_at(heap, landmarks[47]) is Ok);
    assert(object_at(heap, landmarks[48]) is Ok);
    assert(object_at(heap, landmarks[49]) is Ok);
    assert(object_at(heap, landmarks[50]) is Ok);
    assert(object_at(heap, landmarks[51]) is Ok);
    assert(object_at(heap, landmarks[52]) is Ok);
    assert(object_at(heap, landmarks[53]) is Ok);
    assert(object_at(heap, landmarks[54]) is Ok);
    assert(object_at(heap, landmarks[55]) is Ok);
    assert(object_at(heap, landmarks[56]) is Ok);
    assert(object_at(heap, landmarks[57]) is Ok);
    assert(object_at(heap, landmarks[58]) is Ok);
}

/// What else cookies lean on stands at the places that its names tell.
pub proof fn law_helpers_of_cookies(heap: Heap, objects: CookieObjects)
    requires
        cookie_objects_of(heap) == Ok::<CookieObjects, Failure>(objects),
    ensures
        stands_at(heap, below_two("requests.cookies"@, "RequestsCookieJar"@, "list_paths"@), objects.jar_list_paths),
        stands_at(heap, below_two("requests.cookies"@, "RequestsCookieJar"@, "multiple_domains"@), objects.jar_multiple_domains),
        stands_at(heap, below_two("requests.cookies"@, "RequestsCookieJar"@, "__getitem__"@), objects.jar_getitem),
        stands_at(heap, below_two("requests.cookies"@, "RequestsCookieJar"@, "get"@), objects.jar_get),
        stands_at(heap, below_two("requests.cookies"@, "RequestsCookieJar"@, "_find_no_duplicates"@), objects.jar_find_no_duplicates),
        stands_at(heap, below_two("requests.models"@, "PreparedRequest"@, "prepare_cookies"@), objects.prepared_cookies),
        stands_at(heap, class_below("requests.cookies"@, "MockRequest"@), objects.mock_request_type),
        stands_at(heap, class_below("requests.cookies"@, "MockResponse"@), objects.mock_response_type),
        stands_at(heap, below_two("requests.cookies"@, "time"@, "time"@), objects.time_time),
        stands_at(heap, below_two("requests.cookies"@, "time"@, "strptime"@), objects.time_strptime),
        stands_at(heap, below_two("requests.cookies"@, "calendar"@, "timegm"@), objects.calendar_timegm),
        stands_at(heap, below("copy"@, "copy"@), objects.copy_function),
        stands_at(heap, below("pickle"@, "dumps"@), objects.pickle_dumps),
        stands_at(heap, below("pickle"@, "loads"@), objects.pickle_loads),
        stands_at(heap, below_two("http.cookies"@, "Morsel"@, "__getitem__"@), objects.morsel_getitem),
        stands_at(heap, below_two("http.cookies"@, "Morsel"@, "key"@), objects.morsel_key),
        stands_at(heap, below_two("http.cookies"@, "Morsel"@, "value"@), objects.morsel_value),
{
    let landmarks = cookie_landmarks();
    let found = objects_at(heap, landmarks)->Ok_0;
    crate::landmarks::law_objects_are_those_at_their_landmarks(heap, landmarks, found);
    assert(object_at(heap, landmarks[59]) is Ok);
    assert(object_at(heap, landmarks[60]) is Ok);
    assert(object_at(heap, landmarks[61]) is Ok);
    assert(object_at(heap, landmarks[62]) is Ok);
    assert(object_at(heap, landmarks[63]) is Ok);
    assert(object_at(heap, landmarks[64]) is Ok);
    assert(object_at(heap, landmarks[65]) is Ok);
    assert(object_at(heap, landmarks[66]) is Ok);
    assert(object_at(heap, landmarks[67]) is Ok);
    assert(object_at(heap, landmarks[68]) is Ok);
    assert(object_at(heap, landmarks[69]) is Ok);
    assert(object_at(heap, landmarks[70]) is Ok);
    assert(object_at(heap, landmarks[71]) is Ok);
    assert(object_at(heap, landmarks[72]) is Ok);
    assert(object_at(heap, landmarks[73]) is Ok);
    assert(object_at(heap, landmarks[74]) is Ok);
    assert(object_at(heap, landmarks[75]) is Ok);
}

/// What is remembered of cookies besides its objects is the class of a lock, the
/// way attributes are got, and the lines of descent of the classes, each of its
/// own class.
pub proof fn law_states_of_cookies(heap: Heap, state: CookieView)
    ensures
        cookie_state_of(heap) == Ok::<CookieView, Failure>(state) <==> {
            &&& cookie_objects_of(heap) == Ok::<CookieObjects, Failure>(state.objects)
            &&& class_of(heap, state.objects.made_rlock) == Some(state.rlock_type)
            &&& heap.attribute_of(heap.intrinsics.object, "__getattribute__"@) == Some(
                state.object_getattribute,
            )
            &&& state.cookie_mro == heap.mro_of(state.objects.cookie_type)
            &&& state.jar_mro == heap.mro_of(state.objects.jar_type)
            &&& state.std_jar_mro == heap.mro_of(state.objects.std_jar_type)
            &&& state.prepared_mro == heap.mro_of(state.objects.prepared_type)
            &&& state.response_mro == heap.mro_of(state.objects.response_type)
            &&& state.morsel_mro == heap.mro_of(state.objects.morsel_type)
        },
{
}

/// Whether a namespace holds a function with its own code.
pub open spec fn keeps_function(
    heap: Heap,
    pairs: Seq<Pair>,
    name: Seq<char>,
    function: usize,
    code: usize,
) -> bool {
    &&& heap.keyed(pairs, name) == Some(function)
    &&& heap.attribute_of(function, "__code__"@) == Some(code)
}

/// The functions of cookies are unchanged exactly where each that is asked for
/// stands in the module under its own name, with its own code, and the module has
/// no other keys than texts.
pub proof fn law_functions_of_cookies_are_kept(
    heap: Heap,
    state: CookieObjects,
    functions: Seq<CookieFunction>,
)
    ensures
        functions_pristine(heap, state, functions) == Ok::<bool, Failure>(true) ==> (
        namespace_pairs(heap, state.module) matches Ok(pairs) && has_text_keys(heap, pairs) && (
        functions.contains(CookieFunction::CreateCookie) ==> keeps_function(
            heap,
            pairs,
            "create_cookie"@,
            state.create_cookie,
            state.create_cookie_code,
        )) && (functions.contains(CookieFunction::MorselToCookie) ==> keeps_function(
            heap,
            pairs,
            "morsel_to_cookie"@,
            state.morsel_to_cookie,
            state.morsel_to_cookie_code,
        )) && (functions.contains(CookieFunction::RemoveCookieByName) ==> keeps_function(
            heap,
            pairs,
            "remove_cookie_by_name"@,
            state.remove_cookie_by_name,
            state.remove_cookie_by_name_code,
        )) && (functions.contains(CookieFunction::GetCookieHeader) ==> keeps_function(
            heap,
            pairs,
            "get_cookie_header"@,
            state.get_cookie_header,
            state.get_cookie_header_code,
        )) && (functions.contains(CookieFunction::ExtractCookiesToJar) ==> keeps_function(
            heap,
            pairs,
            "extract_cookies_to_jar"@,
            state.extract_cookies_to_jar,
            state.extract_cookies_to_jar_code,
        ))),
{
    if let Ok(pairs) = namespace_pairs(heap, state.module) {
        lemma_each_function_is_held(heap, pairs, state, functions);
        assert forall|function: CookieFunction|
            functions_pristine(heap, state, functions) == Ok::<bool, Failure>(true)
                && #[trigger] functions.contains(function) implies holds_function(
            heap,
            pairs,
            function.met(state),
        ) == Ok::<bool, Failure>(true) by {
            let place = choose|place: int|
                0 <= place < functions.len() && functions[place] == function;
            assert(functions[place] == function);
        }
    }
}

proof fn lemma_each_function_is_held(
    heap: Heap,
    pairs: Seq<Pair>,
    state: CookieObjects,
    functions: Seq<CookieFunction>,
)
    ensures
        hold_functions(heap, pairs, state, functions) == Ok::<bool, Failure>(true) ==> forall|
            place: int,
        |
            0 <= place < functions.len() ==> holds_function(
                heap,
                pairs,
                (#[trigger] functions[place]).met(state),
            ) == Ok::<bool, Failure>(true),
    decreases functions.len(),
{
    if functions.len() > 0 {
        let rest = functions.drop_first();
        lemma_each_function_is_held(heap, pairs, state, rest);
        assert forall|place: int|
            0 <= place < functions.len() && hold_functions(heap, pairs, state, functions) == Ok::<
                bool,
                Failure,
            >(true) implies holds_function(heap, pairs, (#[trigger] functions[place]).met(state))
            == Ok::<bool, Failure>(true) by {
            if place > 0 {
                assert(rest[place - 1] == functions[place]);
            }
        }
    }
}

/// The clock of cookies is unchanged exactly where both of its modules and each of
/// its three functions are.
pub proof fn law_the_clock_of_cookies(heap: Heap, state: CookieObjects)
    ensures
        clock_pristine(heap, state) == Ok::<bool, Failure>(true) <==> {
            &&& module_holds(heap, state.module, "time"@, state.time_module) == Ok::<bool, Failure>(
                true,
            )
            &&& heap.attribute_of(state.time_module, "time"@) == Some(state.time_time)
            &&& heap.attribute_of(state.time_module, "strptime"@) == Some(state.time_strptime)
            &&& module_holds(heap, state.module, "calendar"@, state.calendar_module) == Ok::<
                bool,
                Failure,
            >(true)
            &&& heap.attribute_of(state.calendar_module, "timegm"@) == Some(state.calendar_timegm)
        },
        forall|module: usize, name: Seq<char>, value: usize| #[trigger]
            module_holds(heap, module, name, value) == Ok::<bool, Failure>(true) <==> (
            namespace_pairs(heap, module) matches Ok(pairs) && has_text_keys(heap, pairs)
                && heap.keyed(pairs, name) == Some(value)),
{
}

/// Conversions lean on the constructor of cookies, and those of morsels on the
/// clock too; the plain values of nested tables on their function.
pub proof fn law_what_conversions_lean_on(
    heap: Heap,
    state: CookieObjects,
    functions: Seq<CookieFunction>,
)
    ensures
        conversion_pristine(heap, state, functions) == Ok::<bool, Failure>(true) <==> {
            &&& functions_pristine(heap, state, functions) == Ok::<bool, Failure>(true)
            &&& cookielib_pairs(heap, state) matches Ok(Some(pairs)) && heap.keyed(
                pairs,
                "Cookie"@,
            ) == Some(state.cookie_constructor)
            &&& functions.contains(CookieFunction::MorselToCookie) ==> clock_pristine(heap, state)
                == Ok::<bool, Failure>(true)
        },
        deepvalues_pristine(heap, state) == Ok::<bool, Failure>(true) <==> {
            &&& module_is_plain(heap, state) == Ok::<bool, Failure>(true)
            &&& cookielib_pairs(heap, state) matches Ok(Some(pairs)) && keeps_function(
                heap,
                pairs,
                "deepvalues"@,
                state.deepvalues,
                state.deepvalues_code,
            )
        },
        cookielib_pairs(heap, state) matches Ok(Some(pairs)) ==> namespace_pairs(
            heap,
            state.cookielib,
        ) == Ok::<Seq<Pair>, Failure>(pairs) && has_text_keys(heap, pairs) && (namespace_pairs(
            heap,
            state.module,
        ) matches Ok(outer) && heap.keyed(outer, "cookielib"@) == Some(state.cookielib)),
{
}

/// Copies and locks lean on these functions, each in its own module.
pub proof fn law_what_copies_and_locks_lean_on(heap: Heap, state: CookieObjects)
    ensures
        copy_pickle_pristine(heap, state) == Ok::<bool, Failure>(true) <==> {
            &&& type_entries_are(heap, copy_methods(state))
            &&& module_holds(heap, state.copy_module, "copy"@, state.copy_function) == Ok::<
                bool,
                Failure,
            >(true)
            &&& module_holds(heap, state.pickle_module, "dumps"@, state.pickle_dumps) == Ok::<
                bool,
                Failure,
            >(true)
            &&& module_holds(heap, state.pickle_module, "loads"@, state.pickle_loads) == Ok::<
                bool,
                Failure,
            >(true)
        },
        threading_pristine(heap, state) == Ok::<bool, Failure>(true) <==> {
            &&& module_holds(heap, state.module, "threading"@, state.threading_module) == Ok::<
                bool,
                Failure,
            >(true)
            &&& namespace_pairs(heap, state.threading_module) matches Ok(pairs) && has_text_keys(
                heap,
                pairs,
            ) && keeps_function(
                heap,
                pairs,
                "RLock"@,
                state.threading_rlock,
                state.threading_rlock_code,
            )
        },
{
}

/// A call of a cookie function by its module is plain exactly where the name of
/// the module leads to it, and the function is unchanged.
pub proof fn law_plain_lookups(
    heap: Heap,
    state: CookieObjects,
    globals: GlobalResolver,
    function: CookieFunction,
)
    ensures
        lookup_is_plain(heap, state, globals, function) == Ok::<bool, Failure>(true) <==> {
            &&& heap.dict_of(globals.globals) matches Some(names) && has_text_keys(heap, names)
            &&& heap.dict_of(globals.builtins) matches Some(names) && has_text_keys(heap, names)
            &&& globals.resolved(heap, "cookies_module"@) == Some(state.module)
            &&& heap.is_exactly(state.module, heap.intrinsics.module_type)
            &&& functions_pristine(heap, state, seq![function]) == Ok::<bool, Failure>(true)
        },
{
}

/// The names of a callable are looked up where its own globals and builtins say.
pub proof fn law_globals_of_callables(heap: Heap, callable: usize, globals: GlobalResolver)
    ensures
        function_globals_of(heap, callable) == Ok::<Option<GlobalResolver>, Failure>(Some(globals))
            <==> {
            &&& heap.is_exactly(callable, heap.intrinsics.function)
            &&& heap.attribute_of(callable, "__globals__"@) == Some(globals.globals)
            &&& heap.dict_of(globals.globals) is Some
            &&& heap.attribute_of(callable, "__builtins__"@) == Some(globals.builtins)
            &&& heap.is_exactly(globals.builtins, heap.intrinsics.dict)
        },
{
}

} // verus!
