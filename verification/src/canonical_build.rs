//! Taking down trusted functions from the code that their modules' loaders
//! give.

use vstd::prelude::*;

use crate::canonical::{
    build_known_code, canonical_code, canonical_module_binds, known_python_function, python_function,
    CanonicalDefaults, CanonicalFunction, CanonicalGlobal, CanonicalGlobalResolution, DefaultPolicy,
    KnownFunction};
use crate::canonical::{
    defaults_current, is_canonical, is_function, known_code, known_function, law_unprovable_global_prevents_trust,
    loaded_code, loaded_names, module_binds};
use crate::heap::{list_contains, Failure, Heap, Payload};
use crate::heap::lists_text;
use crate::intrinsic::intrinsic_builtin_for_name;
use crate::intrinsic::intrinsic_named;
use crate::known::{known_module_value, present, text_attribute_equals};
use crate::known::{known_in_module, present_attribute, text_attribute};
use crate::text::same_text;
use crate::text::text_views;

verus! {

/// A function to take down: where it is defined and how.
pub struct Source<'a> {
    pub module: &'a str,
    pub qualname: &'a str,
    pub policy: DefaultPolicy,
    /// Whether the globals that it reads are taken down too.
    pub include_globals: bool,
    /// Globals that do not count.
    pub ignored: &'a Vec<String>,
}

/// The functions that trusted code may call, each once.
pub open spec fn all_functions() -> Seq<KnownFunction> {
    seq![
        KnownFunction::ToKeyValList,
        KnownFunction::UrlEncode,
        KnownFunction::ValidateHeaderPart,
        KnownFunction::Quote,
        KnownFunction::UnquoteUnreserved,
        KnownFunction::CoerceArgs,
        KnownFunction::DecodeArgs,
        KnownFunction::EncodeResult,
        KnownFunction::Noop,
        KnownFunction::PrivateUrlUnsplit,
        KnownFunction::UrlUnsplit,
        KnownFunction::QuoteFromBytes,
        KnownFunction::EncodeInvalidChars,
        KnownFunction::IdnaEncode,
        KnownFunction::NormalizeHost,
        KnownFunction::RemovePathDotSegments,
        KnownFunction::ToStr,
    ]
}

/// Whether a known function is the one of that module and qualified name.
pub open spec fn is_named(function: KnownFunction, module: Seq<char>, qualname: Seq<char>) -> bool {
    function.home() == module && function.qualname() == qualname
}

/// The functions that are not the one of that module and qualified name.
pub open spec fn without(
    functions: Seq<KnownFunction>,
    module: Seq<char>,
    qualname: Seq<char>,
) -> Seq<KnownFunction>
    decreases functions.len(),
{
    if functions.len() == 0 {
        Seq::empty()
    } else {
        let front = without(functions.drop_last(), module, qualname);
        if is_named(functions.last(), module, qualname) {
            front
        } else {
            front.push(functions.last())
        }
    }
}

/// Leaving a function out makes the list shorter where it was there.
proof fn lemma_without_shrinks(
    functions: Seq<KnownFunction>,
    module: Seq<char>,
    qualname: Seq<char>,
    function: KnownFunction,
)
    ensures
        without(functions, module, qualname).len() <= functions.len(),
        functions.contains(function) && is_named(function, module, qualname) ==> without(
            functions,
            module,
            qualname,
        ).len() < functions.len(),
    decreases functions.len(),
{
    if functions.len() > 0 {
        let front = functions.drop_last();
        lemma_without_shrinks(front, module, qualname, function);
        if functions.contains(function) && is_named(function, module, qualname) {
            if functions.last() != function {
                let at = choose|at: int| 0 <= at < functions.len() && functions[at] == function;
                assert(front[at] == function);
            }
        }
    }
}

/// Leaves a function out of a list.
fn leave_out(functions: &Vec<KnownFunction>, module: &str, qualname: &str) -> (rest: Vec<
    KnownFunction,
>)
    ensures
        rest@ == without(functions@, module@, qualname@),
{
    let mut rest: Vec<KnownFunction> = Vec::new();
    let mut index: usize = 0;
    while index < functions.len()
        invariant
            index <= functions.len(),
            rest@ == without(functions@.take(index as int), module@, qualname@),
        decreases functions.len() - index,
    {
        let function = functions[index];
        if !(same_text(function.home_module(), module) && same_text(
            function.qualified_name(),
            qualname,
        )) {
            rest.push(function);
        }
        index = index + 1;
        assert(functions@.take(index as int).drop_last() =~= functions@.take(index - 1));
    }
    assert(functions@.take(index as int) =~= functions@);
    rest
}

/// Whether a list holds a known function.
fn holds_function(functions: &Vec<KnownFunction>, function: KnownFunction) -> (found: bool)
    ensures
        found == functions@.contains(function),
{
    let mut index: usize = 0;
    while index < functions.len()
        invariant
            index <= functions.len(),
            forall|i: int| 0 <= i < index ==> functions@[i] != function,
        decreases functions.len() - index,
    {
        if functions[index] == function {
            assert(functions@[index as int] == function);
            return true;
        }
        index = index + 1;
    }
    false
}

/// The globals to take down for a list of loaded names: each once, at its
/// first occurrence, without the ignored ones.
pub open spec fn dependency_names(loaded: Seq<Seq<char>>, ignored: Seq<Seq<char>>) -> Seq<Seq<char>>
    decreases loaded.len(),
{
    if loaded.len() == 0 {
        Seq::empty()
    } else {
        let front = dependency_names(loaded.drop_last(), ignored);
        if ignored.contains(loaded.last()) || front.contains(loaded.last()) {
            front
        } else {
            front.push(loaded.last())
        }
    }
}

/// Finds the globals to take down.
fn collect_names(loaded: &Vec<String>, ignored: &Vec<String>) -> (names: Vec<String>)
    ensures
        text_views(names@) == dependency_names(text_views(loaded@), text_views(ignored@)),
{
    let mut names: Vec<String> = Vec::new();
    let mut index: usize = 0;
    let ghost all = text_views(loaded@);
    let ghost skipped = text_views(ignored@);
    assert(text_views(names@) =~= dependency_names(all.take(0), skipped));
    while index < loaded.len()
        invariant
            index <= loaded.len(),
            all == text_views(loaded@),
            skipped == text_views(ignored@),
            text_views(names@) == dependency_names(all.take(index as int), skipped),
        decreases loaded.len() - index,
    {
        let ghost before = text_views(names@);
        let name = &loaded[index];
        proof {
            lemma_lists_text(ignored@, name@);
            lemma_lists_text(names@, name@);
            assert(all.take(index + 1).drop_last() =~= all.take(index as int));
            assert(all.take(index + 1).last() == name@);
        }
        if !list_contains(ignored, name.as_str()) && !list_contains(&names, name.as_str()) {
            names.push(name.clone());
            assert(text_views(names@) =~= before.push(name@));
        }
        index = index + 1;
    }
    assert(all.take(index as int) =~= all);
    names
}

/// A list holds a text exactly when its views do.
proof fn lemma_lists_text(texts: Seq<String>, text: Seq<char>)
    ensures
        lists_text(texts, text) == text_views(texts).contains(text),
{
    if lists_text(texts, text) {
        let at = choose|at: int| 0 <= at < texts.len() && (#[trigger] texts[at])@ == text;
        assert(text_views(texts)[at] == text);
    }
    if text_views(texts).contains(text) {
        let at = choose|at: int| 0 <= at < text_views(texts).len() && text_views(texts)[at] == text;
        assert(texts[at]@ == text);
    }
}

/// What a module is called, as it says itself.
pub open spec fn module_name(heap: Heap, module: usize) -> Option<Seq<char>> {
    text_attribute(heap, module, "__name__"@)
}

/// Whether a known class or factory can be taken down.
pub open spec fn known_is_loadable(
    heap: Heap,
    globals: usize,
    builtins: usize,
    module: Seq<char>,
    own_name: Seq<char>,
    name: Seq<char>,
) -> bool {
    module_binds(heap, module, name) ==> (known_in_module(own_name, name) matches Some(known)
        ==> known_code(heap, globals, builtins, known) is Some)
}

/// Whether a function can be taken down: its module and the built-ins can be
/// imported, the loader gives its code, the module has a table of built-ins,
/// and every known class that it reads can be taken down.
pub open spec fn is_buildable(
    heap: Heap,
    current: usize,
    module: Seq<char>,
    qualname: Seq<char>,
    policy: DefaultPolicy,
    include_globals: bool,
    ignored: Seq<Seq<char>>,
) -> bool {
    &&& heap.module_of(module) matches Some(object) && {
        &&& heap.attribute_of(object, "__dict__"@) matches Some(globals) && {
            &&& heap.entry_of(globals, "__builtins__"@) matches Some(builtins) && {
                &&& heap.dict_of(builtins) is Some
                &&& include_globals ==> (module_name(heap, object) matches Some(own_name) && (
                loaded_code(heap, module, qualname) matches Some(code) && forall|index: int|
                    0 <= index < dependency_names(
                        text_views(loaded_names(heap, code)),
                        ignored,
                    ).len() ==> known_is_loadable(
                        heap,
                        globals,
                        builtins,
                        module,
                        own_name,
                        #[trigger] dependency_names(
                            text_views(loaded_names(heap, code)),
                            ignored,
                        )[index],
                    )))
            }
        }
    }
    &&& heap.module_of("builtins"@) is Some
    &&& loaded_code(heap, module, qualname) is Some
    &&& policy is Captured ==> is_function(heap, current)
}

/// The defaults that a policy takes down.
pub open spec fn defaults_taken(heap: Heap, current: usize, policy: DefaultPolicy) -> CanonicalDefaults {
    match policy {
        DefaultPolicy::Absent => CanonicalDefaults::Absent,
        DefaultPolicy::Captured => CanonicalDefaults::Captured {
            defaults: present_attribute(heap, current, "__defaults__"@),
            kwdefaults: present_attribute(heap, current, "__kwdefaults__"@),
        },
        DefaultPolicy::ToNativeString => CanonicalDefaults::ToNativeString,
        DefaultPolicy::SingleNone => CanonicalDefaults::SingleNone,
        DefaultPolicy::SingleEmptyTuple => CanonicalDefaults::SingleEmptyTuple,
    }
}

/// Whether a value is the known function, as far as its own names tell.
pub open spec fn names_known_function(heap: Heap, value: usize, function: KnownFunction) -> bool {
    &&& heap.is_exactly(value, heap.intrinsics.function)
    &&& is_function(heap, value)
    &&& text_attribute(heap, value, "__module__"@) == Some(function.home())
    &&& text_attribute(heap, value, "__qualname__"@) == Some(function.qualname())
}

/// Whether a known function that a global holds can be taken down.
pub open spec fn call_is_buildable(heap: Heap, value: usize, function: KnownFunction) -> bool {
    is_buildable(
        heap,
        value,
        function.home(),
        function.qualname(),
        DefaultPolicy::Captured,
        true,
        function.ignored(),
    )
}

/// Whether a resolution is that of the global `name`. `open` lists the known
/// functions that are not being taken down already: another one is trusted as
/// it stands, once its identity is fixed.
pub open spec fn is_resolution(
    heap: Heap,
    object: usize,
    globals: usize,
    builtins: usize,
    module: Seq<char>,
    own_name: Seq<char>,
    name: Seq<char>,
    open: Seq<KnownFunction>,
    resolution: CanonicalGlobalResolution,
) -> bool
    decreases resolution,
{
    if module_binds(heap, module, name) {
        match known_in_module(own_name, name) {
            Some(known) => resolution == (CanonicalGlobalResolution::KnownModule {
                value: known,
                code: known_code(heap, globals, builtins, known)->0,
            }),
            None => match (heap.entry_of(globals, name), known_function(own_name, name)) {
                (Some(value), Some(function)) => if !names_known_function(heap, value, function) {
                    resolution is Unprovable
                } else if !open.contains(function) {
                    resolution matches CanonicalGlobalResolution::Module {
                        expected,
                        function: inner,
                    } && expected == value && inner is None
                } else if !call_is_buildable(heap, value, function) {
                    resolution is Unprovable
                } else {
                    resolution matches CanonicalGlobalResolution::Module {
                        expected,
                        function: Some(inner),
                    } && expected == value && is_built(
                        heap,
                        value,
                        function.home(),
                        function.qualname(),
                        DefaultPolicy::Captured,
                        true,
                        function.ignored(),
                        open,
                        *inner,
                    )
                },
                _ => resolution is Unprovable,
            },
        }
    } else {
        match intrinsic_named(name) {
            Some(intrinsic) => resolution == CanonicalGlobalResolution::IntrinsicBuiltin(intrinsic),
            None => if heap.entry_of(builtins, name) is Some {
                resolution is Unprovable
            } else {
                resolution is Missing
            },
        }
    }
}

/// Whether a function was taken down as its module's source defines it.
pub open spec fn is_built(
    heap: Heap,
    current: usize,
    module: Seq<char>,
    qualname: Seq<char>,
    policy: DefaultPolicy,
    include_globals: bool,
    ignored: Seq<Seq<char>>,
    open: Seq<KnownFunction>,
    built: CanonicalFunction,
) -> bool
    decreases built,
{
    heap.module_of(module) matches Some(object) && {
        let names = if include_globals {
            dependency_names(text_views(loaded_names(heap, built.code)), ignored)
        } else {
            Seq::empty()
        };
        &&& loaded_code(heap, module, qualname) == Some(built.code)
        &&& heap.attribute_of(object, "__dict__"@) == Some(built.globals)
        &&& heap.module_of("builtins"@) == Some(built.builtins_module)
        &&& heap.entry_of(built.globals, "__builtins__"@) == Some(built.builtins)
        &&& built.defaults == defaults_taken(heap, current, policy)
        &&& built.dependencies@.len() == names.len()
        &&& forall|index: int|
            0 <= index < built.dependencies@.len() ==> {
                let dependency = #[trigger] built.dependencies@[index];
                &&& dependency.name@ == names[index]
                &&& is_resolution(
                    heap,
                    object,
                    built.globals,
                    built.builtins,
                    module,
                    module_name(heap, object)->0,
                    names[index],
                    without(open, module, qualname),
                    dependency.resolution,
                )
            }
    }
}

/// Finds what one global has to be.
fn resolve_global(
    heap: &Heap,
    object: usize,
    globals: usize,
    builtins: usize,
    module: &str,
    own_name: &str,
    name: &str,
    open: &Vec<KnownFunction>,
) -> (resolution: CanonicalGlobalResolution)
    requires
        known_is_loadable(*heap, globals, builtins, module@, own_name@, name@),
    ensures
        is_resolution(
            *heap,
            object,
            globals,
            builtins,
            module@,
            own_name@,
            name@,
            open@,
            resolution,
        ),
    decreases open@.len(), 0nat,
{
    if !canonical_module_binds(heap, module, name) {
        return match intrinsic_builtin_for_name(name) {
            Some(intrinsic) => CanonicalGlobalResolution::IntrinsicBuiltin(intrinsic),
            None => if heap.entry(builtins, name).is_some() {
                CanonicalGlobalResolution::Unprovable
            } else {
                CanonicalGlobalResolution::Missing
            },
        };
    }
    match known_module_value(own_name, name) {
        Some(known) => match build_known_code(heap, globals, builtins, known) {
            Some(code) => CanonicalGlobalResolution::KnownModule { value: known, code },
            None => {
                assert(false);
                CanonicalGlobalResolution::Unprovable
            },
        },
        None => {
            let value = match heap.entry(globals, name) {
                Some(value) => value,
                None => {
                    return CanonicalGlobalResolution::Unprovable;
                },
            };
            let function = match known_python_function(own_name, name) {
                Some(function) => function,
                None => {
                    return CanonicalGlobalResolution::Unprovable;
                },
            };
            if !heap.exactly(value, heap.intrinsics.function) || !python_function(heap, value)
                || !text_attribute_equals(heap, value, "__module__", function.home_module())
                || !text_attribute_equals(
                heap,
                value,
                "__qualname__",
                function.qualified_name(),
            ) {
                return CanonicalGlobalResolution::Unprovable;
            }
            if !holds_function(open, function) {
                return CanonicalGlobalResolution::Module { expected: value, function: None };
            }
            proof {
                lemma_without_shrinks(open@, function.home(), function.qualname(), function);
            }
            match direct_function_trust(heap, value, function, open) {
                Some(inner) => CanonicalGlobalResolution::Module {
                    expected: value,
                    function: Some(Box::new(inner)),
                },
                None => CanonicalGlobalResolution::Unprovable,
            }
        },
    }
}

/// Takes down a known function that a global holds.
fn direct_function_trust(
    heap: &Heap,
    value: usize,
    function: KnownFunction,
    open: &Vec<KnownFunction>,
) -> (built: Option<CanonicalFunction>)
    requires
        without(open@, function.home(), function.qualname()).len() < open@.len(),
    ensures
        built is Some == call_is_buildable(*heap, value, function),
        built matches Some(built) ==> is_built(
            *heap,
            value,
            function.home(),
            function.qualname(),
            DefaultPolicy::Captured,
            true,
            function.ignored(),
            open@,
            built,
        ),
    decreases without(open@, function.home(), function.qualname()).len(), 3nat,
{
    let ignored = function.ignored_globals();
    build_canonical_function_inner(
        heap,
        value,
        Source {
            module: function.home_module(),
            qualname: function.qualified_name(),
            policy: DefaultPolicy::Captured,
            include_globals: true,
            ignored: &ignored,
        },
        open,
    )
}

/// Takes down the globals that a function reads.
fn build_canonical_globals(
    heap: &Heap,
    object: usize,
    globals: usize,
    builtins: usize,
    module: &str,
    own_name: &str,
    names: &Vec<String>,
    open: &Vec<KnownFunction>,
) -> (dependencies: Option<Vec<CanonicalGlobal>>)
    ensures
        dependencies is Some == (forall|index: int|
            0 <= index < text_views(names@).len() ==> known_is_loadable(
                *heap,
                globals,
                builtins,
                module@,
                own_name@,
                #[trigger] text_views(names@)[index],
            )),
        dependencies matches Some(dependencies) ==> dependencies@.len() == names@.len() && forall|
            index: int,
        |
            0 <= index < dependencies@.len() ==> {
                let dependency = #[trigger] dependencies@[index];
                &&& dependency.name@ == text_views(names@)[index]
                &&& is_resolution(
                    *heap,
                    object,
                    globals,
                    builtins,
                    module@,
                    own_name@,
                    text_views(names@)[index],
                    open@,
                    dependency.resolution,
                )
            },
    decreases open@.len(), 1nat,
{
    let ghost views = text_views(names@);
    let mut dependencies: Vec<CanonicalGlobal> = Vec::new();
    let mut index: usize = 0;
    while index < names.len()
        invariant
            index <= names@.len(),
            views == text_views(names@),
            dependencies@.len() == index,
            forall|i: int|
                0 <= i < index ==> known_is_loadable(
                    *heap,
                    globals,
                    builtins,
                    module@,
                    own_name@,
                    #[trigger] views[i],
                ),
            forall|i: int|
                0 <= i < dependencies@.len() ==> {
                    let dependency = #[trigger] dependencies@[i];
                    &&& dependency.name@ == views[i]
                    &&& is_resolution(
                        *heap,
                        object,
                        globals,
                        builtins,
                        module@,
                        own_name@,
                        views[i],
                        open@,
                        dependency.resolution,
                    )
                },
        decreases names@.len() - index,
    {
        let name = &names[index];
        assert(views[index as int] == name@);
        if canonical_module_binds(heap, module, name.as_str()) {
            match known_module_value(own_name, name.as_str()) {
                Some(known) => {
                    if build_known_code(heap, globals, builtins, known).is_none() {
                        assert(!known_is_loadable(
                            *heap,
                            globals,
                            builtins,
                            module@,
                            own_name@,
                            views[index as int],
                        ));
                        return None;
                    }
                },
                None => {},
            }
        }
        let resolution = resolve_global(
            heap,
            object,
            globals,
            builtins,
            module,
            own_name,
            name.as_str(),
            open,
        );
        dependencies.push(CanonicalGlobal { name: name.clone(), resolution });
        index = index + 1;
    }
    Some(dependencies)
}

/// The names that a code object loads, as a list of its own.
fn loaded_list(heap: &Heap, code: usize) -> (names: Vec<String>)
    ensures
        text_views(names@) == text_views(loaded_names(*heap, code)),
{
    let mut names: Vec<String> = Vec::new();
    match heap.get(code) {
        Some(found) => match &found.payload {
            Payload::Code(facts) => {
                let mut index: usize = 0;
                while index < facts.loaded.len()
                    invariant
                        index <= facts.loaded@.len(),
                        text_views(names@) == text_views(facts.loaded@.take(index as int)),
                    decreases facts.loaded@.len() - index,
                {
                    let ghost before = text_views(names@);
                    names.push(facts.loaded[index].clone());
                    index = index + 1;
                    proof {
                        assert(text_views(names@) =~= before.push(facts.loaded@[index - 1]@));
                        assert(text_views(facts.loaded@.take(index as int)) =~= text_views(
                            facts.loaded@.take(index - 1),
                        ).push(facts.loaded@[index - 1]@));
                    }
                }
                assert(facts.loaded@.take(index as int) =~= facts.loaded@);
            },
            _ => {},
        },
        None => {},
    }
    assert(text_views(names@) =~= text_views(loaded_names(*heap, code)));
    names
}

/// Takes down a function. `open` lists the known functions that are not being
/// taken down already.
fn build_canonical_function_inner(
    heap: &Heap,
    current: usize,
    source: Source<'_>,
    open: &Vec<KnownFunction>,
) -> (built: Option<CanonicalFunction>)
    ensures
        built is Some == is_buildable(
            *heap,
            current,
            source.module@,
            source.qualname@,
            source.policy,
            source.include_globals,
            text_views(source.ignored@),
        ),
        built matches Some(built) ==> is_built(
            *heap,
            current,
            source.module@,
            source.qualname@,
            source.policy,
            source.include_globals,
            text_views(source.ignored@),
            open@,
            built,
        ),
    decreases without(open@, source.module@, source.qualname@).len(), 2nat,
{
    let object = match heap.module(source.module) {
        Some(object) => object,
        None => {
            return None;
        },
    };
    let globals = match heap.attribute(object, "__dict__") {
        Some(globals) => globals,
        None => {
            return None;
        },
    };
    let builtins_module = match heap.module("builtins") {
        Some(builtins_module) => builtins_module,
        None => {
            return None;
        },
    };
    let code = match canonical_code(heap, source.module, source.qualname) {
        Some(code) => code,
        None => {
            return None;
        },
    };
    let builtins = match heap.entry(globals, "__builtins__") {
        Some(builtins) => builtins,
        None => {
            return None;
        },
    };
    if heap.dict(builtins).is_none() {
        return None;
    }
    let defaults = match source.policy {
        DefaultPolicy::Absent => CanonicalDefaults::Absent,
        DefaultPolicy::Captured => {
            if !python_function(heap, current) {
                return None;
            }
            CanonicalDefaults::Captured {
                defaults: present(heap, current, "__defaults__"),
                kwdefaults: present(heap, current, "__kwdefaults__"),
            }
        },
        DefaultPolicy::ToNativeString => CanonicalDefaults::ToNativeString,
        DefaultPolicy::SingleNone => CanonicalDefaults::SingleNone,
        DefaultPolicy::SingleEmptyTuple => CanonicalDefaults::SingleEmptyTuple,
    };
    if !source.include_globals {
        return Some(
            CanonicalFunction {
                code,
                globals,
                builtins_module,
                builtins,
                defaults,
                dependencies: Vec::new(),
            },
        );
    }
    let own_name = match heap.attribute(object, "__name__") {
        Some(own_name) => own_name,
        None => {
            return None;
        },
    };
    let own_name = match heap.text(own_name) {
        Some(own_name) => own_name,
        None => {
            return None;
        },
    };
    let loaded = loaded_list(heap, code);
    let names = collect_names(&loaded, source.ignored);
    let open = leave_out(open, source.module, source.qualname);
    match build_canonical_globals(
        heap,
        object,
        globals,
        builtins,
        source.module,
        own_name.as_str(),
        &names,
        &open,
    ) {
        Some(dependencies) => Some(
            CanonicalFunction { code, globals, builtins_module, builtins, defaults, dependencies },
        ),
        None => None,
    }
}

/// Lists the functions that trusted code may call.
fn list_functions() -> (functions: Vec<KnownFunction>)
    ensures
        functions@ == all_functions(),
{
    let functions = vec![
        KnownFunction::ToKeyValList,
        KnownFunction::UrlEncode,
        KnownFunction::ValidateHeaderPart,
        KnownFunction::Quote,
        KnownFunction::UnquoteUnreserved,
        KnownFunction::CoerceArgs,
        KnownFunction::DecodeArgs,
        KnownFunction::EncodeResult,
        KnownFunction::Noop,
        KnownFunction::PrivateUrlUnsplit,
        KnownFunction::UrlUnsplit,
        KnownFunction::QuoteFromBytes,
        KnownFunction::EncodeInvalidChars,
        KnownFunction::IdnaEncode,
        KnownFunction::NormalizeHost,
        KnownFunction::RemovePathDotSegments,
        KnownFunction::ToStr,
    ];
    assert(functions@ =~= all_functions());
    functions
}

/// Takes down a function as its module's source defines it.
pub fn build_canonical_function(heap: &Heap, current: usize, source: Source<'_>) -> (built: Option<
    CanonicalFunction,
>)
    ensures
        built is Some == is_buildable(
            *heap,
            current,
            source.module@,
            source.qualname@,
            source.policy,
            source.include_globals,
            text_views(source.ignored@),
        ),
        built matches Some(built) ==> is_built(
            *heap,
            current,
            source.module@,
            source.qualname@,
            source.policy,
            source.include_globals,
            text_views(source.ignored@),
            all_functions(),
            built,
        ),
{
    build_canonical_function_inner(heap, current, source, &list_functions())
}

/// A function that reads a name which is built in, but is none of the built-in
/// objects that can be told, and which its module does not bind, is not
/// trusted on any snapshot.
pub proof fn law_unknown_builtin_is_never_trusted(
    heap: Heap,
    current: usize,
    module: Seq<char>,
    qualname: Seq<char>,
    policy: DefaultPolicy,
    ignored: Seq<Seq<char>>,
    open: Seq<KnownFunction>,
    built: CanonicalFunction,
    at: int,
    later: Heap,
    candidate: usize,
)
    requires
        is_built(heap, current, module, qualname, policy, true, ignored, open, built),
        0 <= at < built.dependencies@.len(),
        !module_binds(heap, module, built.dependencies@[at].name@),
        intrinsic_named(built.dependencies@[at].name@) is None,
        heap.entry_of(built.builtins, built.dependencies@[at].name@) is Some,
    ensures
        is_canonical(later, candidate, built) != Ok::<bool, Failure>(true),
{
    let dependency = built.dependencies@[at];
    assert(dependency.resolution is Unprovable);
    law_unprovable_global_prevents_trust(later, candidate, built, at as nat);
}

/// Every known function is among all of them.
pub proof fn law_all_functions_are_listed(function: KnownFunction)
    ensures
        all_functions().contains(function),
        all_functions().len() == 17,
{
    let functions = all_functions();
    assert(functions[0] == KnownFunction::ToKeyValList);
    assert(functions[1] == KnownFunction::UrlEncode);
    assert(functions[2] == KnownFunction::ValidateHeaderPart);
    assert(functions[3] == KnownFunction::Quote);
    assert(functions[4] == KnownFunction::UnquoteUnreserved);
    assert(functions[5] == KnownFunction::CoerceArgs);
    assert(functions[6] == KnownFunction::DecodeArgs);
    assert(functions[7] == KnownFunction::EncodeResult);
    assert(functions[8] == KnownFunction::Noop);
    assert(functions[9] == KnownFunction::PrivateUrlUnsplit);
    assert(functions[10] == KnownFunction::UrlUnsplit);
    assert(functions[11] == KnownFunction::QuoteFromBytes);
    assert(functions[12] == KnownFunction::EncodeInvalidChars);
    assert(functions[13] == KnownFunction::IdnaEncode);
    assert(functions[14] == KnownFunction::NormalizeHost);
    assert(functions[15] == KnownFunction::RemovePathDotSegments);
    assert(functions[16] == KnownFunction::ToStr);
}

/// Leaving a function out leaves out that one and no other.
pub proof fn law_only_the_named_one_is_left_out(
    functions: Seq<KnownFunction>,
    module: Seq<char>,
    qualname: Seq<char>,
    function: KnownFunction,
)
    ensures
        without(functions, module, qualname).contains(function) <==> functions.contains(function)
            && !is_named(function, module, qualname),
    decreases functions.len(),
{
    if functions.len() > 0 {
        let fewer = functions.drop_last();
        let front = without(fewer, module, qualname);
        let last = functions.last();
        law_only_the_named_one_is_left_out(fewer, module, qualname, function);
        assert(functions =~= fewer.push(last));
        assert(functions.contains(function) <==> fewer.contains(function) || last == function) by {
            if functions.contains(function) {
                let place = choose|place: int|
                    0 <= place < functions.len() && functions[place] == function;
                if place < fewer.len() {
                    assert(fewer[place] == function);
                }
            }
            if fewer.contains(function) {
                let place = choose|place: int|
                    0 <= place < fewer.len() && fewer[place] == function;
                assert(functions[place] == function);
            }
            assert(functions[functions.len() - 1] == last);
        }
        assert(front.push(last).contains(function) <==> front.contains(function) || last
            == function) by {
            let pushed = front.push(last);
            if pushed.contains(function) {
                let place = choose|place: int|
                    0 <= place < pushed.len() && pushed[place] == function;
                if place < front.len() {
                    assert(front[place] == function);
                }
            }
            if front.contains(function) {
                let place = choose|place: int|
                    0 <= place < front.len() && front[place] == function;
                assert(pushed[place] == function);
            }
            assert(pushed[pushed.len() - 1] == last);
        }
    }
}

/// The names that a function leans on are those that its code loads, each once,
/// but for those that are ignored.
pub proof fn law_names_are_leaned_on_once(
    loaded: Seq<Seq<char>>,
    ignored: Seq<Seq<char>>,
    name: Seq<char>,
)
    ensures
        dependency_names(loaded, ignored).contains(name) <==> loaded.contains(name)
            && !ignored.contains(name),
        dependency_names(loaded, ignored).no_duplicates(),
    decreases loaded.len(),
{
    if loaded.len() > 0 {
        let fewer = loaded.drop_last();
        let front = dependency_names(fewer, ignored);
        let last = loaded.last();
        law_names_are_leaned_on_once(fewer, ignored, name);
        law_names_are_leaned_on_once(fewer, ignored, last);
        assert(loaded.contains(name) <==> fewer.contains(name) || last == name) by {
            if loaded.contains(name) {
                let place = choose|place: int| 0 <= place < loaded.len() && loaded[place] == name;
                if place < fewer.len() {
                    assert(fewer[place] == name);
                }
            }
            if fewer.contains(name) {
                let place = choose|place: int| 0 <= place < fewer.len() && fewer[place] == name;
                assert(loaded[place] == name);
            }
            assert(loaded[loaded.len() - 1] == last);
        }
        assert(front.push(last).contains(name) <==> front.contains(name) || last == name) by {
            let pushed = front.push(last);
            if pushed.contains(name) {
                let place = choose|place: int| 0 <= place < pushed.len() && pushed[place] == name;
                if place < front.len() {
                    assert(front[place] == name);
                }
            }
            if front.contains(name) {
                let place = choose|place: int| 0 <= place < front.len() && front[place] == name;
                assert(pushed[place] == name);
            }
            assert(pushed[pushed.len() - 1] == last);
        }
    }
}

/// Defaults are captured only where that is asked for.
pub proof fn law_defaults_are_taken_as_asked(heap: Heap, current: usize, policy: DefaultPolicy)
    ensures
        policy is Captured ==> defaults_current(
            heap,
            current,
            defaults_taken(heap, current, policy),
        ),
        defaults_taken(heap, current, policy) is Captured <==> policy is Captured,
        defaults_taken(heap, current, policy) is Absent <==> policy is Absent,
        defaults_taken(heap, current, policy) is ToNativeString <==> policy is ToNativeString,
        defaults_taken(heap, current, policy) is SingleNone <==> policy is SingleNone,
        defaults_taken(heap, current, policy) is SingleEmptyTuple <==> policy is SingleEmptyTuple,
{
}

} // verus!
