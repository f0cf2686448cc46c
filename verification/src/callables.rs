//! What a function's code finds among the built-in names, and the name of this
//! backend.

use vstd::prelude::*;

use crate::heap::{Failure, Heap};

verus! {

/// The name of this backend.
pub fn backend_name() -> (name: &'static str)
    ensures
        name@ == "requests-native"@,
{
    "requests-native"
}

/// The built-ins of a function: its own attribute or, where it has none, what
/// its globals hold under that name.
pub open spec fn builtins_of(heap: Heap, function: usize) -> Result<usize, Failure> {
    match heap.attribute_of(function, "__builtins__"@) {
        Some(builtins) => Ok(builtins),
        None => match heap.attribute_of(function, "__globals__"@) {
            None => Err(Failure::Attribute),
            Some(globals) => match heap.dict_of(globals) {
                None => Err(Failure::Kind),
                Some(pairs) => match heap.keyed(pairs, "__builtins__"@) {
                    Some(builtins) => Ok(builtins),
                    None => Err(Failure::Name),
                },
            },
        },
    }
}

/// The built-ins of a function.
pub fn function_builtins(heap: &Heap, function: usize) -> (builtins: Result<usize, Failure>)
    ensures
        builtins == builtins_of(*heap, function),
{
    match heap.attribute(function, "__builtins__") {
        Some(builtins) => Ok(builtins),
        None => match heap.attribute(function, "__globals__") {
            None => Err(Failure::Attribute),
            Some(globals) => match heap.dict(globals) {
                None => Err(Failure::Kind),
                Some(pairs) => match heap.find_keyed(pairs, "__builtins__") {
                    Some(builtins) => Ok(builtins),
                    None => Err(Failure::Name),
                },
            },
        },
    }
}

/// The built-ins of a function as a dict: themselves, or the name space of the
/// module that they are.
pub open spec fn builtins_dict_of(heap: Heap, function: usize) -> Result<usize, Failure> {
    match builtins_of(heap, function) {
        Err(failure) => Err(failure),
        Ok(builtins) => if heap.dict_of(builtins) is Some {
            Ok(builtins)
        } else {
            match heap.attribute_of(builtins, "__dict__"@) {
                None => Err(Failure::Attribute),
                Some(namespace) => if heap.dict_of(namespace) is Some {
                    Ok(namespace)
                } else {
                    Err(Failure::Kind)
                },
            }
        },
    }
}

/// The built-ins of a function as a dict.
pub fn function_builtins_dict(heap: &Heap, function: usize) -> (builtins: Result<usize, Failure>)
    ensures
        builtins == builtins_dict_of(*heap, function),
{
    let builtins = match function_builtins(heap, function) {
        Ok(builtins) => builtins,
        Err(failure) => {
            return Err(failure);
        },
    };
    if heap.dict(builtins).is_some() {
        return Ok(builtins);
    }
    match heap.attribute(builtins, "__dict__") {
        None => Err(Failure::Attribute),
        Some(namespace) => if heap.dict(namespace).is_some() {
            Ok(namespace)
        } else {
            Err(Failure::Kind)
        },
    }
}

/// A function's builtins are those that it holds, or, where it holds none, those of
/// its globals.
pub proof fn law_builtins_of_functions(heap: Heap, function: usize, builtins: usize)
    ensures
        heap.attribute_of(function, "__builtins__"@) == Some(builtins) ==> builtins_of(
            heap,
            function,
        ) == Ok::<usize, Failure>(builtins),
        heap.attribute_of(function, "__builtins__"@) is None ==> (builtins_of(heap, function)
            == Ok::<usize, Failure>(builtins) <==> {
            &&& heap.attribute_of(function, "__globals__"@) matches Some(globals)
            &&& heap.dict_of(globals) matches Some(pairs)
            &&& heap.keyed(pairs, "__builtins__"@) == Some(builtins)
        }),
        builtins_dict_of(heap, function) == Ok::<usize, Failure>(builtins) ==> heap.dict_of(
            builtins,
        ) is Some && (builtins_of(heap, function) matches Ok(own) && (own == builtins
            || heap.dict_of(own) is None && heap.attribute_of(own, "__dict__"@) == Some(
            builtins,
        ))),
        builtins_of(heap, function) matches Ok(own) ==> heap.dict_of(own) is Some
            ==> builtins_dict_of(heap, function) == Ok::<usize, Failure>(own),
{
}

} // verus!
