//! Observations of the Python objects that a behaviour rests on, taken once and
//! compared later.
//!
//! A capture walks from an object through what its behaviour depends on: the
//! code, defaults, closure and attributes of a function, the parts of a partial
//! application, the bases and name space of a class, the functions of a
//! descriptor. Each object is walked into once.

use vstd::prelude::*;
use vstd::string::StringExecFns;

use crate::heap::{Binding, Check, Failure, Heap, Pair, Payload};
use crate::heap::both;

verus! {

/// An attribute that a behaviour rests on.
#[derive(Clone, Copy, Debug, PartialEq, Eq, Structural)]
pub enum Slot {
    Code,
    Defaults,
    KeywordDefaults,
    Closure,
    Namespace,
    Annotations,
    PartialFunction,
    PartialArguments,
    PartialKeywords,
    Bases,
    BoundFunction,
    Getter,
    Setter,
    Deleter,
}

impl Slot {
    /// The attribute's Python name.
    pub open spec fn spelled(self) -> Seq<char> {
        match self {
            Slot::Code => "__code__"@,
            Slot::Defaults => "__defaults__"@,
            Slot::KeywordDefaults => "__kwdefaults__"@,
            Slot::Closure => "__closure__"@,
            Slot::Namespace => "__dict__"@,
            Slot::Annotations => "__annotations__"@,
            Slot::PartialFunction => "func"@,
            Slot::PartialArguments => "args"@,
            Slot::PartialKeywords => "keywords"@,
            Slot::Bases => "__bases__"@,
            Slot::BoundFunction => "__func__"@,
            Slot::Getter => "fget"@,
            Slot::Setter => "fset"@,
            Slot::Deleter => "fdel"@,
        }
    }

    /// The attribute's Python name.
    pub fn name(&self) -> (name: &'static str)
        ensures
            name@ == self.spelled(),
    {
        match self {
            Slot::Code => "__code__",
            Slot::Defaults => "__defaults__",
            Slot::KeywordDefaults => "__kwdefaults__",
            Slot::Closure => "__closure__",
            Slot::Namespace => "__dict__",
            Slot::Annotations => "__annotations__",
            Slot::PartialFunction => "func",
            Slot::PartialArguments => "args",
            Slot::PartialKeywords => "keywords",
            Slot::Bases => "__bases__",
            Slot::BoundFunction => "__func__",
            Slot::Getter => "fget",
            Slot::Setter => "fset",
            Slot::Deleter => "fdel",
        }
    }
}

/// One observation.
pub enum Fact {
    /// An attribute is this object.
    Attribute { holder: usize, slot: Slot, value: usize },
    /// An attribute is `None`.
    NoneAttribute { holder: usize, slot: Slot },
    /// Iteration gives these objects.
    Elements { sequence: usize, items: Vec<usize> },
    /// Iteration gives so many objects.
    Count { sequence: usize, count: usize },
    /// Iteration gives this object at this place.
    Element { sequence: usize, index: usize, value: usize },
    /// A closure's cell holds this object, or nothing.
    Contents { cell: usize, contents: Option<usize> },
    /// A mapping has these entries, in order.
    Items { mapping: usize, entries: Vec<Pair> },
    /// An object's name space has these entries and no others.
    Names { holder: usize, names: Vec<Binding> },
}

/// What an observation says.
pub enum Observation {
    Attribute { holder: usize, slot: Slot, value: usize },
    NoneAttribute { holder: usize, slot: Slot },
    Elements { sequence: usize, items: Seq<usize> },
    Count { sequence: usize, count: nat },
    Element { sequence: usize, index: nat, value: usize },
    Contents { cell: usize, contents: Option<usize> },
    Items { mapping: usize, entries: Seq<Pair> },
    Names { holder: usize, names: Seq<(Seq<char>, usize)> },
}

/// The names of a list of bindings with what they stand for.
pub open spec fn named_views(bindings: Seq<Binding>) -> Seq<(Seq<char>, usize)> {
    bindings.map_values(|binding: Binding| (binding.name@, binding.value))
}

impl View for Fact {
    type V = Observation;

    open spec fn view(&self) -> Observation {
        match *self {
            Fact::Attribute { holder, slot, value } => Observation::Attribute {
                holder,
                slot,
                value,
            },
            Fact::NoneAttribute { holder, slot } => Observation::NoneAttribute { holder, slot },
            Fact::Elements { sequence, items } => Observation::Elements {
                sequence,
                items: items@,
            },
            Fact::Count { sequence, count } => Observation::Count {
                sequence,
                count: count as nat,
            },
            Fact::Element { sequence, index, value } => Observation::Element {
                sequence,
                index: index as nat,
                value,
            },
            Fact::Contents { cell, contents } => Observation::Contents { cell, contents },
            Fact::Items { mapping, entries } => Observation::Items { mapping, entries: entries@ },
            Fact::Names { holder, names } => Observation::Names {
                holder,
                names: named_views(names@),
            },
        }
    }
}

/// What a list of observations says.
pub open spec fn fact_views(facts: Seq<Fact>) -> Seq<Observation> {
    facts.map_values(|fact: Fact| fact@)
}

/// Whether a name space has every one of these entries.
pub open spec fn has_names(heap: Heap, pairs: Seq<Pair>, names: Seq<(Seq<char>, usize)>) -> bool {
    forall|index: int|
        0 <= index < names.len() ==> heap.keyed(pairs, (#[trigger] names[index]).0) == Some(
            names[index].1,
        )
}

/// Whether an observation still holds; no answer where what it reads is gone.
pub open spec fn observed(heap: Heap, observation: Observation) -> Check {
    match observation {
        Observation::Attribute { holder, slot, value } => match heap.attribute_of(
            holder,
            slot.spelled(),
        ) {
            None => Err(Failure::Attribute),
            Some(current) => Ok(current == value),
        },
        Observation::NoneAttribute { holder, slot } => match heap.attribute_of(
            holder,
            slot.spelled(),
        ) {
            None => Err(Failure::Attribute),
            Some(current) => Ok(heap.is_none_value(current)),
        },
        Observation::Elements { sequence, items } => match heap.elements_of(sequence) {
            None => Err(Failure::Kind),
            Some(current) => Ok(current == items),
        },
        Observation::Count { sequence, count } => match heap.elements_of(sequence) {
            None => Err(Failure::Kind),
            Some(current) => Ok(current.len() == count),
        },
        Observation::Element { sequence, index, value } => match heap.elements_of(sequence) {
            None => Err(Failure::Kind),
            Some(current) => Ok(index < current.len() && current[index as int] == value),
        },
        Observation::Contents { cell, contents } => Ok(
            heap.attribute_of(cell, "cell_contents"@) == contents,
        ),
        Observation::Items { mapping, entries } => match heap.pairs_of(mapping) {
            None => Err(Failure::Kind),
            Some(current) => Ok(current == entries),
        },
        Observation::Names { holder, names } => match heap.attribute_of(holder, "__dict__"@) {
            None => Err(Failure::Attribute),
            Some(namespace) => match heap.pairs_of(namespace) {
                None => Err(Failure::Kind),
                Some(pairs) => Ok(pairs.len() == names.len() && has_names(heap, pairs, names)),
            },
        },
    }
}

/// Whether every observation still holds, asked in order.
pub open spec fn checked(heap: Heap, observations: Seq<Observation>) -> Check
    decreases observations.len(),
{
    if observations.len() == 0 {
        Ok(true)
    } else {
        both(observed(heap, observations[0]), checked(heap, observations.drop_first()))
    }
}

/// Whether two lists of references are equal.
pub fn same_references(first: &Vec<usize>, second: &Vec<usize>) -> (same: bool)
    ensures
        same == (first@ == second@),
{
    if first.len() != second.len() {
        return false;
    }
    let mut index: usize = 0;
    while index < first.len()
        invariant
            index <= first.len(),
            first.len() == second.len(),
            first@.take(index as int) =~= second@.take(index as int),
        decreases first.len() - index,
    {
        if first[index] != second[index] {
            assert(first@[index as int] != second@[index as int]);
            return false;
        }
        index = index + 1;
    }
    assert(first@.take(index as int) =~= first@);
    assert(second@.take(index as int) =~= second@);
    true
}

/// Whether two lists of entries are equal.
pub fn same_pairs(first: &Vec<Pair>, second: &Vec<Pair>) -> (same: bool)
    ensures
        same == (first@ == second@),
{
    if first.len() != second.len() {
        return false;
    }
    let mut index: usize = 0;
    while index < first.len()
        invariant
            index <= first.len(),
            first.len() == second.len(),
            first@.take(index as int) =~= second@.take(index as int),
        decreases first.len() - index,
    {
        if first[index] != second[index] {
            assert(first@[index as int] != second@[index as int]);
            return false;
        }
        index = index + 1;
    }
    assert(first@.take(index as int) =~= first@);
    assert(second@.take(index as int) =~= second@);
    true
}

/// Whether a name space has every one of these entries.
fn names_are_held(heap: &Heap, pairs: &Vec<Pair>, names: &Vec<Binding>) -> (held: bool)
    ensures
        held == has_names(*heap, pairs@, named_views(names@)),
{
    let mut index: usize = 0;
    while index < names.len()
        invariant
            index <= names.len(),
            forall|i: int|
                0 <= i < index ==> heap.keyed(pairs@, (#[trigger] named_views(names@)[i]).0)
                    == Some(named_views(names@)[i].1),
        decreases names.len() - index,
    {
        assert(named_views(names@)[index as int] == (
            names@[index as int].name@,
            names@[index as int].value,
        ));
        match heap.find_keyed(pairs, names[index].name.as_str()) {
            Some(value) => {
                if value != names[index].value {
                    return false;
                }
            },
            None => {
                return false;
            },
        }
        index = index + 1;
    }
    true
}

/// Whether an observation still holds.
pub fn check_fact(heap: &Heap, fact: &Fact) -> (check: Check)
    ensures
        check == observed(*heap, fact@),
{
    match fact {
        Fact::Attribute { holder, slot, value } => match heap.attribute(*holder, slot.name()) {
            None => Err(Failure::Attribute),
            Some(current) => Ok(current == *value),
        },
        Fact::NoneAttribute { holder, slot } => match heap.attribute(*holder, slot.name()) {
            None => Err(Failure::Attribute),
            Some(current) => Ok(heap.none_value(current)),
        },
        Fact::Elements { sequence, items } => match heap.elements(*sequence) {
            None => Err(Failure::Kind),
            Some(current) => Ok(same_references(current, items)),
        },
        Fact::Count { sequence, count } => match heap.elements(*sequence) {
            None => Err(Failure::Kind),
            Some(current) => Ok(current.len() == *count),
        },
        Fact::Element { sequence, index, value } => match heap.elements(*sequence) {
            None => Err(Failure::Kind),
            Some(current) => Ok(*index < current.len() && current[*index] == *value),
        },
        Fact::Contents { cell, contents } => match (
            heap.attribute(*cell, "cell_contents"),
            contents,
        ) {
            (None, None) => Ok(true),
            (Some(current), Some(expected)) => Ok(current == *expected),
            _ => Ok(false),
        },
        Fact::Items { mapping, entries } => match heap.pairs(*mapping) {
            None => Err(Failure::Kind),
            Some(current) => Ok(same_pairs(current, entries)),
        },
        Fact::Names { holder, names } => match heap.attribute(*holder, "__dict__") {
            None => Err(Failure::Attribute),
            Some(namespace) => match heap.pairs(namespace) {
                None => Err(Failure::Kind),
                Some(pairs) => Ok(pairs.len() == names.len() && names_are_held(heap, pairs, names)),
            },
        },
    }
}

/// Whether every observation still holds, asked in order.
pub fn check_facts(heap: &Heap, facts: &Vec<Fact>) -> (check: Check)
    ensures
        check == checked(*heap, fact_views(facts@)),
{
    let mut index: usize = 0;
    let ghost observations = fact_views(facts@);
    assert(observations.skip(0) =~= observations);
    while index < facts.len()
        invariant
            index <= facts.len(),
            observations == fact_views(facts@),
            checked(*heap, observations) == checked(*heap, observations.skip(index as int)),
        decreases facts.len() - index,
    {
        assert(observations.skip(index as int).drop_first() =~= observations.skip(index + 1));
        assert(observations.skip(index as int)[0] == facts@[index as int]@);
        match check_fact(heap, &facts[index]) {
            Ok(true) => {},
            other => {
                return other;
            },
        }
        index = index + 1;
    }
    Ok(true)
}

/// What a capture gives: the observations, and which objects were walked into;
/// or why it cannot be made.
pub type Captured = Result<(Seq<Observation>, Seq<bool>), Failure>;

/// The entries of a name space, where every key is a text.
pub open spec fn named(heap: Heap, pairs: Seq<Pair>) -> Option<Seq<(Seq<char>, usize)>>
    decreases pairs.len(),
{
    if pairs.len() == 0 {
        Some(Seq::empty())
    } else {
        match (named(heap, pairs.drop_last()), heap.text_of(pairs.last().key)) {
            (Some(names), Some(text)) => Some(names.push((text, pairs.last().value))),
            _ => None,
        }
    }
}

/// The values of a list of entries.
pub open spec fn values_of(pairs: Seq<Pair>) -> Seq<usize> {
    pairs.map_values(|pair: Pair| pair.value)
}

/// Captures what an object's behaviour rests on.
pub open spec fn captured(heap: Heap, object: usize, marks: Seq<bool>, depth: nat) -> Captured
    decreases depth, 2nat, 0nat,
{
    if object >= marks.len() || marks[object as int] {
        Ok((Seq::empty(), marks))
    } else if depth == 0 {
        Err(Failure::Depth)
    } else {
        let walked = marks.update(object as int, true);
        match heap.at(object) {
            None => Ok((Seq::empty(), walked)),
            Some(found) => match found.payload {
                Payload::Function => captured_function(heap, object, walked, (depth - 1) as nat),
                Payload::Partial => captured_partial(heap, object, walked, (depth - 1) as nat),
                Payload::Type => captured_class(heap, object, walked, (depth - 1) as nat),
                _ => captured_members(heap, object, member_slots(), walked, (depth - 1) as nat),
            },
        }
    }
}

/// Captures the objects of a list, in order.
pub open spec fn captured_each(heap: Heap, items: Seq<usize>, marks: Seq<bool>, depth: nat) -> Captured
    decreases depth, 3nat, items.len(),
{
    if items.len() == 0 {
        Ok((Seq::empty(), marks))
    } else {
        match captured_each(heap, items.drop_last(), marks, depth) {
            Err(failure) => Err(failure),
            Ok((before, walked)) => match captured(heap, items.last(), walked, depth) {
                Err(failure) => Err(failure),
                Ok((last, walked)) => Ok((before + last, walked)),
            },
        }
    }
}

/// Captures the values of a mapping, in order: one that has `items` and was not
/// walked into as a mapping itself.
pub open spec fn captured_values(
    heap: Heap,
    items: Seq<usize>,
    marks: Seq<bool>,
    depth: nat,
) -> Captured
    decreases depth, 3nat, items.len(),
{
    if items.len() == 0 {
        Ok((Seq::empty(), marks))
    } else {
        match captured_values(heap, items.drop_last(), marks, depth) {
            Err(failure) => Err(failure),
            Ok((before, walked)) => {
                let item = items.last();
                let last = if heap.attribute_of(item, "items"@) is Some && item < walked.len()
                    && !walked[item as int] {
                    if depth == 0 {
                        Err(Failure::Depth)
                    } else {
                        captured_mapping(
                            heap,
                            item,
                            walked.update(item as int, true),
                            (depth - 1) as nat,
                        )
                    }
                } else {
                    captured(heap, item, walked, depth)
                };
                match last {
                    Err(failure) => Err(failure),
                    Ok((last, walked)) => Ok((before + last, walked)),
                }
            },
        }
    }
}

/// Captures the entries of a mapping.
pub open spec fn captured_mapping(heap: Heap, mapping: usize, marks: Seq<bool>, depth: nat) -> Captured
    decreases depth, 4nat, 0nat,
{
    match heap.pairs_of(mapping) {
        None => Err(Failure::Kind),
        Some(pairs) => match captured_values(heap, values_of(pairs), marks, depth) {
            Err(failure) => Err(failure),
            Ok((behaviors, walked)) => Ok(
                (seq![Observation::Items { mapping, entries: pairs }] + behaviors, walked),
            ),
        },
    }
}

/// Captures the elements of a sequence.
pub open spec fn captured_sequence(
    heap: Heap,
    sequence: usize,
    marks: Seq<bool>,
    depth: nat,
) -> Captured
    decreases depth, 4nat, 0nat,
{
    match heap.elements_of(sequence) {
        None => Err(Failure::Kind),
        Some(items) => match captured_each(heap, items, marks, depth) {
            Err(failure) => Err(failure),
            Ok((behaviors, walked)) => Ok(
                (seq![Observation::Elements { sequence, items }] + behaviors, walked),
            ),
        },
    }
}

/// Captures the name space of an object.
pub open spec fn captured_namespace(
    heap: Heap,
    holder: usize,
    marks: Seq<bool>,
    depth: nat,
) -> Captured
    decreases depth, 4nat, 0nat,
{
    match heap.attribute_of(holder, "__dict__"@) {
        None => Err(Failure::Attribute),
        Some(namespace) => match heap.pairs_of(namespace) {
            None => Err(Failure::Kind),
            Some(pairs) => match named(heap, pairs) {
                None => Err(Failure::Kind),
                Some(names) => match captured_each(heap, values_of(pairs), marks, depth) {
                    Err(failure) => Err(failure),
                    Ok((behaviors, walked)) => Ok(
                        (seq![Observation::Names { holder, names }] + behaviors, walked),
                    ),
                },
            },
        },
    }
}

/// Captures the cells of a closure, in order.
pub open spec fn captured_cells(
    heap: Heap,
    closure: usize,
    cells: Seq<usize>,
    marks: Seq<bool>,
    depth: nat,
) -> Captured
    decreases depth, 3nat, cells.len(),
{
    if cells.len() == 0 {
        Ok((Seq::empty(), marks))
    } else {
        match captured_cells(heap, closure, cells.drop_last(), marks, depth) {
            Err(failure) => Err(failure),
            Ok((before, walked)) => {
                let cell = cells.last();
                let contents = heap.attribute_of(cell, "cell_contents"@);
                let own = seq![
                    Observation::Element {
                        sequence: closure,
                        index: (cells.len() - 1) as nat,
                        value: cell,
                    },
                    Observation::Contents { cell, contents },
                ];
                match contents {
                    None => Ok((before + own, walked)),
                    Some(held) => match captured(heap, held, walked, depth) {
                        Err(failure) => Err(failure),
                        Ok((behavior, walked)) => Ok((before + own + behavior, walked)),
                    },
                }
            },
        }
    }
}

/// Captures a closure, or nothing where there is none.
pub open spec fn captured_closure(heap: Heap, closure: usize, marks: Seq<bool>, depth: nat) -> Captured
    decreases depth, 4nat, 0nat,
{
    if heap.is_none_value(closure) {
        Ok((Seq::empty(), marks))
    } else {
        match heap.elements_of(closure) {
            None => Err(Failure::Kind),
            Some(cells) => match captured_cells(heap, closure, cells, marks, depth) {
                Err(failure) => Err(failure),
                Ok((behaviors, walked)) => Ok(
                    (
                        seq![Observation::Count { sequence: closure, count: cells.len() }]
                            + behaviors,
                        walked,
                    ),
                ),
            },
        }
    }
}

/// The observation that an attribute is an object.
pub open spec fn holds_attribute(holder: usize, slot: Slot, value: usize) -> Seq<Observation> {
    seq![Observation::Attribute { holder, slot, value }]
}

/// Captures a sequence, or nothing for `None`.
pub open spec fn captured_optional_sequence(
    heap: Heap,
    sequence: usize,
    marks: Seq<bool>,
    depth: nat,
) -> Captured
    decreases depth, 5nat, 0nat,
{
    if heap.is_none_value(sequence) {
        Ok((Seq::empty(), marks))
    } else {
        captured_sequence(heap, sequence, marks, depth)
    }
}

/// Captures a mapping that an attribute holds, or nothing for `None`.
pub open spec fn captured_optional_mapping(
    heap: Heap,
    holder: usize,
    slot: Slot,
    mapping: usize,
    marks: Seq<bool>,
    depth: nat,
) -> Captured
    decreases depth, 5nat, 0nat,
{
    if heap.is_none_value(mapping) {
        Ok((Seq::empty(), marks))
    } else {
        match captured_mapping(heap, mapping, marks, depth) {
            Err(failure) => Err(failure),
            Ok((facts, walked)) => Ok((holds_attribute(holder, slot, mapping) + facts, walked)),
        }
    }
}

/// Captures a mapping that an attribute holds.
pub open spec fn captured_attribute_mapping(
    heap: Heap,
    holder: usize,
    slot: Slot,
    marks: Seq<bool>,
    depth: nat,
) -> Captured
    decreases depth, 5nat, 0nat,
{
    match heap.attribute_of(holder, slot.spelled()) {
        None => Err(Failure::Attribute),
        Some(mapping) => match captured_mapping(heap, mapping, marks, depth) {
            Err(failure) => Err(failure),
            Ok((facts, walked)) => Ok((holds_attribute(holder, slot, mapping) + facts, walked)),
        },
    }
}

/// Captures a function: its closure is walked into first, then its defaults and
/// attributes; its code, defaults and closure are compared first.
pub open spec fn captured_function(heap: Heap, function: usize, marks: Seq<bool>, depth: nat) -> Captured
    decreases depth, 7nat, 0nat,
{
    match heap.attribute_of(function, "__closure__"@) {
        None => Err(Failure::Attribute),
        Some(closure) => match captured_closure(heap, closure, marks, depth) {
            Err(failure) => Err(failure),
            Ok((cells, marks)) => match heap.attribute_of(function, "__defaults__"@) {
                None => Err(Failure::Attribute),
                Some(defaults) => match captured_optional_sequence(heap, defaults, marks, depth) {
                    Err(failure) => Err(failure),
                    Ok((default_items, marks)) => captured_function_rest(
                        heap,
                        function,
                        closure,
                        cells,
                        defaults,
                        default_items,
                        marks,
                        depth,
                    ),
                },
            },
        },
    }
}

/// Captures what is left of a function after its closure and defaults.
pub open spec fn captured_function_rest(
    heap: Heap,
    function: usize,
    closure: usize,
    cells: Seq<Observation>,
    defaults: usize,
    default_items: Seq<Observation>,
    marks: Seq<bool>,
    depth: nat,
) -> Captured
    decreases depth, 6nat, 0nat,
{
    match heap.attribute_of(function, "__kwdefaults__"@) {
        None => Err(Failure::Attribute),
        Some(keywords) => match captured_optional_mapping(
            heap,
            function,
            Slot::KeywordDefaults,
            keywords,
            marks,
            depth,
        ) {
            Err(failure) => Err(failure),
            Ok((keyword_items, marks)) => match heap.attribute_of(function, "__code__"@) {
                None => Err(Failure::Attribute),
                Some(code) => match captured_attribute_mapping(
                    heap,
                    function,
                    Slot::Namespace,
                    marks,
                    depth,
                ) {
                    Err(failure) => Err(failure),
                    Ok((attributes, marks)) => match captured_attribute_mapping(
                        heap,
                        function,
                        Slot::Annotations,
                        marks,
                        depth,
                    ) {
                        Err(failure) => Err(failure),
                        Ok((annotations, marks)) => Ok(
                            (
                                holds_attribute(function, Slot::Code, code) + holds_attribute(
                                    function,
                                    Slot::Defaults,
                                    defaults,
                                ) + holds_attribute(function, Slot::KeywordDefaults, keywords)
                                    + holds_attribute(function, Slot::Closure, closure)
                                    + attributes + annotations + keyword_items + default_items
                                    + cells,
                                marks,
                            ),
                        ),
                    },
                },
            },
        },
    }
}

/// Captures a partial application.
pub open spec fn captured_partial(heap: Heap, partial: usize, marks: Seq<bool>, depth: nat) -> Captured
    decreases depth, 6nat, 0nat,
{
    match heap.attribute_of(partial, "func"@) {
        None => Err(Failure::Attribute),
        Some(function) => match captured(heap, function, marks, depth) {
            Err(failure) => Err(failure),
            Ok((behavior, marks)) => match heap.attribute_of(partial, "args"@) {
                None => Err(Failure::Attribute),
                Some(arguments) => match captured_sequence(heap, arguments, marks, depth) {
                    Err(failure) => Err(failure),
                    Ok((items, marks)) => match heap.attribute_of(partial, "keywords"@) {
                        None => Err(Failure::Attribute),
                        Some(keywords) => {
                            let before = holds_attribute(partial, Slot::PartialFunction, function)
                                + behavior + holds_attribute(
                                partial,
                                Slot::PartialArguments,
                                arguments,
                            ) + items;
                            if heap.is_none_value(keywords) {
                                Ok(
                                    (
                                        before + seq![
                                            Observation::NoneAttribute {
                                                holder: partial,
                                                slot: Slot::PartialKeywords,
                                            },
                                        ],
                                        marks,
                                    ),
                                )
                            } else {
                                match captured_optional_mapping(
                                    heap,
                                    partial,
                                    Slot::PartialKeywords,
                                    keywords,
                                    marks,
                                    depth,
                                ) {
                                    Err(failure) => Err(failure),
                                    Ok((facts, marks)) => Ok((before + facts, marks)),
                                }
                            }
                        },
                    },
                },
            },
        },
    }
}

/// Captures a class: its bases, then its name space.
pub open spec fn captured_class(heap: Heap, class: usize, marks: Seq<bool>, depth: nat) -> Captured
    decreases depth, 6nat, 0nat,
{
    match heap.attribute_of(class, "__bases__"@) {
        None => Err(Failure::Attribute),
        Some(bases) => match captured_sequence(heap, bases, marks, depth) {
            Err(failure) => Err(failure),
            Ok((base_items, marks)) => match captured_namespace(heap, class, marks, depth) {
                Err(failure) => Err(failure),
                Ok((names, marks)) => Ok(
                    (holds_attribute(class, Slot::Bases, bases) + base_items + names, marks),
                ),
            },
        },
    }
}

/// The functions that a descriptor may hold.
pub open spec fn member_slots() -> Seq<Slot> {
    seq![Slot::BoundFunction, Slot::Getter, Slot::Setter, Slot::Deleter]
}

/// Captures the functions of a descriptor, in order; one that is missing or
/// `None` is passed over.
pub open spec fn captured_members(
    heap: Heap,
    object: usize,
    slots: Seq<Slot>,
    marks: Seq<bool>,
    depth: nat,
) -> Captured
    decreases depth, 3nat, slots.len(),
{
    if slots.len() == 0 {
        Ok((Seq::empty(), marks))
    } else {
        match captured_members(heap, object, slots.drop_last(), marks, depth) {
            Err(failure) => Err(failure),
            Ok((before, walked)) => match heap.attribute_of(object, slots.last().spelled()) {
                None => Ok((before, walked)),
                Some(member) => if heap.is_none_value(member) {
                    Ok((before, walked))
                } else {
                    match captured(heap, member, walked, depth) {
                        Err(failure) => Err(failure),
                        Ok((behavior, walked)) => Ok(
                            (
                                before + holds_attribute(object, slots.last(), member) + behavior,
                                walked,
                            ),
                        ),
                    }
                },
            },
        }
    }
}

/// Whether a capture came to what is expected.
pub open spec fn captures(
    result: Result<Vec<Fact>, Failure>,
    marks: Seq<bool>,
    expected: Captured,
) -> bool {
    match (result, expected) {
        (Ok(facts), Ok((observations, walked))) => fact_views(facts@) == observations && marks
            == walked,
        (Err(failure), Err(other)) => failure == other,
        _ => false,
    }
}

/// Puts one list of observations behind another.
fn joined(first: Vec<Fact>, second: Vec<Fact>) -> (facts: Vec<Fact>)
    ensures
        fact_views(facts@) == fact_views(first@) + fact_views(second@),
{
    let mut facts = first;
    let mut rest = second;
    facts.append(&mut rest);
    assert(fact_views(facts@) =~= fact_views(first@) + fact_views(second@));
    facts
}

/// A list of one observation.
fn single(fact: Fact) -> (facts: Vec<Fact>)
    ensures
        fact_views(facts@) == seq![fact@],
{
    let mut facts: Vec<Fact> = Vec::new();
    facts.push(fact);
    assert(fact_views(facts@) =~= seq![fact@]);
    facts
}

/// The list of the observation that an attribute is an object.
fn attribute_fact(holder: usize, slot: Slot, value: usize) -> (facts: Vec<Fact>)
    ensures
        fact_views(facts@) == holds_attribute(holder, slot, value),
{
    single(Fact::Attribute { holder, slot, value })
}

/// An empty list of observations.
fn no_facts() -> (facts: Vec<Fact>)
    ensures
        fact_views(facts@) == Seq::<Observation>::empty(),
{
    let facts: Vec<Fact> = Vec::new();
    assert(fact_views(facts@) =~= Seq::<Observation>::empty());
    facts
}

/// The values of a list of entries.
fn pair_values(pairs: &Vec<Pair>) -> (values: Vec<usize>)
    ensures
        values@ == values_of(pairs@),
{
    let mut values: Vec<usize> = Vec::new();
    let mut index: usize = 0;
    while index < pairs.len()
        invariant
            index <= pairs.len(),
            values@ == values_of(pairs@.take(index as int)),
        decreases pairs.len() - index,
    {
        values.push(pairs[index].value);
        index = index + 1;
        assert(values@ =~= values_of(pairs@.take(index as int)));
    }
    assert(pairs@.take(index as int) =~= pairs@);
    values
}

/// A copy of a list of references.
pub fn copied_references(items: &Vec<usize>) -> (copy: Vec<usize>)
    ensures
        copy@ == items@,
{
    let mut copy: Vec<usize> = Vec::new();
    let mut index: usize = 0;
    while index < items.len()
        invariant
            index <= items.len(),
            copy@ == items@.take(index as int),
        decreases items.len() - index,
    {
        copy.push(items[index]);
        index = index + 1;
        assert(copy@ =~= items@.take(index as int));
    }
    assert(items@.take(index as int) =~= items@);
    copy
}

/// A copy of a list of entries.
pub fn copied_pairs(items: &Vec<Pair>) -> (copy: Vec<Pair>)
    ensures
        copy@ == items@,
{
    let mut copy: Vec<Pair> = Vec::new();
    let mut index: usize = 0;
    while index < items.len()
        invariant
            index <= items.len(),
            copy@ == items@.take(index as int),
        decreases items.len() - index,
    {
        copy.push(items[index]);
        index = index + 1;
        assert(copy@ =~= items@.take(index as int));
    }
    assert(items@.take(index as int) =~= items@);
    copy
}

/// A missing key stays missing in a longer name space.
proof fn lemma_named_needs_every_key(heap: Heap, pairs: Seq<Pair>, count: int)
    requires
        0 <= count <= pairs.len(),
        named(heap, pairs.take(count)) is None,
    ensures
        named(heap, pairs) is None,
    decreases pairs.len() - count,
{
    if count < pairs.len() {
        assert(pairs.take(count + 1).drop_last() =~= pairs.take(count));
        lemma_named_needs_every_key(heap, pairs, count + 1);
    } else {
        assert(pairs.take(count) =~= pairs);
    }
}

/// The entries of a name space, where every key is a text.
pub fn dict_snapshot(heap: &Heap, pairs: &Vec<Pair>) -> (names: Option<Vec<Binding>>)
    ensures
        match names {
            Some(names) => named(*heap, pairs@) == Some(named_views(names@)),
            None => named(*heap, pairs@) is None,
        },
{
    let mut names: Vec<Binding> = Vec::new();
    let mut index: usize = 0;
    assert(pairs@.take(0) =~= Seq::<Pair>::empty());
    assert(named_views(names@) =~= Seq::<(Seq<char>, usize)>::empty());
    while index < pairs.len()
        invariant
            index <= pairs.len(),
            named(*heap, pairs@.take(index as int)) == Some(named_views(names@)),
        decreases pairs.len() - index,
    {
        let ghost before = named_views(names@);
        proof {
            assert(pairs@.take(index + 1).drop_last() =~= pairs@.take(index as int));
            assert(pairs@.take(index + 1).last() == pairs@[index as int]);
        }
        match heap.text(pairs[index].key) {
            Some(text) => {
                names.push(
                    Binding { name: String::from_str(text.as_str()), value: pairs[index].value },
                );
                assert(named_views(names@) =~= before.push((text@, pairs@[index as int].value)));
            },
            None => {
                proof {
                    lemma_named_needs_every_key(*heap, pairs@, index + 1);
                }
                return None;
            },
        }
        index = index + 1;
    }
    assert(pairs@.take(index as int) =~= pairs@);
    Some(names)
}

/// Captures what an object's behaviour rests on. `depth` bounds how deep
/// objects may lie below each other.
pub fn behavior_proof_inner(heap: &Heap, object: usize, marks: &mut Vec<bool>, depth: usize) -> (
    result: Result<Vec<Fact>, Failure>)
    ensures
        captures(result, final(marks)@, captured(*heap, object, old(marks)@, depth as nat)),
    decreases depth, 2nat, 0nat,
{
    if object >= marks.len() || marks[object] {
        return Ok(no_facts());
    }
    if depth == 0 {
        return Err(Failure::Depth);
    }
    marks.set(object, true);
    match heap.get(object) {
        None => Ok(no_facts()),
        Some(found) => match &found.payload {
            Payload::Function => callable_proof(heap, object, marks, depth - 1),
            Payload::Partial => partial_proof(heap, object, marks, depth - 1),
            Payload::Type => class_proof(heap, object, marks, depth - 1),
            _ => descriptor_proof(heap, object, marks, depth - 1),
        },
    }
}

/// A failed capture of the first objects is a failed capture of all.
proof fn lemma_each_fails(heap: Heap, items: Seq<usize>, marks: Seq<bool>, depth: nat, count: int)
    requires
        0 <= count <= items.len(),
        captured_each(heap, items.take(count), marks, depth) is Err,
    ensures
        captured_each(heap, items, marks, depth) == captured_each(
            heap,
            items.take(count),
            marks,
            depth,
        ),
    decreases items.len() - count,
{
    if count < items.len() {
        assert(items.take(count + 1).drop_last() =~= items.take(count));
        lemma_each_fails(heap, items, marks, depth, count + 1);
    } else {
        assert(items.take(count) =~= items);
    }
}

/// Captures the objects of a list, in order.
fn each_proof(heap: &Heap, items: &Vec<usize>, marks: &mut Vec<bool>, depth: usize) -> (result:
    Result<Vec<Fact>, Failure>)
    ensures
        captures(result, final(marks)@, captured_each(*heap, items@, old(marks)@, depth as nat)),
    decreases depth, 3nat, items.len(),
{
    let mut facts = no_facts();
    let mut index: usize = 0;
    assert(items@.take(0) =~= Seq::<usize>::empty());
    while index < items.len()
        invariant
            index <= items.len(),
            captured_each(*heap, items@.take(index as int), old(marks)@, depth as nat) == Ok::<
                (Seq<Observation>, Seq<bool>),
                Failure,
            >((fact_views(facts@), marks@)),
        decreases items.len() - index,
    {
        proof {
            assert(items@.take(index + 1).drop_last() =~= items@.take(index as int));
            assert(items@.take(index + 1).last() == items@[index as int]);
        }
        match behavior_proof_inner(heap, items[index], marks, depth) {
            Ok(last) => {
                facts = joined(facts, last);
            },
            Err(failure) => {
                proof {
                    lemma_each_fails(*heap, items@, old(marks)@, depth as nat, index + 1);
                }
                return Err(failure);
            },
        }
        index = index + 1;
    }
    assert(items@.take(index as int) =~= items@);
    Ok(facts)
}

/// A failed capture of the first values is a failed capture of all.
proof fn lemma_values_fail(heap: Heap, items: Seq<usize>, marks: Seq<bool>, depth: nat, count: int)
    requires
        0 <= count <= items.len(),
        captured_values(heap, items.take(count), marks, depth) is Err,
    ensures
        captured_values(heap, items, marks, depth) == captured_values(
            heap,
            items.take(count),
            marks,
            depth,
        ),
    decreases items.len() - count,
{
    if count < items.len() {
        assert(items.take(count + 1).drop_last() =~= items.take(count));
        lemma_values_fail(heap, items, marks, depth, count + 1);
    } else {
        assert(items.take(count) =~= items);
    }
}

/// Captures the values of a mapping, in order.
fn values_proof(heap: &Heap, items: &Vec<usize>, marks: &mut Vec<bool>, depth: usize) -> (result:
    Result<Vec<Fact>, Failure>)
    ensures
        captures(result, final(marks)@, captured_values(*heap, items@, old(marks)@, depth as nat)),
    decreases depth, 3nat, items.len(),
{
    let mut facts = no_facts();
    let mut index: usize = 0;
    assert(items@.take(0) =~= Seq::<usize>::empty());
    while index < items.len()
        invariant
            index <= items.len(),
            captured_values(*heap, items@.take(index as int), old(marks)@, depth as nat) == Ok::<
                (Seq<Observation>, Seq<bool>),
                Failure,
            >((fact_views(facts@), marks@)),
        decreases items.len() - index,
    {
        proof {
            assert(items@.take(index + 1).drop_last() =~= items@.take(index as int));
            assert(items@.take(index + 1).last() == items@[index as int]);
        }
        let item: usize = items[index];
        let last = if heap.attribute(item, "items").is_some() && item < marks.len()
            && !marks[item] {
            if depth == 0 {
                Err(Failure::Depth)
            } else {
                marks.set(item, true);
                mapping_proof_inner(heap, item, marks, depth - 1)
            }
        } else {
            behavior_proof_inner(heap, item, marks, depth)
        };
        match last {
            Ok(last) => {
                facts = joined(facts, last);
            },
            Err(failure) => {
                proof {
                    lemma_values_fail(*heap, items@, old(marks)@, depth as nat, index + 1);
                }
                return Err(failure);
            },
        }
        index = index + 1;
    }
    assert(items@.take(index as int) =~= items@);
    Ok(facts)
}

/// Captures the entries of a mapping.
pub fn mapping_proof_inner(heap: &Heap, mapping: usize, marks: &mut Vec<bool>, depth: usize) -> (
    result: Result<Vec<Fact>, Failure>)
    ensures
        captures(
            result,
            final(marks)@,
            captured_mapping(*heap, mapping, old(marks)@, depth as nat),
        ),
    decreases depth, 4nat, 0nat,
{
    match heap.pairs(mapping) {
        None => Err(Failure::Kind),
        Some(pairs) => {
            let values = pair_values(pairs);
            match values_proof(heap, &values, marks, depth) {
                Err(failure) => Err(failure),
                Ok(behaviors) => Ok(
                    joined(single(Fact::Items { mapping, entries: copied_pairs(pairs) }), behaviors),
                ),
            }
        },
    }
}

/// Captures the elements of a sequence.
pub fn sequence_proof_inner(heap: &Heap, sequence: usize, marks: &mut Vec<bool>, depth: usize) -> (
    result: Result<Vec<Fact>, Failure>)
    ensures
        captures(
            result,
            final(marks)@,
            captured_sequence(*heap, sequence, old(marks)@, depth as nat),
        ),
    decreases depth, 4nat, 0nat,
{
    match heap.elements(sequence) {
        None => Err(Failure::Kind),
        Some(items) => match each_proof(heap, items, marks, depth) {
            Err(failure) => Err(failure),
            Ok(behaviors) => Ok(
                joined(
                    single(Fact::Elements { sequence, items: copied_references(items) }),
                    behaviors,
                ),
            ),
        },
    }
}

/// Captures the name space of an object.
pub fn dict_proof_inner(heap: &Heap, holder: usize, marks: &mut Vec<bool>, depth: usize) -> (result:
    Result<Vec<Fact>, Failure>)
    ensures
        captures(
            result,
            final(marks)@,
            captured_namespace(*heap, holder, old(marks)@, depth as nat),
        ),
    decreases depth, 4nat, 0nat,
{
    let namespace = match heap.attribute(holder, "__dict__") {
        Some(namespace) => namespace,
        None => {
            return Err(Failure::Attribute);
        },
    };
    let pairs = match heap.pairs(namespace) {
        Some(pairs) => pairs,
        None => {
            return Err(Failure::Kind);
        },
    };
    let names = match dict_snapshot(heap, pairs) {
        Some(names) => names,
        None => {
            return Err(Failure::Kind);
        },
    };
    let values = pair_values(pairs);
    match each_proof(heap, &values, marks, depth) {
        Err(failure) => Err(failure),
        Ok(behaviors) => Ok(joined(single(Fact::Names { holder, names }), behaviors)),
    }
}

/// A failed capture of the first cells is a failed capture of all.
proof fn lemma_cells_fail(
    heap: Heap,
    closure: usize,
    cells: Seq<usize>,
    marks: Seq<bool>,
    depth: nat,
    count: int,
)
    requires
        0 <= count <= cells.len(),
        captured_cells(heap, closure, cells.take(count), marks, depth) is Err,
    ensures
        captured_cells(heap, closure, cells, marks, depth) == captured_cells(
            heap,
            closure,
            cells.take(count),
            marks,
            depth,
        ),
    decreases cells.len() - count,
{
    if count < cells.len() {
        assert(cells.take(count + 1).drop_last() =~= cells.take(count));
        lemma_cells_fail(heap, closure, cells, marks, depth, count + 1);
    } else {
        assert(cells.take(count) =~= cells);
    }
}

/// Captures a closure, or nothing where there is none.
fn closure_proof(heap: &Heap, closure: usize, marks: &mut Vec<bool>, depth: usize) -> (result:
    Result<Vec<Fact>, Failure>)
    ensures
        captures(
            result,
            final(marks)@,
            captured_closure(*heap, closure, old(marks)@, depth as nat),
        ),
    decreases depth, 4nat, 0nat,
{
    if heap.none_value(closure) {
        return Ok(no_facts());
    }
    let cells = match heap.elements(closure) {
        Some(cells) => cells,
        None => {
            return Err(Failure::Kind);
        },
    };
    let mut facts = no_facts();
    let mut index: usize = 0;
    assert(cells@.take(0) =~= Seq::<usize>::empty());
    while index < cells.len()
        invariant
            index <= cells.len(),
            heap.elements_of(closure) == Some(cells@),
            !heap.is_none_value(closure),
            captured_cells(*heap, closure, cells@.take(index as int), old(marks)@, depth as nat)
                == Ok::<(Seq<Observation>, Seq<bool>), Failure>((fact_views(facts@), marks@)),
        decreases cells.len() - index,
    {
        proof {
            assert(cells@.take(index + 1).drop_last() =~= cells@.take(index as int));
            assert(cells@.take(index + 1).last() == cells@[index as int]);
        }
        let cell: usize = cells[index];
        let contents = heap.attribute(cell, "cell_contents");
        let ghost before = fact_views(facts@);
        let own = joined(
            single(Fact::Element { sequence: closure, index, value: cell }),
            single(Fact::Contents { cell, contents }),
        );
        assert(fact_views(own@) =~= seq![
            Observation::Element { sequence: closure, index: index as nat, value: cell },
            Observation::Contents { cell, contents },
        ]);
        facts = joined(facts, own);
        match contents {
            None => {},
            Some(held) => match behavior_proof_inner(heap, held, marks, depth) {
                Ok(behavior) => {
                    facts = joined(facts, behavior);
                },
                Err(failure) => {
                    proof {
                        lemma_cells_fail(
                            *heap,
                            closure,
                            cells@,
                            old(marks)@,
                            depth as nat,
                            index + 1,
                        );
                    }
                    return Err(failure);
                },
            },
        }
        index = index + 1;
    }
    assert(cells@.take(index as int) =~= cells@);
    Ok(joined(single(Fact::Count { sequence: closure, count: cells.len() }), facts))
}

/// Captures a mapping that an attribute holds.
fn attribute_mapping_proof(
    heap: &Heap,
    holder: usize,
    slot: Slot,
    marks: &mut Vec<bool>,
    depth: usize,
) -> (result: Result<Vec<Fact>, Failure>)
    ensures
        captures(
            result,
            final(marks)@,
            captured_attribute_mapping(*heap, holder, slot, old(marks)@, depth as nat),
        ),
    decreases depth, 5nat, 0nat,
{
    match heap.attribute(holder, slot.name()) {
        None => Err(Failure::Attribute),
        Some(mapping) => match mapping_proof_inner(heap, mapping, marks, depth) {
            Err(failure) => Err(failure),
            Ok(facts) => Ok(joined(attribute_fact(holder, slot, mapping), facts)),
        },
    }
}

/// Captures a mapping that an attribute holds, or nothing for `None`.
fn optional_mapping_proof(
    heap: &Heap,
    holder: usize,
    slot: Slot,
    mapping: usize,
    marks: &mut Vec<bool>,
    depth: usize,
) -> (result: Result<Vec<Fact>, Failure>)
    ensures
        captures(
            result,
            final(marks)@,
            captured_optional_mapping(*heap, holder, slot, mapping, old(marks)@, depth as nat),
        ),
    decreases depth, 5nat, 0nat,
{
    if heap.none_value(mapping) {
        return Ok(no_facts());
    }
    match mapping_proof_inner(heap, mapping, marks, depth) {
        Err(failure) => Err(failure),
        Ok(facts) => Ok(joined(attribute_fact(holder, slot, mapping), facts)),
    }
}

/// Captures a function.
pub fn callable_proof(heap: &Heap, function: usize, marks: &mut Vec<bool>, depth: usize) -> (result:
    Result<Vec<Fact>, Failure>)
    ensures
        captures(
            result,
            final(marks)@,
            captured_function(*heap, function, old(marks)@, depth as nat),
        ),
    decreases depth, 6nat, 0nat,
{
    let closure = match heap.attribute(function, "__closure__") {
        Some(closure) => closure,
        None => {
            return Err(Failure::Attribute);
        },
    };
    let cells = match closure_proof(heap, closure, marks, depth) {
        Ok(cells) => cells,
        Err(failure) => {
            return Err(failure);
        },
    };
    let defaults = match heap.attribute(function, "__defaults__") {
        Some(defaults) => defaults,
        None => {
            return Err(Failure::Attribute);
        },
    };
    let default_items = if heap.none_value(defaults) {
        no_facts()
    } else {
        match sequence_proof_inner(heap, defaults, marks, depth) {
            Ok(items) => items,
            Err(failure) => {
                return Err(failure);
            },
        }
    };
    let keywords = match heap.attribute(function, "__kwdefaults__") {
        Some(keywords) => keywords,
        None => {
            return Err(Failure::Attribute);
        },
    };
    let keyword_items = match optional_mapping_proof(
        heap,
        function,
        Slot::KeywordDefaults,
        keywords,
        marks,
        depth,
    ) {
        Ok(items) => items,
        Err(failure) => {
            return Err(failure);
        },
    };
    let code = match heap.attribute(function, "__code__") {
        Some(code) => code,
        None => {
            return Err(Failure::Attribute);
        },
    };
    let attributes = match attribute_mapping_proof(heap, function, Slot::Namespace, marks, depth) {
        Ok(attributes) => attributes,
        Err(failure) => {
            return Err(failure);
        },
    };
    let annotations = match attribute_mapping_proof(
        heap,
        function,
        Slot::Annotations,
        marks,
        depth,
    ) {
        Ok(annotations) => annotations,
        Err(failure) => {
            return Err(failure);
        },
    };
    let mut facts = attribute_fact(function, Slot::Code, code);
    facts = joined(facts, attribute_fact(function, Slot::Defaults, defaults));
    facts = joined(facts, attribute_fact(function, Slot::KeywordDefaults, keywords));
    facts = joined(facts, attribute_fact(function, Slot::Closure, closure));
    facts = joined(facts, attributes);
    facts = joined(facts, annotations);
    facts = joined(facts, keyword_items);
    facts = joined(facts, default_items);
    facts = joined(facts, cells);
    Ok(facts)
}

/// Captures a partial application.
fn partial_proof(heap: &Heap, partial: usize, marks: &mut Vec<bool>, depth: usize) -> (result:
    Result<Vec<Fact>, Failure>)
    ensures
        captures(
            result,
            final(marks)@,
            captured_partial(*heap, partial, old(marks)@, depth as nat),
        ),
    decreases depth, 6nat, 0nat,
{
    let function = match heap.attribute(partial, "func") {
        Some(function) => function,
        None => {
            return Err(Failure::Attribute);
        },
    };
    let behavior = match behavior_proof_inner(heap, function, marks, depth) {
        Ok(behavior) => behavior,
        Err(failure) => {
            return Err(failure);
        },
    };
    let arguments = match heap.attribute(partial, "args") {
        Some(arguments) => arguments,
        None => {
            return Err(Failure::Attribute);
        },
    };
    let items = match sequence_proof_inner(heap, arguments, marks, depth) {
        Ok(items) => items,
        Err(failure) => {
            return Err(failure);
        },
    };
    let keywords = match heap.attribute(partial, "keywords") {
        Some(keywords) => keywords,
        None => {
            return Err(Failure::Attribute);
        },
    };
    let mut facts = attribute_fact(partial, Slot::PartialFunction, function);
    facts = joined(facts, behavior);
    facts = joined(facts, attribute_fact(partial, Slot::PartialArguments, arguments));
    facts = joined(facts, items);
    if heap.none_value(keywords) {
        return Ok(
            joined(
                facts,
                single(Fact::NoneAttribute { holder: partial, slot: Slot::PartialKeywords }),
            ),
        );
    }
    match optional_mapping_proof(heap, partial, Slot::PartialKeywords, keywords, marks, depth) {
        Ok(mapping) => Ok(joined(facts, mapping)),
        Err(failure) => Err(failure),
    }
}

/// Captures a class.
fn class_proof(heap: &Heap, class: usize, marks: &mut Vec<bool>, depth: usize) -> (result: Result<
    Vec<Fact>,
    Failure,
>)
    ensures
        captures(result, final(marks)@, captured_class(*heap, class, old(marks)@, depth as nat)),
    decreases depth, 6nat, 0nat,
{
    let bases = match heap.attribute(class, "__bases__") {
        Some(bases) => bases,
        None => {
            return Err(Failure::Attribute);
        },
    };
    let base_items = match sequence_proof_inner(heap, bases, marks, depth) {
        Ok(items) => items,
        Err(failure) => {
            return Err(failure);
        },
    };
    match dict_proof_inner(heap, class, marks, depth) {
        Ok(names) => Ok(
            joined(joined(attribute_fact(class, Slot::Bases, bases), base_items), names),
        ),
        Err(failure) => Err(failure),
    }
}

/// A failed capture of the first functions of a descriptor is a failed capture
/// of all.
proof fn lemma_members_fail(
    heap: Heap,
    object: usize,
    slots: Seq<Slot>,
    marks: Seq<bool>,
    depth: nat,
    count: int,
)
    requires
        0 <= count <= slots.len(),
        captured_members(heap, object, slots.take(count), marks, depth) is Err,
    ensures
        captured_members(heap, object, slots, marks, depth) == captured_members(
            heap,
            object,
            slots.take(count),
            marks,
            depth,
        ),
    decreases slots.len() - count,
{
    if count < slots.len() {
        assert(slots.take(count + 1).drop_last() =~= slots.take(count));
        lemma_members_fail(heap, object, slots, marks, depth, count + 1);
    } else {
        assert(slots.take(count) =~= slots);
    }
}

/// Captures the functions of a descriptor.
fn descriptor_proof(heap: &Heap, object: usize, marks: &mut Vec<bool>, depth: usize) -> (result:
    Result<Vec<Fact>, Failure>)
    ensures
        captures(
            result,
            final(marks)@,
            captured_members(*heap, object, member_slots(), old(marks)@, depth as nat),
        ),
    decreases depth, 4nat, 0nat,
{
    let slots: Vec<Slot> = vec![Slot::BoundFunction, Slot::Getter, Slot::Setter, Slot::Deleter];
    assert(slots@ =~= member_slots());
    let mut facts = no_facts();
    let mut index: usize = 0;
    assert(slots@.take(0) =~= Seq::<Slot>::empty());
    while index < slots.len()
        invariant
            index <= slots.len(),
            slots@ == member_slots(),
            captured_members(*heap, object, slots@.take(index as int), old(marks)@, depth as nat)
                == Ok::<(Seq<Observation>, Seq<bool>), Failure>((fact_views(facts@), marks@)),
        decreases slots.len() - index,
    {
        proof {
            assert(slots@.take(index + 1).drop_last() =~= slots@.take(index as int));
            assert(slots@.take(index + 1).last() == slots@[index as int]);
        }
        let slot = slots[index];
        match heap.attribute(object, slot.name()) {
            None => {},
            Some(member) => {
                if !heap.none_value(member) {
                    match behavior_proof_inner(heap, member, marks, depth) {
                        Ok(behavior) => {
                            facts = joined(
                                joined(facts, attribute_fact(object, slot, member)),
                                behavior,
                            );
                        },
                        Err(failure) => {
                            proof {
                                lemma_members_fail(
                                    *heap,
                                    object,
                                    slots@,
                                    old(marks)@,
                                    depth as nat,
                                    index + 1,
                                );
                            }
                            return Err(failure);
                        },
                    }
                }
            },
        }
        index = index + 1;
    }
    assert(slots@.take(index as int) =~= slots@);
    Ok(facts)
}

/// The marks with which a capture begins: nothing was walked into.
pub open spec fn unwalked(heap: Heap) -> Seq<bool> {
    Seq::new(heap.objects@.len(), |index: int| false)
}

/// The marks with which a capture begins.
fn no_marks(heap: &Heap) -> (marks: Vec<bool>)
    ensures
        marks@ == unwalked(*heap),
{
    let mut marks: Vec<bool> = Vec::new();
    while marks.len() < heap.objects.len()
        invariant
            marks.len() <= heap.objects.len(),
            forall|index: int| 0 <= index < marks.len() ==> !#[trigger] marks@[index],
        decreases heap.objects.len() - marks.len(),
    {
        marks.push(false);
    }
    assert(marks@ =~= unwalked(*heap));
    marks
}

/// The observations of a capture alone.
pub open spec fn facts_of(captured: Captured) -> Result<Seq<Observation>, Failure> {
    match captured {
        Ok((observations, _)) => Ok(observations),
        Err(failure) => Err(failure),
    }
}

/// Whether a proof is what a capture gives.
pub open spec fn proves(
    result: Result<Vec<Fact>, Failure>,
    expected: Result<Seq<Observation>, Failure>,
) -> bool {
    match (result, expected) {
        (Ok(facts), Ok(observations)) => fact_views(facts@) == observations,
        (Err(failure), Err(other)) => failure == other,
        _ => false,
    }
}

/// What an object's behaviour rests on.
pub open spec fn behavior_of(heap: Heap, object: usize) -> Result<Seq<Observation>, Failure> {
    facts_of(captured(heap, object, unwalked(heap), heap.objects@.len()))
}

/// What the objects in a name space rest on.
pub open spec fn namespace_of(heap: Heap, holder: usize) -> Result<Seq<Observation>, Failure> {
    facts_of(captured_namespace(heap, holder, unwalked(heap), heap.objects@.len()))
}

/// What the values of a mapping rest on.
pub open spec fn mapping_of(heap: Heap, mapping: usize) -> Result<Seq<Observation>, Failure> {
    facts_of(captured_mapping(heap, mapping, unwalked(heap), heap.objects@.len()))
}

/// Captures what an object's behaviour rests on.
pub fn behavior_proof(heap: &Heap, object: usize) -> (result: Result<Vec<Fact>, Failure>)
    ensures
        proves(result, behavior_of(*heap, object)),
{
    let mut marks = no_marks(heap);
    behavior_proof_inner(heap, object, &mut marks, heap.objects.len())
}

/// Captures what the objects in a name space rest on.
pub fn dict_proof(heap: &Heap, holder: usize) -> (result: Result<Vec<Fact>, Failure>)
    ensures
        proves(result, namespace_of(*heap, holder)),
{
    let mut marks = no_marks(heap);
    dict_proof_inner(heap, holder, &mut marks, heap.objects.len())
}

/// Captures what the values of a mapping rest on.
pub fn mapping_proof(heap: &Heap, mapping: usize) -> (result: Result<Vec<Fact>, Failure>)
    ensures
        proves(result, mapping_of(*heap, mapping)),
{
    let mut marks = no_marks(heap);
    mapping_proof_inner(heap, mapping, &mut marks, heap.objects.len())
}

/// How many objects were not walked into.
pub open spec fn unmarked(marks: Seq<bool>) -> nat
    decreases marks.len(),
{
    if marks.len() == 0 {
        0
    } else {
        unmarked(marks.drop_last()) + (if marks.last() {
            0nat
        } else {
            1nat
        })
    }
}

/// Walking into one more object leaves one fewer.
proof fn lemma_one_fewer(marks: Seq<bool>, index: int)
    requires
        0 <= index < marks.len(),
        !marks[index],
    ensures
        unmarked(marks) == unmarked(marks.update(index, true)) + 1,
    decreases marks.len(),
{
    let walked = marks.update(index, true);
    if index == marks.len() - 1 {
        assert(walked.drop_last() =~= marks.drop_last());
    } else {
        assert(walked.drop_last() =~= marks.drop_last().update(index, true));
        lemma_one_fewer(marks.drop_last(), index);
    }
}

/// Whether nothing that was walked into before is forgotten.
pub open spec fn extends(before: Seq<bool>, after: Seq<bool>) -> bool {
    before.len() == after.len() && forall|index: int|
        0 <= index < before.len() && before[index] ==> #[trigger] after[index]
}

/// Where nothing is forgotten, no more objects are left.
proof fn lemma_no_more(before: Seq<bool>, after: Seq<bool>)
    requires
        extends(before, after),
    ensures
        unmarked(after) <= unmarked(before),
    decreases before.len(),
{
    if before.len() > 0 {
        assert forall|index: int|
            0 <= index < before.drop_last().len()
                && before.drop_last()[index] implies #[trigger] after.drop_last()[index] by {
            assert(after[index]);
        }
        lemma_no_more(before.drop_last(), after.drop_last());
        assert(before.last() ==> after[before.len() - 1]);
    }
}

/// All objects are left at the beginning.
proof fn lemma_all_left(marks: Seq<bool>)
    requires
        forall|index: int| 0 <= index < marks.len() ==> !#[trigger] marks[index],
    ensures
        unmarked(marks) == marks.len(),
    decreases marks.len(),
{
    if marks.len() > 0 {
        lemma_all_left(marks.drop_last());
    }
}

/// Whether every observation holds.
pub open spec fn all_observed(heap: Heap, observations: Seq<Observation>) -> bool {
    forall|index: int|
        0 <= index < observations.len() ==> observed(heap, #[trigger] observations[index]) == Ok::<
            bool,
            Failure,
        >(true)
}

/// Whether no two keys of a mapping are the same text, as in every dict.
pub open spec fn has_distinct_names(heap: Heap) -> bool {
    forall|mapping: usize, first: int, second: int|
        #![trigger heap.pairs_of(mapping)->Some_0[first], heap.pairs_of(mapping)->Some_0[second]]
        heap.pairs_of(mapping) is Some && 0 <= first < second < heap.pairs_of(
            mapping,
        )->Some_0.len() ==> heap.text_of(heap.pairs_of(mapping)->Some_0[first].key) is None
            || heap.text_of(heap.pairs_of(mapping)->Some_0[first].key) != heap.text_of(
            heap.pairs_of(mapping)->Some_0[second].key,
        )
}

/// Whether a capture ends, forgets nothing and says what holds.
pub open spec fn is_sound(heap: Heap, marks: Seq<bool>, captured: Captured) -> bool {
    match captured {
        Err(failure) => failure != Failure::Depth,
        Ok((observations, walked)) => extends(marks, walked) && all_observed(heap, observations),
    }
}

/// Of a list of entries, the first with a text is found.
proof fn lemma_first_is_found(heap: Heap, pairs: Seq<Pair>, index: int)
    requires
        0 <= index < pairs.len(),
        heap.text_of(pairs[index].key) is Some,
        forall|other: int|
            0 <= other < index ==> heap.text_of(#[trigger] pairs[other].key) != heap.text_of(
                pairs[index].key,
            ),
    ensures
        heap.keyed(pairs, heap.text_of(pairs[index].key)->Some_0) == Some(pairs[index].value),
    decreases pairs.len(),
{
    if index > 0 {
        let rest = pairs.drop_first();
        assert(heap.text_of(pairs[0].key) != heap.text_of(pairs[index].key));
        assert(rest[index - 1] == pairs[index]);
        assert forall|other: int| 0 <= other < index - 1 implies heap.text_of(
            #[trigger] rest[other].key,
        ) != heap.text_of(rest[index - 1].key) by {
            assert(rest[other] == pairs[other + 1]);
        }
        lemma_first_is_found(heap, rest, index - 1);
    }
}

/// The names of a name space are those of its entries.
proof fn lemma_names_match(heap: Heap, pairs: Seq<Pair>)
    requires
        named(heap, pairs) is Some,
    ensures
        named(heap, pairs)->Some_0.len() == pairs.len(),
        forall|index: int|
            0 <= index < pairs.len() ==> heap.text_of(pairs[index].key) == Some(
                (#[trigger] named(heap, pairs)->Some_0[index]).0,
            ) && named(heap, pairs)->Some_0[index].1 == pairs[index].value,
    decreases pairs.len(),
{
    if pairs.len() > 0 {
        lemma_names_match(heap, pairs.drop_last());
        let names = named(heap, pairs)->Some_0;
        let before = named(heap, pairs.drop_last())->Some_0;
        assert forall|index: int| 0 <= index < pairs.len() implies heap.text_of(pairs[index].key)
            == Some((#[trigger] names[index]).0) && names[index].1 == pairs[index].value by {
            if index < pairs.len() - 1 {
                assert(before[index] == names[index]);
                assert(pairs.drop_last()[index] == pairs[index]);
            }
        }
    }
}

/// A name space that was just read holds its entries.
proof fn lemma_names_hold(heap: Heap, namespace: usize)
    requires
        has_distinct_names(heap),
        heap.pairs_of(namespace) is Some,
        named(heap, heap.pairs_of(namespace)->Some_0) is Some,
    ensures
        named(heap, heap.pairs_of(namespace)->Some_0)->Some_0.len() == heap.pairs_of(
            namespace,
        )->Some_0.len(),
        has_names(
            heap,
            heap.pairs_of(namespace)->Some_0,
            named(heap, heap.pairs_of(namespace)->Some_0)->Some_0,
        ),
{
    let pairs = heap.pairs_of(namespace)->Some_0;
    let names = named(heap, pairs)->Some_0;
    lemma_names_match(heap, pairs);
    assert forall|index: int| 0 <= index < names.len() implies heap.keyed(
        pairs,
        (#[trigger] names[index]).0,
    ) == Some(names[index].1) by {
        assert(heap.text_of(pairs[index].key) == Some(names[index].0));
        assert forall|other: int| 0 <= other < index implies heap.text_of(
            #[trigger] pairs[other].key,
        ) != heap.text_of(pairs[index].key) by {
            assert(heap.pairs_of(namespace)->Some_0[other] == pairs[other]);
            assert(heap.pairs_of(namespace)->Some_0[index] == pairs[index]);
        }
        lemma_first_is_found(heap, pairs, index);
    }
}

/// Capturing an object is sound.
proof fn lemma_captured_sound(heap: Heap, object: usize, marks: Seq<bool>, depth: nat)
    requires
        marks.len() == heap.objects@.len(),
        depth >= unmarked(marks),
        has_distinct_names(heap),
    ensures
        is_sound(heap, marks, captured(heap, object, marks, depth)),
    decreases depth, 2nat, 0nat,
{
    if object < marks.len() && !marks[object as int] {
        let walked = marks.update(object as int, true);
        lemma_one_fewer(marks, object as int);
        let left = (depth - 1) as nat;
        match heap.at(object) {
            None => {},
            Some(found) => match found.payload {
                Payload::Function => lemma_function_sound(heap, object, walked, left),
                Payload::Partial => lemma_partial_sound(heap, object, walked, left),
                Payload::Type => lemma_class_sound(heap, object, walked, left),
                _ => lemma_members_sound(heap, object, member_slots(), walked, left),
            },
        }
        assert(extends(marks, walked));
    }
}

/// Capturing a list of objects is sound.
proof fn lemma_each_sound(heap: Heap, items: Seq<usize>, marks: Seq<bool>, depth: nat)
    requires
        marks.len() == heap.objects@.len(),
        depth >= unmarked(marks),
        has_distinct_names(heap),
    ensures
        is_sound(heap, marks, captured_each(heap, items, marks, depth)),
    decreases depth, 3nat, items.len(),
{
    if items.len() > 0 {
        lemma_each_sound(heap, items.drop_last(), marks, depth);
        match captured_each(heap, items.drop_last(), marks, depth) {
            Err(_) => {},
            Ok((before, walked)) => {
                lemma_no_more(marks, walked);
                lemma_captured_sound(heap, items.last(), walked, depth);
            },
        }
    }
}

/// Capturing the values of a mapping is sound.
proof fn lemma_values_sound(heap: Heap, items: Seq<usize>, marks: Seq<bool>, depth: nat)
    requires
        marks.len() == heap.objects@.len(),
        depth >= unmarked(marks),
        has_distinct_names(heap),
    ensures
        is_sound(heap, marks, captured_values(heap, items, marks, depth)),
    decreases depth, 3nat, items.len(),
{
    if items.len() > 0 {
        lemma_values_sound(heap, items.drop_last(), marks, depth);
        match captured_values(heap, items.drop_last(), marks, depth) {
            Err(_) => {},
            Ok((before, walked)) => {
                lemma_no_more(marks, walked);
                let item = items.last();
                if heap.attribute_of(item, "items"@) is Some && item < walked.len()
                    && !walked[item as int] {
                    lemma_one_fewer(walked, item as int);
                    assert(extends(walked, walked.update(item as int, true)));
                    lemma_mapping_sound(
                        heap,
                        item,
                        walked.update(item as int, true),
                        (depth - 1) as nat,
                    );
                } else {
                    lemma_captured_sound(heap, item, walked, depth);
                }
            },
        }
    }
}

/// Capturing a mapping is sound.
proof fn lemma_mapping_sound(heap: Heap, mapping: usize, marks: Seq<bool>, depth: nat)
    requires
        marks.len() == heap.objects@.len(),
        depth >= unmarked(marks),
        has_distinct_names(heap),
    ensures
        is_sound(heap, marks, captured_mapping(heap, mapping, marks, depth)),
    decreases depth, 4nat, 0nat,
{
    match heap.pairs_of(mapping) {
        None => {},
        Some(pairs) => lemma_values_sound(heap, values_of(pairs), marks, depth),
    }
}

/// Capturing a sequence is sound.
proof fn lemma_sequence_sound(heap: Heap, sequence: usize, marks: Seq<bool>, depth: nat)
    requires
        marks.len() == heap.objects@.len(),
        depth >= unmarked(marks),
        has_distinct_names(heap),
    ensures
        is_sound(heap, marks, captured_sequence(heap, sequence, marks, depth)),
    decreases depth, 4nat, 0nat,
{
    match heap.elements_of(sequence) {
        None => {},
        Some(items) => lemma_each_sound(heap, items, marks, depth),
    }
}

/// Capturing a name space is sound.
proof fn lemma_namespace_sound(heap: Heap, holder: usize, marks: Seq<bool>, depth: nat)
    requires
        marks.len() == heap.objects@.len(),
        depth >= unmarked(marks),
        has_distinct_names(heap),
    ensures
        is_sound(heap, marks, captured_namespace(heap, holder, marks, depth)),
    decreases depth, 4nat, 0nat,
{
    match heap.attribute_of(holder, "__dict__"@) {
        None => {},
        Some(namespace) => match heap.pairs_of(namespace) {
            None => {},
            Some(pairs) => {
                if named(heap, pairs) is Some {
                    lemma_names_hold(heap, namespace);
                    lemma_each_sound(heap, values_of(pairs), marks, depth);
                }
            },
        },
    }
}

/// Capturing the first cells of a closure is sound.
proof fn lemma_cells_sound(heap: Heap, closure: usize, cells: Seq<usize>, marks: Seq<bool>, depth: nat)
    requires
        marks.len() == heap.objects@.len(),
        depth >= unmarked(marks),
        has_distinct_names(heap),
        heap.elements_of(closure) is Some,
        cells.len() <= heap.elements_of(closure)->Some_0.len(),
        cells == heap.elements_of(closure)->Some_0.take(cells.len() as int),
    ensures
        is_sound(heap, marks, captured_cells(heap, closure, cells, marks, depth)),
    decreases depth, 3nat, cells.len(),
{
    if cells.len() > 0 {
        let all = heap.elements_of(closure)->Some_0;
        assert(cells.drop_last() =~= all.take(cells.len() - 1));
        assert(cells.last() == all[cells.len() - 1]);
        lemma_cells_sound(heap, closure, cells.drop_last(), marks, depth);
        match captured_cells(heap, closure, cells.drop_last(), marks, depth) {
            Err(_) => {},
            Ok((before, walked)) => {
                lemma_no_more(marks, walked);
                match heap.attribute_of(cells.last(), "cell_contents"@) {
                    None => {},
                    Some(held) => lemma_captured_sound(heap, held, walked, depth),
                }
            },
        }
    }
}

/// Capturing a closure is sound.
proof fn lemma_closure_sound(heap: Heap, closure: usize, marks: Seq<bool>, depth: nat)
    requires
        marks.len() == heap.objects@.len(),
        depth >= unmarked(marks),
        has_distinct_names(heap),
    ensures
        is_sound(heap, marks, captured_closure(heap, closure, marks, depth)),
    decreases depth, 4nat, 0nat,
{
    if !heap.is_none_value(closure) {
        match heap.elements_of(closure) {
            None => {},
            Some(cells) => {
                assert(cells =~= cells.take(cells.len() as int));
                lemma_cells_sound(heap, closure, cells, marks, depth);
            },
        }
    }
}

/// Capturing a function is sound.
proof fn lemma_function_sound(heap: Heap, function: usize, marks: Seq<bool>, depth: nat)
    requires
        marks.len() == heap.objects@.len(),
        depth >= unmarked(marks),
        has_distinct_names(heap),
    ensures
        is_sound(heap, marks, captured_function(heap, function, marks, depth)),
    decreases depth, 7nat, 0nat,
{
    match heap.attribute_of(function, "__closure__"@) {
        None => {},
        Some(closure) => {
            lemma_closure_sound(heap, closure, marks, depth);
            match captured_closure(heap, closure, marks, depth) {
                Err(_) => {},
                Ok((cells, walked)) => {
                    lemma_no_more(marks, walked);
                    match heap.attribute_of(function, "__defaults__"@) {
                        None => {},
                        Some(defaults) => {
                            lemma_sequence_sound(heap, defaults, walked, depth);
                            match captured_optional_sequence(heap, defaults, walked, depth) {
                                Err(_) => {},
                                Ok((default_items, further)) => {
                                    lemma_no_more(walked, further);
                                    lemma_function_rest_sound(
                                        heap,
                                        function,
                                        closure,
                                        cells,
                                        defaults,
                                        default_items,
                                        further,
                                        depth,
                                    );
                                },
                            }
                        },
                    }
                },
            }
        },
    }
}

/// Capturing what is left of a function is sound.
proof fn lemma_function_rest_sound(
    heap: Heap,
    function: usize,
    closure: usize,
    cells: Seq<Observation>,
    defaults: usize,
    default_items: Seq<Observation>,
    marks: Seq<bool>,
    depth: nat,
)
    requires
        marks.len() == heap.objects@.len(),
        depth >= unmarked(marks),
        has_distinct_names(heap),
        heap.attribute_of(function, "__closure__"@) == Some(closure),
        heap.attribute_of(function, "__defaults__"@) == Some(defaults),
        all_observed(heap, cells),
        all_observed(heap, default_items),
    ensures
        is_sound(heap, marks, captured_function_rest(heap, function, closure, cells, defaults, default_items, marks, depth)),
    decreases depth, 6nat, 0nat,
{
    match heap.attribute_of(function, "__kwdefaults__"@) {
        None => {},
        Some(keywords) => {
            lemma_mapping_sound(heap, keywords, marks, depth);
            match captured_optional_mapping(
                heap,
                function,
                Slot::KeywordDefaults,
                keywords,
                marks,
                depth,
            ) {
                Err(_) => {},
                Ok((keyword_items, walked)) => {
                    lemma_no_more(marks, walked);
                    assert(all_observed(heap, keyword_items));
                    lemma_attribute_mapping_sound(heap, function, Slot::Namespace, walked, depth);
                    match captured_attribute_mapping(
                        heap,
                        function,
                        Slot::Namespace,
                        walked,
                        depth,
                    ) {
                        Err(_) => {},
                        Ok((attributes, further)) => {
                            lemma_no_more(walked, further);
                            lemma_attribute_mapping_sound(
                                heap,
                                function,
                                Slot::Annotations,
                                further,
                                depth,
                            );
                        },
                    }
                },
            }
        },
    }
}

/// Capturing a mapping that an attribute holds is sound.
proof fn lemma_attribute_mapping_sound(heap: Heap, holder: usize, slot: Slot, marks: Seq<bool>, depth: nat)
    requires
        marks.len() == heap.objects@.len(),
        depth >= unmarked(marks),
        has_distinct_names(heap),
    ensures
        is_sound(heap, marks, captured_attribute_mapping(heap, holder, slot, marks, depth)),
    decreases depth, 5nat, 0nat,
{
    match heap.attribute_of(holder, slot.spelled()) {
        None => {},
        Some(mapping) => lemma_mapping_sound(heap, mapping, marks, depth),
    }
}

/// Capturing a partial application is sound.
proof fn lemma_partial_sound(heap: Heap, partial: usize, marks: Seq<bool>, depth: nat)
    requires
        marks.len() == heap.objects@.len(),
        depth >= unmarked(marks),
        has_distinct_names(heap),
    ensures
        is_sound(heap, marks, captured_partial(heap, partial, marks, depth)),
    decreases depth, 6nat, 0nat,
{
    match heap.attribute_of(partial, "func"@) {
        None => {},
        Some(function) => {
            lemma_captured_sound(heap, function, marks, depth);
            match captured(heap, function, marks, depth) {
                Err(_) => {},
                Ok((behavior, walked)) => {
                    lemma_no_more(marks, walked);
                    match heap.attribute_of(partial, "args"@) {
                        None => {},
                        Some(arguments) => {
                            lemma_sequence_sound(heap, arguments, walked, depth);
                            match captured_sequence(heap, arguments, walked, depth) {
                                Err(_) => {},
                                Ok((items, further)) => {
                                    lemma_no_more(walked, further);
                                    match heap.attribute_of(partial, "keywords"@) {
                                        None => {},
                                        Some(keywords) => lemma_mapping_sound(
                                            heap,
                                            keywords,
                                            further,
                                            depth,
                                        ),
                                    }
                                },
                            }
                        },
                    }
                },
            }
        },
    }
}

/// Capturing a class is sound.
proof fn lemma_class_sound(heap: Heap, class: usize, marks: Seq<bool>, depth: nat)
    requires
        marks.len() == heap.objects@.len(),
        depth >= unmarked(marks),
        has_distinct_names(heap),
    ensures
        is_sound(heap, marks, captured_class(heap, class, marks, depth)),
    decreases depth, 6nat, 0nat,
{
    match heap.attribute_of(class, "__bases__"@) {
        None => {},
        Some(bases) => {
            lemma_sequence_sound(heap, bases, marks, depth);
            match captured_sequence(heap, bases, marks, depth) {
                Err(_) => {},
                Ok((items, walked)) => {
                    lemma_no_more(marks, walked);
                    lemma_namespace_sound(heap, class, walked, depth);
                },
            }
        },
    }
}

/// Capturing the functions of a descriptor is sound.
proof fn lemma_members_sound(heap: Heap, object: usize, slots: Seq<Slot>, marks: Seq<bool>, depth: nat)
    requires
        marks.len() == heap.objects@.len(),
        depth >= unmarked(marks),
        has_distinct_names(heap),
    ensures
        is_sound(heap, marks, captured_members(heap, object, slots, marks, depth)),
    decreases depth, 3nat, slots.len(),
{
    if slots.len() > 0 {
        lemma_members_sound(heap, object, slots.drop_last(), marks, depth);
        match captured_members(heap, object, slots.drop_last(), marks, depth) {
            Err(_) => {},
            Ok((before, walked)) => {
                lemma_no_more(marks, walked);
                match heap.attribute_of(object, slots.last().spelled()) {
                    None => {},
                    Some(member) => lemma_captured_sound(heap, member, walked, depth),
                }
            },
        }
    }
}

/// A proof is pristine exactly where every one of its observations holds.
pub proof fn law_pristine_means_unchanged(heap: Heap, observations: Seq<Observation>)
    ensures
        checked(heap, observations) == Ok::<bool, Failure>(true) <==> all_observed(
            heap,
            observations,
        ),
    decreases observations.len(),
{
    if observations.len() > 0 {
        let rest = observations.drop_first();
        law_pristine_means_unchanged(heap, rest);
        if all_observed(heap, observations) {
            assert(observed(heap, observations[0]) == Ok::<bool, Failure>(true));
            assert forall|index: int| 0 <= index < rest.len() implies observed(
                heap,
                #[trigger] rest[index],
            ) == Ok::<bool, Failure>(true) by {
                assert(rest[index] == observations[index + 1]);
            }
        } else if checked(heap, observations) == Ok::<bool, Failure>(true) {
            assert forall|index: int| 0 <= index < observations.len() implies observed(
                heap,
                #[trigger] observations[index],
            ) == Ok::<bool, Failure>(true) by {
                if index > 0 {
                    assert(observations[index] == rest[index - 1]);
                }
            }
        }
    }
}

/// A capture always ends, and a proof that was just taken is pristine.
pub proof fn law_fresh_proof_is_pristine(heap: Heap, object: usize)
    requires
        has_distinct_names(heap),
    ensures
        behavior_of(heap, object) != Err::<Seq<Observation>, Failure>(Failure::Depth),
        namespace_of(heap, object) != Err::<Seq<Observation>, Failure>(Failure::Depth),
        mapping_of(heap, object) != Err::<Seq<Observation>, Failure>(Failure::Depth),
        behavior_of(heap, object) matches Ok(proof_facts) ==> checked(heap, proof_facts) == Ok::<
            bool,
            Failure,
        >(true),
        namespace_of(heap, object) matches Ok(proof_facts) ==> checked(heap, proof_facts) == Ok::<
            bool,
            Failure,
        >(true),
        mapping_of(heap, object) matches Ok(proof_facts) ==> checked(heap, proof_facts) == Ok::<
            bool,
            Failure,
        >(true),
{
    let marks = unwalked(heap);
    lemma_all_left(marks);
    let depth = heap.objects@.len();
    lemma_captured_sound(heap, object, marks, depth);
    lemma_namespace_sound(heap, object, marks, depth);
    lemma_mapping_sound(heap, object, marks, depth);
    match behavior_of(heap, object) {
        Ok(facts) => law_pristine_means_unchanged(heap, facts),
        Err(_) => {},
    }
    match namespace_of(heap, object) {
        Ok(facts) => law_pristine_means_unchanged(heap, facts),
        Err(_) => {},
    }
    match mapping_of(heap, object) {
        Ok(facts) => law_pristine_means_unchanged(heap, facts),
        Err(_) => {},
    }
}

/// The fact that an attribute is what it is.
pub open spec fn observed_attribute(heap: Heap, holder: usize, slot: Slot) -> Observation {
    Observation::Attribute {
        holder,
        slot,
        value: heap.attribute_of(holder, slot.spelled())->Some_0,
    }
}

proof fn lemma_part_is_contained(
    before: Seq<Observation>,
    part: Seq<Observation>,
    after: Seq<Observation>,
    index: int,
)
    requires
        0 <= index < part.len(),
    ensures
        (before + part + after).contains(part[index]),
{
    assert((before + part + after)[before.len() + index] == part[index]);
}

proof fn lemma_facts_of_functions(
    heap: Heap,
    function: usize,
    marks: Seq<bool>,
    depth: nat,
    facts: Seq<Observation>,
    walked: Seq<bool>,
)
    requires
        captured_function(heap, function, marks, depth) == Ok::<
            (Seq<Observation>, Seq<bool>),
            Failure,
        >((facts, walked)),
    ensures
        facts.contains(observed_attribute(heap, function, Slot::Code)),
        facts.contains(observed_attribute(heap, function, Slot::Defaults)),
        facts.contains(observed_attribute(heap, function, Slot::KeywordDefaults)),
        facts.contains(observed_attribute(heap, function, Slot::Closure)),
        facts.contains(observed_attribute(heap, function, Slot::Namespace)),
        facts.contains(observed_attribute(heap, function, Slot::Annotations)),
{
    let closure = heap.attribute_of(function, "__closure__"@)->Some_0;
    let (cells, first) = captured_closure(heap, closure, marks, depth)->Ok_0;
    let defaults = heap.attribute_of(function, "__defaults__"@)->Some_0;
    let (default_items, second) = captured_optional_sequence(heap, defaults, first, depth)->Ok_0;
    let keywords = heap.attribute_of(function, "__kwdefaults__"@)->Some_0;
    let (keyword_items, third) = captured_optional_mapping(
        heap,
        function,
        Slot::KeywordDefaults,
        keywords,
        second,
        depth,
    )->Ok_0;
    let code = heap.attribute_of(function, "__code__"@)->Some_0;
    let (attributes, fourth) = captured_attribute_mapping(
        heap,
        function,
        Slot::Namespace,
        third,
        depth,
    )->Ok_0;
    let (annotations, fifth) = captured_attribute_mapping(
        heap,
        function,
        Slot::Annotations,
        fourth,
        depth,
    )->Ok_0;
    let own = holds_attribute(function, Slot::Code, code) + holds_attribute(
        function,
        Slot::Defaults,
        defaults,
    ) + holds_attribute(function, Slot::KeywordDefaults, keywords) + holds_attribute(
        function,
        Slot::Closure,
        closure,
    );
    let rest = keyword_items + default_items + cells;
    assert(facts =~= own + attributes + annotations + keyword_items + default_items + cells);
    assert(facts =~= own + attributes + (annotations + rest));
    assert(facts =~= (own + attributes) + annotations + rest);
    assert(facts[0] == observed_attribute(heap, function, Slot::Code));
    assert(facts[1] == observed_attribute(heap, function, Slot::Defaults));
    assert(facts[2] == observed_attribute(heap, function, Slot::KeywordDefaults));
    assert(facts[3] == observed_attribute(heap, function, Slot::Closure));
    assert(attributes[0] == observed_attribute(heap, function, Slot::Namespace));
    assert(annotations[0] == observed_attribute(heap, function, Slot::Annotations));
    lemma_part_is_contained(own, attributes, annotations + rest, 0);
    lemma_part_is_contained(own + attributes, annotations, rest, 0);
}

/// Whether an attribute is what it was.
pub open spec fn stays_the_same(heap: Heap, later: Heap, holder: usize, name: Seq<char>) -> bool {
    heap.attribute_of(holder, name) is Some && later.attribute_of(holder, name)
        == heap.attribute_of(holder, name)
}

/// A function whose behaviour is found unchanged later has the code, the defaults,
/// the closure, the annotations and the name space that it had.
pub proof fn law_changed_functions_are_noticed(
    heap: Heap,
    later: Heap,
    function: usize,
    facts: Seq<Observation>,
)
    requires
        function < heap.objects@.len(),
        heap.at(function) matches Some(found) && found.payload is Function,
        behavior_of(heap, function) == Ok::<Seq<Observation>, Failure>(facts),
        checked(later, facts) == Ok::<bool, Failure>(true),
    ensures
        stays_the_same(heap, later, function, "__code__"@),
        stays_the_same(heap, later, function, "__defaults__"@),
        stays_the_same(heap, later, function, "__kwdefaults__"@),
        stays_the_same(heap, later, function, "__closure__"@),
        stays_the_same(heap, later, function, "__dict__"@),
        stays_the_same(heap, later, function, "__annotations__"@),
{
    law_pristine_means_unchanged(later, facts);
    let marks = unwalked(heap).update(function as int, true);
    let depth = (heap.objects@.len() - 1) as nat;
    let (own, walked) = captured_function(heap, function, marks, depth)->Ok_0;
    lemma_facts_of_functions(heap, function, marks, depth, own, walked);
    lemma_contained_is_observed(later, facts, observed_attribute(heap, function, Slot::Code));
    lemma_contained_is_observed(later, facts, observed_attribute(heap, function, Slot::Defaults));
    lemma_contained_is_observed(
        later,
        facts,
        observed_attribute(heap, function, Slot::KeywordDefaults),
    );
    lemma_contained_is_observed(later, facts, observed_attribute(heap, function, Slot::Closure));
    lemma_contained_is_observed(later, facts, observed_attribute(heap, function, Slot::Namespace));
    lemma_contained_is_observed(later, facts, observed_attribute(heap, function, Slot::Annotations));
}

proof fn lemma_contained_is_observed(
    later: Heap,
    facts: Seq<Observation>,
    observation: Observation,
)
    requires
        all_observed(later, facts),
        facts.contains(observation),
    ensures
        observed(later, observation) == Ok::<bool, Failure>(true),
{
    let index = choose|index: int| 0 <= index < facts.len() && facts[index] == observation;
    assert(observed(later, facts[index]) == Ok::<bool, Failure>(true));
}

/// A partial application whose behaviour is found unchanged later has the
/// function, the arguments and the keywords that it had.
pub proof fn law_changed_partials_are_noticed(
    heap: Heap,
    later: Heap,
    partial: usize,
    facts: Seq<Observation>,
)
    requires
        partial < heap.objects@.len(),
        heap.at(partial) matches Some(found) && found.payload is Partial,
        behavior_of(heap, partial) == Ok::<Seq<Observation>, Failure>(facts),
        checked(later, facts) == Ok::<bool, Failure>(true),
    ensures
        stays_the_same(heap, later, partial, "func"@),
        stays_the_same(heap, later, partial, "args"@),
        later.elements_of(heap.attribute_of(partial, "args"@)->Some_0) == heap.elements_of(
            heap.attribute_of(partial, "args"@)->Some_0,
        ),
        heap.attribute_of(partial, "keywords"@) matches Some(keywords) && (if heap.is_none_value(
            keywords,
        ) {
            later.attribute_of(partial, "keywords"@) matches Some(current) && later.is_none_value(
                current,
            )
        } else {
            later.attribute_of(partial, "keywords"@) == Some(keywords) && later.pairs_of(keywords)
                == heap.pairs_of(keywords)
        }),
{
    law_pristine_means_unchanged(later, facts);
    let marks = unwalked(heap).update(partial as int, true);
    let depth = (heap.objects@.len() - 1) as nat;
    assert(captured_partial(heap, partial, marks, depth) is Ok);
    let function = heap.attribute_of(partial, "func"@)->Some_0;
    let (behavior, first) = captured(heap, function, marks, depth)->Ok_0;
    let arguments = heap.attribute_of(partial, "args"@)->Some_0;
    let (items, second) = captured_sequence(heap, arguments, first, depth)->Ok_0;
    let keywords = heap.attribute_of(partial, "keywords"@)->Some_0;
    let own = holds_attribute(partial, Slot::PartialFunction, function);
    let held = holds_attribute(partial, Slot::PartialArguments, arguments);
    let before = own + behavior + held + items;
    let last = if heap.is_none_value(keywords) {
        seq![Observation::NoneAttribute { holder: partial, slot: Slot::PartialKeywords }]
    } else {
        captured_optional_mapping(
            heap,
            partial,
            Slot::PartialKeywords,
            keywords,
            second,
            depth,
        )->Ok_0.0
    };
    assert(facts =~= before + last);
    assert(facts =~= (own + behavior) + held + (items + last));
    assert(facts =~= (own + behavior + held) + items + last);
    assert(facts =~= before + last + Seq::empty());
    assert(facts[0] == observed_attribute(heap, partial, Slot::PartialFunction));
    assert(observed(later, facts[0]) == Ok::<bool, Failure>(true));
    lemma_part_is_contained(own + behavior, held, items + last, 0);
    lemma_contained_is_observed(later, facts, held[0]);
    lemma_part_is_contained(own + behavior + held, items, last, 0);
    lemma_contained_is_observed(later, facts, items[0]);
    lemma_part_is_contained(before, last, Seq::empty(), 0);
    lemma_contained_is_observed(later, facts, last[0]);
    if !heap.is_none_value(keywords) {
        lemma_part_is_contained(before, last, Seq::empty(), 1);
        lemma_contained_is_observed(later, facts, last[1]);
    }
}

/// The names of a name space stand in the order of its entries, one for each, with
/// the entry's own value.
pub proof fn law_names_follow_the_entries(
    heap: Heap,
    pairs: Seq<Pair>,
    names: Seq<(Seq<char>, usize)>,
)
    requires
        named(heap, pairs) == Some(names),
    ensures
        names.len() == pairs.len(),
        forall|index: int|
            0 <= index < pairs.len() ==> heap.text_of((#[trigger] pairs[index]).key) == Some(
                names[index].0,
            ) && names[index].1 == pairs[index].value,
    decreases pairs.len(),
{
    if pairs.len() > 0 {
        let front = pairs.drop_last();
        let before = named(heap, front)->Some_0;
        law_names_follow_the_entries(heap, front, before);
        assert forall|index: int| 0 <= index < pairs.len() implies heap.text_of(
            (#[trigger] pairs[index]).key,
        ) == Some(names[index].0) && names[index].1 == pairs[index].value by {
            if index < front.len() {
                assert(front[index] == pairs[index]);
                assert(names[index] == before[index]);
            }
        }
    }
}

/// A class whose behaviour is found unchanged later has the bases that it had, in
/// order, and as many names as it had, each with the value that it had.
pub proof fn law_changed_classes_are_noticed(
    heap: Heap,
    later: Heap,
    class: usize,
    facts: Seq<Observation>,
    pairs: Seq<Pair>,
)
    requires
        class < heap.objects@.len(),
        heap.at(class) matches Some(found) && found.payload is Type,
        heap.attribute_of(class, "__dict__"@) matches Some(namespace) && heap.pairs_of(namespace)
            == Some(pairs),
        behavior_of(heap, class) == Ok::<Seq<Observation>, Failure>(facts),
        checked(later, facts) == Ok::<bool, Failure>(true),
    ensures
        stays_the_same(heap, later, class, "__bases__"@),
        later.elements_of(heap.attribute_of(class, "__bases__"@)->Some_0) == heap.elements_of(
            heap.attribute_of(class, "__bases__"@)->Some_0,
        ),
        later.attribute_of(class, "__dict__"@) matches Some(current) && later.pairs_of(
            current,
        ) matches Some(entries) && entries.len() == pairs.len() && forall|index: int|
            0 <= index < pairs.len() ==> later.keyed(
                entries,
                heap.text_of((#[trigger] pairs[index]).key)->Some_0,
            ) == Some(pairs[index].value),
{
    law_pristine_means_unchanged(later, facts);
    let marks = unwalked(heap).update(class as int, true);
    let depth = (heap.objects@.len() - 1) as nat;
    assert(captured_class(heap, class, marks, depth) is Ok);
    let bases = heap.attribute_of(class, "__bases__"@)->Some_0;
    let (base_items, first) = captured_sequence(heap, bases, marks, depth)->Ok_0;
    let (held, second) = captured_namespace(heap, class, first, depth)->Ok_0;
    let own = holds_attribute(class, Slot::Bases, bases);
    let names = named(heap, pairs)->Some_0;
    law_names_follow_the_entries(heap, pairs, names);
    assert(facts =~= own + base_items + held);
    assert(facts =~= (own + base_items) + held + Seq::empty());
    assert(facts[0] == observed_attribute(heap, class, Slot::Bases));
    assert(observed(later, facts[0]) == Ok::<bool, Failure>(true));
    lemma_part_is_contained(own, base_items, held, 0);
    lemma_contained_is_observed(later, facts, base_items[0]);
    lemma_part_is_contained(own + base_items, held, Seq::empty(), 0);
    assert(held[0] == Observation::Names { holder: class, names });
    lemma_contained_is_observed(later, facts, held[0]);
    let entries = later.pairs_of(later.attribute_of(class, "__dict__"@)->Some_0)->Some_0;
    assert forall|index: int| 0 <= index < pairs.len() implies later.keyed(
        entries,
        heap.text_of((#[trigger] pairs[index]).key)->Some_0,
    ) == Some(pairs[index].value) by {
        assert(names[index].1 == pairs[index].value);
        assert(later.keyed(entries, names[index].0) == Some(names[index].1));
    }
}

/// The slots of a behaviour are told by their own names.
pub proof fn law_slots_have_their_own_names(slot: Slot)
    ensures
        slot.spelled() == "__code__"@ <== slot is Code,
        slot.spelled() == "__defaults__"@ <== slot is Defaults,
        slot.spelled() == "__kwdefaults__"@ <== slot is KeywordDefaults,
        slot.spelled() == "__closure__"@ <== slot is Closure,
        slot.spelled() == "__dict__"@ <== slot is Namespace,
        slot.spelled() == "__annotations__"@ <== slot is Annotations,
        slot.spelled() == "func"@ <== slot is PartialFunction,
        slot.spelled() == "args"@ <== slot is PartialArguments,
        slot.spelled() == "keywords"@ <== slot is PartialKeywords,
        slot.spelled() == "__bases__"@ <== slot is Bases,
        slot.spelled() == "__func__"@ <== slot is BoundFunction,
        slot.spelled() == "fget"@ <== slot is Getter,
        slot.spelled() == "fset"@ <== slot is Setter,
        slot.spelled() == "fdel"@ <== slot is Deleter,
{
}

/// Whether a member of a descriptor is what it was, where there is one.
pub open spec fn member_stays(heap: Heap, later: Heap, object: usize, name: Seq<char>) -> bool {
    heap.attribute_of(object, name) matches Some(member) ==> heap.is_none_value(member)
        || later.attribute_of(object, name) == Some(member)
}

/// A bound method or a property whose behaviour is found unchanged later has the
/// function, the getter, the setter and the deleter that it had.
pub proof fn law_changed_descriptors_are_noticed(
    heap: Heap,
    later: Heap,
    object: usize,
    facts: Seq<Observation>,
)
    requires
        object < heap.objects@.len(),
        heap.at(object) matches Some(found) && !(found.payload is Function) && !(
        found.payload is Partial) && !(found.payload is Type),
        behavior_of(heap, object) == Ok::<Seq<Observation>, Failure>(facts),
        checked(later, facts) == Ok::<bool, Failure>(true),
    ensures
        member_stays(heap, later, object, "__func__"@),
        member_stays(heap, later, object, "fget"@),
        member_stays(heap, later, object, "fset"@),
        member_stays(heap, later, object, "fdel"@),
{
    law_pristine_means_unchanged(later, facts);
    let marks = unwalked(heap).update(object as int, true);
    let depth = (heap.objects@.len() - 1) as nat;
    let slots = member_slots();
    let (own, walked) = captured_members(heap, object, slots, marks, depth)->Ok_0;
    assert(facts =~= own);
    lemma_facts_of_members(heap, later, object, slots, marks, depth, own, walked);
    assert(slots[0].spelled() == "__func__"@ && slots[1].spelled() == "fget"@
        && slots[2].spelled() == "fset"@ && slots[3].spelled() == "fdel"@);
}

proof fn lemma_facts_of_members(
    heap: Heap,
    later: Heap,
    object: usize,
    slots: Seq<Slot>,
    marks: Seq<bool>,
    depth: nat,
    facts: Seq<Observation>,
    walked: Seq<bool>,
)
    requires
        captured_members(heap, object, slots, marks, depth) == Ok::<
            (Seq<Observation>, Seq<bool>),
            Failure,
        >((facts, walked)),
        all_observed(later, facts),
    ensures
        forall|index: int|
            0 <= index < slots.len() ==> member_stays(
                heap,
                later,
                object,
                (#[trigger] slots[index]).spelled(),
            ),
    decreases slots.len(),
{
    if slots.len() > 0 {
        let front = slots.drop_last();
        let (before, first) = captured_members(heap, object, front, marks, depth)->Ok_0;
        assert(forall|index: int|
            0 <= index < before.len() ==> #[trigger] facts[index] == before[index]);
        assert forall|index: int| 0 <= index < before.len() implies observed(
            later,
            #[trigger] before[index],
        ) == Ok::<bool, Failure>(true) by {
            assert(facts[index] == before[index]);
        }
        lemma_facts_of_members(heap, later, object, front, marks, depth, before, first);
        assert forall|index: int| 0 <= index < slots.len() implies member_stays(
            heap,
            later,
            object,
            (#[trigger] slots[index]).spelled(),
        ) by {
            if index < front.len() {
                assert(front[index] == slots[index]);
            } else if let Some(member) = heap.attribute_of(object, slots.last().spelled()) {
                if !heap.is_none_value(member) {
                    assert(facts[before.len() as int] == observed_attribute(
                        heap,
                        object,
                        slots.last(),
                    ));
                    assert(observed(later, facts[before.len() as int]) == Ok::<bool, Failure>(
                        true,
                    ));
                }
            }
        }
    }
}

} // verus!
