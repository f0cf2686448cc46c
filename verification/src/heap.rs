//! A snapshot of the Python objects that a decision reads.
//!
//! An object is known by its index in the snapshot, so that two references are
//! to one object exactly when their indices are equal. The snapshot holds what
//! attribute access gives for each object, and the contents of the built-in
//! kinds.

use vstd::prelude::*;

use crate::text::same_text;

verus! {

/// A name bound to an object.
pub struct Binding {
    pub name: String,
    pub value: usize,
}

/// One entry of a mapping.
#[derive(Clone, Copy, Debug, PartialEq, Eq, Structural)]
pub struct Pair {
    pub key: usize,
    pub value: usize,
}

/// What a code object is compared by, and the global names it touches.
pub struct CodeFacts {
    /// Two code objects compare equal exactly when these numbers are equal.
    pub equality: u64,
    /// The names that the code stores as globals or in its name space, in order.
    pub stored: Vec<String>,
    /// The names that the code loads as globals, in order.
    pub loaded: Vec<String>,
}

/// The contents of an object, by its built-in kind. An instance of a subclass
/// has the kind of its base.
pub enum Payload {
    Opaque,
    NoneValue,
    Ellipsis,
    Bool(bool),
    /// The value, where it is within 128 bits.
    Int(Option<i128>),
    /// The bits of the value, as `f64::to_bits` gives them.
    Float(u64),
    /// The characters, where they can be encoded.
    Text(Option<String>),
    Bytes(Vec<u8>),
    Tuple(Vec<usize>),
    List(Vec<usize>),
    MutableSet(Vec<usize>),
    FrozenSet(Vec<usize>),
    Dict(Vec<Pair>),
    /// An object other than a dict whose `items` gives these entries.
    Mapping(Vec<Pair>),
    Function,
    BuiltinFunction,
    Partial,
    Code(CodeFacts),
    Type,
    Module,
}

/// One object.
pub struct PyObject {
    /// The object's type.
    pub class: usize,
    pub payload: Payload,
    /// What attribute access gives, by name.
    pub attributes: Vec<Binding>,
}

/// The types and singletons whose identity no Python code can change.
#[derive(Clone, Copy, Debug, PartialEq, Eq, Structural)]
pub struct Intrinsics {
    pub text: usize,
    pub bytes: usize,
    pub boolean: usize,
    pub int: usize,
    pub float: usize,
    pub list: usize,
    pub tuple: usize,
    pub byte_array: usize,
    pub set: usize,
    pub frozen_set: usize,
    pub dict: usize,
    pub type_type: usize,
    pub object: usize,
    pub super_type: usize,
    pub function: usize,
    pub type_error: usize,
    pub value_error: usize,
    pub attribute_error: usize,
    pub runtime_error: usize,
    pub lookup_error: usize,
    pub unicode_decode_error: usize,
    pub unicode_encode_error: usize,
    pub import_error: usize,
    pub key_error: usize,
    pub base_exception: usize,
    /// The type of the entry `maketrans` in the name space of `str`.
    pub static_method: usize,
    /// `types.MethodDescriptorType`.
    pub method_descriptor: usize,
    /// `types.MemberDescriptorType`.
    pub member_descriptor: usize,
    /// `types.ModuleType`.
    pub module_type: usize,
}

/// A snapshot.
pub struct Heap {
    pub objects: Vec<PyObject>,
    pub intrinsics: Intrinsics,
    /// The modules that can be imported, by name.
    pub modules: Vec<Binding>,
    /// The code that each module's loader gives for it, by module name.
    pub module_code: Vec<Binding>,
}

/// Why a question to an object has no answer.
#[derive(Clone, Copy, Debug, PartialEq, Eq, Structural)]
pub enum Failure {
    /// The object has no such attribute.
    Attribute,
    /// The mapping or sequence has no such item.
    Item,
    /// The object is not of the kind asked for.
    Kind,
    /// The module cannot be imported.
    Import,
    /// A name is not defined.
    Name,
    /// Objects lie deeper below each other than was allowed.
    Depth,
}

/// The answer of a check that may meet a missing attribute or item.
pub type Check = Result<bool, Failure>;

/// Two checks in order: the second counts only where the first holds.
pub open spec fn both(first: Check, second: Check) -> Check {
    match first {
        Ok(true) => second,
        _ => first,
    }
}

/// A check that refuses wherever it cannot be answered.
pub open spec fn holds(check: Check) -> bool {
    check == Ok::<bool, Failure>(true)
}

/// The first value bound to a name.
pub open spec fn bound(bindings: Seq<Binding>, name: Seq<char>) -> Option<usize>
    decreases bindings.len(),
{
    if bindings.len() == 0 {
        None
    } else if bindings[0].name@ == name {
        Some(bindings[0].value)
    } else {
        bound(bindings.drop_first(), name)
    }
}

/// Finds the first value bound to a name.
pub fn find_bound(bindings: &Vec<Binding>, name: &str) -> (value: Option<usize>)
    ensures
        value == bound(bindings@, name@),
{
    let mut index: usize = 0;
    assert(bindings@.skip(0) =~= bindings@);
    while index < bindings.len()
        invariant
            index <= bindings.len(),
            bound(bindings@, name@) == bound(bindings@.skip(index as int), name@),
        decreases bindings.len() - index,
    {
        assert(bindings@.skip(index as int).drop_first() =~= bindings@.skip(index + 1));
        if same_text(bindings[index].name.as_str(), name) {
            return Some(bindings[index].value);
        }
        index = index + 1;
    }
    None
}

/// Whether a list holds a text.
pub open spec fn lists_text(texts: Seq<String>, text: Seq<char>) -> bool {
    exists|index: int| 0 <= index < texts.len() && (#[trigger] texts[index])@ == text
}

/// Whether a list holds a text.
pub fn list_contains(texts: &Vec<String>, text: &str) -> (found: bool)
    ensures
        found == lists_text(texts@, text@),
{
    let mut index: usize = 0;
    while index < texts.len()
        invariant
            index <= texts.len(),
            forall|i: int| 0 <= i < index ==> (#[trigger] texts@[i])@ != text@,
        decreases texts.len() - index,
    {
        if same_text(texts[index].as_str(), text) {
            assert(texts@[index as int]@ == text@);
            return true;
        }
        index = index + 1;
    }
    false
}

impl Heap {
    /// The object behind a reference, where the snapshot holds it.
    pub open spec fn at(self, object: usize) -> Option<PyObject> {
        if object < self.objects@.len() {
            Some(self.objects@[object as int])
        } else {
            None
        }
    }

    /// What attribute access gives.
    pub open spec fn attribute_of(self, object: usize, name: Seq<char>) -> Option<usize> {
        match self.at(object) {
            Some(found) => bound(found.attributes@, name),
            None => None,
        }
    }

    /// Whether an object's type is exactly `class`.
    pub open spec fn is_exactly(self, object: usize, class: usize) -> bool {
        self.at(object) matches Some(found) && found.class == class
    }

    /// Whether an object is `None`.
    pub open spec fn is_none_value(self, object: usize) -> bool {
        self.at(object) matches Some(found) && found.payload is NoneValue
    }

    /// The characters of a text.
    pub open spec fn text_of(self, object: usize) -> Option<Seq<char>> {
        match self.at(object) {
            Some(found) => match found.payload {
                Payload::Text(Some(text)) => Some(text@),
                _ => None,
            },
            None => None,
        }
    }

    /// The characters of a text that is not of a subclass.
    pub open spec fn exact_text_of(self, object: usize) -> Option<Seq<char>> {
        if self.is_exactly(object, self.intrinsics.text) {
            self.text_of(object)
        } else {
            None
        }
    }

    /// The bytes of a byte string.
    pub open spec fn bytes_of(self, object: usize) -> Option<Seq<u8>> {
        match self.at(object) {
            Some(found) => match found.payload {
                Payload::Bytes(bytes) => Some(bytes@),
                _ => None,
            },
            None => None,
        }
    }

    /// The value of an integer.
    pub open spec fn int_of(self, object: usize) -> Option<int> {
        match self.at(object) {
            Some(found) => match found.payload {
                Payload::Int(Some(value)) => Some(value as int),
                Payload::Bool(value) => Some(if value {
                    1
                } else {
                    0
                }),
                _ => None,
            },
            None => None,
        }
    }

    /// The number that an object stands for as an index: an integer stands for
    /// itself, and another object for what its `__index__` gives, which stands
    /// as the attribute `__index__()`.
    pub open spec fn index_of(self, object: usize) -> Option<int> {
        match self.at(object) {
            Some(found) => match found.payload {
                Payload::Int(_) => self.int_of(object),
                Payload::Bool(_) => self.int_of(object),
                _ => match self.attribute_of(object, "__index__()"@) {
                    Some(number) => self.int_of(number),
                    None => None,
                },
            },
            None => None,
        }
    }

    /// The value of a truth value.
    pub open spec fn bool_of(self, object: usize) -> Option<bool> {
        match self.at(object) {
            Some(found) => match found.payload {
                Payload::Bool(value) => Some(value),
                _ => None,
            },
            None => None,
        }
    }

    /// The bits of a floating-point number.
    pub open spec fn float_of(self, object: usize) -> Option<u64> {
        match self.at(object) {
            Some(found) => match found.payload {
                Payload::Float(bits) => Some(bits),
                _ => None,
            },
            None => None,
        }
    }

    /// The elements of a tuple.
    pub open spec fn tuple_of(self, object: usize) -> Option<Seq<usize>> {
        match self.at(object) {
            Some(found) => match found.payload {
                Payload::Tuple(elements) => Some(elements@),
                _ => None,
            },
            None => None,
        }
    }

    /// What iteration over a tuple, list, set or frozen set gives.
    pub open spec fn elements_of(self, object: usize) -> Option<Seq<usize>> {
        match self.at(object) {
            Some(found) => match found.payload {
                Payload::Tuple(elements) => Some(elements@),
                Payload::List(elements) => Some(elements@),
                Payload::MutableSet(elements) => Some(elements@),
                Payload::FrozenSet(elements) => Some(elements@),
                _ => None,
            },
            None => None,
        }
    }

    /// The elements of a set or frozen set.
    pub open spec fn set_of(self, object: usize) -> Option<Seq<usize>> {
        match self.at(object) {
            Some(found) => match found.payload {
                Payload::MutableSet(elements) => Some(elements@),
                Payload::FrozenSet(elements) => Some(elements@),
                _ => None,
            },
            None => None,
        }
    }

    /// The entries of a dict.
    pub open spec fn dict_of(self, object: usize) -> Option<Seq<Pair>> {
        match self.at(object) {
            Some(found) => match found.payload {
                Payload::Dict(pairs) => Some(pairs@),
                _ => None,
            },
            None => None,
        }
    }

    /// The entries of a dict or another mapping.
    pub open spec fn pairs_of(self, object: usize) -> Option<Seq<Pair>> {
        match self.at(object) {
            Some(found) => match found.payload {
                Payload::Dict(pairs) => Some(pairs@),
                Payload::Mapping(pairs) => Some(pairs@),
                _ => None,
            },
            None => None,
        }
    }

    /// Whether no two of these objects are texts of no subclass with the same
    /// characters.
    pub open spec fn texts_occur_once(self, objects: Seq<usize>) -> bool {
        forall|first: int, second: int|
            0 <= first < second < objects.len() && self.exact_text_of(objects[first]) is Some
                ==> self.exact_text_of(#[trigger] objects[first]) != self.exact_text_of(
                #[trigger] objects[second],
            )
    }

    /// What every snapshot of an interpreter keeps to: no dict and no set holds
    /// a text twice.
    pub open spec fn keys_occur_once(self) -> bool {
        &&& forall|object: usize|
            (#[trigger] self.pairs_of(object)) matches Some(pairs) ==> self.texts_occur_once(
                keys_of(pairs),
            )
        &&& forall|object: usize|
            (#[trigger] self.set_of(object)) matches Some(elements) ==> self.texts_occur_once(
                elements,
            )
    }

    /// The first value whose key is the text `name`.
    pub open spec fn keyed(self, pairs: Seq<Pair>, name: Seq<char>) -> Option<usize>
        decreases pairs.len(),
    {
        if pairs.len() == 0 {
            None
        } else if self.text_of(pairs[0].key) == Some(name) {
            Some(pairs[0].value)
        } else {
            self.keyed(pairs.drop_first(), name)
        }
    }

    /// What a mapping holds under a text.
    pub open spec fn entry_of(self, mapping: usize, name: Seq<char>) -> Option<usize> {
        match self.pairs_of(mapping) {
            Some(pairs) => self.keyed(pairs, name),
            None => None,
        }
    }

    /// The object behind a reference.
    pub fn get(&self, object: usize) -> (found: Option<&PyObject>)
        ensures
            match found {
                Some(found) => self.at(object) == Some(*found),
                None => self.at(object) is None,
            },
    {
        if object < self.objects.len() {
            Some(&self.objects[object])
        } else {
            None
        }
    }

    /// What attribute access gives.
    pub fn attribute(&self, object: usize, name: &str) -> (value: Option<usize>)
        ensures
            value == self.attribute_of(object, name@),
    {
        match self.get(object) {
            Some(found) => find_bound(&found.attributes, name),
            None => None,
        }
    }

    /// Whether an object's type is exactly `class`.
    pub fn exactly(&self, object: usize, class: usize) -> (yes: bool)
        ensures
            yes == self.is_exactly(object, class),
    {
        match self.get(object) {
            Some(found) => found.class == class,
            None => false,
        }
    }

    /// Whether an object is `None`.
    pub fn none_value(&self, object: usize) -> (yes: bool)
        ensures
            yes == self.is_none_value(object),
    {
        match self.get(object) {
            Some(found) => match &found.payload {
                Payload::NoneValue => true,
                _ => false,
            },
            None => false,
        }
    }

    /// The characters of a text.
    pub fn text(&self, object: usize) -> (text: Option<&String>)
        ensures
            match text {
                Some(text) => self.text_of(object) == Some(text@),
                None => self.text_of(object) is None,
            },
    {
        match self.get(object) {
            Some(found) => match &found.payload {
                Payload::Text(Some(text)) => Some(text),
                _ => None,
            },
            None => None,
        }
    }

    /// Whether an object is a text of these characters.
    pub fn text_is(&self, object: usize, expected: &str) -> (yes: bool)
        ensures
            yes == (self.text_of(object) == Some(expected@)),
    {
        match self.text(object) {
            Some(text) => same_text(text.as_str(), expected),
            None => false,
        }
    }

    /// Whether an object is a text of these characters and of no subclass.
    pub fn exact_text_is(&self, object: usize, expected: &str) -> (yes: bool)
        ensures
            yes == (self.exact_text_of(object) == Some(expected@)),
    {
        self.exactly(object, self.intrinsics.text) && self.text_is(object, expected)
    }

    /// The bytes of a byte string.
    pub fn bytes(&self, object: usize) -> (bytes: Option<&Vec<u8>>)
        ensures
            match bytes {
                Some(bytes) => self.bytes_of(object) == Some(bytes@),
                None => self.bytes_of(object) is None,
            },
    {
        match self.get(object) {
            Some(found) => match &found.payload {
                Payload::Bytes(bytes) => Some(bytes),
                _ => None,
            },
            None => None,
        }
    }

    /// The value of an integer.
    pub fn int_value(&self, object: usize) -> (value: Option<i128>)
        ensures
            match value {
                Some(value) => self.int_of(object) == Some(value as int),
                None => self.int_of(object) is None,
            },
    {
        match self.get(object) {
            Some(found) => match &found.payload {
                Payload::Int(Some(value)) => Some(*value),
                Payload::Bool(value) => if *value {
                    Some(1)
                } else {
                    Some(0)
                },
                _ => None,
            },
            None => None,
        }
    }

    /// The number that an object stands for as an index.
    pub fn index_value(&self, object: usize) -> (value: Option<i128>)
        ensures
            match value {
                Some(value) => self.index_of(object) == Some(value as int),
                None => self.index_of(object) is None,
            },
    {
        match self.get(object) {
            Some(found) => match &found.payload {
                Payload::Int(_) => self.int_value(object),
                Payload::Bool(_) => self.int_value(object),
                _ => match self.attribute(object, "__index__()") {
                    Some(number) => self.int_value(number),
                    None => None,
                },
            },
            None => None,
        }
    }

    /// The value of a truth value.
    pub fn bool_value(&self, object: usize) -> (value: Option<bool>)
        ensures
            value == self.bool_of(object),
    {
        match self.get(object) {
            Some(found) => match &found.payload {
                Payload::Bool(value) => Some(*value),
                _ => None,
            },
            None => None,
        }
    }

    /// The bits of a floating-point number.
    pub fn float_bits(&self, object: usize) -> (bits: Option<u64>)
        ensures
            bits == self.float_of(object),
    {
        match self.get(object) {
            Some(found) => match &found.payload {
                Payload::Float(bits) => Some(*bits),
                _ => None,
            },
            None => None,
        }
    }

    /// The elements of a tuple.
    pub fn tuple(&self, object: usize) -> (elements: Option<&Vec<usize>>)
        ensures
            match elements {
                Some(elements) => self.tuple_of(object) == Some(elements@),
                None => self.tuple_of(object) is None,
            },
    {
        match self.get(object) {
            Some(found) => match &found.payload {
                Payload::Tuple(elements) => Some(elements),
                _ => None,
            },
            None => None,
        }
    }

    /// What iteration over a tuple, list, set or frozen set gives.
    pub fn elements(&self, object: usize) -> (elements: Option<&Vec<usize>>)
        ensures
            match elements {
                Some(elements) => self.elements_of(object) == Some(elements@),
                None => self.elements_of(object) is None,
            },
    {
        match self.get(object) {
            Some(found) => match &found.payload {
                Payload::Tuple(elements) => Some(elements),
                Payload::List(elements) => Some(elements),
                Payload::MutableSet(elements) => Some(elements),
                Payload::FrozenSet(elements) => Some(elements),
                _ => None,
            },
            None => None,
        }
    }

    /// The entries of a dict.
    pub fn dict(&self, object: usize) -> (pairs: Option<&Vec<Pair>>)
        ensures
            match pairs {
                Some(pairs) => self.dict_of(object) == Some(pairs@),
                None => self.dict_of(object) is None,
            },
    {
        match self.get(object) {
            Some(found) => match &found.payload {
                Payload::Dict(pairs) => Some(pairs),
                _ => None,
            },
            None => None,
        }
    }

    /// The entries of a dict or another mapping.
    pub fn pairs(&self, object: usize) -> (pairs: Option<&Vec<Pair>>)
        ensures
            match pairs {
                Some(pairs) => self.pairs_of(object) == Some(pairs@),
                None => self.pairs_of(object) is None,
            },
    {
        match self.get(object) {
            Some(found) => match &found.payload {
                Payload::Dict(pairs) => Some(pairs),
                Payload::Mapping(pairs) => Some(pairs),
                _ => None,
            },
            None => None,
        }
    }

    /// Finds the first value whose key is the text `name`.
    pub fn find_keyed(&self, pairs: &Vec<Pair>, name: &str) -> (value: Option<usize>)
        ensures
            value == self.keyed(pairs@, name@),
    {
        let mut index: usize = 0;
        assert(pairs@.skip(0) =~= pairs@);
        while index < pairs.len()
            invariant
                index <= pairs.len(),
                self.keyed(pairs@, name@) == self.keyed(pairs@.skip(index as int), name@),
            decreases pairs.len() - index,
        {
            assert(pairs@.skip(index as int).drop_first() =~= pairs@.skip(index + 1));
            if self.text_is(pairs[index].key, name) {
                return Some(pairs[index].value);
            }
            index = index + 1;
        }
        None
    }

    /// What a mapping holds under a text.
    pub fn entry(&self, mapping: usize, name: &str) -> (value: Option<usize>)
        ensures
            value == self.entry_of(mapping, name@),
    {
        match self.pairs(mapping) {
            Some(pairs) => self.find_keyed(pairs, name),
            None => None,
        }
    }

    /// The module of a name, where it can be imported.
    pub open spec fn module_of(self, name: Seq<char>) -> Option<usize> {
        bound(self.modules@, name)
    }

    /// Imports a module.
    pub fn module(&self, name: &str) -> (module: Option<usize>)
        ensures
            module == self.module_of(name@),
    {
        find_bound(&self.modules, name)
    }

    /// What a module's name space holds under a name.
    pub open spec fn module_entry_of(self, module: usize, name: Seq<char>) -> Option<usize> {
        match self.attribute_of(module, "__dict__"@) {
            Some(namespace) => self.entry_of(namespace, name),
            None => None,
        }
    }

    /// What a module's name space holds under a name.
    pub fn module_entry(&self, module: usize, name: &str) -> (value: Option<usize>)
        ensures
            value == self.module_entry_of(module, name@),
    {
        match self.attribute(module, "__dict__") {
            Some(namespace) => self.entry(namespace, name),
            None => None,
        }
    }

    /// The first entry of that name in the name spaces of a list of classes.
    pub open spec fn first_in(self, classes: Seq<usize>, name: Seq<char>) -> Option<usize>
        decreases classes.len(),
    {
        if classes.len() == 0 {
            None
        } else {
            let found = match self.attribute_of(classes[0], "__dict__"@) {
                Some(namespace) => self.entry_of(namespace, name),
                None => None,
            };
            if found is Some {
                found
            } else {
                self.first_in(classes.drop_first(), name)
            }
        }
    }

    /// The method resolution order of a class.
    pub open spec fn mro_of(self, class: usize) -> Seq<usize> {
        match self.attribute_of(class, "__mro__"@) {
            Some(order) => match self.tuple_of(order) {
                Some(classes) => classes,
                None => Seq::empty(),
            },
            None => Seq::empty(),
        }
    }

    /// The entry that a class has under a name, itself or from the first of
    /// its bases that has one, as it stands in that name space.
    pub open spec fn type_entry_of(self, class: usize, name: Seq<char>) -> Option<usize> {
        self.first_in(self.mro_of(class), name)
    }

    /// The entry that a class has under a name, as it stands in the first name
    /// space that holds one.
    pub fn raw_type_entry(&self, class: usize, name: &str) -> (value: Option<usize>)
        ensures
            value == self.type_entry_of(class, name@),
    {
        let order = match self.attribute(class, "__mro__") {
            Some(order) => order,
            None => {
                return None;
            },
        };
        let classes = match self.tuple(order) {
            Some(classes) => classes,
            None => {
                return None;
            },
        };
        let mut index: usize = 0;
        assert(classes@.skip(0) =~= classes@);
        while index < classes.len()
            invariant
                index <= classes.len(),
                classes@ == self.mro_of(class),
                self.first_in(classes@, name@) == self.first_in(
                    classes@.skip(index as int),
                    name@,
                ),
            decreases classes.len() - index,
        {
            assert(classes@.skip(index as int).drop_first() =~= classes@.skip(index + 1));
            match self.attribute(classes[index], "__dict__") {
                Some(namespace) => {
                    let found = self.entry(namespace, name);
                    if found.is_some() {
                        return found;
                    }
                },
                None => {},
            }
            index = index + 1;
        }
        None
    }
}

/// The keys of a list of entries.
pub open spec fn keys_of(pairs: Seq<Pair>) -> Seq<usize> {
    pairs.map_values(|pair: Pair| pair.key)
}

/// Of two lists without repetition that are equally long, one has the members of
/// the other where all its members are among them.
pub proof fn lemma_same_members<A>(left: Seq<A>, right: Seq<A>)
    requires
        left.no_duplicates(),
        right.no_duplicates(),
        left.len() == right.len(),
        forall|index: int| 0 <= index < left.len() ==> right.contains(#[trigger] left[index]),
    ensures
        forall|member: A| #[trigger] right.contains(member) ==> left.contains(member),
{
    broadcast use vstd::seq_lib::seq_to_set_is_finite;

    left.unique_seq_to_set();
    right.unique_seq_to_set();
    assert(left.to_set().subset_of(right.to_set()));
    vstd::set_lib::lemma_subset_equality(left.to_set(), right.to_set());
    assert forall|member: A| #[trigger] right.contains(member) implies left.contains(member) by {
        assert(right.to_set().contains(member));
        assert(left.to_set().contains(member));
    }
}

/// Two checks hold together exactly where each does, and the first that does not
/// is the answer.
pub proof fn law_checks_hold_together(first: Check, second: Check)
    ensures
        holds(both(first, second)) <==> holds(first) && holds(second),
        !holds(first) ==> both(first, second) == first,
        holds(first) ==> both(first, second) == second,
        holds(first) <==> first == Ok::<bool, Failure>(true),
{
}

/// A name is bound to the value of the first binding of that name.
pub proof fn law_the_first_binding_counts(bindings: Seq<Binding>, name: Seq<char>)
    ensures
        bound(bindings, name) is None <==> forall|index: int|
            0 <= index < bindings.len() ==> (#[trigger] bindings[index]).name@ != name,
        forall|index: int|
            0 <= index < bindings.len() && (#[trigger] bindings[index]).name@ == name && (forall|
                earlier: int,
            |
                0 <= earlier < index ==> (#[trigger] bindings[earlier]).name@ != name) ==> bound(
                bindings,
                name,
            ) == Some(bindings[index].value),
    decreases bindings.len(),
{
    if bindings.len() > 0 {
        let rest = bindings.drop_first();
        law_the_first_binding_counts(rest, name);
        if bindings[0].name@ != name {
            assert forall|index: int| 0 <= index < bindings.len() && bound(rest, name)
                is None implies (#[trigger] bindings[index]).name@ != name by {
                if index > 0 {
                    assert(rest[index - 1] == bindings[index]);
                }
            }
            if forall|index: int|
                0 <= index < bindings.len() ==> (#[trigger] bindings[index]).name@ != name {
                assert forall|index: int| 0 <= index < rest.len() implies (
                #[trigger] rest[index]).name@ != name by {
                    assert(rest[index] == bindings[index + 1]);
                }
            }
            assert forall|index: int|
                0 <= index < bindings.len() && (#[trigger] bindings[index]).name@ == name && (
                forall|earlier: int|
                    0 <= earlier < index ==> (#[trigger] bindings[earlier]).name@
                        != name) implies bound(bindings, name) == Some(bindings[index].value) by {
                assert(index > 0);
                assert(rest[index - 1] == bindings[index]);
                assert forall|earlier: int| 0 <= earlier < index - 1 implies (
                #[trigger] rest[earlier]).name@ != name by {
                    assert(rest[earlier] == bindings[earlier + 1]);
                }
            }
        } else {
            assert(bindings[0].name@ == name);
        }
    }
}

/// A text stands for the value of the first entry with that text as its key.
pub proof fn law_the_first_entry_counts(
    heap: Heap,
    pairs: Seq<Pair>,
    name: Seq<char>,
    place: int,
)
    requires
        0 <= place < pairs.len(),
        heap.text_of(pairs[place].key) == Some(name),
        forall|earlier: int|
            0 <= earlier < place ==> heap.text_of((#[trigger] pairs[earlier]).key) != Some(name),
    ensures
        heap.keyed(pairs, name) == Some(pairs[place].value),
    decreases pairs.len(),
{
    if place > 0 {
        assert(heap.text_of(pairs[0].key) != Some(name));
        let rest = pairs.drop_first();
        assert(rest[place - 1] == pairs[place]);
        assert forall|earlier: int| 0 <= earlier < place - 1 implies heap.text_of(
            (#[trigger] rest[earlier]).key,
        ) != Some(name) by {
            assert(rest[earlier] == pairs[earlier + 1]);
        }
        law_the_first_entry_counts(heap, rest, name, place - 1);
    }
}

/// A text that is no key stands for nothing.
pub proof fn law_other_texts_stand_for_nothing(heap: Heap, pairs: Seq<Pair>, name: Seq<char>)
    requires
        forall|index: int|
            0 <= index < pairs.len() ==> heap.text_of((#[trigger] pairs[index]).key) != Some(name),
    ensures
        heap.keyed(pairs, name) is None,
    decreases pairs.len(),
{
    if pairs.len() > 0 {
        let rest = pairs.drop_first();
        assert forall|index: int| 0 <= index < rest.len() implies heap.text_of(
            (#[trigger] rest[index]).key,
        ) != Some(name) by {
            assert(rest[index] == pairs[index + 1]);
        }
        law_other_texts_stand_for_nothing(heap, rest, name);
        assert(heap.text_of(pairs[0].key) != Some(name));
    }
}

/// A member of a class is that of the first class in its line of descent that has
/// one of that name.
pub proof fn law_the_nearest_class_counts(
    heap: Heap,
    classes: Seq<usize>,
    name: Seq<char>,
    place: int,
)
    requires
        0 <= place < classes.len(),
        heap.module_entry_of(classes[place], name) is Some,
        forall|earlier: int|
            0 <= earlier < place ==> heap.module_entry_of(#[trigger] classes[earlier], name)
                is None,
    ensures
        heap.first_in(classes, name) == heap.module_entry_of(classes[place], name),
    decreases classes.len(),
{
    if place > 0 {
        assert(heap.module_entry_of(classes[0], name) is None);
        let rest = classes.drop_first();
        assert(rest[place - 1] == classes[place]);
        assert forall|earlier: int| 0 <= earlier < place - 1 implies heap.module_entry_of(
            #[trigger] rest[earlier],
            name,
        ) is None by {
            assert(rest[earlier] == classes[earlier + 1]);
        }
        law_the_nearest_class_counts(heap, rest, name, place - 1);
    }
}

/// An object is of one kind: what is read of it as one is not read as another. A
/// truth value counts as zero or one.
pub proof fn law_objects_are_of_one_kind(heap: Heap, object: usize)
    ensures
        heap.text_of(object) is Some ==> heap.bytes_of(object) is None && heap.int_of(object)
            is None && heap.elements_of(object) is None && heap.pairs_of(object) is None
            && !heap.is_none_value(object),
        heap.bytes_of(object) is Some ==> heap.int_of(object) is None && heap.elements_of(object)
            is None && heap.pairs_of(object) is None && !heap.is_none_value(object),
        heap.int_of(object) is Some ==> heap.elements_of(object) is None && heap.pairs_of(object)
            is None && !heap.is_none_value(object),
        heap.elements_of(object) is Some ==> heap.pairs_of(object) is None && !heap.is_none_value(
            object,
        ),
        heap.bool_of(object) == Some(true) ==> heap.int_of(object) == Some(1int),
        heap.bool_of(object) == Some(false) ==> heap.int_of(object) == Some(0int),
        heap.tuple_of(object) is Some ==> heap.elements_of(object) == heap.tuple_of(object),
        heap.set_of(object) is Some ==> heap.elements_of(object) == heap.set_of(object)
            && heap.tuple_of(object) is None,
        heap.dict_of(object) is Some ==> heap.pairs_of(object) == heap.dict_of(object),
        heap.int_of(object) is Some ==> heap.index_of(object) == heap.int_of(object),
        object >= heap.objects@.len() ==> heap.at(object) is None && heap.text_of(object) is None
            && heap.pairs_of(object) is None && !heap.is_none_value(object),
{
}

} // verus!
