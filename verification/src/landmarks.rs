//! Objects that are looked up once, by name, and later held against what the
//! same names give.

use vstd::prelude::*;

use crate::heap::{both, Check, Failure, Heap, Payload};
use crate::model_state::{is_type, type_object};
use crate::retry::{attribute_is, check_attribute_is};

verus! {

/// What an object has to be.
#[derive(Clone, Copy, Debug, PartialEq, Eq, Structural)]
pub enum Demand {
    Anything,
    Class,
    Dictionary,
    Module,
}

/// Whether an object is a module.
pub open spec fn is_module(heap: Heap, object: usize) -> bool {
    heap.at(object) matches Some(found) && found.payload is Module
}

/// Whether an object is a module.
pub fn module_object(heap: &Heap, object: usize) -> (yes: bool)
    ensures
        yes == is_module(*heap, object),
{
    match heap.get(object) {
        Some(found) => match &found.payload {
            Payload::Module => true,
            _ => false,
        },
        None => false,
    }
}

impl Demand {
    /// Whether an object is what it has to be.
    pub open spec fn met(self, heap: Heap, object: usize) -> bool {
        match self {
            Demand::Anything => true,
            Demand::Class => is_type(heap, object),
            Demand::Dictionary => heap.dict_of(object) is Some,
            Demand::Module => is_module(heap, object),
        }
    }

    /// Whether an object is what it has to be.
    pub fn is_met(&self, heap: &Heap, object: usize) -> (yes: bool)
        ensures
            yes == self.met(*heap, object),
    {
        match self {
            Demand::Anything => true,
            Demand::Class => type_object(heap, object),
            Demand::Dictionary => heap.dict(object).is_some(),
            Demand::Module => module_object(heap, object),
        }
    }
}

/// Where an object is found: in a module, below at most three names.
#[derive(Clone, Copy)]
pub struct Landmark {
    pub module: &'static str,
    pub outer: Option<&'static str>,
    pub inner: Option<&'static str>,
    pub innermost: Option<&'static str>,
    pub demand: Demand,
}

/// Where an object is found.
pub struct LandmarkView {
    pub module: Seq<char>,
    pub outer: Option<Seq<char>>,
    pub inner: Option<Seq<char>>,
    pub innermost: Option<Seq<char>>,
    pub demand: Demand,
}

/// A name that may be missing.
pub open spec fn name_view(name: Option<&'static str>) -> Option<Seq<char>> {
    match name {
        Some(name) => Some(name@),
        None => None,
    }
}

impl View for Landmark {
    type V = LandmarkView;

    open spec fn view(&self) -> LandmarkView {
        LandmarkView {
            module: self.module@,
            outer: name_view(self.outer),
            inner: name_view(self.inner),
            innermost: name_view(self.innermost),
            demand: self.demand,
        }
    }
}

/// Where a list of objects is found.
pub open spec fn landmark_views(landmarks: Seq<Landmark>) -> Seq<LandmarkView> {
    landmarks.map_values(|landmark: Landmark| landmark@)
}

/// A module itself.
pub open spec fn in_module(module: Seq<char>) -> LandmarkView {
    LandmarkView { module, outer: None, inner: None, innermost: None, demand: Demand::Anything }
}

/// A name of a module.
pub open spec fn below(module: Seq<char>, outer: Seq<char>) -> LandmarkView {
    LandmarkView { module, outer: Some(outer), inner: None, innermost: None, demand: Demand::Anything }
}

/// A name of a module that has to be a class.
pub open spec fn class_below(module: Seq<char>, outer: Seq<char>) -> LandmarkView {
    LandmarkView { module, outer: Some(outer), inner: None, innermost: None, demand: Demand::Class }
}

/// A name of a module that has to be a module.
pub open spec fn module_below(module: Seq<char>, outer: Seq<char>) -> LandmarkView {
    LandmarkView {
        module,
        outer: Some(outer),
        inner: None,
        innermost: None,
        demand: Demand::Module,
    }
}

/// A name of what a module's name gives, which has to be a dict.
pub open spec fn dictionary_below(module: Seq<char>, outer: Seq<char>, inner: Seq<char>) -> LandmarkView {
    LandmarkView {
        module,
        outer: Some(outer),
        inner: Some(inner),
        innermost: None,
        demand: Demand::Dictionary,
    }
}

/// A name of what a module's name gives.
pub open spec fn below_two(module: Seq<char>, outer: Seq<char>, inner: Seq<char>) -> LandmarkView {
    LandmarkView { module, outer: Some(outer), inner: Some(inner), innermost: None, demand: Demand::Anything }
}

/// Three names below a module.
pub open spec fn below_three(
    module: Seq<char>,
    outer: Seq<char>,
    inner: Seq<char>,
    innermost: Seq<char>,
) -> LandmarkView {
    LandmarkView {
        module,
        outer: Some(outer),
        inner: Some(inner),
        innermost: Some(innermost),
        demand: Demand::Anything,
    }
}

impl Landmark {
    /// A module itself.
    pub fn module(module: &'static str) -> (landmark: Self)
        ensures
            landmark@ == in_module(module@),
    {
        Landmark { module, outer: None, inner: None, innermost: None, demand: Demand::Anything }
    }

    /// A name of a module.
    pub fn name(module: &'static str, outer: &'static str) -> (landmark: Self)
        ensures
            landmark@ == below(module@, outer@),
    {
        Landmark { module, outer: Some(outer), inner: None, innermost: None, demand: Demand::Anything }
    }

    /// A name of a module that has to be a class.
    pub fn class(module: &'static str, outer: &'static str) -> (landmark: Self)
        ensures
            landmark@ == class_below(module@, outer@),
    {
        Landmark { module, outer: Some(outer), inner: None, innermost: None, demand: Demand::Class }
    }

    /// A name of a module that has to be a module.
    pub fn submodule(module: &'static str, outer: &'static str) -> (landmark: Self)
        ensures
            landmark@ == module_below(module@, outer@),
    {
        Landmark {
            module,
            outer: Some(outer),
            inner: None,
            innermost: None,
            demand: Demand::Module,
        }
    }

    /// A name of what a module's name gives, which has to be a dict.
    pub fn dictionary(module: &'static str, outer: &'static str, inner: &'static str) -> (landmark:
        Self)
        ensures
            landmark@ == dictionary_below(module@, outer@, inner@),
    {
        Landmark {
            module,
            outer: Some(outer),
            inner: Some(inner),
            innermost: None,
            demand: Demand::Dictionary,
        }
    }

    /// A name of what a module's name gives.
    pub fn two(module: &'static str, outer: &'static str, inner: &'static str) -> (landmark: Self)
        ensures
            landmark@ == below_two(module@, outer@, inner@),
    {
        Landmark { module, outer: Some(outer), inner: Some(inner), innermost: None, demand: Demand::Anything }
    }

    /// Three names below a module.
    pub fn three(
        module: &'static str,
        outer: &'static str,
        inner: &'static str,
        innermost: &'static str,
    ) -> (landmark: Self)
        ensures
            landmark@ == below_three(module@, outer@, inner@, innermost@),
    {
        Landmark {
            module,
            outer: Some(outer),
            inner: Some(inner),
            innermost: Some(innermost),
            demand: Demand::Anything,
        }
    }
}

/// What a name gives on an object; the object itself where there is no name.
pub open spec fn step(heap: Heap, object: usize, name: Option<Seq<char>>) -> Result<usize, Failure> {
    match name {
        None => Ok(object),
        Some(name) => match heap.attribute_of(object, name) {
            Some(value) => Ok(value),
            None => Err(Failure::Attribute),
        },
    }
}

/// What a name gives on an object.
fn take_step(heap: &Heap, object: usize, name: Option<&'static str>) -> (value: Result<
    usize,
    Failure,
>)
    ensures
        value == step(*heap, object, name_view(name)),
{
    match name {
        None => Ok(object),
        Some(name) => match heap.attribute(object, name) {
            Some(value) => Ok(value),
            None => Err(Failure::Attribute),
        },
    }
}

/// The object at a landmark.
pub open spec fn object_at(heap: Heap, landmark: LandmarkView) -> Result<usize, Failure> {
    match heap.module_of(landmark.module) {
        None => Err(Failure::Import),
        Some(module) => match step(heap, module, landmark.outer) {
            Err(failure) => Err(failure),
            Ok(outer) => match step(heap, outer, landmark.inner) {
                Err(failure) => Err(failure),
                Ok(inner) => match step(heap, inner, landmark.innermost) {
                    Err(failure) => Err(failure),
                    Ok(object) => if !landmark.demand.met(heap, object) {
                        Err(Failure::Kind)
                    } else {
                        Ok(object)
                    },
                },
            },
        },
    }
}

/// Looks an object up.
pub fn find_landmark(heap: &Heap, landmark: &Landmark) -> (object: Result<usize, Failure>)
    ensures
        object == object_at(*heap, landmark@),
{
    let module = match heap.module(landmark.module) {
        Some(module) => module,
        None => {
            return Err(Failure::Import);
        },
    };
    let outer = match take_step(heap, module, landmark.outer) {
        Ok(outer) => outer,
        Err(failure) => {
            return Err(failure);
        },
    };
    let inner = match take_step(heap, outer, landmark.inner) {
        Ok(inner) => inner,
        Err(failure) => {
            return Err(failure);
        },
    };
    let object = match take_step(heap, inner, landmark.innermost) {
        Ok(object) => object,
        Err(failure) => {
            return Err(failure);
        },
    };
    if !landmark.demand.is_met(heap, object) {
        return Err(Failure::Kind);
    }
    Ok(object)
}

/// The objects at a list of landmarks, or the failure of the first that has
/// none.
pub open spec fn objects_at(heap: Heap, landmarks: Seq<LandmarkView>) -> Result<Seq<usize>, Failure>
    decreases landmarks.len(),
{
    if landmarks.len() == 0 {
        Ok(Seq::empty())
    } else {
        match objects_at(heap, landmarks.drop_last()) {
            Err(failure) => Err(failure),
            Ok(objects) => match object_at(heap, landmarks.last()) {
                Err(failure) => Err(failure),
                Ok(object) => Ok(objects.push(object)),
            },
        }
    }
}

/// A failure among the first landmarks is the failure of all.
proof fn lemma_objects_stop(heap: Heap, landmarks: Seq<LandmarkView>, count: nat)
    requires
        count <= landmarks.len(),
        objects_at(heap, landmarks.take(count as int)) is Err,
    ensures
        objects_at(heap, landmarks) == objects_at(heap, landmarks.take(count as int)),
    decreases landmarks.len() - count,
{
    if count == landmarks.len() {
        assert(landmarks.take(count as int) =~= landmarks);
    } else {
        let next = landmarks.take((count + 1) as int);
        assert(next.drop_last() =~= landmarks.take(count as int));
        lemma_objects_stop(heap, landmarks, count + 1);
    }
}

/// Looks a list of objects up, in order.
pub fn find_landmarks(heap: &Heap, landmarks: &Vec<Landmark>) -> (objects: Result<
    Vec<usize>,
    Failure,
>)
    ensures
        match objects {
            Ok(objects) => objects_at(*heap, landmark_views(landmarks@)) == Ok::<
                Seq<usize>,
                Failure,
            >(objects@) && objects@.len() == landmarks@.len(),
            Err(failure) => objects_at(*heap, landmark_views(landmarks@)) == Err::<
                Seq<usize>,
                Failure,
            >(failure),
        },
{
    let ghost views = landmark_views(landmarks@);
    let mut objects: Vec<usize> = Vec::new();
    let mut index: usize = 0;
    while index < landmarks.len()
        invariant
            index <= landmarks.len(),
            views == landmark_views(landmarks@),
            objects@.len() == index,
            objects_at(*heap, views.take(index as int)) == Ok::<Seq<usize>, Failure>(objects@),
        decreases landmarks.len() - index,
    {
        assert(views.take(index + 1).drop_last() =~= views.take(index as int));
        assert(views.take(index + 1).last() == landmarks@[index as int]@);
        match find_landmark(heap, &landmarks[index]) {
            Ok(object) => {
                objects.push(object);
            },
            Err(failure) => {
                proof {
                    lemma_objects_stop(*heap, views, (index + 1) as nat);
                }
                return Err(failure);
            },
        }
        index = index + 1;
    }
    assert(views.take(index as int) =~= views);
    Ok(objects)
}

/// An attribute that is to be an object.
#[derive(Clone, Copy)]
pub struct Expectation {
    pub holder: usize,
    pub name: &'static str,
    pub value: usize,
}

/// An attribute that is to be an object.
pub struct ExpectationView {
    pub holder: usize,
    pub name: Seq<char>,
    pub value: usize,
}

impl View for Expectation {
    type V = ExpectationView;

    open spec fn view(&self) -> ExpectationView {
        ExpectationView { holder: self.holder, name: self.name@, value: self.value }
    }
}

/// The attributes that are to be objects.
pub open spec fn expectation_views(expectations: Seq<Expectation>) -> Seq<ExpectationView> {
    expectations.map_values(|expectation: Expectation| expectation@)
}

/// An attribute that is to be an object.
pub open spec fn expects(holder: usize, name: Seq<char>, value: usize) -> ExpectationView {
    ExpectationView { holder, name, value }
}

impl Expectation {
    /// An attribute that is to be an object.
    pub fn new(holder: usize, name: &'static str, value: usize) -> (expectation: Self)
        ensures
            expectation@ == expects(holder, name@, value),
    {
        Expectation { holder, name, value }
    }
}

/// Whether every attribute is its object, looked at in order.
pub open spec fn expected(heap: Heap, expectations: Seq<ExpectationView>) -> Check
    decreases expectations.len(),
{
    if expectations.len() == 0 {
        Ok(true)
    } else {
        both(
            attribute_is(
                heap,
                expectations[0].holder,
                expectations[0].name,
                expectations[0].value,
            ),
            expected(heap, expectations.drop_first()),
        )
    }
}

/// Whether every attribute is its object, looked at in order.
pub fn check_expectations(heap: &Heap, expectations: &Vec<Expectation>) -> (check: Check)
    ensures
        check == expected(*heap, expectation_views(expectations@)),
{
    let ghost views = expectation_views(expectations@);
    let mut index: usize = 0;
    assert(views.skip(0) =~= views);
    while index < expectations.len()
        invariant
            index <= expectations.len(),
            views == expectation_views(expectations@),
            expected(*heap, views) == expected(*heap, views.skip(index as int)),
        decreases expectations.len() - index,
    {
        assert(views.skip(index as int).drop_first() =~= views.skip(index + 1));
        assert(views.skip(index as int)[0] == expectations@[index as int]@);
        let expectation = expectations[index];
        match check_attribute_is(heap, expectation.holder, expectation.name, expectation.value) {
            Ok(true) => {},
            other => {
                return other;
            },
        }
        index = index + 1;
    }
    Ok(true)
}

/// A list of attributes are their objects exactly when each of them is.
pub proof fn law_expected_means_each(heap: Heap, expectations: Seq<ExpectationView>)
    ensures
        (expected(heap, expectations) == Ok::<bool, Failure>(true)) == (forall|i: int|
            0 <= i < expectations.len() ==> heap.attribute_of(
                (#[trigger] expectations[i]).holder,
                expectations[i].name,
            ) == Some(expectations[i].value)),
    decreases expectations.len(),
{
    if expectations.len() > 0 {
        let rest = expectations.drop_first();
        law_expected_means_each(heap, rest);
        if expected(heap, expectations) == Ok::<bool, Failure>(true) {
            assert forall|i: int| 0 <= i < expectations.len() implies heap.attribute_of(
                (#[trigger] expectations[i]).holder,
                expectations[i].name,
            ) == Some(expectations[i].value) by {
                if i > 0 {
                    assert(rest[i - 1] == expectations[i]);
                }
            }
        } else if forall|i: int|
            0 <= i < expectations.len() ==> heap.attribute_of(
                (#[trigger] expectations[i]).holder,
                expectations[i].name,
            ) == Some(expectations[i].value) {
            assert(expectations[0] == expectations[0]);
            assert forall|i: int| 0 <= i < rest.len() implies heap.attribute_of(
                (#[trigger] rest[i]).holder,
                rest[i].name,
            ) == Some(rest[i].value) by {
                assert(rest[i] == expectations[i + 1]);
            }
        }
    }
}

/// Whether an attribute of an attribute is an object.
pub open spec fn nested_is(
    heap: Heap,
    object: usize,
    outer: Seq<char>,
    inner: Seq<char>,
    value: usize,
) -> Check {
    match heap.attribute_of(object, outer) {
        None => Err(Failure::Attribute),
        Some(found) => attribute_is(heap, found, inner, value),
    }
}

/// Whether an attribute of an attribute is an object.
pub fn check_nested_is(heap: &Heap, object: usize, outer: &str, inner: &str, value: usize) -> (check:
    Check)
    ensures
        check == nested_is(*heap, object, outer@, inner@, value),
{
    match heap.attribute(object, outer) {
        None => Err(Failure::Attribute),
        Some(found) => check_attribute_is(heap, found, inner, value),
    }
}

/// Whether an attribute is of exactly a class.
pub open spec fn attribute_is_of(heap: Heap, object: usize, name: Seq<char>, class: usize) -> Check {
    match heap.attribute_of(object, name) {
        None => Err(Failure::Attribute),
        Some(value) => Ok(heap.is_exactly(value, class)),
    }
}

/// Whether an attribute is of exactly a class.
pub fn check_attribute_is_of(heap: &Heap, object: usize, name: &str, class: usize) -> (check: Check)
    ensures
        check == attribute_is_of(*heap, object, name@, class),
{
    match heap.attribute(object, name) {
        None => Err(Failure::Attribute),
        Some(value) => Ok(heap.exactly(value, class)),
    }
}

/// Whether every class has its object under its name, in the first name space
/// of its bases that holds the name.
pub open spec fn type_entries_are(heap: Heap, expectations: Seq<ExpectationView>) -> bool {
    forall|i: int|
        0 <= i < expectations.len() ==> heap.type_entry_of(
            (#[trigger] expectations[i]).holder,
            expectations[i].name,
        ) == Some(expectations[i].value)
}

/// Whether every class has its object under its name.
pub fn check_type_entries(heap: &Heap, expectations: &Vec<Expectation>) -> (yes: bool)
    ensures
        yes == type_entries_are(*heap, expectation_views(expectations@)),
{
    let ghost views = expectation_views(expectations@);
    let mut index: usize = 0;
    while index < expectations.len()
        invariant
            index <= expectations.len(),
            views == expectation_views(expectations@),
            forall|i: int|
                0 <= i < index ==> heap.type_entry_of(
                    (#[trigger] views[i]).holder,
                    views[i].name,
                ) == Some(views[i].value),
        decreases expectations.len() - index,
    {
        let expectation = expectations[index];
        assert(views[index as int] == expectation@);
        match heap.raw_type_entry(expectation.holder, expectation.name) {
            Some(value) => if value != expectation.value {
                return false;
            },
            None => {
                return false;
            },
        }
        index = index + 1;
    }
    true
}

/// Whether a class has an object under a name.
pub open spec fn type_entry_is(heap: Heap, class: usize, name: Seq<char>, value: usize) -> bool {
    heap.type_entry_of(class, name) == Some(value)
}

/// Whether a class has an object under a name.
pub fn check_type_entry(heap: &Heap, class: usize, name: &str, value: usize) -> (yes: bool)
    ensures
        yes == type_entry_is(*heap, class, name@, value),
{
    match heap.raw_type_entry(class, name) {
        Some(found) => found == value,
        None => false,
    }
}

/// Each object of a list is the one at its own landmark, in order, and a list is
/// found exactly where each of its objects is.
pub proof fn law_objects_are_those_at_their_landmarks(
    heap: Heap,
    landmarks: Seq<LandmarkView>,
    objects: Seq<usize>,
)
    ensures
        objects_at(heap, landmarks) == Ok::<Seq<usize>, Failure>(objects) <==> objects.len()
            == landmarks.len() && forall|index: int|
            0 <= index < landmarks.len() ==> object_at(heap, #[trigger] landmarks[index]) == Ok::<
                usize,
                Failure,
            >(objects[index]),
    decreases landmarks.len(),
{
    if landmarks.len() == 0 {
        assert(objects.len() == 0 ==> objects =~= Seq::empty());
    } else {
        let fewer = landmarks.drop_last();
        let last = landmarks.len() - 1;
        if objects.len() == landmarks.len() {
            let before = objects.drop_last();
            law_objects_are_those_at_their_landmarks(heap, fewer, before);
            assert(before.push(objects.last()) =~= objects);
            if objects_at(heap, landmarks) == Ok::<Seq<usize>, Failure>(objects) {
                assert(objects_at(heap, fewer)->Ok_0 =~= before);
                assert forall|index: int| 0 <= index < landmarks.len() implies object_at(
                    heap,
                    #[trigger] landmarks[index],
                ) == Ok::<usize, Failure>(objects[index]) by {
                    if index < last {
                        assert(fewer[index] == landmarks[index]);
                        assert(before[index] == objects[index]);
                    }
                }
            } else if forall|index: int|
                0 <= index < landmarks.len() ==> object_at(heap, #[trigger] landmarks[index])
                    == Ok::<usize, Failure>(objects[index]) {
                assert forall|index: int| 0 <= index < fewer.len() implies object_at(
                    heap,
                    #[trigger] fewer[index],
                ) == Ok::<usize, Failure>(before[index]) by {
                    assert(fewer[index] == landmarks[index]);
                }
                assert(object_at(heap, landmarks[last]) is Ok);
            }
        } else if objects_at(heap, landmarks) == Ok::<Seq<usize>, Failure>(objects) {
            let before = objects_at(heap, fewer)->Ok_0;
            law_objects_are_those_at_their_landmarks(heap, fewer, before);
        }
    }
}

/// A landmark names a way: from its module down its names, one attribute after
/// the other, to an object that is of the kind that is asked for.
pub proof fn law_landmarks_name_the_way(
    heap: Heap,
    module: Seq<char>,
    outer: Seq<char>,
    inner: Seq<char>,
    innermost: Seq<char>,
    object: usize,
)
    ensures
        object_at(heap, in_module(module)) == Ok::<usize, Failure>(object) <==> heap.module_of(
            module,
        ) == Some(object),
        object_at(heap, below(module, outer)) == Ok::<usize, Failure>(object) <==> (heap.module_of(
            module,
        ) matches Some(start) && heap.attribute_of(start, outer) == Some(object)),
        object_at(heap, class_below(module, outer)) == Ok::<usize, Failure>(object) <==> object_at(
            heap,
            below(module, outer),
        ) == Ok::<usize, Failure>(object) && Demand::Class.met(heap, object),
        object_at(heap, module_below(module, outer)) == Ok::<usize, Failure>(object) <==> object_at(
            heap,
            below(module, outer),
        ) == Ok::<usize, Failure>(object) && Demand::Module.met(heap, object),
        object_at(heap, below_two(module, outer, inner)) == Ok::<usize, Failure>(object) <==> (
        object_at(heap, below(module, outer)) matches Ok(holder) && heap.attribute_of(holder, inner)
            == Some(object)),
        object_at(heap, dictionary_below(module, outer, inner)) == Ok::<usize, Failure>(object)
            <==> object_at(heap, below_two(module, outer, inner)) == Ok::<usize, Failure>(object)
            && Demand::Dictionary.met(heap, object),
        object_at(heap, below_three(module, outer, inner, innermost)) == Ok::<usize, Failure>(
            object,
        ) <==> (object_at(heap, below_two(module, outer, inner)) matches Ok(holder)
            && heap.attribute_of(holder, innermost) == Some(object)),
{
}

} // verus!
