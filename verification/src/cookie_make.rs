//! The making of cookies, and what is done with a jar once that is native.

use vstd::prelude::*;
use vstd::string::StringExecFns;

use crate::heap::{Failure, Heap, Pair};
use crate::text::{parse_signed, same_text, signed_value};

verus! {

/// The value of an argument of the cookie constructor.
#[derive(Clone, Copy, Debug, PartialEq, Eq, Structural)]
pub enum ArgumentValue {
    Object(usize),
    Nothing,
    Flag(bool),
    Number(i64),
    /// The empty text.
    EmptyText,
    /// The text `/`.
    RootPath,
    /// A dict with the one key `HttpOnly`, for an object or for `None`.
    HttpOnly(Option<usize>),
}

/// An argument of the cookie constructor.
pub struct Argument {
    pub name: String,
    pub value: ArgumentValue,
}

/// The arguments of the cookie constructor, in order.
pub open spec fn argument_views(arguments: Seq<Argument>) -> Seq<(Seq<char>, ArgumentValue)> {
    arguments.map_values(|argument: Argument| (argument.name@, argument.value))
}

/// The value of an argument.
pub open spec fn argument_of(arguments: Seq<(Seq<char>, ArgumentValue)>, name: Seq<char>) -> Option<
    ArgumentValue,
>
    decreases arguments.len(),
{
    if arguments.len() == 0 {
        None
    } else if arguments[0].0 == name {
        Some(arguments[0].1)
    } else {
        argument_of(arguments.drop_first(), name)
    }
}

/// The arguments with one more, or with another value in its place.
pub open spec fn with_argument(
    arguments: Seq<(Seq<char>, ArgumentValue)>,
    name: Seq<char>,
    value: ArgumentValue,
) -> Seq<(Seq<char>, ArgumentValue)>
    decreases arguments.len(),
{
    if arguments.len() == 0 {
        seq![(name, value)]
    } else if arguments[0].0 == name {
        seq![(name, value)] + arguments.drop_first()
    } else {
        seq![arguments[0]] + with_argument(arguments.drop_first(), name, value)
    }
}

/// An argument that was set has its value, and no other has changed.
pub proof fn lemma_with_argument(
    arguments: Seq<(Seq<char>, ArgumentValue)>,
    name: Seq<char>,
    value: ArgumentValue,
    other: Seq<char>,
)
    ensures
        argument_of(with_argument(arguments, name, value), other) == (if other == name {
            Some(value)
        } else {
            argument_of(arguments, other)
        }),
    decreases arguments.len(),
{
    let changed = with_argument(arguments, name, value);
    if arguments.len() == 0 {
        assert(changed[0] == (name, value));
        assert(changed.drop_first() =~= arguments);
    } else if arguments[0].0 == name {
        assert(changed[0] == (name, value));
        assert(changed.drop_first() =~= arguments.drop_first());
    } else {
        lemma_with_argument(arguments.drop_first(), name, value, other);
        assert(changed[0] == arguments[0]);
        assert(changed.drop_first() =~= with_argument(arguments.drop_first(), name, value));
    }
}

/// Where an argument of that name stands, every earlier one is passed over.
proof fn lemma_with_argument_at(
    arguments: Seq<(Seq<char>, ArgumentValue)>,
    name: Seq<char>,
    value: ArgumentValue,
    place: nat,
)
    requires
        place <= arguments.len(),
        forall|i: int| 0 <= i < place ==> (#[trigger] arguments[i]).0 != name,
        place < arguments.len() ==> arguments[place as int].0 == name,
    ensures
        with_argument(arguments, name, value) == (if place < arguments.len() {
            arguments.update(place as int, (name, value))
        } else {
            arguments.push((name, value))
        }),
    decreases place,
{
    if place == 0 {
        if arguments.len() == 0 {
            assert(with_argument(arguments, name, value) =~= arguments.push((name, value)));
        } else {
            assert(with_argument(arguments, name, value) =~= arguments.update(0, (name, value)));
        }
    } else {
        let rest = arguments.drop_first();
        assert forall|i: int| 0 <= i < place - 1 implies (#[trigger] rest[i]).0 != name by {
            assert(rest[i] == arguments[i + 1]);
        }
        lemma_with_argument_at(rest, name, value, (place - 1) as nat);
        assert(arguments[0].0 != name);
        if place < arguments.len() {
            assert(with_argument(arguments, name, value) =~= arguments.update(
                place as int,
                (name, value),
            ));
        } else {
            assert(with_argument(arguments, name, value) =~= arguments.push((name, value)));
        }
    }
}

/// Sets an argument.
pub fn set_argument(arguments: &mut Vec<Argument>, name: &str, value: ArgumentValue)
    ensures
        argument_views(final(arguments)@) == with_argument(
            argument_views(old(arguments)@),
            name@,
            value,
        ),
{
    let ghost before = argument_views(arguments@);
    let mut place: usize = 0;
    while place < arguments.len() && !same_text(arguments[place].name.as_str(), name)
        invariant
            place <= arguments.len(),
            before == argument_views(arguments@),
            forall|i: int| 0 <= i < place ==> (#[trigger] before[i]).0 != name@,
        decreases arguments.len() - place,
    {
        assert(before[place as int].0 == arguments@[place as int].name@);
        place = place + 1;
    }
    proof {
        if place < arguments@.len() {
            assert(before[place as int].0 == arguments@[place as int].name@);
        }
        lemma_with_argument_at(before, name@, value, place as nat);
    }
    let argument = Argument { name: String::from_str(name), value };
    if place < arguments.len() {
        arguments.set(place, argument);
        assert(argument_views(arguments@) =~= before.update(place as int, (name@, value)));
    } else {
        arguments.push(argument);
        assert(argument_views(arguments@) =~= before.push((name@, value)));
    }
}

/// The value of an argument.
pub fn argument_value(arguments: &Vec<Argument>, name: &str) -> (value: Option<ArgumentValue>)
    ensures
        value == argument_of(argument_views(arguments@), name@),
{
    let ghost views = argument_views(arguments@);
    let mut index: usize = 0;
    assert(views.skip(0) =~= views);
    while index < arguments.len()
        invariant
            index <= arguments.len(),
            views == argument_views(arguments@),
            argument_of(views, name@) == argument_of(views.skip(index as int), name@),
        decreases arguments.len() - index,
    {
        assert(views.skip(index as int).drop_first() =~= views.skip(index + 1));
        assert(views.skip(index as int)[0] == views[index as int]);
        if same_text(arguments[index].name.as_str(), name) {
            return Some(arguments[index].value);
        }
        index = index + 1;
    }
    None
}

/// The arguments of a cookie before anything is asked for.
pub open spec fn default_arguments(name: usize, value: usize) -> Seq<(Seq<char>, ArgumentValue)> {
    seq![
        ("version"@, ArgumentValue::Number(0)),
        ("name"@, ArgumentValue::Object(name)),
        ("value"@, ArgumentValue::Object(value)),
        ("port"@, ArgumentValue::Nothing),
        ("domain"@, ArgumentValue::EmptyText),
        ("path"@, ArgumentValue::RootPath),
        ("secure"@, ArgumentValue::Flag(false)),
        ("expires"@, ArgumentValue::Nothing),
        ("discard"@, ArgumentValue::Flag(true)),
        ("comment"@, ArgumentValue::Nothing),
        ("comment_url"@, ArgumentValue::Nothing),
        ("rest"@, ArgumentValue::HttpOnly(None)),
        ("rfc2109"@, ArgumentValue::Flag(false)),
    ]
}

/// An argument of a name.
fn argument(name: &str, value: ArgumentValue) -> (argument: Argument)
    ensures
        argument.name@ == name@,
        argument.value == value,
{
    Argument { name: String::from_str(name), value }
}

/// The arguments of a cookie before anything is asked for.
fn defaults(name: usize, value: usize) -> (arguments: Vec<Argument>)
    ensures
        argument_views(arguments@) == default_arguments(name, value),
{
    let arguments: Vec<Argument> = vec![
        argument("version", ArgumentValue::Number(0)),
        argument("name", ArgumentValue::Object(name)),
        argument("value", ArgumentValue::Object(value)),
        argument("port", ArgumentValue::Nothing),
        argument("domain", ArgumentValue::EmptyText),
        argument("path", ArgumentValue::RootPath),
        argument("secure", ArgumentValue::Flag(false)),
        argument("expires", ArgumentValue::Nothing),
        argument("discard", ArgumentValue::Flag(true)),
        argument("comment", ArgumentValue::Nothing),
        argument("comment_url", ArgumentValue::Nothing),
        argument("rest", ArgumentValue::HttpOnly(None)),
        argument("rfc2109", ArgumentValue::Flag(false)),
    ];
    assert(argument_views(arguments@) =~= default_arguments(name, value));
    arguments
}

/// The arguments with every one of a list set in turn.
pub open spec fn with_arguments(
    arguments: Seq<(Seq<char>, ArgumentValue)>,
    set: Seq<(Seq<char>, ArgumentValue)>,
) -> Seq<(Seq<char>, ArgumentValue)>
    decreases set.len(),
{
    if set.len() == 0 {
        arguments
    } else {
        with_argument(with_arguments(arguments, set.drop_last()), set.last().0, set.last().1)
    }
}

/// The arguments of a cookie: the defaults, with what is asked for in their
/// place.
pub fn cookie_arguments(name: usize, value: usize, overrides: &Vec<Argument>) -> (arguments: Vec<
    Argument,
>)
    ensures
        argument_views(arguments@) == with_arguments(
            default_arguments(name, value),
            argument_views(overrides@),
        ),
{
    let ghost asked = argument_views(overrides@);
    let mut arguments = defaults(name, value);
    let mut index: usize = 0;
    assert(asked.take(0) =~= Seq::<(Seq<char>, ArgumentValue)>::empty());
    while index < overrides.len()
        invariant
            index <= overrides.len(),
            asked == argument_views(overrides@),
            argument_views(arguments@) == with_arguments(
                default_arguments(name, value),
                asked.take(index as int),
            ),
        decreases overrides.len() - index,
    {
        assert(asked.take(index + 1).drop_last() =~= asked.take(index as int));
        assert(asked.take(index + 1).last() == asked[index as int]);
        set_argument(&mut arguments, overrides[index].name.as_str(), overrides[index].value);
        index = index + 1;
    }
    assert(asked.take(index as int) =~= asked);
    arguments
}

/// What Python says of the values that a cookie was given.
#[derive(Clone, Copy, Debug, PartialEq, Eq, Structural)]
pub struct SpecifiedFacts {
    pub port: bool,
    pub domain: bool,
    pub domain_initial_dot: bool,
    pub path: bool,
}

/// The arguments that say what a cookie was given.
pub open spec fn specified(facts: SpecifiedFacts) -> Seq<(Seq<char>, ArgumentValue)> {
    seq![
        ("port_specified"@, ArgumentValue::Flag(facts.port)),
        ("domain_specified"@, ArgumentValue::Flag(facts.domain)),
        ("domain_initial_dot"@, ArgumentValue::Flag(facts.domain_initial_dot)),
        ("path_specified"@, ArgumentValue::Flag(facts.path)),
    ]
}

/// Adds what a cookie was given to its arguments.
pub fn specify_arguments(arguments: &mut Vec<Argument>, facts: SpecifiedFacts)
    ensures
        argument_views(final(arguments)@) == with_arguments(
            argument_views(old(arguments)@),
            specified(facts),
        ),
{
    let ghost before = argument_views(arguments@);
    set_argument(arguments, "port_specified", ArgumentValue::Flag(facts.port));
    set_argument(arguments, "domain_specified", ArgumentValue::Flag(facts.domain));
    set_argument(
        arguments,
        "domain_initial_dot",
        ArgumentValue::Flag(facts.domain_initial_dot),
    );
    set_argument(arguments, "path_specified", ArgumentValue::Flag(facts.path));
    proof {
        let all = specified(facts);
        let three = all.drop_last();
        let two = three.drop_last();
        let one = two.drop_last();
        assert(one.drop_last() =~= Seq::<(Seq<char>, ArgumentValue)>::empty());
        reveal_with_fuel(with_arguments, 5);
        assert(with_arguments(before, one) == with_argument(
            before,
            "port_specified"@,
            ArgumentValue::Flag(facts.port),
        ));
    }
}

/// Whether a domain begins with a dot.
pub fn has_initial_dot(domain: &str) -> (yes: bool)
    ensures
        yes == (domain@.len() > 0 && domain@[0] == '.'),
{
    let chars = crate::text::chars_of(domain);
    chars.len() > 0 && chars[0] == '.'
}

/// The value that a list of arguments sets last for a name.
pub open spec fn last_set(set: Seq<(Seq<char>, ArgumentValue)>, name: Seq<char>) -> Option<
    ArgumentValue,
>
    decreases set.len(),
{
    if set.len() == 0 {
        None
    } else if set.last().0 == name {
        Some(set.last().1)
    } else {
        last_set(set.drop_last(), name)
    }
}

/// Whatever is asked for a cookie stands over the default, and what is not
/// asked for keeps it.
pub proof fn law_what_is_asked_for_wins(
    arguments: Seq<(Seq<char>, ArgumentValue)>,
    set: Seq<(Seq<char>, ArgumentValue)>,
    name: Seq<char>,
)
    ensures
        argument_of(with_arguments(arguments, set), name) == (match last_set(set, name) {
            Some(value) => Some(value),
            None => argument_of(arguments, name),
        }),
    decreases set.len(),
{
    if set.len() > 0 {
        law_what_is_asked_for_wins(arguments, set.drop_last(), name);
        lemma_with_argument(
            with_arguments(arguments, set.drop_last()),
            set.last().0,
            set.last().1,
            name,
        );
    }
}

/// A cookie has a port, a domain and a path, whatever is asked for.
pub proof fn law_cookies_have_a_place(
    name: usize,
    value: usize,
    set: Seq<(Seq<char>, ArgumentValue)>,
)
    ensures
        argument_of(with_arguments(default_arguments(name, value), set), "port"@) is Some,
        argument_of(with_arguments(default_arguments(name, value), set), "domain"@) is Some,
        argument_of(with_arguments(default_arguments(name, value), set), "path"@) is Some,
{
    let arguments = default_arguments(name, value);
    law_what_is_asked_for_wins(arguments, set, "port"@);
    law_what_is_asked_for_wins(arguments, set, "domain"@);
    law_what_is_asked_for_wins(arguments, set, "path"@);
    lemma_present(arguments, "port"@, 3);
    lemma_present(arguments, "domain"@, 4);
    lemma_present(arguments, "path"@, 5);
}

/// An argument that stands in the list has a value.
proof fn lemma_present(arguments: Seq<(Seq<char>, ArgumentValue)>, name: Seq<char>, place: int)
    requires
        0 <= place < arguments.len(),
        arguments[place].0 == name,
    ensures
        argument_of(arguments, name) is Some,
    decreases arguments.len(),
{
    if arguments[0].0 != name {
        assert(arguments.drop_first()[place - 1] == arguments[place]);
        lemma_present(arguments.drop_first(), name, place - 1);
    }
}

/// Whether a keyword argument may be given to the cookie constructor.
pub open spec fn is_allowed(key: Seq<char>) -> bool {
    ||| key == "version"@
    ||| key == "port"@
    ||| key == "domain"@
    ||| key == "path"@
    ||| key == "secure"@
    ||| key == "expires"@
    ||| key == "discard"@
    ||| key == "comment"@
    ||| key == "comment_url"@
    ||| key == "rest"@
    ||| key == "rfc2109"@
    ||| key == "value"@
}

/// Whether a keyword argument may be given to the cookie constructor.
pub fn allowed_create_key(key: &str) -> (yes: bool)
    ensures
        yes == is_allowed(key@),
{
    same_text(key, "version") || same_text(key, "port") || same_text(key, "domain") || same_text(
        key,
        "path",
    ) || same_text(key, "secure") || same_text(key, "expires") || same_text(key, "discard")
        || same_text(key, "comment") || same_text(key, "comment_url") || same_text(key, "rest")
        || same_text(key, "rfc2109") || same_text(key, "value")
}

/// The names of keyword arguments that may not be given, in order.
pub open spec fn unexpected(heap: Heap, pairs: Seq<Pair>) -> Seq<usize>
    decreases pairs.len(),
{
    if pairs.len() == 0 {
        Seq::empty()
    } else {
        let before = unexpected(heap, pairs.drop_last());
        match heap.text_of(pairs.last().key) {
            Some(key) => if is_allowed(key) {
                before
            } else {
                before.push(pairs.last().key)
            },
            None => before.push(pairs.last().key),
        }
    }
}

/// The names of keyword arguments that may not be given: the call is refused
/// unless there is none.
pub fn validate_create_kwargs(heap: &Heap, pairs: &Vec<Pair>) -> (keys: Vec<usize>)
    ensures
        keys@ == unexpected(*heap, pairs@),
{
    let mut keys: Vec<usize> = Vec::new();
    let mut index: usize = 0;
    assert(pairs@.take(0) =~= Seq::<Pair>::empty());
    while index < pairs.len()
        invariant
            index <= pairs.len(),
            keys@ == unexpected(*heap, pairs@.take(index as int)),
        decreases pairs.len() - index,
    {
        assert(pairs@.take(index + 1).drop_last() =~= pairs@.take(index as int));
        assert(pairs@.take(index + 1).last() == pairs@[index as int]);
        let key = pairs[index].key;
        let allowed = match heap.text(key) {
            Some(text) => allowed_create_key(text.as_str()),
            None => false,
        };
        if !allowed {
            keys.push(key);
        }
        index = index + 1;
    }
    assert(pairs@.take(index as int) =~= pairs@);
    keys
}

/// The message about keyword arguments that may not be given, which are shown
/// as Python shows a list.
pub fn unexpected_message(shown: &str) -> (text: String)
    ensures
        text@ == "create_cookie() got unexpected keyword arguments: "@ + shown@,
{
    let mut text = String::from_str("create_cookie() got unexpected keyword arguments: ");
    text.append(shown);
    text
}

/// The keyword arguments as they are handed on, in order; a name that is no
/// readable text has none.
pub fn keyword_arguments(heap: &Heap, pairs: &Vec<Pair>) -> (arguments: Option<Vec<Argument>>)
    ensures
        match arguments {
            Some(arguments) => keywords_of(*heap, pairs@) == Some(argument_views(arguments@)),
            None => keywords_of(*heap, pairs@) is None,
        },
{
    let mut arguments: Vec<Argument> = Vec::new();
    let mut index: usize = 0;
    assert(pairs@.take(0) =~= Seq::<Pair>::empty());
    assert(argument_views(arguments@) =~= Seq::<(Seq<char>, ArgumentValue)>::empty());
    while index < pairs.len()
        invariant
            index <= pairs.len(),
            keywords_of(*heap, pairs@.take(index as int)) == Some(argument_views(arguments@)),
        decreases pairs.len() - index,
    {
        assert(pairs@.take(index + 1).drop_last() =~= pairs@.take(index as int));
        assert(pairs@.take(index + 1).last() == pairs@[index as int]);
        let ghost before = argument_views(arguments@);
        match heap.text(pairs[index].key) {
            Some(text) => {
                let value = ArgumentValue::Object(pairs[index].value);
                arguments.push(argument(text.as_str(), value));
                assert(argument_views(arguments@) =~= before.push((text@, value)));
            },
            None => {
                proof {
                    lemma_keywords_stop(*heap, pairs@, (index + 1) as nat);
                }
                return None;
            },
        }
        index = index + 1;
    }
    assert(pairs@.take(index as int) =~= pairs@);
    Some(arguments)
}

/// The keyword arguments as they are handed on.
pub open spec fn keywords_of(heap: Heap, pairs: Seq<Pair>) -> Option<Seq<(Seq<char>, ArgumentValue)>>
    decreases pairs.len(),
{
    if pairs.len() == 0 {
        Some(Seq::empty())
    } else {
        match (keywords_of(heap, pairs.drop_last()), heap.text_of(pairs.last().key)) {
            (Some(arguments), Some(name)) => Some(
                arguments.push((name, ArgumentValue::Object(pairs.last().value))),
            ),
            _ => None,
        }
    }
}

/// One unreadable name leaves no arguments.
proof fn lemma_keywords_stop(heap: Heap, pairs: Seq<Pair>, count: nat)
    requires
        count <= pairs.len(),
        keywords_of(heap, pairs.take(count as int)) is None,
    ensures
        keywords_of(heap, pairs) is None,
    decreases pairs.len() - count,
{
    if count == pairs.len() {
        assert(pairs.take(count as int) =~= pairs);
    } else {
        assert(pairs.take((count + 1) as int).drop_last() =~= pairs.take(count as int));
        lemma_keywords_stop(heap, pairs, count + 1);
    }
}

/// When a cookie that comes from a morsel expires.
#[derive(Clone, Copy, Debug, PartialEq, Eq, Structural)]
pub enum MorselExpiry {
    /// So many seconds from now.
    MaxAge(i64),
    /// The number of seconds is none.
    BadMaxAge,
    /// At the time that the morsel gives.
    Date,
    Never,
}

/// When a cookie that comes from a morsel expires: a maximum age stands over a
/// date.
pub open spec fn morsel_expires(max_age: Seq<char>, expires: Seq<char>) -> MorselExpiry {
    if max_age.len() > 0 {
        match signed_value(max_age) {
            Some(seconds) => MorselExpiry::MaxAge(seconds as i64),
            None => MorselExpiry::BadMaxAge,
        }
    } else if expires.len() > 0 {
        MorselExpiry::Date
    } else {
        MorselExpiry::Never
    }
}

/// When a cookie that comes from a morsel expires.
pub fn morsel_expiry(max_age: &str, expires: &str) -> (expiry: MorselExpiry)
    ensures
        expiry == morsel_expires(max_age@, expires@),
{
    if crate::text::chars_of(max_age).len() > 0 {
        match parse_signed(max_age) {
            Some(seconds) => MorselExpiry::MaxAge(seconds),
            None => MorselExpiry::BadMaxAge,
        }
    } else if crate::text::chars_of(expires).len() > 0 {
        MorselExpiry::Date
    } else {
        MorselExpiry::Never
    }
}

/// The message about a maximum age that is no number.
pub fn bad_max_age_message(max_age: &str) -> (text: String)
    ensures
        text@ == "max-age: "@ + max_age@ + " must be integer"@,
{
    let mut text = String::from_str("max-age: ");
    text.append(max_age);
    text.append(" must be integer");
    text
}

/// The layout in which a morsel writes a date.
pub fn morsel_date_format() -> (text: &'static str)
    ensures
        text@ == "%a, %d-%b-%Y %H:%M:%S GMT"@,
{
    "%a, %d-%b-%Y %H:%M:%S GMT"
}

/// What a morsel gives to its cookie.
#[derive(Clone, Copy, Debug, PartialEq, Eq, Structural)]
pub struct MorselFacts {
    pub version: usize,
    /// Python takes the version for true.
    pub has_version: bool,
    pub domain: usize,
    pub path: usize,
    /// Python takes the flag for true.
    pub secure: bool,
    pub expires: ArgumentValue,
    pub comment: usize,
    /// Python takes the comment for true.
    pub has_comment: bool,
    pub http_only: usize,
}

/// What is asked for a cookie that comes from a morsel.
pub open spec fn morsel_arguments(facts: MorselFacts) -> Seq<(Seq<char>, ArgumentValue)> {
    seq![
        (
            "version"@,
            if facts.has_version {
                ArgumentValue::Object(facts.version)
            } else {
                ArgumentValue::Number(0)
            },
        ),
        ("port"@, ArgumentValue::Nothing),
        ("domain"@, ArgumentValue::Object(facts.domain)),
        ("path"@, ArgumentValue::Object(facts.path)),
        ("secure"@, ArgumentValue::Flag(facts.secure)),
        ("expires"@, facts.expires),
        ("discard"@, ArgumentValue::Flag(false)),
        ("comment"@, ArgumentValue::Object(facts.comment)),
        ("comment_url"@, ArgumentValue::Flag(facts.has_comment)),
        ("rest"@, ArgumentValue::HttpOnly(Some(facts.http_only))),
        ("rfc2109"@, ArgumentValue::Flag(false)),
    ]
}

/// What is asked for a cookie that comes from a morsel.
pub fn morsel_cookie(facts: &MorselFacts) -> (arguments: Vec<Argument>)
    ensures
        argument_views(arguments@) == morsel_arguments(*facts),
{
    let version = if facts.has_version {
        ArgumentValue::Object(facts.version)
    } else {
        ArgumentValue::Number(0)
    };
    let arguments: Vec<Argument> = vec![
        argument("version", version),
        argument("port", ArgumentValue::Nothing),
        argument("domain", ArgumentValue::Object(facts.domain)),
        argument("path", ArgumentValue::Object(facts.path)),
        argument("secure", ArgumentValue::Flag(facts.secure)),
        argument("expires", facts.expires),
        argument("discard", ArgumentValue::Flag(false)),
        argument("comment", ArgumentValue::Object(facts.comment)),
        argument("comment_url", ArgumentValue::Flag(facts.has_comment)),
        argument("rest", ArgumentValue::HttpOnly(Some(facts.http_only))),
        argument("rfc2109", ArgumentValue::Flag(false)),
    ];
    assert(argument_views(arguments@) =~= morsel_arguments(*facts));
    arguments
}

/// The name, value, domain and path of a cookie.
#[derive(Clone, Copy, Debug, PartialEq, Eq, Structural)]
pub struct SimpleRow {
    pub name: usize,
    pub value: usize,
    pub domain: usize,
    pub path: usize,
}

/// All that a cookie shows.
#[derive(Clone, Copy, Debug, PartialEq, Eq, Structural)]
pub struct DetailedRow {
    pub simple: SimpleRow,
    pub secure: usize,
    pub expires: usize,
    pub discard: usize,
    pub rest: usize,
}

/// The name, value, domain and path of a cookie, where it has all of them.
pub open spec fn simple_row_of(heap: Heap, cookie: usize) -> Option<SimpleRow> {
    match (
        heap.attribute_of(cookie, "name"@),
        heap.attribute_of(cookie, "value"@),
        heap.attribute_of(cookie, "domain"@),
        heap.attribute_of(cookie, "path"@),
    ) {
        (Some(name), Some(value), Some(domain), Some(path)) => Some(
            SimpleRow { name, value, domain, path },
        ),
        _ => None,
    }
}

/// The name, value, domain and path of a cookie.
fn simple_row(heap: &Heap, cookie: usize) -> (row: Option<SimpleRow>)
    ensures
        row == simple_row_of(*heap, cookie),
{
    match (
        heap.attribute(cookie, "name"),
        heap.attribute(cookie, "value"),
        heap.attribute(cookie, "domain"),
        heap.attribute(cookie, "path"),
    ) {
        (Some(name), Some(value), Some(domain), Some(path)) => Some(
            SimpleRow { name, value, domain, path },
        ),
        _ => None,
    }
}

/// All that a cookie shows, where it has all of it.
pub open spec fn detailed_row_of(heap: Heap, cookie: usize) -> Option<DetailedRow> {
    match (
        simple_row_of(heap, cookie),
        heap.attribute_of(cookie, "secure"@),
        heap.attribute_of(cookie, "expires"@),
        heap.attribute_of(cookie, "discard"@),
        heap.attribute_of(cookie, "_rest"@),
    ) {
        (Some(simple), Some(secure), Some(expires), Some(discard), Some(rest)) => Some(
            DetailedRow { simple, secure, expires, discard, rest },
        ),
        _ => None,
    }
}

/// All that a cookie shows.
fn detailed_row(heap: &Heap, cookie: usize) -> (row: Option<DetailedRow>)
    ensures
        row == detailed_row_of(*heap, cookie),
{
    match (
        simple_row(heap, cookie),
        heap.attribute(cookie, "secure"),
        heap.attribute(cookie, "expires"),
        heap.attribute(cookie, "discard"),
        heap.attribute(cookie, "_rest"),
    ) {
        (Some(simple), Some(secure), Some(expires), Some(discard), Some(rest)) => Some(
            DetailedRow { simple, secure, expires, discard, rest },
        ),
        _ => None,
    }
}

/// Reads the rows of cookies, in order; a cookie that lacks a field is an
/// error.
pub fn live_simple_cookie_rows(heap: &Heap, cookies: &Vec<usize>) -> (rows: Result<
    Vec<SimpleRow>,
    Failure,
>)
    ensures
        match rows {
            Ok(rows) => {
                &&& rows@.len() == cookies@.len()
                &&& forall|i: int|
                    0 <= i < cookies@.len() ==> simple_row_of(*heap, cookies@[i]) == Some(
                        #[trigger] rows@[i],
                    )
            },
            Err(failure) => failure == Failure::Attribute && exists|i: int|
                0 <= i < cookies@.len() && simple_row_of(*heap, #[trigger] cookies@[i]) is None,
        },
{
    let mut rows: Vec<SimpleRow> = Vec::new();
    let mut index: usize = 0;
    while index < cookies.len()
        invariant
            index <= cookies.len(),
            rows@.len() == index,
            forall|i: int|
                0 <= i < index ==> simple_row_of(*heap, cookies@[i]) == Some(#[trigger] rows@[i]),
        decreases cookies.len() - index,
    {
        match simple_row(heap, cookies[index]) {
            Some(row) => {
                rows.push(row);
            },
            None => {
                assert(simple_row_of(*heap, cookies@[index as int]) is None);
                return Err(Failure::Attribute);
            },
        }
        index = index + 1;
    }
    Ok(rows)
}

/// Reads all that cookies show, in order; a cookie that lacks a field is an
/// error.
pub fn detailed_cookie_rows(heap: &Heap, cookies: &Vec<usize>) -> (rows: Result<
    Vec<DetailedRow>,
    Failure,
>)
    ensures
        match rows {
            Ok(rows) => {
                &&& rows@.len() == cookies@.len()
                &&& forall|i: int|
                    0 <= i < cookies@.len() ==> detailed_row_of(*heap, cookies@[i]) == Some(
                        #[trigger] rows@[i],
                    )
            },
            Err(failure) => failure == Failure::Attribute && exists|i: int|
                0 <= i < cookies@.len() && detailed_row_of(*heap, #[trigger] cookies@[i]) is None,
        },
{
    let mut rows: Vec<DetailedRow> = Vec::new();
    let mut index: usize = 0;
    while index < cookies.len()
        invariant
            index <= cookies.len(),
            rows@.len() == index,
            forall|i: int|
                0 <= i < index ==> detailed_row_of(*heap, cookies@[i]) == Some(
                    #[trigger] rows@[i],
                ),
        decreases cookies.len() - index,
    {
        match detailed_row(heap, cookies[index]) {
            Some(row) => {
                rows.push(row);
            },
            None => {
                assert(detailed_row_of(*heap, cookies@[index as int]) is None);
                return Err(Failure::Attribute);
            },
        }
        index = index + 1;
    }
    Ok(rows)
}

/// What a lookup leaves in the record.
#[derive(Clone, Copy, Debug, PartialEq, Eq, Structural)]
pub enum LookupRecord {
    /// The value, or the name of an error's class with its arguments.
    Entry(usize),
    /// An error ends the inspection; it may carry another as its context.
    Raise { error: usize, context: Option<usize> },
}

/// What a lookup leaves in the record. An error is recorded if it is one that
/// the recording catches; an error that the recording meets itself carries the
/// first as its context.
pub fn value_or_error_tuple(
    result: Result<usize, usize>,
    recorded: Result<Option<usize>, usize>,
) -> (record: LookupRecord)
    ensures
        record == (match result {
            Ok(value) => LookupRecord::Entry(value),
            Err(original) => match recorded {
                Ok(Some(entry)) => LookupRecord::Entry(entry),
                Ok(None) => LookupRecord::Raise { error: original, context: None },
                Err(error) => LookupRecord::Raise { error, context: Some(original) },
            },
        }),
{
    match result {
        Ok(value) => LookupRecord::Entry(value),
        Err(original) => match recorded {
            Ok(Some(entry)) => LookupRecord::Entry(entry),
            Ok(None) => LookupRecord::Raise { error: original, context: None },
            Err(error) => LookupRecord::Raise { error, context: Some(original) },
        },
    }
}

/// An entry of the record of an inspection.
#[derive(Clone, Copy, Debug, PartialEq, Eq, Structural)]
pub enum InspectEntry {
    Cookies,
    Keys,
    Values,
    Items,
    Lookups,
    Dictionary,
    /// The cookies of the domain `a.test` at the path `/`.
    RootOfA,
    Domains,
    Paths,
    Multiple,
}

impl InspectEntry {
    /// What the entry is called.
    pub open spec fn key(self) -> Seq<char> {
        match self {
            InspectEntry::Cookies => "cookies"@,
            InspectEntry::Keys => "keys"@,
            InspectEntry::Values => "values"@,
            InspectEntry::Items => "items"@,
            InspectEntry::Lookups => "lookups"@,
            InspectEntry::Dictionary => "dict"@,
            InspectEntry::RootOfA => "a-root"@,
            InspectEntry::Domains => "domains"@,
            InspectEntry::Paths => "paths"@,
            InspectEntry::Multiple => "multiple"@,
        }
    }

    /// What the entry is called.
    pub fn label(&self) -> (label: &'static str)
        ensures
            label@ == self.key(),
    {
        match self {
            InspectEntry::Cookies => "cookies",
            InspectEntry::Keys => "keys",
            InspectEntry::Values => "values",
            InspectEntry::Items => "items",
            InspectEntry::Lookups => "lookups",
            InspectEntry::Dictionary => "dict",
            InspectEntry::RootOfA => "a-root",
            InspectEntry::Domains => "domains",
            InspectEntry::Paths => "paths",
            InspectEntry::Multiple => "multiple",
        }
    }

    /// The method of the jar that gives the entry, where one does.
    pub open spec fn gives(self) -> Option<Seq<char>> {
        match self {
            InspectEntry::Cookies => None,
            InspectEntry::Keys => Some("keys"@),
            InspectEntry::Values => Some("values"@),
            InspectEntry::Items => Some("items"@),
            InspectEntry::Lookups => None,
            InspectEntry::Dictionary => Some("get_dict"@),
            InspectEntry::RootOfA => Some("get_dict"@),
            InspectEntry::Domains => Some("list_domains"@),
            InspectEntry::Paths => Some("list_paths"@),
            InspectEntry::Multiple => Some("multiple_domains"@),
        }
    }

    /// The method of the jar that gives the entry, where one does.
    pub fn method(&self) -> (name: Option<&'static str>)
        ensures
            match name {
                Some(name) => self.gives() == Some(name@),
                None => self.gives() is None,
            },
    {
        match self {
            InspectEntry::Cookies => None,
            InspectEntry::Keys => Some("keys"),
            InspectEntry::Values => Some("values"),
            InspectEntry::Items => Some("items"),
            InspectEntry::Lookups => None,
            InspectEntry::Dictionary => Some("get_dict"),
            InspectEntry::RootOfA => Some("get_dict"),
            InspectEntry::Domains => Some("list_domains"),
            InspectEntry::Paths => Some("list_paths"),
            InspectEntry::Multiple => Some("multiple_domains"),
        }
    }
}

/// The record of an inspection, in the order in which it is filled. The lookups
/// were made before.
pub fn inspect_result() -> (entries: Vec<InspectEntry>)
    ensures
        entries@ == seq![
            InspectEntry::Cookies,
            InspectEntry::Keys,
            InspectEntry::Values,
            InspectEntry::Items,
            InspectEntry::Lookups,
            InspectEntry::Dictionary,
            InspectEntry::RootOfA,
            InspectEntry::Domains,
            InspectEntry::Paths,
            InspectEntry::Multiple,
        ],
{
    let entries: Vec<InspectEntry> = vec![
        InspectEntry::Cookies,
        InspectEntry::Keys,
        InspectEntry::Values,
        InspectEntry::Items,
        InspectEntry::Lookups,
        InspectEntry::Dictionary,
        InspectEntry::RootOfA,
        InspectEntry::Domains,
        InspectEntry::Paths,
        InspectEntry::Multiple,
    ];
    assert(entries@ =~= seq![
        InspectEntry::Cookies,
        InspectEntry::Keys,
        InspectEntry::Values,
        InspectEntry::Items,
        InspectEntry::Lookups,
        InspectEntry::Dictionary,
        InspectEntry::RootOfA,
        InspectEntry::Domains,
        InspectEntry::Paths,
        InspectEntry::Multiple,
    ]);
    entries
}

/// A step of the mutation of a jar.
#[derive(Clone, Copy, Debug, PartialEq, Eq, Structural)]
pub enum MutateStep {
    /// The cookie of the morsel is put in.
    SetMorsel,
    /// The given cookie is put in.
    SetCookie,
    /// `replace` is set to `old`.
    SetOld,
    /// `replace` is set to the given value.
    SetReplacement,
    /// `remove` is set to `gone`.
    SetGone,
    /// `remove` is set to `None`, which takes it out.
    Unset,
}

/// The steps of the mutation of a jar, in order. All that is set by name is set
/// for the domain `a.test` and the path `/`.
pub fn mutate_jar() -> (steps: Vec<MutateStep>)
    ensures
        steps@ == seq![
            MutateStep::SetMorsel,
            MutateStep::SetCookie,
            MutateStep::SetOld,
            MutateStep::SetReplacement,
            MutateStep::SetGone,
            MutateStep::Unset,
        ],
{
    let steps: Vec<MutateStep> = vec![
        MutateStep::SetMorsel,
        MutateStep::SetCookie,
        MutateStep::SetOld,
        MutateStep::SetReplacement,
        MutateStep::SetGone,
        MutateStep::Unset,
    ];
    assert(steps@ =~= seq![
        MutateStep::SetMorsel,
        MutateStep::SetCookie,
        MutateStep::SetOld,
        MutateStep::SetReplacement,
        MutateStep::SetGone,
        MutateStep::Unset,
    ]);
    steps
}

impl MutateStep {
    /// The name that a step sets, where it sets one.
    pub open spec fn sets(self) -> Option<Seq<char>> {
        match self {
            MutateStep::SetMorsel => None,
            MutateStep::SetCookie => None,
            MutateStep::SetOld => Some("replace"@),
            MutateStep::SetReplacement => Some("replace"@),
            MutateStep::SetGone => Some("remove"@),
            MutateStep::Unset => Some("remove"@),
        }
    }

    /// The name that a step sets, where it sets one.
    pub fn name(&self) -> (name: Option<&'static str>)
        ensures
            match name {
                Some(name) => self.sets() == Some(name@),
                None => self.sets() is None,
            },
    {
        match self {
            MutateStep::SetMorsel => None,
            MutateStep::SetCookie => None,
            MutateStep::SetOld => Some("replace"),
            MutateStep::SetReplacement => Some("replace"),
            MutateStep::SetGone => Some("remove"),
            MutateStep::Unset => Some("remove"),
        }
    }

    /// The text that a step sets, where it is a fixed one.
    pub open spec fn sets_to(self) -> Option<Seq<char>> {
        match self {
            MutateStep::SetOld => Some("old"@),
            MutateStep::SetGone => Some("gone"@),
            _ => None,
        }
    }

    /// The text that a step sets, where it is a fixed one.
    pub fn value(&self) -> (text: Option<&'static str>)
        ensures
            match text {
                Some(text) => self.sets_to() == Some(text@),
                None => self.sets_to() is None,
            },
    {
        match self {
            MutateStep::SetOld => Some("old"),
            MutateStep::SetGone => Some("gone"),
            _ => None,
        }
    }
}

/// What is seen of a jar, its copy and its pickled self.
#[derive(Clone, Copy, Debug, PartialEq, Eq, Structural)]
pub struct CopyFacts {
    pub copied_policy: usize,
    pub original_policy: usize,
    pub copied_cookie: usize,
    pub original_cookie: usize,
    /// The jar has the name that was set on the copy only.
    pub original_has_name: bool,
    pub copy_has_name: bool,
    /// The pickled state has the lock.
    pub state_has_lock: bool,
    pub restored_lock: usize,
    pub original_lock: usize,
}

/// The flags of the record of a copy.
#[derive(Clone, Copy, Debug, PartialEq, Eq, Structural)]
pub struct CopyRecord {
    pub copy_policy: bool,
    pub copy_cookie_object: bool,
    pub copy_isolation: bool,
    pub lock_omitted: bool,
    pub restored_lock_new: bool,
}

/// The flags of the record of a copy.
pub fn copy_pickle_result(facts: &CopyFacts) -> (record: CopyRecord)
    ensures
        record.copy_policy == (facts.copied_policy == facts.original_policy),
        record.copy_cookie_object == (facts.copied_cookie == facts.original_cookie),
        record.copy_isolation == (!facts.original_has_name && facts.copy_has_name),
        record.lock_omitted == !facts.state_has_lock,
        record.restored_lock_new == (facts.restored_lock != facts.original_lock),
{
    CopyRecord {
        copy_policy: facts.copied_policy == facts.original_policy,
        copy_cookie_object: facts.copied_cookie == facts.original_cookie,
        copy_isolation: !facts.original_has_name && facts.copy_has_name,
        lock_omitted: !facts.state_has_lock,
        restored_lock_new: facts.restored_lock != facts.original_lock,
    }
}

/// A cookie that nothing else is asked of has its name and its value and belongs
/// to the whole site of no domain. It is of version zero, and ends with the
/// session.
pub proof fn law_defaults_of_cookies(name: usize, value: usize)
    ensures
        ({
            let defaults = default_arguments(name, value);
            &&& defaults.len() == 13
            &&& defaults.contains(("version"@, ArgumentValue::Number(0)))
            &&& defaults.contains(("name"@, ArgumentValue::Object(name)))
            &&& defaults.contains(("value"@, ArgumentValue::Object(value)))
            &&& defaults.contains(("port"@, ArgumentValue::Nothing))
            &&& defaults.contains(("domain"@, ArgumentValue::EmptyText))
            &&& defaults.contains(("path"@, ArgumentValue::RootPath))
            &&& defaults.contains(("secure"@, ArgumentValue::Flag(false)))
            &&& defaults.contains(("expires"@, ArgumentValue::Nothing))
            &&& defaults.contains(("discard"@, ArgumentValue::Flag(true)))
            &&& defaults.contains(("comment"@, ArgumentValue::Nothing))
            &&& defaults.contains(("comment_url"@, ArgumentValue::Nothing))
            &&& defaults.contains(("rest"@, ArgumentValue::HttpOnly(None)))
            &&& defaults.contains(("rfc2109"@, ArgumentValue::Flag(false)))
        }),
{
    let defaults = default_arguments(name, value);
    assert(defaults[0].0 == "version"@ && defaults[1].0 == "name"@ && defaults[2].0 == "value"@
        && defaults[3].0 == "port"@ && defaults[4].0 == "domain"@ && defaults[5].0 == "path"@
        && defaults[6].0 == "secure"@ && defaults[7].0 == "expires"@ && defaults[8].0 == "discard"@
        && defaults[9].0 == "comment"@ && defaults[10].0 == "comment_url"@ && defaults[11].0
        == "rest"@ && defaults[12].0 == "rfc2109"@);
}

/// A keyword is allowed exactly where a cookie has a default for it, its name
/// apart.
pub proof fn law_allowed_keywords_have_defaults(key: Seq<char>, name: usize, value: usize)
    ensures
        is_allowed(key) ==> exists|index: int|
            0 <= index < default_arguments(name, value).len() && (#[trigger] default_arguments(
                name,
                value,
            )[index]).0 == key,
        !is_allowed(key) && key != "name"@ ==> forall|index: int|
            0 <= index < default_arguments(name, value).len() ==> (#[trigger] default_arguments(
                name,
                value,
            )[index]).0 != key,
{
    let defaults = default_arguments(name, value);
    assert(defaults[0].0 == "version"@ && defaults[1].0 == "name"@ && defaults[2].0 == "value"@
        && defaults[3].0 == "port"@ && defaults[4].0 == "domain"@ && defaults[5].0 == "path"@
        && defaults[6].0 == "secure"@ && defaults[7].0 == "expires"@ && defaults[8].0 == "discard"@
        && defaults[9].0 == "comment"@ && defaults[10].0 == "comment_url"@ && defaults[11].0
        == "rest"@ && defaults[12].0 == "rfc2109"@);
}

/// Whether a key is one of a call's keywords, and not allowed.
pub open spec fn is_refused_key(heap: Heap, pairs: Seq<Pair>, key: usize) -> bool {
    exists|index: int|
        0 <= index < pairs.len() && (#[trigger] pairs[index]).key == key && !(heap.text_of(
            pairs[index].key,
        ) matches Some(text) && is_allowed(text))
}

/// The keywords that are not allowed are told, each of them and no other, in
/// their order.
pub proof fn law_unexpected_keywords_are_told(heap: Heap, pairs: Seq<Pair>)
    ensures
        forall|index: int|
            0 <= index < pairs.len() && !(heap.text_of((#[trigger] pairs[index]).key) matches Some(
                key,
            ) && is_allowed(key)) ==> unexpected(heap, pairs).contains(pairs[index].key),
        forall|place: int|
            0 <= place < unexpected(heap, pairs).len() ==> is_refused_key(
                heap,
                pairs,
                #[trigger] unexpected(heap, pairs)[place],
            ),
        unexpected(heap, pairs).len() <= pairs.len(),
    decreases pairs.len(),
{
    if pairs.len() > 0 {
        let fewer = pairs.drop_last();
        law_unexpected_keywords_are_told(heap, fewer);
        let before = unexpected(heap, fewer);
        let told = unexpected(heap, pairs);
        assert forall|index: int|
            0 <= index < pairs.len() && !(heap.text_of((#[trigger] pairs[index]).key) matches Some(
                key,
            ) && is_allowed(key)) implies told.contains(pairs[index].key) by {
            if index < fewer.len() {
                assert(fewer[index] == pairs[index]);
                let place = choose|place: int|
                    0 <= place < before.len() && before[place] == fewer[index].key;
                assert(told[place] == before[place]);
            } else {
                assert(told.last() == pairs[index].key);
                assert(told[told.len() - 1] == pairs[index].key);
            }
        }
        assert forall|place: int| 0 <= place < told.len() implies is_refused_key(
            heap,
            pairs,
            #[trigger] told[place],
        ) by {
            if place < before.len() {
                assert(told[place] == before[place]);
                assert(is_refused_key(heap, fewer, before[place]));
                let index = choose|index: int|
                    0 <= index < fewer.len() && (#[trigger] fewer[index]).key == before[place]
                        && !(heap.text_of(fewer[index].key) matches Some(key) && is_allowed(key));
                assert(pairs[index] == fewer[index]);
            } else {
                assert(pairs[pairs.len() - 1].key == told[place]);
            }
        }
    }
}

/// The keywords of a call are the entries of its dict, in their order, each under
/// its own text.
pub proof fn law_keywords_are_those_of_the_call(
    heap: Heap,
    pairs: Seq<Pair>,
    arguments: Seq<(Seq<char>, ArgumentValue)>,
)
    requires
        keywords_of(heap, pairs) == Some(arguments),
    ensures
        arguments.len() == pairs.len(),
        forall|index: int|
            0 <= index < pairs.len() ==> heap.text_of((#[trigger] pairs[index]).key) == Some(
                arguments[index].0,
            ) && arguments[index].1 == ArgumentValue::Object(pairs[index].value),
    decreases pairs.len(),
{
    if pairs.len() > 0 {
        let fewer = pairs.drop_last();
        let before = keywords_of(heap, fewer)->Some_0;
        law_keywords_are_those_of_the_call(heap, fewer, before);
        assert forall|index: int| 0 <= index < pairs.len() implies heap.text_of(
            (#[trigger] pairs[index]).key,
        ) == Some(arguments[index].0) && arguments[index].1 == ArgumentValue::Object(
            pairs[index].value,
        ) by {
            if index < fewer.len() {
                assert(fewer[index] == pairs[index]);
            }
        }
    }
}

/// Whether port, domain and path were specified is told under their own names.
pub proof fn law_specified_parts(facts: SpecifiedFacts)
    ensures
        specified(facts).len() == 4,
        specified(facts).contains(("port_specified"@, ArgumentValue::Flag(facts.port))),
        specified(facts).contains(("domain_specified"@, ArgumentValue::Flag(facts.domain))),
        specified(facts).contains(
            ("domain_initial_dot"@, ArgumentValue::Flag(facts.domain_initial_dot)),
        ),
        specified(facts).contains(("path_specified"@, ArgumentValue::Flag(facts.path))),
{
    let parts = specified(facts);
    assert(parts[0].0 == "port_specified"@ && parts[1].0 == "domain_specified"@ && parts[2].0
        == "domain_initial_dot"@ && parts[3].0 == "path_specified"@);
}

/// A morsel's age counts before its date: a number of seconds, or an error where
/// it is none. A morsel with neither never expires.
pub proof fn law_expiry_of_morsels(max_age: Seq<char>, expires: Seq<char>)
    ensures
        morsel_expires(max_age, expires) is Never <==> max_age.len() == 0 && expires.len() == 0,
        morsel_expires(max_age, expires) is Date <==> max_age.len() == 0 && expires.len() > 0,
        morsel_expires(max_age, expires) is BadMaxAge <==> max_age.len() > 0 && signed_value(
            max_age,
        ) is None,
        max_age.len() > 0 ==> (signed_value(max_age) matches Some(seconds) ==> morsel_expires(
            max_age,
            expires,
        ) == MorselExpiry::MaxAge(seconds as i64)),
{
}

/// A morsel's cookie has the morsel's own domain, path, comment and flags. It has
/// version zero where the morsel has none, and is kept beyond the session.
pub proof fn law_cookies_of_morsels(facts: MorselFacts)
    ensures
        ({
            let arguments = morsel_arguments(facts);
            &&& arguments.len() == 11
            &&& arguments.contains(
                (
                    "version"@,
                    if facts.has_version {
                        ArgumentValue::Object(facts.version)
                    } else {
                        ArgumentValue::Number(0)
                    },
                ),
            )
            &&& arguments.contains(("port"@, ArgumentValue::Nothing))
            &&& arguments.contains(("domain"@, ArgumentValue::Object(facts.domain)))
            &&& arguments.contains(("path"@, ArgumentValue::Object(facts.path)))
            &&& arguments.contains(("secure"@, ArgumentValue::Flag(facts.secure)))
            &&& arguments.contains(("expires"@, facts.expires))
            &&& arguments.contains(("discard"@, ArgumentValue::Flag(false)))
            &&& arguments.contains(("comment"@, ArgumentValue::Object(facts.comment)))
            &&& arguments.contains(("comment_url"@, ArgumentValue::Flag(facts.has_comment)))
            &&& arguments.contains(("rest"@, ArgumentValue::HttpOnly(Some(facts.http_only))))
            &&& arguments.contains(("rfc2109"@, ArgumentValue::Flag(false)))
        }),
{
    let arguments = morsel_arguments(facts);
    assert(arguments[0].0 == "version"@ && arguments[1].0 == "port"@ && arguments[2].0 == "domain"@
        && arguments[3].0 == "path"@ && arguments[4].0 == "secure"@ && arguments[5].0 == "expires"@
        && arguments[6].0 == "discard"@ && arguments[7].0 == "comment"@ && arguments[8].0
        == "comment_url"@ && arguments[9].0 == "rest"@ && arguments[10].0 == "rfc2109"@);
}

/// A row shows each part of a cookie as the cookie holds it under that part's
/// name, and a cookie that lacks one shows none.
pub proof fn law_rows_show_their_cookie(heap: Heap, cookie: usize, row: DetailedRow)
    ensures
        simple_row_of(heap, cookie) == Some(row.simple) <==> {
            &&& heap.attribute_of(cookie, "name"@) == Some(row.simple.name)
            &&& heap.attribute_of(cookie, "value"@) == Some(row.simple.value)
            &&& heap.attribute_of(cookie, "domain"@) == Some(row.simple.domain)
            &&& heap.attribute_of(cookie, "path"@) == Some(row.simple.path)
        },
        detailed_row_of(heap, cookie) == Some(row) <==> {
            &&& heap.attribute_of(cookie, "name"@) == Some(row.simple.name)
            &&& heap.attribute_of(cookie, "value"@) == Some(row.simple.value)
            &&& heap.attribute_of(cookie, "domain"@) == Some(row.simple.domain)
            &&& heap.attribute_of(cookie, "path"@) == Some(row.simple.path)
            &&& heap.attribute_of(cookie, "secure"@) == Some(row.secure)
            &&& heap.attribute_of(cookie, "expires"@) == Some(row.expires)
            &&& heap.attribute_of(cookie, "discard"@) == Some(row.discard)
            &&& heap.attribute_of(cookie, "_rest"@) == Some(row.rest)
        },
{
}

/// Each entry of an inspection has its own key.
pub proof fn law_keys_of_inspect_entry()
    ensures
        InspectEntry::Cookies.key() == "cookies"@,
        InspectEntry::Keys.key() == "keys"@,
        InspectEntry::Values.key() == "values"@,
        InspectEntry::Items.key() == "items"@,
        InspectEntry::Lookups.key() == "lookups"@,
        InspectEntry::Dictionary.key() == "dict"@,
        InspectEntry::RootOfA.key() == "a-root"@,
        InspectEntry::Domains.key() == "domains"@,
        InspectEntry::Paths.key() == "paths"@,
        InspectEntry::Multiple.key() == "multiple"@,
{
}

/// Each entry of an inspection is given by its own method.
pub proof fn law_calls_of_inspect_entry()
    ensures
        InspectEntry::Keys.gives() == Some("keys"@),
        InspectEntry::Values.gives() == Some("values"@),
        InspectEntry::Items.gives() == Some("items"@),
        InspectEntry::Dictionary.gives() == Some("get_dict"@),
        InspectEntry::RootOfA.gives() == Some("get_dict"@),
        InspectEntry::Domains.gives() == Some("list_domains"@),
        InspectEntry::Paths.gives() == Some("list_paths"@),
        InspectEntry::Multiple.gives() == Some("multiple_domains"@),
{
}

/// Each step of a change sets its own name.
pub proof fn law_names_of_mutate_step()
    ensures
        MutateStep::SetOld.sets() == Some("replace"@),
        MutateStep::SetReplacement.sets() == Some("replace"@),
        MutateStep::SetGone.sets() == Some("remove"@),
        MutateStep::Unset.sets() == Some("remove"@),
{
}

/// The steps with a fixed value set their own.
pub proof fn law_values_of_mutate_step()
    ensures
        MutateStep::SetOld.sets_to() == Some("old"@),
        MutateStep::SetGone.sets_to() == Some("gone"@),
{
}

} // verus!
