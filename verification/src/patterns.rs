//! The regular expressions that `requests` and `urllib3` compile when they are
//! loaded.

use vstd::prelude::*;
use vstd::string::StringExecFns;
use vstd::string::StringSliceAdditionalSpecFns;

use crate::heap::{Check, Failure, Heap};
use crate::heap::both;
use crate::intrinsic::{check_text_attribute, text_attribute_is};
use crate::text::same_text;

verus! {

/// A regular expression whose pattern and flags are known.
#[derive(Clone, Copy, Debug, PartialEq, Eq, Structural)]
pub enum KnownRegex {
    HeaderNameText,
    HeaderValueText,
    HeaderNameBytes,
    HeaderValueBytes,
    Ipv4,
    Scheme,
    Percent,
    Uri,
    Ipv6AddressWithZone,
    ZoneId,
    HostPort,
}

/// One group of an IPv6 address.
pub open spec fn hex_group() -> Seq<char> {
    "[0-9A-Fa-f]{1,4}"@
}

/// An IPv4 address.
pub open spec fn ipv4_body() -> Seq<char> {
    r"(?:[0-9]{1,3}\.){3}[0-9]{1,3}"@
}

/// The last two groups of an IPv6 address, which may be an IPv4 address.
pub open spec fn last_groups() -> Seq<char> {
    "(?:"@ + hex_group() + ":"@ + hex_group() + "|"@ + ipv4_body() + ")"@
}

/// An IPv6 address: the alternatives differ in where groups are left out.
pub open spec fn ipv6_body() -> Seq<char> {
    "(?:"@
    // six groups
     + "(?:"@ + hex_group() + ":){6}"@ + last_groups() + "|"@
    // five groups behind the gap
     + "::(?:"@ + hex_group() + ":){5}"@ + last_groups() + "|"@
    // four
     + "(?:"@ + hex_group() + ")?::(?:"@ + hex_group() + ":){4}"@ + last_groups() + "|"@
    // three
     + "(?:(?:"@ + hex_group() + ":)?"@ + hex_group() + ")?::(?:"@ + hex_group() + ":){3}"@
        + last_groups() + "|"@
    // two
     + "(?:(?:"@ + hex_group() + ":){0,2}"@ + hex_group() + ")?::(?:"@ + hex_group() + ":){2}"@
        + last_groups() + "|"@
    // one
     + "(?:(?:"@ + hex_group() + ":){0,3}"@ + hex_group() + ")?::"@ + hex_group() + ":"@
        + last_groups() + "|"@
    // none
     + "(?:(?:"@ + hex_group() + ":){0,4}"@ + hex_group() + ")?::"@ + last_groups() + "|"@
    // one group in all behind the gap
     + "(?:(?:"@ + hex_group() + ":){0,5}"@ + hex_group() + ")?::"@ + hex_group() + "|"@
    // nothing behind the gap
     + "(?:(?:"@ + hex_group() + ":){0,6}"@ + hex_group() + ")?::"@ + ")"@
}

/// The zone of an IPv6 address.
pub open spec fn zone_id_body() -> Seq<char> {
    "(?:%25|%)(?:["@
        + r"ABCDEFGHIJKLMNOPQRSTUVWXYZabcdefghijklmnopqrstuvwxyz0123456789._\-~"@
        + "]|%[a-fA-F0-9]{2})+"@
}

/// An IPv6 address in brackets, with or without its zone.
pub open spec fn ipv6_with_zone_body() -> Seq<char> {
    r"\["@ + ipv6_body() + "(?:"@ + zone_id_body() + r")?\]"@
}

/// The pattern of a known regular expression.
pub open spec fn pattern_text(regex: KnownRegex) -> Seq<char> {
    match regex {
        KnownRegex::HeaderNameText => r"^[^:\s][^:\r\n]*\Z"@,
        KnownRegex::HeaderNameBytes => r"^[^:\s][^:\r\n]*\Z"@,
        KnownRegex::HeaderValueText => r"^\S[^\r\n]*\Z|^\Z"@,
        KnownRegex::HeaderValueBytes => r"^\S[^\r\n]*\Z|^\Z"@,
        KnownRegex::Ipv4 => r"^(?:[0-9]{1,3}\.){3}[0-9]{1,3}$"@,
        KnownRegex::Scheme => r"^(?:[a-zA-Z][a-zA-Z0-9+-]*:|/)"@,
        KnownRegex::Percent => r"%[a-fA-F0-9]{2}"@,
        KnownRegex::Uri =>
            r"^(?:([a-zA-Z][a-zA-Z0-9+.-]*):)?(?://([^\\/?#]*))?([^?#]*)(?:\?([^#]*))?(?:#(.*))?$"@,
        KnownRegex::Ipv6AddressWithZone => "^"@ + ipv6_with_zone_body() + "$"@,
        KnownRegex::ZoneId => "("@ + zone_id_body() + r")\]$"@,
        KnownRegex::HostPort => "^("@ + r"(?:[^\[\]%:/?#]|%[a-fA-F0-9]{2})*"@ + "|"@ + ipv4_body()
            + "|"@ + ipv6_with_zone_body() + ")(?::0*?(|0|[1-9][0-9]{0,4}))?$"@,
    }
}

/// Whether a pattern is a byte string.
pub open spec fn over_bytes(regex: KnownRegex) -> bool {
    regex is HeaderNameBytes || regex is HeaderValueBytes
}

/// The flags of a known regular expression, as Python reports them.
pub open spec fn regex_flags(regex: KnownRegex) -> int {
    match regex {
        KnownRegex::HeaderNameBytes => 0,
        KnownRegex::HeaderValueBytes => 0,
        KnownRegex::Uri => 48,
        KnownRegex::HostPort => 48,
        _ => 32,
    }
}

/// Writes the last two groups of an IPv6 address.
fn urllib3_last_groups() -> (pattern: String)
    ensures
        pattern@ == last_groups(),
{
    let mut pattern = String::from_str("(?:");
    pattern.append("[0-9A-Fa-f]{1,4}");
    pattern.append(":");
    pattern.append("[0-9A-Fa-f]{1,4}");
    pattern.append("|");
    pattern.append(r"(?:[0-9]{1,3}\.){3}[0-9]{1,3}");
    pattern.append(")");
    pattern
}

/// Writes the pattern of an IPv6 address.
pub fn urllib3_ipv6_pattern() -> (pattern: String)
    ensures
        pattern@ == ipv6_body(),
{
    let hex: &'static str = "[0-9A-Fa-f]{1,4}";
    let last = urllib3_last_groups();
    let last = last.as_str();
    let mut pattern = String::from_str("(?:");
    pattern.append("(?:");
    pattern.append(hex);
    pattern.append(":){6}");
    pattern.append(last);
    pattern.append("|");
    pattern.append("::(?:");
    pattern.append(hex);
    pattern.append(":){5}");
    pattern.append(last);
    pattern.append("|");
    pattern.append("(?:");
    pattern.append(hex);
    pattern.append(")?::(?:");
    pattern.append(hex);
    pattern.append(":){4}");
    pattern.append(last);
    pattern.append("|");
    pattern.append("(?:(?:");
    pattern.append(hex);
    pattern.append(":)?");
    pattern.append(hex);
    pattern.append(")?::(?:");
    pattern.append(hex);
    pattern.append(":){3}");
    pattern.append(last);
    pattern.append("|");
    pattern.append("(?:(?:");
    pattern.append(hex);
    pattern.append(":){0,2}");
    pattern.append(hex);
    pattern.append(")?::(?:");
    pattern.append(hex);
    pattern.append(":){2}");
    pattern.append(last);
    pattern.append("|");
    pattern.append("(?:(?:");
    pattern.append(hex);
    pattern.append(":){0,3}");
    pattern.append(hex);
    pattern.append(")?::");
    pattern.append(hex);
    pattern.append(":");
    pattern.append(last);
    pattern.append("|");
    pattern.append("(?:(?:");
    pattern.append(hex);
    pattern.append(":){0,4}");
    pattern.append(hex);
    pattern.append(")?::");
    pattern.append(last);
    pattern.append("|");
    pattern.append("(?:(?:");
    pattern.append(hex);
    pattern.append(":){0,5}");
    pattern.append(hex);
    pattern.append(")?::");
    pattern.append(hex);
    pattern.append("|");
    pattern.append("(?:(?:");
    pattern.append(hex);
    pattern.append(":){0,6}");
    pattern.append(hex);
    pattern.append(")?::");
    pattern.append(")");
    pattern
}

/// Writes the pattern of a zone.
pub fn urllib3_zone_id_pattern() -> (pattern: String)
    ensures
        pattern@ == zone_id_body(),
{
    let mut pattern = String::from_str("(?:%25|%)(?:[");
    pattern.append(r"ABCDEFGHIJKLMNOPQRSTUVWXYZabcdefghijklmnopqrstuvwxyz0123456789._\-~");
    pattern.append("]|%[a-fA-F0-9]{2})+");
    pattern
}

/// Writes the pattern of an IPv6 address in brackets.
pub fn urllib3_ipv6_address_with_zone_body() -> (pattern: String)
    ensures
        pattern@ == ipv6_with_zone_body(),
{
    let mut pattern = String::from_str(r"\[");
    pattern.append(urllib3_ipv6_pattern().as_str());
    pattern.append("(?:");
    pattern.append(urllib3_zone_id_pattern().as_str());
    pattern.append(r")?\]");
    pattern
}

/// Writes the pattern of a known regular expression.
pub fn known_pattern(regex: KnownRegex) -> (pattern: String)
    ensures
        pattern@ == pattern_text(regex),
{
    match regex {
        KnownRegex::HeaderNameText => String::from_str(r"^[^:\s][^:\r\n]*\Z"),
        KnownRegex::HeaderNameBytes => String::from_str(r"^[^:\s][^:\r\n]*\Z"),
        KnownRegex::HeaderValueText => String::from_str(r"^\S[^\r\n]*\Z|^\Z"),
        KnownRegex::HeaderValueBytes => String::from_str(r"^\S[^\r\n]*\Z|^\Z"),
        KnownRegex::Ipv4 => String::from_str(r"^(?:[0-9]{1,3}\.){3}[0-9]{1,3}$"),
        KnownRegex::Scheme => String::from_str(r"^(?:[a-zA-Z][a-zA-Z0-9+-]*:|/)"),
        KnownRegex::Percent => String::from_str(r"%[a-fA-F0-9]{2}"),
        KnownRegex::Uri => String::from_str(
            r"^(?:([a-zA-Z][a-zA-Z0-9+.-]*):)?(?://([^\\/?#]*))?([^?#]*)(?:\?([^#]*))?(?:#(.*))?$",
        ),
        KnownRegex::Ipv6AddressWithZone => {
            let mut pattern = String::from_str("^");
            pattern.append(urllib3_ipv6_address_with_zone_body().as_str());
            pattern.append("$");
            pattern
        },
        KnownRegex::ZoneId => {
            let mut pattern = String::from_str("(");
            pattern.append(urllib3_zone_id_pattern().as_str());
            pattern.append(r")\]$");
            pattern
        },
        KnownRegex::HostPort => {
            let mut pattern = String::from_str("^(");
            pattern.append(r"(?:[^\[\]%:/?#]|%[a-fA-F0-9]{2})*");
            pattern.append("|");
            pattern.append(r"(?:[0-9]{1,3}\.){3}[0-9]{1,3}");
            pattern.append("|");
            pattern.append(urllib3_ipv6_address_with_zone_body().as_str());
            pattern.append(")(?::0*?(|0|[1-9][0-9]{0,4}))?$");
            pattern
        },
    }
}

/// Whether two byte strings are equal.
pub fn same_bytes(left: &[u8], right: &[u8]) -> (same: bool)
    ensures
        same == (left@ == right@),
{
    if left.len() != right.len() {
        return false;
    }
    let mut index: usize = 0;
    while index < left.len()
        invariant
            index <= left.len(),
            left@.len() == right@.len(),
            forall|i: int| 0 <= i < index ==> left@[i] == right@[i],
        decreases left.len() - index,
    {
        if left[index] != right[index] {
            assert(left@[index as int] != right@[index as int]);
            return false;
        }
        index = index + 1;
    }
    assert(left@ =~= right@);
    true
}

/// The four descriptors of the compiled pattern type that are looked at.
#[derive(Clone, Copy, Debug, PartialEq, Eq, Structural)]
pub enum PatternMember {
    Match,
    Search,
    Pattern,
    Flags,
}

impl PatternMember {
    pub open spec fn spelled(self) -> Seq<char> {
        match self {
            PatternMember::Match => "match"@,
            PatternMember::Search => "search"@,
            PatternMember::Pattern => "pattern"@,
            PatternMember::Flags => "flags"@,
        }
    }

    /// The type of the descriptor: methods and members have their own.
    pub open spec fn descriptor_type(self, heap: Heap) -> usize {
        match self {
            PatternMember::Match => heap.intrinsics.method_descriptor,
            PatternMember::Search => heap.intrinsics.method_descriptor,
            PatternMember::Pattern => heap.intrinsics.member_descriptor,
            PatternMember::Flags => heap.intrinsics.member_descriptor,
        }
    }
}

/// Whether an attribute is an object; no answer where it is missing.
pub open spec fn attribute_is(heap: Heap, object: usize, name: Seq<char>, expected: usize) -> Check {
    match heap.attribute_of(object, name) {
        None => Err(Failure::Attribute),
        Some(value) => Ok(value == expected),
    }
}

/// Whether a member of the pattern type is the interpreter's own descriptor.
pub open spec fn member_is_intrinsic(
    heap: Heap,
    pattern_type: usize,
    member: PatternMember,
) -> Check {
    match heap.attribute_of(pattern_type, "__dict__"@) {
        None => Err(Failure::Attribute),
        Some(namespace) => match heap.entry_of(namespace, member.spelled()) {
            None => Err(Failure::Item),
            Some(descriptor) => both(
                Ok(heap.is_exactly(descriptor, member.descriptor_type(heap))),
                both(
                    attribute_is(heap, descriptor, "__objclass__"@, pattern_type),
                    text_attribute_is(heap, descriptor, "__name__"@, member.spelled()),
                ),
            ),
        },
    }
}

/// Whether a type is the compiled pattern type with its own descriptors.
pub open spec fn is_pattern_type(heap: Heap, pattern_type: usize) -> Check {
    both(
        Ok(heap.is_exactly(pattern_type, heap.intrinsics.type_type)),
        both(
            text_attribute_is(heap, pattern_type, "__name__"@, "Pattern"@),
            both(
                match heap.attribute_of(pattern_type, "__module__"@) {
                    None => Err(Failure::Attribute),
                    Some(module) => if !heap.is_exactly(module, heap.intrinsics.text) {
                        Ok(false)
                    } else {
                        match heap.text_of(module) {
                            None => Err(Failure::Kind),
                            Some(text) => Ok(text == "re"@),
                        }
                    },
                },
                both(
                    member_is_intrinsic(heap, pattern_type, PatternMember::Match),
                    both(
                        member_is_intrinsic(heap, pattern_type, PatternMember::Search),
                        both(
                            member_is_intrinsic(heap, pattern_type, PatternMember::Pattern),
                            member_is_intrinsic(heap, pattern_type, PatternMember::Flags),
                        ),
                    ),
                ),
            ),
        ),
    )
}

/// Whether a pattern object holds the pattern of a known expression.
pub open spec fn is_pattern(heap: Heap, pattern: usize, regex: KnownRegex) -> bool {
    if over_bytes(regex) {
        heap.is_exactly(pattern, heap.intrinsics.bytes) && heap.bytes_of(pattern) == Some(
            vstd::utf8::encode_utf8(pattern_text(regex)),
        )
    } else {
        heap.exact_text_of(pattern) == Some(pattern_text(regex))
    }
}

/// Whether an object is a known regular expression: of the interpreter's
/// pattern type, with that pattern and those flags.
pub open spec fn is_regex(heap: Heap, current: usize, regex: KnownRegex) -> Check {
    match heap.at(current) {
        None => Err(Failure::Kind),
        Some(found) => both(
            is_pattern_type(heap, found.class),
            match heap.attribute_of(current, "pattern"@) {
                None => Err(Failure::Attribute),
                Some(pattern) => both(
                    Ok(is_pattern(heap, pattern, regex)),
                    match heap.attribute_of(current, "flags"@) {
                        None => Err(Failure::Attribute),
                        Some(flags) => match heap.int_of(flags) {
                            None => Err(Failure::Kind),
                            Some(value) => Ok(value == regex_flags(regex)),
                        },
                    },
                ),
            },
        ),
    }
}

/// Compares an attribute by identity.
pub fn check_attribute(heap: &Heap, object: usize, name: &str, expected: usize) -> (check: Check)
    ensures
        check == attribute_is(*heap, object, name@, expected),
{
    match heap.attribute(object, name) {
        None => Err(Failure::Attribute),
        Some(value) => Ok(value == expected),
    }
}

/// Checks one descriptor of the pattern type.
fn check_member(heap: &Heap, pattern_type: usize, member: PatternMember) -> (check: Check)
    ensures
        check == member_is_intrinsic(*heap, pattern_type, member),
{
    let namespace = match heap.attribute(pattern_type, "__dict__") {
        None => {
            return Err(Failure::Attribute);
        },
        Some(namespace) => namespace,
    };
    let name: &'static str = match member {
        PatternMember::Match => "match",
        PatternMember::Search => "search",
        PatternMember::Pattern => "pattern",
        PatternMember::Flags => "flags",
    };
    let expected: usize = match member {
        PatternMember::Match => heap.intrinsics.method_descriptor,
        PatternMember::Search => heap.intrinsics.method_descriptor,
        PatternMember::Pattern => heap.intrinsics.member_descriptor,
        PatternMember::Flags => heap.intrinsics.member_descriptor,
    };
    let descriptor = match heap.entry(namespace, name) {
        None => {
            return Err(Failure::Item);
        },
        Some(descriptor) => descriptor,
    };
    if !heap.exactly(descriptor, expected) {
        return Ok(false);
    }
    match check_attribute(heap, descriptor, "__objclass__", pattern_type) {
        Ok(true) => check_text_attribute(heap, descriptor, "__name__", name),
        other => other,
    }
}

/// Checks the pattern type.
fn check_pattern_type(heap: &Heap, pattern_type: usize) -> (check: Check)
    ensures
        check == is_pattern_type(*heap, pattern_type),
{
    if !heap.exactly(pattern_type, heap.intrinsics.type_type) {
        return Ok(false);
    }
    match check_text_attribute(heap, pattern_type, "__name__", "Pattern") {
        Ok(true) => {},
        other => {
            return other;
        },
    }
    let module = match heap.attribute(pattern_type, "__module__") {
        None => {
            return Err(Failure::Attribute);
        },
        Some(module) => module,
    };
    if !heap.exactly(module, heap.intrinsics.text) {
        return Ok(false);
    }
    match heap.text(module) {
        None => {
            return Err(Failure::Kind);
        },
        Some(text) => {
            if !same_text(text.as_str(), "re") {
                return Ok(false);
            }
        },
    }
    match check_member(heap, pattern_type, PatternMember::Match) {
        Ok(true) => {},
        other => {
            return other;
        },
    }
    match check_member(heap, pattern_type, PatternMember::Search) {
        Ok(true) => {},
        other => {
            return other;
        },
    }
    match check_member(heap, pattern_type, PatternMember::Pattern) {
        Ok(true) => check_member(heap, pattern_type, PatternMember::Flags),
        other => other,
    }
}

/// Whether an object is a known regular expression.
pub fn known_regex_is(heap: &Heap, current: usize, regex: KnownRegex) -> (check: Check)
    ensures
        check == is_regex(*heap, current, regex),
{
    let pattern_type: usize = match heap.get(current) {
        None => {
            return Err(Failure::Kind);
        },
        Some(found) => found.class,
    };
    match check_pattern_type(heap, pattern_type) {
        Ok(true) => {},
        other => {
            return other;
        },
    }
    let pattern = match heap.attribute(current, "pattern") {
        None => {
            return Err(Failure::Attribute);
        },
        Some(pattern) => pattern,
    };
    let expected = known_pattern(regex);
    let bytes_pattern = match regex {
        KnownRegex::HeaderNameBytes => true,
        KnownRegex::HeaderValueBytes => true,
        _ => false,
    };
    let matches_pattern = if bytes_pattern {
        heap.exactly(pattern, heap.intrinsics.bytes) && match heap.bytes(pattern) {
            None => false,
            Some(bytes) => same_bytes(bytes.as_slice(), expected.as_str().as_bytes()),
        }
    } else {
        heap.exact_text_is(pattern, expected.as_str())
    };
    if !matches_pattern {
        return Ok(false);
    }
    let flags = match heap.attribute(current, "flags") {
        None => {
            return Err(Failure::Attribute);
        },
        Some(flags) => flags,
    };
    let expected_flags: i128 = match regex {
        KnownRegex::HeaderNameBytes => 0,
        KnownRegex::HeaderValueBytes => 0,
        KnownRegex::Uri => 48,
        KnownRegex::HostPort => 48,
        _ => 32,
    };
    match heap.int_value(flags) {
        None => Err(Failure::Kind),
        Some(value) => Ok(value == expected_flags),
    }
}

/// Texts and bytes of headers are matched by the same patterns; only patterns of
/// bytes have no flags, and only those of whole addresses let a dot match all.
pub proof fn law_patterns_of_headers(regex: KnownRegex)
    ensures
        pattern_text(KnownRegex::HeaderNameText) == pattern_text(KnownRegex::HeaderNameBytes),
        pattern_text(KnownRegex::HeaderValueText) == pattern_text(KnownRegex::HeaderValueBytes),
        over_bytes(regex) <==> regex_flags(regex) == 0,
        regex_flags(regex) == 48 <==> regex is Uri || regex is HostPort,
        !over_bytes(regex) ==> regex_flags(regex) == 32 || regex_flags(regex) == 48,
{
}

/// A pattern of addresses is that of its parts, from the start to the end.
pub proof fn law_patterns_are_made_of_parts()
    ensures
        pattern_text(KnownRegex::Ipv4) == "^"@ + ipv4_body() + "$"@,
        ({
            let pattern = pattern_text(KnownRegex::Ipv6AddressWithZone);
            pattern.first() == '^' && pattern.last() == '$' && pattern.subrange(
                1,
                pattern.len() - 1,
            ) == ipv6_with_zone_body()
        }),
{
    reveal_strlit("^");
    reveal_strlit("$");
    reveal_strlit(r"^(?:[0-9]{1,3}\.){3}[0-9]{1,3}$");
    reveal_strlit(r"(?:[0-9]{1,3}\.){3}[0-9]{1,3}");
    assert(pattern_text(KnownRegex::Ipv4) =~= "^"@ + ipv4_body() + "$"@);
    let pattern = pattern_text(KnownRegex::Ipv6AddressWithZone);
    assert(pattern.subrange(1, pattern.len() - 1) =~= ipv6_with_zone_body());
}

/// A pattern is the known one exactly where it is of the interpreter's own class of
/// patterns, with the known text and the known flags.
pub proof fn law_known_patterns(heap: Heap, current: usize, regex: KnownRegex)
    ensures
        is_regex(heap, current, regex) == Ok::<bool, Failure>(true) <==> {
            &&& heap.at(current) matches Some(found)
            &&& is_pattern_type(heap, found.class) == Ok::<bool, Failure>(true)
            &&& heap.attribute_of(current, "pattern"@) matches Some(pattern)
            &&& over_bytes(regex) ==> heap.is_exactly(pattern, heap.intrinsics.bytes)
                && heap.bytes_of(pattern) == Some(vstd::utf8::encode_utf8(pattern_text(regex)))
            &&& !over_bytes(regex) ==> heap.exact_text_of(pattern) == Some(pattern_text(regex))
            &&& heap.attribute_of(current, "flags"@) matches Some(flags)
            &&& heap.int_of(flags) == Some(regex_flags(regex))
        },
{
}

/// Whether a class of patterns has a member of its own, of the given kind.
pub open spec fn has_own_member(
    heap: Heap,
    pattern_type: usize,
    name: Seq<char>,
    kind: usize,
) -> bool {
    &&& heap.module_entry_of(pattern_type, name) matches Some(descriptor)
    &&& heap.is_exactly(descriptor, kind)
    &&& heap.attribute_of(descriptor, "__objclass__"@) == Some(pattern_type)
    &&& heap.attribute_of(descriptor, "__name__"@) matches Some(label)
    &&& heap.text_of(label) == Some(name)
}

/// A class is that of patterns exactly where it says so and has its four members,
/// the first two methods, the others fields.
pub proof fn law_the_class_of_patterns(heap: Heap, pattern_type: usize)
    ensures
        is_pattern_type(heap, pattern_type) == Ok::<bool, Failure>(true) <==> {
            &&& heap.is_exactly(pattern_type, heap.intrinsics.type_type)
            &&& heap.attribute_of(pattern_type, "__name__"@) matches Some(label)
            &&& heap.text_of(label) == Some("Pattern"@)
            &&& heap.attribute_of(pattern_type, "__module__"@) matches Some(module)
            &&& heap.exact_text_of(module) == Some("re"@)
            &&& has_own_member(
                heap,
                pattern_type,
                "match"@,
                heap.intrinsics.method_descriptor,
            )
            &&& has_own_member(
                heap,
                pattern_type,
                "search"@,
                heap.intrinsics.method_descriptor,
            )
            &&& has_own_member(
                heap,
                pattern_type,
                "pattern"@,
                heap.intrinsics.member_descriptor,
            )
            &&& has_own_member(
                heap,
                pattern_type,
                "flags"@,
                heap.intrinsics.member_descriptor,
            )
        },
{
}

} // verus!
