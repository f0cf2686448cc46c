//! Whether a request is sent natively, and what is read of it.

use vstd::prelude::*;
use vstd::string::StringExecFns;

use crate::adapter_state::{adapter_identity_is_pristine, exact_dict, AdapterState};
use crate::adapter_state::{exact_dict_of, identity_pristine, AdapterView};
use crate::heap::{Check, Failure, Heap};
use crate::heap::both;
use crate::known::exact_tuple;
use crate::known::exact_tuple_of;
use crate::managers::{exact_usize, ProxyManagerConfiguration};
use crate::managers::usize_value;
use crate::retry::{exact_bool, retry_snapshot, HistoryRow, RetryGuard, RetryRefusal, RetrySnapshot, Stop};
use crate::retry::{exact_bool_value, history_views, optional_view, retry_read, RetryView};
use crate::text::{lower_text, render_decimal, same_text};
use crate::text::{decimal, lowered, text_views};

verus! {

/// Why a request is left to Python.
#[derive(Clone, Copy, Debug, PartialEq, Eq, Structural)]
pub enum AdmissionRefusal {
    Identity,
    Config,
    PoolMaximum,
    ZeroPool,
    PoolSettings,
    Method,
    Url,
    Headers,
    Body,
    Retry(RetryRefusal),
    Timeout,
    Tls,
    Proxy,
    PathUrl,
    IdentityChanged,
    RetryChanged,
}

impl AdmissionRefusal {
    /// The reason in words.
    pub open spec fn words(self) -> Seq<char> {
        match self {
            AdmissionRefusal::Identity => "adapter identities are not pristine"@,
            AdmissionRefusal::Config => "adapter config is not an empty exact dict"@,
            AdmissionRefusal::PoolMaximum => "pool maximum is unsupported"@,
            AdmissionRefusal::ZeroPool => "zero-sized native pools are unsupported"@,
            AdmissionRefusal::PoolSettings => "pool settings are unsupported"@,
            AdmissionRefusal::Method => "request method is unsupported"@,
            AdmissionRefusal::Url => "request URL is unsupported"@,
            AdmissionRefusal::Headers => "request headers are unsupported"@,
            AdmissionRefusal::Body => "request body is not proven replayable"@,
            AdmissionRefusal::Retry(refusal) => refusal.words(),
            AdmissionRefusal::Timeout => "timeout is unsupported"@,
            AdmissionRefusal::Tls => "TLS settings are unsupported"@,
            AdmissionRefusal::Proxy => "proxy settings are unsupported"@,
            AdmissionRefusal::PathUrl => "request path URL is unsupported"@,
            AdmissionRefusal::IdentityChanged => "adapter identities changed during admission"@,
            AdmissionRefusal::RetryChanged => "Retry state changed during admission"@,
        }
    }

    /// The reason in words.
    pub fn message(&self) -> (text: String)
        ensures
            text@ == self.words(),
    {
        let words: &'static str = match self {
            AdmissionRefusal::Identity => "adapter identities are not pristine",
            AdmissionRefusal::Config => "adapter config is not an empty exact dict",
            AdmissionRefusal::PoolMaximum => "pool maximum is unsupported",
            AdmissionRefusal::ZeroPool => "zero-sized native pools are unsupported",
            AdmissionRefusal::PoolSettings => "pool settings are unsupported",
            AdmissionRefusal::Method => "request method is unsupported",
            AdmissionRefusal::Url => "request URL is unsupported",
            AdmissionRefusal::Headers => "request headers are unsupported",
            AdmissionRefusal::Body => "request body is not proven replayable",
            AdmissionRefusal::Retry(refusal) => {
                return refusal.message();
            },
            AdmissionRefusal::Timeout => "timeout is unsupported",
            AdmissionRefusal::Tls => "TLS settings are unsupported",
            AdmissionRefusal::Proxy => "proxy settings are unsupported",
            AdmissionRefusal::PathUrl => "request path URL is unsupported",
            AdmissionRefusal::IdentityChanged => "adapter identities changed during admission",
            AdmissionRefusal::RetryChanged => "Retry state changed during admission",
        };
        String::from_str(words)
    }
}

/// Why an admission stops: the request is left to Python, or Python raised an
/// error.
#[derive(Clone, Copy, Debug, PartialEq, Eq, Structural)]
pub enum AdmissionStop {
    Refused(AdmissionRefusal),
    Failed(Failure),
}

/// How long is waited for something.
#[derive(Clone, Copy, Debug, PartialEq, Eq, Structural)]
pub enum Span {
    Endless,
    /// So many seconds, given by the bits of the number.
    Seconds(u64),
}

/// Whether the bits are those of a positive number of seconds that a duration
/// can hold, which is less than two to the power of sixty-four.
pub open spec fn is_duration(bits: u64) -> bool {
    0 < bits < 0x43f0_0000_0000_0000
}

/// The duration that an object stands for. What conversion to a number gives
/// stands as the attribute `float()`.
pub open spec fn span_value(heap: Heap, value: usize) -> Option<Span> {
    if heap.is_none_value(value) {
        Some(Span::Endless)
    } else if heap.is_exactly(value, heap.intrinsics.boolean) || !(heap.is_exactly(
        value,
        heap.intrinsics.int,
    ) || heap.is_exactly(value, heap.intrinsics.float)) {
        None
    } else {
        match heap.attribute_of(value, "float()"@) {
            None => None,
            Some(number) => match heap.float_of(number) {
                Some(bits) => if is_duration(bits) {
                    Some(Span::Seconds(bits))
                } else {
                    None
                },
                None => None,
            },
        }
    }
}

/// The duration that an object stands for.
pub fn duration_value(heap: &Heap, value: usize) -> (span: Option<Span>)
    ensures
        span == span_value(*heap, value),
{
    if heap.none_value(value) {
        return Some(Span::Endless);
    }
    if heap.exactly(value, heap.intrinsics.boolean) || !(heap.exactly(value, heap.intrinsics.int)
        || heap.exactly(value, heap.intrinsics.float)) {
        return None;
    }
    match heap.attribute(value, "float()") {
        None => None,
        Some(number) => match heap.float_bits(number) {
            Some(bits) => if 0 < bits && bits < 0x43f0_0000_0000_0000 {
                Some(Span::Seconds(bits))
            } else {
                None
            },
            None => None,
        },
    }
}

/// How long is waited for a connection and for a reply.
#[derive(Clone, Copy, Debug, PartialEq, Eq, Structural)]
pub struct TimeoutPlan {
    pub connect: Span,
    pub read: Span,
}

/// Two durations that objects stand for.
pub open spec fn spans(heap: Heap, connect: usize, read: usize) -> Option<TimeoutPlan> {
    match (span_value(heap, connect), span_value(heap, read)) {
        (Some(connect), Some(read)) => Some(TimeoutPlan { connect, read }),
        _ => None,
    }
}

/// Two durations that objects stand for.
fn read_spans(heap: &Heap, connect: usize, read: usize) -> (plan: Option<TimeoutPlan>)
    ensures
        plan == spans(*heap, connect, read),
{
    match (duration_value(heap, connect), duration_value(heap, read)) {
        (Some(connect), Some(read)) => Some(TimeoutPlan { connect, read }),
        _ => None,
    }
}

/// What a `timeout` argument stands for: one duration for both, a pair, or a
/// `Timeout` object without a total.
pub open spec fn timeout_of(heap: Heap, module: usize, value: usize) -> Result<
    Option<TimeoutPlan>,
    Failure,
> {
    if heap.is_none_value(value) || heap.is_exactly(value, heap.intrinsics.int) || heap.is_exactly(
        value,
        heap.intrinsics.float,
    ) {
        Ok(spans(heap, value, value))
    } else {
        match exact_tuple_of(heap, value) {
            Some(items) => if items.len() == 2 {
                Ok(spans(heap, items[0], items[1]))
            } else {
                Ok(None)
            },
            None => match heap.attribute_of(module, "TimeoutSauce"@) {
                None => Err(Failure::Attribute),
                Some(class) => if !heap.is_exactly(value, class) {
                    Ok(None)
                } else {
                    match heap.attribute_of(value, "total"@) {
                        None => Err(Failure::Attribute),
                        Some(total) => if !heap.is_none_value(total) {
                            Ok(None)
                        } else {
                            match (
                                heap.attribute_of(value, "connect_timeout"@),
                                heap.attribute_of(value, "read_timeout"@),
                            ) {
                                (Some(connect), Some(read)) => Ok(spans(heap, connect, read)),
                                _ => Err(Failure::Attribute),
                            }
                        },
                    }
                },
            },
        }
    }
}

/// What a `timeout` argument stands for.
pub fn timeout_value(heap: &Heap, module: usize, value: usize) -> (plan: Result<
    Option<TimeoutPlan>,
    Failure,
>)
    ensures
        plan == timeout_of(*heap, module, value),
{
    if heap.none_value(value) || heap.exactly(value, heap.intrinsics.int) || heap.exactly(
        value,
        heap.intrinsics.float,
    ) {
        return Ok(read_spans(heap, value, value));
    }
    match exact_tuple(heap, value) {
        Some(items) => {
            if items.len() == 2 {
                return Ok(read_spans(heap, items[0], items[1]));
            }
            return Ok(None);
        },
        None => {},
    }
    match heap.attribute(module, "TimeoutSauce") {
        None => {
            return Err(Failure::Attribute);
        },
        Some(class) => {
            if !heap.exactly(value, class) {
                return Ok(None);
            }
        },
    }
    match heap.attribute(value, "total") {
        None => {
            return Err(Failure::Attribute);
        },
        Some(total) => {
            if !heap.none_value(total) {
                return Ok(None);
            }
        },
    }
    match (heap.attribute(value, "connect_timeout"), heap.attribute(value, "read_timeout")) {
        (Some(connect), Some(read)) => Ok(read_spans(heap, connect, read)),
        _ => Err(Failure::Attribute),
    }
}

/// Which certificates are trusted.
pub enum Roots {
    Disabled,
    /// Those of a file.
    Bundle(String),
    /// Those of a directory or a file, whichever the path is.
    Path(String),
}

/// A client certificate and its key.
pub struct Identity {
    pub chain: String,
    pub key: Option<String>,
}

/// How connections are encrypted.
pub struct TlsPlan {
    pub roots: Roots,
    pub identity: Option<Identity>,
}

/// What trusted certificates are said to be.
pub enum RootsView {
    Disabled,
    Bundle(Seq<char>),
    Path(Seq<char>),
}

/// What a plan for encryption says.
pub struct TlsView {
    pub roots: RootsView,
    pub identity: Option<(Seq<char>, Option<Seq<char>>)>,
}

impl View for Roots {
    type V = RootsView;

    open spec fn view(&self) -> RootsView {
        match *self {
            Roots::Disabled => RootsView::Disabled,
            Roots::Bundle(path) => RootsView::Bundle(path@),
            Roots::Path(path) => RootsView::Path(path@),
        }
    }
}

/// What a client certificate that may be missing says.
pub open spec fn identity_view(identity: Option<Identity>) -> Option<(Seq<char>, Option<Seq<char>>)> {
    match identity {
        Some(identity) => Some((identity.chain@, optional_view(identity.key))),
        None => None,
    }
}

impl View for TlsPlan {
    type V = TlsView;

    open spec fn view(&self) -> TlsView {
        TlsView { roots: self.roots@, identity: identity_view(self.identity) }
    }
}

/// Which certificates a `verify` argument trusts.
pub open spec fn roots_of(heap: Heap, module: usize, verify: usize) -> Result<
    Option<RootsView>,
    Failure,
> {
    if heap.is_exactly(verify, heap.intrinsics.boolean) {
        match heap.bool_of(verify) {
            None => Err(Failure::Kind),
            Some(false) => Ok(Some(RootsView::Disabled)),
            Some(true) => match heap.attribute_of(module, "DEFAULT_CA_BUNDLE_PATH"@) {
                None => Err(Failure::Attribute),
                Some(bundle) => if !heap.is_exactly(bundle, heap.intrinsics.text) {
                    Ok(None)
                } else {
                    match heap.text_of(bundle) {
                        None => Err(Failure::Kind),
                        Some(path) => Ok(Some(RootsView::Bundle(path))),
                    }
                },
            },
        }
    } else if heap.is_exactly(verify, heap.intrinsics.text) {
        match heap.text_of(verify) {
            None => Err(Failure::Kind),
            Some(path) => Ok(Some(RootsView::Path(path))),
        }
    } else {
        Ok(None)
    }
}

/// Which client certificate a `cert` argument names.
pub open spec fn identity_of(heap: Heap, cert: usize) -> Result<
    Option<Option<(Seq<char>, Option<Seq<char>>)>>,
    Failure,
> {
    if heap.is_none_value(cert) {
        Ok(Some(None))
    } else if heap.is_exactly(cert, heap.intrinsics.text) {
        match heap.text_of(cert) {
            None => Err(Failure::Kind),
            Some(chain) => Ok(Some(Some((chain, None)))),
        }
    } else {
        match exact_tuple_of(heap, cert) {
            None => Ok(None),
            Some(items) => if items.len() == 2 && heap.is_exactly(items[0], heap.intrinsics.text)
                && heap.is_exactly(items[1], heap.intrinsics.text) {
                match (heap.text_of(items[0]), heap.text_of(items[1])) {
                    (Some(chain), Some(key)) => Ok(Some(Some((chain, Some(key))))),
                    _ => Err(Failure::Kind),
                }
            } else {
                Ok(None)
            },
        }
    }
}

/// How `verify` and `cert` arguments ask for encryption.
pub open spec fn tls_of(heap: Heap, module: usize, verify: usize, cert: usize) -> Result<
    Option<TlsView>,
    Failure,
> {
    match roots_of(heap, module, verify) {
        Err(failure) => Err(failure),
        Ok(None) => Ok(None),
        Ok(Some(roots)) => match identity_of(heap, cert) {
            Err(failure) => Err(failure),
            Ok(None) => Ok(None),
            Ok(Some(identity)) => Ok(Some(TlsView { roots, identity })),
        },
    }
}

/// Which certificates a `verify` argument trusts.
fn read_roots(heap: &Heap, module: usize, verify: usize) -> (roots: Result<Option<Roots>, Failure>)
    ensures
        match roots {
            Ok(Some(roots)) => roots_of(*heap, module, verify) == Ok::<Option<RootsView>, Failure>(
                Some(roots@),
            ),
            Ok(None) => roots_of(*heap, module, verify) == Ok::<Option<RootsView>, Failure>(None),
            Err(failure) => roots_of(*heap, module, verify) == Err::<Option<RootsView>, Failure>(
                failure,
            ),
        },
{
    if heap.exactly(verify, heap.intrinsics.boolean) {
        match heap.bool_value(verify) {
            None => {
                return Err(Failure::Kind);
            },
            Some(wanted) => {
                if !wanted {
                    return Ok(Some(Roots::Disabled));
                }
            },
        }
        return match heap.attribute(module, "DEFAULT_CA_BUNDLE_PATH") {
            None => Err(Failure::Attribute),
            Some(bundle) => if !heap.exactly(bundle, heap.intrinsics.text) {
                Ok(None)
            } else {
                match heap.text(bundle) {
                    None => Err(Failure::Kind),
                    Some(path) => Ok(Some(Roots::Bundle(String::from_str(path.as_str())))),
                }
            },
        };
    }
    if !heap.exactly(verify, heap.intrinsics.text) {
        return Ok(None);
    }
    match heap.text(verify) {
        None => Err(Failure::Kind),
        Some(path) => Ok(Some(Roots::Path(String::from_str(path.as_str())))),
    }
}

/// Which client certificate a `cert` argument names.
fn read_identity(heap: &Heap, cert: usize) -> (identity: Result<Option<Option<Identity>>, Failure>)
    ensures
        match identity {
            Ok(Some(identity)) => identity_of(*heap, cert) == Ok::<
                Option<Option<(Seq<char>, Option<Seq<char>>)>>,
                Failure,
            >(Some(identity_view(identity))),
            Ok(None) => identity_of(*heap, cert) == Ok::<
                Option<Option<(Seq<char>, Option<Seq<char>>)>>,
                Failure,
            >(None),
            Err(failure) => identity_of(*heap, cert) == Err::<
                Option<Option<(Seq<char>, Option<Seq<char>>)>>,
                Failure,
            >(failure),
        },
{
    if heap.none_value(cert) {
        return Ok(Some(None));
    }
    if heap.exactly(cert, heap.intrinsics.text) {
        return match heap.text(cert) {
            None => Err(Failure::Kind),
            Some(chain) => Ok(
                Some(Some(Identity { chain: String::from_str(chain.as_str()), key: None })),
            ),
        };
    }
    match exact_tuple(heap, cert) {
        None => Ok(None),
        Some(items) => {
            if items.len() != 2 || !heap.exactly(items[0], heap.intrinsics.text) || !heap.exactly(
                items[1],
                heap.intrinsics.text,
            ) {
                return Ok(None);
            }
            match (heap.text(items[0]), heap.text(items[1])) {
                (Some(chain), Some(key)) => Ok(
                    Some(
                        Some(
                            Identity {
                                chain: String::from_str(chain.as_str()),
                                key: Some(String::from_str(key.as_str())),
                            },
                        ),
                    ),
                ),
                _ => Err(Failure::Kind),
            }
        },
    }
}

/// How `verify` and `cert` arguments ask for encryption.
pub fn tls_value(heap: &Heap, module: usize, verify: usize, cert: usize) -> (plan: Result<
    Option<TlsPlan>,
    Failure,
>)
    ensures
        match plan {
            Ok(Some(plan)) => tls_of(*heap, module, verify, cert) == Ok::<Option<TlsView>, Failure>(
                Some(plan@),
            ),
            Ok(None) => tls_of(*heap, module, verify, cert) == Ok::<Option<TlsView>, Failure>(None),
            Err(failure) => tls_of(*heap, module, verify, cert) == Err::<Option<TlsView>, Failure>(
                failure,
            ),
        },
{
    let roots = match read_roots(heap, module, verify) {
        Err(failure) => {
            return Err(failure);
        },
        Ok(None) => {
            return Ok(None);
        },
        Ok(Some(roots)) => roots,
    };
    match read_identity(heap, cert) {
        Err(failure) => Err(failure),
        Ok(None) => Ok(None),
        Ok(Some(identity)) => Ok(Some(TlsPlan { roots, identity })),
    }
}

/// How a proxy is spoken to.
#[derive(Clone, Copy, Debug, PartialEq, Eq, Structural)]
pub enum ProxyKind {
    Http,
    Https,
    Socks4,
    Socks5 { remote_dns: bool },
}

/// How a proxy is spoken to, by the scheme of its URL.
pub open spec fn proxy_kind_of(scheme: Seq<char>) -> Option<ProxyKind> {
    let lower = lowered(scheme);
    if lower == "http"@ {
        Some(ProxyKind::Http)
    } else if lower == "https"@ {
        Some(ProxyKind::Https)
    } else if lower == "socks4"@ {
        Some(ProxyKind::Socks4)
    } else if lower == "socks4a"@ {
        Some(ProxyKind::Socks4)
    } else if lower == "socks5"@ {
        Some(ProxyKind::Socks5 { remote_dns: false })
    } else if lower == "socks5h"@ {
        Some(ProxyKind::Socks5 { remote_dns: true })
    } else {
        None
    }
}

/// How a proxy is spoken to, by the scheme of its URL.
pub fn proxy_kind(scheme: &str) -> (kind: Option<ProxyKind>)
    ensures
        kind == proxy_kind_of(scheme@),
{
    let lower = lower_text(scheme);
    if same_text(lower.as_str(), "http") {
        Some(ProxyKind::Http)
    } else if same_text(lower.as_str(), "https") {
        Some(ProxyKind::Https)
    } else if same_text(lower.as_str(), "socks4") {
        Some(ProxyKind::Socks4)
    } else if same_text(lower.as_str(), "socks4a") {
        Some(ProxyKind::Socks4)
    } else if same_text(lower.as_str(), "socks5") {
        Some(ProxyKind::Socks5 { remote_dns: false })
    } else if same_text(lower.as_str(), "socks5h") {
        Some(ProxyKind::Socks5 { remote_dns: true })
    } else {
        None
    }
}

/// Whether a `proxies` argument is supported: `None` or an exact dict.
pub fn proxies_are_supported(heap: &Heap, proxies: usize) -> (supported: bool)
    ensures
        supported == (heap.is_none_value(proxies) || heap.is_exactly(
            proxies,
            heap.intrinsics.dict,
        )),
{
    heap.none_value(proxies) || heap.exactly(proxies, heap.intrinsics.dict)
}

/// What the selection of a proxy gave.
#[derive(Clone, Copy, Debug, PartialEq, Eq, Structural)]
pub enum SelectedProxy {
    /// No proxy.
    Direct,
    /// A URL.
    Named,
    Unsupported,
}

/// What the selection of a proxy gave.
pub fn selected_proxy(heap: &Heap, selected: usize) -> (proxy: SelectedProxy)
    ensures
        proxy == (if heap.is_none_value(selected) {
            SelectedProxy::Direct
        } else if heap.is_exactly(selected, heap.intrinsics.text) {
            SelectedProxy::Named
        } else {
            SelectedProxy::Unsupported
        }),
{
    if heap.none_value(selected) {
        SelectedProxy::Direct
    } else if heap.exactly(selected, heap.intrinsics.text) {
        SelectedProxy::Named
    } else {
        SelectedProxy::Unsupported
    }
}

/// A header of a request.
pub struct HeaderPair {
    pub name: String,
    pub value: String,
}

/// What a list of headers says.
pub open spec fn header_views(headers: Seq<HeaderPair>) -> Seq<(Seq<char>, Seq<char>)> {
    headers.map_values(|header: HeaderPair| (header.name@, header.value@))
}

/// One header: a pair of exact texts that parse as a header.
pub open spec fn header_of(heap: Heap, item: usize, parses: bool) -> Result<
    Option<(Seq<char>, Seq<char>)>,
    Failure,
> {
    match heap.tuple_of(item) {
        None => Err(Failure::Kind),
        Some(items) => if items.len() != 2 || !heap.is_exactly(items[0], heap.intrinsics.text)
            || !heap.is_exactly(items[1], heap.intrinsics.text) {
            Ok(None)
        } else {
            match (heap.text_of(items[0]), heap.text_of(items[1])) {
                (Some(name), Some(value)) => if parses {
                    Ok(Some((name, value)))
                } else {
                    Ok(None)
                },
                _ => Err(Failure::Kind),
            }
        },
    }
}

/// The first headers of a list of entries; `parses` tells of each whether it
/// parses as a header.
pub open spec fn headers_of(heap: Heap, items: Seq<usize>, parses: Seq<bool>) -> Result<
    Option<Seq<(Seq<char>, Seq<char>)>>,
    Failure,
>
    decreases items.len(),
{
    if items.len() == 0 {
        Ok(Some(Seq::empty()))
    } else {
        match headers_of(heap, items.drop_last(), parses) {
            Ok(Some(before)) => match header_of(
                heap,
                items.last(),
                items.len() <= parses.len() && parses[items.len() - 1],
            ) {
                Err(failure) => Err(failure),
                Ok(None) => Ok(None),
                Ok(Some(header)) => Ok(Some(before.push(header))),
            },
            other => other,
        }
    }
}

/// What stops a list of headers stops every longer one.
proof fn lemma_headers_stop(heap: Heap, items: Seq<usize>, parses: Seq<bool>, count: int)
    requires
        0 <= count <= items.len(),
        !(headers_of(heap, items.take(count), parses) matches Ok(Some(_))),
    ensures
        headers_of(heap, items, parses) == headers_of(heap, items.take(count), parses),
    decreases items.len() - count,
{
    if count < items.len() {
        assert(items.take(count + 1).drop_last() =~= items.take(count));
        lemma_headers_stop(heap, items, parses, count + 1);
    } else {
        assert(items.take(count) =~= items);
    }
}

/// The store of a request's headers, where it is the one of the case-insensitive
/// dict.
pub open spec fn header_store(heap: Heap, module: usize, request: usize) -> Result<
    Option<usize>,
    Failure,
> {
    match (
        heap.attribute_of(request, "headers"@),
        heap.attribute_of(module, "CaseInsensitiveDict"@),
    ) {
        (Some(headers), Some(class)) => if !heap.is_exactly(headers, class) {
            Ok(None)
        } else {
            match heap.attribute_of(headers, "_store"@) {
                None => Err(Failure::Attribute),
                Some(store) => match heap.module_of("collections"@) {
                    None => Err(Failure::Import),
                    Some(collections) => match heap.attribute_of(collections, "OrderedDict"@) {
                        None => Err(Failure::Attribute),
                        Some(ordered) => if heap.is_exactly(store, ordered) {
                            Ok(Some(store))
                        } else {
                            Ok(None)
                        },
                    },
                },
            }
        },
        _ => Err(Failure::Attribute),
    }
}

/// The store of a request's headers.
fn read_header_store(heap: &Heap, module: usize, request: usize) -> (store: Result<
    Option<usize>,
    Failure,
>)
    ensures
        store == header_store(*heap, module, request),
{
    let (headers, class) = match (
        heap.attribute(request, "headers"),
        heap.attribute(module, "CaseInsensitiveDict"),
    ) {
        (Some(headers), Some(class)) => (headers, class),
        _ => {
            return Err(Failure::Attribute);
        },
    };
    if !heap.exactly(headers, class) {
        return Ok(None);
    }
    let store = match heap.attribute(headers, "_store") {
        Some(store) => store,
        None => {
            return Err(Failure::Attribute);
        },
    };
    let collections = match heap.module("collections") {
        Some(collections) => collections,
        None => {
            return Err(Failure::Import);
        },
    };
    match heap.attribute(collections, "OrderedDict") {
        None => Err(Failure::Attribute),
        Some(ordered) => if heap.exactly(store, ordered) {
            Ok(Some(store))
        } else {
            Ok(None)
        },
    }
}

/// The headers of a request, in order.
pub open spec fn request_headers_of(heap: Heap, module: usize, request: usize, parses: Seq<bool>) -> Result<
    Option<Seq<(Seq<char>, Seq<char>)>>,
    Failure,
> {
    match header_store(heap, module, request) {
        Err(failure) => Err(failure),
        Ok(None) => Ok(None),
        Ok(Some(store)) => match heap.pairs_of(store) {
            None => Err(Failure::Attribute),
            Some(entries) => headers_of(heap, crate::behavior::values_of(entries), parses),
        },
    }
}

/// Reads the headers of a request.
pub fn request_headers(heap: &Heap, module: usize, request: usize, parses: &Vec<bool>) -> (headers:
    Result<Option<Vec<HeaderPair>>, Failure>)
    ensures
        match headers {
            Ok(Some(headers)) => request_headers_of(*heap, module, request, parses@) == Ok::<
                Option<Seq<(Seq<char>, Seq<char>)>>,
                Failure,
            >(Some(header_views(headers@))),
            Ok(None) => request_headers_of(*heap, module, request, parses@) == Ok::<
                Option<Seq<(Seq<char>, Seq<char>)>>,
                Failure,
            >(None),
            Err(failure) => request_headers_of(*heap, module, request, parses@) == Err::<
                Option<Seq<(Seq<char>, Seq<char>)>>,
                Failure,
            >(failure),
        },
{
    let store = match read_header_store(heap, module, request) {
        Err(failure) => {
            return Err(failure);
        },
        Ok(None) => {
            return Ok(None);
        },
        Ok(Some(store)) => store,
    };
    let entries = match heap.pairs(store) {
        Some(entries) => entries,
        None => {
            return Err(Failure::Attribute);
        },
    };
    let ghost items = crate::behavior::values_of(entries@);
    let mut headers: Vec<HeaderPair> = Vec::new();
    let mut index: usize = 0;
    assert(items.take(0) =~= Seq::<usize>::empty());
    assert(header_views(headers@) =~= Seq::<(Seq<char>, Seq<char>)>::empty());
    while index < entries.len()
        invariant
            index <= entries.len(),
            items == crate::behavior::values_of(entries@),
            items.len() == entries.len(),
            header_store(*heap, module, request) == Ok::<Option<usize>, Failure>(Some(store)),
            heap.pairs_of(store) == Some(entries@),
            headers_of(*heap, items.take(index as int), parses@) == Ok::<
                Option<Seq<(Seq<char>, Seq<char>)>>,
                Failure,
            >(Some(header_views(headers@))),
        decreases entries.len() - index,
    {
        let ghost before = header_views(headers@);
        proof {
            assert(items.take(index + 1).drop_last() =~= items.take(index as int));
            assert(items.take(index + 1).last() == entries@[index as int].value);
            if !(headers_of(*heap, items.take(index + 1), parses@) matches Ok(Some(_))) {
                lemma_headers_stop(*heap, items, parses@, index + 1);
            }
        }
        let pair = match heap.tuple(entries[index].value) {
            Some(pair) => pair,
            None => {
                return Err(Failure::Kind);
            },
        };
        if pair.len() != 2 || !heap.exactly(pair[0], heap.intrinsics.text) || !heap.exactly(
            pair[1],
            heap.intrinsics.text,
        ) {
            return Ok(None);
        }
        match (heap.text(pair[0]), heap.text(pair[1])) {
            (Some(name), Some(value)) => {
                if index >= parses.len() || !parses[index] {
                    return Ok(None);
                }
                let header = HeaderPair {
                    name: String::from_str(name.as_str()),
                    value: String::from_str(value.as_str()),
                };
                headers.push(header);
                assert(header_views(headers@) =~= before.push((name@, value@)));
            },
            _ => {
                return Err(Failure::Kind);
            },
        }
        index = index + 1;
    }
    assert(items.take(index as int) =~= items);
    Ok(Some(headers))
}

/// The body of a request, where it is none or an exact byte string.
pub open spec fn body_of(heap: Heap, request: usize) -> Result<Option<Option<Seq<u8>>>, Failure> {
    match heap.attribute_of(request, "body"@) {
        None => Err(Failure::Attribute),
        Some(body) => if heap.is_none_value(body) {
            Ok(Some(None))
        } else if heap.is_exactly(body, heap.intrinsics.bytes) {
            match heap.bytes_of(body) {
                Some(bytes) => Ok(Some(Some(bytes))),
                None => Err(Failure::Kind),
            }
        } else {
            Ok(None)
        },
    }
}

/// The bytes of a body that may be missing.
pub open spec fn body_view(body: Option<Vec<u8>>) -> Option<Seq<u8>> {
    match body {
        Some(bytes) => Some(bytes@),
        None => None,
    }
}

/// A copy of a byte string.
pub fn copied_bytes(bytes: &Vec<u8>) -> (copy: Vec<u8>)
    ensures
        copy@ == bytes@,
{
    let mut copy: Vec<u8> = Vec::new();
    let mut index: usize = 0;
    while index < bytes.len()
        invariant
            index <= bytes.len(),
            copy@ == bytes@.take(index as int),
        decreases bytes.len() - index,
    {
        copy.push(bytes[index]);
        index = index + 1;
        assert(copy@ =~= bytes@.take(index as int));
    }
    assert(bytes@.take(index as int) =~= bytes@);
    copy
}

/// Reads the body of a request.
pub fn request_body(heap: &Heap, request: usize) -> (body: Result<Option<Option<Vec<u8>>>, Failure>)
    ensures
        match body {
            Ok(Some(body)) => body_of(*heap, request) == Ok::<Option<Option<Seq<u8>>>, Failure>(
                Some(body_view(body)),
            ),
            Ok(None) => body_of(*heap, request) == Ok::<Option<Option<Seq<u8>>>, Failure>(None),
            Err(failure) => body_of(*heap, request) == Err::<Option<Option<Seq<u8>>>, Failure>(
                failure,
            ),
        },
{
    match heap.attribute(request, "body") {
        None => Err(Failure::Attribute),
        Some(body) => {
            if heap.none_value(body) {
                return Ok(Some(None));
            }
            if !heap.exactly(body, heap.intrinsics.bytes) {
                return Ok(None);
            }
            match heap.bytes(body) {
                Some(bytes) => Ok(Some(Some(copied_bytes(bytes)))),
                None => Err(Failure::Kind),
            }
        },
    }
}

/// The settings of an adapter's pools.
#[derive(Clone, Copy, Debug, PartialEq, Eq, Structural)]
pub struct PoolSettings {
    pub pool_maxsize: usize,
    pub pool_connections: usize,
    pub pool_block: bool,
}

impl PoolSettings {
    /// How a proxy manager has to be configured for these settings.
    pub fn configuration(&self) -> (configuration: ProxyManagerConfiguration)
        ensures
            configuration.pool_connections == self.pool_connections,
            configuration.pool_maxsize == self.pool_maxsize,
            configuration.pool_block == self.pool_block,
    {
        ProxyManagerConfiguration {
            pool_connections: self.pool_connections,
            pool_maxsize: self.pool_maxsize,
            pool_block: self.pool_block,
        }
    }
}

/// The settings of an adapter whose configuration is empty.
pub open spec fn settings_of(heap: Heap, adapter: usize) -> Result<PoolSettings, AdmissionStop> {
    match heap.attribute_of(adapter, "config"@) {
        None => Err(AdmissionStop::Failed(Failure::Attribute)),
        Some(config) => match exact_dict_of(heap, config) {
            None => Err(AdmissionStop::Refused(AdmissionRefusal::Config)),
            Some(entries) => if entries.len() != 0 {
                Err(AdmissionStop::Refused(AdmissionRefusal::Config))
            } else {
                match heap.attribute_of(adapter, "_pool_maxsize"@) {
                    None => Err(AdmissionStop::Failed(Failure::Attribute)),
                    Some(maxsize) => match usize_value(heap, maxsize) {
                        None => Err(AdmissionStop::Refused(AdmissionRefusal::PoolMaximum)),
                        Some(pool_maxsize) => if pool_maxsize == 0 {
                            Err(AdmissionStop::Refused(AdmissionRefusal::ZeroPool))
                        } else {
                            match heap.attribute_of(adapter, "_pool_connections"@) {
                                None => Err(AdmissionStop::Failed(Failure::Attribute)),
                                Some(connections) => match usize_value(heap, connections) {
                                    None => Err(
                                        AdmissionStop::Refused(AdmissionRefusal::PoolSettings),
                                    ),
                                    Some(pool_connections) => match heap.attribute_of(
                                        adapter,
                                        "_pool_block"@,
                                    ) {
                                        None => Err(AdmissionStop::Failed(Failure::Attribute)),
                                        Some(block) => match exact_bool_value(heap, block) {
                                            None => Err(
                                                AdmissionStop::Refused(
                                                    AdmissionRefusal::PoolSettings,
                                                ),
                                            ),
                                            Some(pool_block) => Ok(
                                                PoolSettings {
                                                    pool_maxsize,
                                                    pool_connections,
                                                    pool_block,
                                                },
                                            ),
                                        },
                                    },
                                },
                            }
                        },
                    },
                }
            },
        },
    }
}

/// Reads the settings of an adapter.
fn read_settings(heap: &Heap, adapter: usize) -> (settings: Result<PoolSettings, AdmissionStop>)
    ensures
        settings == settings_of(*heap, adapter),
{
    match heap.attribute(adapter, "config") {
        None => {
            return Err(AdmissionStop::Failed(Failure::Attribute));
        },
        Some(config) => match exact_dict(heap, config) {
            None => {
                return Err(AdmissionStop::Refused(AdmissionRefusal::Config));
            },
            Some(entries) => {
                if entries.len() != 0 {
                    return Err(AdmissionStop::Refused(AdmissionRefusal::Config));
                }
            },
        },
    }
    let pool_maxsize: usize = match heap.attribute(adapter, "_pool_maxsize") {
        None => {
            return Err(AdmissionStop::Failed(Failure::Attribute));
        },
        Some(maxsize) => match exact_usize(heap, maxsize) {
            None => {
                return Err(AdmissionStop::Refused(AdmissionRefusal::PoolMaximum));
            },
            Some(number) => number,
        },
    };
    if pool_maxsize == 0 {
        return Err(AdmissionStop::Refused(AdmissionRefusal::ZeroPool));
    }
    let pool_connections: usize = match heap.attribute(adapter, "_pool_connections") {
        None => {
            return Err(AdmissionStop::Failed(Failure::Attribute));
        },
        Some(connections) => match exact_usize(heap, connections) {
            None => {
                return Err(AdmissionStop::Refused(AdmissionRefusal::PoolSettings));
            },
            Some(number) => number,
        },
    };
    match heap.attribute(adapter, "_pool_block") {
        None => Err(AdmissionStop::Failed(Failure::Attribute)),
        Some(block) => match exact_bool(heap, block) {
            None => Err(AdmissionStop::Refused(AdmissionRefusal::PoolSettings)),
            Some(pool_block) => Ok(PoolSettings { pool_maxsize, pool_connections, pool_block }),
        },
    }
}

/// An exact text that an object holds under a name.
pub open spec fn text_argument(
    heap: Heap,
    object: usize,
    name: Seq<char>,
    refusal: AdmissionRefusal,
) -> Result<Seq<char>, AdmissionStop> {
    match heap.attribute_of(object, name) {
        None => Err(AdmissionStop::Failed(Failure::Attribute)),
        Some(value) => if !heap.is_exactly(value, heap.intrinsics.text) {
            Err(AdmissionStop::Refused(refusal))
        } else {
            match heap.text_of(value) {
                None => Err(AdmissionStop::Failed(Failure::Kind)),
                Some(text) => Ok(text),
            }
        },
    }
}

/// An exact text that an object holds under a name.
fn read_text(heap: &Heap, object: usize, name: &str, refusal: AdmissionRefusal) -> (text: Result<
    String,
    AdmissionStop,
>)
    ensures
        match text {
            Ok(text) => text_argument(*heap, object, name@, refusal) == Ok::<
                Seq<char>,
                AdmissionStop,
            >(text@),
            Err(stop) => text_argument(*heap, object, name@, refusal) == Err::<
                Seq<char>,
                AdmissionStop,
            >(stop),
        },
{
    match heap.attribute(object, name) {
        None => Err(AdmissionStop::Failed(Failure::Attribute)),
        Some(value) => {
            if !heap.exactly(value, heap.intrinsics.text) {
                return Err(AdmissionStop::Refused(refusal));
            }
            match heap.text(value) {
                None => Err(AdmissionStop::Failed(Failure::Kind)),
                Some(text) => Ok(String::from_str(text.as_str())),
            }
        },
    }
}

/// What parsing a request's URL gave.
pub struct UrlFacts {
    pub scheme: Option<String>,
    pub has_authority: bool,
    pub host: String,
    pub port: Option<u16>,
}

/// What was found of a request outside of Python.
pub struct OutsideFacts {
    /// Whether the method is one of HTTP.
    pub method_parses: bool,
    /// What the URL parses to, where it does.
    pub url: Option<UrlFacts>,
    /// Of each header, whether its name and value parse.
    pub headers_parse: Vec<bool>,
}

/// Whether a URL parses, with a scheme and an authority.
pub open spec fn is_absolute(url: Option<UrlFacts>) -> bool {
    url matches Some(url) && url.scheme is Some && url.has_authority
}

/// The arguments of a send.
#[derive(Clone, Copy, Debug, PartialEq, Eq, Structural)]
pub struct SendArguments {
    pub adapter: usize,
    pub request: usize,
    pub timeout: usize,
    pub verify: usize,
    pub cert: usize,
}

/// What is read of a request before its proxy is selected.
pub struct SendDraft {
    pub settings: PoolSettings,
    pub method: String,
    pub url: String,
    pub headers: Vec<HeaderPair>,
    pub body: Option<Vec<u8>>,
    pub retry: RetrySnapshot,
    pub timeout: TimeoutPlan,
    pub tls: TlsPlan,
}

/// What a draft says.
pub struct DraftView {
    pub settings: PoolSettings,
    pub method: Seq<char>,
    pub url: Seq<char>,
    pub headers: Seq<(Seq<char>, Seq<char>)>,
    pub body: Option<Seq<u8>>,
    pub retry: RetryView,
    pub timeout: TimeoutPlan,
    pub tls: TlsView,
}

impl View for SendDraft {
    type V = DraftView;

    open spec fn view(&self) -> DraftView {
        DraftView {
            settings: self.settings,
            method: self.method@,
            url: self.url@,
            headers: header_views(self.headers@),
            body: body_view(self.body),
            retry: self.retry@,
            timeout: self.timeout,
            tls: self.tls@,
        }
    }
}

/// The retries of an adapter.
pub open spec fn retries_of(heap: Heap, guard: RetryGuard, adapter: usize) -> Result<
    RetryView,
    AdmissionStop,
> {
    match heap.attribute_of(adapter, "max_retries"@) {
        None => Err(AdmissionStop::Failed(Failure::Attribute)),
        Some(retry) => match retry_read(heap, guard, retry) {
            Ok(view) => Ok(view),
            Err(Stop::Refused(refusal)) => Err(
                AdmissionStop::Refused(AdmissionRefusal::Retry(refusal)),
            ),
            Err(Stop::Failed(failure)) => Err(AdmissionStop::Failed(failure)),
        },
    }
}

/// Reads the retries of an adapter.
fn read_retries(heap: &Heap, guard: &RetryGuard, adapter: usize) -> (retries: Result<
    RetrySnapshot,
    AdmissionStop,
>)
    ensures
        match retries {
            Ok(retries) => retries_of(*heap, *guard, adapter) == Ok::<RetryView, AdmissionStop>(
                retries@,
            ),
            Err(stop) => retries_of(*heap, *guard, adapter) == Err::<RetryView, AdmissionStop>(
                stop,
            ),
        },
{
    match heap.attribute(adapter, "max_retries") {
        None => Err(AdmissionStop::Failed(Failure::Attribute)),
        Some(retry) => match retry_snapshot(heap, guard, retry) {
            Ok(snapshot) => Ok(snapshot),
            Err(Stop::Refused(refusal)) => Err(
                AdmissionStop::Refused(AdmissionRefusal::Retry(refusal)),
            ),
            Err(Stop::Failed(failure)) => Err(AdmissionStop::Failed(failure)),
        },
    }
}

/// The part of a request that is sent: method, URL, headers and body.
pub open spec fn message_of(
    heap: Heap,
    module: usize,
    request: usize,
    outside: OutsideFacts,
) -> Result<
    (Seq<char>, Seq<char>, Seq<(Seq<char>, Seq<char>)>, Option<Seq<u8>>),
    AdmissionStop,
> {
    match text_argument(heap, request, "method"@, AdmissionRefusal::Method) {
        Err(stop) => Err(stop),
        Ok(method) => if !outside.method_parses {
            Err(AdmissionStop::Refused(AdmissionRefusal::Method))
        } else {
            match text_argument(heap, request, "url"@, AdmissionRefusal::Url) {
                Err(stop) => Err(stop),
                Ok(url) => if !is_absolute(outside.url) {
                    Err(AdmissionStop::Refused(AdmissionRefusal::Url))
                } else {
                    match request_headers_of(heap, module, request, outside.headers_parse@) {
                        Err(failure) => Err(AdmissionStop::Failed(failure)),
                        Ok(None) => Err(AdmissionStop::Refused(AdmissionRefusal::Headers)),
                        Ok(Some(headers)) => match body_of(heap, request) {
                            Err(failure) => Err(AdmissionStop::Failed(failure)),
                            Ok(None) => Err(AdmissionStop::Refused(AdmissionRefusal::Body)),
                            Ok(Some(body)) => Ok((method, url, headers, body)),
                        },
                    }
                },
            }
        },
    }
}

/// What is read of a request before its proxy is selected, in order; or what
/// stops the admission first.
pub open spec fn draft_of(
    heap: Heap,
    state: AdapterView,
    guard: RetryGuard,
    arguments: SendArguments,
    outside: OutsideFacts,
) -> Result<DraftView, AdmissionStop> {
    match identity_pristine(heap, state, arguments.adapter, arguments.request) {
        Err(failure) => Err(AdmissionStop::Failed(failure)),
        Ok(false) => Err(AdmissionStop::Refused(AdmissionRefusal::Identity)),
        Ok(true) => match settings_of(heap, arguments.adapter) {
            Err(stop) => Err(stop),
            Ok(settings) => match message_of(
                heap,
                state.adapters_module,
                arguments.request,
                outside,
            ) {
                Err(stop) => Err(stop),
                Ok((method, url, headers, body)) => match retries_of(
                    heap,
                    guard,
                    arguments.adapter,
                ) {
                    Err(stop) => Err(stop),
                    Ok(retry) => match timeout_of(
                        heap,
                        state.adapters_module,
                        arguments.timeout,
                    ) {
                        Err(failure) => Err(AdmissionStop::Failed(failure)),
                        Ok(None) => Err(AdmissionStop::Refused(AdmissionRefusal::Timeout)),
                        Ok(Some(timeout)) => match tls_of(
                            heap,
                            state.adapters_module,
                            arguments.verify,
                            arguments.cert,
                        ) {
                            Err(failure) => Err(AdmissionStop::Failed(failure)),
                            Ok(None) => Err(AdmissionStop::Refused(AdmissionRefusal::Tls)),
                            Ok(Some(tls)) => Ok(
                                DraftView {
                                    settings,
                                    method,
                                    url,
                                    headers,
                                    body,
                                    retry,
                                    timeout,
                                    tls,
                                },
                            ),
                        },
                    },
                },
            },
        },
    }
}

/// Reads the part of a request that is sent.
fn read_message(heap: &Heap, module: usize, request: usize, outside: &OutsideFacts) -> (message:
    Result<(String, String, Vec<HeaderPair>, Option<Vec<u8>>), AdmissionStop>)
    ensures
        match message {
            Ok((method, url, headers, body)) => message_of(*heap, module, request, *outside) == Ok::<
                (Seq<char>, Seq<char>, Seq<(Seq<char>, Seq<char>)>, Option<Seq<u8>>),
                AdmissionStop,
            >((method@, url@, header_views(headers@), body_view(body))),
            Err(stop) => message_of(*heap, module, request, *outside) == Err::<
                (Seq<char>, Seq<char>, Seq<(Seq<char>, Seq<char>)>, Option<Seq<u8>>),
                AdmissionStop,
            >(stop),
        },
{
    let method = match read_text(heap, request, "method", AdmissionRefusal::Method) {
        Ok(method) => method,
        Err(stop) => {
            return Err(stop);
        },
    };
    if !outside.method_parses {
        return Err(AdmissionStop::Refused(AdmissionRefusal::Method));
    }
    let url = match read_text(heap, request, "url", AdmissionRefusal::Url) {
        Ok(url) => url,
        Err(stop) => {
            return Err(stop);
        },
    };
    let absolute = match &outside.url {
        Some(facts) => facts.scheme.is_some() && facts.has_authority,
        None => false,
    };
    if !absolute {
        return Err(AdmissionStop::Refused(AdmissionRefusal::Url));
    }
    let headers = match request_headers(heap, module, request, &outside.headers_parse) {
        Err(failure) => {
            return Err(AdmissionStop::Failed(failure));
        },
        Ok(None) => {
            return Err(AdmissionStop::Refused(AdmissionRefusal::Headers));
        },
        Ok(Some(headers)) => headers,
    };
    match request_body(heap, request) {
        Err(failure) => Err(AdmissionStop::Failed(failure)),
        Ok(None) => Err(AdmissionStop::Refused(AdmissionRefusal::Body)),
        Ok(Some(body)) => Ok((method, url, headers, body)),
    }
}

/// Reads a request before its proxy is selected.
pub fn begin_send_input(
    heap: &Heap,
    state: &AdapterState,
    guard: &RetryGuard,
    arguments: SendArguments,
    outside: &OutsideFacts,
) -> (draft: Result<SendDraft, AdmissionStop>)
    ensures
        match draft {
            Ok(draft) => draft_of(*heap, state@, *guard, arguments, *outside) == Ok::<
                DraftView,
                AdmissionStop,
            >(draft@),
            Err(stop) => draft_of(*heap, state@, *guard, arguments, *outside) == Err::<
                DraftView,
                AdmissionStop,
            >(stop),
        },
{
    match adapter_identity_is_pristine(heap, state, arguments.adapter, arguments.request) {
        Err(failure) => {
            return Err(AdmissionStop::Failed(failure));
        },
        Ok(pristine) => {
            if !pristine {
                return Err(AdmissionStop::Refused(AdmissionRefusal::Identity));
            }
        },
    }
    let settings = match read_settings(heap, arguments.adapter) {
        Ok(settings) => settings,
        Err(stop) => {
            return Err(stop);
        },
    };
    let (method, url, headers, body) = match read_message(
        heap,
        state.adapters_module,
        arguments.request,
        outside,
    ) {
        Ok(message) => message,
        Err(stop) => {
            return Err(stop);
        },
    };
    let retry = match read_retries(heap, guard, arguments.adapter) {
        Ok(retry) => retry,
        Err(stop) => {
            return Err(stop);
        },
    };
    let timeout = match timeout_value(heap, state.adapters_module, arguments.timeout) {
        Err(failure) => {
            return Err(AdmissionStop::Failed(failure));
        },
        Ok(None) => {
            return Err(AdmissionStop::Refused(AdmissionRefusal::Timeout));
        },
        Ok(Some(timeout)) => timeout,
    };
    match tls_value(heap, state.adapters_module, arguments.verify, arguments.cert) {
        Err(failure) => Err(AdmissionStop::Failed(failure)),
        Ok(None) => Err(AdmissionStop::Refused(AdmissionRefusal::Tls)),
        Ok(Some(tls)) => Ok(
            SendDraft { settings, method, url, headers, body, retry, timeout, tls },
        ),
    }
}

/// Whether two lists hold the same texts.
pub open spec fn same_texts(left: Seq<Seq<char>>, right: Seq<Seq<char>>) -> bool {
    (forall|index: int| 0 <= index < left.len() ==> right.contains(#[trigger] left[index])) && (
    forall|index: int| 0 <= index < right.len() ==> left.contains(#[trigger] right[index]))
}

/// Whether two lists hold the same numbers.
pub open spec fn same_codes(left: Seq<u16>, right: Seq<u16>) -> bool {
    (forall|index: int| 0 <= index < left.len() ==> right.contains(#[trigger] left[index])) && (
    forall|index: int| 0 <= index < right.len() ==> left.contains(#[trigger] right[index]))
}

/// Whether two numbers that are not negative are equal, given by their bits:
/// both zeros are.
pub open spec fn same_amount(left: u64, right: u64) -> bool {
    left == right || (is_zero(left) && is_zero(right))
}

/// Whether the bits are those of a zero.
pub open spec fn is_zero(bits: u64) -> bool {
    bits == 0 || bits == 0x8000_0000_0000_0000
}

/// Whether two readings of retries say the same. Methods and status codes are
/// sets.
pub open spec fn same_retries(left: RetryView, right: RetryView) -> bool {
    &&& left.version == right.version
    &&& left.counters == right.counters
    &&& match (left.allowed_methods, right.allowed_methods) {
        (None, None) => true,
        (Some(left), Some(right)) => same_texts(left, right),
        _ => false,
    }
    &&& same_codes(left.status_forcelist, right.status_forcelist)
    &&& same_amount(left.backoff.factor, right.backoff.factor)
    &&& same_amount(left.backoff.maximum, right.backoff.maximum)
    &&& same_amount(left.backoff.jitter, right.backoff.jitter)
    &&& left.switches == right.switches
    &&& left.retry_after_max == right.retry_after_max
    &&& left.history == right.history
}

/// Whether a list holds a text.
fn lists_method(methods: &Vec<String>, method: &str) -> (found: bool)
    ensures
        found == text_views(methods@).contains(method@),
{
    let mut index: usize = 0;
    let ghost views = text_views(methods@);
    while index < methods.len()
        invariant
            index <= methods.len(),
            views == text_views(methods@),
            forall|i: int| 0 <= i < index ==> views[i] != method@,
        decreases methods.len() - index,
    {
        assert(views[index as int] == methods@[index as int]@);
        if same_text(methods[index].as_str(), method) {
            assert(views.contains(method@));
            return true;
        }
        index = index + 1;
    }
    false
}

/// Whether every text of a list is in another.
fn methods_within(left: &Vec<String>, right: &Vec<String>) -> (within: bool)
    ensures
        within == (forall|index: int|
            0 <= index < left@.len() ==> text_views(right@).contains(
                #[trigger] text_views(left@)[index],
            )),
{
    let mut index: usize = 0;
    let ghost views = text_views(left@);
    while index < left.len()
        invariant
            index <= left.len(),
            views == text_views(left@),
            forall|i: int| 0 <= i < index ==> text_views(right@).contains(#[trigger] views[i]),
        decreases left.len() - index,
    {
        assert(views[index as int] == left@[index as int]@);
        if !lists_method(right, left[index].as_str()) {
            assert(!text_views(right@).contains(views[index as int]));
            return false;
        }
        index = index + 1;
    }
    true
}

/// Whether a list holds a number.
fn lists_code(codes: &Vec<u16>, code: u16) -> (found: bool)
    ensures
        found == codes@.contains(code),
{
    let mut index: usize = 0;
    while index < codes.len()
        invariant
            index <= codes.len(),
            forall|i: int| 0 <= i < index ==> codes@[i] != code,
        decreases codes.len() - index,
    {
        if codes[index] == code {
            assert(codes@[index as int] == code);
            return true;
        }
        index = index + 1;
    }
    false
}

/// Whether every number of a list is in another.
fn codes_within(left: &Vec<u16>, right: &Vec<u16>) -> (within: bool)
    ensures
        within == (forall|index: int|
            0 <= index < left@.len() ==> right@.contains(#[trigger] left@[index])),
{
    let mut index: usize = 0;
    while index < left.len()
        invariant
            index <= left.len(),
            forall|i: int| 0 <= i < index ==> right@.contains(#[trigger] left@[i]),
        decreases left.len() - index,
    {
        if !lists_code(right, left[index]) {
            assert(!right@.contains(left@[index as int]));
            return false;
        }
        index = index + 1;
    }
    true
}

/// Whether two texts that may be missing are the same.
fn same_optional_text(left: &Option<String>, right: &Option<String>) -> (same: bool)
    ensures
        same == (optional_view(*left) == optional_view(*right)),
{
    match (left, right) {
        (None, None) => true,
        (Some(left), Some(right)) => same_text(left.as_str(), right.as_str()),
        _ => false,
    }
}

/// Whether two histories are the same.
fn same_history(left: &Vec<HistoryRow>, right: &Vec<HistoryRow>) -> (same: bool)
    ensures
        same == (history_views(left@) == history_views(right@)),
{
    let ghost left_views = history_views(left@);
    let ghost right_views = history_views(right@);
    assert(left_views.len() == left@.len());
    assert(right_views.len() == right@.len());
    if left.len() != right.len() {
        return false;
    }
    let mut index: usize = 0;
    while index < left.len()
        invariant
            index <= left.len(),
            left.len() == right.len(),
            left_views == history_views(left@),
            right_views == history_views(right@),
            left_views.len() == left@.len(),
            right_views.len() == right@.len(),
            left_views.take(index as int) =~= right_views.take(index as int),
        decreases left.len() - index,
    {
        let first = &left[index];
        let second = &right[index];
        assert(left_views[index as int] == first@);
        assert(right_views[index as int] == second@);
        let same_status = match (first.status, second.status) {
            (None, None) => true,
            (Some(first), Some(second)) => first == second,
            _ => false,
        };
        if !same_text(first.method.as_str(), second.method.as_str()) || !same_text(
            first.url.as_str(),
            second.url.as_str(),
        ) || !same_status || !same_optional_text(
            &first.redirect_location,
            &second.redirect_location,
        ) {
            return false;
        }
        index = index + 1;
    }
    assert(left_views.take(index as int) =~= left_views);
    assert(right_views.take(index as int) =~= right_views);
    true
}

/// Whether two numbers that are not negative are equal, given by their bits.
fn amounts_equal(left: u64, right: u64) -> (same: bool)
    ensures
        same == same_amount(left, right),
{
    left == right || ((left == 0 || left == 0x8000_0000_0000_0000) && (right == 0 || right
        == 0x8000_0000_0000_0000))
}

/// Whether two readings of retries say the same.
pub fn retries_equal(left: &RetrySnapshot, right: &RetrySnapshot) -> (same: bool)
    ensures
        same == same_retries(left@, right@),
{
    let methods = match (&left.allowed_methods, &right.allowed_methods) {
        (None, None) => true,
        (Some(first), Some(second)) => {
            assert(text_views(first@).len() == first@.len());
            assert(text_views(second@).len() == second@.len());
            methods_within(first, second) && methods_within(second, first)
        },
        _ => false,
    };
    let limits = match (left.retry_after_max, right.retry_after_max) {
        (None, None) => true,
        (Some(first), Some(second)) => first == second,
        _ => false,
    };
    same_text(left.version.as_str(), right.version.as_str()) && left.counters == right.counters
        && methods && codes_within(&left.status_forcelist, &right.status_forcelist)
        && codes_within(&right.status_forcelist, &left.status_forcelist) && amounts_equal(
        left.backoff.factor,
        right.backoff.factor,
    ) && amounts_equal(left.backoff.maximum, right.backoff.maximum) && amounts_equal(
        left.backoff.jitter,
        right.backoff.jitter,
    ) && left.switches == right.switches && limits && same_history(&left.history, &right.history)
}

/// The port that a URL stands for: its own, else that of its scheme.
pub open spec fn effective_port(scheme: Seq<char>, port: Option<u16>) -> Option<u16> {
    match port {
        Some(port) => Some(port),
        None => if scheme == "http"@ {
            Some(80)
        } else if scheme == "https"@ {
            Some(443)
        } else {
            None
        },
    }
}

/// The key of the pool that a request uses: where it goes, through which proxy,
/// how it is encrypted and how large the pool is. `proxy` and `tls` tell the
/// proxies and the kinds of encryption apart.
pub open spec fn pool_key_of(
    scheme: Seq<char>,
    host: Seq<char>,
    port: Option<u16>,
    proxy: Seq<char>,
    tls: Seq<char>,
    maxsize: usize,
) -> Seq<char> {
    lowered(scheme) + "://"@ + lowered(host) + ":"@ + (match effective_port(lowered(scheme), port) {
        Some(number) => decimal(number as nat),
        None => Seq::empty(),
    }) + "|"@ + proxy + "|"@ + tls + "|"@ + decimal(maxsize as nat)
}

/// The key of the pool that a request uses.
pub fn pool_key(
    scheme: &str,
    host: &str,
    port: Option<u16>,
    proxy: &str,
    tls: &str,
    maxsize: usize,
) -> (key: String)
    ensures
        key@ == pool_key_of(scheme@, host@, port, proxy@, tls@, maxsize),
{
    let lower = lower_text(scheme);
    let effective: Option<u16> = match port {
        Some(port) => Some(port),
        None => if same_text(lower.as_str(), "http") {
            Some(80)
        } else if same_text(lower.as_str(), "https") {
            Some(443)
        } else {
            None
        },
    };
    let mut key = String::from_str(lower.as_str());
    key.append("://");
    key.append(lower_text(host).as_str());
    key.append(":");
    let digits = match effective {
        Some(number) => render_decimal(number as u64),
        None => String::new(),
    };
    assert(digits@ =~= (match effective_port(lowered(scheme@), port) {
        Some(number) => decimal(number as nat),
        None => Seq::empty(),
    }));
    key.append(digits.as_str());
    key.append("|");
    key.append(proxy);
    key.append("|");
    key.append(tls);
    key.append("|");
    key.append(render_decimal(maxsize as u64).as_str());
    key
}

/// The URL that `urllib3` would be asked for: the whole one through a proxy,
/// else the path.
pub open spec fn urllib3_url_of(heap: Heap, request: usize, url: Seq<char>, through_proxy: bool) -> Result<
    Seq<char>,
    AdmissionStop,
> {
    if through_proxy {
        Ok(url)
    } else {
        text_argument(heap, request, "path_url"@, AdmissionRefusal::PathUrl)
    }
}

/// What an admission comes to after the proxy was selected. `registered` tells
/// whether the registered adapter is what it was; it counts only where the
/// identities are pristine.
pub open spec fn finished(
    heap: Heap,
    state: AdapterView,
    guard: RetryGuard,
    arguments: SendArguments,
    draft: DraftView,
    through_proxy: bool,
    registered: Check,
) -> Result<Seq<char>, AdmissionStop> {
    match urllib3_url_of(heap, arguments.request, draft.url, through_proxy) {
        Err(stop) => Err(stop),
        Ok(url) => match both(
            identity_pristine(heap, state, arguments.adapter, arguments.request),
            registered,
        ) {
            Err(failure) => Err(AdmissionStop::Failed(failure)),
            Ok(false) => Err(AdmissionStop::Refused(AdmissionRefusal::IdentityChanged)),
            Ok(true) => match retries_of(heap, guard, arguments.adapter) {
                Err(stop) => Err(stop),
                Ok(retries) => if same_retries(retries, draft.retry) {
                    Ok(url)
                } else {
                    Err(AdmissionStop::Refused(AdmissionRefusal::RetryChanged))
                },
            },
        },
    }
}

/// Finishes an admission after the proxy was selected.
pub fn finish_send_input(
    heap: &Heap,
    state: &AdapterState,
    guard: &RetryGuard,
    arguments: SendArguments,
    draft: &SendDraft,
    through_proxy: bool,
    registered: Check,
) -> (url: Result<String, AdmissionStop>)
    ensures
        match url {
            Ok(url) => finished(
                *heap,
                state@,
                *guard,
                arguments,
                draft@,
                through_proxy,
                registered,
            ) == Ok::<Seq<char>, AdmissionStop>(url@),
            Err(stop) => finished(
                *heap,
                state@,
                *guard,
                arguments,
                draft@,
                through_proxy,
                registered,
            ) == Err::<Seq<char>, AdmissionStop>(stop),
        },
{
    let url = if through_proxy {
        String::from_str(draft.url.as_str())
    } else {
        match read_text(heap, arguments.request, "path_url", AdmissionRefusal::PathUrl) {
            Ok(url) => url,
            Err(stop) => {
                return Err(stop);
            },
        }
    };
    let pristine = match adapter_identity_is_pristine(
        heap,
        state,
        arguments.adapter,
        arguments.request,
    ) {
        Ok(true) => registered,
        other => other,
    };
    match pristine {
        Err(failure) => {
            return Err(AdmissionStop::Failed(failure));
        },
        Ok(pristine) => {
            if !pristine {
                return Err(AdmissionStop::Refused(AdmissionRefusal::IdentityChanged));
            }
        },
    }
    match read_retries(heap, guard, arguments.adapter) {
        Err(stop) => Err(stop),
        Ok(retries) => if retries_equal(&retries, &draft.retry) {
            Ok(url)
        } else {
            Err(AdmissionStop::Refused(AdmissionRefusal::RetryChanged))
        },
    }
}

/// Whether a request leaves native sending at once: it asks for no verification
/// of certificates.
pub fn is_unverified(heap: &Heap, verify: usize) -> (unverified: bool)
    ensures
        unverified == (exact_bool_value(*heap, verify) == Some(false)),
{
    match exact_bool(heap, verify) {
        Some(wanted) => !wanted,
        None => false,
    }
}

/// A reading of retries says the same as itself, so that an adapter whose
/// retries did not change is never refused for it.
pub proof fn law_unchanged_retries_are_the_same(retries: RetryView)
    ensures
        same_retries(retries, retries),
{
}

/// The port of a pool's key.
pub open spec fn port_text(port: Option<u16>) -> Seq<char> {
    match port {
        Some(number) => decimal(number as nat),
        None => Seq::empty(),
    }
}

/// Different ports are written differently.
proof fn lemma_port_text(first: Option<u16>, second: Option<u16>)
    requires
        port_text(first) == port_text(second),
    ensures
        first == second,
{
    match first {
        Some(number) => crate::text::law_decimal_reads_back(number as nat, u16::MAX as nat),
        None => {},
    }
    match second {
        Some(number) => crate::text::law_decimal_reads_back(number as nat, u16::MAX as nat),
        None => {},
    }
}

/// Two requests that agree in scheme and host, whatever the case, in the proxy,
/// in the TLS settings and in the size of the pools use one pool exactly where
/// they go to the same port: the one that is written out, else that of the
/// scheme.
pub proof fn law_same_port_shares_the_pool(
    scheme: Seq<char>,
    other_scheme: Seq<char>,
    host: Seq<char>,
    other_host: Seq<char>,
    port: Option<u16>,
    other_port: Option<u16>,
    proxy: Seq<char>,
    tls: Seq<char>,
    maxsize: usize,
)
    requires
        lowered(scheme) == lowered(other_scheme),
        lowered(host) == lowered(other_host),
    ensures
        pool_key_of(scheme, host, port, proxy, tls, maxsize) == pool_key_of(
            other_scheme,
            other_host,
            other_port,
            proxy,
            tls,
            maxsize,
        ) <==> effective_port(lowered(scheme), port) == effective_port(
            lowered(scheme),
            other_port,
        ),
{
    let first = effective_port(lowered(scheme), port);
    let second = effective_port(lowered(scheme), other_port);
    let before = lowered(scheme) + "://"@ + lowered(host) + ":"@;
    let after = "|"@ + proxy + "|"@ + tls + "|"@ + decimal(maxsize as nat);
    let key = pool_key_of(scheme, host, port, proxy, tls, maxsize);
    let other_key = pool_key_of(other_scheme, other_host, other_port, proxy, tls, maxsize);
    assert(key =~= before + port_text(first) + after);
    assert(other_key =~= before + port_text(second) + after);
    if key == other_key {
        assert(key.len() == before.len() + port_text(first).len() + after.len());
        assert(other_key.len() == before.len() + port_text(second).len() + after.len());
        let start = before.len() as int;
        let end = start + port_text(first).len();
        assert(key.subrange(start, end) =~= port_text(first));
        assert(other_key.subrange(start, end) =~= port_text(second));
        lemma_port_text(first, second);
    }
}

/// A request uses the same pool whether the port of its scheme is written out or
/// not.
pub proof fn law_default_port_shares_the_pool(
    scheme: Seq<char>,
    host: Seq<char>,
    proxy: Seq<char>,
    tls: Seq<char>,
    maxsize: usize,
)
    ensures
        lowered(scheme) == "http"@ ==> pool_key_of(scheme, host, None, proxy, tls, maxsize)
            == pool_key_of(scheme, host, Some(80), proxy, tls, maxsize),
        lowered(scheme) == "https"@ ==> pool_key_of(scheme, host, None, proxy, tls, maxsize)
            == pool_key_of(scheme, host, Some(443), proxy, tls, maxsize),
{
    reveal_strlit("http");
    reveal_strlit("https");
    assert("http"@.len() != "https"@.len());
}

/// What an admission does next.
#[derive(Clone, Copy, Debug, PartialEq, Eq, Structural)]
pub enum AdmitCall {
    /// Read the adapter, the request and the settings.
    Begin,
    /// May the `proxies` argument be handed on?
    CheckProxies,
    /// Have Python select the proxy.
    SelectProxy,
    /// Have Python complete the proxy's URL, and read its scheme.
    ReadScheme,
    /// Read everything that may have changed meanwhile once more.
    Finish { through_proxy: bool },
    /// The request is sent natively.
    Admitted { through_proxy: bool },
    /// The request is refused, or a reading failed.
    Stop(AdmissionStop),
    /// The error goes on.
    RaiseCurrent,
}

/// What happened.
#[derive(Clone, Copy, Debug, PartialEq, Eq, Structural)]
pub enum AdmitEvent {
    Done,
    Stopped(AdmissionStop),
    Supported(bool),
    Selected(SelectedProxy),
    Scheme(Option<ProxyKind>),
    Raised,
}

/// What an admission does after something happened. One that has ended stays as
/// it is.
pub open spec fn next_admit(call: AdmitCall, event: AdmitEvent) -> AdmitCall {
    match (call, event) {
        (AdmitCall::Admitted { .. }, _) => call,
        (AdmitCall::Stop(_), _) => call,
        (AdmitCall::Begin, AdmitEvent::Done) => AdmitCall::CheckProxies,
        (AdmitCall::Begin, AdmitEvent::Stopped(stop)) => AdmitCall::Stop(stop),
        (AdmitCall::CheckProxies, AdmitEvent::Supported(supported)) => if supported {
            AdmitCall::SelectProxy
        } else {
            AdmitCall::Stop(AdmissionStop::Refused(AdmissionRefusal::Proxy))
        },
        (AdmitCall::SelectProxy, AdmitEvent::Selected(selected)) => match selected {
            SelectedProxy::Direct => AdmitCall::Finish { through_proxy: false },
            SelectedProxy::Named => AdmitCall::ReadScheme,
            SelectedProxy::Unsupported => AdmitCall::Stop(
                AdmissionStop::Refused(AdmissionRefusal::Proxy),
            ),
        },
        (AdmitCall::ReadScheme, AdmitEvent::Scheme(kind)) => if kind is Some {
            AdmitCall::Finish { through_proxy: true }
        } else {
            AdmitCall::Stop(AdmissionStop::Refused(AdmissionRefusal::Proxy))
        },
        (AdmitCall::Finish { through_proxy }, AdmitEvent::Done) => AdmitCall::Admitted {
            through_proxy,
        },
        (AdmitCall::Finish { .. }, AdmitEvent::Stopped(stop)) => AdmitCall::Stop(stop),
        _ => AdmitCall::RaiseCurrent,
    }
}

/// Goes on with an admission after something happened.
pub fn continue_admission(call: AdmitCall, event: AdmitEvent) -> (next: AdmitCall)
    ensures
        next == next_admit(call, event),
{
    match (call, event) {
        (AdmitCall::Admitted { .. }, _) => call,
        (AdmitCall::Stop(_), _) => call,
        (AdmitCall::Begin, AdmitEvent::Done) => AdmitCall::CheckProxies,
        (AdmitCall::Begin, AdmitEvent::Stopped(stop)) => AdmitCall::Stop(stop),
        (AdmitCall::CheckProxies, AdmitEvent::Supported(supported)) => if supported {
            AdmitCall::SelectProxy
        } else {
            AdmitCall::Stop(AdmissionStop::Refused(AdmissionRefusal::Proxy))
        },
        (AdmitCall::SelectProxy, AdmitEvent::Selected(selected)) => match selected {
            SelectedProxy::Direct => AdmitCall::Finish { through_proxy: false },
            SelectedProxy::Named => AdmitCall::ReadScheme,
            SelectedProxy::Unsupported => AdmitCall::Stop(
                AdmissionStop::Refused(AdmissionRefusal::Proxy),
            ),
        },
        (AdmitCall::ReadScheme, AdmitEvent::Scheme(kind)) => match kind {
            Some(_) => AdmitCall::Finish { through_proxy: true },
            None => AdmitCall::Stop(AdmissionStop::Refused(AdmissionRefusal::Proxy)),
        },
        (AdmitCall::Finish { through_proxy }, AdmitEvent::Done) => AdmitCall::Admitted {
            through_proxy,
        },
        (AdmitCall::Finish { .. }, AdmitEvent::Stopped(stop)) => AdmitCall::Stop(stop),
        _ => AdmitCall::RaiseCurrent,
    }
}

/// What an admission does after a list of events.
pub open spec fn admit_after(events: Seq<AdmitEvent>) -> AdmitCall
    decreases events.len(),
{
    if events.len() == 0 {
        AdmitCall::Begin
    } else {
        next_admit(admit_after(events.drop_last()), events.last())
    }
}

/// A request is admitted only after the last reading, which comes after the
/// selection of a proxy, and it goes through a proxy only where one of a known
/// kind was selected.
pub proof fn law_admission_reads_twice(events: Seq<AdmitEvent>)
    ensures
        match admit_after(events) {
            AdmitCall::CheckProxies => events == seq![AdmitEvent::Done],
            AdmitCall::SelectProxy => events == seq![
                AdmitEvent::Done,
                AdmitEvent::Supported(true),
            ],
            AdmitCall::ReadScheme => events == seq![
                AdmitEvent::Done,
                AdmitEvent::Supported(true),
                AdmitEvent::Selected(SelectedProxy::Named),
            ],
            AdmitCall::Finish { through_proxy } => selects(events, through_proxy),
            AdmitCall::Admitted { through_proxy } => exists|count: int|
                0 <= count < events.len() && selects(#[trigger] events.take(count), through_proxy)
                    && events[count] is Done,
            _ => true,
        },
    decreases events.len(),
{
    if events.len() > 0 {
        let before = events.drop_last();
        law_admission_reads_twice(before);
        assert(events =~= before.push(events.last()));
        match (admit_after(before), admit_after(events)) {
            (AdmitCall::Admitted { through_proxy }, _) => {
                let count = choose|count: int|
                    0 <= count < before.len() && selects(
                        #[trigger] before.take(count),
                        through_proxy,
                    ) && before[count] is Done;
                assert(events.take(count) =~= before.take(count));
                assert(events[count] == before[count]);
            },
            (AdmitCall::Finish { through_proxy }, AdmitCall::Admitted { .. }) => {
                let count = before.len() as int;
                assert(events.take(count) =~= before);
                assert(selects(events.take(count), through_proxy));
            },
            (AdmitCall::Begin, AdmitCall::CheckProxies) => {
                assert(before.len() == 0) by {
                    lemma_only_nothing_begins(before);
                }
                assert(events =~= seq![AdmitEvent::Done]);
            },
            (_, AdmitCall::Finish { through_proxy }) => {
                assert(events.drop_last() =~= before);
            },
            _ => {},
        }
    }
}

/// An admission is at its beginning only before anything happened.
proof fn lemma_only_nothing_begins(events: Seq<AdmitEvent>)
    requires
        admit_after(events) is Begin,
    ensures
        events.len() == 0,
{
}

/// Whether events lead to the last reading: the first reading went well, the
/// argument is supported, and either no proxy was selected or one of a known
/// kind.
pub open spec fn selects(events: Seq<AdmitEvent>, through_proxy: bool) -> bool {
    if through_proxy {
        &&& events.len() == 4
        &&& events[0] is Done
        &&& events[1] == AdmitEvent::Supported(true)
        &&& events[2] == AdmitEvent::Selected(SelectedProxy::Named)
        &&& events[3] matches AdmitEvent::Scheme(kind)
        &&& kind is Some
    } else {
        &&& events.len() == 3
        &&& events[0] is Done
        &&& events[1] == AdmitEvent::Supported(true)
        &&& events[2] == AdmitEvent::Selected(SelectedProxy::Direct)
    }
}

/// Whether a value asks to be waited for this long: `None` for ever, and an exact
/// number, which is no truth value, for as many seconds as it stands for.
pub open spec fn asks_for(heap: Heap, value: usize, span: Span) -> bool {
    match span {
        Span::Endless => heap.is_none_value(value),
        Span::Seconds(bits) => {
            &&& !heap.is_none_value(value)
            &&& !heap.is_exactly(value, heap.intrinsics.boolean)
            &&& heap.is_exactly(value, heap.intrinsics.int) || heap.is_exactly(
                value,
                heap.intrinsics.float,
            )
            &&& heap.attribute_of(value, "float()"@) matches Some(number) && heap.float_of(number)
                == Some(bits)
            &&& 0 < bits < 0x43f0_0000_0000_0000
        },
    }
}

/// Each duration is that of its own value: a single one counts for the connection
/// and for the reply, of a pair the first counts for the connection and the
/// second for the reply, and a `Timeout` names both and has no total.
pub proof fn law_timeouts_come_from_their_values(
    heap: Heap,
    module: usize,
    value: usize,
    plan: TimeoutPlan,
)
    requires
        timeout_of(heap, module, value) == Ok::<Option<TimeoutPlan>, Failure>(Some(plan)),
    ensures
        ({
            ||| asks_for(heap, value, plan.connect) && plan.read == plan.connect
            ||| exact_tuple_of(heap, value) matches Some(items) && items.len() == 2 && asks_for(
                heap,
                items[0],
                plan.connect,
            ) && asks_for(heap, items[1], plan.read)
            ||| {
                &&& heap.attribute_of(module, "TimeoutSauce"@) matches Some(class)
                    && heap.is_exactly(value, class)
                &&& heap.attribute_of(value, "total"@) matches Some(total) && heap.is_none_value(
                    total,
                )
                &&& heap.attribute_of(value, "connect_timeout"@) matches Some(connect) && asks_for(
                    heap,
                    connect,
                    plan.connect,
                )
                &&& heap.attribute_of(value, "read_timeout"@) matches Some(read) && asks_for(
                    heap,
                    read,
                    plan.read,
                )
            }
        }),
{
}

/// Every value that asks for a duration is taken as a timeout, alone or in a
/// pair.
pub proof fn law_durations_are_taken(
    heap: Heap,
    module: usize,
    value: usize,
    items: Seq<usize>,
    first: Span,
    second: Span,
)
    ensures
        asks_for(heap, value, first) ==> timeout_of(heap, module, value) == Ok::<
            Option<TimeoutPlan>,
            Failure,
        >(Some(TimeoutPlan { connect: first, read: first })),
        !heap.is_none_value(value) && !heap.is_exactly(value, heap.intrinsics.int)
            && !heap.is_exactly(value, heap.intrinsics.float) && exact_tuple_of(heap, value)
            == Some(items) && items.len() == 2 && asks_for(heap, items[0], first) && asks_for(
            heap,
            items[1],
            second,
        ) ==> timeout_of(heap, module, value) == Ok::<Option<TimeoutPlan>, Failure>(
            Some(TimeoutPlan { connect: first, read: second }),
        ),
{
}

/// `True` trusts the default bundle, `False` nothing at all, and a text the place
/// that it names.
pub open spec fn trusts(heap: Heap, module: usize, verify: usize, roots: RootsView) -> bool {
    match roots {
        RootsView::Disabled => heap.is_exactly(verify, heap.intrinsics.boolean) && heap.bool_of(
            verify,
        ) == Some(false),
        RootsView::Bundle(path) => {
            &&& heap.is_exactly(verify, heap.intrinsics.boolean)
            &&& heap.bool_of(verify) == Some(true)
            &&& heap.attribute_of(module, "DEFAULT_CA_BUNDLE_PATH"@) matches Some(bundle)
                && heap.is_exactly(bundle, heap.intrinsics.text) && heap.text_of(bundle) == Some(
                path,
            )
        },
        RootsView::Path(path) => {
            &&& !heap.is_exactly(verify, heap.intrinsics.boolean)
            &&& heap.is_exactly(verify, heap.intrinsics.text)
            &&& heap.text_of(verify) == Some(path)
        },
    }
}

/// `None` names no client certificate, a text one that holds its key, and a pair
/// of texts one and its key, in this order.
pub open spec fn names_certificate(
    heap: Heap,
    cert: usize,
    identity: Option<(Seq<char>, Option<Seq<char>>)>,
) -> bool {
    match identity {
        None => heap.is_none_value(cert),
        Some((chain, None)) => !heap.is_none_value(cert) && heap.is_exactly(
            cert,
            heap.intrinsics.text,
        ) && heap.text_of(cert) == Some(chain),
        Some((chain, Some(key))) => {
            &&& !heap.is_none_value(cert)
            &&& !heap.is_exactly(cert, heap.intrinsics.text)
            &&& exact_tuple_of(heap, cert) matches Some(items) && items.len() == 2
                && heap.is_exactly(items[0], heap.intrinsics.text) && heap.is_exactly(
                items[1],
                heap.intrinsics.text,
            ) && heap.text_of(items[0]) == Some(chain) && heap.text_of(items[1]) == Some(key)
        },
    }
}

/// A plan for encryption trusts what `verify` says and shows what `cert` names,
/// and every such plan is taken.
pub proof fn law_encryption_follows_its_arguments(
    heap: Heap,
    module: usize,
    verify: usize,
    cert: usize,
    plan: TlsView,
)
    ensures
        tls_of(heap, module, verify, cert) == Ok::<Option<TlsView>, Failure>(Some(plan)) <==> trusts(
            heap,
            module,
            verify,
            plan.roots,
        ) && names_certificate(heap, cert, plan.identity),
{
}

/// A proxy is spoken to as its scheme says, whatever the case of its letters: the
/// names of hosts are resolved by the proxy only under `socks5h`.
pub proof fn law_schemes_of_proxies(scheme: Seq<char>)
    ensures
        proxy_kind_of(scheme) is Some <==> lowered(scheme) == "http"@ || lowered(scheme)
            == "https"@ || lowered(scheme) == "socks4"@ || lowered(scheme) == "socks4a"@ || lowered(
            scheme,
        ) == "socks5"@ || lowered(scheme) == "socks5h"@,
        proxy_kind_of(scheme) == Some(ProxyKind::Http) ==> lowered(scheme) == "http"@,
        proxy_kind_of(scheme) == Some(ProxyKind::Https) ==> lowered(scheme) == "https"@,
        proxy_kind_of(scheme) == Some(ProxyKind::Socks4) ==> lowered(scheme) == "socks4"@
            || lowered(scheme) == "socks4a"@,
        proxy_kind_of(scheme) == Some(ProxyKind::Socks5 { remote_dns: false }) ==> lowered(scheme)
            == "socks5"@,
        proxy_kind_of(scheme) == Some(ProxyKind::Socks5 { remote_dns: true }) ==> lowered(scheme)
            == "socks5h"@,
{
}

/// Whether an entry is a pair of exact texts with these characters.
pub open spec fn is_header(heap: Heap, item: usize, header: (Seq<char>, Seq<char>)) -> bool {
    heap.tuple_of(item) matches Some(items) && items.len() == 2 && heap.is_exactly(
        items[0],
        heap.intrinsics.text,
    ) && heap.is_exactly(items[1], heap.intrinsics.text) && heap.text_of(items[0]) == Some(
        header.0,
    ) && heap.text_of(items[1]) == Some(header.1)
}

/// The headers of a request are the entries of its store, in their order: each is
/// a pair of a name and a value that parses as a header.
pub proof fn law_headers_are_those_of_the_store(
    heap: Heap,
    items: Seq<usize>,
    parses: Seq<bool>,
    headers: Seq<(Seq<char>, Seq<char>)>,
)
    ensures
        headers_of(heap, items, parses) == Ok::<Option<Seq<(Seq<char>, Seq<char>)>>, Failure>(
            Some(headers),
        ) <==> headers.len() == items.len() && items.len() <= parses.len() && forall|index: int|
            0 <= index < items.len() ==> is_header(heap, #[trigger] items[index], headers[index])
                && parses[index],
    decreases items.len(),
{
    if items.len() == 0 {
        assert(headers.len() == 0 ==> headers =~= Seq::empty());
    } else {
        let fewer = items.drop_last();
        let last = items.len() - 1;
        if headers.len() == items.len() {
            law_headers_are_those_of_the_store(heap, fewer, parses, headers.drop_last());
            assert(headers.drop_last().push(headers.last()) =~= headers);
            if headers_of(heap, items, parses) == Ok::<
                Option<Seq<(Seq<char>, Seq<char>)>>,
                Failure,
            >(Some(headers)) {
                let before = headers_of(heap, fewer, parses)->Ok_0->Some_0;
                assert(before =~= headers.drop_last());
                assert forall|index: int| 0 <= index < items.len() implies is_header(
                    heap,
                    #[trigger] items[index],
                    headers[index],
                ) && parses[index] by {
                    if index < last {
                        assert(fewer[index] == items[index]);
                        assert(headers.drop_last()[index] == headers[index]);
                    }
                }
            }
            if items.len() <= parses.len() && forall|index: int|
                0 <= index < items.len() ==> is_header(
                    heap,
                    #[trigger] items[index],
                    headers[index],
                ) && parses[index] {
                assert forall|index: int| 0 <= index < fewer.len() implies is_header(
                    heap,
                    #[trigger] fewer[index],
                    headers.drop_last()[index],
                ) && parses[index] by {
                    assert(fewer[index] == items[index]);
                }
                assert(is_header(heap, items[last], headers[last]));
            }
        } else if headers_of(heap, items, parses) == Ok::<
            Option<Seq<(Seq<char>, Seq<char>)>>,
            Failure,
        >(Some(headers)) {
            let before = headers_of(heap, fewer, parses)->Ok_0->Some_0;
            law_headers_are_those_of_the_store(heap, fewer, parses, before);
        }
    }
}

/// Whether an object's attribute is an exact text with these characters.
pub open spec fn holds_text(heap: Heap, object: usize, name: Seq<char>, text: Seq<char>) -> bool {
    heap.attribute_of(object, name) matches Some(value) && heap.is_exactly(
        value,
        heap.intrinsics.text,
    ) && heap.text_of(value) == Some(text)
}

/// Whether an object's attribute is an exact number.
pub open spec fn holds_number(heap: Heap, object: usize, name: Seq<char>, number: usize) -> bool {
    heap.attribute_of(object, name) matches Some(value) && usize_value(heap, value) == Some(number)
}

/// The settings of an adapter are its own, each under its name. Its configuration
/// is empty, and its pools hold at least one connection.
pub proof fn law_settings_are_those_of_the_adapter(
    heap: Heap,
    adapter: usize,
    settings: PoolSettings,
)
    ensures
        settings_of(heap, adapter) == Ok::<PoolSettings, AdmissionStop>(settings) <==> {
            &&& heap.attribute_of(adapter, "config"@) matches Some(config) && exact_dict_of(
                heap,
                config,
            ) matches Some(entries) && entries.len() == 0
            &&& holds_number(heap, adapter, "_pool_maxsize"@, settings.pool_maxsize)
            &&& settings.pool_maxsize > 0
            &&& holds_number(heap, adapter, "_pool_connections"@, settings.pool_connections)
            &&& heap.attribute_of(adapter, "_pool_block"@) matches Some(block) && exact_bool_value(
                heap,
                block,
            ) == Some(settings.pool_block)
        },
{
}

/// A draft says what its request and its adapter say: method, URL, headers and
/// body are those of the request, the settings and the retries those of the
/// adapter, and timeout and encryption those of the arguments. The URL is
/// absolute.
pub proof fn law_drafts_say_what_was_asked(
    heap: Heap,
    state: AdapterView,
    guard: RetryGuard,
    arguments: SendArguments,
    outside: OutsideFacts,
    draft: DraftView,
)
    ensures
        draft_of(heap, state, guard, arguments, outside) == Ok::<DraftView, AdmissionStop>(draft)
            <==> {
            &&& identity_pristine(heap, state, arguments.adapter, arguments.request) == Ok::<
                bool,
                Failure,
            >(true)
            &&& settings_of(heap, arguments.adapter) == Ok::<PoolSettings, AdmissionStop>(
                draft.settings,
            )
            &&& holds_text(heap, arguments.request, "method"@, draft.method)
            &&& outside.method_parses
            &&& holds_text(heap, arguments.request, "url"@, draft.url)
            &&& outside.url matches Some(url) && url.scheme is Some && url.has_authority
            &&& request_headers_of(
                heap,
                state.adapters_module,
                arguments.request,
                outside.headers_parse@,
            ) == Ok::<Option<Seq<(Seq<char>, Seq<char>)>>, Failure>(Some(draft.headers))
            &&& heap.attribute_of(arguments.request, "body"@) matches Some(body) && match draft.body {
                None => heap.is_none_value(body),
                Some(bytes) => !heap.is_none_value(body) && heap.is_exactly(
                    body,
                    heap.intrinsics.bytes,
                ) && heap.bytes_of(body) == Some(bytes),
            }
            &&& heap.attribute_of(arguments.adapter, "max_retries"@) matches Some(retry)
                && retry_read(heap, guard, retry) == Ok::<RetryView, Stop>(draft.retry)
            &&& timeout_of(heap, state.adapters_module, arguments.timeout) == Ok::<
                Option<TimeoutPlan>,
                Failure,
            >(Some(draft.timeout))
            &&& tls_of(heap, state.adapters_module, arguments.verify, arguments.cert) == Ok::<
                Option<TlsView>,
                Failure,
            >(Some(draft.tls))
        },
{
}

/// A store of headers is that of an exact case-insensitive dict, and is itself an
/// exact ordered dict.
pub proof fn law_stores_of_headers_are_exact(heap: Heap, module: usize, request: usize, store: usize)
    ensures
        header_store(heap, module, request) == Ok::<Option<usize>, Failure>(Some(store)) <==> {
            &&& heap.attribute_of(request, "headers"@) matches Some(headers) && heap.attribute_of(
                module,
                "CaseInsensitiveDict"@,
            ) matches Some(class) && heap.is_exactly(headers, class) && heap.attribute_of(
                headers,
                "_store"@,
            ) == Some(store)
            &&& heap.module_of("collections"@) matches Some(collections) && heap.attribute_of(
                collections,
                "OrderedDict"@,
            ) matches Some(ordered) && heap.is_exactly(store, ordered)
        },
{
}

/// An admission ends well exactly where nothing changed since it began: the
/// adapter and the request are what they were, the registered adapter too, and
/// the retries say the same. The whole URL is asked for through a proxy, and else
/// the path.
pub proof fn law_admissions_end_where_nothing_changed(
    heap: Heap,
    state: AdapterView,
    guard: RetryGuard,
    arguments: SendArguments,
    draft: DraftView,
    through_proxy: bool,
    registered: Check,
    url: Seq<char>,
)
    ensures
        finished(heap, state, guard, arguments, draft, through_proxy, registered) == Ok::<
            Seq<char>,
            AdmissionStop,
        >(url) <==> {
            &&& if through_proxy {
                url == draft.url
            } else {
                holds_text(heap, arguments.request, "path_url"@, url)
            }
            &&& identity_pristine(heap, state, arguments.adapter, arguments.request) == Ok::<
                bool,
                Failure,
            >(true)
            &&& registered == Ok::<bool, Failure>(true)
            &&& heap.attribute_of(arguments.adapter, "max_retries"@) matches Some(retry)
                && retry_read(heap, guard, retry) matches Ok(retries) && same_retries(
                retries,
                draft.retry,
            )
        },
{
}

/// Two readings of retries that say the same agree in all that decides about a
/// try, and saying the same goes both ways.
pub proof fn law_same_retries_decide_alike(
    left: RetryView,
    right: RetryView,
    method: Seq<char>,
    status: u16,
)
    requires
        same_retries(left, right),
    ensures
        same_retries(right, left),
        left.version == right.version,
        left.counters == right.counters,
        left.switches == right.switches,
        left.retry_after_max == right.retry_after_max,
        left.history == right.history,
        left.allowed_methods is None <==> right.allowed_methods is None,
        left.allowed_methods matches Some(methods) && right.allowed_methods matches Some(others)
            && (methods.contains(method) <==> others.contains(method))
            || left.allowed_methods is None,
        left.status_forcelist.contains(status) <==> right.status_forcelist.contains(status),
        left.backoff.factor == right.backoff.factor || (is_zero(left.backoff.factor) && is_zero(
            right.backoff.factor,
        )),
        left.backoff.maximum == right.backoff.maximum || (is_zero(left.backoff.maximum) && is_zero(
            right.backoff.maximum,
        )),
        left.backoff.jitter == right.backoff.jitter || (is_zero(left.backoff.jitter) && is_zero(
            right.backoff.jitter,
        )),
{
    lemma_same_members(left.status_forcelist, right.status_forcelist, status);
    match (left.allowed_methods, right.allowed_methods) {
        (Some(first), Some(second)) => {
            lemma_same_members(first, second, method);
        },
        _ => {},
    }
}

/// Lists that hold each other's items hold the same.
proof fn lemma_same_members<T>(left: Seq<T>, right: Seq<T>, item: T)
    requires
        forall|index: int| 0 <= index < left.len() ==> right.contains(#[trigger] left[index]),
        forall|index: int| 0 <= index < right.len() ==> left.contains(#[trigger] right[index]),
    ensures
        left.contains(item) <==> right.contains(item),
{
    if left.contains(item) {
        let index = choose|index: int| 0 <= index < left.len() && left[index] == item;
        assert(right.contains(left[index]));
    }
    if right.contains(item) {
        let index = choose|index: int| 0 <= index < right.len() && right[index] == item;
        assert(left.contains(right[index]));
    }
}

/// What stands between the same texts is the same where the whole is.
proof fn lemma_between<T>(before: Seq<T>, left: Seq<T>, right: Seq<T>, after: Seq<T>)
    requires
        before + left + after == before + right + after,
    ensures
        left == right,
{
    let first = before + left + after;
    let second = before + right + after;
    assert(first.len() == before.len() + left.len() + after.len());
    assert(second.len() == before.len() + right.len() + after.len());
    let start = before.len() as int;
    let end = start + left.len();
    assert(first.subrange(start, end) =~= left);
    assert(second.subrange(start, end) =~= right);
}

/// Requests share a pool only where they agree in each part that the key tells
/// apart: the host without regard to case, the proxy, the encryption and the size
/// of the pool, as long as they agree in all others.
pub proof fn law_pools_are_told_apart(
    scheme: Seq<char>,
    host: Seq<char>,
    other_host: Seq<char>,
    port: Option<u16>,
    proxy: Seq<char>,
    other_proxy: Seq<char>,
    tls: Seq<char>,
    other_tls: Seq<char>,
    maxsize: usize,
    other_maxsize: usize,
)
    ensures
        pool_key_of(scheme, host, port, proxy, tls, maxsize) == pool_key_of(
            scheme,
            other_host,
            port,
            proxy,
            tls,
            maxsize,
        ) <==> lowered(host) == lowered(other_host),
        pool_key_of(scheme, host, port, proxy, tls, maxsize) == pool_key_of(
            scheme,
            host,
            port,
            other_proxy,
            tls,
            maxsize,
        ) <==> proxy == other_proxy,
        pool_key_of(scheme, host, port, proxy, tls, maxsize) == pool_key_of(
            scheme,
            host,
            port,
            proxy,
            other_tls,
            maxsize,
        ) <==> tls == other_tls,
        pool_key_of(scheme, host, port, proxy, tls, maxsize) == pool_key_of(
            scheme,
            host,
            port,
            proxy,
            tls,
            other_maxsize,
        ) <==> maxsize == other_maxsize,
{
    assert(pool_key_of(scheme, host, port, proxy, tls, maxsize) == pool_key_of(
        scheme,
        other_host,
        port,
        proxy,
        tls,
        maxsize,
    ) <==> lowered(host) == lowered(other_host)) by {
        lemma_told_by_host(scheme, host, other_host, port, proxy, tls, maxsize);
    }
    assert(pool_key_of(scheme, host, port, proxy, tls, maxsize) == pool_key_of(
        scheme,
        host,
        port,
        other_proxy,
        tls,
        maxsize,
    ) <==> proxy == other_proxy) by {
        lemma_told_by_proxy(scheme, host, port, proxy, other_proxy, tls, maxsize);
    }
    assert(pool_key_of(scheme, host, port, proxy, tls, maxsize) == pool_key_of(
        scheme,
        host,
        port,
        proxy,
        other_tls,
        maxsize,
    ) <==> tls == other_tls) by {
        lemma_told_by_tls(scheme, host, port, proxy, tls, other_tls, maxsize);
    }
    assert(pool_key_of(scheme, host, port, proxy, tls, maxsize) == pool_key_of(
        scheme,
        host,
        port,
        proxy,
        tls,
        other_maxsize,
    ) <==> maxsize == other_maxsize) by {
        lemma_told_by_size(scheme, host, port, proxy, tls, maxsize, other_maxsize);
    }
}

/// Hosts are told apart.
proof fn lemma_told_by_host(
    scheme: Seq<char>,
    host: Seq<char>,
    other: Seq<char>,
    port: Option<u16>,
    proxy: Seq<char>,
    tls: Seq<char>,
    maxsize: usize,
)
    ensures
        pool_key_of(scheme, host, port, proxy, tls, maxsize) == pool_key_of(
            scheme,
            other,
            port,
            proxy,
            tls,
            maxsize,
        ) <==> lowered(host) == lowered(other),
{
    let before = lowered(scheme) + "://"@;
    let after = ":"@ + port_text(effective_port(lowered(scheme), port)) + "|"@ + proxy + "|"@ + tls
        + "|"@ + decimal(maxsize as nat);
    let key = pool_key_of(scheme, host, port, proxy, tls, maxsize);
    let second = pool_key_of(scheme, other, port, proxy, tls, maxsize);
    assert(key =~= before + lowered(host) + after);
    assert(second =~= before + lowered(other) + after);
    if key == second {
        lemma_between(before, lowered(host), lowered(other), after);
    }
}

/// Proxies are told apart.
proof fn lemma_told_by_proxy(
    scheme: Seq<char>,
    host: Seq<char>,
    port: Option<u16>,
    proxy: Seq<char>,
    other: Seq<char>,
    tls: Seq<char>,
    maxsize: usize,
)
    ensures
        pool_key_of(scheme, host, port, proxy, tls, maxsize) == pool_key_of(
            scheme,
            host,
            port,
            other,
            tls,
            maxsize,
        ) <==> proxy == other,
{
    let before = lowered(scheme) + "://"@ + lowered(host) + ":"@ + port_text(
        effective_port(lowered(scheme), port),
    ) + "|"@;
    let after = "|"@ + tls + "|"@ + decimal(maxsize as nat);
    let key = pool_key_of(scheme, host, port, proxy, tls, maxsize);
    let second = pool_key_of(scheme, host, port, other, tls, maxsize);
    assert(key =~= before + proxy + after);
    assert(second =~= before + other + after);
    if key == second {
        lemma_between(before, proxy, other, after);
    }
}

/// Kinds of encryption are told apart.
proof fn lemma_told_by_tls(
    scheme: Seq<char>,
    host: Seq<char>,
    port: Option<u16>,
    proxy: Seq<char>,
    tls: Seq<char>,
    other: Seq<char>,
    maxsize: usize,
)
    ensures
        pool_key_of(scheme, host, port, proxy, tls, maxsize) == pool_key_of(
            scheme,
            host,
            port,
            proxy,
            other,
            maxsize,
        ) <==> tls == other,
{
    let before = lowered(scheme) + "://"@ + lowered(host) + ":"@ + port_text(
        effective_port(lowered(scheme), port),
    ) + "|"@ + proxy + "|"@;
    let after = "|"@ + decimal(maxsize as nat);
    let key = pool_key_of(scheme, host, port, proxy, tls, maxsize);
    let second = pool_key_of(scheme, host, port, proxy, other, maxsize);
    assert(key =~= before + tls + after);
    assert(second =~= before + other + after);
    if key == second {
        lemma_between(before, tls, other, after);
    }
}

/// Sizes of pools are told apart.
proof fn lemma_told_by_size(
    scheme: Seq<char>,
    host: Seq<char>,
    port: Option<u16>,
    proxy: Seq<char>,
    tls: Seq<char>,
    maxsize: usize,
    other: usize,
)
    ensures
        pool_key_of(scheme, host, port, proxy, tls, maxsize) == pool_key_of(
            scheme,
            host,
            port,
            proxy,
            tls,
            other,
        ) <==> maxsize == other,
{
    let before = lowered(scheme) + "://"@ + lowered(host) + ":"@ + port_text(
        effective_port(lowered(scheme), port),
    ) + "|"@ + proxy + "|"@ + tls + "|"@;
    let none = Seq::<char>::empty();
    let key = pool_key_of(scheme, host, port, proxy, tls, maxsize);
    let second = pool_key_of(scheme, host, port, proxy, tls, other);
    assert(key =~= before + decimal(maxsize as nat) + none);
    assert(second =~= before + decimal(other as nat) + none);
    if key == second {
        lemma_between(before, decimal(maxsize as nat), decimal(other as nat), none);
        crate::text::law_decimal_reads_back(maxsize as nat, usize::MAX as nat);
        crate::text::law_decimal_reads_back(other as nat, usize::MAX as nat);
    }
}

/// What is so about an admission.
#[derive(Clone, Copy, Debug, PartialEq, Eq, Structural)]
pub struct AdmitFacts {
    /// What stops the first reading.
    pub begin: Option<AdmissionStop>,
    pub supported: bool,
    pub selected: SelectedProxy,
    pub kind: Option<ProxyKind>,
    /// What stops the last reading.
    pub finish: Option<AdmissionStop>,
}

/// What happens when an admission does something.
pub open spec fn admit_event(facts: AdmitFacts, call: AdmitCall) -> AdmitEvent {
    let stop = if call is Begin {
        facts.begin
    } else {
        facts.finish
    };
    match call {
        AdmitCall::CheckProxies => AdmitEvent::Supported(facts.supported),
        AdmitCall::SelectProxy => AdmitEvent::Selected(facts.selected),
        AdmitCall::ReadScheme => AdmitEvent::Scheme(facts.kind),
        _ => match stop {
            Some(stop) => AdmitEvent::Stopped(stop),
            None => AdmitEvent::Done,
        },
    }
}

/// Where an admission ends, with at most so many steps.
pub open spec fn admitted(facts: AdmitFacts, call: AdmitCall, limit: nat) -> AdmitCall
    decreases limit,
{
    if limit == 0 || call is Admitted || call is Stop || call is RaiseCurrent {
        call
    } else {
        admitted(facts, next_admit(call, admit_event(facts, call)), (limit - 1) as nat)
    }
}

/// A request is admitted exactly where both readings go well, the proxies are
/// supported, and no proxy or one of a known kind was selected; it then goes
/// through that proxy. What stops a reading is what the request is stopped for,
/// and a proxy that is not known refuses it.
pub proof fn law_admission_follows_the_facts(facts: AdmitFacts, limit: nat)
    requires
        limit >= 5,
    ensures
        ({
            let end = admitted(facts, AdmitCall::Begin, limit);
            let direct = facts.selected is Direct;
            let proxied = facts.selected is Named && facts.kind is Some;
            let refused = AdmitCall::Stop(AdmissionStop::Refused(AdmissionRefusal::Proxy));
            match facts.begin {
                Some(stop) => end == AdmitCall::Stop(stop),
                None => if !facts.supported || !(direct || proxied) {
                    end == refused
                } else {
                    match facts.finish {
                        Some(stop) => end == AdmitCall::Stop(stop),
                        None => end == AdmitCall::Admitted { through_proxy: proxied },
                    }
                },
            }
        }),
        forall|call: AdmitCall| !(call is Admitted || call is Stop) ==> #[trigger] next_admit(
            call,
            AdmitEvent::Raised,
        ) is RaiseCurrent,
{
    reveal_with_fuel(admitted, 6);
}

/// Each admission refusal has its own words.
pub proof fn law_words_of_admission_refusal()
    ensures
        AdmissionRefusal::Identity.words() == "adapter identities are not pristine"@,
        AdmissionRefusal::Config.words() == "adapter config is not an empty exact dict"@,
        AdmissionRefusal::PoolMaximum.words() == "pool maximum is unsupported"@,
        AdmissionRefusal::ZeroPool.words() == "zero-sized native pools are unsupported"@,
        AdmissionRefusal::PoolSettings.words() == "pool settings are unsupported"@,
        AdmissionRefusal::Method.words() == "request method is unsupported"@,
        AdmissionRefusal::Url.words() == "request URL is unsupported"@,
        AdmissionRefusal::Headers.words() == "request headers are unsupported"@,
        AdmissionRefusal::Body.words() == "request body is not proven replayable"@,
        AdmissionRefusal::Timeout.words() == "timeout is unsupported"@,
        AdmissionRefusal::Tls.words() == "TLS settings are unsupported"@,
        AdmissionRefusal::Proxy.words() == "proxy settings are unsupported"@,
        AdmissionRefusal::PathUrl.words() == "request path URL is unsupported"@,
        AdmissionRefusal::IdentityChanged.words() == "adapter identities changed during admission"@,
        AdmissionRefusal::RetryChanged.words() == "Retry state changed during admission"@,
{
}

} // verus!
