//! The benchmark's command line, its division of work, and the account of one
//! response body.

use vstd::prelude::*;
use vstd::string::StringExecFns;

use crate::chunker::{full_chunks, remainder, views, ApplicationChunker};
use crate::text::{chars_of, parse_unsigned, same_text, ParseFailure};
use crate::chunker::{joined, law_chunks_partition_the_stream, law_frame_boundary_is_ignored};
use crate::text::unsigned_value;

verus! {

/// What one run of the benchmark measures.
pub struct Config {
    pub surface: String,
    pub url: String,
    pub requests: usize,
    pub concurrency: usize,
    pub mode: String,
    pub read: String,
    pub chunk_size: usize,
    pub measure_allocations: bool,
}

/// A flag that the command line must hold.
#[derive(Clone, Copy, Debug, PartialEq, Eq, Structural)]
pub enum RequiredFlag {
    Surface,
    Url,
    Requests,
    Concurrency,
    Mode,
    Read,
    ChunkSize,
}

/// Why a command line was refused.
pub enum ArgumentError {
    /// The flag is the last argument.
    MissingValue(String),
    /// No flag of that name is known.
    UnknownArgument(String),
    /// A count could not be read.
    Number(ParseFailure),
    /// A required flag does not occur.
    Missing(RequiredFlag),
    /// The values do not describe a run.
    InvalidConfiguration,
}

/// An argument error with its texts as character sequences.
pub enum ArgumentErrorView {
    MissingValue(Seq<char>),
    UnknownArgument(Seq<char>),
    Number(ParseFailure),
    Missing(RequiredFlag),
    InvalidConfiguration,
}

impl View for ArgumentError {
    type V = ArgumentErrorView;

    open spec fn view(&self) -> ArgumentErrorView {
        match self {
            ArgumentError::MissingValue(flag) => ArgumentErrorView::MissingValue(flag@),
            ArgumentError::UnknownArgument(flag) => ArgumentErrorView::UnknownArgument(flag@),
            ArgumentError::Number(failure) => ArgumentErrorView::Number(*failure),
            ArgumentError::Missing(flag) => ArgumentErrorView::Missing(*flag),
            ArgumentError::InvalidConfiguration => ArgumentErrorView::InvalidConfiguration,
        }
    }
}

impl RequiredFlag {
    /// The message for a command line without this flag.
    pub open spec fn words(self) -> Seq<char> {
        match self {
            RequiredFlag::Surface => "missing --surface"@,
            RequiredFlag::Url => "missing --url"@,
            RequiredFlag::Requests => "missing --requests"@,
            RequiredFlag::Concurrency => "missing --concurrency"@,
            RequiredFlag::Mode => "missing --mode"@,
            RequiredFlag::Read => "missing --read"@,
            RequiredFlag::ChunkSize => "missing --chunk-size"@,
        }
    }
}

impl ArgumentErrorView {
    /// The message that the benchmark ends with.
    pub open spec fn words(self) -> Seq<char> {
        match self {
            ArgumentErrorView::MissingValue(flag) => "missing value for "@ + flag,
            ArgumentErrorView::UnknownArgument(flag) => "unknown argument: "@ + flag,
            ArgumentErrorView::Number(failure) => failure.words(),
            ArgumentErrorView::Missing(flag) => flag.words(),
            ArgumentErrorView::InvalidConfiguration => "invalid benchmark configuration"@,
        }
    }
}

impl ArgumentError {
    /// The message that the benchmark ends with.
    pub fn message(&self) -> (text: String)
        ensures
            text@ == self@.words(),
    {
        match self {
            ArgumentError::MissingValue(flag) => String::from_str("missing value for ").concat(
                flag.as_str(),
            ),
            ArgumentError::UnknownArgument(flag) => String::from_str("unknown argument: ").concat(
                flag.as_str(),
            ),
            ArgumentError::Number(failure) => failure.message(),
            ArgumentError::Missing(flag) => match flag {
                RequiredFlag::Surface => String::from_str("missing --surface"),
                RequiredFlag::Url => String::from_str("missing --url"),
                RequiredFlag::Requests => String::from_str("missing --requests"),
                RequiredFlag::Concurrency => String::from_str("missing --concurrency"),
                RequiredFlag::Mode => String::from_str("missing --mode"),
                RequiredFlag::Read => String::from_str("missing --read"),
                RequiredFlag::ChunkSize => String::from_str("missing --chunk-size"),
            },
            ArgumentError::InvalidConfiguration => String::from_str(
                "invalid benchmark configuration",
            ),
        }
    }
}

/// The values that the flags of a command line have set.
pub struct Flags {
    pub surface: Option<String>,
    pub url: Option<String>,
    pub requests: Option<usize>,
    pub concurrency: Option<usize>,
    pub mode: Option<String>,
    pub read: Option<String>,
    pub chunk_size: Option<usize>,
    pub measure_allocations: bool,
}

/// The values of the flags with their texts as character sequences.
pub struct FlagsView {
    pub surface: Option<Seq<char>>,
    pub url: Option<Seq<char>>,
    pub requests: Option<nat>,
    pub concurrency: Option<nat>,
    pub mode: Option<Seq<char>>,
    pub read: Option<Seq<char>>,
    pub chunk_size: Option<nat>,
    pub measure_allocations: bool,
}

/// The characters of an optional text.
pub open spec fn optional_text(text: Option<String>) -> Option<Seq<char>> {
    match text {
        Some(text) => Some(text@),
        None => None,
    }
}

/// The value of an optional count.
pub open spec fn optional_count(count: Option<usize>) -> Option<nat> {
    match count {
        Some(count) => Some(count as nat),
        None => None,
    }
}

impl View for Flags {
    type V = FlagsView;

    open spec fn view(&self) -> FlagsView {
        FlagsView {
            surface: optional_text(self.surface),
            url: optional_text(self.url),
            requests: optional_count(self.requests),
            concurrency: optional_count(self.concurrency),
            mode: optional_text(self.mode),
            read: optional_text(self.read),
            chunk_size: optional_count(self.chunk_size),
            measure_allocations: self.measure_allocations,
        }
    }
}

impl FlagsView {
    /// No flag was given.
    pub open spec fn none() -> Self {
        FlagsView {
            surface: None,
            url: None,
            requests: None,
            concurrency: None,
            mode: None,
            read: None,
            chunk_size: None,
            measure_allocations: false,
        }
    }

    /// The values after one more flag and its value.
    pub open spec fn with(self, flag: Seq<char>, value: Seq<char>) -> Result<
        FlagsView,
        ArgumentErrorView,
    > {
        if flag == "--surface"@ {
            Ok(FlagsView { surface: Some(value), ..self })
        } else if flag == "--url"@ {
            Ok(FlagsView { url: Some(value), ..self })
        } else if flag == "--requests"@ {
            match unsigned_value(value, usize::MAX as nat) {
                Ok(count) => Ok(FlagsView { requests: Some(count), ..self }),
                Err(failure) => Err(ArgumentErrorView::Number(failure)),
            }
        } else if flag == "--concurrency"@ {
            match unsigned_value(value, usize::MAX as nat) {
                Ok(count) => Ok(FlagsView { concurrency: Some(count), ..self }),
                Err(failure) => Err(ArgumentErrorView::Number(failure)),
            }
        } else if flag == "--mode"@ {
            Ok(FlagsView { mode: Some(value), ..self })
        } else if flag == "--read"@ {
            Ok(FlagsView { read: Some(value), ..self })
        } else if flag == "--chunk-size"@ {
            match unsigned_value(value, usize::MAX as nat) {
                Ok(count) => Ok(FlagsView { chunk_size: Some(count), ..self }),
                Err(failure) => Err(ArgumentErrorView::Number(failure)),
            }
        } else {
            Err(ArgumentErrorView::UnknownArgument(flag))
        }
    }

    /// The first required flag, in the order of the usage, that has no value.
    pub open spec fn first_missing(self) -> Option<RequiredFlag> {
        if self.surface is None {
            Some(RequiredFlag::Surface)
        } else if self.url is None {
            Some(RequiredFlag::Url)
        } else if self.requests is None {
            Some(RequiredFlag::Requests)
        } else if self.concurrency is None {
            Some(RequiredFlag::Concurrency)
        } else if self.mode is None {
            Some(RequiredFlag::Mode)
        } else if self.read is None {
            Some(RequiredFlag::Read)
        } else if self.chunk_size is None {
            Some(RequiredFlag::ChunkSize)
        } else {
            None
        }
    }

    /// Whether the values, all present, describe a run.
    pub open spec fn describes_run(self) -> bool {
        &&& self.surface == Some("rust-async"@) || self.surface == Some("rust-blocking"@)
        &&& self.mode == Some("one-shot"@) || self.mode == Some("pooled"@)
        &&& self.read == Some("buffered"@) || self.read == Some("streaming"@)
        &&& self.requests != Some(0nat)
        &&& self.concurrency != Some(0nat)
        &&& self.chunk_size != Some(0nat)
    }
}

/// The texts of a list of arguments.
pub open spec fn texts(arguments: Seq<String>) -> Seq<Seq<char>> {
    arguments.map_values(|argument: String| argument@)
}

/// The values that a list of arguments sets, on top of `flags`: each flag but
/// the switch takes the argument after it, and a later value replaces an
/// earlier one.
pub open spec fn scanned(arguments: Seq<Seq<char>>, flags: FlagsView) -> Result<
    FlagsView,
    ArgumentErrorView,
>
    decreases arguments.len(),
{
    if arguments.len() == 0 {
        Ok(flags)
    } else if arguments[0] == "--measure-allocations"@ {
        scanned(arguments.skip(1), FlagsView { measure_allocations: true, ..flags })
    } else if arguments.len() == 1 {
        Err(ArgumentErrorView::MissingValue(arguments[0]))
    } else {
        match flags.with(arguments[0], arguments[1]) {
            Ok(next) => scanned(arguments.skip(2), next),
            Err(error) => Err(error),
        }
    }
}

/// What a command line, without the program's name, asks for.
pub open spec fn requested(arguments: Seq<Seq<char>>) -> Result<FlagsView, ArgumentErrorView> {
    match scanned(arguments, FlagsView::none()) {
        Err(error) => Err(error),
        Ok(flags) => match flags.first_missing() {
            Some(flag) => Err(ArgumentErrorView::Missing(flag)),
            None => if flags.describes_run() {
                Ok(flags)
            } else {
                Err(ArgumentErrorView::InvalidConfiguration)
            },
        },
    }
}

impl View for Config {
    type V = FlagsView;

    open spec fn view(&self) -> FlagsView {
        FlagsView {
            surface: Some(self.surface@),
            url: Some(self.url@),
            requests: Some(self.requests as nat),
            concurrency: Some(self.concurrency as nat),
            mode: Some(self.mode@),
            read: Some(self.read@),
            chunk_size: Some(self.chunk_size as nat),
            measure_allocations: self.measure_allocations,
        }
    }
}

/// Reads a count from a flag's value.
fn parse_count(value: &String) -> (count: Result<usize, ArgumentError>)
    ensures
        match count {
            Ok(count) => unsigned_value(value@, usize::MAX as nat) == Ok::<nat, ParseFailure>(
                count as nat,
            ),
            Err(error) => error matches ArgumentError::Number(failure) && unsigned_value(
                value@,
                usize::MAX as nat,
            ) == Err::<nat, ParseFailure>(failure),
        },
{
    match parse_unsigned(&chars_of(value.as_str()), usize::MAX as u64) {
        Ok(count) => {
            proof {
                lemma_value_within(value@, usize::MAX as nat);
            }
            Ok(count as usize)
        },
        Err(failure) => Err(ArgumentError::Number(failure)),
    }
}

/// A number that was read is within its bound.
proof fn lemma_value_within(text: Seq<char>, max: nat)
    ensures
        unsigned_value(text, max) matches Ok(value) ==> value <= max,
{
    if text.len() > 0 {
        if text.len() > 1 && text[0] == '+' {
            lemma_digits_within(text.drop_first(), 0, max);
        } else {
            lemma_digits_within(text, 0, max);
        }
    }
}

proof fn lemma_digits_within(digits: Seq<char>, value: nat, max: nat)
    requires
        value <= max,
    ensures
        crate::text::digits_value(digits, value, max) matches Ok(total) ==> total <= max,
    decreases digits.len(),
{
    if digits.len() > 0 && crate::text::decimal_digit(digits[0]) {
        let next = (value * 10 + (digits[0] as u32 - 0x30)) as nat;
        if next <= max {
            lemma_digits_within(digits.drop_first(), next, max);
        }
    }
}

/// Sets one flag.
fn apply_flag(flags: Flags, flag: &String, value: &String) -> (next: Result<Flags, ArgumentError>)
    ensures
        match next {
            Ok(next) => flags@.with(flag@, value@) == Ok::<FlagsView, ArgumentErrorView>(next@),
            Err(error) => flags@.with(flag@, value@) == Err::<FlagsView, ArgumentErrorView>(error@),
        },
{
    let mut flags = flags;
    if same_text(flag.as_str(), "--surface") {
        flags.surface = Some(value.clone());
        Ok(flags)
    } else if same_text(flag.as_str(), "--url") {
        flags.url = Some(value.clone());
        Ok(flags)
    } else if same_text(flag.as_str(), "--requests") {
        match parse_count(value) {
            Ok(count) => {
                flags.requests = Some(count);
                Ok(flags)
            },
            Err(error) => Err(error),
        }
    } else if same_text(flag.as_str(), "--concurrency") {
        match parse_count(value) {
            Ok(count) => {
                flags.concurrency = Some(count);
                Ok(flags)
            },
            Err(error) => Err(error),
        }
    } else if same_text(flag.as_str(), "--mode") {
        flags.mode = Some(value.clone());
        Ok(flags)
    } else if same_text(flag.as_str(), "--read") {
        flags.read = Some(value.clone());
        Ok(flags)
    } else if same_text(flag.as_str(), "--chunk-size") {
        match parse_count(value) {
            Ok(count) => {
                flags.chunk_size = Some(count);
                Ok(flags)
            },
            Err(error) => Err(error),
        }
    } else {
        Err(ArgumentError::UnknownArgument(flag.clone()))
    }
}

/// Reads the flags of a command line.
fn scan_flags(arguments: &Vec<String>) -> (flags: Result<Flags, ArgumentError>)
    ensures
        match flags {
            Ok(flags) => scanned(texts(arguments@), FlagsView::none()) == Ok::<
                FlagsView,
                ArgumentErrorView,
            >(flags@),
            Err(error) => scanned(texts(arguments@), FlagsView::none()) == Err::<
                FlagsView,
                ArgumentErrorView,
            >(error@),
        },
{
    let mut flags = Flags {
        surface: None,
        url: None,
        requests: None,
        concurrency: None,
        mode: None,
        read: None,
        chunk_size: None,
        measure_allocations: false,
    };
    let mut index: usize = 0;
    let ghost all = texts(arguments@);
    assert(all.skip(0) =~= all);
    while index < arguments.len()
        invariant
            index <= arguments.len(),
            all == texts(arguments@),
            scanned(all, FlagsView::none()) == scanned(all.skip(index as int), flags@),
        decreases arguments.len() - index,
    {
        let ghost rest = all.skip(index as int);
        let flag = &arguments[index];
        assert(rest[0] == flag@);
        assert(rest.skip(1) =~= all.skip(index + 1));
        if same_text(flag.as_str(), "--measure-allocations") {
            flags.measure_allocations = true;
            index = index + 1;
        } else if arguments.len() - index == 1 {
            return Err(ArgumentError::MissingValue(flag.clone()));
        } else {
            let value = &arguments[index + 1];
            assert(rest[1] == value@);
            assert(rest.skip(2) =~= all.skip(index + 2));
            match apply_flag(flags, flag, value) {
                Ok(next) => {
                    flags = next;
                },
                Err(error) => {
                    return Err(error);
                },
            }
            index = index + 2;
        }
    }
    Ok(flags)
}

/// Reads a command line, given without the program's name.
pub fn parse_args(arguments: &Vec<String>) -> (config: Result<Config, ArgumentError>)
    ensures
        match config {
            Ok(config) => requested(texts(arguments@)) == Ok::<FlagsView, ArgumentErrorView>(
                config@,
            ),
            Err(error) => requested(texts(arguments@)) == Err::<FlagsView, ArgumentErrorView>(
                error@,
            ),
        },
{
    let flags = match scan_flags(arguments) {
        Ok(flags) => flags,
        Err(error) => {
            return Err(error);
        },
    };
    let surface = match flags.surface {
        Some(surface) => surface,
        None => {
            return Err(ArgumentError::Missing(RequiredFlag::Surface));
        },
    };
    let url = match flags.url {
        Some(url) => url,
        None => {
            return Err(ArgumentError::Missing(RequiredFlag::Url));
        },
    };
    let requests: usize = match flags.requests {
        Some(requests) => requests,
        None => {
            return Err(ArgumentError::Missing(RequiredFlag::Requests));
        },
    };
    let concurrency: usize = match flags.concurrency {
        Some(concurrency) => concurrency,
        None => {
            return Err(ArgumentError::Missing(RequiredFlag::Concurrency));
        },
    };
    let mode = match flags.mode {
        Some(mode) => mode,
        None => {
            return Err(ArgumentError::Missing(RequiredFlag::Mode));
        },
    };
    let read = match flags.read {
        Some(read) => read,
        None => {
            return Err(ArgumentError::Missing(RequiredFlag::Read));
        },
    };
    let chunk_size: usize = match flags.chunk_size {
        Some(chunk_size) => chunk_size,
        None => {
            return Err(ArgumentError::Missing(RequiredFlag::ChunkSize));
        },
    };
    let surface_known = same_text(surface.as_str(), "rust-async") || same_text(
        surface.as_str(),
        "rust-blocking",
    );
    let mode_known = same_text(mode.as_str(), "one-shot") || same_text(mode.as_str(), "pooled");
    let read_known = same_text(read.as_str(), "buffered") || same_text(read.as_str(), "streaming");
    if !surface_known || !mode_known || !read_known || requests == 0 || concurrency == 0
        || chunk_size == 0 {
        return Err(ArgumentError::InvalidConfiguration);
    }
    Ok(
        Config {
            surface,
            url,
            requests,
            concurrency,
            mode,
            read,
            chunk_size,
            measure_allocations: flags.measure_allocations,
        },
    )
}

/// A run that was accepted has work to do and someone to do it.
pub proof fn law_accepted_run_has_work(arguments: Seq<Seq<char>>)
    ensures
        requested(arguments) matches Ok(flags) ==> {
            &&& flags.requests matches Some(requests) && requests > 0
            &&& flags.concurrency matches Some(concurrency) && concurrency > 0
            &&& flags.chunk_size matches Some(chunk_size) && chunk_size > 0
        },
{
}

/// The sum of a list of shares.
pub open spec fn total(shares: Seq<usize>) -> nat
    decreases shares.len(),
{
    if shares.len() == 0 {
        0
    } else {
        total(shares.drop_last()) + shares.last() as nat
    }
}

/// The number of workers: no more than there are requests.
pub open spec fn workers(requests: usize, concurrency: usize) -> nat {
    if requests < concurrency {
        requests as nat
    } else {
        concurrency as nat
    }
}

/// The share of one worker: the requests are dealt out evenly, and the first
/// workers take one more each until none is left over.
pub open spec fn share(requests: nat, workers: nat, index: nat) -> nat {
    if index < requests % workers {
        requests / workers + 1
    } else {
        requests / workers
    }
}

/// The shares of the first `count` workers.
proof fn lemma_shares_total(shares: Seq<usize>, requests: nat, workers: nat)
    requires
        workers > 0,
        shares.len() <= workers,
        forall|index: int|
            0 <= index < shares.len() ==> #[trigger] shares[index] as nat == share(
                requests,
                workers,
                index as nat,
            ),
    ensures
        total(shares) == shares.len() * (requests / workers) + (if shares.len() < requests
            % workers {
            shares.len() as int
        } else {
            (requests % workers) as int
        }),
    decreases shares.len(),
{
    if shares.len() > 0 {
        let front = shares.drop_last();
        lemma_shares_total(front, requests, workers);
        assert(shares.last() as nat == share(requests, workers, (shares.len() - 1) as nat));
        let quotient = requests / workers;
        let count = front.len();
        assert((count + 1) * quotient == count * quotient + quotient) by (nonlinear_arith);
    } else {
        assert(shares.len() * (requests / workers) == 0) by (nonlinear_arith)
            requires
                shares.len() == 0,
        ;
    }
}

/// Divides the requests among the workers.
pub fn split_work(requests: usize, concurrency: usize) -> (shares: Vec<usize>)
    requires
        requests > 0,
        concurrency > 0,
    ensures
        shares@.len() == workers(requests, concurrency),
        forall|index: int|
            0 <= index < shares@.len() ==> #[trigger] shares@[index] as nat == share(
                requests as nat,
                workers(requests, concurrency),
                index as nat,
            ),
        total(shares@) == requests,
        forall|index: int| 0 <= index < shares@.len() ==> #[trigger] shares@[index] > 0,
{
    let count: usize = if requests < concurrency {
        requests
    } else {
        concurrency
    };
    let quotient: usize = requests / count;
    let remainder: usize = requests % count;
    proof {
        vstd::arithmetic::div_mod::lemma_fundamental_div_mod(requests as int, count as int);
        assert(quotient >= 1) by (nonlinear_arith)
            requires
                requests == count * quotient + remainder,
                remainder < count,
                count <= requests,
        ;
        assert(count * quotient >= quotient) by (nonlinear_arith)
            requires
                count >= 1,
        ;
    }
    let mut shares: Vec<usize> = Vec::new();
    let mut index: usize = 0;
    while index < count
        invariant
            index <= count,
            count > 0,
            count == workers(requests, concurrency),
            quotient == requests / count,
            remainder == requests % count,
            quotient >= 1,
            remainder == 0 || quotient + 1 <= requests,
            quotient <= requests,
            shares@.len() == index,
            forall|i: int|
                0 <= i < shares@.len() ==> #[trigger] shares@[i] as nat == share(
                    requests as nat,
                    count as nat,
                    i as nat,
                ),
        decreases count - index,
    {
        let extra: usize = if index < remainder {
            1
        } else {
            0
        };
        shares.push(quotient + extra);
        index = index + 1;
    }
    proof {
        lemma_shares_total(shares@, requests as nat, count as nat);
    }
    shares
}

/// The sum of a list of bytes.
pub open spec fn byte_sum(bytes: Seq<u8>) -> nat
    decreases bytes.len(),
{
    if bytes.len() == 0 {
        0
    } else {
        byte_sum(bytes.drop_last()) + bytes.last() as nat
    }
}

/// The sum of two lists, end to end, is the sum of both sums.
proof fn lemma_byte_sum_concat(left: Seq<u8>, right: Seq<u8>)
    ensures
        byte_sum(left + right) == byte_sum(left) + byte_sum(right),
    decreases right.len(),
{
    if right.len() == 0 {
        assert(left + right =~= left);
    } else {
        lemma_byte_sum_concat(left, right.drop_last());
        assert((left + right).drop_last() =~= left + right.drop_last());
    }
}

/// A shorter list has no greater sum.
proof fn lemma_byte_sum_take(bytes: Seq<u8>, count: int)
    requires
        0 <= count <= bytes.len(),
    ensures
        byte_sum(bytes.take(count)) <= byte_sum(bytes),
{
    lemma_byte_sum_concat(bytes.take(count), bytes.skip(count));
    assert(bytes.take(count) + bytes.skip(count) =~= bytes);
}

/// The checksum of a body: the sum of its bytes.
pub fn checksum(bytes: &[u8]) -> (sum: u64)
    requires
        byte_sum(bytes@) <= u64::MAX,
    ensures
        sum == byte_sum(bytes@),
{
    let mut sum: u64 = 0;
    let mut index: usize = 0;
    while index < bytes.len()
        invariant
            index <= bytes.len(),
            sum == byte_sum(bytes@.take(index as int)),
            byte_sum(bytes@) <= u64::MAX,
        decreases bytes.len() - index,
    {
        proof {
            lemma_byte_sum_take(bytes@, index + 1);
            assert(bytes@.take(index + 1).drop_last() =~= bytes@.take(index as int));
        }
        sum = sum + bytes[index] as u64;
        index = index + 1;
    }
    assert(bytes@.take(index as int) =~= bytes@);
    sum
}

/// What was read of one response body.
#[derive(Clone, Copy, Debug, PartialEq, Eq, Structural)]
pub struct BodyAccount {
    /// The bytes read.
    pub size: usize,
    /// Their sum.
    pub digest: u64,
    /// The chunks handed to the application.
    pub application_chunks: usize,
}

/// What the account of a body says.
pub struct AccountView {
    pub size: nat,
    pub digest: nat,
    pub application_chunks: nat,
}

impl View for BodyAccount {
    type V = AccountView;

    open spec fn view(&self) -> AccountView {
        AccountView {
            size: self.size as nat,
            digest: self.digest as nat,
            application_chunks: self.application_chunks as nat,
        }
    }
}

/// The account of a body that was read at once.
pub open spec fn buffered_account(body: Seq<u8>) -> AccountView {
    AccountView { size: body.len(), digest: byte_sum(body), application_chunks: 0 }
}

/// The account of chunks that were handed to the application, one by one.
pub open spec fn chunks_account(chunks: Seq<Seq<u8>>) -> AccountView
    decreases chunks.len(),
{
    if chunks.len() == 0 {
        AccountView { size: 0, digest: 0, application_chunks: 0 }
    } else {
        let before = chunks_account(chunks.drop_last());
        AccountView {
            size: before.size + chunks.last().len(),
            digest: before.digest + byte_sum(chunks.last()),
            application_chunks: before.application_chunks + 1,
        }
    }
}

/// The chunks of a body, the last of which may be short.
pub open spec fn all_chunks(body: Seq<u8>, size: nat) -> Seq<Seq<u8>> {
    if remainder(body, size).len() > 0 {
        full_chunks(body, size).push(remainder(body, size))
    } else {
        full_chunks(body, size)
    }
}

/// The account of a body that was read at once.
pub fn account_buffered(body: &[u8]) -> (account: BodyAccount)
    requires
        byte_sum(body@) <= u64::MAX,
    ensures
        account@ == buffered_account(body@),
{
    BodyAccount { size: body.len(), digest: checksum(body), application_chunks: 0 }
}

/// The account of a body that is read in frames.
pub struct StreamAccount {
    chunker: ApplicationChunker,
    account: BodyAccount,
    read: Ghost<Seq<u8>>,
}

impl StreamAccount {
    /// The bytes of all frames so far.
    pub closed spec fn stream(&self) -> Seq<u8> {
        self.read@
    }

    /// The length of an application chunk.
    pub closed spec fn chunk_size(&self) -> nat {
        self.chunker.chunk_size as nat
    }

    /// The account covers the full chunks of the stream; the chunker holds the
    /// rest.
    pub closed spec fn well_formed(&self) -> bool {
        let size = self.chunk_size();
        let chunks = full_chunks(self.read@, size);
        &&& self.chunker.well_formed()
        &&& self.chunker.pending@ == remainder(self.read@, size)
        &&& self.account.size == joined(chunks).len()
        &&& self.account.digest == byte_sum(joined(chunks))
        &&& self.account.application_chunks == chunks.len()
        &&& self.read@.len() <= usize::MAX
        &&& byte_sum(self.read@) <= u64::MAX
    }

    /// An account of nothing yet.
    pub fn new(chunk_size: usize) -> (account: Self)
        requires
            chunk_size > 0,
        ensures
            account.well_formed(),
            account.chunk_size() == chunk_size,
            account.stream() == Seq::<u8>::empty(),
    {
        let read: Ghost<Seq<u8>> = Ghost(Seq::empty());
        StreamAccount {
            chunker: ApplicationChunker::new(chunk_size),
            account: BodyAccount { size: 0, digest: 0, application_chunks: 0 },
            read,
        }
    }

    /// Takes one frame into account.
    pub fn push(&mut self, frame: &[u8])
        requires
            old(self).well_formed(),
            old(self).stream().len() + frame@.len() <= usize::MAX,
            byte_sum(old(self).stream() + frame@) <= u64::MAX,
        ensures
            final(self).well_formed(),
            final(self).chunk_size() == old(self).chunk_size(),
            final(self).stream() == old(self).stream() + frame@,
    {
        let ghost before = self.read@;
        let ghost size = self.chunk_size();
        let ghost after = before + frame@;
        proof {
            law_chunks_partition_the_stream(before, size);
            law_chunks_partition_the_stream(after, size);
            law_frame_boundary_is_ignored(before, frame@, size);
            lemma_byte_sum_concat(joined(full_chunks(after, size)), remainder(after, size));
            lemma_chunk_count(full_chunks(after, size).len(), size, after.len());
        }
        let chunks = self.chunker.push(frame);
        let ghost new_chunks = views(chunks@);
        let mut index: usize = 0;
        assert(full_chunks(before, size) + new_chunks.take(0) =~= full_chunks(before, size));
        while index < chunks.len()
            invariant
                index <= chunks.len(),
                new_chunks == views(chunks@),
                self.chunker.chunk_size == size,
                self.chunker.well_formed(),
                self.chunker.pending@ == remainder(after, size),
                self.read@ == before,
                full_chunks(after, size) == full_chunks(before, size) + new_chunks,
                joined(full_chunks(after, size)).len() <= usize::MAX,
                byte_sum(joined(full_chunks(after, size))) <= u64::MAX,
                full_chunks(after, size).len() <= usize::MAX,
                self.account.size == joined(
                    full_chunks(before, size) + new_chunks.take(index as int),
                ).len(),
                self.account.digest == byte_sum(
                    joined(full_chunks(before, size) + new_chunks.take(index as int)),
                ),
                self.account.application_chunks == full_chunks(before, size).len() + index,
            decreases chunks.len() - index,
        {
            let chunk = &chunks[index];
            proof {
                let seen = full_chunks(before, size) + new_chunks.take(index as int);
                let all = full_chunks(after, size);
                let next = full_chunks(before, size) + new_chunks.take(index + 1);
                assert(new_chunks[index as int] == chunk@);
                assert(next =~= seen + seq![chunk@]);
                lemma_joined_concat(seen, seq![chunk@]);
                reveal_with_fuel(joined, 2);
                assert(joined(seq![chunk@]) =~= chunk@);
                lemma_byte_sum_concat(joined(seen), chunk@);
                let later = new_chunks.skip(index + 1);
                assert(all =~= next + later);
                lemma_joined_concat(next, later);
                lemma_byte_sum_concat(joined(next), joined(later));
            }
            self.account.size = self.account.size + chunk.len();
            self.account.digest = self.account.digest + checksum(chunk.as_slice());
            self.account.application_chunks = self.account.application_chunks + 1;
            index = index + 1;
        }
        assert(new_chunks.take(index as int) =~= new_chunks);
        self.read = Ghost(after);
    }

    /// Ends the body: the account of every byte read, in chunks of which only
    /// the last may be short.
    pub fn finish(self) -> (account: BodyAccount)
        requires
            self.well_formed(),
        ensures
            account@ == chunks_account(all_chunks(self.stream(), self.chunk_size())),
            account.size == self.stream().len(),
            account.digest == byte_sum(self.stream()),
            account.application_chunks == (self.stream().len() + self.chunk_size() - 1)
                / self.chunk_size() as int,
    {
        let mut account = self.account;
        let ghost stream = self.read@;
        let ghost size = self.chunk_size();
        let ghost chunks = full_chunks(stream, size);
        let ghost rest = remainder(stream, size);
        proof {
            law_chunks_partition_the_stream(stream, size);
            lemma_byte_sum_concat(joined(chunks), rest);
            lemma_chunk_count(chunks.len(), size, stream.len());
            law_both_readings_agree(stream, size);
            lemma_rounded_up(chunks.len(), size, rest.len(), stream.len());
            if rest.len() > 0 {
                lemma_chunk_count(chunks.len(), size, (stream.len() - 1) as nat);
            }
        }
        match self.chunker.finish() {
            Some(chunk) => {
                account.size = account.size + chunk.len();
                account.digest = account.digest + checksum(chunk.as_slice());
                account.application_chunks = account.application_chunks + 1;
            },
            None => {
                assert(rest.len() == 0);
                assert(rest =~= Seq::<u8>::empty());
            },
        }
        account
    }
}

/// The account of chunks is that of the bytes that they join to, beside their
/// number.
proof fn lemma_chunks_account(chunks: Seq<Seq<u8>>)
    ensures
        chunks_account(chunks).size == joined(chunks).len(),
        chunks_account(chunks).digest == byte_sum(joined(chunks)),
        chunks_account(chunks).application_chunks == chunks.len(),
    decreases chunks.len(),
{
    if chunks.len() > 0 {
        let before = chunks.drop_last();
        lemma_chunks_account(before);
        assert(chunks =~= before + seq![chunks.last()]);
        lemma_joined_concat(before, seq![chunks.last()]);
        reveal_with_fuel(joined, 2);
        assert(joined(seq![chunks.last()]) =~= chunks.last());
        lemma_byte_sum_concat(joined(before), chunks.last());
    }
}

/// A body that is read in chunks comes to the same size and sum as one that is
/// read at once. Read at once it is handed over in no chunk, else in as many as
/// the division rounded up says.
pub proof fn law_both_readings_agree(body: Seq<u8>, size: nat)
    requires
        size > 0,
    ensures
        chunks_account(all_chunks(body, size)).size == buffered_account(body).size,
        chunks_account(all_chunks(body, size)).digest == buffered_account(body).digest,
        buffered_account(body).size == body.len(),
        buffered_account(body).digest == byte_sum(body),
        buffered_account(body).application_chunks == 0,
        chunks_account(all_chunks(body, size)).application_chunks == (body.len() + size - 1)
            / size as int,
{
    let chunks = full_chunks(body, size);
    let rest = remainder(body, size);
    law_chunks_partition_the_stream(body, size);
    lemma_rounded_up(chunks.len(), size, rest.len(), body.len());
    lemma_chunks_account(all_chunks(body, size));
    if rest.len() > 0 {
        assert(chunks.push(rest) =~= chunks + seq![rest]);
        lemma_joined_concat(chunks, seq![rest]);
        reveal_with_fuel(joined, 2);
        assert(joined(seq![rest]) =~= rest);
    } else {
        assert(joined(chunks) + rest =~= joined(chunks));
    }
}

/// Joining two lists of parts joins what each joins to.
proof fn lemma_joined_concat(left: Seq<Seq<u8>>, right: Seq<Seq<u8>>)
    ensures
        joined(left + right) == joined(left) + joined(right),
    decreases left.len(),
{
    if left.len() == 0 {
        assert(left + right =~= right);
        assert(joined(left) + joined(right) =~= joined(right));
    } else {
        lemma_joined_concat(left.drop_first(), right);
        assert((left + right).drop_first() =~= left.drop_first() + right);
        assert(joined(left + right) =~= joined(left) + joined(right));
    }
}

/// A stream has no more full chunks than bytes.
proof fn lemma_chunk_count(count: nat, size: nat, length: nat)
    requires
        size > 0,
        count * size <= length,
    ensures
        count <= length,
{
    assert(count <= count * size) by (nonlinear_arith)
        requires
            size > 0,
    ;
}

/// Full chunks and a shorter rest are as many as the division rounded up.
proof fn lemma_rounded_up(count: nat, size: nat, rest: nat, length: nat)
    requires
        size > 0,
        rest < size,
        count * size + rest == length,
    ensures
        (length + size - 1) / size as int == count + (if rest > 0 {
            1int
        } else {
            0
        }),
{
    let over = (rest + size - 1) as int;
    assert(length + size - 1 == count * size + over);
    if rest > 0 {
        assert(length + size - 1 == (count + 1) * size + (rest - 1)) by (nonlinear_arith)
            requires
                count * size + rest == length,
        ;
        vstd::arithmetic::div_mod::lemma_fundamental_div_mod_converse(
            length + size - 1,
            size as int,
            (count + 1) as int,
            rest - 1,
        );
    } else {
        vstd::arithmetic::div_mod::lemma_fundamental_div_mod_converse(
            length + size - 1,
            size as int,
            count as int,
            size - 1,
        );
    }
}

/// A flag that is set holds its own value, and no flag changes another.
pub proof fn law_flags_set_their_own(
    flags: FlagsView,
    flag: Seq<char>,
    value: Seq<char>,
    next: FlagsView,
)
    requires
        flags.with(flag, value) == Ok::<FlagsView, ArgumentErrorView>(next),
    ensures
        next.measure_allocations == flags.measure_allocations,
        flag == "--surface"@ ==> next.surface == Some(value),
        flag != "--surface"@ ==> next.surface == flags.surface,
        flag == "--url"@ ==> next.url == Some(value),
        flag != "--url"@ ==> next.url == flags.url,
        flag == "--mode"@ ==> next.mode == Some(value),
        flag != "--mode"@ ==> next.mode == flags.mode,
        flag == "--read"@ ==> next.read == Some(value),
        flag != "--read"@ ==> next.read == flags.read,
        flag == "--requests"@ ==> (next.requests matches Some(count) && unsigned_value(
            value,
            usize::MAX as nat,
        ) == Ok::<nat, ParseFailure>(count)),
        flag != "--requests"@ ==> next.requests == flags.requests,
        flag == "--concurrency"@ ==> (next.concurrency matches Some(count) && unsigned_value(
            value,
            usize::MAX as nat,
        ) == Ok::<nat, ParseFailure>(count)),
        flag != "--concurrency"@ ==> next.concurrency == flags.concurrency,
        flag == "--chunk-size"@ ==> (next.chunk_size matches Some(count) && unsigned_value(
            value,
            usize::MAX as nat,
        ) == Ok::<nat, ParseFailure>(count)),
        flag != "--chunk-size"@ ==> next.chunk_size == flags.chunk_size,
{
    reveal_strlit("--surface");
    reveal_strlit("--url");
    reveal_strlit("--mode");
    reveal_strlit("--read");
    reveal_strlit("--requests");
    reveal_strlit("--concurrency");
    reveal_strlit("--chunk-size");
    assert("--surface"@[2] == 's' && "--url"@[2] == 'u' && "--mode"@[2] == 'm' && "--read"@[2]
        == 'r' && "--requests"@[2] == 'r' && "--concurrency"@[3] == 'o' && "--chunk-size"@[3]
        == 'h' && "--concurrency"@[2] == 'c' && "--chunk-size"@[2] == 'c');
    assert("--read"@.len() == 6 && "--requests"@.len() == 10);
}

/// Arguments can be read in two parts: what the second part says is added to what
/// the first said.
pub proof fn law_arguments_are_read_in_turn(
    first: Seq<Seq<char>>,
    second: Seq<Seq<char>>,
    flags: FlagsView,
    next: FlagsView,
)
    requires
        scanned(first, flags) == Ok::<FlagsView, ArgumentErrorView>(next),
    ensures
        scanned(first + second, flags) == scanned(second, next),
    decreases first.len(),
{
    if first.len() == 0 {
        assert(first + second =~= second);
    } else if first[0] == "--measure-allocations"@ {
        assert((first + second).skip(1) =~= first.skip(1) + second);
        law_arguments_are_read_in_turn(
            first.skip(1),
            second,
            FlagsView { measure_allocations: true, ..flags },
            next,
        );
    } else if first.len() > 1 {
        assert((first + second).skip(2) =~= first.skip(2) + second);
        match flags.with(first[0], first[1]) {
            Ok(middle) => law_arguments_are_read_in_turn(first.skip(2), second, middle, next),
            Err(_) => {},
        }
    }
}

/// Arguments end in an error exactly as the first wrong one says.
pub proof fn law_errors_of_arguments(arguments: Seq<Seq<char>>, flags: FlagsView)
    ensures
        arguments.len() == 1 && arguments[0] != "--measure-allocations"@ ==> scanned(
            arguments,
            flags,
        ) == Err::<FlagsView, ArgumentErrorView>(ArgumentErrorView::MissingValue(arguments[0])),
        arguments.len() == 1 && arguments[0] == "--measure-allocations"@ ==> (scanned(
            arguments,
            flags,
        ) matches Ok(next) && next.measure_allocations && next.requests == flags.requests),
        flags.first_missing() is None <==> flags.surface is Some && flags.url is Some
            && flags.requests is Some && flags.concurrency is Some && flags.mode is Some
            && flags.read is Some && flags.chunk_size is Some,
        flags.first_missing() == Some(RequiredFlag::Surface) <==> flags.surface is None,
        flags.first_missing() == Some(RequiredFlag::ChunkSize) ==> flags.chunk_size is None
            && flags.read is Some,
        flags.first_missing() == Some(RequiredFlag::Url) ==> flags.url is None && flags.surface
            is Some,
        flags.first_missing() == Some(RequiredFlag::Requests) ==> flags.requests is None
            && flags.url is Some,
        flags.first_missing() == Some(RequiredFlag::Concurrency) ==> flags.concurrency is None
            && flags.requests is Some,
        flags.first_missing() == Some(RequiredFlag::Mode) ==> flags.mode is None
            && flags.concurrency is Some,
        flags.first_missing() == Some(RequiredFlag::Read) ==> flags.read is None && flags.mode
            is Some,
{
    reveal_with_fuel(scanned, 2);
    if arguments.len() == 1 {
        assert(arguments.skip(1).len() == 0);
    }
}

/// The shares of workers are even: they differ by one at most, and an earlier
/// worker has no less than a later one.
pub proof fn law_shares_are_even(requests: nat, workers: nat, first: nat, second: nat)
    requires
        workers > 0,
        first <= second < workers,
    ensures
        share(requests, workers, second) <= share(requests, workers, first) <= share(
            requests,
            workers,
            second,
        ) + 1,
        requests >= workers ==> share(requests, workers, second) > 0,
        share(requests, workers, first) <= requests,
{
    assert(requests == workers * (requests / workers) + requests % workers) by (nonlinear_arith)
        requires
            workers > 0,
    ;
    assert(requests >= workers ==> requests / workers >= 1) by (nonlinear_arith)
        requires
            workers > 0,
    ;
    assert(requests / workers <= workers * (requests / workers)) by (nonlinear_arith)
        requires
            workers > 0,
    ;
}

/// Each required flag has its own words.
pub proof fn law_words_of_required_flag()
    ensures
        RequiredFlag::Surface.words() == "missing --surface"@,
        RequiredFlag::Url.words() == "missing --url"@,
        RequiredFlag::Requests.words() == "missing --requests"@,
        RequiredFlag::Concurrency.words() == "missing --concurrency"@,
        RequiredFlag::Mode.words() == "missing --mode"@,
        RequiredFlag::Read.words() == "missing --read"@,
        RequiredFlag::ChunkSize.words() == "missing --chunk-size"@,
{
}

/// An error that tells no more has words of its own.
pub proof fn law_words_of_argument_error_view()
    ensures
        ArgumentErrorView::InvalidConfiguration.words() == "invalid benchmark configuration"@,
{
}

} // verus!
