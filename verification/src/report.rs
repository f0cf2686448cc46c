//! The benchmark's report of what it observed.

use vstd::prelude::*;
use vstd::string::StringExecFns;

use crate::text::{chars_of, is_whitespace, join_decimals, parse_unsigned, render_decimal};
use crate::text::{comma_separated, decimal, unsigned_value, whitespace, ParseFailure};

verus! {

/// What one request showed.
#[derive(Clone, Copy, Debug, PartialEq, Eq, Structural)]
pub struct Observation {
    /// The time from the request to the end of its body, in nanoseconds.
    pub latency_ns: u64,
    /// The bytes of the body.
    pub size: usize,
    /// Their sum.
    pub digest: u64,
    /// The connection that served the request.
    pub connection: u64,
    /// The chunks handed to the application.
    pub application_chunks: usize,
}

/// What all requests showed together.
pub struct Totals {
    pub latencies_ns: Vec<u64>,
    pub body_bytes: usize,
    pub digest: u64,
    /// The connections that served any request, in increasing order.
    pub connections: Vec<u64>,
    pub application_chunks: usize,
}

/// The sum of the body sizes.
pub open spec fn size_sum(observations: Seq<Observation>) -> nat
    decreases observations.len(),
{
    if observations.len() == 0 {
        0
    } else {
        size_sum(observations.drop_last()) + observations.last().size as nat
    }
}

/// The sum of the digests.
pub open spec fn digest_sum(observations: Seq<Observation>) -> nat
    decreases observations.len(),
{
    if observations.len() == 0 {
        0
    } else {
        digest_sum(observations.drop_last()) + observations.last().digest as nat
    }
}

/// The sum of the chunk counts.
pub open spec fn chunk_sum(observations: Seq<Observation>) -> nat
    decreases observations.len(),
{
    if observations.len() == 0 {
        0
    } else {
        chunk_sum(observations.drop_last()) + observations.last().application_chunks as nat
    }
}

/// The sums of a longer list are no smaller.
proof fn lemma_sums_grow(observations: Seq<Observation>, count: int)
    requires
        0 <= count <= observations.len(),
    ensures
        size_sum(observations.take(count)) <= size_sum(observations),
        digest_sum(observations.take(count)) <= digest_sum(observations),
        chunk_sum(observations.take(count)) <= chunk_sum(observations),
    decreases observations.len() - count,
{
    if count == observations.len() {
        assert(observations.take(count) =~= observations);
    } else {
        lemma_sums_grow(observations, count + 1);
        assert(observations.take(count + 1).drop_last() =~= observations.take(count));
    }
}

/// A list in strictly increasing order.
pub open spec fn increasing(numbers: Seq<u64>) -> bool {
    forall|i: int, j: int| 0 <= i < j < numbers.len() ==> numbers[i] < numbers[j]
}

/// The connection of each observation.
pub open spec fn connections_of(observations: Seq<Observation>) -> Seq<u64> {
    observations.map_values(|observation: Observation| observation.connection)
}

/// Adds a number to an increasing list that holds it at most once.
fn insert_sorted(numbers: &mut Vec<u64>, number: u64)
    requires
        increasing(old(numbers)@),
    ensures
        increasing(final(numbers)@),
        forall|value: u64|
            #[trigger] final(numbers)@.contains(value) <==> (value == number
                || old(numbers)@.contains(value)),
{
    let mut index: usize = 0;
    while index < numbers.len() && numbers[index] < number
        invariant
            index <= numbers.len(),
            numbers@ == old(numbers)@,
            forall|i: int| 0 <= i < index ==> #[trigger] numbers@[i] < number,
        decreases numbers.len() - index,
    {
        index = index + 1;
    }
    let ghost before = numbers@;
    if index < numbers.len() && numbers[index] == number {
        assert(before[index as int] == number);
        return;
    }
    numbers.insert(index, number);
    proof {
        let after = numbers@;
        assert(after == before.insert(index as int, number));
        assert(after[index as int] == number);
        assert forall|value: u64| #[trigger]
            after.contains(value) <==> (value == number || before.contains(value)) by {
            if before.contains(value) {
                let i = choose|i: int| 0 <= i < before.len() && before[i] == value;
                if i < index {
                    assert(after[i] == value);
                } else {
                    assert(after[i + 1] == value);
                }
            }
            if after.contains(value) {
                let i = choose|i: int| 0 <= i < after.len() && after[i] == value;
                if i < index {
                    assert(before[i] == value);
                } else if i > index {
                    assert(before[i - 1] == value);
                }
            }
        }
    }
}

/// Whether the observations of a run can be summed up.
pub fn observations_fit(observations: &Vec<Observation>) -> (fit: bool)
    ensures
        fit == (size_sum(observations@) <= usize::MAX && digest_sum(observations@) <= u64::MAX
            && chunk_sum(observations@) <= usize::MAX),
{
    let mut sizes: usize = 0;
    let mut digests: u64 = 0;
    let mut chunks: usize = 0;
    let mut index: usize = 0;
    while index < observations.len()
        invariant
            index <= observations.len(),
            sizes == size_sum(observations@.take(index as int)),
            digests == digest_sum(observations@.take(index as int)),
            chunks == chunk_sum(observations@.take(index as int)),
        decreases observations.len() - index,
    {
        let observation = observations[index];
        proof {
            lemma_sums_grow(observations@, index + 1);
            assert(observations@.take(index + 1).drop_last() =~= observations@.take(index as int));
        }
        match (
            sizes.checked_add(observation.size),
            digests.checked_add(observation.digest),
            chunks.checked_add(observation.application_chunks),
        ) {
            (Some(size), Some(digest), Some(chunk)) => {
                sizes = size;
                digests = digest;
                chunks = chunk;
            },
            _ => {
                return false;
            },
        }
        index = index + 1;
    }
    assert(observations@.take(index as int) =~= observations@);
    true
}

/// Sums up the observations of a run.
pub fn total_observations(observations: &Vec<Observation>) -> (totals: Totals)
    requires
        size_sum(observations@) <= usize::MAX,
        digest_sum(observations@) <= u64::MAX,
        chunk_sum(observations@) <= usize::MAX,
    ensures
        totals.latencies_ns@ == observations@.map_values(
            |observation: Observation| observation.latency_ns,
        ),
        totals.body_bytes == size_sum(observations@),
        totals.digest == digest_sum(observations@),
        totals.application_chunks == chunk_sum(observations@),
        increasing(totals.connections@),
        forall|connection: u64| #[trigger]
            totals.connections@.contains(connection) <==> connections_of(observations@).contains(
                connection,
            ),
{
    let mut latencies_ns: Vec<u64> = Vec::new();
    let mut body_bytes: usize = 0;
    let mut digest: u64 = 0;
    let mut connections: Vec<u64> = Vec::new();
    let mut application_chunks: usize = 0;
    let mut index: usize = 0;
    while index < observations.len()
        invariant
            index <= observations.len(),
            size_sum(observations@) <= usize::MAX,
            digest_sum(observations@) <= u64::MAX,
            chunk_sum(observations@) <= usize::MAX,
            latencies_ns@ == observations@.take(index as int).map_values(
                |observation: Observation| observation.latency_ns,
            ),
            body_bytes == size_sum(observations@.take(index as int)),
            digest == digest_sum(observations@.take(index as int)),
            application_chunks == chunk_sum(observations@.take(index as int)),
            increasing(connections@),
            forall|connection: u64| #[trigger]
                connections@.contains(connection) <==> connections_of(
                    observations@.take(index as int),
                ).contains(connection),
        decreases observations.len() - index,
    {
        let observation = observations[index];
        let ghost seen = connections@;
        proof {
            lemma_sums_grow(observations@, index + 1);
            assert(observations@.take(index + 1).drop_last() =~= observations@.take(index as int));
        }
        latencies_ns.push(observation.latency_ns);
        body_bytes = body_bytes + observation.size;
        digest = digest + observation.digest;
        application_chunks = application_chunks + observation.application_chunks;
        insert_sorted(&mut connections, observation.connection);
        proof {
            let before = connections_of(observations@.take(index as int));
            let after = connections_of(observations@.take(index + 1));
            assert(after =~= before.push(observation.connection));
            assert(after[index as int] == observation.connection);
            assert forall|connection: u64| #[trigger]
                connections@.contains(connection) <==> after.contains(connection) by {
                if before.contains(connection) {
                    let i = choose|i: int| 0 <= i < before.len() && before[i] == connection;
                    assert(after[i] == connection);
                }
                if after.contains(connection) && connection != observation.connection {
                    let i = choose|i: int| 0 <= i < after.len() && after[i] == connection;
                    assert(before[i] == connection);
                }
            }
            assert(observations@.take(index + 1).map_values(
                |observation: Observation| observation.latency_ns,
            ) =~= latencies_ns@);
        }
        index = index + 1;
    }
    assert(observations@.take(index as int) =~= observations@);
    Totals { latencies_ns, body_bytes, digest, connections, application_chunks }
}

/// A number, or `null` where there is none.
pub open spec fn json_integer_text(value: Option<u64>) -> Seq<char> {
    match value {
        Some(value) => decimal(value as nat),
        None => "null"@,
    }
}

/// Writes a number, or `null` where there is none.
pub fn json_integer(value: Option<u64>) -> (text: String)
    ensures
        text@ == json_integer_text(value),
{
    match value {
        Some(value) => render_decimal(value),
        None => String::from_str("null"),
    }
}

/// The figures of a run that do not come from its observations.
pub struct RunFigures {
    pub elapsed_ns: u64,
    /// The processor time, already written as a JSON value.
    pub cpu_seconds: String,
    pub rss_peak_bytes: Option<u64>,
    pub native_total_allocated_bytes: Option<u64>,
    pub requests: usize,
}

/// The report of a run: one JSON object.
pub open spec fn report_text(totals: Totals, figures: RunFigures) -> Seq<char> {
    "{\"latencies_ns\":["@ + comma_separated(totals.latencies_ns@) + "],\"body_bytes\":"@ + decimal(
        totals.body_bytes as nat,
    ) + ",\"checksum\":"@ + decimal(totals.digest as nat) + ",\"connection_ids\":["@
        + comma_separated(totals.connections@) + "],\"elapsed_ns\":"@ + decimal(
        figures.elapsed_ns as nat,
    ) + ",\"cpu_seconds\":"@ + figures.cpu_seconds@ + ",\"rss_peak_bytes\":"@ + json_integer_text(
        figures.rss_peak_bytes,
    ) + ",\"python_peak_alloc_bytes\":null,\"native_total_allocated_bytes\":"@ + json_integer_text(
        figures.native_total_allocated_bytes,
    ) + ",\"native_responses\":"@ + decimal(figures.requests as nat) + ",\"application_chunks\":"@
        + decimal(totals.application_chunks as nat) + ",\"implementation\":\"requests-native\"}"@
}

/// Writes the report of a run.
pub fn render_report(totals: &Totals, figures: &RunFigures) -> (text: String)
    ensures
        text@ == report_text(*totals, *figures),
{
    let mut text = String::from_str("{\"latencies_ns\":[");
    text.append(join_decimals(&totals.latencies_ns).as_str());
    text.append("],\"body_bytes\":");
    text.append(render_decimal(totals.body_bytes as u64).as_str());
    text.append(",\"checksum\":");
    text.append(render_decimal(totals.digest).as_str());
    text.append(",\"connection_ids\":[");
    text.append(join_decimals(&totals.connections).as_str());
    text.append("],\"elapsed_ns\":");
    text.append(render_decimal(figures.elapsed_ns).as_str());
    text.append(",\"cpu_seconds\":");
    text.append(figures.cpu_seconds.as_str());
    text.append(",\"rss_peak_bytes\":");
    text.append(json_integer(figures.rss_peak_bytes).as_str());
    text.append(",\"python_peak_alloc_bytes\":null,\"native_total_allocated_bytes\":");
    text.append(json_integer(figures.native_total_allocated_bytes).as_str());
    text.append(",\"native_responses\":");
    text.append(render_decimal(figures.requests as u64).as_str());
    text.append(",\"application_chunks\":");
    text.append(render_decimal(totals.application_chunks as u64).as_str());
    text.append(",\"implementation\":\"requests-native\"}");
    text
}

/// The label of the peak resident set in a process status.
pub open spec fn peak_label() -> Seq<char> {
    seq!['V', 'm', 'H', 'W', 'M', ':']
}

/// Where the first line of a text ends.
pub open spec fn line_end(text: Seq<char>) -> nat
    decreases text.len(),
{
    if text.len() == 0 || text[0] == '\n' {
        0
    } else {
        1 + line_end(text.drop_first())
    }
}

/// What follows the label on the first line that starts with it.
pub open spec fn peak_line(status: Seq<char>) -> Option<Seq<char>>
    decreases status.len(),
{
    let end = line_end(status);
    let line = status.take(end as int);
    if peak_label().is_prefix_of(line) {
        Some(line.skip(6))
    } else if end + 1 > status.len() {
        None
    } else {
        peak_line(status.skip(end as int + 1))
    }
}

/// A text without its leading white space.
pub open spec fn trimmed(text: Seq<char>) -> Seq<char>
    decreases text.len(),
{
    if text.len() > 0 && whitespace(text[0]) {
        trimmed(text.drop_first())
    } else {
        text
    }
}

/// The characters of a text up to the first white space.
pub open spec fn until_space(text: Seq<char>) -> Seq<char>
    decreases text.len(),
{
    if text.len() == 0 || whitespace(text[0]) {
        Seq::empty()
    } else {
        seq![text[0]] + until_space(text.drop_first())
    }
}

/// The peak resident set that a process status gives, in kibibytes: the first
/// word behind the label, where it is a number.
pub open spec fn peak_kibibytes(status: Seq<char>) -> Option<nat> {
    match peak_line(status) {
        None => None,
        Some(line) => match unsigned_value(until_space(trimmed(line)), u64::MAX as nat) {
            Ok(number) => Some(number),
            Err(_) => None,
        },
    }
}

/// The place of the first line end at or behind `from`.
fn find_line_end(chars: &Vec<char>, from: usize) -> (end: usize)
    requires
        from <= chars@.len(),
    ensures
        from <= end <= chars@.len(),
        end == from + line_end(chars@.skip(from as int)),
{
    let mut end: usize = from;
    while end < chars.len() && chars[end] != '\n'
        invariant
            from <= end <= chars@.len(),
            from + line_end(chars@.skip(from as int)) == end + line_end(chars@.skip(end as int)),
        decreases chars.len() - end,
    {
        assert(chars@.skip(end as int).drop_first() =~= chars@.skip(end + 1));
        end = end + 1;
    }
    end
}

/// Whether the label stands at `from` on a line that ends at `end`.
fn label_at(chars: &Vec<char>, from: usize, end: usize) -> (found: bool)
    requires
        from <= end <= chars@.len(),
    ensures
        found == peak_label().is_prefix_of(chars@.subrange(from as int, end as int)),
{
    let ghost line = chars@.subrange(from as int, end as int);
    if end - from < 6 {
        return false;
    }
    let found = chars[from] == 'V' && chars[from + 1] == 'm' && chars[from + 2] == 'H'
        && chars[from + 3] == 'W' && chars[from + 4] == 'M' && chars[from + 5] == ':';
    proof {
        let label = peak_label();
        assert(forall|i: int| 0 <= i < 6 ==> line[i] == chars@[from + i]);
        if found {
            assert(label =~= line.take(6));
        } else if label.is_prefix_of(line) {
            assert(label[0] == line[0]);
            assert(label[1] == line[1]);
            assert(label[2] == line[2]);
            assert(label[3] == line[3]);
            assert(label[4] == line[4]);
            assert(label[5] == line[5]);
        }
    }
    found
}

/// The first word of the part of a text between two places.
fn first_word(chars: &Vec<char>, from: usize, end: usize) -> (word: Vec<char>)
    requires
        from <= end <= chars@.len(),
    ensures
        word@ == until_space(trimmed(chars@.subrange(from as int, end as int))),
{
    let mut start: usize = from;
    let ghost whole = chars@.subrange(from as int, end as int);
    while start < end && is_whitespace(chars[start])
        invariant
            from <= start <= end <= chars@.len(),
            trimmed(whole) == trimmed(chars@.subrange(start as int, end as int)),
        decreases end - start,
    {
        let ghost rest = chars@.subrange(start as int, end as int);
        assert(rest[0] == chars@[start as int]);
        assert(rest.drop_first() =~= chars@.subrange(start + 1, end as int));
        start = start + 1;
    }
    let ghost rest = chars@.subrange(start as int, end as int);
    proof {
        if start < end {
            assert(rest[0] == chars@[start as int]);
        }
        assert(trimmed(whole) == rest);
    }
    let mut word: Vec<char> = Vec::new();
    let mut index: usize = start;
    assert(word@ + until_space(rest) =~= until_space(rest));
    while index < end && !is_whitespace(chars[index])
        invariant
            start <= index <= end <= chars@.len(),
            word@ + until_space(chars@.subrange(index as int, end as int)) == until_space(rest),
        decreases end - index,
    {
        let ghost tail = chars@.subrange(index as int, end as int);
        assert(tail[0] == chars@[index as int]);
        assert(tail.drop_first() =~= chars@.subrange(index + 1, end as int));
        let ghost before = word@;
        word.push(chars[index]);
        index = index + 1;
        assert(word@ + until_space(tail.drop_first()) =~= before + until_space(tail));
    }
    proof {
        let tail = chars@.subrange(index as int, end as int);
        if index < end {
            assert(tail[0] == chars@[index as int]);
        }
        assert(word@ + until_space(tail) =~= word@);
    }
    word
}

/// Reads the peak resident set, in kibibytes, out of a process status.
pub fn rss_peak_kibibytes(status: &str) -> (peak: Option<u64>)
    ensures
        match peak {
            Some(kibibytes) => peak_kibibytes(status@) == Some(kibibytes as nat),
            None => peak_kibibytes(status@) is None,
        },
{
    let chars = chars_of(status);
    let mut from: usize = 0;
    assert(chars@.skip(0) =~= chars@);
    loop
        invariant
            from <= chars@.len(),
            chars@ == status@,
            peak_line(status@) == peak_line(chars@.skip(from as int)),
        decreases chars@.len() - from,
    {
        let end: usize = find_line_end(&chars, from);
        let ghost rest = chars@.skip(from as int);
        proof {
            assert(rest.take(end - from) =~= chars@.subrange(from as int, end as int));
        }
        if label_at(&chars, from, end) {
            proof {
                let label = peak_label();
                assert(label.len() == 6);
                assert(rest.take(end - from).skip(6) =~= chars@.subrange(from + 6, end as int));
            }
            let word = first_word(&chars, from + 6, end);
            return match parse_unsigned(&word, u64::MAX) {
                Ok(kibibytes) => Some(kibibytes),
                Err(_) => None,
            };
        }
        if end >= chars.len() {
            return None;
        }
        assert(rest.skip(end - from + 1) =~= chars@.skip(end + 1));
        from = end + 1;
    }
}

/// The peak resident set in bytes, out of a process status.
pub fn rss_peak_bytes(status: &str) -> (peak: Option<u64>)
    requires
        peak_kibibytes(status@) matches Some(kibibytes) ==> kibibytes * 1024 <= u64::MAX,
    ensures
        match peak {
            Some(bytes) => peak_kibibytes(status@) matches Some(kibibytes) && bytes == kibibytes
                * 1024,
            None => peak_kibibytes(status@) is None,
        },
{
    match rss_peak_kibibytes(status) {
        Some(kibibytes) => Some(kibibytes * 1024),
        None => None,
    }
}

/// The last place of a character in a text.
pub open spec fn last_place(text: Seq<char>, wanted: char) -> Option<nat>
    decreases text.len(),
{
    if text.len() == 0 {
        None
    } else if text.last() == wanted {
        Some((text.len() - 1) as nat)
    } else {
        last_place(text.drop_last(), wanted)
    }
}

/// The word of a text behind so many others; words are parted by white space.
/// `inside` says that the text begins inside a word that does not count.
pub open spec fn word_at(text: Seq<char>, index: nat, inside: bool) -> Option<Seq<char>>
    decreases text.len(),
{
    if text.len() == 0 {
        None
    } else if whitespace(text[0]) {
        word_at(text.drop_first(), index, false)
    } else if inside {
        word_at(text.drop_first(), index, true)
    } else if index == 0 {
        Some(until_space(text))
    } else {
        word_at(text.drop_first(), (index - 1) as nat, true)
    }
}

/// The ticks of the processor that a process spent itself and in the system, as
/// its statistics write them: two of the words behind the last bracket, which
/// closes the program's name.
pub open spec fn tick_words(stat: Seq<char>) -> Option<(Seq<char>, Seq<char>)> {
    match last_place(stat, ')') {
        None => None,
        Some(place) => match (
            word_at(stat.skip(place as int + 1), 11, false),
            word_at(stat.skip(place as int + 1), 12, false),
        ) {
            (Some(user), Some(system)) => Some((user, system)),
            _ => None,
        },
    }
}

/// Where the word behind so many others begins and ends.
fn find_word(chars: &Vec<char>, from: usize, count: usize) -> (bounds: Option<(usize, usize)>)
    requires
        from <= chars@.len(),
    ensures
        match bounds {
            Some((start, end)) => start <= end <= chars@.len() && word_at(
                chars@.skip(from as int),
                count as nat,
                false,
            ) == Some(chars@.subrange(start as int, end as int)),
            None => word_at(chars@.skip(from as int), count as nat, false) is None,
        },
{
    let mut start: usize = from;
    let mut left: usize = count;
    let mut inside: bool = false;
    while start < chars.len() && (is_whitespace(chars[start]) || inside || left > 0)
        invariant
            from <= start <= chars@.len(),
            word_at(chars@.skip(from as int), count as nat, false) == word_at(
                chars@.skip(start as int),
                left as nat,
                inside,
            ),
        decreases chars.len() - start,
    {
        assert(chars@.skip(start as int).drop_first() =~= chars@.skip(start + 1));
        if is_whitespace(chars[start]) {
            inside = false;
        } else if !inside {
            left = left - 1;
            inside = true;
        }
        start = start + 1;
    }
    if start >= chars.len() {
        return None;
    }
    let mut end: usize = start;
    let ghost rest = chars@.skip(start as int);
    assert(chars@.subrange(start as int, end as int) + until_space(rest) =~= until_space(rest));
    while end < chars.len() && !is_whitespace(chars[end])
        invariant
            start <= end <= chars@.len(),
            chars@.subrange(start as int, end as int) + until_space(chars@.skip(end as int))
                == until_space(rest),
        decreases chars.len() - end,
    {
        let ghost tail = chars@.skip(end as int);
        assert(tail[0] == chars@[end as int]);
        assert(tail.drop_first() =~= chars@.skip(end + 1));
        assert(chars@.subrange(start as int, end + 1) + until_space(tail.drop_first())
            =~= chars@.subrange(start as int, end as int) + until_space(tail));
        end = end + 1;
    }
    proof {
        let tail = chars@.skip(end as int);
        if end < chars@.len() {
            assert(tail[0] == chars@[end as int]);
        }
        assert(chars@.subrange(start as int, end as int) + until_space(tail) =~= chars@.subrange(
            start as int,
            end as int,
        ));
    }
    Some((start, end))
}

/// Reads the ticks of the processor, as they are written, out of a process's
/// statistics. They are numbers that need not be whole.
pub fn cpu_ticks(stat: &str) -> (ticks: Option<(String, String)>)
    ensures
        match ticks {
            Some((user, system)) => tick_words(stat@) == Some((user@, system@)),
            None => tick_words(stat@) is None,
        },
{
    let chars = chars_of(stat);
    let mut from: usize = chars.len();
    assert(chars@.take(from as int) =~= chars@);
    while from > 0 && chars[from - 1] != ')'
        invariant
            from <= chars@.len(),
            last_place(chars@, ')') == last_place(chars@.take(from as int), ')'),
        decreases from,
    {
        assert(chars@.take(from as int).drop_last() =~= chars@.take(from - 1));
        from = from - 1;
    }
    if from == 0 {
        return None;
    }
    assert(chars@.take(from as int).last() == ')');
    assert(last_place(stat@, ')') == Some((from - 1) as nat));
    match (find_word(&chars, from, 11), find_word(&chars, from, 12)) {
        (Some((user, user_end)), Some((system, system_end))) => Some(
            (
                String::from_str(stat.substring_char(user, user_end)),
                String::from_str(stat.substring_char(system, system_end)),
            ),
        ),
        _ => None,
    }
}

/// Why a connection could not be told from a response.
#[derive(Clone, Copy, Debug, PartialEq, Eq, Structural)]
pub enum ConnectionError {
    /// The response lacks the header.
    Omitted,
    /// The header is not a number.
    Number(ParseFailure),
}

impl ConnectionError {
    /// The words that describe the failure.
    pub open spec fn words(self) -> Seq<char> {
        match self {
            ConnectionError::Omitted => "fixture response omitted connection id"@,
            ConnectionError::Number(failure) => failure.words(),
        }
    }

    /// The words that describe the failure.
    pub fn message(&self) -> (text: String)
        ensures
            text@ == self.words(),
    {
        match self {
            ConnectionError::Omitted => String::from_str("fixture response omitted connection id"),
            ConnectionError::Number(failure) => failure.message(),
        }
    }
}

/// The connection that a response names in its `x-benchmark-connection` header.
pub fn connection_id(header: Option<&str>) -> (connection: Result<u64, ConnectionError>)
    ensures
        match header {
            None => connection == Err::<u64, ConnectionError>(ConnectionError::Omitted),
            Some(text) => match connection {
                Ok(number) => unsigned_value(text@, u64::MAX as nat) == Ok::<nat, ParseFailure>(
                    number as nat,
                ),
                Err(error) => error matches ConnectionError::Number(failure) && unsigned_value(
                    text@,
                    u64::MAX as nat,
                ) == Err::<nat, ParseFailure>(failure),
            },
        },
{
    match header {
        None => Err(ConnectionError::Omitted),
        Some(text) => match parse_unsigned(&chars_of(text), u64::MAX) {
            Ok(number) => Ok(number),
            Err(failure) => Err(ConnectionError::Number(failure)),
        },
    }
}

/// The sums of all observations are those of the first and those of the others,
/// and one observation adds what it saw.
pub proof fn law_sums_add_up(first: Seq<Observation>, second: Seq<Observation>, one: Observation)
    ensures
        size_sum(first + second) == size_sum(first) + size_sum(second),
        digest_sum(first + second) == digest_sum(first) + digest_sum(second),
        chunk_sum(first + second) == chunk_sum(first) + chunk_sum(second),
        size_sum(seq![one]) == one.size,
        digest_sum(seq![one]) == one.digest,
        chunk_sum(seq![one]) == one.application_chunks,
    decreases second.len(),
{
    reveal_with_fuel(size_sum, 2);
    reveal_with_fuel(digest_sum, 2);
    reveal_with_fuel(chunk_sum, 2);
    if second.len() == 0 {
        assert(first + second =~= first);
    } else {
        law_sums_add_up(first, second.drop_last(), one);
        assert((first + second).drop_last() =~= first + second.drop_last());
        assert((first + second).last() == second.last());
    }
}

/// A line's end is its first line feed, or the end of the text.
proof fn lemma_line_end(text: Seq<char>)
    ensures
        line_end(text) <= text.len(),
        line_end(text) < text.len() ==> text[line_end(text) as int] == '\n',
        forall|index: int| 0 <= index < line_end(text) ==> #[trigger] text[index] != '\n',
    decreases text.len(),
{
    if text.len() > 0 && text[0] != '\n' {
        let rest = text.drop_first();
        lemma_line_end(rest);
        assert forall|index: int| 0 <= index < line_end(text) implies #[trigger] text[index]
            != '\n' by {
            if index > 0 {
                assert(text[index] == rest[index - 1]);
            }
        }
    }
}

/// Whether a text stands behind the label in a line of its own, after these
/// characters.
pub open spec fn stands_behind_label(status: Seq<char>, start: int, line: Seq<char>) -> bool {
    &&& 0 <= start <= status.len()
    &&& start == 0 || status[start - 1] == '\n'
    &&& (peak_label() + line).is_prefix_of(status.skip(start))
    &&& !line.contains('\n')
    &&& start + 6 + line.len() == status.len() || status[start + 6 + line.len()] == '\n'
}

/// The peak is read from a line that begins with its label, all of it behind the
/// label.
pub proof fn law_the_peak_has_a_line_of_its_own(status: Seq<char>, line: Seq<char>)
    requires
        peak_line(status) == Some(line),
    ensures
        exists|start: int| stands_behind_label(status, start, line),
    decreases status.len(),
{
    let end = line_end(status);
    let first = status.take(end as int);
    lemma_line_end(status);
    if peak_label().is_prefix_of(first) {
        assert(line == first.skip(6));
        assert(peak_label() + line =~= first);
        assert(status.skip(0) =~= status);
        assert(status.subrange(0, first.len() as int) =~= first);
        assert(stands_behind_label(status, 0, line));
    } else {
        let below = status.skip(end as int + 1);
        law_the_peak_has_a_line_of_its_own(below, line);
        let start = choose|start: int| stands_behind_label(below, start, line);
        let place = start + end + 1;
        assert(status.skip(place) =~= below.skip(start));
        if start > 0 {
            assert(status[place - 1] == below[start - 1]);
        }
        if start + 6 + line.len() < below.len() {
            assert(status[place + 6 + line.len()] == below[start + 6 + line.len()]);
        }
        assert(stands_behind_label(status, place, line));
    }
}

/// The words of a text are counted from nought: the first is what stands before
/// the first space, and behind it the count begins anew. Space before a word does
/// not matter.
pub proof fn law_words_are_counted(word: Seq<char>, space: char, rest: Seq<char>, index: nat)
    requires
        word.len() > 0,
        whitespace(space),
        forall|place: int| 0 <= place < word.len() ==> !whitespace(#[trigger] word[place]),
    ensures
        word_at(word + seq![space] + rest, 0, false) == Some(word),
        word_at(word + seq![space] + rest, index + 1, false) == word_at(rest, index, false),
        word_at(seq![space] + rest, index, false) == word_at(rest, index, false),
{
    let text = word + seq![space] + rest;
    lemma_until_space(word, space, rest);
    assert(text[0] == word[0]);
    assert(text.drop_first() =~= word.drop_first() + seq![space] + rest);
    lemma_inside_word(word.drop_first(), space, rest, index);
    assert((seq![space] + rest).drop_first() =~= rest);
}

/// A word ends at the first space.
proof fn lemma_until_space(word: Seq<char>, space: char, rest: Seq<char>)
    requires
        whitespace(space),
        forall|place: int| 0 <= place < word.len() ==> !whitespace(#[trigger] word[place]),
    ensures
        until_space(word + seq![space] + rest) == word,
    decreases word.len(),
{
    let text = word + seq![space] + rest;
    if word.len() == 0 {
        assert(text[0] == space);
        assert(until_space(text) =~= word);
    } else {
        let less = word.drop_first();
        assert forall|place: int| 0 <= place < less.len() implies !whitespace(
            #[trigger] less[place],
        ) by {
            assert(less[place] == word[place + 1]);
        }
        lemma_until_space(less, space, rest);
        assert(text[0] == word[0]);
        assert(text.drop_first() =~= less + seq![space] + rest);
        assert(seq![word[0]] + less =~= word);
    }
}

/// The rest of a word is passed over.
proof fn lemma_inside_word(word: Seq<char>, space: char, rest: Seq<char>, index: nat)
    requires
        whitespace(space),
        forall|place: int| 0 <= place < word.len() ==> !whitespace(#[trigger] word[place]),
    ensures
        word_at(word + seq![space] + rest, index, true) == word_at(rest, index, false),
    decreases word.len(),
{
    let text = word + seq![space] + rest;
    if word.len() == 0 {
        assert(text[0] == space);
        assert(text.drop_first() =~= rest);
    } else {
        let less = word.drop_first();
        assert forall|place: int| 0 <= place < less.len() implies !whitespace(
            #[trigger] less[place],
        ) by {
            assert(less[place] == word[place + 1]);
        }
        lemma_inside_word(less, space, rest, index);
        assert(text[0] == word[0]);
        assert(text.drop_first() =~= less + seq![space] + rest);
    }
}

/// The ticks are the words that stand eleventh and twelfth behind the last closing
/// bracket, counted from nought, whatever the name within the brackets holds.
pub proof fn law_ticks_stand_behind_the_name(name: Seq<char>, rest: Seq<char>)
    requires
        !rest.contains(')'),
    ensures
        tick_words(name + seq![')'] + rest) == (match (
            word_at(rest, 11, false),
            word_at(rest, 12, false),
        ) {
            (Some(user), Some(system)) => Some((user, system)),
            _ => None,
        }),
{
    let stat = name + seq![')'] + rest;
    lemma_last_place(name, rest);
    assert(stat.skip(name.len() as int + 1) =~= rest);
}

/// The last bracket is found.
proof fn lemma_last_place(name: Seq<char>, rest: Seq<char>)
    requires
        !rest.contains(')'),
    ensures
        last_place(name + seq![')'] + rest, ')') == Some(name.len()),
    decreases rest.len(),
{
    let stat = name + seq![')'] + rest;
    if rest.len() == 0 {
        assert(stat.last() == ')');
    } else {
        let less = rest.drop_last();
        assert(stat.last() == rest.last());
        assert(rest[rest.len() - 1] != ')');
        assert(stat.drop_last() =~= name + seq![')'] + less);
        assert(!less.contains(')')) by {
            if less.contains(')') {
                let place = choose|place: int| 0 <= place < less.len() && less[place] == ')';
                assert(rest[place] == ')');
            }
        }
        lemma_last_place(name, less);
    }
}

/// A missing figure is told as null, and a number by its digits.
pub proof fn law_figures_are_told(value: u64)
    ensures
        json_integer_text(None) == "null"@,
        unsigned_value(json_integer_text(Some(value)), u64::MAX as nat) == Ok::<
            nat,
            crate::text::ParseFailure,
        >(value as nat),
{
    crate::text::law_decimal_reads_back(value as nat, u64::MAX as nat);
}

} // verus!
