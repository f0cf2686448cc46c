use requests_native::allocation::{
    begin_allocation_measurement, end_allocation_measurement, record_allocation, AllocationMeter,
};
use requests_native::benchmark::{
    account_buffered, checksum, parse_args, split_work, ArgumentError, StreamAccount,
};
use requests_native::chunker::ApplicationChunker;
use requests_native::report::{
    connection_id, cpu_ticks, json_integer, observations_fit, render_report, rss_peak_bytes, rss_peak_kibibytes,
    total_observations, ConnectionError, Observation, RunFigures,
};
use requests_native::text::{
    join_decimals, lower_text, parse_signed, parse_unsigned, render_decimal, same_text, split_on,
    strip_space, ParseFailure,
};

#[test]
fn split_work_preserves_all_requests() {
    assert_eq!(split_work(11, 4), [3, 3, 3, 2]);
}

#[test]
fn application_chunks_ignore_transport_frame_boundaries_and_chunk_size() {
    for (chunk_size, expected) in [(1, vec![1; 14]), (4, vec![4, 4, 4, 2]), (7, vec![7, 7])] {
        let mut chunker = ApplicationChunker::new(chunk_size);
        let mut lengths = Vec::new();
        for frame in [b"abc".as_slice(), b"defgh", b"i", b"jklmn"] {
            lengths.extend(chunker.push(frame).iter().map(Vec::len));
        }
        if let Some(remainder) = chunker.finish() {
            lengths.push(remainder.len());
        }
        assert_eq!(lengths, expected);
    }
}

#[test]
fn allocation_replay_counts_successful_system_allocations() {
    let mut meter = AllocationMeter::new();
    begin_allocation_measurement(&mut meter);
    let allocation = std::hint::black_box(vec![0_u8; 1024]);
    record_allocation(&mut meter, !allocation.as_ptr().is_null(), allocation.len());
    let allocated = end_allocation_measurement(&mut meter);
    assert_eq!(allocation.len(), 1024);
    assert!(allocated >= 1024);
}

fn arguments(texts: &[&str]) -> Vec<String> {
    texts.iter().map(|text| String::from(*text)).collect()
}

fn complete() -> Vec<String> {
    arguments(&[
        "--surface",
        "rust-async",
        "--url",
        "http://localhost/",
        "--requests",
        "8",
        "--concurrency",
        "2",
        "--mode",
        "pooled",
        "--read",
        "streaming",
        "--chunk-size",
        "16",
    ])
}

#[test]
fn arguments_are_read_in_any_order() {
    let config = match parse_args(&complete()) {
        Ok(config) => config,
        Err(error) => panic!("{}", error.message()),
    };
    assert_eq!(config.surface, "rust-async");
    assert_eq!(config.requests, 8);
    assert_eq!(config.concurrency, 2);
    assert_eq!(config.chunk_size, 16);
    assert!(!config.measure_allocations);
}

#[test]
fn broken_arguments_are_refused() {
    let mut unknown = complete();
    unknown.push(String::from("--loud"));
    unknown.push(String::from("yes"));
    assert!(matches!(parse_args(&unknown), Err(ArgumentError::UnknownArgument(_))));
    let mut cut = complete();
    cut.pop();
    assert!(matches!(parse_args(&cut), Err(ArgumentError::MissingValue(_))));
    let mut wordy = complete();
    wordy[5] = String::from("many");
    assert!(matches!(
        parse_args(&wordy),
        Err(ArgumentError::Number(ParseFailure::InvalidDigit))
    ));
    let mut none = complete();
    none[5] = String::from("0");
    assert!(matches!(parse_args(&none), Err(ArgumentError::InvalidConfiguration)));
    assert!(matches!(parse_args(&Vec::new()), Err(ArgumentError::Missing(_))));
}

#[test]
fn bodies_are_added_up_piece_by_piece() {
    let whole = account_buffered(b"abcdef");
    assert_eq!(whole.size, 6);
    assert_eq!(whole.digest, checksum(b"abcdef"));
    let mut stream = StreamAccount::new(4);
    stream.push(b"abc");
    stream.push(b"def");
    let account = stream.finish();
    assert_eq!(account.size, 6);
    assert_eq!(account.application_chunks, 2);
    assert_eq!(checksum(&[1, 2, 250]), 253);
}

#[test]
fn observations_are_summed() {
    let observations = vec![
        Observation {
            latency_ns: 5,
            size: 10,
            digest: 3,
            connection: 2,
            application_chunks: 1,
        },
        Observation {
            latency_ns: 7,
            size: 20,
            digest: 4,
            connection: 1,
            application_chunks: 2,
        },
        Observation {
            latency_ns: 6,
            size: 30,
            digest: 5,
            connection: 2,
            application_chunks: 3,
        },
    ];
    let totals = total_observations(&observations);
    assert_eq!(totals.body_bytes, 60);
    assert_eq!(totals.digest, 12);
    assert_eq!(totals.application_chunks, 6);
    assert_eq!(totals.connections, vec![1, 2]);
    assert_eq!(totals.latencies_ns, vec![5, 7, 6]);
    let figures = RunFigures {
        elapsed_ns: 100,
        cpu_seconds: String::from("0.5"),
        rss_peak_bytes: Some(4096),
        native_total_allocated_bytes: None,
        requests: 3,
    };
    let report = render_report(&totals, &figures);
    assert!(report.contains("\"elapsed_ns\":100"));
    assert!(report.contains("null"));
    assert_eq!(json_integer(Some(12)), "12");
    assert_eq!(json_integer(None), "null");
}

#[test]
fn the_peak_is_read_from_the_status() {
    let status = "Name:\tprogram\nVmHWM:\t  2048 kB\nVmRSS:\t 100 kB\n";
    assert_eq!(rss_peak_kibibytes(status), Some(2048));
    assert_eq!(rss_peak_bytes(status), Some(2048 * 1024));
    assert_eq!(rss_peak_bytes("Name:\tprogram\n"), None);
}

#[test]
fn connections_are_told_by_number() {
    assert_eq!(connection_id(Some("17")).ok(), Some(17));
    assert!(matches!(connection_id(None), Err(ConnectionError::Omitted)));
    assert!(matches!(
        connection_id(Some("x")),
        Err(ConnectionError::Number(ParseFailure::InvalidDigit))
    ));
}

#[test]
fn texts_are_read_and_written() {
    assert_eq!(render_decimal(0), "0");
    assert_eq!(render_decimal(18446744073709551615), "18446744073709551615");
    assert_eq!(join_decimals(&vec![3, 1, 2]), "3,1,2");
    assert_eq!(split_on("a,b,,c", ','), vec!["a", "b", "", "c"]);
    assert_eq!(lower_text("GZip"), "gzip");
    assert_eq!(strip_space("  br\t"), "br");
    assert_eq!(parse_signed("-12"), Some(-12));
    assert_eq!(parse_signed("+7"), Some(7));
    assert_eq!(parse_signed("x"), None);
    assert!(same_text("a", "a"));
    assert!(!same_text("a", "ab"));
    assert!(matches!(
        parse_unsigned(&"300".chars().collect(), 255),
        Err(ParseFailure::TooLarge)
    ));
    assert!(matches!(
        parse_unsigned(&Vec::new(), 255),
        Err(ParseFailure::Empty)
    ));
}

#[test]
fn allocations_count_only_while_they_are_measured() {
    let mut meter = AllocationMeter::new();
    record_allocation(&mut meter, true, 10);
    begin_allocation_measurement(&mut meter);
    record_allocation(&mut meter, true, 20);
    record_allocation(&mut meter, false, 40);
    assert_eq!(end_allocation_measurement(&mut meter), 20);
    record_allocation(&mut meter, true, 80);
    assert_eq!(meter.bytes, 20);
}

#[test]
fn both_readings_of_a_body_agree() {
    let body: Vec<u8> = (0..23).collect();
    let buffered = account_buffered(&body);
    for cuts in [vec![0, 23], vec![0, 1, 9, 9, 23], vec![0, 22, 23]] {
        let mut stream = StreamAccount::new(5);
        for cut in cuts.windows(2) {
            stream.push(&body[cut[0]..cut[1]]);
        }
        let streamed = stream.finish();
        assert_eq!(streamed.size, buffered.size);
        assert_eq!(streamed.digest, buffered.digest);
        assert_eq!(streamed.application_chunks, 5);
    }
    assert_eq!(buffered.application_chunks, 0);
}

#[test]
fn processor_ticks_stand_behind_the_name() {
    let stat = "12 (a ) b) S 1 2 3 4 5 6 7 8 9  10 77 88.5 13\n";
    assert_eq!(cpu_ticks(stat), Some((String::from("77"), String::from("88.5"))));
    assert_eq!(cpu_ticks("12 (name) S 1 2 3 4 5 6 7 8 9 10 77"), None);
    assert_eq!(cpu_ticks("12 name S 1 2 3 4 5 6 7 8 9 10 77 88"), None);
}

#[test]
fn runs_that_are_too_large_do_not_fit() {
    let part = Observation {
        latency_ns: 1,
        size: usize::MAX - 1,
        digest: 2,
        connection: 1,
        application_chunks: 1,
    };
    let rest = Observation { size: 1, ..part };
    assert!(observations_fit(&vec![part, rest]));
    assert!(!observations_fit(&vec![part, rest, rest]));
    let digests = Observation { size: 0, digest: u64::MAX, ..part };
    assert!(!observations_fit(&vec![digests, digests]));
}
