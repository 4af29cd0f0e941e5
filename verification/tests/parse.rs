use benchparse::{drop_commas, parse_commas, parse_lines, Benchmark};

fn lines_of(text: &str) -> Vec<String> {
    text.lines().map(|l| l.to_string()).collect()
}

#[test]
fn parse_bench_output_test() {
    let test_data = "running 3 tests
test fastfield::multivalued::bench::bench_multi_value_ff_creation                                                        ... bench:  95,653,541 ns/iter (+/- 1,410,738)
test fastfield::multivalued::bench::bench_multi_value_ff_creation_with_sorting                                           ... bench: 103,466,980 ns/iter (+/- 6,247,651)
test fastfield::multivalued::bench::bench_multi_value_fflookup                                                           ... bench:   1,330,510 ns/iter (+/- 217,966)";
    let benchmarks = parse_lines(&lines_of(test_data));

    let shortnames: Vec<_> = benchmarks.iter().map(|bench| &bench.shortname).collect();
    assert_eq!(
        shortnames,
        &[
            "bench_multi_value_ff_creation",
            "bench_multi_value_ff_creation_with_sorting",
            "bench_multi_value_fflookup"
        ]
    );

    let shortnames: Vec<_> = benchmarks.iter().map(|bench| bench.ns).collect();
    assert_eq!(shortnames, &[95653541, 103466980, 1330510]);
}

#[test]
fn non_matching_lines_yield_absence() {
    assert!(Benchmark::parse_line("").is_none());
    assert!(Benchmark::parse_line("arbitrary prose, nothing else").is_none());
    // The marker and the name are there, but `bench:` is missing.
    assert!(Benchmark::parse_line("test foo::bar ... 12 ns/iter (+/- 3)").is_none());
    assert!(Benchmark::parse_line("running 3 tests").is_none());
}

#[test]
fn summary_line_is_skipped_without_error() {
    let out = parse_lines(&lines_of("running 3 tests"));
    assert_eq!(out.len(), 0);
}

#[test]
fn matched_line_fields_are_exact() {
    let b = Benchmark::parse_line("test a::b ... bench: 1,234 ns/iter (+/- 56)").unwrap();
    assert_eq!(b.name, "a::b");
    assert_eq!(b.shortname, "b");
    assert_eq!(b.ns, 1234);
    assert_eq!(b.variance, 56);
    assert_eq!(b.throughput, None);
}

#[test]
fn surrounding_text_is_tolerated() {
    let b =
        Benchmark::parse_line("[12:01] test x ... bench: 5 ns/iter (+/- 1) and more").unwrap();
    assert_eq!(b.name, "x");
    assert_eq!(b.ns, 5);
    assert_eq!(b.variance, 1);
}

#[test]
fn unicode_whitespace_separates_tokens() {
    // A non-breaking space counts as whitespace between tokens.
    let b = Benchmark::parse_line("test\u{00a0}x ... bench: 7 ns/iter (+/- 1)").unwrap();
    assert_eq!(b.name, "x");
    assert_eq!(b.ns, 7);
}

#[test]
fn comma_removal_examples() {
    assert_eq!(drop_commas("95,653,541"), "95653541");
    assert_eq!(drop_commas("1,330,510"), "1330510");
    assert_eq!(parse_commas("95,653,541"), Some(95653541));
    assert_eq!(parse_commas("1,330,510"), Some(1330510));
}

#[test]
fn comma_removal_is_idempotent_on_examples() {
    let once = drop_commas("95,653,541");
    let twice = drop_commas(&once);
    assert_eq!(once, twice);
    // Any comma placement is accepted; the commas are simply discarded.
    assert_eq!(parse_commas(",,1,23,"), Some(123));
}

#[test]
fn unparsable_numbers_yield_absence() {
    assert_eq!(parse_commas(""), None);
    assert_eq!(parse_commas(",,,"), None);
    assert_eq!(parse_commas("12x3"), None);
    // One past u64::MAX.
    assert_eq!(parse_commas("18446744073709551616"), None);
    assert_eq!(parse_commas("18446744073709551615"), Some(u64::MAX));
}

#[test]
fn throughput_present_and_absent() {
    let with = Benchmark::parse_line("test t ... bench: 10 ns/iter (+/- 2) = 2,314 MB/s").unwrap();
    assert_eq!(with.throughput, Some(2314));
    let without = Benchmark::parse_line("test t ... bench: 10 ns/iter (+/- 2)").unwrap();
    assert_eq!(without.throughput, None);
}

#[test]
fn overflowing_core_metric_discards_the_line() {
    // The duration does not fit in a u64: the whole record is dropped.
    let out = parse_lines(&lines_of(
        "test t ... bench: 99,999,999,999,999,999,999,999 ns/iter (+/- 1)",
    ));
    assert_eq!(out.len(), 0);
    // A comma-only duration capture strips to nothing: dropped as well.
    assert!(Benchmark::parse_line("test t ... bench: ,,, ns/iter (+/- 1)").is_none());
    // Same for the variance.
    assert!(
        Benchmark::parse_line("test t ... bench: 1 ns/iter (+/- 99,999,999,999,999,999,999,999)")
            .is_none()
    );
}

#[test]
fn overflowing_throughput_degrades_to_absent() {
    let b = Benchmark::parse_line(
        "test t ... bench: 10 ns/iter (+/- 2) = 99,999,999,999,999,999,999,999 MB/s",
    )
    .unwrap();
    assert_eq!(b.ns, 10);
    assert_eq!(b.variance, 2);
    assert_eq!(b.throughput, None);
}

#[test]
fn shortname_derivation() {
    let b = Benchmark::parse_line(
        "test fastfield::multivalued::bench::bench_multi_value_ff_creation ... bench: 1 ns/iter (+/- 1)",
    )
    .unwrap();
    assert_eq!(b.shortname, "bench_multi_value_ff_creation");
    let plain = Benchmark::parse_line("test lone_name ... bench: 1 ns/iter (+/- 1)").unwrap();
    assert_eq!(plain.shortname, plain.name);
    assert_eq!(plain.shortname, "lone_name");
}

#[test]
fn equality_and_ordering_go_by_name() {
    let a = Benchmark {
        name: "m::alpha".to_string(),
        shortname: "alpha".to_string(),
        ns: 1,
        variance: 2,
        throughput: None,
    };
    let b = Benchmark {
        name: "m::alpha".to_string(),
        shortname: "alpha".to_string(),
        ns: 999,
        variance: 0,
        throughput: Some(3),
    };
    let c = Benchmark {
        name: "m::beta".to_string(),
        shortname: "beta".to_string(),
        ns: 0,
        variance: 0,
        throughput: None,
    };
    // Identical names compare equal, whatever the figures say.
    assert!(a == b);
    assert_eq!(a.partial_cmp(&b), Some(std::cmp::Ordering::Equal));
    // Distinct names order lexicographically.
    assert!(a < c);
    assert!(c > a);
    assert_eq!(a.partial_cmp(&c), Some(std::cmp::Ordering::Less));
}

#[test]
fn batch_parsing_preserves_order_and_skips_noise() {
    let out = parse_lines(&lines_of(
        "running 2 tests
test z::second ... bench: 2 ns/iter (+/- 1)
noise in between
test a::first ... bench: 1 ns/iter (+/- 1)
test result: ok",
    ));
    let names: Vec<_> = out.iter().map(|b| &b.name).collect();
    // Input order is kept; nothing is sorted, deduplicated or shifted.
    assert_eq!(names, &["z::second", "a::first"]);
}

#[test]
fn duplicate_names_both_appear() {
    let out = parse_lines(&lines_of(
        "test same::one ... bench: 1 ns/iter (+/- 1)
test same::one ... bench: 2 ns/iter (+/- 1)",
    ));
    assert_eq!(out.len(), 2);
    assert_eq!(out[0].ns, 1);
    assert_eq!(out[1].ns, 2);
    assert!(out[0] == out[1]);
}

#[test]
fn throughput_line_example() {
    let out = parse_lines(&lines_of(
        "test io::read ... bench: 1,000 ns/iter (+/- 10) = 2,314 MB/s",
    ));
    assert_eq!(out.len(), 1);
    assert_eq!(out[0].ns, 1000);
    assert_eq!(out[0].variance, 10);
    assert_eq!(out[0].throughput, Some(2314));
}
