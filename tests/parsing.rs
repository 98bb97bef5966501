use cargo_ptest::grammar::{read_delimiter, read_running_line, read_summary, read_test_line};
use cargo_ptest::parse::{
    merge_outputs, parse, read_block_tests, GeneralTestType, ParseErrorKind, ParsedTest,
    ParsedTestGroup, RawTestGroup, Status, Summary, TestType,
};

fn chars(s: &str) -> Vec<char> {
    s.chars().collect()
}

fn lines(ls: &[&str]) -> Vec<Vec<char>> {
    ls.iter().map(|l| chars(l)).collect()
}

const UNIT_STDERR: &str = "   Compiling mycrate v0.1.0 (/work/mycrate)\n    Finished test [unoptimized + debuginfo] target(s) in 0.50s\n     Running unittests src/lib.rs (target/debug/deps/mycrate-abcdef)\n";

const TWO_OK_STDOUT: &str = "\nrunning 2 tests\ntest tests::a ... ok\ntest tests::b ... ok\n\ntest result: ok. 2 passed; 0 failed; 0 ignored; 0 measured; 0 filtered out; finished in 0.01s\n\n";

fn parse_ok(stdout: &str, stderr: &str) -> Vec<ParsedTestGroup> {
    match parse(stdout.to_string(), stderr.to_string()) {
        Ok(gs) => gs,
        Err(e) => panic!("unexpected error {:?}", e),
    }
}

fn parse_err(stdout: &str, stderr: &str) -> ParseErrorKind {
    match parse(stdout.to_string(), stderr.to_string()) {
        Ok(_) => panic!("expected an error"),
        Err(e) => {
            assert!(e.error.starts_with("ParseError: "));
            e.kind
        }
    }
}

#[test]
fn ordinary_ok_line() {
    let t = read_test_line(&chars("test a::b::c ... ok")).unwrap();
    assert_eq!(t.test_type, GeneralTestType::Normal);
    assert_eq!(t.mod_path, "a::b::c");
    assert_eq!(t.status, Status::Passed);
    assert_eq!(t.note, None);
    assert_eq!(t.ignore_reason, None);
    assert_eq!(t.file_path, None);
    assert_eq!(t.error_reason, None);
}

#[test]
fn failed_line_with_note() {
    let t = read_test_line(&chars("test a::b - should panic ... FAILED")).unwrap();
    assert_eq!(t.mod_path, "a::b");
    assert_eq!(t.status, Status::Failed);
    assert_eq!(t.note, Some("should panic".to_string()));
}

#[test]
fn ignored_line_with_reason() {
    let t = read_test_line(&chars("test a::b ... ignored, not yet implemented")).unwrap();
    assert_eq!(t.status, Status::Ignored);
    assert_eq!(t.ignore_reason, Some("not yet implemented".to_string()));
    assert_eq!(t.note, None);
}

#[test]
fn doc_line_reads_file_and_path() {
    let t = read_test_line(&chars("test src/lib.rs - add (line 5) ... ok")).unwrap();
    assert_eq!(t.test_type, GeneralTestType::Doc);
    assert_eq!(t.mod_path, "add");
    assert_eq!(t.file_path, Some("src/lib.rs".to_string()));
    assert_eq!(t.status, Status::Passed);
    let t = read_test_line(&chars("test src/lib.rs - (line 12) - compile fail ... FAILED")).unwrap();
    assert_eq!(t.mod_path, "");
    assert_eq!(t.note, Some("compile fail".to_string()));
    assert_eq!(t.status, Status::Failed);
}

#[test]
fn doc_status_by_containment() {
    let t = read_test_line(&chars("test src/a.rs - f (line 1) ... xignoredx")).unwrap();
    assert_eq!(t.status, Status::Ignored);
    let t = read_test_line(&chars("test src/a.rs - f (line 1) ... okFAILED")).unwrap();
    assert_eq!(t.status, Status::Failed);
    let t = read_test_line(&chars("test src/a.rs - f (line 1) ... whatever")).unwrap();
    assert_eq!(t.status, Status::Passed);
}

#[test]
fn line_matching_no_grammar() {
    assert!(read_test_line(&chars("test a::b ... maybe")).is_none());
    assert!(read_test_line(&chars("nothing here")).is_none());
}

#[test]
fn delimiter_path() {
    assert_eq!(read_delimiter(&chars("---- tests::bad stdout ----")), Some("tests::bad".to_string()));
    assert_eq!(read_delimiter(&chars("---- tests::bad ----")), None);
}

#[test]
fn running_line_crate_name() {
    let (path, name) =
        read_running_line(&chars("Running unittests src/lib.rs (target/debug/deps/my-crate-0a1b2c)")).unwrap();
    assert_eq!(path, "src/lib.rs");
    assert_eq!(name, "my-crate");
    let (path, name) = read_running_line(&chars("Running tests/it.rs (target/debug/deps/it-99ff)")).unwrap();
    assert_eq!(path, "tests/it.rs");
    assert_eq!(name, "it");
    assert!(read_running_line(&chars("Running something else")).is_none());
}

#[test]
fn summary_counts() {
    let s = read_summary(&chars(
        "test result: FAILED. 3 passed; 2 failed; 1 ignored; 0 measured; 7 filtered out; finished in 1.25s",
    ))
    .unwrap();
    assert_eq!(s.status, Status::Failed);
    assert_eq!((s.passed, s.failed, s.ignored, s.measured, s.filtered), (3, 2, 1, 0, 7));
    assert_eq!(s.time, "1.25");
}

#[test]
fn summary_count_too_large_is_zero() {
    let s = read_summary(&chars(
        "test result: ok. 4294967296 passed; 4294967295 failed; 0 ignored; 0 measured; 0 filtered out; finished in 0.00s",
    ))
    .unwrap();
    assert_eq!(s.passed, 0);
    assert_eq!(s.failed, 4294967295);
}

#[test]
fn summary_errors() {
    assert_eq!(
        read_summary(&chars(
            "test result: maybe. 1 passed; 0 failed; 0 ignored; 0 measured; 0 filtered out; finished in 0.01s"
        ))
        .err()
        .map(|e| e.kind),
        Some(ParseErrorKind::UnrecognizedSummaryStatus)
    );
    assert_eq!(
        read_summary(&chars("test result: ok.")).err().map(|e| e.kind),
        Some(ParseErrorKind::MalformedSummary)
    );
}

#[test]
fn one_unit_block() {
    let gs = parse_ok(TWO_OK_STDOUT, UNIT_STDERR);
    assert_eq!(gs.len(), 1);
    assert_eq!(gs[0].crate_name, "mycrate");
    assert_eq!(gs[0].file_path, vec!["src".to_string(), "lib.rs".to_string()]);
    assert_eq!(gs[0].tests.len(), 2);
    assert!(gs[0].tests.iter().all(|t| t.status == Status::Passed));
    assert_eq!(gs[0].tests[0].mod_path, "tests::a");
    assert_eq!(gs[0].tests[1].mod_path, "tests::b");
    let s = gs[0].summary.as_ref().unwrap();
    assert_eq!(s.passed, 2);
    assert_eq!(s.status, Status::Passed);
    assert_eq!(s.time, "0.01");
}

#[test]
fn carriage_returns_are_dropped() {
    let out = TWO_OK_STDOUT.replace('\n', "\r\n");
    let err = UNIT_STDERR.replace('\n', "\r\n");
    let gs = parse_ok(&out, &err);
    assert_eq!(gs[0].tests.len(), 2);
    assert_eq!(gs[0].tests[1].mod_path, "tests::b");
}

const FAILING_STDOUT: &str = "
running 2 tests
test tests::good ... ok
test tests::bad ... FAILED

failures:

---- tests::bad stdout ----
thread 'tests::bad' panicked at src/lib.rs:10:5:
assertion failed

failures:
    tests::bad

test result: FAILED. 1 passed; 1 failed; 0 ignored; 0 measured; 0 filtered out; finished in 0.00s
";

#[test]
fn failure_detail_attached() {
    let gs = parse_ok(FAILING_STDOUT, UNIT_STDERR);
    let tests = &gs[0].tests;
    assert_eq!(tests.len(), 2);
    let failed: Vec<_> = tests.iter().filter(|t| t.status == Status::Failed).collect();
    assert_eq!(failed.len(), 1);
    assert_eq!(
        failed[0].error_reason,
        Some("thread 'tests::bad' panicked at src/lib.rs:10:5:\nassertion failed\n".to_string())
    );
    assert_eq!(tests[0].error_reason, None);
    assert_eq!(gs[0].summary.as_ref().unwrap().failed, 1);
}

#[test]
fn no_blocks_found() {
    assert_eq!(parse_err("nothing to see\n", UNIT_STDERR), ParseErrorKind::NoTestsFound);
    assert_eq!(parse_err("", ""), ParseErrorKind::NoTestsFound);
    assert_eq!(parse_err(TWO_OK_STDOUT, ""), ParseErrorKind::NoTestsFound);
}

const DOC_STDOUT: &str = "
running 1 test
test tests::a ... ok

test result: ok. 1 passed; 0 failed; 0 ignored; 0 measured; 0 filtered out; finished in 0.00s


running 2 tests
test src/lib.rs - add (line 5) ... ok
test src/lib.rs - Thing::new (line 20) ... ignored

test result: ok. 1 passed; 0 failed; 1 ignored; 0 measured; 0 filtered out; finished in 0.30s
";

const DOC_STDERR: &str = "     Running unittests src/lib.rs (target/debug/deps/mycrate-abcdef)\n   Doc-tests mycrate\n";

#[test]
fn doc_tests_group() {
    let gs = parse_ok(DOC_STDOUT, DOC_STDERR);
    assert_eq!(gs.len(), 2);
    assert_eq!(gs[0].crate_name, "mycrate");
    assert_eq!(gs[0].tests.len(), 1);
    let d = &gs[1];
    assert_eq!(d.crate_name, "Doc-tests");
    assert!(d.file_path.is_empty());
    assert!(d.summary.is_none());
    assert_eq!(d.tests.len(), 2);
    assert!(d.tests.iter().all(|t| t.test_type == GeneralTestType::Doc));
    assert_eq!(d.tests[1].mod_path, "Thing::new");
    assert_eq!(d.tests[1].status, Status::Ignored);
}

#[test]
fn declared_count_beyond_lines_truncates() {
    let ls = lines(&["running 5 tests", "test a ... ok", "test b ... FAILED"]);
    let (tests, next) = read_block_tests(&ls).unwrap();
    assert_eq!(tests.len(), 2);
    assert_eq!(next, 3);
    assert_eq!(tests[1].status, Status::Failed);
    assert_eq!(
        parse_err("running 5 tests\ntest a ... ok\n", UNIT_STDERR),
        ParseErrorKind::MissingSummary
    );
}

#[test]
fn count_too_large() {
    let ls = lines(&["running 99999999999999999999999 tests"]);
    assert_eq!(read_block_tests(&ls).err().map(|e| e.kind), Some(ParseErrorKind::CountNotNumeric));
    let ls = lines(&["test a ... ok"]);
    assert_eq!(read_block_tests(&ls).err().map(|e| e.kind), Some(ParseErrorKind::MissingTestCount));
}

#[test]
fn bad_test_line_is_an_error() {
    let out = "running 1 test\nthis is not a test line\ntest result: ok. 1 passed; 0 failed; 0 ignored; 0 measured; 0 filtered out; finished in 0.00s\n";
    assert_eq!(parse_err(out, UNIT_STDERR), ParseErrorKind::LineGrammarMismatch);
}

#[test]
fn malformed_announcement() {
    assert_eq!(
        parse_err(TWO_OK_STDOUT, "     Running something strange\n"),
        ParseErrorKind::MalformedAnnouncement
    );
}

#[test]
fn header_without_announcement_is_passed_over() {
    let out = format!("{}running 1 test\ntest z ... ok\n", TWO_OK_STDOUT);
    let gs = parse_ok(&out, UNIT_STDERR);
    assert_eq!(gs.len(), 1);
    assert_eq!(gs[0].tests.len(), 2);
}

#[test]
fn merge_pairs_by_position() {
    let out = format!("{}{}", TWO_OK_STDOUT, TWO_OK_STDOUT);
    let err = "     Running unittests src/lib.rs (target/debug/deps/first-aaaa)\n     Running tests/it.rs (target/debug/deps/second-bbbb)\n";
    let raw = merge_outputs(out.clone(), err.to_string()).ok().unwrap();
    assert_eq!(raw.len(), 2);
    assert_eq!(raw[0].crate_name, "first");
    assert_eq!(raw[0].test_type, TestType::Unit);
    assert_eq!(raw[1].crate_name, "second");
    assert_eq!(raw[1].test_type, TestType::Tests);
    assert_eq!(raw[1].full_path(), "second/tests/it.rs");
    assert_eq!(raw[1].joined_components(), "tests/it.rs");
    assert_eq!(raw[1].test_data[0], "running 2 tests");
    assert_eq!(raw[1].describe(), "tests/it.rs is type Tests");
}

#[test]
fn raw_group_doc() {
    let g = RawTestGroup::new(String::new(), vec!["x".to_string()], true).ok().unwrap();
    assert_eq!(g.crate_name, "Doc-tests");
    assert_eq!(g.test_type, TestType::Doc);
    assert!(g.file_path.is_empty());
}

#[test]
fn error_converts_to_run_error() {
    let e = parse("".to_string(), "".to_string()).err().unwrap();
    let r = e.to_run_error();
    assert_eq!(r.error, e.error);
    assert_eq!(r.message(), format!("\x1b[31m{}\x1b[0m", e.error));
}

#[test]
fn parsed_test_new_and_describe() {
    let t = ParsedTest::new("test a::b - slow one ... ignored, later".to_string()).ok().unwrap();
    assert_eq!(t.note, Some("slow one".to_string()));
    assert_eq!(t.ignore_reason, Some("later".to_string()));
    assert_eq!(
        t.describe(),
        "\nParsedTest {\n    test_type: Normal\n    module_path: a::b\n    status: Ignored\n    file_path: None\n    note: Some(\"slow one\")\n    error_reason: None\n    ignore_reason: Some(\"later\")\n}"
    );
    assert_eq!(
        ParsedTest::new("garbage".to_string()).err().map(|e| e.kind),
        Some(ParseErrorKind::LineGrammarMismatch)
    );
}

#[test]
fn summary_new_and_default() {
    let s = Summary::new("test result: ok. 0 passed; 0 failed; 0 ignored; 0 measured; 5 filtered out; finished in 0.00s")
        .ok()
        .unwrap();
    assert_eq!(s.filtered, 5);
    assert_eq!(s.status, Status::Passed);
    let d = Summary::default();
    assert_eq!(d.status, Status::Failed);
    assert_eq!(d.passed, 0);
    assert_eq!(d.time, "0.0");
    assert_eq!(Summary::new("nope").err().map(|e| e.kind), Some(ParseErrorKind::MalformedSummary));
}

#[test]
fn two_failures_each_get_their_text() {
    let out = "running 3 tests
test m::one ... FAILED
test m::two ... FAILED
test m::three ... ok

failures:

---- m::one stdout ----
first text
---- m::two stdout ----
second text
more

failures:
    m::one
    m::two

test result: FAILED. 1 passed; 2 failed; 0 ignored; 0 measured; 0 filtered out; finished in 0.02s
";
    let gs = parse_ok(out, UNIT_STDERR);
    let t = &gs[0].tests;
    assert_eq!(t[0].error_reason, Some("first text\n".to_string()));
    assert_eq!(t[1].error_reason, Some("second text\nmore\n".to_string()));
    assert_eq!(t[2].error_reason, None);
    assert_eq!(gs[0].summary.as_ref().unwrap().failed, 2);
}

#[test]
fn grammars_match_inside_a_line() {
    let out = "a running 1 test\ntest a ... ok\nx test result: ok. 1 passed; 0 failed; 0 ignored; 0 measured; 0 filtered out; finished in 0.00s\n";
    let gs = parse_ok(out, "  Running tests/a.rs (target/debug/deps/a-1)\n");
    assert_eq!(gs.len(), 1);
    assert_eq!(gs[0].crate_name, "a");
    assert_eq!(gs[0].tests.len(), 1);
    assert_eq!(gs[0].summary.as_ref().unwrap().passed, 1);
    let g = RawTestGroup::new("x Running tests/a.rs (target/debug/deps/a-1)".to_string(), Vec::new(), false)
        .ok()
        .unwrap();
    assert_eq!(g.crate_name, "a");
    assert_eq!(g.joined_components(), "tests/a.rs");
    let s = Summary::new("x test result: ok. 1 passed; 0 failed; 0 ignored; 0 measured; 0 filtered out; finished in 0.01s")
        .ok()
        .unwrap();
    assert_eq!(s.passed, 1);
    let t = read_test_line(&chars("ok: test a::b ... FAILED")).unwrap();
    assert_eq!(t.mod_path, "a::b");
    assert_eq!(t.status, Status::Failed);
}

#[test]
fn error_messages_carry_the_input() {
    let e = parse("running 1 test\ntest a ... ok\n".to_string(), UNIT_STDERR.to_string()).err().unwrap();
    assert_eq!(e.kind, ParseErrorKind::MissingSummary);
    assert_eq!(e.error, "ParseError: Could not extract summary data for mycrate/src/lib.rs");
    let e = parse(
        "running 99999999999999999999999 tests\ntest result: ok. 0 passed; 0 failed; 0 ignored; 0 measured; 0 filtered out; finished in 0.00s\n".to_string(),
        UNIT_STDERR.to_string(),
    )
    .err()
    .unwrap();
    assert_eq!(
        e.error,
        "ParseError: Could not convert the captured number from a test block, got: 99999999999999999999999"
    );
    let e = Summary::new("test result: maybe. 1 passed; 0 failed; 0 ignored; 0 measured; 0 filtered out; finished in 0.01s")
        .err()
        .unwrap();
    assert_eq!(e.error, "ParseError: Status extracted from summary line could not be recognised, got maybe");
    let e = Summary::new("running 2 tests").err().unwrap();
    assert_eq!(
        e.error,
        "ParseError: Data could not be extracted from provided summary line, got \"running 2 tests\""
    );
    let e = merge_outputs("running 1 test\ntest a ... ok\n".to_string(), "Running garbage\n".to_string())
        .err()
        .unwrap();
    assert_eq!(e.error, "ParseError: Could not extract data from running line, got \"Running garbage\"");
    let e = ParsedTest::new("garbage".to_string()).err().unwrap();
    assert_eq!(e.error, "ParseError: Provided string wasn't normal test line or a Doc-test line, got garbage");
}

#[test]
fn diagnostic_goes_to_first_failed_test_with_path() {
    let out = "running 3 tests
test m::same ... ok
test m::same ... FAILED
test m::same ... FAILED

failures:

---- m::same stdout ----
boom

failures:
    m::same
    m::same

test result: FAILED. 1 passed; 2 failed; 0 ignored; 0 measured; 0 filtered out; finished in 0.02s
";
    let gs = parse_ok(out, UNIT_STDERR);
    let t = &gs[0].tests;
    assert_eq!(t[0].error_reason, None);
    assert_eq!(t[1].error_reason, Some("boom\n".to_string()));
    assert_eq!(t[2].error_reason, None);
}
