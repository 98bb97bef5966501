//! The line grammars of a test run's output: test result lines, failure
//! delimiters, block headers, summary lines and announcement lines.
use vstd::prelude::*;

use crate::parse::{
    failure, opt_view, Failure, GeneralTestType, ParseError, ParseErrorKind, ParsedTest, Status,
    Summary,
};
use crate::text::{
    class_has, contains, decimal_at, decimal_value, find_run_end, find_run_start, has_lit,
    has_lit_at, in_class, is_digit, lemma_run_end, lemma_run_start, lit_at, lit_len, run_end, run_start,
    slice_of, string_at, string_of, CharClass,
};

verus! {

/// What a test result line says of one test.
pub struct TestView {
    pub test_type: GeneralTestType,
    pub mod_path: Seq<char>,
    pub status: Status,
    pub file_path: Option<Seq<char>>,
    pub note: Option<Seq<char>>,
    pub error_reason: Option<Seq<char>>,
    pub ignore_reason: Option<Seq<char>>,
}

/// What a summary line says of one run.
pub struct SummaryView {
    pub status: Status,
    pub passed: u32,
    pub failed: u32,
    pub ignored: u32,
    pub measured: u32,
    pub filtered: u32,
    pub time: Seq<char>,
}

/// The status word `FAILED`, `ignored` or `ok` at `i`, and where it ends.
pub open spec fn status_word(s: Seq<char>, i: int) -> Option<(Status, int)> {
    if lit_at(s, i, "FAILED"@) {
        Some((Status::Failed, i + "FAILED"@.len()))
    } else if lit_at(s, i, "ignored"@) {
        Some((Status::Ignored, i + "ignored"@.len()))
    } else if lit_at(s, i, "ok"@) {
        Some((Status::Passed, i + "ok"@.len()))
    } else {
        None
    }
}

/// From `t`: either ` - <note> ... ` or ` ... `; the note, and where the
/// status starts.  A note is a run of word characters and spaces.
pub open spec fn note_then_status(s: Seq<char>, t: int) -> Option<(Option<Seq<char>>, int)> {
    if lit_at(s, t, " - "@) {
        let n0 = t + " - "@.len();
        let r1 = run_end(s, n0, CharClass::WordSpace);
        if r1 - n0 >= 2 && s[r1 - 1] == ' ' && lit_at(s, r1, "... "@) {
            Some((Some(s.subrange(n0, r1 - 1)), r1 + "... "@.len()))
        } else {
            None
        }
    } else if lit_at(s, t, " ... "@) {
        Some((None, t + " ... "@.len()))
    } else {
        None
    }
}

/// The status of a doc test from its status text, found by containment in the
/// fixed order `FAILED`, `ignored`, `ok`, and `Ok` where none is there.
pub open spec fn status_of_text(t: Seq<char>) -> Status {
    if contains(t, "FAILED"@) {
        Status::Failed
    } else if contains(t, "ignored"@) {
        Status::Ignored
    } else {
        Status::Passed
    }
}

/// An ordinary test line:
/// `test <mod_path>( - <note>)? ... (FAILED|ignored|ok)(, <ignore_reason>)?`.
pub open spec fn normal_at(s: Seq<char>, i: int) -> Option<TestView> {
    if !lit_at(s, i, "test "@) {
        None
    } else {
        let m0 = i + "test "@.len();
        let m1 = run_end(s, m0, CharClass::WordColon);
        if m1 == m0 {
            None
        } else {
            match note_then_status(s, m1) {
                None => None,
                Some((note, a)) => match status_word(s, a) {
                    None => None,
                    Some((status, e)) => {
                        let r0 = e + ", "@.len();
                        let r1 = run_end(s, r0, CharClass::WordSpace);
                        Some(
                            TestView {
                                test_type: GeneralTestType::Normal,
                                mod_path: s.subrange(m0, m1),
                                status,
                                file_path: None,
                                note,
                                error_reason: None,
                                ignore_reason: if lit_at(s, e, ", "@) && r1 > r0 {
                                    Some(s.subrange(r0, r1))
                                } else {
                                    None
                                },
                            },
                        )
                    },
                },
            }
        }
    }
}

/// The optional module path of a doc test line at `p`, and where it ends.
pub open spec fn doc_module(s: Seq<char>, p: int) -> (Seq<char>, int) {
    if 0 <= p && p + 1 < s.len() && s[p] == ' ' && in_class(CharClass::WordSlashColon, s[p + 1]) {
        let q = run_end(s, p + 1, CharClass::WordSlashColon);
        (s.subrange(p + 1, q), q)
    } else {
        (Seq::empty(), p)
    }
}

/// A doc test line:
/// `test <file_path> -( <mod_path>)? (line <n>)( - <note>)? ... <status>`.
pub open spec fn doc_at(s: Seq<char>, i: int) -> Option<TestView> {
    if !lit_at(s, i, "test "@) {
        None
    } else {
        let f0 = i + "test "@.len();
        let f1 = run_end(s, f0, CharClass::WordSlashDot);
        if f1 == f0 || !lit_at(s, f1, " -"@) {
            None
        } else {
            let (mod_path, q) = doc_module(s, f1 + " -"@.len());
            let d0 = q + " (line "@.len();
            let d1 = run_end(s, d0, CharClass::Digit);
            if !lit_at(s, q, " (line "@) || d1 == d0 || !lit_at(s, d1, ")"@) {
                None
            } else {
                match note_then_status(s, d1 + ")"@.len()) {
                    None => None,
                    Some((note, a)) => {
                        let e = run_end(s, a, CharClass::Word);
                        if e == a {
                            None
                        } else {
                            Some(
                                TestView {
                                    test_type: GeneralTestType::Doc,
                                    mod_path,
                                    status: status_of_text(s.subrange(a, e)),
                                    file_path: Some(s.subrange(f0, f1)),
                                    note,
                                    error_reason: None,
                                    ignore_reason: None,
                                },
                            )
                        }
                    },
                }
            }
        }
    }
}

/// A test result line: the ordinary grammar is tried first, then the doc
/// test grammar.
pub open spec fn classify(s: Seq<char>) -> Option<TestView> {
    match normal_line(s) {
        Some(t) => Some(t),
        None => doc_line(s),
    }
}

/// A failure delimiter `---- <mod_path> <channel> ----`, and its path.
pub open spec fn delimiter_at(s: Seq<char>, i: int) -> Option<Seq<char>> {
    let at0 = i + "---- "@.len();
    let at1 = run_end(s, at0, CharClass::WordColon);
    let c0 = at1 + " "@.len();
    let c1 = run_end(s, c0, CharClass::Word);
    if lit_at(s, i, "---- "@) && at1 > at0 && lit_at(s, at1, " "@) && c1 > c0 && lit_at(
        s,
        c1,
        " ----"@,
    ) {
        Some(s.subrange(at0, at1))
    } else {
        None
    }
}

/// A block header `running <count> test` from `i`: where its digits start
/// and end.
pub open spec fn header_at(s: Seq<char>, i: int) -> Option<(int, int)> {
    let d0 = i + "running "@.len();
    let d1 = run_end(s, d0, CharClass::Digit);
    if lit_at(s, i, "running "@) && d1 > d0 && lit_at(s, d1, " test"@) {
        Some((d0, d1))
    } else {
        None
    }
}

/// Digits from `p`, then `label`: where the label ends.
pub open spec fn field(s: Seq<char>, p: int, label: Seq<char>) -> Option<int> {
    let d = run_end(s, p, CharClass::Digit);
    if d > p && lit_at(s, d, label) {
        Some(d + label.len())
    } else {
        None
    }
}

/// A count of a summary line: the number that the digits from `p` write, or
/// 0 where it does not fit in a `u32`.
pub open spec fn count_at(s: Seq<char>, p: int) -> u32 {
    let v = decimal_value(s.subrange(p, run_end(s, p, CharClass::Digit)));
    if v <= u32::MAX {
        v as u32
    } else {
        0
    }
}

/// The start of each of the five counts of a summary line, and the start of
/// its time, where the line follows the summary grammar
/// `test result: <word>. <n> passed; <n> failed; <n> ignored; <n> measured;
/// <n> filtered out; finished in <time>s`.
pub open spec fn summary_at(s: Seq<char>, i: int) -> Option<Seq<int>> {
    let w0 = i + "test result: "@.len();
    let w1 = run_end(s, w0, CharClass::Word);
    let at0 = w1 + ". "@.len();
    if !lit_at(s, i, "test result: "@) || w1 == w0 || !lit_at(s, w1, ". "@) {
        None
    } else {
        match field(s, at0, " passed; "@) {
            None => None,
            Some(at1) => match field(s, at1, " failed; "@) {
                None => None,
                Some(at2) => match field(s, at2, " ignored; "@) {
                    None => None,
                    Some(at3) => match field(s, at3, " measured; "@) {
                        None => None,
                        Some(at4) => match field(s, at4, " filtered out; finished in "@) {
                            None => None,
                            Some(at5) => {
                                let t1 = run_end(s, at5, CharClass::DigitDot);
                                if t1 > at5 && lit_at(s, t1, "s"@) {
                                    Some(seq![w0, w1, at0, at1, at2, at3, at4, at5, t1])
                                } else {
                                    None
                                }
                            },
                        },
                    },
                },
            },
        }
    }
}

/// A summary line read into its counts.
pub open spec fn summary_line(s: Seq<char>) -> Result<SummaryView, Failure> {
    match summary_positions(s) {
        None => Err(failure(ParseErrorKind::MalformedSummary, s)),
        Some(p) => {
            let word = s.subrange(p[0], p[1]);
            if word != "ok"@ && word != "FAILED"@ {
                Err(failure(ParseErrorKind::UnrecognizedSummaryStatus, word))
            } else {
                Ok(
                    SummaryView {
                        status: if word == "ok"@ {
                            Status::Passed
                        } else {
                            Status::Failed
                        },
                        passed: count_at(s, p[2]),
                        failed: count_at(s, p[3]),
                        ignored: count_at(s, p[4]),
                        measured: count_at(s, p[5]),
                        filtered: count_at(s, p[6]),
                        time: s.subrange(p[7], p[8]),
                    },
                )
            }
        },
    }
}

/// From `p`: `<path> (target/debug/deps/<crate>-<hash>)`; the path and the
/// crate name.  The crate name is the longest that leaves a hash of word
/// characters.
pub open spec fn running_tail(s: Seq<char>, p: int) -> Option<(Seq<char>, Seq<char>)> {
    let at1 = run_end(s, p, CharClass::WordSlashDotDash);
    let c0 = at1 + " (target/debug/deps/"@.len();
    let c1 = run_end(s, c0, CharClass::WordSlashDotDash);
    let h = run_start(s, c0, c1, CharClass::Word);
    if at1 > p && lit_at(s, at1, " (target/debug/deps/"@) && lit_at(s, c1, ")"@) && h < c1 && h - 1
        > c0 && s[h - 1] == '-' {
        Some((s.subrange(p, at1), s.subrange(c0, h - 1)))
    } else {
        None
    }
}

/// An announcement `Running (unittests )?<path> (target/debug/deps/<crate>-<hash>)`:
/// its path and crate name.
pub open spec fn running_at(s: Seq<char>, i: int) -> Option<(Seq<char>, Seq<char>)> {
    let a = i + "Running "@.len();
    let u = a + "unittests "@.len();
    if !lit_at(s, i, "Running "@) {
        None
    } else if lit_at(s, a, "unittests "@) && running_tail(s, u) is Some {
        running_tail(s, u)
    } else {
        running_tail(s, a)
    }
}

/// An announcement `Doc-tests <crate>`.
pub open spec fn doc_announcement_at(s: Seq<char>, i: int) -> bool {
    let a = i + "Doc-tests "@.len();
    lit_at(s, i, "Doc-tests "@) && a < s.len() && in_class(CharClass::WordDash, s[a])
}

} // verus!

verus! {

// Each grammar is searched for along the line: a line matches where the
// grammar matches from some position, and the leftmost such position counts.

pub open spec fn normal_from(s: Seq<char>, i: int) -> Option<TestView>
    decreases s.len() + 1 - i,
{
    if i < 0 || i > s.len() {
        None
    } else if normal_at(s, i) is Some {
        normal_at(s, i)
    } else {
        normal_from(s, i + 1)
    }
}

/// The leftmost match of the ordinary test grammar in `s`.
pub open spec fn normal_line(s: Seq<char>) -> Option<TestView> {
    normal_from(s, 0)
}

pub open spec fn doc_from(s: Seq<char>, i: int) -> Option<TestView>
    decreases s.len() + 1 - i,
{
    if i < 0 || i > s.len() {
        None
    } else if doc_at(s, i) is Some {
        doc_at(s, i)
    } else {
        doc_from(s, i + 1)
    }
}

/// The leftmost match of the doc test grammar in `s`.
pub open spec fn doc_line(s: Seq<char>) -> Option<TestView> {
    doc_from(s, 0)
}

pub open spec fn delimiter_from(s: Seq<char>, i: int) -> Option<Seq<char>>
    decreases s.len() + 1 - i,
{
    if i < 0 || i > s.len() {
        None
    } else if delimiter_at(s, i) is Some {
        delimiter_at(s, i)
    } else {
        delimiter_from(s, i + 1)
    }
}

/// The path of the leftmost failure delimiter in `s`.
pub open spec fn delimiter(s: Seq<char>) -> Option<Seq<char>> {
    delimiter_from(s, 0)
}

pub open spec fn header_from(s: Seq<char>, i: int) -> Option<(int, int)>
    decreases s.len() + 1 - i,
{
    if i < 0 || i > s.len() {
        None
    } else if header_at(s, i) is Some {
        header_at(s, i)
    } else {
        header_from(s, i + 1)
    }
}

/// The digits of the leftmost block header in `s`.
pub open spec fn header(s: Seq<char>) -> Option<(int, int)> {
    header_from(s, 0)
}

pub open spec fn summary_from(s: Seq<char>, i: int) -> Option<Seq<int>>
    decreases s.len() + 1 - i,
{
    if i < 0 || i > s.len() {
        None
    } else if summary_at(s, i) is Some {
        summary_at(s, i)
    } else {
        summary_from(s, i + 1)
    }
}

/// The positions of the leftmost match of the summary grammar in `s`.
pub open spec fn summary_positions(s: Seq<char>) -> Option<Seq<int>> {
    summary_from(s, 0)
}

pub open spec fn running_from(s: Seq<char>, i: int) -> Option<(Seq<char>, Seq<char>)>
    decreases s.len() + 1 - i,
{
    if i < 0 || i > s.len() {
        None
    } else if running_at(s, i) is Some {
        running_at(s, i)
    } else {
        running_from(s, i + 1)
    }
}

/// The path and crate name of the leftmost `Running` announcement in `s`.
pub open spec fn running_line(s: Seq<char>) -> Option<(Seq<char>, Seq<char>)> {
    running_from(s, 0)
}

pub open spec fn doc_announcement_from(s: Seq<char>, i: int) -> bool
    decreases s.len() + 1 - i,
{
    if i < 0 || i > s.len() {
        false
    } else {
        doc_announcement_at(s, i) || doc_announcement_from(s, i + 1)
    }
}

/// `s` holds a `Doc-tests <crate>` announcement.
pub open spec fn doc_announcement(s: Seq<char>) -> bool {
    doc_announcement_from(s, 0)
}

} // verus!

verus! {

fn read_status_word(s: &Vec<char>, i: usize) -> (r: Option<(Status, usize)>)
    ensures
        match r {
            None => status_word(s@, i as int) is None,
            Some((st, e)) => status_word(s@, i as int) == Some((st, e as int)),
        },
{
    if has_lit_at(s, i, "FAILED") {
        Some((Status::Failed, i + lit_len("FAILED")))
    } else if has_lit_at(s, i, "ignored") {
        Some((Status::Ignored, i + lit_len("ignored")))
    } else if has_lit_at(s, i, "ok") {
        Some((Status::Passed, i + lit_len("ok")))
    } else {
        None
    }
}

fn read_note_then_status(s: &Vec<char>, t: usize) -> (r: Option<(Option<String>, usize)>)
    ensures
        match r {
            None => note_then_status(s@, t as int) is None,
            Some((note, a)) => note_then_status(s@, t as int) == Some((opt_view(note), a as int))
                && a <= s@.len(),
        },
{
    if has_lit_at(s, t, " - ") {
        let n0 = t + lit_len(" - ");
        let r1 = find_run_end(s, n0, CharClass::WordSpace);
        proof {
            lemma_run_end(s@, n0 as int, CharClass::WordSpace);
        }
        if r1 - n0 >= 2 && s[r1 - 1] == ' ' && has_lit_at(s, r1, "... ") {
            Some((Some(string_at(s, n0, r1 - 1)), r1 + lit_len("... ")))
        } else {
            None
        }
    } else if has_lit_at(s, t, " ... ") {
        Some((None, t + lit_len(" ... ")))
    } else {
        None
    }
}

fn read_normal_at(s: &Vec<char>, i: usize) -> (r: Option<ParsedTest>)
    ensures
        match r {
            None => normal_at(s@, i as int) is None,
            Some(t) => normal_at(s@, i as int) == Some(t@),
        },
{
    if !has_lit_at(s, i, "test ") {
        return None;
    }
    let m0 = i + lit_len("test ");
    let m1 = find_run_end(s, m0, CharClass::WordColon);
    proof {
        lemma_run_end(s@, m0 as int, CharClass::WordColon);
    }
    if m1 == m0 {
        return None;
    }
    match read_note_then_status(s, m1) {
        None => None,
        Some((note, a)) => match read_status_word(s, a) {
            None => None,
            Some((status, e)) => {
                let ignore_reason = if has_lit_at(s, e, ", ") {
                    let r0 = e + lit_len(", ");
                    let r1 = find_run_end(s, r0, CharClass::WordSpace);
                    proof {
                        lemma_run_end(s@, r0 as int, CharClass::WordSpace);
                    }
                    if r1 > r0 {
                        Some(string_at(s, r0, r1))
                    } else {
                        None
                    }
                } else {
                    None
                };
                Some(
                    ParsedTest {
                        test_type: GeneralTestType::Normal,
                        mod_path: string_at(s, m0, m1),
                        status,
                        file_path: None,
                        note,
                        error_reason: None,
                        ignore_reason,
                    },
                )
            },
        },
    }
}

fn read_doc_module(s: &Vec<char>, p: usize) -> (r: (String, usize))
    requires
        p <= s@.len(),
    ensures
        doc_module(s@, p as int) == (r.0@, r.1 as int),
        r.1 <= s@.len(),
{
    if p < s.len() && s.len() - p > 1 && s[p] == ' ' && class_has(CharClass::WordSlashColon, s[p + 1]) {
        let q = find_run_end(s, p + 1, CharClass::WordSlashColon);
        proof {
            lemma_run_end(s@, p + 1, CharClass::WordSlashColon);
        }
        (string_at(s, p + 1, q), q)
    } else {
        let e = String::new();
        (e, p)
    }
}

fn read_doc_at(s: &Vec<char>, i: usize) -> (r: Option<ParsedTest>)
    ensures
        match r {
            None => doc_at(s@, i as int) is None,
            Some(t) => doc_at(s@, i as int) == Some(t@),
        },
{
    if !has_lit_at(s, i, "test ") {
        return None;
    }
    let f0 = i + lit_len("test ");
    let f1 = find_run_end(s, f0, CharClass::WordSlashDot);
    proof {
        lemma_run_end(s@, f0 as int, CharClass::WordSlashDot);
    }
    if f1 == f0 || !has_lit_at(s, f1, " -") {
        return None;
    }
    let (mod_path, q) = read_doc_module(s, f1 + lit_len(" -"));
    if !has_lit_at(s, q, " (line ") {
        return None;
    }
    let d0 = q + lit_len(" (line ");
    let d1 = find_run_end(s, d0, CharClass::Digit);
    proof {
        lemma_run_end(s@, d0 as int, CharClass::Digit);
    }
    if d1 == d0 || !has_lit_at(s, d1, ")") {
        return None;
    }
    match read_note_then_status(s, d1 + lit_len(")")) {
        None => None,
        Some((note, a)) => {
            let e = find_run_end(s, a, CharClass::Word);
            proof {
                lemma_run_end(s@, a as int, CharClass::Word);
            }
            if e == a {
                return None;
            }
            let word = slice_of(s, a, e);
            let status = if has_lit(&word, "FAILED") {
                Status::Failed
            } else if has_lit(&word, "ignored") {
                Status::Ignored
            } else {
                Status::Passed
            };
            Some(
                ParsedTest {
                    test_type: GeneralTestType::Doc,
                    mod_path,
                    status,
                    file_path: Some(string_at(s, f0, f1)),
                    note,
                    error_reason: None,
                    ignore_reason: None,
                },
            )
        },
    }
}

/// Reads a test result line by the ordinary grammar, else by the doc test
/// grammar.
pub fn read_test_line(s: &Vec<char>) -> (r: Option<ParsedTest>)
    ensures
        match r {
            None => classify(s@) is None,
            Some(t) => classify(s@) == Some(t@),
        },
{
    match read_normal_line(s) {
        Some(t) => Some(t),
        None => read_doc_line(s),
    }
}

fn read_delimiter_at(s: &Vec<char>, i: usize) -> (r: Option<String>)
    ensures
        opt_view(r) == delimiter_at(s@, i as int),
{
    if !has_lit_at(s, i, "---- ") {
        return None;
    }
    let at0 = i + lit_len("---- ");
    let at1 = find_run_end(s, at0, CharClass::WordColon);
    proof {
        lemma_run_end(s@, at0 as int, CharClass::WordColon);
    }
    if at1 == at0 || !has_lit_at(s, at1, " ") {
        return None;
    }
    let c0 = at1 + lit_len(" ");
    let c1 = find_run_end(s, c0, CharClass::Word);
    if c1 > c0 && has_lit_at(s, c1, " ----") {
        Some(string_at(s, at0, at1))
    } else {
        None
    }
}

fn read_header_at(s: &Vec<char>, i: usize) -> (r: Option<(usize, usize)>)
    ensures
        match r {
            None => header_at(s@, i as int) is None,
            Some((d0, d1)) => header_at(s@, i as int) == Some((d0 as int, d1 as int)) && d0 <= d1
                <= s@.len() && forall|k: int| d0 <= k < d1 ==> is_digit(#[trigger] s@[k]),
        },
{
    if !has_lit_at(s, i, "running ") {
        return None;
    }
    let d0 = i + lit_len("running ");
    let d1 = find_run_end(s, d0, CharClass::Digit);
    proof {
        lemma_run_end(s@, d0 as int, CharClass::Digit);
    }
    if d1 > d0 && has_lit_at(s, d1, " test") {
        Some((d0, d1))
    } else {
        None
    }
}

fn read_field(s: &Vec<char>, p: usize, label: &str) -> (r: Option<usize>)
    requires
        p <= s@.len(),
    ensures
        match r {
            None => field(s@, p as int, label@) is None,
            Some(e) => field(s@, p as int, label@) == Some(e as int) && e <= s@.len(),
        },
{
    let d = find_run_end(s, p, CharClass::Digit);
    proof {
        lemma_run_end(s@, p as int, CharClass::Digit);
    }
    if d > p && has_lit_at(s, d, label) {
        Some(d + lit_len(label))
    } else {
        None
    }
}

fn read_count(s: &Vec<char>, p: usize) -> (r: u32)
    requires
        p <= s@.len(),
    ensures
        r == count_at(s@, p as int),
{
    let d = find_run_end(s, p, CharClass::Digit);
    proof {
        lemma_run_end(s@, p as int, CharClass::Digit);
    }
    match decimal_at(s, p, d, 0xffff_ffff) {
        Some(v) => v as u32,
        None => 0,
    }
}

fn read_summary_at(s: &Vec<char>, i: usize) -> (r: Option<Vec<usize>>)
    ensures
        match r {
            None => summary_at(s@, i as int) is None,
            Some(p) => summary_at(s@, i as int) == Some(p@.map_values(|x: usize| x as int))
                && p@.len() == 9 && (forall|i: int| 0 <= i < 9 ==> #[trigger] p@[i] <= s@.len())
                && p@[0] <= p@[1] && p@[7] <= p@[8],
        },
{
    if !has_lit_at(s, i, "test result: ") {
        return None;
    }
    let w0 = i + lit_len("test result: ");
    let w1 = find_run_end(s, w0, CharClass::Word);
    proof {
        lemma_run_end(s@, w0 as int, CharClass::Word);
    }
    if w1 == w0 || !has_lit_at(s, w1, ". ") {
        return None;
    }
    let at0 = w1 + lit_len(". ");
    let at1 = match read_field(s, at0, " passed; ") {
        None => return None,
        Some(e) => e,
    };
    let at2 = match read_field(s, at1, " failed; ") {
        None => return None,
        Some(e) => e,
    };
    let at3 = match read_field(s, at2, " ignored; ") {
        None => return None,
        Some(e) => e,
    };
    let at4 = match read_field(s, at3, " measured; ") {
        None => return None,
        Some(e) => e,
    };
    let at5 = match read_field(s, at4, " filtered out; finished in ") {
        None => return None,
        Some(e) => e,
    };
    let t1 = find_run_end(s, at5, CharClass::DigitDot);
    proof {
        lemma_run_end(s@, at5 as int, CharClass::DigitDot);
    }
    if t1 > at5 && has_lit_at(s, t1, "s") {
        let r = vec![w0, w1, at0, at1, at2, at3, at4, at5, t1];
        assert(r@.map_values(|x: usize| x as int) =~= seq![
            w0 as int,
            w1 as int,
            at0 as int,
            at1 as int,
            at2 as int,
            at3 as int,
            at4 as int,
            at5 as int,
            t1 as int,
        ]);
        Some(r)
    } else {
        None
    }
}

/// Reads a summary line into its counts.
pub fn read_summary(s: &Vec<char>) -> (r: Result<Summary, ParseError>)
    ensures
        match r {
            Ok(v) => summary_line(s@) == Ok::<SummaryView, Failure>(v@),
            Err(e) => summary_line(s@) == Err::<SummaryView, Failure>(e@),
        },
{
    let p = match read_summary_positions(s) {
        None => {
            let l = string_of(s);
            return Err(ParseError::new(ParseErrorKind::MalformedSummary, l.as_str()));
        },
        Some(p) => p,
    };
    let word = slice_of(s, p[0], p[1]);
    let is_ok = word.len() == lit_len("ok") && has_lit_at(&word, 0, "ok");
    let is_failed = word.len() == lit_len("FAILED") && has_lit_at(&word, 0, "FAILED");
    proof {
        if is_ok {
            assert(word@ =~= "ok"@);
        }
        if is_failed {
            assert(word@ =~= "FAILED"@);
        }
        if word@ == "ok"@ {
            assert(word@.subrange(0, word@.len() as int) =~= word@);
        }
        if word@ == "FAILED"@ {
            assert(word@.subrange(0, word@.len() as int) =~= word@);
        }
    }
    if !is_ok && !is_failed {
        let w = string_of(&word);
        return Err(ParseError::new(ParseErrorKind::UnrecognizedSummaryStatus, w.as_str()));
    }
    Ok(
        Summary {
            status: if is_ok {
                Status::Passed
            } else {
                Status::Failed
            },
            passed: read_count(s, p[2]),
            failed: read_count(s, p[3]),
            ignored: read_count(s, p[4]),
            measured: read_count(s, p[5]),
            filtered: read_count(s, p[6]),
            time: string_at(s, p[7], p[8]),
        },
    )
}

fn read_running_tail(s: &Vec<char>, p: usize) -> (r: Option<(String, String)>)
    requires
        p <= s@.len(),
    ensures
        match r {
            None => running_tail(s@, p as int) is None,
            Some((path, name)) => running_tail(s@, p as int) == Some((path@, name@)),
        },
{
    let at1 = find_run_end(s, p, CharClass::WordSlashDotDash);
    proof {
        lemma_run_end(s@, p as int, CharClass::WordSlashDotDash);
    }
    if at1 == p || !has_lit_at(s, at1, " (target/debug/deps/") {
        return None;
    }
    let c0 = at1 + lit_len(" (target/debug/deps/");
    let c1 = find_run_end(s, c0, CharClass::WordSlashDotDash);
    proof {
        lemma_run_end(s@, c0 as int, CharClass::WordSlashDotDash);
    }
    let h = find_run_start(s, c0, c1, CharClass::Word);
    proof {
        lemma_run_start(s@, c0 as int, c1 as int, CharClass::Word);
    }
    if has_lit_at(s, c1, ")") && h < c1 && h > c0 + 1 && s[h - 1] == '-' {
        Some((string_at(s, p, at1), string_at(s, c0, h - 1)))
    } else {
        None
    }
}

fn read_running_at(s: &Vec<char>, i: usize) -> (r: Option<(String, String)>)
    ensures
        match r {
            None => running_at(s@, i as int) is None,
            Some((path, name)) => running_at(s@, i as int) == Some((path@, name@)),
        },
{
    if !has_lit_at(s, i, "Running ") {
        return None;
    }
    let a = i + lit_len("Running ");
    if has_lit_at(s, a, "unittests ") {
        let u = a + lit_len("unittests ");
        let r = read_running_tail(s, u);
        if r.is_some() {
            return r;
        }
    }
    read_running_tail(s, a)
}

fn is_doc_announcement_at(s: &Vec<char>, i: usize) -> (r: bool)
    ensures
        r == doc_announcement_at(s@, i as int),
{
    if !has_lit_at(s, i, "Doc-tests ") {
        return false;
    }
    let a = i + lit_len("Doc-tests ");
    a < s.len() && class_has(CharClass::WordDash, s[a])
}

} // verus!

verus! {

/// Reads the leftmost ordinary test line in `s`.
pub fn read_normal_line(s: &Vec<char>) -> (r: Option<ParsedTest>)
    ensures
        match r {
            None => normal_line(s@) is None,
            Some(t) => normal_line(s@) == Some(t@),
        },
{
    let n = s.len();
    let mut i: usize = 0;
    loop
        invariant
            i <= n,
            n == s@.len(),
            normal_from(s@, i as int) == normal_from(s@, 0),
        decreases n - i,
    {
        let r = read_normal_at(s, i);
        if r.is_some() {
            return r;
        }
        if i == n {
            assert(normal_from(s@, i + 1) is None);
            return r;
        }
        i = i + 1;
    }
}

/// Reads the leftmost doc test line in `s`.
pub fn read_doc_line(s: &Vec<char>) -> (r: Option<ParsedTest>)
    ensures
        match r {
            None => doc_line(s@) is None,
            Some(t) => doc_line(s@) == Some(t@),
        },
{
    let n = s.len();
    let mut i: usize = 0;
    loop
        invariant
            i <= n,
            n == s@.len(),
            doc_from(s@, i as int) == doc_from(s@, 0),
        decreases n - i,
    {
        let r = read_doc_at(s, i);
        if r.is_some() {
            return r;
        }
        if i == n {
            assert(doc_from(s@, i + 1) is None);
            return r;
        }
        i = i + 1;
    }
}

/// The path of the leftmost failure delimiter in `s`.
pub fn read_delimiter(s: &Vec<char>) -> (r: Option<String>)
    ensures
        opt_view(r) == delimiter(s@),
{
    let n = s.len();
    let mut i: usize = 0;
    loop
        invariant
            i <= n,
            n == s@.len(),
            delimiter_from(s@, i as int) == delimiter_from(s@, 0),
        decreases n - i,
    {
        let r = read_delimiter_at(s, i);
        if r.is_some() {
            return r;
        }
        if i == n {
            assert(delimiter_from(s@, i + 1) is None);
            return r;
        }
        i = i + 1;
    }
}

/// Where the digits of the leftmost block header in `s` start and end.
pub fn read_header(s: &Vec<char>) -> (r: Option<(usize, usize)>)
    ensures
        match r {
            None => header(s@) is None,
            Some((d0, d1)) => header(s@) == Some((d0 as int, d1 as int)) && d0 <= d1 <= s@.len()
                && forall|k: int| d0 <= k < d1 ==> is_digit(#[trigger] s@[k]),
        },
{
    let n = s.len();
    let mut i: usize = 0;
    loop
        invariant
            i <= n,
            n == s@.len(),
            header_from(s@, i as int) == header_from(s@, 0),
        decreases n - i,
    {
        let r = read_header_at(s, i);
        if r.is_some() {
            return r;
        }
        if i == n {
            assert(header_from(s@, i + 1) is None);
            return r;
        }
        i = i + 1;
    }
}

fn read_summary_positions(s: &Vec<char>) -> (r: Option<Vec<usize>>)
    ensures
        match r {
            None => summary_positions(s@) is None,
            Some(p) => summary_positions(s@) == Some(p@.map_values(|x: usize| x as int))
                && p@.len() == 9 && (forall|i: int| 0 <= i < 9 ==> #[trigger] p@[i] <= s@.len())
                && p@[0] <= p@[1] && p@[7] <= p@[8],
        },
{
    let n = s.len();
    let mut i: usize = 0;
    loop
        invariant
            i <= n,
            n == s@.len(),
            summary_from(s@, i as int) == summary_from(s@, 0),
        decreases n - i,
    {
        let r = read_summary_at(s, i);
        if r.is_some() {
            return r;
        }
        if i == n {
            assert(summary_from(s@, i + 1) is None);
            return r;
        }
        i = i + 1;
    }
}

/// Reads the path and crate name of the leftmost `Running` announcement in
/// `s`.
pub fn read_running_line(s: &Vec<char>) -> (r: Option<(String, String)>)
    ensures
        match r {
            None => running_line(s@) is None,
            Some((path, name)) => running_line(s@) == Some((path@, name@)),
        },
{
    let n = s.len();
    let mut i: usize = 0;
    loop
        invariant
            i <= n,
            n == s@.len(),
            running_from(s@, i as int) == running_from(s@, 0),
        decreases n - i,
    {
        let r = read_running_at(s, i);
        if r.is_some() {
            return r;
        }
        if i == n {
            assert(running_from(s@, i + 1) is None);
            return r;
        }
        i = i + 1;
    }
}

/// Whether `s` holds a doc test announcement.
pub fn is_doc_announcement(s: &Vec<char>) -> (r: bool)
    ensures
        r == doc_announcement(s@),
{
    let n = s.len();
    let mut i: usize = 0;
    loop
        invariant
            i <= n,
            n == s@.len(),
            doc_announcement_from(s@, i as int) == doc_announcement_from(s@, 0),
        decreases n - i,
    {
        if is_doc_announcement_at(s, i) {
            return true;
        }
        if i == n {
            assert(!doc_announcement_from(s@, i + 1));
            return false;
        }
        i = i + 1;
    }
}

} // verus!
