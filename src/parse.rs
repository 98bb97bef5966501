use vstd::prelude::*;

use crate::grammar::{
    classify, delimiter, doc_announcement, doc_line, header, read_delimiter, read_doc_line,
    read_header, read_summary, read_test_line, summary_line, SummaryView, TestView,
};
use crate::run::RunError;
pub use crate::segment::{merge_outputs, RawTestGroup};
use crate::segment::{
    announcements, flushed, group_views, kept_lines, merged, raw_group, seg_finish, seg_start,
    seg_step,
    segment_from, RawGroupView, SegState,
};
use crate::text::{
    append_chars, chars_of, decimal_at, decimal_value, has_lit_at, join, lit_at, string_at,
    string_of, string_views, views,
};

verus! {

/// The outcome of one test, or of a whole run.
#[derive(Clone, Copy, Debug, PartialEq, Eq, Structural)]
pub enum Status {
    Passed,
    Failed,
    Ignored,
}

/// What kind of binary a block of output came from.
#[derive(Clone, Copy, Debug, PartialEq, Eq, Structural)]
pub enum TestType {
    Unit,
    Doc,
    Tests,
}

/// Whether a result line was an ordinary test or a doc test.
#[derive(Clone, Copy, Debug, PartialEq, Eq, Structural)]
pub enum GeneralTestType {
    Normal,
    Doc,
}

impl Status {
    pub fn name(&self) -> (r: String)
        ensures
            r@ == status_name(*self),
    {
        match self {
            Status::Passed => String::from_str("Ok"),
            Status::Failed => String::from_str("Failed"),
            Status::Ignored => String::from_str("Ignored"),
        }
    }
}

pub open spec fn status_name(s: Status) -> Seq<char> {
    match s {
        Status::Passed => "Ok"@,
        Status::Failed => "Failed"@,
        Status::Ignored => "Ignored"@,
    }
}

impl TestType {
    pub fn name(&self) -> (r: String)
        ensures
            r@ == test_type_name(*self),
    {
        match self {
            TestType::Unit => String::from_str("Unit"),
            TestType::Doc => String::from_str("Doc"),
            TestType::Tests => String::from_str("Tests"),
        }
    }
}

pub open spec fn test_type_name(t: TestType) -> Seq<char> {
    match t {
        TestType::Unit => "Unit"@,
        TestType::Doc => "Doc"@,
        TestType::Tests => "Tests"@,
    }
}

impl GeneralTestType {
    pub fn name(&self) -> (r: String)
        ensures
            r@ == general_type_name(*self),
    {
        match self {
            GeneralTestType::Normal => String::from_str("Normal"),
            GeneralTestType::Doc => String::from_str("Doc"),
        }
    }
}

pub open spec fn general_type_name(t: GeneralTestType) -> Seq<char> {
    match t {
        GeneralTestType::Normal => "Normal"@,
        GeneralTestType::Doc => "Doc"@,
    }
}

pub open spec fn opt_view(o: Option<String>) -> Option<Seq<char>> {
    match o {
        Some(s) => Some(s@),
        None => None,
    }
}

/// One test and what the run said of it.
#[derive(Clone, Debug)]
pub struct ParsedTest {
    pub test_type: GeneralTestType,
    pub mod_path: String,
    pub status: Status,
    /// The file of a doc test.
    pub file_path: Option<String>,
    pub note: Option<String>,
    /// What the run printed about a failed test.
    pub error_reason: Option<String>,
    pub ignore_reason: Option<String>,
}

impl View for ParsedTest {
    type V = TestView;

    open spec fn view(&self) -> TestView {
        TestView {
            test_type: self.test_type,
            mod_path: self.mod_path@,
            status: self.status,
            file_path: opt_view(self.file_path),
            note: opt_view(self.note),
            error_reason: opt_view(self.error_reason),
            ignore_reason: opt_view(self.ignore_reason),
        }
    }
}

/// The kinds of error that stop a parse.
#[derive(Clone, Copy, Debug, PartialEq, Eq, Structural)]
pub enum ParseErrorKind {
    /// An announcement line does not name a binary path and a crate.
    MalformedAnnouncement,
    /// A line that should hold a test result matches neither test grammar.
    LineGrammarMismatch,
    /// A summary line does not follow the summary grammar.
    MalformedSummary,
    /// The overall result of a summary line is neither `ok` nor `FAILED`.
    UnrecognizedSummaryStatus,
    /// A block ended before its summary line.
    MissingSummary,
    /// A block does not start with a `running N tests` header.
    MissingTestCount,
    /// The count of a header is too large to be a count.
    CountNotNumeric,
    /// No block was found in the whole output.
    NoTestsFound,
}

pub open spec fn error_text(k: ParseErrorKind) -> Seq<char> {
    match k {
        ParseErrorKind::MalformedAnnouncement => "ParseError: Could not extract data from running line"@,
        ParseErrorKind::LineGrammarMismatch => "ParseError: Provided string wasn't normal test line or a Doc-test line"@,
        ParseErrorKind::MalformedSummary => "ParseError: Data could not be extracted from provided summary line"@,
        ParseErrorKind::UnrecognizedSummaryStatus => "ParseError: Status extracted from summary line could not be recognised"@,
        ParseErrorKind::MissingSummary => "ParseError: Could not extract summary data"@,
        ParseErrorKind::MissingTestCount => "ParseError: Could not find the test count of a test block"@,
        ParseErrorKind::CountNotNumeric => "ParseError: Could not convert the captured number from a test block"@,
        ParseErrorKind::NoTestsFound => "ParseError: No tests were found in the output"@,
    }
}

/// The message of an error of kind `k` about the input `detail`: the
/// kind's text, then the input where the kind names one.
pub open spec fn error_message(k: ParseErrorKind, detail: Seq<char>) -> Seq<char> {
    match k {
        ParseErrorKind::MalformedAnnouncement => error_text(k) + ", got \""@ + detail + "\""@,
        ParseErrorKind::LineGrammarMismatch => error_text(k) + ", got "@ + detail,
        ParseErrorKind::MalformedSummary => error_text(k) + ", got \""@ + detail + "\""@,
        ParseErrorKind::UnrecognizedSummaryStatus => error_text(k) + ", got "@ + detail,
        ParseErrorKind::MissingSummary => error_text(k) + " for "@ + detail,
        ParseErrorKind::CountNotNumeric => error_text(k) + ", got: "@ + detail,
        ParseErrorKind::MissingTestCount => error_text(k),
        ParseErrorKind::NoTestsFound => error_text(k),
    }
}

/// What a failed parse reports: its kind and its message.
pub struct Failure {
    pub kind: ParseErrorKind,
    pub message: Seq<char>,
}

pub open spec fn failure(k: ParseErrorKind, detail: Seq<char>) -> Failure {
    Failure { kind: k, message: error_message(k, detail) }
}

/// Why a parse failed.
#[derive(Debug)]
pub struct ParseError {
    pub kind: ParseErrorKind,
    pub error: String,
}

impl View for ParseError {
    type V = Failure;

    open spec fn view(&self) -> Failure {
        Failure { kind: self.kind, message: self.error@ }
    }
}

impl ParseError {
    /// The error of kind `kind` about the input `detail`.
    pub fn new(kind: ParseErrorKind, detail: &str) -> (r: ParseError)
        ensures
            r@ == failure(kind, detail@),
    {
        let text = match kind {
            ParseErrorKind::MalformedAnnouncement => "ParseError: Could not extract data from running line",
            ParseErrorKind::LineGrammarMismatch => "ParseError: Provided string wasn't normal test line or a Doc-test line",
            ParseErrorKind::MalformedSummary => "ParseError: Data could not be extracted from provided summary line",
            ParseErrorKind::UnrecognizedSummaryStatus => "ParseError: Status extracted from summary line could not be recognised",
            ParseErrorKind::MissingSummary => "ParseError: Could not extract summary data",
            ParseErrorKind::MissingTestCount => "ParseError: Could not find the test count of a test block",
            ParseErrorKind::CountNotNumeric => "ParseError: Could not convert the captured number from a test block",
            ParseErrorKind::NoTestsFound => "ParseError: No tests were found in the output",
        };
        let mut error = String::from_str(text);
        match kind {
            ParseErrorKind::MalformedAnnouncement | ParseErrorKind::MalformedSummary => {
                error.append(", got \"");
                error.append(detail);
                error.append("\"");
            },
            ParseErrorKind::LineGrammarMismatch | ParseErrorKind::UnrecognizedSummaryStatus => {
                error.append(", got ");
                error.append(detail);
            },
            ParseErrorKind::MissingSummary => {
                error.append(" for ");
                error.append(detail);
            },
            ParseErrorKind::CountNotNumeric => {
                error.append(", got: ");
                error.append(detail);
            },
            _ => {},
        }
        ParseError { kind, error }
    }

    /// The same error, as the error of a run.
    pub fn to_run_error(&self) -> (r: RunError)
        ensures
            r.error@ == self.error@,
    {
        RunError { error: self.error.clone() }
    }
}

/// The last line of a block: the counts of the run of one binary.
#[derive(Clone, Debug)]
pub struct Summary {
    pub status: Status,
    pub passed: u32,
    pub failed: u32,
    pub ignored: u32,
    pub measured: u32,
    pub filtered: u32,
    /// The elapsed seconds as the run wrote them (digits and `.`).
    pub time: String,
}

impl View for Summary {
    type V = SummaryView;

    open spec fn view(&self) -> SummaryView {
        SummaryView {
            status: self.status,
            passed: self.passed,
            failed: self.failed,
            ignored: self.ignored,
            measured: self.measured,
            filtered: self.filtered,
            time: self.time@,
        }
    }
}

} // verus!

verus! {

/// The parsed results of one block.
pub struct ParsedTestGroup {
    pub crate_name: String,
    pub file_path: Vec<String>,
    pub tests: Vec<ParsedTest>,
    /// The block's summary line; the doc block has none.
    pub summary: Option<Summary>,
}

pub struct GroupView {
    pub crate_name: Seq<char>,
    pub file_path: Seq<Seq<char>>,
    pub tests: Seq<TestView>,
    pub summary: Option<SummaryView>,
}

pub open spec fn test_views(v: Seq<ParsedTest>) -> Seq<TestView> {
    v.map_values(|t: ParsedTest| t@)
}

pub open spec fn summary_view(o: Option<Summary>) -> Option<SummaryView> {
    match o {
        Some(s) => Some(s@),
        None => None,
    }
}

impl View for ParsedTestGroup {
    type V = GroupView;

    open spec fn view(&self) -> GroupView {
        GroupView {
            crate_name: self.crate_name@,
            file_path: string_views(self.file_path@),
            tests: test_views(self.tests@),
            summary: summary_view(self.summary),
        }
    }
}

pub open spec fn parsed_views(v: Seq<ParsedTestGroup>) -> Seq<GroupView> {
    v.map_values(|g: ParsedTestGroup| g@)
}

/// The lines of `ls` from `i` on that are not empty.
pub open spec fn nonempty_from(ls: Seq<Seq<char>>, i: int) -> Seq<Seq<char>>
    decreases ls.len() - i,
{
    if i < 0 || i >= ls.len() {
        Seq::empty()
    } else if ls[i].len() > 0 {
        seq![ls[i]] + nonempty_from(ls, i + 1)
    } else {
        nonempty_from(ls, i + 1)
    }
}

/// The tests of the doc block: its lines that follow the doc test grammar.
pub open spec fn doc_tests(ls: Seq<Seq<char>>) -> Seq<TestView>
    decreases ls.len(),
{
    if ls.len() == 0 {
        Seq::empty()
    } else {
        match (doc_line(ls.last()), classify(ls.last())) {
            (Some(_), Some(t)) => doc_tests(ls.drop_last()).push(t),
            _ => doc_tests(ls.drop_last()),
        }
    }
}

/// Each of the lines `ls` read as a test; the first line that is none is an
/// error.
pub open spec fn tests_of(ls: Seq<Seq<char>>) -> Result<Seq<TestView>, Failure>
    decreases ls.len(),
{
    if ls.len() == 0 {
        Ok(Seq::empty())
    } else {
        match tests_of(ls.drop_last()) {
            Err(e) => Err(e),
            Ok(ts) => match classify(ls.last()) {
                None => Err(failure(ParseErrorKind::LineGrammarMismatch, ls.last())),
                Some(t) => Ok(ts.push(t)),
            },
        }
    }
}

/// How many of `ts` failed.
pub open spec fn failed_count(ts: Seq<TestView>) -> nat
    decreases ts.len(),
{
    if ts.len() == 0 {
        0
    } else {
        failed_count(ts.drop_last()) + if ts.last().status == Status::Failed {
            1nat
        } else {
            0nat
        }
    }
}

/// The state of the failure correlator: whether a delimiter was seen, the
/// text gathered since the last one, its path, whether the first
/// `failures:` line was seen, and the diagnostics closed so far.
pub struct CorState {
    pub add: bool,
    pub buffer: Seq<char>,
    pub name: Seq<char>,
    pub in_failures: bool,
    pub diags: Seq<(Seq<char>, Seq<char>)>,
}

pub open spec fn cor_start() -> CorState {
    CorState {
        add: false,
        buffer: Seq::empty(),
        name: Seq::empty(),
        in_failures: false,
        diags: Seq::empty(),
    }
}

/// The diagnostics of the failures section from line `i` on, as pairs of a
/// path and its text, and the line after the section.  The text of a
/// delimiter runs to the next delimiter or to the second `failures:` line,
/// one line and `\n` at a time.
pub open spec fn correlate(ls: Seq<Seq<char>>, i: int, st: CorState) -> (
    Seq<(Seq<char>, Seq<char>)>,
    int,
)
    decreases ls.len() - i,
{
    if i < 0 || i >= ls.len() {
        (st.diags, ls.len() as int)
    } else {
        match delimiter(ls[i]) {
            Some(path) => correlate(
                ls,
                i + 1,
                CorState {
                    add: true,
                    buffer: Seq::empty(),
                    name: path,
                    diags: if st.buffer.len() > 0 {
                        st.diags.push((st.name, st.buffer))
                    } else {
                        st.diags
                    },
                    ..st
                },
            ),
            None => if lit_at(ls[i], 0, "failures:"@) {
                if st.in_failures {
                    (
                        if st.add {
                            st.diags.push((st.name, st.buffer))
                        } else {
                            st.diags
                        },
                        i + 1,
                    )
                } else {
                    correlate(ls, i + 1, CorState { in_failures: true, ..st })
                }
            } else if st.add {
                correlate(ls, i + 1, CorState { buffer: st.buffer + ls[i] + "\n"@, ..st })
            } else {
                correlate(ls, i + 1, st)
            },
        }
    }
}

/// The text of the first diagnostic from `j` on whose path is `name`.
pub open spec fn first_diag(d: Seq<(Seq<char>, Seq<char>)>, name: Seq<char>, j: int) -> Option<
    Seq<char>,
>
    decreases d.len() - j,
{
    if j < 0 || j >= d.len() {
        None
    } else if d[j].0 == name {
        Some(d[j].1)
    } else {
        first_diag(d, name, j + 1)
    }
}

/// A failed ordinary test: the only kind that a diagnostic goes to.
pub open spec fn takes_diag(t: TestView) -> bool {
    t.test_type == GeneralTestType::Normal && t.status == Status::Failed
}

/// `ts[i]` is the first test of `ts` that takes a diagnostic and has its path.
pub open spec fn first_taker(ts: Seq<TestView>, i: int) -> bool {
    takes_diag(ts[i]) && forall|j: int|
        0 <= j < i ==> !(takes_diag(#[trigger] ts[j]) && ts[j].mod_path == ts[i].mod_path)
}

/// Test `i` of `ts` with its diagnostic attached: the first diagnostic for a
/// path goes to the first failed ordinary test with that path, and to no
/// other test.
pub open spec fn attach(ts: Seq<TestView>, i: int, d: Seq<(Seq<char>, Seq<char>)>) -> TestView {
    if first_taker(ts, i) && first_diag(d, ts[i].mod_path, 0) is Some {
        TestView { error_reason: first_diag(d, ts[i].mod_path, 0), ..ts[i] }
    } else {
        ts[i]
    }
}

pub open spec fn attached(ts: Seq<TestView>, d: Seq<(Seq<char>, Seq<char>)>) -> Seq<TestView> {
    Seq::new(ts.len(), |i: int| attach(ts, i, d))
}

/// The declared count of a header line.
pub open spec fn declared_count(l: Seq<char>) -> nat {
    decimal_value(l.subrange(header(l)->Some_0.0, header(l)->Some_0.1))
}

/// The tests of a block that is not the doc block, and the line after
/// them.  The block starts with its header; as many lines as it declares
/// follow, or fewer where the block ends first.
pub open spec fn block_tests(ls: Seq<Seq<char>>) -> Result<(Seq<TestView>, int), Failure> {
    if ls.len() == 0 || header(ls[0]) is None {
        Err(failure(ParseErrorKind::MissingTestCount, Seq::empty()))
    } else if declared_count(ls[0]) > usize::MAX {
        Err(
            failure(
                ParseErrorKind::CountNotNumeric,
                ls[0].subrange(header(ls[0])->Some_0.0, header(ls[0])->Some_0.1),
            ),
        )
    } else {
        let n = if declared_count(ls[0]) < ls.len() - 1 {
            declared_count(ls[0]) as int
        } else {
            ls.len() - 1
        };
        match tests_of(ls.subrange(1, 1 + n)) {
            Err(e) => Err(e),
            Ok(ts) => Ok((ts, 1 + n)),
        }
    }
}

/// One block read into its tests and summary.  The doc block keeps the
/// lines that follow the doc test grammar.  Another block starts with its
/// header; as many lines as it declares follow, or fewer where the block
/// ends first (see `block_tests`); then, where a test failed, the failures section and the list
/// of failed names; then the summary line.
#[verifier::opaque]
pub open spec fn parse_group(g: RawGroupView) -> Result<GroupView, Failure> {
    let ls = nonempty_from(g.test_data, 0);
    if g.test_type == TestType::Doc {
        Ok(
            GroupView {
                crate_name: g.crate_name,
                file_path: g.file_path,
                tests: doc_tests(ls),
                summary: None,
            },
        )
    } else {
        match block_tests(ls) {
            Err(e) => Err(e),
            Ok((ts, next)) => {
                let failed = failed_count(ts);
                let (diags, after) = if failed > 0 {
                    correlate(ls, next, cor_start())
                } else {
                    (Seq::empty(), next)
                };
                let pos = if after + failed < ls.len() {
                    after + failed
                } else {
                    ls.len() as int
                };
                if pos >= ls.len() {
                    Err(
                        failure(
                            ParseErrorKind::MissingSummary,
                            g.crate_name + "/"@ + join(g.file_path, "/"@),
                        ),
                    )
                } else {
                    match summary_line(ls[pos]) {
                        Err(e) => Err(e),
                        Ok(sm) => Ok(
                            GroupView {
                                crate_name: g.crate_name,
                                file_path: g.file_path,
                                tests: attached(ts, diags),
                                summary: Some(sm),
                            },
                        ),
                    }
                }
            },
        }
    }
}

/// Each block read in turn; the first error stops the whole.
pub open spec fn parse_groups(gs: Seq<RawGroupView>) -> Result<Seq<GroupView>, Failure>
    decreases gs.len(),
{
    if gs.len() == 0 {
        Ok(Seq::empty())
    } else {
        match parse_groups(gs.drop_last()) {
            Err(e) => Err(e),
            Ok(ps) => match parse_group(gs.last()) {
                Err(e) => Err(e),
                Ok(p) => Ok(ps.push(p)),
            },
        }
    }
}

/// The groups of a whole run.
pub open spec fn parsed(stdout: Seq<char>, stderr: Seq<char>) -> Result<
    Seq<GroupView>,
    Failure,
> {
    match merged(stdout, stderr) {
        Err(e) => Err(e),
        Ok(gs) => parse_groups(gs),
    }
}

} // verus!

verus! {

/// The index of the first line of `lines` from `from` on that is not empty.
pub fn get_next(lines: &Vec<String>, from: usize) -> (r: Option<usize>)
    ensures
        match r {
            Some(j) => from <= j < lines@.len() && lines@[j as int]@.len() > 0 && forall|k: int|
                from <= k < j ==> (#[trigger] lines@[k])@.len() == 0,
            None => forall|k: int| from <= k < lines@.len() ==> (#[trigger] lines@[k])@.len() == 0,
        },
{
    let mut j = from;
    while j < lines.len()
        invariant
            from <= j,
            forall|k: int| from <= k < j ==> (#[trigger] lines@[k])@.len() == 0,
        decreases lines@.len() - j,
    {
        if !lines[j].as_str().is_empty() {
            return Some(j);
        }
        j = j + 1;
    }
    None
}

proof fn lemma_skip_empty(ls: Seq<Seq<char>>, i: int, j: int)
    requires
        0 <= i <= j <= ls.len(),
        forall|k: int| i <= k < j ==> (#[trigger] ls[k]).len() == 0,
    ensures
        nonempty_from(ls, i) == nonempty_from(ls, j),
    decreases j - i,
{
    if i < j {
        lemma_skip_empty(ls, i + 1, j);
    }
}

/// The lines of `data` that are not empty, as characters.
fn nonempty_lines(data: &Vec<String>) -> (r: Vec<Vec<char>>)
    ensures
        views(r@) == nonempty_from(string_views(data@), 0),
{
    let ghost sv = string_views(data@);
    let mut out: Vec<Vec<char>> = Vec::new();
    let mut pos: usize = 0;
    let n = data.len();
    assert(views(out@) =~= Seq::<Seq<char>>::empty());
    loop
        invariant
            pos <= data@.len(),
            n == data@.len(),
            sv == string_views(data@),
            views(out@) + nonempty_from(sv, pos as int) == nonempty_from(sv, 0),
        decreases data@.len() - pos,
    {
        match get_next(data, pos) {
            None => {
                proof {
                    lemma_skip_empty(sv, pos as int, sv.len() as int);
                }
                assert(views(out@) + nonempty_from(sv, pos as int) =~= views(out@));
                return out;
            },
            Some(j) => {
                proof {
                    lemma_skip_empty(sv, pos as int, j as int);
                }
                let ghost before = views(out@);
                let l = chars_of(data[j].as_str());
                out.push(l);
                assert(views(out@) =~= before.push(sv[j as int]));
                assert(views(out@) + nonempty_from(sv, j + 1) =~= before + (seq![sv[j as int]]
                    + nonempty_from(sv, j + 1)));
                pos = j + 1;
            },
        }
    }
}

/// The tests of the doc block among the lines `ls`.
fn read_doc_tests(ls: &Vec<Vec<char>>) -> (r: Vec<ParsedTest>)
    ensures
        test_views(r@) == doc_tests(views(ls@)),
{
    let ghost lv = views(ls@);
    let mut out: Vec<ParsedTest> = Vec::new();
    let mut i: usize = 0;
    assert(test_views(out@) =~= Seq::<TestView>::empty());
    while i < ls.len()
        invariant
            i <= ls@.len(),
            lv == views(ls@),
            test_views(out@) == doc_tests(lv.subrange(0, i as int)),
        decreases ls@.len() - i,
    {
        assert(lv.subrange(0, i + 1).drop_last() =~= lv.subrange(0, i as int));
        assert(lv.subrange(0, i + 1).last() == ls@[i as int]@);
        if read_doc_line(&ls[i]).is_some() {
            match read_test_line(&ls[i]) {
                Some(t) => {
                    let ghost before = test_views(out@);
                    out.push(t);
                    assert(test_views(out@) =~= before.push(t@));
                },
                None => {},
            }
        }
        i = i + 1;
    }
    assert(lv.subrange(0, i as int) =~= lv);
    out
}

proof fn lemma_tests_err_extends(ls: Seq<Seq<char>>, i: int, j: int, e: Failure)
    requires
        0 <= i <= j <= ls.len(),
        tests_of(ls.subrange(0, i)) == Err::<Seq<TestView>, Failure>(e),
    ensures
        tests_of(ls.subrange(0, j)) == Err::<Seq<TestView>, Failure>(e),
    decreases j - i,
{
    if i < j {
        lemma_tests_err_extends(ls, i, j - 1, e);
        assert(ls.subrange(0, j).drop_last() =~= ls.subrange(0, j - 1));
    }
}

/// The lines `ls[from..to]`, each read as a test.
fn read_tests(ls: &Vec<Vec<char>>, from: usize, to: usize) -> (r: Result<
    Vec<ParsedTest>,
    ParseError,
>)
    requires
        from <= to <= ls@.len(),
    ensures
        match r {
            Ok(ts) => tests_of(views(ls@).subrange(from as int, to as int)) == Ok::<
                Seq<TestView>,
                Failure,
            >(test_views(ts@)),
            Err(e) => tests_of(views(ls@).subrange(from as int, to as int)) == Err::<
                Seq<TestView>,
                Failure,
            >(e@),
        },
{
    let ghost w = views(ls@).subrange(from as int, to as int);
    let mut out: Vec<ParsedTest> = Vec::new();
    let mut i = from;
    assert(test_views(out@) =~= Seq::<TestView>::empty());
    assert(w.subrange(0, 0) =~= Seq::<Seq<char>>::empty());
    while i < to
        invariant
            from <= i <= to <= ls@.len(),
            w == views(ls@).subrange(from as int, to as int),
            tests_of(w.subrange(0, i - from)) == Ok::<Seq<TestView>, Failure>(
                test_views(out@),
            ),
        decreases to - i,
    {
        assert(w.subrange(0, i - from + 1).drop_last() =~= w.subrange(0, i - from));
        assert(w.subrange(0, i - from + 1).last() == ls@[i as int]@);
        match read_test_line(&ls[i]) {
            Some(t) => {
                let ghost before = test_views(out@);
                out.push(t);
                assert(test_views(out@) =~= before.push(t@));
            },
            None => {
                proof {
                    lemma_tests_err_extends(
                        w,
                        i - from + 1,
                        w.len() as int,
                        failure(ParseErrorKind::LineGrammarMismatch, ls@[i as int]@),
                    );
                    assert(w.subrange(0, w.len() as int) =~= w);
                }
                let l = string_of(&ls[i]);
                return Err(ParseError::new(ParseErrorKind::LineGrammarMismatch, l.as_str()));
            },
        }
        i = i + 1;
    }
    assert(w.subrange(0, i - from) =~= w);
    Ok(out)
}

proof fn lemma_failed_count_bound(ts: Seq<TestView>)
    ensures
        failed_count(ts) <= ts.len(),
    decreases ts.len(),
{
    if ts.len() > 0 {
        lemma_failed_count_bound(ts.drop_last());
    }
}

/// How many of `ts` failed.
fn count_failed(ts: &Vec<ParsedTest>) -> (r: usize)
    ensures
        r == failed_count(test_views(ts@)),
{
    let ghost tv = test_views(ts@);
    let mut n: usize = 0;
    let mut i: usize = 0;
    while i < ts.len()
        invariant
            i <= ts@.len(),
            tv == test_views(ts@),
            n == failed_count(tv.subrange(0, i as int)),
        decreases ts@.len() - i,
    {
        assert(tv.subrange(0, i + 1).drop_last() =~= tv.subrange(0, i as int));
        proof {
            lemma_failed_count_bound(tv.subrange(0, i as int));
        }
        if ts[i].status == Status::Failed {
            n = n + 1;
        }
        i = i + 1;
    }
    assert(tv.subrange(0, i as int) =~= tv);
    n
}

pub open spec fn diag_views(d: Seq<(String, String)>) -> Seq<(Seq<char>, Seq<char>)> {
    d.map_values(|p: (String, String)| (p.0@, p.1@))
}

/// The diagnostics of the failures section that starts at line `start`,
/// and the line after the section.
fn correlate_failures(ls: &Vec<Vec<char>>, start: usize) -> (r: (Vec<(String, String)>, usize))
    requires
        start <= ls@.len(),
    ensures
        (diag_views(r.0@), r.1 as int) == correlate(views(ls@), start as int, cor_start()),
        r.1 <= ls@.len(),
{
    let ghost lv = views(ls@);
    let mut add = false;
    let mut buffer = String::new();
    let mut name = String::new();
    let mut in_failures = false;
    let mut diags: Vec<(String, String)> = Vec::new();
    let mut i = start;
    assert(diag_views(diags@) =~= Seq::<(Seq<char>, Seq<char>)>::empty());
    while i < ls.len()
        invariant
            start <= i <= ls@.len(),
            lv == views(ls@),
            correlate(
                lv,
                i as int,
                CorState { add, buffer: buffer@, name: name@, in_failures, diags: diag_views(diags@) },
            ) == correlate(lv, start as int, cor_start()),
        decreases ls@.len() - i,
    {
        let line = &ls[i];
        assert(lv[i as int] == line@);
        let ghost dv = diag_views(diags@);
        match read_delimiter(line) {
            Some(path) => {
                if buffer.as_str().unicode_len() > 0 {
                    let done = (name, buffer);
                    diags.push(done);
                    assert(diag_views(diags@) =~= dv.push((done.0@, done.1@)));
                }
                add = true;
                buffer = String::new();
                name = path;
            },
            None => {
                if has_lit_at(line, 0, "failures:") {
                    if in_failures {
                        if add {
                            let done = (name, buffer);
                            diags.push(done);
                            assert(diag_views(diags@) =~= dv.push((done.0@, done.1@)));
                        }
                        return (diags, i + 1);
                    }
                    in_failures = true;
                } else if add {
                    append_chars(&mut buffer, line);
                    buffer.append("\n");
                }
            },
        }
        i = i + 1;
    }
    (diags, i)
}

/// The text of the first of `diags` whose path is `name`.
fn find_diag(diags: &Vec<(String, String)>, name: &String) -> (r: Option<String>)
    ensures
        opt_view(r) == first_diag(diag_views(diags@), name@, 0),
{
    let ghost dv = diag_views(diags@);
    let mut j: usize = 0;
    while j < diags.len()
        invariant
            j <= diags@.len(),
            dv == diag_views(diags@),
            first_diag(dv, name@, j as int) == first_diag(dv, name@, 0),
        decreases diags@.len() - j,
    {
        assert(dv[j as int] == (diags@[j as int].0@, diags@[j as int].1@));
        if diags[j].0 == *name {
            return Some(diags[j].1.clone());
        }
        j = j + 1;
    }
    None
}

fn copy_text(o: &Option<String>) -> (r: Option<String>)
    ensures
        opt_view(r) == opt_view(*o),
{
    match o {
        Some(s) => Some(s.clone()),
        None => None,
    }
}

impl ParsedTest {
    /// A copy of this test.
    pub fn copy(&self) -> (r: ParsedTest)
        ensures
            r@ == self@,
    {
        ParsedTest {
            test_type: self.test_type,
            mod_path: self.mod_path.clone(),
            status: self.status,
            file_path: copy_text(&self.file_path),
            note: copy_text(&self.note),
            error_reason: copy_text(&self.error_reason),
            ignore_reason: copy_text(&self.ignore_reason),
        }
    }

    /// Records what the run printed about this test.
    pub fn add_error_reason(&mut self, error_reason: String)
        ensures
            final(self)@ == (TestView { error_reason: Some(error_reason@), ..old(self)@ }),
    {
        self.error_reason = Some(error_reason);
    }
}

/// Whether `ts[i]`, a failed ordinary test, is the first such test with its
/// path.
fn is_first_taker(ts: &Vec<ParsedTest>, i: usize) -> (r: bool)
    requires
        i < ts@.len(),
        takes_diag(ts@[i as int]@),
    ensures
        r == first_taker(test_views(ts@), i as int),
{
    let ghost tv = test_views(ts@);
    let mut j: usize = 0;
    while j < i
        invariant
            j <= i < ts@.len(),
            tv == test_views(ts@),
            forall|k: int|
                0 <= k < j ==> !(takes_diag(#[trigger] tv[k]) && tv[k].mod_path == tv[i as int].mod_path),
        decreases i - j,
    {
        assert(tv[j as int] == ts@[j as int]@);
        assert(tv[i as int] == ts@[i as int]@);
        if ts[j].test_type == GeneralTestType::Normal && ts[j].status == Status::Failed
            && ts[j].mod_path == ts[i].mod_path {
            return false;
        }
        j = j + 1;
    }
    true
}

/// The tests `ts` with the diagnostics `diags` attached.
fn attach_failures(ts: &Vec<ParsedTest>, diags: &Vec<(String, String)>) -> (r: Vec<ParsedTest>)
    ensures
        test_views(r@) == attached(test_views(ts@), diag_views(diags@)),
{
    let ghost tv = test_views(ts@);
    let ghost dv = diag_views(diags@);
    let mut out: Vec<ParsedTest> = Vec::new();
    let mut i: usize = 0;
    while i < ts.len()
        invariant
            i <= ts@.len(),
            tv == test_views(ts@),
            dv == diag_views(diags@),
            test_views(out@) == attached(tv, dv).subrange(0, i as int),
        decreases ts@.len() - i,
    {
        let t = &ts[i];
        assert(tv[i as int] == t@);
        let mut c = t.copy();
        if t.test_type == GeneralTestType::Normal && t.status == Status::Failed && is_first_taker(
            ts,
            i,
        ) {
            match find_diag(diags, &t.mod_path) {
                Some(d) => c.add_error_reason(d),
                None => {},
            }
        }
        let ghost before = test_views(out@);
        out.push(c);
        assert(test_views(out@) =~= before.push(c@));
        i = i + 1;
        assert(test_views(out@) =~= attached(tv, dv).subrange(0, i as int));
    }
    assert(attached(tv, dv).subrange(0, i as int) =~= attached(tv, dv));
    out
}

} // verus!

verus! {

fn copy_strings(v: &Vec<String>) -> (r: Vec<String>)
    ensures
        string_views(r@) == string_views(v@),
{
    let mut r: Vec<String> = Vec::new();
    let mut i: usize = 0;
    while i < v.len()
        invariant
            i <= v@.len(),
            string_views(r@) == string_views(v@).subrange(0, i as int),
        decreases v@.len() - i,
    {
        let ghost before = string_views(r@);
        r.push(v[i].clone());
        assert(string_views(r@) =~= before.push(v@[i as int]@));
        i = i + 1;
        assert(string_views(r@) =~= string_views(v@).subrange(0, i as int));
    }
    assert(string_views(v@).subrange(0, i as int) =~= string_views(v@));
    r
}

/// Reads the header of a block that is not the doc block and the tests that
/// it declares; gives them and the line after them.
pub fn read_block_tests(ls: &Vec<Vec<char>>) -> (r: Result<(Vec<ParsedTest>, usize), ParseError>)
    ensures
        match r {
            Ok((ts, next)) => block_tests(views(ls@)) == Ok::<
                (Seq<TestView>, int),
                Failure,
            >((test_views(ts@), next as int)) && next <= ls@.len(),
            Err(e) => block_tests(views(ls@)) == Err::<(Seq<TestView>, int), Failure>(
                e@,
            ),
        },
{
    let ghost lv = views(ls@);
    if ls.len() == 0 {
        return Err(ParseError::new(ParseErrorKind::MissingTestCount, ""));
    }
    assert(lv[0] == ls@[0]@);
    let d = match read_header(&ls[0]) {
        None => {
            return Err(ParseError::new(ParseErrorKind::MissingTestCount, ""));
        },
        Some(d) => d,
    };
    let count = match decimal_at(&ls[0], d.0, d.1, usize::MAX as u64) {
        None => {
            let c = string_at(&ls[0], d.0, d.1);
            return Err(ParseError::new(ParseErrorKind::CountNotNumeric, c.as_str()));
        },
        Some(c) => c as usize,
    };
    let n = if count < ls.len() - 1 {
        count
    } else {
        ls.len() - 1
    };
    match read_tests(ls, 1, 1 + n) {
        Err(e) => Err(e),
        Ok(t) => Ok((t, 1 + n)),
    }
}

/// Reads one block into its tests and, but for the doc block, its summary.
pub fn parse_group_of(g: &RawTestGroup) -> (r: Result<ParsedTestGroup, ParseError>)
    ensures
        match r {
            Ok(p) => parse_group(g@) == Ok::<GroupView, Failure>(p@),
            Err(e) => parse_group(g@) == Err::<GroupView, Failure>(e@),
        },
{
    reveal(parse_group);
    let ls = nonempty_lines(&g.test_data);
    let ghost lv = views(ls@);
    if g.test_type == TestType::Doc {
        let tests = read_doc_tests(&ls);
        return Ok(
            ParsedTestGroup {
                crate_name: g.crate_name.clone(),
                file_path: copy_strings(&g.file_path),
                tests,
                summary: None,
            },
        );
    }
    let (tests, next) = match read_block_tests(&ls) {
        Err(e) => {
            return Err(e);
        },
        Ok(r) => r,
    };
    let failed = count_failed(&tests);
    proof {
        lemma_failed_count_bound(test_views(tests@));
    }
    let (diags, after) = if failed > 0 {
        correlate_failures(&ls, next)
    } else {
        let none: Vec<(String, String)> = Vec::new();
        assert(diag_views(none@) =~= Seq::<(Seq<char>, Seq<char>)>::empty());
        (none, next)
    };
    let pos = if failed < ls.len() - after {
        after + failed
    } else {
        ls.len()
    };
    if pos >= ls.len() {
        let full = g.full_path();
        return Err(ParseError::new(ParseErrorKind::MissingSummary, full.as_str()));
    }
    assert(lv[pos as int] == ls@[pos as int]@);
    let summary = match read_summary(&ls[pos]) {
        Err(e) => {
            return Err(e);
        },
        Ok(sm) => sm,
    };
    let tests = attach_failures(&tests, &diags);
    Ok(
        ParsedTestGroup {
            crate_name: g.crate_name.clone(),
            file_path: copy_strings(&g.file_path),
            tests,
            summary: Some(summary),
        },
    )
}

proof fn lemma_groups_err_extends(gs: Seq<RawGroupView>, i: int, j: int, e: Failure)
    requires
        0 <= i <= j <= gs.len(),
        parse_groups(gs.subrange(0, i)) == Err::<Seq<GroupView>, Failure>(e),
    ensures
        parse_groups(gs.subrange(0, j)) == Err::<Seq<GroupView>, Failure>(e),
    decreases j - i,
{
    if i < j {
        lemma_groups_err_extends(gs, i, j - 1, e);
        assert(gs.subrange(0, j).drop_last() =~= gs.subrange(0, j - 1));
    }
}

/// Parses the standard output and standard error of a test run into one
/// group per block, in the order the blocks came; the first error stops it.
pub fn parse(stdout: String, stderr: String) -> (r: Result<Vec<ParsedTestGroup>, ParseError>)
    ensures
        match r {
            Ok(gs) => parsed(stdout@, stderr@) == Ok::<Seq<GroupView>, Failure>(
                parsed_views(gs@),
            ),
            Err(e) => parsed(stdout@, stderr@) == Err::<Seq<GroupView>, Failure>(e@),
        },
{
    let ghost out_text = stdout@;
    let ghost err_text = stderr@;
    let groups = match merge_outputs(stdout, stderr) {
        Err(e) => {
            return Err(e);
        },
        Ok(gs) => gs,
    };
    let ghost gv = group_views(groups@);
    let mut out: Vec<ParsedTestGroup> = Vec::new();
    let mut i: usize = 0;
    assert(parsed_views(out@) =~= Seq::<GroupView>::empty());
    assert(gv.subrange(0, 0) =~= Seq::<RawGroupView>::empty());
    while i < groups.len()
        invariant
            i <= groups@.len(),
            gv == group_views(groups@),
            merged(out_text, err_text) == Ok::<Seq<RawGroupView>, Failure>(gv),
            out_text == stdout@,
            err_text == stderr@,
            parse_groups(gv.subrange(0, i as int)) == Ok::<Seq<GroupView>, Failure>(
                parsed_views(out@),
            ),
        decreases groups@.len() - i,
    {
        assert(gv.subrange(0, i + 1).drop_last() =~= gv.subrange(0, i as int));
        assert(gv.subrange(0, i + 1).last() == groups@[i as int]@);
        match parse_group_of(&groups[i]) {
            Ok(p) => {
                let ghost before = parsed_views(out@);
                out.push(p);
                assert(parsed_views(out@) =~= before.push(p@));
            },
            Err(e) => {
                assert(parse_groups(gv.subrange(0, i + 1)) == Err::<Seq<GroupView>, Failure>(
                    e@,
                ));
                proof {
                    lemma_groups_err_extends(gv, i + 1, gv.len() as int, e@);
                    assert(gv.subrange(0, gv.len() as int) =~= gv);
                }
                return Err(e);
            },
        }
        i = i + 1;
    }
    assert(gv.subrange(0, i as int) =~= gv);
    Ok(out)
}

} // verus!

verus! {

proof fn lemma_no_pairing_keeps_start(lines: Seq<Seq<char>>, i: int, anns: Seq<Seq<char>>)
    requires
        0 <= i <= lines.len(),
        anns.len() == 0 || forall|k: int| 0 <= k < lines.len() ==> #[trigger] header(lines[k]) is None,
    ensures
        segment_from(lines, i, seg_start(), anns) == Ok::<SegState, Failure>(seg_start()),
    decreases lines.len() - i,
{
    if i < lines.len() {
        assert(seg_step(seg_start(), lines[i], anns) == Ok::<SegState, Failure>(seg_start()));
        lemma_no_pairing_keeps_start(lines, i + 1, anns);
    }
}

/// An output in which no header can open a block, because standard output
/// holds no `running N tests` header or standard error holds no
/// announcement, parses to `NoTestsFound`.
pub proof fn law_no_blocks_no_tests(stdout: Seq<char>, stderr: Seq<char>)
    requires
        announcements(kept_lines(stderr)).len() == 0 || forall|k: int|
            0 <= k < kept_lines(stdout).len() ==> #[trigger] header(kept_lines(stdout)[k]) is None,
    ensures
        parsed(stdout, stderr) == Err::<Seq<GroupView>, Failure>(
            failure(ParseErrorKind::NoTestsFound, Seq::empty()),
        ),
{
    lemma_no_pairing_keeps_start(kept_lines(stdout), 0, announcements(kept_lines(stderr)));
}

/// Each test of the doc block is read from one of its lines that follows
/// the doc test grammar.
pub proof fn law_doc_tests_from_doc_lines(ls: Seq<Seq<char>>, i: int)
    requires
        0 <= i < doc_tests(ls).len(),
    ensures
        exists|k: int|
            0 <= k < ls.len() && doc_line(#[trigger] ls[k]) is Some && classify(ls[k]) == Some(
                doc_tests(ls)[i],
            ),
    decreases ls.len(),
{
    if ls.len() > 0 {
        let init = ls.drop_last();
        if i < doc_tests(init).len() {
            law_doc_tests_from_doc_lines(init, i);
            let k = choose|k: int|
                0 <= k < init.len() && doc_line(#[trigger] init[k]) is Some && classify(init[k])
                    == Some(doc_tests(init)[i]);
            assert(ls[k] == init[k]);
        } else {
            assert(ls[ls.len() - 1] == ls.last());
        }
    }
}

/// The doc block reads into the group `Doc-tests`, with no path and no
/// summary, whose tests are those of its lines that follow the doc test
/// grammar (see `law_doc_tests_from_doc_lines`).
pub proof fn law_doc_group(data: Seq<Seq<char>>)
    ensures
        raw_group(Seq::empty(), data, true) is Ok,
        parse_group(raw_group(Seq::empty(), data, true)->Ok_0) == Ok::<GroupView, Failure>(
            GroupView {
                crate_name: "Doc-tests"@,
                file_path: Seq::empty(),
                tests: doc_tests(nonempty_from(data, 0)),
                summary: None,
            },
        ),
{
    reveal(parse_group);
}

proof fn lemma_tests_of_all(ls: Seq<Seq<char>>)
    requires
        forall|k: int| 0 <= k < ls.len() ==> #[trigger] classify(ls[k]) is Some,
    ensures
        tests_of(ls) is Ok,
        tests_of(ls)->Ok_0.len() == ls.len(),
    decreases ls.len(),
{
    if ls.len() > 0 {
        assert forall|k: int| 0 <= k < ls.drop_last().len() implies #[trigger] classify(
            ls.drop_last()[k],
        ) is Some by {
            assert(ls.drop_last()[k] == ls[k]);
        }
        lemma_tests_of_all(ls.drop_last());
        assert(classify(ls[ls.len() - 1]) is Some);
    }
}

/// A header that declares more tests than lines follow it: every line that
/// follows is read as a test, with no error, and reading stops at the end of
/// the block.
pub proof fn law_count_beyond_lines_truncates(ls: Seq<Seq<char>>)
    requires
        ls.len() > 0,
        header(ls[0]) is Some,
        ls.len() - 1 < declared_count(ls[0]) <= usize::MAX,
        forall|k: int| 1 <= k < ls.len() ==> #[trigger] classify(ls[k]) is Some,
    ensures
        block_tests(ls) is Ok,
        block_tests(ls)->Ok_0.0.len() == ls.len() - 1,
        block_tests(ls)->Ok_0.1 == ls.len(),
{
    let w = ls.subrange(1, ls.len() as int);
    assert forall|k: int| 0 <= k < w.len() implies #[trigger] classify(w[k]) is Some by {
        assert(w[k] == ls[k + 1]);
    }
    lemma_tests_of_all(w);
}

/// The text of the lines `ls[i..j]`, each followed by `\n`.
pub open spec fn lines_text(ls: Seq<Seq<char>>, i: int, j: int) -> Seq<char>
    decreases j - i,
{
    if j <= i {
        Seq::empty()
    } else {
        lines_text(ls, i, j - 1) + ls[j - 1] + "\n"@
    }
}

proof fn lemma_lines_text_step(ls: Seq<Seq<char>>, i: int, j: int)
    requires
        i < j,
    ensures
        lines_text(ls, i, j) == ls[i] + "\n"@ + lines_text(ls, i + 1, j),
    decreases j - i,
{
    if i + 1 < j {
        lemma_lines_text_step(ls, i, j - 1);
        assert(lines_text(ls, i, j) =~= ls[i] + "\n"@ + lines_text(ls, i + 1, j));
    } else {
        assert(lines_text(ls, i, i) =~= Seq::<char>::empty());
        assert(lines_text(ls, i + 1, j) =~= Seq::<char>::empty());
        assert(lines_text(ls, i, j) =~= ls[i] + "\n"@ + lines_text(ls, i + 1, j));
    }
}

proof fn lemma_section_text(ls: Seq<Seq<char>>, k: int, j: int, st: CorState)
    requires
        0 <= k <= j < ls.len(),
        st.add,
        st.in_failures,
        forall|m: int|
            k <= m < j ==> #[trigger] delimiter(ls[m]) is None && !lit_at(ls[m], 0, "failures:"@),
        delimiter(ls[j]) is None,
        lit_at(ls[j], 0, "failures:"@),
    ensures
        correlate(ls, k, st) == (st.diags.push((st.name, st.buffer + lines_text(ls, k, j))), j + 1),
    decreases j - k,
{
    if k < j {
        let next = CorState { buffer: st.buffer + ls[k] + "\n"@, ..st };
        lemma_section_text(ls, k + 1, j, next);
        lemma_lines_text_step(ls, k, j);
        assert(next.buffer + lines_text(ls, k + 1, j) =~= st.buffer + lines_text(ls, k, j));
    } else {
        assert(st.buffer + lines_text(ls, k, j) =~= st.buffer);
    }
}

/// In the failures section, once the first `failures:` line is behind: the
/// diagnostic of a delimiter `---- <path> <channel> ----` is the text of the
/// lines between it and the second `failures:` line, each followed by `\n`;
/// it is the last diagnostic, and the section ends after that line.
pub proof fn law_failure_text(ls: Seq<Seq<char>>, i: int, j: int, st: CorState)
    requires
        0 <= i < j < ls.len(),
        st.in_failures,
        delimiter(ls[i]) is Some,
        forall|m: int|
            i < m < j ==> #[trigger] delimiter(ls[m]) is None && !lit_at(ls[m], 0, "failures:"@),
        delimiter(ls[j]) is None,
        lit_at(ls[j], 0, "failures:"@),
    ensures
        correlate(ls, i, st).0.last() == (delimiter(ls[i])->Some_0, lines_text(ls, i + 1, j)),
        correlate(ls, i, st).1 == j + 1,
{
    let next = CorState {
        add: true,
        buffer: Seq::empty(),
        name: delimiter(ls[i])->Some_0,
        diags: if st.buffer.len() > 0 {
            st.diags.push((st.name, st.buffer))
        } else {
            st.diags
        },
        ..st
    };
    lemma_section_text(ls, i + 1, j, next);
    assert(Seq::<char>::empty() + lines_text(ls, i + 1, j) =~= lines_text(ls, i + 1, j));
}

/// The first diagnostic for a path goes to the first failed ordinary test
/// with that path; every other test is left as it was.
pub proof fn law_failure_detail(ts: Seq<TestView>, d: Seq<(Seq<char>, Seq<char>)>, i: int)
    requires
        0 <= i < ts.len(),
    ensures
        attached(ts, d).len() == ts.len(),
        first_taker(ts, i) && first_diag(d, ts[i].mod_path, 0) is Some ==> attached(ts, d)[i]
            == (TestView { error_reason: first_diag(d, ts[i].mod_path, 0), ..ts[i] }),
        !first_taker(ts, i) ==> attached(ts, d)[i] == ts[i],
        forall|j: int|
            0 <= j < i && takes_diag(ts[j]) && ts[j].mod_path == ts[i].mod_path ==> attached(ts, d)[i]
                == ts[i],
{
}

} // verus!

verus! {

impl ParsedTest {
    /// Reads a test result line: by the ordinary grammar, else by the doc
    /// test grammar.
    pub fn new(test_line: String) -> (r: Result<ParsedTest, ParseError>)
        ensures
            match r {
                Ok(t) => classify(test_line@) == Some(t@),
                Err(e) => classify(test_line@) is None && e@ == failure(
                    ParseErrorKind::LineGrammarMismatch,
                    test_line@,
                ),
            },
    {
        let line = chars_of(test_line.as_str());
        match read_test_line(&line) {
            Some(t) => Ok(t),
            None => Err(ParseError::new(ParseErrorKind::LineGrammarMismatch, test_line.as_str())),
        }
    }

    /// The test written out field by field, one field a line.
    pub fn describe(&self) -> (r: String)
        ensures
            r@ == "\nParsedTest {\n    test_type: "@ + general_type_name(self.test_type)
                + "\n    module_path: "@ + self.mod_path@ + "\n    status: "@ + status_name(
                self.status,
            ) + "\n    file_path: "@ + option_text(opt_view(self.file_path)) + "\n    note: "@
                + option_text(opt_view(self.note)) + "\n    error_reason: "@ + option_text(
                opt_view(self.error_reason),
            ) + "\n    ignore_reason: "@ + option_text(opt_view(self.ignore_reason)) + "\n}"@,
    {
        let mut r = String::from_str("\nParsedTest {\n    test_type: ");
        r.append(self.test_type.name().as_str());
        r.append("\n    module_path: ");
        r.append(self.mod_path.as_str());
        r.append("\n    status: ");
        r.append(self.status.name().as_str());
        r.append("\n    file_path: ");
        r.append(text_of_option(&self.file_path).as_str());
        r.append("\n    note: ");
        r.append(text_of_option(&self.note).as_str());
        r.append("\n    error_reason: ");
        r.append(text_of_option(&self.error_reason).as_str());
        r.append("\n    ignore_reason: ");
        r.append(text_of_option(&self.ignore_reason).as_str());
        r.append("\n}");
        r
    }
}

/// `Some("<text>")` or `None`.
pub open spec fn option_text(o: Option<Seq<char>>) -> Seq<char> {
    match o {
        Some(s) => "Some(\""@ + s + "\")"@,
        None => "None"@,
    }
}

fn text_of_option(o: &Option<String>) -> (r: String)
    ensures
        r@ == option_text(opt_view(*o)),
{
    match o {
        Some(s) => {
            let mut r = String::from_str("Some(\"");
            r.append(s.as_str());
            r.append("\")");
            r
        },
        None => String::from_str("None"),
    }
}

impl Summary {
    /// Reads a summary line.
    pub fn new(summary_line: &str) -> (r: Result<Summary, ParseError>)
        ensures
            match r {
                Ok(s) => crate::grammar::summary_line(summary_line@) == Ok::<
                    SummaryView,
                    Failure,
                >(s@),
                Err(e) => crate::grammar::summary_line(summary_line@) == Err::<
                    SummaryView,
                    Failure,
                >(
                    e@,
                ),
            },
    {
        let line = chars_of(summary_line);
        read_summary(&line)
    }
}

impl Default for Summary {
    /// A failed run with nothing counted.
    fn default() -> (r: Summary)
        ensures
            r.status == Status::Failed,
            r.passed == 0 && r.failed == 0 && r.ignored == 0 && r.measured == 0 && r.filtered == 0,
            r.time@ == "0.0"@,
    {
        Summary {
            status: Status::Failed,
            passed: 0,
            failed: 0,
            ignored: 0,
            measured: 0,
            filtered: 0,
            time: String::from_str("0.0"),
        }
    }
}

} // verus!

verus! {

proof fn lemma_doc_mode_absorbs(lines: Seq<Seq<char>>, i: int, st: SegState, anns: Seq<Seq<char>>)
    requires
        st.doc,
        0 <= i <= lines.len(),
    ensures
        segment_from(lines, i, st, anns) == Ok::<SegState, Failure>(
            SegState { buffer: st.buffer + lines.subrange(i, lines.len() as int), ..st },
        ),
    decreases lines.len() - i,
{
    if i < lines.len() {
        let next = SegState { buffer: st.buffer.push(lines[i]), ..st };
        lemma_doc_mode_absorbs(lines, i + 1, next, anns);
        assert(next.buffer + lines.subrange(i + 1, lines.len() as int) =~= st.buffer
            + lines.subrange(i, lines.len() as int));
    } else {
        assert(st.buffer + lines.subrange(i, lines.len() as int) =~= st.buffer);
    }
}

/// A header at line `k` of standard output that pairs with a `Doc-tests`
/// announcement closes the open block and opens the doc block, which takes
/// every line from that header to the end: no later header opens a block.
/// Once standard output ends, the doc block is the last block, named
/// `Doc-tests`, with no path.
pub proof fn law_doc_block_takes_rest(
    lines: Seq<Seq<char>>,
    k: int,
    st: SegState,
    anns: Seq<Seq<char>>,
)
    requires
        0 <= k < lines.len(),
        !st.doc,
        header(lines[k]) is Some,
        0 <= st.next < anns.len(),
        doc_announcement(anns[st.next]),
        flushed(st) is Ok,
    ensures
        segment_from(lines, k, st, anns) == Ok::<SegState, Failure>(
            SegState {
                blocks: flushed(st)->Ok_0,
                buffer: lines.subrange(k, lines.len() as int),
                doc: true,
                next: st.next + 1,
            },
        ),
        seg_finish(segment_from(lines, k, st, anns)->Ok_0) == Ok::<Seq<RawGroupView>, Failure>(
            flushed(st)->Ok_0.push(
                RawGroupView {
                    test_type: TestType::Doc,
                    file_path: Seq::empty(),
                    crate_name: "Doc-tests"@,
                    test_data: lines.subrange(k, lines.len() as int),
                },
            ),
        ),
{
    let opened = seg_step(st, lines[k], anns)->Ok_0;
    lemma_doc_mode_absorbs(lines, k + 1, opened, anns);
    assert(seq![lines[k]] + lines.subrange(k + 1, lines.len() as int) =~= lines.subrange(
        k,
        lines.len() as int,
    ));
}

} // verus!

verus! {

/// A block with a failure: after its tests come the first `failures:` line,
/// the delimiter of path `p`, the lines of its text, the second `failures:`
/// line, the one failed name and the summary.  The block reads into a group
/// whose tests carry that text as the diagnostic of `p`, and no other.
pub proof fn law_failure_section_in_group(g: RawGroupView, j: int)
    requires
        g.test_type != TestType::Doc,
        block_tests(nonempty_from(g.test_data, 0)) is Ok,
        ({
            let ls = nonempty_from(g.test_data, 0);
            let next = block_tests(ls)->Ok_0.1;
            &&& failed_count(block_tests(ls)->Ok_0.0) == 1
            &&& next + 1 < j
            &&& j + 2 < ls.len()
            &&& delimiter(ls[next]) is None
            &&& lit_at(ls[next], 0, "failures:"@)
            &&& delimiter(ls[next + 1]) is Some
            &&& forall|m: int|
                next + 1 < m < j ==> #[trigger] delimiter(ls[m]) is None && !lit_at(
                    ls[m],
                    0,
                    "failures:"@,
                )
            &&& delimiter(ls[j]) is None
            &&& lit_at(ls[j], 0, "failures:"@)
            &&& summary_line(ls[j + 2]) is Ok
        }),
    ensures
        ({
            let ls = nonempty_from(g.test_data, 0);
            let next = block_tests(ls)->Ok_0.1;
            let p = delimiter(ls[next + 1])->Some_0;
            &&& parse_group(g) is Ok
            &&& parse_group(g)->Ok_0.tests == attached(
                block_tests(ls)->Ok_0.0,
                seq![(p, lines_text(ls, next + 2, j))],
            )
            &&& parse_group(g)->Ok_0.summary == Some(summary_line(ls[j + 2])->Ok_0)
        }),
{
    reveal(parse_group);
    let ls = nonempty_from(g.test_data, 0);
    let next = block_tests(ls)->Ok_0.1;
    let p = delimiter(ls[next + 1])->Some_0;
    let st1 = CorState { in_failures: true, ..cor_start() };
    let st2 = CorState {
        add: true,
        buffer: Seq::empty(),
        name: p,
        in_failures: true,
        diags: Seq::empty(),
    };
    lemma_section_text(ls, next + 2, j, st2);
    assert(correlate(ls, next + 1, st1) == correlate(ls, next + 2, st2));
    assert(correlate(ls, next, cor_start()) == correlate(ls, next + 1, st1));
    assert(Seq::<char>::empty() + lines_text(ls, next + 2, j) =~= lines_text(ls, next + 2, j));
    assert(Seq::<(Seq<char>, Seq<char>)>::empty().push((p, lines_text(ls, next + 2, j))) =~= seq![
        (p, lines_text(ls, next + 2, j)),
    ]);
}

} // verus!
