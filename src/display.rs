//! Text views of parsed groups, for a terminal.
use vstd::prelude::*;

use crate::grammar::TestView;
use crate::parse::{parsed_views, test_views, GeneralTestType, GroupView, ParsedTest, ParsedTestGroup, Status};
use crate::text::{join, string_views};

verus! {

pub enum Colour {
    GREEN,
    RED,
    ORANGE,
}

pub enum DisplayType {
    Tree,
    Linear,
    Json,
}

/// The pieces of the box-drawing tree.
pub enum Pipes {
    T,
    L,
    Vertical,
    Horizontal,
}

pub open spec fn pipe_text(p: Pipes) -> Seq<char> {
    match p {
        Pipes::T => "├"@,
        Pipes::L => "└"@,
        Pipes::Vertical => "│"@,
        Pipes::Horizontal => "─"@,
    }
}

impl Pipes {
    /// The piece as text.
    pub fn d(&self) -> (r: String)
        ensures
            r@ == pipe_text(*self),
    {
        match self {
            Pipes::T => String::from_str("├"),
            Pipes::L => String::from_str("└"),
            Pipes::Vertical => String::from_str("│"),
            Pipes::Horizontal => String::from_str("─"),
        }
    }
}

/// `s` between the terminal codes that turn a colour on and off again.
pub open spec fn painted(code: Seq<char>, s: Seq<char>) -> Seq<char> {
    code + s + "\x1b[0m"@
}

fn paint(code: &str, s: &str) -> (r: String)
    ensures
        r@ == painted(code@, s@),
{
    let mut r = String::from_str(code);
    r.append(s);
    r.append("\x1b[0m");
    r
}

pub fn green(s: &str) -> (r: String)
    ensures
        r@ == painted("\x1b[32m"@, s@),
{
    paint("\x1b[32m", s)
}

pub fn red(s: &str) -> (r: String)
    ensures
        r@ == painted("\x1b[31m"@, s@),
{
    paint("\x1b[31m", s)
}

pub fn yellow(s: &str) -> (r: String)
    ensures
        r@ == painted("\x1b[33m"@, s@),
{
    paint("\x1b[33m", s)
}

pub fn blue(s: &str) -> (r: String)
    ensures
        r@ == painted("\x1b[34m"@, s@),
{
    paint("\x1b[34m", s)
}

/// Lines of text, each added between a fixed prefix and suffix.
pub struct StringBuilder {
    pub lines: Vec<String>,
    pub prefix: String,
    pub suffix: String,
}

impl StringBuilder {
    pub fn new(initial_message: &str, prefix: &str, suffix: &str) -> (r: StringBuilder)
        ensures
            string_views(r.lines@) == seq![initial_message@],
            r.prefix@ == prefix@,
            r.suffix@ == suffix@,
    {
        let mut lines: Vec<String> = Vec::new();
        lines.push(String::from_str(initial_message));
        assert(string_views(lines@) =~= seq![initial_message@]);
        StringBuilder {
            lines,
            prefix: String::from_str(prefix),
            suffix: String::from_str(suffix),
        }
    }

    pub fn add(&mut self, line: &str)
        ensures
            string_views(final(self).lines@) == string_views(old(self).lines@).push(
                old(self).prefix@ + line@ + old(self).suffix@,
            ),
            final(self).prefix == old(self).prefix,
            final(self).suffix == old(self).suffix,
    {
        let mut l = self.prefix.clone();
        l.append(line);
        l.append(self.suffix.as_str());
        let ghost before = string_views(self.lines@);
        self.lines.push(l);
        assert(string_views(self.lines@) =~= before.push(l@));
    }

    /// The lines, one after the other.
    pub fn string(&self) -> (r: String)
        ensures
            r@ == join(string_views(self.lines@), ""@),
    {
        crate::text::join_strings(&self.lines, "")
    }
}

/// `(reason)`, or nothing.
pub open spec fn reason_text(r: Option<Seq<char>>) -> Seq<char> {
    match r {
        Some(x) => "("@ + x + ")"@,
        None => Seq::empty(),
    }
}

pub open spec fn file_text(f: Option<Seq<char>>) -> Seq<char> {
    match f {
        Some(x) => x,
        None => "ERROR"@,
    }
}

/// The line of the linear view for one test.
pub open spec fn test_text(t: TestView) -> Seq<char> {
    let doc = painted("\x1b[34m"@, " Doc-test"@);
    match (t.test_type, t.status) {
        (GeneralTestType::Normal, Status::Passed) => painted("\x1b[32m"@, "Pass"@) + " - "@
            + t.mod_path,
        (GeneralTestType::Normal, Status::Ignored) => painted("\x1b[33m"@, "Ignored"@) + " - "@
            + t.mod_path + " "@ + reason_text(t.ignore_reason),
        (GeneralTestType::Normal, Status::Failed) => painted("\x1b[31m"@, "Failed"@) + " - "@
            + t.mod_path + " - See reason below"@,
        (GeneralTestType::Doc, Status::Passed) => painted("\x1b[32m"@, "Pass"@) + " - "@
            + t.mod_path + " from "@ + file_text(t.file_path) + " "@ + doc,
        (GeneralTestType::Doc, Status::Ignored) => painted("\x1b[33m"@, "Ignored"@) + " - "@
            + t.mod_path + " from "@ + file_text(t.file_path) + " "@ + reason_text(
            t.ignore_reason,
        ) + " "@ + doc,
        (GeneralTestType::Doc, Status::Failed) => painted("\x1b[31m"@, "Failed"@) + " - "@
            + t.mod_path + " from "@ + file_text(t.file_path) + " - See reason below "@ + doc,
    }
}

/// The lines of the linear view for the tests `ts`.
pub open spec fn tests_text(ts: Seq<TestView>) -> Seq<char>
    decreases ts.len(),
{
    if ts.len() == 0 {
        Seq::empty()
    } else {
        tests_text(ts.drop_last()) + pipe_text(Pipes::T) + " "@ + test_text(ts.last()) + "\n"@
    }
}

pub open spec fn groups_text(gs: Seq<GroupView>) -> Seq<char>
    decreases gs.len(),
{
    if gs.len() == 0 {
        Seq::empty()
    } else {
        groups_text(gs.drop_last()) + tests_text(gs.last().tests)
    }
}

/// The linear view: the initial message, then one line per test of every
/// group, in order.
pub open spec fn linear_text(initial: Seq<char>, gs: Seq<GroupView>) -> Seq<char> {
    initial + "\n"@ + groups_text(gs)
}

fn reason_of(r: &Option<String>) -> (s: String)
    ensures
        s@ == reason_text(crate::parse::opt_view(*r)),
{
    match r {
        Some(x) => {
            let mut s = String::from_str("(");
            s.append(x.as_str());
            s.append(")");
            s
        },
        None => String::new(),
    }
}

fn file_of(f: &Option<String>) -> (s: String)
    ensures
        s@ == file_text(crate::parse::opt_view(*f)),
{
    match f {
        Some(x) => x.clone(),
        None => String::from_str("ERROR"),
    }
}

/// The line of the linear view for the test `t`.
pub fn test_line(t: &ParsedTest) -> (r: String)
    ensures
        r@ == test_text(t@),
{
    let mut r = match t.status {
        Status::Passed => green("Pass"),
        Status::Ignored => yellow("Ignored"),
        Status::Failed => red("Failed"),
    };
    r.append(" - ");
    r.append(t.mod_path.as_str());
    match t.test_type {
        GeneralTestType::Normal => {
            match t.status {
                Status::Passed => {},
                Status::Ignored => {
                    r.append(" ");
                    let x = reason_of(&t.ignore_reason);
                    r.append(x.as_str());
                },
                Status::Failed => {
                    r.append(" - See reason below");
                },
            }
        },
        GeneralTestType::Doc => {
            r.append(" from ");
            let f = file_of(&t.file_path);
            r.append(f.as_str());
            match t.status {
                Status::Passed => {
                    r.append(" ");
                },
                Status::Ignored => {
                    r.append(" ");
                    let x = reason_of(&t.ignore_reason);
                    r.append(x.as_str());
                    r.append(" ");
                },
                Status::Failed => {
                    r.append(" - See reason below ");
                },
            }
            let d = blue(" Doc-test");
            r.append(d.as_str());
        },
    }
    proof {
        assert(r@ =~= test_text(t@));
    }
    r
}

/// Parsed groups, to be shown under a message.
pub struct Display {
    pub initial_message: String,
    pub test_groups: Vec<ParsedTestGroup>,
}

impl Display {
    pub fn new(initial_message: &str, parsed: Vec<ParsedTestGroup>) -> (r: Display)
        ensures
            r.initial_message@ == initial_message@,
            r.test_groups@ == parsed@,
    {
        Display { initial_message: String::from_str(initial_message), test_groups: parsed }
    }

    /// Not yet written: every colour gives the same placeholder.
    pub fn colour(c: Colour, s: &str) -> (r: String)
        ensures
            r@ == "test"@,
    {
        String::from_str("test")
    }

    /// Not yet written: the tree view is empty.
    pub fn tree(&self) -> (r: String)
        ensures
            r@ == Seq::<char>::empty(),
    {
        String::new()
    }

    /// Not yet written: the machine-readable view is empty.
    pub fn json(&self) -> (r: String)
        ensures
            r@ == Seq::<char>::empty(),
    {
        String::new()
    }

    /// The initial message, then one line per test.
    pub fn linear(&self) -> (r: String)
        ensures
            r@ == linear_text(self.initial_message@, parsed_views(self.test_groups@)),
    {
        let mut first = self.initial_message.clone();
        first.append("\n");
        let t = Pipes::T.d();
        let mut prefix = t;
        prefix.append(" ");
        let mut sb = StringBuilder::new(first.as_str(), prefix.as_str(), "\n");
        let ghost gv = parsed_views(self.test_groups@);
        let mut g: usize = 0;
        while g < self.test_groups.len()
            invariant
                g <= self.test_groups@.len(),
                gv == parsed_views(self.test_groups@),
                sb.prefix@ == pipe_text(Pipes::T) + " "@,
                sb.suffix@ == "\n"@,
                string_views(sb.lines@).len() >= 1,
                join(string_views(sb.lines@), ""@) == self.initial_message@ + "\n"@ + groups_text(
                    gv.subrange(0, g as int),
                ),
            decreases self.test_groups@.len() - g,
        {
            let group = &self.test_groups[g];
            assert(gv[g as int] == group@);
            let ghost tv = test_views(group.tests@);
            let ghost base = self.initial_message@ + "\n"@ + groups_text(gv.subrange(0, g as int));
            let mut k: usize = 0;
            while k < group.tests.len()
                invariant
                    k <= group.tests@.len(),
                    tv == test_views(group.tests@),
                    sb.prefix@ == pipe_text(Pipes::T) + " "@,
                    sb.suffix@ == "\n"@,
                    string_views(sb.lines@).len() >= 1,
                    join(string_views(sb.lines@), ""@) == base + tests_text(
                        tv.subrange(0, k as int),
                    ),
                decreases group.tests@.len() - k,
            {
                assert(tv.subrange(0, k + 1).drop_last() =~= tv.subrange(0, k as int));
                assert(tv[k as int] == group.tests@[k as int]@);
                let line = test_line(&group.tests[k]);
                let ghost before = string_views(sb.lines@);
                sb.add(line.as_str());
                let ghost after = string_views(sb.lines@);
                assert(after.drop_last() =~= before);
                assert(join(after, ""@) == join(before, ""@) + ""@ + after.last());
                proof {
                    reveal_strlit("");
                }
                assert(join(after, ""@) =~= join(before, ""@) + after.last());
                assert(after.last() == pipe_text(Pipes::T) + " "@ + test_text(tv[k as int]) + "\n"@);
                k = k + 1;
                assert(join(after, ""@) =~= base + tests_text(tv.subrange(0, k as int)));
            }
            assert(tv.subrange(0, k as int) =~= tv);
            assert(gv.subrange(0, g + 1).drop_last() =~= gv.subrange(0, g as int));
            g = g + 1;
            assert(join(string_views(sb.lines@), ""@) =~= self.initial_message@ + "\n"@
                + groups_text(gv.subrange(0, g as int)));
        }
        assert(gv.subrange(0, g as int) =~= gv);
        sb.string()
    }

    /// The view of kind `t`.
    pub fn render(&self, t: DisplayType) -> (r: String)
        ensures
            r@ == match t {
                DisplayType::Linear => linear_text(
                    self.initial_message@,
                    parsed_views(self.test_groups@),
                ),
                _ => Seq::<char>::empty(),
            },
    {
        match t {
            DisplayType::Tree => self.tree(),
            DisplayType::Linear => self.linear(),
            DisplayType::Json => self.json(),
        }
    }
}

} // verus!
