//! The block segmenter: standard output is cut into blocks, one per test
//! binary and one for the doc tests, by pairing each `running N tests`
//! header with the next announcement line of standard error.
use vstd::prelude::*;

use crate::grammar::{doc_announcement, header, is_doc_announcement, read_header, read_running_line, running_line};
use crate::parse::{failure, test_type_name, Failure, ParseError, ParseErrorKind, TestType};
use crate::text::{
    chars_of, contains, has_lit, has_lit_at, join, join_strings, lit_at, remove_char, split_chars,
    split_on, string_of, string_views, trim, trimmed, views, without,
};

verus! {

/// A block of output lines that belongs to one test binary, or to the doc
/// tests, before its lines are read.
pub struct RawTestGroup {
    pub test_type: TestType,
    /// The components of the source path that the announcement names.
    pub file_path: Vec<String>,
    pub crate_name: String,
    /// The block's lines, from its header on.
    pub test_data: Vec<String>,
}

pub struct RawGroupView {
    pub test_type: TestType,
    pub file_path: Seq<Seq<char>>,
    pub crate_name: Seq<char>,
    pub test_data: Seq<Seq<char>>,
}

impl View for RawTestGroup {
    type V = RawGroupView;

    open spec fn view(&self) -> RawGroupView {
        RawGroupView {
            test_type: self.test_type,
            file_path: string_views(self.file_path@),
            crate_name: self.crate_name@,
            test_data: string_views(self.test_data@),
        }
    }
}

/// The block that an announcement line opens, over the block's lines.
pub open spec fn raw_group(announcement: Seq<char>, data: Seq<Seq<char>>, is_doc: bool) -> Result<
    RawGroupView,
    Failure,
> {
    if is_doc {
        Ok(
            RawGroupView {
                test_type: TestType::Doc,
                file_path: Seq::empty(),
                crate_name: "Doc-tests"@,
                test_data: data,
            },
        )
    } else {
        match running_line(announcement) {
            None => Err(failure(ParseErrorKind::MalformedAnnouncement, announcement)),
            Some((path, name)) => Ok(
                RawGroupView {
                    test_type: if contains(announcement, "unittest"@) {
                        TestType::Unit
                    } else {
                        TestType::Tests
                    },
                    file_path: split_on(path, '/'),
                    crate_name: name,
                    test_data: data,
                },
            ),
        }
    }
}

/// The trimmed lines of `s` that hold more than white space; carriage
/// returns are dropped and lines end at `\n`.
pub open spec fn kept_lines(s: Seq<char>) -> Seq<Seq<char>> {
    nonblank(split_on(without(s, '\r'), '\n'))
}

pub open spec fn nonblank(ls: Seq<Seq<char>>) -> Seq<Seq<char>>
    decreases ls.len(),
{
    if ls.len() == 0 {
        ls
    } else if trim(ls.last()).len() > 0 {
        nonblank(ls.drop_last()).push(trim(ls.last()))
    } else {
        nonblank(ls.drop_last())
    }
}

/// The announcement lines among `ls`: those that start with `Running ` or
/// `Doc-tests`.
pub open spec fn announcements(ls: Seq<Seq<char>>) -> Seq<Seq<char>>
    decreases ls.len(),
{
    if ls.len() == 0 {
        ls
    } else if lit_at(ls.last(), 0, "Running "@) || lit_at(ls.last(), 0, "Doc-tests"@) {
        announcements(ls.drop_last()).push(ls.last())
    } else {
        announcements(ls.drop_last())
    }
}

/// The state of the block segmenter: the blocks closed so far, the lines of
/// the open block (its announcement first, unless it is the doc block),
/// whether the doc tests were reached, and the next unused announcement.
pub struct SegState {
    pub blocks: Seq<RawGroupView>,
    pub buffer: Seq<Seq<char>>,
    pub doc: bool,
    pub next: int,
}

pub open spec fn seg_start() -> SegState {
    SegState { blocks: Seq::empty(), buffer: Seq::empty(), doc: false, next: 0 }
}

/// The blocks with the open one closed, where one is open.
pub open spec fn flushed(st: SegState) -> Result<Seq<RawGroupView>, Failure> {
    if st.buffer.len() > 0 {
        match raw_group(st.buffer[0], st.buffer.drop_first(), false) {
            Ok(g) => Ok(st.blocks.push(g)),
            Err(e) => Err(e),
        }
    } else {
        Ok(st.blocks)
    }
}

/// One line `x` of standard output through the segmenter.  A header pairs
/// with the next announcement by position alone; a header with no
/// announcement left is passed over.
pub open spec fn seg_step(st: SegState, x: Seq<char>, anns: Seq<Seq<char>>) -> Result<
    SegState,
    Failure,
> {
    if st.doc {
        Ok(SegState { buffer: st.buffer.push(x), ..st })
    } else if header(x) is Some {
        if st.next < 0 || st.next >= anns.len() {
            Ok(st)
        } else {
            let a = anns[st.next];
            match flushed(st) {
                Err(e) => Err(e),
                Ok(blocks) => Ok(
                    SegState {
                        blocks,
                        buffer: if doc_announcement(a) {
                            seq![x]
                        } else {
                            seq![a, x]
                        },
                        doc: doc_announcement(a),
                        next: st.next + 1,
                    },
                ),
            }
        }
    } else if st.buffer.len() > 0 {
        Ok(SegState { buffer: st.buffer.push(x), ..st })
    } else {
        Ok(st)
    }
}

pub open spec fn segment_from(
    lines: Seq<Seq<char>>,
    i: int,
    st: SegState,
    anns: Seq<Seq<char>>,
) -> Result<SegState, Failure>
    decreases lines.len() - i,
{
    if i < 0 || i >= lines.len() {
        Ok(st)
    } else {
        match seg_step(st, lines[i], anns) {
            Err(e) => Err(e),
            Ok(next) => segment_from(lines, i + 1, next, anns),
        }
    }
}

/// The blocks once standard output has ended: the open block is closed; no
/// block at all is an error.
pub open spec fn seg_finish(st: SegState) -> Result<Seq<RawGroupView>, Failure> {
    if st.doc {
        match raw_group(Seq::empty(), st.buffer, true) {
            Ok(g) => Ok(st.blocks.push(g)),
            Err(e) => Err(e),
        }
    } else if st.buffer.len() == 0 {
        Err(failure(ParseErrorKind::NoTestsFound, Seq::empty()))
    } else {
        flushed(st)
    }
}

/// The blocks of a run, from its standard output and its standard error.
pub open spec fn merged(stdout: Seq<char>, stderr: Seq<char>) -> Result<
    Seq<RawGroupView>,
    Failure,
> {
    let anns = announcements(kept_lines(stderr));
    match segment_from(kept_lines(stdout), 0, seg_start(), anns) {
        Err(e) => Err(e),
        Ok(st) => seg_finish(st),
    }
}

} // verus!

verus! {

pub open spec fn group_views(v: Seq<RawTestGroup>) -> Seq<RawGroupView> {
    v.map_values(|g: RawTestGroup| g@)
}

/// Strings holding the character vectors `v`.
pub fn strings_of(v: &Vec<Vec<char>>) -> (r: Vec<String>)
    ensures
        string_views(r@) == views(v@),
{
    let mut r: Vec<String> = Vec::new();
    let mut i: usize = 0;
    while i < v.len()
        invariant
            i <= v@.len(),
            string_views(r@) == views(v@).subrange(0, i as int),
        decreases v@.len() - i,
    {
        let ghost before = string_views(r@);
        r.push(string_of(&v[i]));
        assert(string_views(r@) =~= before.push(v@[i as int]@));
        i = i + 1;
        assert(string_views(r@) =~= views(v@).subrange(0, i as int));
    }
    assert(views(v@).subrange(0, i as int) =~= views(v@));
    r
}

/// The trimmed lines of `s` that hold more than white space.
pub fn lines_kept(s: &str) -> (r: Vec<Vec<char>>)
    ensures
        views(r@) == kept_lines(s@),
{
    let c = chars_of(s);
    let c2 = remove_char(&c, '\r');
    let parts = split_chars(&c2, '\n');
    let mut r: Vec<Vec<char>> = Vec::new();
    let mut i: usize = 0;
    while i < parts.len()
        invariant
            i <= parts@.len(),
            views(r@) == nonblank(views(parts@).subrange(0, i as int)),
        decreases parts@.len() - i,
    {
        let ghost pv = views(parts@);
        assert(pv.subrange(0, i + 1).drop_last() =~= pv.subrange(0, i as int));
        let t = trimmed(&parts[i]);
        if t.len() > 0 {
            let ghost before = views(r@);
            r.push(t);
            assert(views(r@) =~= before.push(t@));
        }
        i = i + 1;
    }
    assert(views(parts@).subrange(0, i as int) =~= views(parts@));
    r
}

/// The announcement lines among `ls`.
pub fn announcement_lines(ls: &Vec<Vec<char>>) -> (r: Vec<Vec<char>>)
    ensures
        views(r@) == announcements(views(ls@)),
{
    let mut r: Vec<Vec<char>> = Vec::new();
    let mut i: usize = 0;
    while i < ls.len()
        invariant
            i <= ls@.len(),
            views(r@) == announcements(views(ls@).subrange(0, i as int)),
        decreases ls@.len() - i,
    {
        let ghost lv = views(ls@);
        assert(lv.subrange(0, i + 1).drop_last() =~= lv.subrange(0, i as int));
        if has_lit_at(&ls[i], 0, "Running ") || has_lit_at(&ls[i], 0, "Doc-tests") {
            let ghost before = views(r@);
            let l = ls[i].clone();
            r.push(l);
            assert(views(r@) =~= before.push(lv[i as int]));
        }
        i = i + 1;
    }
    assert(views(ls@).subrange(0, i as int) =~= views(ls@));
    r
}

impl RawTestGroup {
    /// The block that the announcement `stderr_line` opens, over the lines
    /// `test_data`; the doc block where `is_doc_test`.
    pub fn new(stderr_line: String, test_data: Vec<String>, is_doc_test: bool) -> (r: Result<
        RawTestGroup,
        ParseError,
    >)
        ensures
            match r {
                Ok(g) => raw_group(stderr_line@, string_views(test_data@), is_doc_test) == Ok::<
                    RawGroupView,
                    Failure,
                >(g@),
                Err(e) => raw_group(stderr_line@, string_views(test_data@), is_doc_test) == Err::<
                    RawGroupView,
                    Failure,
                >(e@),
            },
    {
        if is_doc_test {
            let g = RawTestGroup {
                test_type: TestType::Doc,
                file_path: Vec::new(),
                crate_name: String::from_str("Doc-tests"),
                test_data,
            };
            assert(g@.file_path =~= Seq::<Seq<char>>::empty());
            return Ok(g);
        }
        let line = chars_of(stderr_line.as_str());
        match read_running_line(&line) {
            None => Err(ParseError::new(ParseErrorKind::MalformedAnnouncement, stderr_line.as_str())),
            Some((path, crate_name)) => {
                let test_type = if has_lit(&line, "unittest") {
                    TestType::Unit
                } else {
                    TestType::Tests
                };
                let pieces = split_chars(&chars_of(path.as_str()), '/');
                Ok(RawTestGroup { test_type, file_path: strings_of(&pieces), crate_name, test_data })
            },
        }
    }

    /// The path components joined by `/`.
    pub fn joined_components(&self) -> (r: String)
        ensures
            r@ == join(self@.file_path, "/"@),
    {
        join_strings(&self.file_path, "/")
    }

    /// The crate name, `/`, and the joined path components.
    pub fn full_path(&self) -> (r: String)
        ensures
            r@ == self.crate_name@ + "/"@ + join(self@.file_path, "/"@),
    {
        let mut r = self.crate_name.clone();
        r.append("/");
        let j = self.joined_components();
        r.append(j.as_str());
        r
    }

    /// A line that names the block's path and its type.
    pub fn describe(&self) -> (r: String)
        ensures
            r@ == join(self@.file_path, "/"@) + " is type "@ + test_type_name(self.test_type),
    {
        let mut r = self.joined_components();
        r.append(" is type ");
        let t = self.test_type.name();
        r.append(t.as_str());
        r
    }
}

/// Closes the open block `buffer`: its first line is the announcement.
fn close_block(buffer: Vec<String>) -> (r: Result<RawTestGroup, ParseError>)
    requires
        buffer@.len() > 0,
    ensures
        match r {
            Ok(g) => raw_group(
                string_views(buffer@)[0],
                string_views(buffer@).drop_first(),
                false,
            ) == Ok::<RawGroupView, Failure>(g@),
            Err(e) => raw_group(
                string_views(buffer@)[0],
                string_views(buffer@).drop_first(),
                false,
            ) == Err::<RawGroupView, Failure>(e@),
        },
{
    let ghost bv = string_views(buffer@);
    let mut rest = buffer;
    let head = rest.remove(0);
    assert(string_views(rest@) =~= bv.drop_first());
    RawTestGroup::new(head, rest, false)
}

/// Pairs each `running N tests` header of standard output with the next
/// announcement of standard error, by position, and cuts standard output
/// into blocks.
pub fn merge_outputs(stdout: String, stderr: String) -> (r: Result<Vec<RawTestGroup>, ParseError>)
    ensures
        match r {
            Ok(gs) => merged(stdout@, stderr@) == Ok::<Seq<RawGroupView>, Failure>(
                group_views(gs@),
            ),
            Err(e) => merged(stdout@, stderr@) == Err::<Seq<RawGroupView>, Failure>(e@),
        },
{
    let lines = lines_kept(stdout.as_str());
    let err_lines = lines_kept(stderr.as_str());
    let anns = announcement_lines(&err_lines);
    let ghost lv = views(lines@);
    let ghost av = views(anns@);
    assert(lv == kept_lines(stdout@));
    assert(av == announcements(kept_lines(stderr@)));
    let mut blocks: Vec<RawTestGroup> = Vec::new();
    let mut buffer: Vec<String> = Vec::new();
    let mut doc = false;
    let mut next: usize = 0;
    let mut i: usize = 0;
    assert(group_views(blocks@) =~= Seq::<RawGroupView>::empty());
    assert(string_views(buffer@) =~= Seq::<Seq<char>>::empty());
    while i < lines.len()
        invariant
            i <= lines@.len(),
            lv == views(lines@),
            av == views(anns@),
            lv == kept_lines(stdout@),
            av == announcements(kept_lines(stderr@)),
            next <= anns@.len(),
            segment_from(
                lv,
                i as int,
                SegState {
                    blocks: group_views(blocks@),
                    buffer: string_views(buffer@),
                    doc,
                    next: next as int,
                },
                av,
            ) == segment_from(lv, 0, seg_start(), av),
        decreases lines@.len() - i,
    {
        let ghost st = SegState {
            blocks: group_views(blocks@),
            buffer: string_views(buffer@),
            doc,
            next: next as int,
        };
        let x = &lines[i];
        assert(lv[i as int] == x@);
        if doc {
            buffer.push(string_of(x));
            assert(string_views(buffer@) =~= st.buffer.push(lv[i as int]));
        } else if read_header(x).is_some() {
            if next < anns.len() {
                if buffer.len() > 0 {
                    let g = match close_block(buffer) {
                        Ok(g) => g,
                        Err(e) => {
                            assert(flushed(st) == Err::<Seq<RawGroupView>, Failure>(e@));
                            assert(seg_step(st, lv[i as int], av) == Err::<SegState, Failure>(
                                e@,
                            ));
                            assert(segment_from(lv, i as int, st, av) == Err::<
                                SegState,
                                Failure,
                            >(e@));
                            return Err(e);
                        },
                    };
                    blocks.push(g);
                    assert(group_views(blocks@) =~= st.blocks.push(g@));
                }
                let a = &anns[next];
                let is_doc = is_doc_announcement(a);
                buffer = Vec::new();
                if !is_doc {
                    buffer.push(string_of(a));
                }
                buffer.push(string_of(x));
                if is_doc {
                    assert(string_views(buffer@) =~= seq![lv[i as int]]);
                } else {
                    assert(string_views(buffer@) =~= seq![av[next as int], lv[i as int]]);
                }
                doc = is_doc;
                next = next + 1;
            }
        } else if buffer.len() > 0 {
            buffer.push(string_of(x));
            assert(string_views(buffer@) =~= st.buffer.push(lv[i as int]));
        }
        i = i + 1;
    }
    if doc {
        let e = String::new();
        match RawTestGroup::new(e, buffer, true) {
            Ok(g) => {
                let ghost before = group_views(blocks@);
                blocks.push(g);
                assert(group_views(blocks@) =~= before.push(g@));
                Ok(blocks)
            },
            Err(e) => Err(e),
        }
    } else if buffer.len() == 0 {
        Err(ParseError::new(ParseErrorKind::NoTestsFound, ""))
    } else {
        match close_block(buffer) {
            Ok(g) => {
                let ghost before = group_views(blocks@);
                blocks.push(g);
                assert(group_views(blocks@) =~= before.push(g@));
                Ok(blocks)
            },
            Err(e) => Err(e),
        }
    }
}

} // verus!
