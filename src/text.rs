use vstd::prelude::*;
use vstd::std_specs::iter::IteratorSpec;

verus! {

/// The characters of `s`, in order.
pub fn chars_of(s: &str) -> (r: Vec<char>)
    ensures
        r@ == s@,
{
    broadcast use vstd::string::group_string_axioms;
    let mut it = s.chars();
    let mut r: Vec<char> = Vec::new();
    loop
        invariant
            r@ + it.remaining() == s@,
            it.obeys_prophetic_iter_laws(),
            it.decrease() is Some,
        decreases it.decrease()->0,
    {
        match it.next() {
            Some(c) => {
                r.push(c);
            },
            None => {
                return r;
            },
        }
    }
}

/// Relies on `String::push`: appends one character at the end.
#[verifier::external_body]
fn push_char(s: &mut String, c: char)
    ensures
        final(s)@ == old(s)@.push(c),
{
    s.push(c);
}

/// A `String` holding the characters of `v`, in order.
pub fn string_of(v: &Vec<char>) -> (r: String)
    ensures
        r@ == v@,
{
    let mut r = String::new();
    let mut i: usize = 0;
    while i < v.len()
        invariant
            i <= v@.len(),
            r@ == v@.subrange(0, i as int),
        decreases v@.len() - i,
    {
        push_char(&mut r, v[i]);
        i = i + 1;
        assert(r@ =~= v@.subrange(0, i as int));
    }
    assert(r@ =~= v@);
    r
}

} // verus!

verus! {

/// The character classes that the line grammars are built from.
#[derive(Clone, Copy, PartialEq, Eq, Structural)]
pub enum CharClass {
    /// `[A-Za-z0-9_]`
    Word,
    /// a word character or white space
    WordSpace,
    /// a word character or `:`
    WordColon,
    /// a word character, `/` or `.`
    WordSlashDot,
    /// a word character, `/` or `:`
    WordSlashColon,
    /// a word character, `/`, `.` or `-`
    WordSlashDotDash,
    /// `[0-9]`
    Digit,
    /// a digit or `.`
    DigitDot,
    /// white space
    Space,
    /// a word character or `-`
    WordDash,
}

/// A word character of the line grammars.  Only ASCII letters, digits and
/// `_` count: a test path or note with any other letter does not match a
/// grammar.
pub open spec fn is_word(c: char) -> bool {
    ('a' <= c && c <= 'z') || ('A' <= c && c <= 'Z') || ('0' <= c && c <= '9') || c == '_'
}

/// An ASCII decimal digit.
pub open spec fn is_digit(c: char) -> bool {
    '0' <= c && c <= '9'
}

/// ASCII white space: space, tab, line feed, carriage return, vertical tab
/// and form feed.
pub open spec fn is_space(c: char) -> bool {
    c == ' ' || c == '\t' || c == '\n' || c == '\r' || c == '\x0B' || c == '\x0C'
}

pub open spec fn in_class(k: CharClass, c: char) -> bool {
    match k {
        CharClass::Word => is_word(c),
        CharClass::WordSpace => is_word(c) || is_space(c),
        CharClass::WordColon => is_word(c) || c == ':',
        CharClass::WordSlashDot => is_word(c) || c == '/' || c == '.',
        CharClass::WordSlashColon => is_word(c) || c == '/' || c == ':',
        CharClass::WordSlashDotDash => is_word(c) || c == '/' || c == '.' || c == '-',
        CharClass::Digit => is_digit(c),
        CharClass::DigitDot => is_digit(c) || c == '.',
        CharClass::Space => is_space(c),
        CharClass::WordDash => is_word(c) || c == '-',
    }
}

pub fn class_has(k: CharClass, c: char) -> (r: bool)
    ensures
        r == in_class(k, c),
{
    let w = ('a' <= c && c <= 'z') || ('A' <= c && c <= 'Z') || ('0' <= c && c <= '9') || c
        == '_';
    let sp = c == ' ' || c == '\t' || c == '\n' || c == '\r' || c == '\x0B' || c == '\x0C';
    let d = '0' <= c && c <= '9';
    match k {
        CharClass::Word => w,
        CharClass::WordSpace => w || sp,
        CharClass::WordColon => w || c == ':',
        CharClass::WordSlashDot => w || c == '/' || c == '.',
        CharClass::WordSlashColon => w || c == '/' || c == ':',
        CharClass::WordSlashDotDash => w || c == '/' || c == '.' || c == '-',
        CharClass::Digit => d,
        CharClass::DigitDot => d || c == '.',
        CharClass::Space => sp,
        CharClass::WordDash => w || c == '-',
    }
}

/// The end of the longest run of characters of class `k` that starts at `i`.
pub open spec fn run_end(s: Seq<char>, i: int, k: CharClass) -> int
    decreases s.len() - i,
{
    if i < 0 || i >= s.len() || !in_class(k, s[i]) {
        i
    } else {
        run_end(s, i + 1, k)
    }
}

pub proof fn lemma_run_end(s: Seq<char>, i: int, k: CharClass)
    requires
        0 <= i <= s.len(),
    ensures
        i <= run_end(s, i, k) <= s.len(),
        forall|j: int| i <= j < run_end(s, i, k) ==> in_class(k, #[trigger] s[j]),
        run_end(s, i, k) < s.len() ==> !in_class(k, s[run_end(s, i, k)]),
    decreases s.len() - i,
{
    if i < s.len() && in_class(k, s[i]) {
        lemma_run_end(s, i + 1, k);
    }
}

pub fn find_run_end(s: &Vec<char>, i: usize, k: CharClass) -> (r: usize)
    requires
        i <= s@.len(),
    ensures
        r as int == run_end(s@, i as int, k),
        s@.len() <= usize::MAX,
{
    let n = s.len();
    let mut j = i;
    while j < s.len() && class_has(k, s[j])
        invariant
            i <= j <= s@.len(),
            run_end(s@, j as int, k) == run_end(s@, i as int, k),
        decreases s@.len() - j,
    {
        j = j + 1;
    }
    j
}

/// The start of the longest run of characters of class `k` that ends at `j`,
/// not reaching below `lo`.
pub open spec fn run_start(s: Seq<char>, lo: int, j: int, k: CharClass) -> int
    decreases j - lo,
{
    if j <= lo || j > s.len() || !in_class(k, s[j - 1]) {
        j
    } else {
        run_start(s, lo, j - 1, k)
    }
}

pub proof fn lemma_run_start(s: Seq<char>, lo: int, j: int, k: CharClass)
    requires
        0 <= lo <= j <= s.len(),
    ensures
        lo <= run_start(s, lo, j, k) <= j,
        forall|m: int| run_start(s, lo, j, k) <= m < j ==> in_class(k, #[trigger] s[m]),
    decreases j - lo,
{
    if j > lo && in_class(k, s[j - 1]) {
        lemma_run_start(s, lo, j - 1, k);
    }
}

pub fn find_run_start(s: &Vec<char>, lo: usize, j: usize, k: CharClass) -> (r: usize)
    requires
        lo <= j <= s@.len(),
    ensures
        r as int == run_start(s@, lo as int, j as int, k),
{
    let mut m = j;
    while m > lo && class_has(k, s[m - 1])
        invariant
            lo <= m <= j <= s@.len(),
            run_start(s@, lo as int, m as int, k) == run_start(s@, lo as int, j as int, k),
        decreases m - lo,
    {
        m = m - 1;
    }
    m
}

/// `lit` stands in `s` from position `i` on.
pub open spec fn lit_at(s: Seq<char>, i: int, lit: Seq<char>) -> bool {
    0 <= i && i + lit.len() <= s.len() && s.subrange(i, i + lit.len()) == lit
}

pub open spec fn starts_with(s: Seq<char>, lit: Seq<char>) -> bool {
    lit_at(s, 0, lit)
}

pub fn has_lit_at(s: &Vec<char>, i: usize, lit: &str) -> (r: bool)
    ensures
        r == lit_at(s@, i as int, lit@),
        s@.len() <= usize::MAX,
{
    let l = chars_of(lit);
    let n = s.len();
    if i > n || l.len() > s.len() - i {
        return false;
    }
    let mut j: usize = 0;
    while j < l.len()
        invariant
            i + l@.len() <= s@.len(),
            n == s@.len(),
            l@ == lit@,
            j <= l@.len(),
            forall|m: int| 0 <= m < j ==> s@[i + m] == l@[m],
        decreases l@.len() - j,
    {
        if s[i + j] != l[j] {
            assert(s@.subrange(i as int, i + l@.len())[j as int] != lit@[j as int]);
            return false;
        }
        j = j + 1;
    }
    assert(s@.subrange(i as int, i + l@.len()) =~= lit@);
    true
}

/// The number of characters of `lit`.
pub fn lit_len(lit: &str) -> (n: usize)
    ensures
        n == lit@.len(),
{
    lit.unicode_len()
}

/// `lit` stands somewhere in `s`.
pub open spec fn contains(s: Seq<char>, lit: Seq<char>) -> bool {
    exists|i: int| lit_at(s, i, lit)
}

pub fn has_lit(s: &Vec<char>, lit: &str) -> (r: bool)
    ensures
        r == contains(s@, lit@),
{
    let n = s.len();
    let mut i: usize = 0;
    loop
        invariant
            i <= n,
            n == s@.len(),
            forall|m: int| 0 <= m < i ==> !lit_at(s@, m, lit@),
        decreases n - i,
    {
        if has_lit_at(s, i, lit) {
            return true;
        }
        if i == n {
            assert forall|m: int| !lit_at(s@, m, lit@) by {
                if 0 <= m && m < i {
                }
            }
            return false;
        }
        i = i + 1;
    }
}

/// The number that the decimal digits `d` write.
pub open spec fn decimal_value(d: Seq<char>) -> nat
    decreases d.len(),
{
    if d.len() == 0 {
        0
    } else {
        decimal_value(d.drop_last()) * 10 + (d.last() as nat - '0' as nat) as nat
    }
}

/// The number that the digits `s[i..j]` write, where it is at most `max`.
pub fn decimal_at(s: &Vec<char>, i: usize, j: usize, max: u64) -> (r: Option<u64>)
    requires
        i <= j <= s@.len(),
        forall|m: int| i <= m < j ==> is_digit(#[trigger] s@[m]),
    ensures
        match r {
            Some(v) => v as nat == decimal_value(s@.subrange(i as int, j as int)) && v <= max,
            None => decimal_value(s@.subrange(i as int, j as int)) > max,
        },
{
    let mut v: u64 = 0;
    let mut m = i;
    while m < j
        invariant
            i <= m <= j <= s@.len(),
            forall|x: int| i <= x < j ==> is_digit(#[trigger] s@[x]),
            v as nat == decimal_value(s@.subrange(i as int, m as int)),
            v <= max,
        decreases j - m,
    {
        let c = s[m];
        assert(is_digit(s@[m as int]));
        let d = (c as u32 - '0' as u32) as u64;
        assert(s@.subrange(i as int, m + 1).drop_last() =~= s@.subrange(i as int, m as int));
        assert(d as nat == (s@[m as int] as nat - '0' as nat) as nat);
        if d > max || v > (max - d) / 10 {
            proof {
                assert(decimal_value(s@.subrange(i as int, m + 1)) > max) by (nonlinear_arith)
                    requires
                        decimal_value(s@.subrange(i as int, m + 1)) == v * 10 + d,
                        d > max || v > (max - d) / 10,
                        d <= 9,
                ;
                lemma_decimal_prefix_grows(s@, i as int, m + 1, j as int);
            }
            return None;
        }
        assert(v * 10 + d <= max) by (nonlinear_arith)
            requires
                v <= (max - d) / 10,
                d <= 9,
        ;
        v = v * 10 + d;
        m = m + 1;
    }
    Some(v)
}

proof fn lemma_decimal_prefix_grows(s: Seq<char>, i: int, m: int, j: int)
    requires
        0 <= i <= m <= j <= s.len(),
    ensures
        decimal_value(s.subrange(i, m)) <= decimal_value(s.subrange(i, j)),
    decreases j - m,
{
    if m < j {
        lemma_decimal_prefix_grows(s, i, m + 1, j);
        assert(s.subrange(i, m + 1).drop_last() =~= s.subrange(i, m));
    }
}

} // verus!

verus! {

/// The views of a sequence of character vectors.
pub open spec fn views(v: Seq<Vec<char>>) -> Seq<Seq<char>> {
    v.map_values(|x: Vec<char>| x@)
}

/// The characters `s[i..j]` as a vector.
pub fn slice_of(s: &Vec<char>, i: usize, j: usize) -> (r: Vec<char>)
    requires
        i <= j <= s@.len(),
    ensures
        r@ == s@.subrange(i as int, j as int),
{
    let mut r: Vec<char> = Vec::new();
    let mut m = i;
    while m < j
        invariant
            i <= m <= j <= s@.len(),
            r@ == s@.subrange(i as int, m as int),
        decreases j - m,
    {
        r.push(s[m]);
        m = m + 1;
        assert(r@ =~= s@.subrange(i as int, m as int));
    }
    r
}

/// The characters `s[i..j]` as a string.
pub fn string_at(s: &Vec<char>, i: usize, j: usize) -> (r: String)
    requires
        i <= j <= s@.len(),
    ensures
        r@ == s@.subrange(i as int, j as int),
{
    let v = slice_of(s, i, j);
    string_of(&v)
}

/// `s` without the white space at either end.
pub open spec fn trim(s: Seq<char>) -> Seq<char> {
    let a = run_end(s, 0, CharClass::Space);
    s.subrange(a, run_start(s, a, s.len() as int, CharClass::Space))
}

pub fn trimmed(s: &Vec<char>) -> (r: Vec<char>)
    ensures
        r@ == trim(s@),
{
    let a = find_run_end(s, 0, CharClass::Space);
    proof {
        lemma_run_end(s@, 0, CharClass::Space);
    }
    let b = find_run_start(s, a, s.len(), CharClass::Space);
    proof {
        lemma_run_start(s@, a as int, s@.len() as int, CharClass::Space);
    }
    slice_of(s, a, b)
}

/// `s` with every `c` taken out.
pub open spec fn without(s: Seq<char>, c: char) -> Seq<char>
    decreases s.len(),
{
    if s.len() == 0 {
        s
    } else if s.last() == c {
        without(s.drop_last(), c)
    } else {
        without(s.drop_last(), c).push(s.last())
    }
}

pub fn remove_char(s: &Vec<char>, c: char) -> (r: Vec<char>)
    ensures
        r@ == without(s@, c),
{
    let mut r: Vec<char> = Vec::new();
    let mut i: usize = 0;
    while i < s.len()
        invariant
            i <= s@.len(),
            r@ == without(s@.subrange(0, i as int), c),
        decreases s@.len() - i,
    {
        assert(s@.subrange(0, i + 1).drop_last() =~= s@.subrange(0, i as int));
        if s[i] != c {
            r.push(s[i]);
        }
        i = i + 1;
    }
    assert(s@.subrange(0, i as int) =~= s@);
    r
}

/// The pieces of `s` between the separators `sep`, in order; `n` separators
/// give `n + 1` pieces.
pub open spec fn split_on(s: Seq<char>, sep: char) -> Seq<Seq<char>>
    decreases s.len(),
{
    if s.len() == 0 {
        seq![Seq::empty()]
    } else {
        let p = split_on(s.drop_last(), sep);
        if s.last() == sep {
            p.push(Seq::empty())
        } else {
            p.update(p.len() - 1, p.last().push(s.last()))
        }
    }
}

pub proof fn lemma_split_on_len(s: Seq<char>, sep: char)
    ensures
        split_on(s, sep).len() >= 1,
    decreases s.len(),
{
    if s.len() > 0 {
        lemma_split_on_len(s.drop_last(), sep);
    }
}

pub fn split_chars(s: &Vec<char>, sep: char) -> (r: Vec<Vec<char>>)
    ensures
        views(r@) == split_on(s@, sep),
{
    let mut done: Vec<Vec<char>> = Vec::new();
    let mut cur: Vec<char> = Vec::new();
    let mut i: usize = 0;
    while i < s.len()
        invariant
            i <= s@.len(),
            views(done@).push(cur@) == split_on(s@.subrange(0, i as int), sep),
        decreases s@.len() - i,
    {
        let ghost before = views(done@);
        assert(s@.subrange(0, i + 1).drop_last() =~= s@.subrange(0, i as int));
        if s[i] == sep {
            let finished = cur;
            done.push(finished);
            cur = Vec::new();
            assert(views(done@) =~= before.push(finished@));
            assert(views(done@).push(cur@) =~= before.push(finished@).push(Seq::empty()));
        } else {
            let ghost old_cur = cur@;
            cur.push(s[i]);
            assert(views(done@).push(cur@) =~= before.push(old_cur).update(
                before.len() as int,
                old_cur.push(s@[i as int]),
            ));
        }
        i = i + 1;
    }
    assert(s@.subrange(0, i as int) =~= s@);
    let last = cur;
    let ghost before = views(done@);
    done.push(last);
    assert(views(done@) =~= before.push(last@));
    done
}

/// The pieces of `parts` joined, with `sep` between two neighbours.
pub open spec fn join(parts: Seq<Seq<char>>, sep: Seq<char>) -> Seq<char>
    decreases parts.len(),
{
    if parts.len() == 0 {
        Seq::empty()
    } else if parts.len() == 1 {
        parts[0]
    } else {
        join(parts.drop_last(), sep) + sep + parts.last()
    }
}

/// The views of a sequence of strings.
pub open spec fn string_views(v: Seq<String>) -> Seq<Seq<char>> {
    v.map_values(|x: String| x@)
}

pub fn join_strings(parts: &Vec<String>, sep: &str) -> (r: String)
    ensures
        r@ == join(string_views(parts@), sep@),
{
    let mut r = String::new();
    let mut i: usize = 0;
    while i < parts.len()
        invariant
            i <= parts@.len(),
            r@ == join(string_views(parts@).subrange(0, i as int), sep@),
        decreases parts@.len() - i,
    {
        let ghost sv = string_views(parts@);
        assert(sv.subrange(0, i + 1).drop_last() =~= sv.subrange(0, i as int));
        if i > 0 {
            r.append(sep);
        }
        r.append(parts[i].as_str());
        i = i + 1;
        assert(r@ =~= join(sv.subrange(0, i as int), sep@));
    }
    assert(string_views(parts@).subrange(0, i as int) =~= string_views(parts@));
    r
}

} // verus!

verus! {

/// Appends the characters `v` to `s`.
pub fn append_chars(s: &mut String, v: &Vec<char>)
    ensures
        final(s)@ == old(s)@ + v@,
{
    let mut i: usize = 0;
    while i < v.len()
        invariant
            i <= v@.len(),
            s@ == old(s)@ + v@.subrange(0, i as int),
        decreases v@.len() - i,
    {
        push_char(s, v[i]);
        i = i + 1;
        assert(s@ =~= old(s)@ + v@.subrange(0, i as int));
    }
    assert(v@.subrange(0, i as int) =~= v@);
}

} // verus!
