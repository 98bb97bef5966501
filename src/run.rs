//! What stands around one run of the test runner: the arguments it is handed
//! and the error that a failed run reports.
use vstd::prelude::*;

use crate::config::is_text;

verus! {

/// Why a run failed.
#[derive(Debug)]
pub struct RunError {
    pub error: String,
}

impl RunError {
    /// The error in red, as a terminal shows it.
    pub fn message(&self) -> (r: String)
        ensures
            r@ == "\x1b[31m"@ + self.error@ + "\x1b[0m"@,
    {
        let mut r = String::from_str("\x1b[31m");
        r.append(self.error.as_str());
        r.append("\x1b[0m");
        r
    }
}

/// The arguments that would make the runner's output unreadable to the
/// parser: captured output shown, verbose lines, colours.
pub open spec fn filtered_arg(a: Seq<char>) -> bool {
    a == "--nocapture"@ || a == "-v"@ || a == "--verbose"@ || a == "--color=always"@ || a
        == "--color=auto"@ || a == "--color=never"@
}

pub fn is_filtered_arg(a: &String) -> (r: bool)
    ensures
        r == filtered_arg(a@),
{
    is_text(a, "--nocapture") || is_text(a, "-v") || is_text(a, "--verbose") || is_text(
        a,
        "--color=always",
    ) || is_text(a, "--color=auto") || is_text(a, "--color=never")
}

/// The arguments of `args` that are handed on to the runner: those that are
/// not filtered, in order.
pub open spec fn kept_args(args: Seq<Seq<char>>) -> Seq<Seq<char>> {
    args.filter(|a: Seq<char>| !filtered_arg(a))
}

pub open spec fn arg_views(v: Seq<String>) -> Seq<Seq<char>> {
    v.map_values(|s: String| s@)
}

/// The arguments for the runner: `args` without those that are filtered,
/// then `--color=never`.
pub fn forward_args(args: &Vec<String>, from: usize) -> (r: Vec<String>)
    requires
        from <= args@.len(),
    ensures
        arg_views(r@) == kept_args(arg_views(args@).subrange(from as int, args@.len() as int)).push(
            "--color=never"@,
        ),
{
    let ghost av = arg_views(args@);
    let mut r: Vec<String> = Vec::new();
    let mut i = from;
    assert(av.subrange(from as int, from as int).filter(|a: Seq<char>| !filtered_arg(a))
        =~= Seq::<Seq<char>>::empty()) by {
        reveal(Seq::filter);
    }
    assert(arg_views(r@) =~= Seq::<Seq<char>>::empty());
    while i < args.len()
        invariant
            from <= i <= args@.len(),
            av == arg_views(args@),
            arg_views(r@) == kept_args(av.subrange(from as int, i as int)),
        decreases args@.len() - i,
    {
        assert(av.subrange(from as int, i + 1).drop_last() =~= av.subrange(from as int, i as int));
        assert(av.subrange(from as int, i + 1).last() == args@[i as int]@);
        proof {
            reveal(Seq::filter);
        }
        if !is_filtered_arg(&args[i]) {
            let ghost before = arg_views(r@);
            r.push(args[i].clone());
            assert(arg_views(r@) =~= before.push(args@[i as int]@));
        }
        i = i + 1;
    }
    let ghost before = arg_views(r@);
    r.push(String::from_str("--color=never"));
    assert(arg_views(r@) =~= before.push("--color=never"@));
    r
}

/// The place of the first `--` among `args` from `from` on, or the end.
pub fn forward_point(args: &Vec<String>, from: usize) -> (r: usize)
    requires
        from <= args@.len(),
    ensures
        from <= r <= args@.len(),
        r < args@.len() ==> args@[r as int]@ == "--"@,
        forall|k: int| from <= k < r ==> (#[trigger] args@[k])@ != "--"@,
{
    let mut i = from;
    while i < args.len()
        invariant
            from <= i <= args@.len(),
            forall|k: int| from <= k < i ==> (#[trigger] args@[k])@ != "--"@,
        decreases args@.len() - i,
    {
        if is_text(&args[i], "--") {
            return i;
        }
        i = i + 1;
    }
    i
}

/// Whether `argv` has the shape of the program's command line.
pub open spec fn known_shape(argv: Seq<Seq<char>>) -> bool {
    (argv.len() > 0 && argv[0] == "cargo-ptest"@) || (argv.len() > 1 && argv[1] == "ptest"@)
}

/// Where the program's own options start.
pub open spec fn own_start(argv: Seq<Seq<char>>) -> int {
    if argv.len() > 0 && argv[0] == "cargo-ptest"@ {
        1
    } else {
        2
    }
}

/// `own` and `fwd` are the two parts of `argv` when its first `--` stands at
/// `p` (or there is none, where `p` is its length).
pub open spec fn split_at_forward(
    argv: Seq<Seq<char>>,
    p: int,
    own: Seq<Seq<char>>,
    fwd: Seq<Seq<char>>,
) -> bool {
    let skip = own_start(argv);
    &&& skip <= p <= argv.len()
    &&& own == argv.subrange(skip, p)
    &&& forall|k: int| skip <= k < p ==> #[trigger] argv[k] != "--"@
    &&& if p < argv.len() {
        argv[p] == "--"@ && fwd == kept_args(argv.subrange(p + 1, argv.len() as int)).push(
            "--color=never"@,
        )
    } else {
        fwd == seq!["--color=never"@]
    }
}

/// The command line of the program split in two: the program's own options
/// (those before `--`) and the runner's arguments (those after it,
/// filtered, then `--color=never`).  The program runs as `cargo-ptest ...`
/// or as `<path> ptest ...`; any other shape is an error.
pub fn split_command_line(argv: &Vec<String>) -> (r: Result<(Vec<String>, Vec<String>), RunError>)
    ensures
        r is Ok <==> known_shape(arg_views(argv@)),
        r is Err ==> r->Err_0.error@ == "Run Error: how did you manage to see this error"@,
        r is Ok ==> exists|p: int|
            split_at_forward(
                arg_views(argv@),
                p,
                arg_views(r->Ok_0.0@),
                arg_views(r->Ok_0.1@),
            ),
{
    let ghost av = arg_views(argv@);
    proof {
        if argv@.len() > 0 {
            assert(av[0] == argv@[0]@);
        }
        if argv@.len() > 1 {
            assert(av[1] == argv@[1]@);
        }
    }
    let skip: usize = if argv.len() > 0 && is_text(&argv[0], "cargo-ptest") {
        1
    } else if argv.len() > 1 && is_text(&argv[1], "ptest") {
        2
    } else {
        return Err(RunError { error: String::from_str("Run Error: how did you manage to see this error") });
    };
    let p = forward_point(argv, skip);
    let mut own: Vec<String> = Vec::new();
    let mut i = skip;
    assert(arg_views(own@) =~= arg_views(argv@).subrange(skip as int, skip as int));
    while i < p
        invariant
            skip <= i <= p <= argv@.len(),
            arg_views(own@) == arg_views(argv@).subrange(skip as int, i as int),
        decreases p - i,
    {
        let ghost before = arg_views(own@);
        own.push(argv[i].clone());
        assert(arg_views(own@) =~= before.push(argv@[i as int]@));
        i = i + 1;
        assert(arg_views(own@) =~= arg_views(argv@).subrange(skip as int, i as int));
    }
    let fwd = if p < argv.len() {
        forward_args(argv, p + 1)
    } else {
        let mut f: Vec<String> = Vec::new();
        f.push(String::from_str("--color=never"));
        assert(arg_views(f@) =~= seq!["--color=never"@]);
        f
    };
    assert forall|k: int| skip <= k < p implies #[trigger] av[k] != "--"@ by {
        assert(av[k] == argv@[k]@);
    }
    if p < argv.len() {
        assert(av[p as int] == argv@[p as int]@);
        assert(av.subrange(p + 1, av.len() as int) =~= arg_views(argv@).subrange(p + 1, argv@.len() as int));
    }
    assert(known_shape(av));
    let r: Result<(Vec<String>, Vec<String>), RunError> = Ok((own, fwd));
    assert(split_at_forward(
        arg_views(argv@),
        p as int,
        arg_views(r->Ok_0.0@),
        arg_views(r->Ok_0.1@),
    ));
    r
}

/// Whether the runner is asked for its help text.
pub fn wants_help(fwd: &Vec<String>) -> (r: bool)
    ensures
        r == exists|i: int|
            0 <= i < fwd@.len() && ((#[trigger] fwd@[i])@ == "--help"@ || fwd@[i]@ == "-h"@),
{
    let mut i: usize = 0;
    while i < fwd.len()
        invariant
            i <= fwd@.len(),
            forall|k: int| 0 <= k < i ==> !((#[trigger] fwd@[k])@ == "--help"@ || fwd@[k]@ == "-h"@),
        decreases fwd@.len() - i,
    {
        if is_text(&fwd[i], "--help") || is_text(&fwd[i], "-h") {
            return true;
        }
        i = i + 1;
    }
    false
}

} // verus!
