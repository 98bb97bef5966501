//! The options that the command line gives.
use vstd::prelude::*;

use crate::text::{chars_of, has_lit_at, lit_len};

verus! {

/// What the command line asks of the output.
pub struct Config {
    pub no_color: bool,
    pub debug: bool,
}

impl Default for Config {
    fn default() -> (r: Config)
        ensures
            !r.no_color,
            !r.debug,
    {
        Config { no_color: false, debug: false }
    }
}

/// The one option that the command line accepts.
pub open spec fn valid_arg(a: Seq<char>) -> bool {
    a == "--no-color"@
}

/// Whether `a` is the text `lit`.
pub fn is_text(a: &String, lit: &str) -> (r: bool)
    ensures
        r == (a@ == lit@),
{
    let c = chars_of(a.as_str());
    let r = c.len() == lit_len(lit) && has_lit_at(&c, 0, lit);
    proof {
        if r {
            assert(c@ =~= c@.subrange(0, c@.len() as int));
        }
        if a@ == lit@ {
            assert(c@.subrange(0, lit@.len() as int) =~= c@);
        }
    }
    r
}

/// Reads the options; the first argument that is not an option is an error.
pub fn config(args: Vec<String>) -> (r: Result<Config, String>)
    ensures
        match r {
            Ok(c) => (forall|i: int| 0 <= i < args@.len() ==> valid_arg(#[trigger] args@[i]@))
                && c.no_color == (args@.len() > 0) && !c.debug,
            Err(m) => exists|i: int|
                0 <= i < args@.len() && !valid_arg(#[trigger] args@[i]@) && (forall|j: int|
                    0 <= j < i ==> valid_arg(#[trigger] args@[j]@)) && m@ == "Invalid argument "@
                    + args@[i]@,
        },
{
    let mut cfg = Config::default();
    let mut i: usize = 0;
    while i < args.len()
        invariant
            i <= args@.len(),
            forall|j: int| 0 <= j < i ==> valid_arg(#[trigger] args@[j]@),
            cfg.no_color == (i > 0),
            !cfg.debug,
        decreases args@.len() - i,
    {
        if !is_text(&args[i], "--no-color") {
            let mut m = String::from_str("Invalid argument ");
            m.append(args[i].as_str());
            return Err(m);
        }
        cfg.no_color = true;
        i = i + 1;
    }
    Ok(cfg)
}

} // verus!
