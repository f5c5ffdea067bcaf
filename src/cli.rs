//! The command line of `cargo what`: which arguments go on to the build, and
//! which ones it answers itself.

use vstd::prelude::*;
use crate::text::{contains, contains_exec, starts_with, starts_with_exec, text_eq, texts};

verus! {

/// What a command line asks for.
pub enum Invocation {
    /// Print the tool's version.
    Version,
    /// Show the build's help.
    Help,
    /// A flag that the tool cannot run with; the text says which.
    Unsupported(String),
    /// Run the build with these arguments; `color` is what the command line
    /// says of color, if anything.
    Build { args: Vec<String>, color: Option<bool> },
}

/// `Invocation`, over character sequences.
pub ghost enum InvocationModel {
    Version,
    Help,
    Unsupported(Seq<char>),
    Build { args: Seq<Seq<char>>, color: Option<bool> },
}

impl View for Invocation {
    type V = InvocationModel;

    open spec fn view(&self) -> InvocationModel {
        match self {
            Invocation::Version => InvocationModel::Version,
            Invocation::Help => InvocationModel::Help,
            Invocation::Unsupported(m) => InvocationModel::Unsupported(m@),
            Invocation::Build { args, color } => InvocationModel::Build { args: texts(args@), color: *color },
        }
    }
}

/// Where the scan of a command line stands.
pub ghost struct Scan {
    /// The subcommand's own name has been passed over.
    pub seen_what: bool,
    /// A `--` has been seen: what follows goes to the build as it is.
    pub dashdash: bool,
    pub color: Option<bool>,
    pub kept: Seq<Seq<char>>,
}

/// The scan after one more argument, or the answer it ends with.
pub open spec fn scan_step(s: Scan, arg: Seq<char>) -> Result<Scan, InvocationModel> {
    if s.dashdash {
        Ok(Scan { kept: s.kept.push(arg), ..s })
    } else if arg == "what"@ && !s.seen_what {
        Ok(Scan { seen_what: true, ..s })
    } else if arg == "--"@ {
        Ok(Scan { dashdash: true, ..s })
    } else if arg == "--version"@ {
        Err(InvocationModel::Version)
    } else if arg == "-h"@ || arg == "--help"@ {
        Err(InvocationModel::Help)
    } else if starts_with(arg, "--color"@) {
        if contains(arg, "always"@) {
            Ok(Scan { color: Some(true), ..s })
        } else if contains(arg, "never"@) {
            Ok(Scan { color: Some(false), ..s })
        } else {
            Ok(s)
        }
    } else if starts_with(arg, "--message-format"@) {
        Err(InvocationModel::Unsupported("--message-format not supported"@))
    } else {
        Ok(Scan { kept: s.kept.push(arg), ..s })
    }
}

/// The scan of `args`, or the answer it ended with.
pub open spec fn scan(args: Seq<Seq<char>>) -> Result<Scan, InvocationModel>
    decreases args.len(),
{
    if args.len() == 0 {
        Ok(Scan { seen_what: false, dashdash: false, color: None, kept: Seq::empty() })
    } else {
        match scan(args.drop_last()) {
            Ok(s) => scan_step(s, args.last()),
            Err(e) => Err(e),
        }
    }
}

/// What the arguments after the program's name ask for: the first
/// `--version`, help flag or `--message-format` before a `--` answers at once;
/// otherwise the build runs with every argument but the first `what` (as
/// cargo passes it), a `--` and the `--color` flags.
pub open spec fn invocation(args: Seq<Seq<char>>) -> InvocationModel {
    match scan(args) {
        Ok(s) => InvocationModel::Build { args: s.kept, color: s.color },
        Err(e) => e,
    }
}

/// Once the scan has ended with an answer, later arguments do not change it.
pub proof fn lemma_answer_stands(args: Seq<Seq<char>>, k: int)
    requires
        0 <= k <= args.len(),
        scan(args.subrange(0, k)) is Err,
    ensures
        scan(args) == scan(args.subrange(0, k)),
    decreases args.len(),
{
    if args.len() == k {
        assert(args.subrange(0, k) =~= args);
    } else {
        assert(args.drop_last().subrange(0, k) =~= args.subrange(0, k));
        lemma_answer_stands(args.drop_last(), k);
    }
}

/// Reads the command line.
pub fn parse_args(args: &Vec<String>) -> (r: Invocation)
    ensures
        r@ == invocation(texts(args@)),
{
    let ghost all = texts(args@);
    let mut seen_what = false;
    let mut dashdash = false;
    let mut color: Option<bool> = None;
    let mut kept: Vec<String> = Vec::new();
    let mut i: usize = 0;
    assert(all.subrange(0, 0) =~= Seq::<Seq<char>>::empty());
    assert(texts(kept@) =~= Seq::<Seq<char>>::empty());
    while i < args.len()
        invariant
            i <= args@.len(),
            all == texts(args@),
            scan(all.subrange(0, i as int)) == Ok::<Scan, InvocationModel>(
                Scan { seen_what, dashdash, color, kept: texts(kept@) },
            ),
        decreases args.len() - i,
    {
        let arg = args[i].as_str();
        let ghost s = Scan { seen_what, dashdash, color, kept: texts(kept@) };
        assert(all.subrange(0, i + 1).drop_last() =~= all.subrange(0, i as int));
        assert(all.subrange(0, i + 1).last() == arg@);
        let ghost kept0 = texts(kept@);
        if dashdash {
            kept.push(String::from_str(arg));
            assert(texts(kept@) =~= kept0.push(arg@));
        } else if text_eq(arg, "what") && !seen_what {
            seen_what = true;
        } else if text_eq(arg, "--") {
            dashdash = true;
        } else if text_eq(arg, "--version") {
            proof {
                lemma_answer_stands(all, i + 1);
            }
            return Invocation::Version;
        } else if text_eq(arg, "-h") || text_eq(arg, "--help") {
            proof {
                lemma_answer_stands(all, i + 1);
            }
            return Invocation::Help;
        } else if starts_with_exec(arg, "--color") {
            if contains_exec(arg, "always") {
                color = Some(true);
            } else if contains_exec(arg, "never") {
                color = Some(false);
            }
        } else if starts_with_exec(arg, "--message-format") {
            proof {
                lemma_answer_stands(all, i + 1);
            }
            return Invocation::Unsupported(String::from_str("--message-format not supported"));
        } else {
            kept.push(String::from_str(arg));
            assert(texts(kept@) =~= kept0.push(arg@));
        }
        i = i + 1;
    }
    assert(all.subrange(0, i as int) =~= all);
    Invocation::Build { args: kept, color }
}

} // verus!
