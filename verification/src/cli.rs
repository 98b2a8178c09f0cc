//! What the command line asks for.

use vstd::prelude::*;

verus! {

/// [`Invocation`] as a mathematical value.
pub enum InvocationView {
    Run { uri: Seq<char> },
    Usage { message: Seq<char> },
}

/// What the program was asked to do.
#[derive(Debug, PartialEq, Eq)]
pub enum Invocation {
    /// Work on the target that `uri` names.
    Run { uri: String },
    /// Do no work: print `message` to the error stream and exit.
    Usage { message: String },
}

impl View for Invocation {
    type V = InvocationView;

    open spec fn view(&self) -> InvocationView {
        match self {
            Invocation::Run { uri } => InvocationView::Run { uri: uri@ },
            Invocation::Usage { message } => InvocationView::Usage { message: message@ },
        }
    }
}

/// The usage line of a program called `program`.
pub open spec fn usage_text(program: Seq<char>) -> Seq<char> {
    "Usage: "@ + program + " <s3_uri, e.g.s3://bucket/prefix/> "@
}

/// What the arguments `args` ask for, the program's own name counted as the
/// first of them: a run where exactly one argument follows the name, the
/// usage line in every other case. Without a name the usage line is written
/// with an empty one.
pub open spec fn invocation_of(args: Seq<Seq<char>>) -> InvocationView {
    if args.len() == 2 {
        InvocationView::Run { uri: args[1] }
    } else if args.len() > 0 {
        InvocationView::Usage { message: usage_text(args[0]) }
    } else {
        InvocationView::Usage { message: usage_text(Seq::empty()) }
    }
}

/// Returns the usage line of a program called `program`.
pub fn usage(program: &str) -> (message: String)
    ensures
        message@ == usage_text(program@),
{
    String::from_str("Usage: ").concat(program).concat(" <s3_uri, e.g.s3://bucket/prefix/> ")
}

/// Reads the command line: `args` holds the program's name and then its
/// arguments.
pub fn invocation(args: &Vec<String>) -> (asked: Invocation)
    ensures
        asked@ == invocation_of(args.deep_view()),
{
    if args.len() == 2 {
        Invocation::Run { uri: args[1].clone() }
    } else if args.len() > 0 {
        Invocation::Usage { message: usage(args[0].as_str()) }
    } else {
        proof {
            reveal_strlit("");
        }
        assert(""@ =~= Seq::<char>::empty());
        Invocation::Usage { message: usage("") }
    }
}

} // verus!
