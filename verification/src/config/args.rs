//! The command that the program is started with.

use vstd::prelude::*;
use crate::text::{chars_of, spells};

verus! {

/// What the program is asked to do.
#[derive(Clone, Copy, Debug, PartialEq, Eq, Structural)]
pub enum Command {
    Login,
    Logout,
    CLI,
}

/// How the program was started.
#[derive(Clone, Copy, Debug, PartialEq, Eq, Structural)]
pub struct RunContext {
    pub command: Command,
}

/// Whether `text` ends with `tail`.
pub open spec fn ends_with(text: Seq<char>, tail: Seq<char>) -> bool {
    tail.len() <= text.len() && text.subrange(text.len() - tail.len(), text.len() as int) == tail
}

/// Whether an argument is the name of the program.
pub open spec fn is_program_name(arg: Seq<char>) -> bool {
    ends_with(arg, "spotifyQL"@)
}

/// The position of the first argument that is not the name of the
/// program; the number of the arguments where there is none.
pub open spec fn first_argument(args: Seq<String>) -> int
    decreases args.len(),
{
    if args.len() == 0 || !is_program_name(args[0]@) {
        0
    } else {
        1 + first_argument(args.drop_first())
    }
}

/// The command that the word `word` asks for: `login` and `logout` ask for
/// themselves, and any other word for the command line.
pub open spec fn command_spec(word: Seq<char>) -> Command {
    if word == "login"@ {
        Command::Login
    } else if word == "logout"@ {
        Command::Logout
    } else {
        Command::CLI
    }
}

pub proof fn lemma_first_argument_is(args: Seq<String>, n: int)
    requires
        0 <= n <= args.len(),
        forall|j: int| 0 <= j < n ==> is_program_name((#[trigger] args[j])@),
        n < args.len() ==> !is_program_name(args[n]@),
    ensures
        first_argument(args) == n,
    decreases args.len(),
{
    if n > 0 {
        let t = args.drop_first();
        assert(is_program_name(args[0]@));
        assert forall|j: int| 0 <= j < n - 1 implies is_program_name((#[trigger] t[j])@) by {
            assert(t[j] == args[j + 1]);
        }
        if n - 1 < t.len() {
            assert(t[n - 1] == args[n]);
        }
        lemma_first_argument_is(t, n - 1);
    }
}

fn check_program_name(arg: &str) -> (r: bool)
    ensures
        r == is_program_name(arg@),
{
    let text = chars_of(arg);
    let tail = chars_of("spotifyQL");
    if tail.len() > text.len() {
        return false;
    }
    let start = text.len() - tail.len();
    let end = crate::text::slice_of(text.as_slice(), start, text.len());
    crate::text::chars_equal(end.as_slice(), tail.as_slice())
}

impl RunContext {
    /// Whether one of the arguments `args` is not the name of the program.
    pub fn has_command(args: &Vec<String>) -> (r: bool)
        ensures
            r == (first_argument(args@) < args@.len()),
    {
        let mut i: usize = 0;
        while i < args.len() && check_program_name(args[i].as_str())
            invariant
                i <= args.len(),
                forall|j: int| 0 <= j < i ==> is_program_name((#[trigger] args@[j])@),
            decreases args.len() - i,
        {
            i += 1;
        }
        proof {
            lemma_first_argument_is(args@, i as int);
        }
        i < args.len()
    }

    /// How the program was started with the arguments `args`: the first
    /// argument that does not end with the name of the program decides.
    /// There must be such an argument.
    pub fn new(args: Vec<String>) -> (r: Self)
        requires
            first_argument(args@) < args@.len(),
        ensures
            r.command == command_spec(args@[first_argument(args@)]@),
    {
        let mut i: usize = 0;
        while i < args.len() && check_program_name(args[i].as_str())
            invariant
                i <= args.len(),
                forall|j: int| 0 <= j < i ==> is_program_name((#[trigger] args@[j])@),
            decreases args.len() - i,
        {
            i += 1;
        }
        proof {
            lemma_first_argument_is(args@, i as int);
        }
        let word = chars_of(args[i].as_str());
        let command = if spells(word.as_slice(), "login") {
            Command::Login
        } else if spells(word.as_slice(), "logout") {
            Command::Logout
        } else {
            Command::CLI
        };
        RunContext { command }
    }
}

} // verus!
