//! The lines that are typed at the prompt.

use vstd::prelude::*;
use vstd::string::*;
use crate::text::{chars_of, spells};

verus! {

/// The query that `/testf` runs.
pub const TEST_FILTER: &'static str =
    "SELECT COUNT(name) FROM playlist(\"all\") WHERE artist == \"Arctic Monkeys\";";

/// The query that `/testd` runs.
pub const TEST_TARGETS: &'static str = "SELECT id, name FROM playlist(\"all\");";

/// The query that `/testb` runs.
pub const TEST_CONNECTIVES: &'static str =
    "SELECT id, name FROM playlist(\"all\") WHERE name == \"test\" AND id == 1;";

/// What a line asks for.
#[derive(Debug, PartialEq)]
pub enum InputCommand {
    /// Leave.
    Exit,
    /// Ask the service for the playlists, and take the test query through
    /// the lexer and the parser.
    Test,
    /// Run the query.
    Query(String),
}

/// The query that a line asks to run, where it asks for one: the line
/// itself, or the query behind one of the test commands.
pub open spec fn query_of(line: Seq<char>) -> Seq<char> {
    if line == "/testf"@ {
        TEST_FILTER@
    } else if line == "/testd"@ {
        TEST_TARGETS@
    } else if line == "/testb"@ {
        TEST_CONNECTIVES@
    } else {
        line
    }
}

/// Reads a line without the blanks around it.
pub fn read_command(line: &str) -> (r: InputCommand)
    ensures
        line@ == "/exit"@ ==> r == InputCommand::Exit,
        line@ != "/exit"@ && line@ == "/test"@ ==> r == InputCommand::Test,
        line@ != "/exit"@ && line@ != "/test"@ ==> (r matches InputCommand::Query(q) && q@
            == query_of(line@)),
{
    let chars = chars_of(line);
    let word = chars.as_slice();
    if spells(word, "/exit") {
        InputCommand::Exit
    } else if spells(word, "/test") {
        InputCommand::Test
    } else if spells(word, "/testf") {
        InputCommand::Query(String::from_str(TEST_FILTER))
    } else if spells(word, "/testd") {
        InputCommand::Query(String::from_str(TEST_TARGETS))
    } else if spells(word, "/testb") {
        InputCommand::Query(String::from_str(TEST_CONNECTIVES))
    } else {
        InputCommand::Query(String::from_str(line))
    }
}

} // verus!
