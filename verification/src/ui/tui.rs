//! Colours and log lines of the terminal interface.

use vstd::prelude::*;
use vstd::string::*;
use crate::text::{chars_of, string_of};

verus! {

/// A colour of the terminal.
#[derive(Clone, Copy, Debug, PartialEq, Eq, Structural)]
pub enum Colour {
    Green,
    Blue,
    Purple,
    Red,
    Cyan,
    White,
    Grey,
    BrightGreen,
    BrightBlue,
    BrightPurple,
}

impl Colour {
    /// The end of the escape sequence that selects the colour.
    pub open spec fn code_spec(self) -> Seq<char> {
        match self {
            Colour::Green => "32m"@,
            Colour::Blue => "34m"@,
            Colour::Purple => "35m"@,
            Colour::Red => "31m"@,
            Colour::Cyan => "36m"@,
            Colour::White => "37m"@,
            Colour::Grey => "90m"@,
            Colour::BrightGreen => "92m"@,
            Colour::BrightBlue => "94m"@,
            Colour::BrightPurple => "95m"@,
        }
    }

    /// The end of the escape sequence that selects the colour.
    pub fn code(&self) -> (r: String)
        ensures
            r@ == self.code_spec(),
    {
        let text = match self {
            Colour::Green => "32m",
            Colour::Blue => "34m",
            Colour::Purple => "35m",
            Colour::Red => "31m",
            Colour::Cyan => "36m",
            Colour::White => "37m",
            Colour::Grey => "90m",
            Colour::BrightGreen => "92m",
            Colour::BrightBlue => "94m",
            Colour::BrightPurple => "95m",
        };
        let chars = chars_of(text);
        string_of(chars.as_slice())
    }

    /// The escape sequence that selects the colour.
    pub fn escape(&self) -> (r: String)
        ensures
            r@ == "\x1b["@ + self.code_spec(),
    {
        let mut out = String::from_str("\x1b[");
        let code = self.code();
        out.append(code.as_str());
        out
    }
}

/// How grave a log line is.
#[derive(Clone, Copy, Debug, PartialEq, Eq, Structural)]
pub enum Severity {
    Log,
    Success,
    Error,
}

impl Severity {
    /// The colour in which a log line of this severity is shown.
    pub open spec fn colour_spec(self) -> Colour {
        match self {
            Severity::Error => Colour::Red,
            Severity::Log => Colour::Blue,
            Severity::Success => Colour::Green,
        }
    }

    /// The colour in which a log line of this severity is shown.
    pub fn colour(&self) -> (r: Colour)
        ensures
            r == self.colour_spec(),
    {
        match self {
            Severity::Error => Colour::Red,
            Severity::Log => Colour::Blue,
            Severity::Success => Colour::Green,
        }
    }
}

/// A line of the log.
#[derive(Debug, PartialEq)]
pub struct Log {
    pub severity: Severity,
    pub content: String,
}

impl Clone for Log {
    fn clone(&self) -> (r: Self)
        ensures
            r.severity == self.severity,
            r.content@ == self.content@,
    {
        Log { severity: self.severity, content: self.content.clone() }
    }
}

} // verus!
