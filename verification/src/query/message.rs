//! Tokens and errors as text for the reader.

use vstd::prelude::*;
use crate::query::display::value_text;
use crate::query::error::{Expected, QueryError, QueryErrorView};
use crate::query::token::{
    DataSource, DataSourceView, Logical, RecordKind, Token, TokenView,
};
use crate::query::value::Operator;
use crate::text::{append_chars, chars_of, string_of, texts_of};

verus! {

/// The name of an operator.
pub open spec fn operator_text(op: Operator) -> Seq<char> {
    match op {
        Operator::Equals => "Equals"@,
        Operator::NotEquals => "NotEquals"@,
        Operator::Like => "Like"@,
        Operator::In => "In"@,
        Operator::NotIn => "NotIn"@,
        Operator::Less => "Less"@,
        Operator::LessEqual => "LessEqual"@,
        Operator::Greater => "Greater"@,
        Operator::GreaterEqual => "GreaterEqual"@,
    }
}

fn operator_name(op: Operator) -> (r: &'static str)
    ensures
        r@ == operator_text(op),
{
    match op {
        Operator::Equals => "Equals",
        Operator::NotEquals => "NotEquals",
        Operator::Like => "Like",
        Operator::In => "In",
        Operator::NotIn => "NotIn",
        Operator::Less => "Less",
        Operator::LessEqual => "LessEqual",
        Operator::Greater => "Greater",
        Operator::GreaterEqual => "GreaterEqual",
    }
}

/// The name of a kind of record.
pub open spec fn record_text(kind: RecordKind) -> Seq<char> {
    match kind {
        RecordKind::Track => "Track"@,
        RecordKind::Playlist => "Playlist"@,
        RecordKind::Album => "Album"@,
    }
}

fn record_name(kind: RecordKind) -> (r: &'static str)
    ensures
        r@ == record_text(kind),
{
    match kind {
        RecordKind::Track => "Track",
        RecordKind::Playlist => "Playlist",
        RecordKind::Album => "Album",
    }
}

/// A data source as text.
pub open spec fn source_text(source: DataSourceView) -> Seq<char> {
    match source {
        DataSourceView::Playlist(name) => "Playlist("@ + name + ")"@,
        DataSourceView::Playlists => "Playlists"@,
        DataSourceView::SavedAlbum(name) => "SavedAlbum("@ + name + ")"@,
        DataSourceView::SavedAlbums => "SavedAlbums"@,
    }
}

/// The first `n` of the names `names` with `, ` between each two.
pub open spec fn names_text(names: Seq<Seq<char>>, n: nat) -> Seq<char>
    decreases n,
{
    if n == 0 || n > names.len() {
        seq![]
    } else if n == 1 {
        names[0]
    } else {
        names_text(names, (n - 1) as nat) + ", "@ + names[n - 1]
    }
}

/// A token as text.
pub open spec fn token_text(token: TokenView) -> Seq<char> {
    match token {
        TokenView::SELECT => "SELECT"@,
        TokenView::FROM => "FROM"@,
        TokenView::WHERE => "WHERE"@,
        TokenView::Wildcard => "*"@,
        TokenView::COUNT(names) => "COUNT("@ + names_text(names, names.len()) + ")"@,
        TokenView::AVERAGE(names) => "AVERAGE("@ + names_text(names, names.len()) + ")"@,
        TokenView::Attribute(name) => "Attribute("@ + name + ")"@,
        TokenView::Operator(op) => "Operator("@ + operator_text(op) + ")"@,
        TokenView::Logical(Logical::And) => "Logical(And)"@,
        TokenView::Logical(Logical::Or) => "Logical(Or)"@,
        TokenView::Source(source) => "Source("@ + source_text(source) + ")"@,
        TokenView::Value(value) => "Value("@ + value_text(value) + ")"@,
    }
}

fn put(out: &mut Vec<char>, text: &str)
    ensures
        final(out)@ == old(out)@ + text@,
{
    let chars = chars_of(text);
    append_chars(out, chars.as_slice());
}

fn put_names(out: &mut Vec<char>, names: &Vec<String>)
    ensures
        final(out)@ == old(out)@ + names_text(texts_of(names@), names@.len()),
{
    let ghost all = texts_of(names@);
    let mut i: usize = 0;
    assert(out@ =~= old(out)@ + names_text(all, 0));
    while i < names.len()
        invariant
            i <= names.len(),
            all == texts_of(names@),
            out@ == old(out)@ + names_text(all, i as nat),
        decreases names.len() - i,
    {
        let ghost before = out@;
        if i > 0 {
            put(out, ", ");
        }
        put(out, names[i].as_str());
        proof {
            assert(all[i as int] == names@[i as int]@);
            if i > 0 {
                assert(out@ =~= old(out)@ + (names_text(all, i as nat) + ", "@ + all[i as int]));
            } else {
                assert(out@ =~= old(out)@ + all[0]);
            }
        }
        i += 1;
    }
}

fn put_source(out: &mut Vec<char>, source: &DataSource)
    ensures
        final(out)@ == old(out)@ + source_text(source@),
{
    match source {
        DataSource::Playlist(name) => {
            put(out, "Playlist(");
            put(out, name.as_str());
            put(out, ")");
            assert(out@ =~= old(out)@ + source_text(source@));
        },
        DataSource::Playlists => put(out, "Playlists"),
        DataSource::SavedAlbum(name) => {
            put(out, "SavedAlbum(");
            put(out, name.as_str());
            put(out, ")");
            assert(out@ =~= old(out)@ + source_text(source@));
        },
        DataSource::SavedAlbums => put(out, "SavedAlbums"),
    }
}

fn put_token(out: &mut Vec<char>, token: &Token)
    ensures
        final(out)@ == old(out)@ + token_text(token@),
{
    match token {
        Token::SELECT => put(out, "SELECT"),
        Token::FROM => put(out, "FROM"),
        Token::WHERE => put(out, "WHERE"),
        Token::Wildcard => put(out, "*"),
        Token::COUNT(names) => {
            put(out, "COUNT(");
            put_names(out, names);
            put(out, ")");
            assert(out@ =~= old(out)@ + token_text(token@));
        },
        Token::AVERAGE(names) => {
            put(out, "AVERAGE(");
            put_names(out, names);
            put(out, ")");
            assert(out@ =~= old(out)@ + token_text(token@));
        },
        Token::Attribute(name) => {
            put(out, "Attribute(");
            put(out, name.as_str());
            put(out, ")");
            assert(out@ =~= old(out)@ + token_text(token@));
        },
        Token::Operator(op) => {
            put(out, "Operator(");
            put(out, operator_name(*op));
            put(out, ")");
            assert(out@ =~= old(out)@ + token_text(token@));
        },
        Token::Logical(Logical::And) => put(out, "Logical(And)"),
        Token::Logical(Logical::Or) => put(out, "Logical(Or)"),
        Token::Source(source) => {
            put(out, "Source(");
            put_source(out, source);
            put(out, ")");
            assert(out@ =~= old(out)@ + token_text(token@));
        },
        Token::Value(value) => {
            put(out, "Value(");
            let text = value.to_text();
            append_chars(out, text.as_slice());
            put(out, ")");
            assert(out@ =~= old(out)@ + token_text(token@));
        },
    }
}

impl Token {
    /// The token as text.
    pub fn to_text(&self) -> (r: String)
        ensures
            r@ == token_text(self@),
    {
        let mut out: Vec<char> = Vec::new();
        put_token(&mut out, self);
        assert(out@ =~= token_text(self@));
        string_of(out.as_slice())
    }
}

/// What stands in front of the offending token in the message of a syntax
/// error.
pub open spec fn expected_text(expected: Expected) -> Seq<char> {
    match expected {
        Expected::Select => "SYNTAX ERROR: Invalid token at "@,
        Expected::Target => "SYNTAX ERROR: Invalid token at "@,
        Expected::From => "SYNTAX ERROR: FROM should stand at "@,
        Expected::Source => "SYNTAX ERROR: A data source, e.g. Playlist(\"name\"), should stand at "@,
        Expected::Operand => "SYNTAX ERROR: Condition is missing attribute at "@,
        Expected::Operator => "SYNTAX ERROR: Condition is missing operator at "@,
        Expected::In => "SYNTAX ERROR: NOT must be followed by IN at "@,
        Expected::Literal => "SYNTAX ERROR: Condition is missing value at "@,
        Expected::Attribute => "SYNTAX ERROR: Condition is missing attribute at "@,
        Expected::Connective => "SYNTAX ERROR: Only a logical operator (AND, OR) can come after a condition, error at "@,
    }
}

fn expected_words(expected: Expected) -> (r: &'static str)
    ensures
        r@ == expected_text(expected),
{
    match expected {
        Expected::Select => "SYNTAX ERROR: Invalid token at ",
        Expected::Target => "SYNTAX ERROR: Invalid token at ",
        Expected::From => "SYNTAX ERROR: FROM should stand at ",
        Expected::Source => "SYNTAX ERROR: A data source, e.g. Playlist(\"name\"), should stand at ",
        Expected::Operand => "SYNTAX ERROR: Condition is missing attribute at ",
        Expected::Operator => "SYNTAX ERROR: Condition is missing operator at ",
        Expected::In => "SYNTAX ERROR: NOT must be followed by IN at ",
        Expected::Literal => "SYNTAX ERROR: Condition is missing value at ",
        Expected::Attribute => "SYNTAX ERROR: Condition is missing attribute at ",
        Expected::Connective => "SYNTAX ERROR: Only a logical operator (AND, OR) can come after a condition, error at ",
    }
}

/// The message of an error.
pub open spec fn message_text(error: QueryErrorView) -> Seq<char> {
    match error {
        QueryErrorView::Unterminated => "Input must be terminated with ';'."@,
        QueryErrorView::UnknownToken(group) => "Found unknown token in input: "@ + group,
        QueryErrorView::NumberOutOfRange(number) => "Number out of range: "@ + number,
        QueryErrorView::TooFewTokens => "Must have a minimum of 4 tokens. e.g. 'SELECT name FROM Playlist(\"pl1\")"@,
        QueryErrorView::UnexpectedToken { expected, found } => expected_text(expected)
            + token_text(found),
        QueryErrorView::MixedAggregation(token) => "SYNTAX ERROR: Cannot mix aggregated attributes and non-aggregated attributes at "@
            + token_text(token),
        QueryErrorView::MixedWildcard => "SYNTAX ERROR: Cannot mix * and attributes"@,
        QueryErrorView::NoTargets => "SYNTAX ERROR: No attributes defined after SELECT"@,
        QueryErrorView::IncompleteStatement => "SYNTAX ERROR: Incomplete statement"@,
        QueryErrorView::IncompleteCondition => "SYNTAX ERROR: Conditions should consist of an attribute, an operator and a value"@,
        QueryErrorView::UnknownAttribute { record, name } => "ATTRIBUTE ERROR: "@ + record_text(
            record,
        ) + " has no attribute "@ + name,
        QueryErrorView::LikeNeedsStrings => "TYPE ERROR: LIKE takes two strings"@,
        QueryErrorView::NotNumeric(op) => "TYPE ERROR: numbers are needed for "@ + operator_text(
            op,
        ),
        QueryErrorView::NeedsOneList(op) => "TYPE ERROR: exactly one list is needed for "@
            + operator_text(op),
        QueryErrorView::ListMismatch(op) => "TYPE ERROR: the list and the value are of different types for "@
            + operator_text(op),
        QueryErrorView::AverageNotNumeric(name) => "TYPE ERROR: cannot average "@ + name,
        QueryErrorView::NotFetched(source) => source_text(source) + " data not fetched"@,
        QueryErrorView::NotFound(source) => source_text(source) + " not found"@,
        QueryErrorView::NoRows => "No rows to average"@,
    }
}

impl QueryError {
    /// The message of the error.
    pub fn message(&self) -> (r: String)
        ensures
            r@ == message_text(self@),
    {
        let mut out: Vec<char> = Vec::new();
        match self {
            QueryError::Unterminated => put(&mut out, "Input must be terminated with ';'."),
            QueryError::UnknownToken(group) => {
                put(&mut out, "Found unknown token in input: ");
                put(&mut out, group.as_str());
            },
            QueryError::NumberOutOfRange(number) => {
                put(&mut out, "Number out of range: ");
                put(&mut out, number.as_str());
            },
            QueryError::TooFewTokens => put(
                &mut out,
                "Must have a minimum of 4 tokens. e.g. 'SELECT name FROM Playlist(\"pl1\")",
            ),
            QueryError::UnexpectedToken { expected, found } => {
                put(&mut out, expected_words(*expected));
                put_token(&mut out, found);
            },
            QueryError::MixedAggregation(token) => {
                put(
                    &mut out,
                    "SYNTAX ERROR: Cannot mix aggregated attributes and non-aggregated attributes at ",
                );
                put_token(&mut out, token);
            },
            QueryError::MixedWildcard => put(&mut out, "SYNTAX ERROR: Cannot mix * and attributes"),
            QueryError::NoTargets => put(
                &mut out,
                "SYNTAX ERROR: No attributes defined after SELECT",
            ),
            QueryError::IncompleteStatement => put(&mut out, "SYNTAX ERROR: Incomplete statement"),
            QueryError::IncompleteCondition => put(
                &mut out,
                "SYNTAX ERROR: Conditions should consist of an attribute, an operator and a value",
            ),
            QueryError::UnknownAttribute { record, name } => {
                put(&mut out, "ATTRIBUTE ERROR: ");
                put(&mut out, record_name(*record));
                put(&mut out, " has no attribute ");
                put(&mut out, name.as_str());
            },
            QueryError::LikeNeedsStrings => put(&mut out, "TYPE ERROR: LIKE takes two strings"),
            QueryError::NotNumeric(op) => {
                put(&mut out, "TYPE ERROR: numbers are needed for ");
                put(&mut out, operator_name(*op));
            },
            QueryError::NeedsOneList(op) => {
                put(&mut out, "TYPE ERROR: exactly one list is needed for ");
                put(&mut out, operator_name(*op));
            },
            QueryError::ListMismatch(op) => {
                put(&mut out, "TYPE ERROR: the list and the value are of different types for ");
                put(&mut out, operator_name(*op));
            },
            QueryError::AverageNotNumeric(name) => {
                put(&mut out, "TYPE ERROR: cannot average ");
                put(&mut out, name.as_str());
            },
            QueryError::NotFetched(source) => {
                put_source(&mut out, source);
                put(&mut out, " data not fetched");
            },
            QueryError::NotFound(source) => {
                put_source(&mut out, source);
                put(&mut out, " not found");
            },
            QueryError::NoRows => put(&mut out, "No rows to average"),
        }
        assert(out@ =~= message_text(self@));
        string_of(out.as_slice())
    }
}

} // verus!
