//! What can go wrong with a statement, from its text to its result.

use vstd::prelude::*;
use crate::query::token::{DataSource, DataSourceView, RecordKind, Token, TokenView};
use crate::query::value::Operator;

verus! {

/// The class of an error.
#[derive(Clone, Copy, Debug, PartialEq, Eq, Structural)]
pub enum ErrorKind {
    /// The text is no sequence of tokens.
    Lex,
    /// The tokens are no statement.
    Syntax,
    /// A record has no attribute of the name asked for.
    Attribute,
    /// An operator met a value that it does not take.
    Type,
    /// The collection asked for is not there.
    Source,
    /// There is nothing to aggregate.
    Aggregation,
}

/// What the parser wanted where it found something else.
#[derive(Clone, Copy, Debug, PartialEq, Eq, Structural)]
pub enum Expected {
    /// `SELECT` at the start.
    Select,
    /// An attribute, an aggregation, `*` or `FROM` after `SELECT`.
    Target,
    /// `FROM` after the targets.
    From,
    /// A data source after `FROM`.
    Source,
    /// An attribute or a literal at the start of a condition.
    Operand,
    /// An operator in the middle of a condition.
    Operator,
    /// `IN` after `NOT`.
    In,
    /// A literal at the end of a condition that began with an attribute.
    Literal,
    /// An attribute at the end of a condition that began with a literal.
    Attribute,
    /// `AND` or `OR` after a condition.
    Connective,
}

/// An error of the query engine. The first error ends the work on the
/// statement and reaches the caller as it is.
#[derive(Debug, PartialEq)]
pub enum QueryError {
    /// The text has no `;`.
    Unterminated,
    /// A lexical group that is no token; it holds the group as written.
    UnknownToken(String),
    /// A number that is written correctly and cannot be held; it holds the
    /// number as written.
    NumberOutOfRange(String),
    /// Fewer than four tokens.
    TooFewTokens,
    /// A token where the grammar wants another.
    UnexpectedToken { expected: Expected, found: Token },
    /// An aggregation after plain attributes.
    MixedAggregation(Token),
    /// `*` after plain attributes.
    MixedWildcard,
    /// Nothing is selected.
    NoTargets,
    /// The tokens end before the data source.
    IncompleteStatement,
    /// The tokens end inside a condition.
    IncompleteCondition,
    /// The record kind has no attribute of that name.
    UnknownAttribute { record: RecordKind, name: String },
    /// `LIKE` with an operand that is no string.
    LikeNeedsStrings,
    /// An ordering operator with an operand that is no number.
    NotNumeric(Operator),
    /// `IN` or `NOT IN` where not exactly one operand is a list.
    NeedsOneList(Operator),
    /// `IN` or `NOT IN` where an item of the list is of another variant
    /// than the probe.
    ListMismatch(Operator),
    /// `AVERAGE` of an attribute with a value that is no number; it holds
    /// the attribute's name.
    AverageNotNumeric(String),
    /// The collection has not been loaded.
    NotFetched(DataSource),
    /// No playlist or saved album of that name is among the loaded rows.
    NotFound(DataSource),
    /// `AVERAGE` over no rows.
    NoRows,
}

pub enum QueryErrorView {
    Unterminated,
    UnknownToken(Seq<char>),
    NumberOutOfRange(Seq<char>),
    TooFewTokens,
    UnexpectedToken { expected: Expected, found: TokenView },
    MixedAggregation(TokenView),
    MixedWildcard,
    NoTargets,
    IncompleteStatement,
    IncompleteCondition,
    UnknownAttribute { record: RecordKind, name: Seq<char> },
    LikeNeedsStrings,
    NotNumeric(Operator),
    NeedsOneList(Operator),
    ListMismatch(Operator),
    AverageNotNumeric(Seq<char>),
    NotFetched(DataSourceView),
    NotFound(DataSourceView),
    NoRows,
}

impl View for QueryError {
    type V = QueryErrorView;

    open spec fn view(&self) -> QueryErrorView {
        match self {
            QueryError::Unterminated => QueryErrorView::Unterminated,
            QueryError::UnknownToken(group) => QueryErrorView::UnknownToken(group@),
            QueryError::NumberOutOfRange(number) => QueryErrorView::NumberOutOfRange(number@),
            QueryError::TooFewTokens => QueryErrorView::TooFewTokens,
            QueryError::UnexpectedToken { expected, found } => QueryErrorView::UnexpectedToken {
                expected: *expected,
                found: found@,
            },
            QueryError::MixedAggregation(token) => QueryErrorView::MixedAggregation(token@),
            QueryError::MixedWildcard => QueryErrorView::MixedWildcard,
            QueryError::NoTargets => QueryErrorView::NoTargets,
            QueryError::IncompleteStatement => QueryErrorView::IncompleteStatement,
            QueryError::IncompleteCondition => QueryErrorView::IncompleteCondition,
            QueryError::UnknownAttribute { record, name } => QueryErrorView::UnknownAttribute {
                record: *record,
                name: name@,
            },
            QueryError::LikeNeedsStrings => QueryErrorView::LikeNeedsStrings,
            QueryError::NotNumeric(op) => QueryErrorView::NotNumeric(*op),
            QueryError::NeedsOneList(op) => QueryErrorView::NeedsOneList(*op),
            QueryError::ListMismatch(op) => QueryErrorView::ListMismatch(*op),
            QueryError::AverageNotNumeric(name) => QueryErrorView::AverageNotNumeric(name@),
            QueryError::NotFetched(source) => QueryErrorView::NotFetched(source@),
            QueryError::NotFound(source) => QueryErrorView::NotFound(source@),
            QueryError::NoRows => QueryErrorView::NoRows,
        }
    }
}

impl QueryErrorView {
    /// The class that the error belongs to.
    pub open spec fn kind(self) -> ErrorKind {
        match self {
            QueryErrorView::Unterminated => ErrorKind::Lex,
            QueryErrorView::UnknownToken(_) => ErrorKind::Lex,
            QueryErrorView::NumberOutOfRange(_) => ErrorKind::Lex,
            QueryErrorView::TooFewTokens => ErrorKind::Syntax,
            QueryErrorView::UnexpectedToken { .. } => ErrorKind::Syntax,
            QueryErrorView::MixedAggregation(_) => ErrorKind::Syntax,
            QueryErrorView::MixedWildcard => ErrorKind::Syntax,
            QueryErrorView::NoTargets => ErrorKind::Syntax,
            QueryErrorView::IncompleteStatement => ErrorKind::Syntax,
            QueryErrorView::IncompleteCondition => ErrorKind::Syntax,
            QueryErrorView::UnknownAttribute { .. } => ErrorKind::Attribute,
            QueryErrorView::LikeNeedsStrings => ErrorKind::Type,
            QueryErrorView::NotNumeric(_) => ErrorKind::Type,
            QueryErrorView::NeedsOneList(_) => ErrorKind::Type,
            QueryErrorView::ListMismatch(_) => ErrorKind::Type,
            QueryErrorView::AverageNotNumeric(_) => ErrorKind::Type,
            QueryErrorView::NotFetched(_) => ErrorKind::Source,
            QueryErrorView::NotFound(_) => ErrorKind::Source,
            QueryErrorView::NoRows => ErrorKind::Aggregation,
        }
    }
}

impl QueryError {
    pub fn kind(&self) -> (r: ErrorKind)
        ensures
            r == self@.kind(),
    {
        match self {
            QueryError::Unterminated => ErrorKind::Lex,
            QueryError::UnknownToken(_) => ErrorKind::Lex,
            QueryError::NumberOutOfRange(_) => ErrorKind::Lex,
            QueryError::TooFewTokens => ErrorKind::Syntax,
            QueryError::UnexpectedToken { .. } => ErrorKind::Syntax,
            QueryError::MixedAggregation(_) => ErrorKind::Syntax,
            QueryError::MixedWildcard => ErrorKind::Syntax,
            QueryError::NoTargets => ErrorKind::Syntax,
            QueryError::IncompleteStatement => ErrorKind::Syntax,
            QueryError::IncompleteCondition => ErrorKind::Syntax,
            QueryError::UnknownAttribute { .. } => ErrorKind::Attribute,
            QueryError::LikeNeedsStrings => ErrorKind::Type,
            QueryError::NotNumeric(_) => ErrorKind::Type,
            QueryError::NeedsOneList(_) => ErrorKind::Type,
            QueryError::ListMismatch(_) => ErrorKind::Type,
            QueryError::AverageNotNumeric(_) => ErrorKind::Type,
            QueryError::NotFetched(_) => ErrorKind::Source,
            QueryError::NotFound(_) => ErrorKind::Source,
            QueryError::NoRows => ErrorKind::Aggregation,
        }
    }
}

impl Clone for QueryError {
    fn clone(&self) -> (r: Self)
        ensures
            r@ == self@,
    {
        match self {
            QueryError::Unterminated => QueryError::Unterminated,
            QueryError::UnknownToken(group) => QueryError::UnknownToken(group.clone()),
            QueryError::NumberOutOfRange(number) => QueryError::NumberOutOfRange(number.clone()),
            QueryError::TooFewTokens => QueryError::TooFewTokens,
            QueryError::UnexpectedToken { expected, found } => QueryError::UnexpectedToken {
                expected: *expected,
                found: found.clone(),
            },
            QueryError::MixedAggregation(token) => QueryError::MixedAggregation(token.clone()),
            QueryError::MixedWildcard => QueryError::MixedWildcard,
            QueryError::NoTargets => QueryError::NoTargets,
            QueryError::IncompleteStatement => QueryError::IncompleteStatement,
            QueryError::IncompleteCondition => QueryError::IncompleteCondition,
            QueryError::UnknownAttribute { record, name } => QueryError::UnknownAttribute {
                record: *record,
                name: name.clone(),
            },
            QueryError::LikeNeedsStrings => QueryError::LikeNeedsStrings,
            QueryError::NotNumeric(op) => QueryError::NotNumeric(*op),
            QueryError::NeedsOneList(op) => QueryError::NeedsOneList(*op),
            QueryError::ListMismatch(op) => QueryError::ListMismatch(*op),
            QueryError::AverageNotNumeric(name) => QueryError::AverageNotNumeric(name.clone()),
            QueryError::NotFetched(source) => QueryError::NotFetched(source.clone()),
            QueryError::NotFound(source) => QueryError::NotFound(source.clone()),
            QueryError::NoRows => QueryError::NoRows,
        }
    }
}

} // verus!
