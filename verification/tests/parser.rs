use spotifyql::query::condition::Condition;
use spotifyql::query::error::{ErrorKind, Expected, QueryError};
use spotifyql::query::parse::parse;
use spotifyql::query::statements::{Aggregation, SelectStatement};
use spotifyql::query::token::{DataSource, Logical, Token};
use spotifyql::query::tokenise::tokenise;
use spotifyql::query::value::{Operator, Value};

fn statement(text: &str) -> Result<SelectStatement, QueryError> {
    parse(tokenise(text.to_string()).unwrap())
}

fn attr(name: &str) -> Token {
    Token::Attribute(name.to_string())
}

fn s(text: &str) -> Value {
    Value::Str(text.to_string())
}

fn unexpected(expected: Expected, found: Token) -> QueryError {
    QueryError::UnexpectedToken { expected, found }
}

#[test]
fn plain_select() {
    let st = statement("SELECT id, name FROM PLAYLISTS;").unwrap();
    assert_eq!(
        st,
        SelectStatement {
            aggregation: Aggregation::Plain,
            targets: vec!["id".to_string(), "name".to_string()],
            source: DataSource::Playlists,
            conditions: None,
        }
    );
}

#[test]
fn aggregated_select() {
    let st = statement("SELECT AVERAGE(popularity, duration) FROM ALBUM(\"x\");").unwrap();
    assert_eq!(st.aggregation, Aggregation::Average);
    assert_eq!(st.targets, vec!["popularity".to_string(), "duration".to_string()]);
    assert_eq!(st.source, DataSource::SavedAlbum("x".to_string()));
    let st = statement("SELECT COUNT(id) FROM ALBUMS;").unwrap();
    assert_eq!(st.aggregation, Aggregation::Count);
}

#[test]
fn conditions_grow_to_the_right() {
    let st = statement(
        "SELECT id FROM PLAYLISTS WHERE name == \"a\" OR 5 < popularity AND id NOT IN [\"x\"];",
    )
    .unwrap();
    let mut expected = Condition::new("name".to_string(), Operator::Equals, s("a"));
    // which side the attribute stood on is not kept
    expected.add_next_condition(
        Logical::Or,
        Condition::new("popularity".to_string(), Operator::Less, Value::Int(5)),
    );
    expected.add_next_condition(
        Logical::And,
        Condition::new("id".to_string(), Operator::NotIn, Value::List(vec![s("x")])),
    );
    assert_eq!(st.conditions, Some(expected));
    let chain = st.conditions.unwrap();
    assert_eq!(chain.attribute, "name");
    let (first, second) = chain.next.unwrap();
    assert_eq!(first, Logical::Or);
    assert_eq!(second.attribute, "popularity");
    let (joint, third) = second.next.unwrap();
    assert_eq!(joint, Logical::And);
    assert_eq!(third.next, None);
}

#[test]
fn what_follows_the_source_and_is_not_where_is_not_read() {
    let st = statement("SELECT id FROM PLAYLISTS name == 1;").unwrap();
    assert_eq!(st.conditions, None);
}

#[test]
fn too_few_tokens() {
    assert_eq!(statement("SELECT id FROM;"), Err(QueryError::TooFewTokens));
    assert_eq!(parse(vec![]), Err(QueryError::TooFewTokens));
    assert_eq!(statement("SELECT id FROM;").unwrap_err().kind(), ErrorKind::Syntax);
}

#[test]
fn the_first_token_is_select() {
    assert_eq!(
        statement("FROM id FROM PLAYLISTS;"),
        Err(unexpected(Expected::Select, Token::FROM))
    );
}

#[test]
fn targets() {
    assert_eq!(
        statement("SELECT id == FROM PLAYLISTS;"),
        Err(unexpected(Expected::Target, Token::Operator(Operator::Equals)))
    );
    assert_eq!(statement("SELECT FROM PLAYLISTS x;"), Err(QueryError::NoTargets));
    assert_eq!(
        statement("SELECT id, AVERAGE(x) FROM PLAYLISTS;"),
        Err(QueryError::MixedAggregation(Token::AVERAGE(vec!["x".to_string()])))
    );
    assert_eq!(statement("SELECT id * FROM PLAYLISTS;"), Err(QueryError::MixedWildcard));
    assert_eq!(
        parse(vec![Token::SELECT, Token::COUNT(vec![]), Token::FROM, Token::Source(DataSource::Playlists)]),
        Err(QueryError::NoTargets)
    );
}

#[test]
fn from_and_source() {
    assert_eq!(
        statement("SELECT COUNT(id) PLAYLISTS x y;"),
        Err(unexpected(Expected::From, Token::Source(DataSource::Playlists)))
    );
    assert_eq!(statement("SELECT a b c;"), Err(QueryError::IncompleteStatement));
    assert_eq!(statement("SELECT a b FROM;"), Err(QueryError::IncompleteStatement));
    assert_eq!(
        statement("SELECT a FROM b c;"),
        Err(unexpected(Expected::Source, attr("b")))
    );
    assert_eq!(statement("SELECT a b c;").unwrap_err().kind(), ErrorKind::Syntax);
}

#[test]
fn broken_conditions() {
    let head = "SELECT a FROM PLAYLISTS WHERE ";
    let run = |tail: &str| statement(&format!("{}{};", head, tail));
    assert_eq!(
        parse(vec![
            Token::SELECT,
            attr("a"),
            Token::FROM,
            Token::Source(DataSource::Playlists),
            Token::WHERE,
        ]),
        Err(QueryError::IncompleteCondition)
    );
    assert_eq!(run("a"), Err(QueryError::IncompleteCondition));
    assert_eq!(run("a =="), Err(QueryError::IncompleteCondition));
    assert_eq!(run("a NOT"), Err(QueryError::IncompleteCondition));
    assert_eq!(run("a NOT IN"), Err(QueryError::IncompleteCondition));
    assert_eq!(run("a == 1 AND"), Err(QueryError::IncompleteCondition));
    assert_eq!(run("== a 1"), Err(unexpected(Expected::Operand, Token::Operator(Operator::Equals))));
    assert_eq!(run("a b 1"), Err(unexpected(Expected::Operator, attr("b"))));
    assert_eq!(run("a == b"), Err(unexpected(Expected::Literal, attr("b"))));
    assert_eq!(run("1 == 2"), Err(unexpected(Expected::Attribute, Token::Value(Value::Int(2)))));
    assert_eq!(run("a NOT 1"), Err(unexpected(Expected::In, Token::Value(Value::Int(1)))));
    assert_eq!(run("a == 1 b == 2"), Err(unexpected(Expected::Connective, attr("b"))));
    assert_eq!(run("a == 1 b == 2").unwrap_err().kind(), ErrorKind::Syntax);
}

#[test]
fn not_in_is_one_operator() {
    let st = statement("SELECT a FROM PLAYLISTS WHERE [1, 2] NOT IN b;").unwrap();
    let chain = st.conditions.unwrap();
    assert_eq!(chain.attribute, "b");
    assert_eq!(chain.operation, Operator::NotIn);
    assert_eq!(chain.value, Value::List(vec![Value::Int(1), Value::Int(2)]));
    let st = statement("SELECT a FROM PLAYLISTS WHERE b IN [1];").unwrap();
    assert_eq!(st.conditions.unwrap().operation, Operator::In);
}

#[test]
fn messages_name_the_token() {
    let err = statement("SELECT a FROM b c;").unwrap_err();
    assert_eq!(
        err.message(),
        "SYNTAX ERROR: A data source, e.g. Playlist(\"name\"), should stand at Attribute(b)"
    );
    let err = statement("SELECT id, COUNT(x, y) FROM PLAYLISTS;").unwrap_err();
    assert_eq!(
        err.message(),
        "SYNTAX ERROR: Cannot mix aggregated attributes and non-aggregated attributes at COUNT(x, y)"
    );
    assert_eq!(Token::Value(Value::List(vec![Value::Int(1), s("a")])).to_text(), "Value([1, a])");
    assert_eq!(Token::Source(DataSource::Playlist("x".to_string())).to_text(), "Source(Playlist(x))");
    assert_eq!(Token::Operator(Operator::GreaterEqual).to_text(), "Operator(GreaterEqual)");
    assert_eq!(Token::Logical(Logical::Or).to_text(), "Logical(Or)");
    assert_eq!(Token::Wildcard.to_text(), "*");
    assert_eq!(QueryError::Unterminated.message(), "Input must be terminated with ';'.");
    assert_eq!(
        QueryError::NotFetched(DataSource::SavedAlbums).message(),
        "SavedAlbums data not fetched"
    );
}

#[test]
fn every_error_has_its_message() {
    let name = |text: &str| text.to_string();
    let found = attr("x");
    let at = |expected| QueryError::UnexpectedToken { expected, found: attr("x") };
    let cases: Vec<(QueryError, &str)> = vec![
        (QueryError::UnknownToken(name("a-b")), "Found unknown token in input: a-b"),
        (QueryError::NumberOutOfRange(name("99")), "Number out of range: 99"),
        (
            QueryError::TooFewTokens,
            "Must have a minimum of 4 tokens. e.g. 'SELECT name FROM Playlist(\"pl1\")",
        ),
        (at(Expected::Select), "SYNTAX ERROR: Invalid token at Attribute(x)"),
        (at(Expected::Target), "SYNTAX ERROR: Invalid token at Attribute(x)"),
        (at(Expected::From), "SYNTAX ERROR: FROM should stand at Attribute(x)"),
        (at(Expected::Operand), "SYNTAX ERROR: Condition is missing attribute at Attribute(x)"),
        (at(Expected::Operator), "SYNTAX ERROR: Condition is missing operator at Attribute(x)"),
        (at(Expected::In), "SYNTAX ERROR: NOT must be followed by IN at Attribute(x)"),
        (at(Expected::Literal), "SYNTAX ERROR: Condition is missing value at Attribute(x)"),
        (at(Expected::Attribute), "SYNTAX ERROR: Condition is missing attribute at Attribute(x)"),
        (
            at(Expected::Connective),
            "SYNTAX ERROR: Only a logical operator (AND, OR) can come after a condition, error at Attribute(x)",
        ),
        (QueryError::MixedWildcard, "SYNTAX ERROR: Cannot mix * and attributes"),
        (QueryError::NoTargets, "SYNTAX ERROR: No attributes defined after SELECT"),
        (QueryError::IncompleteStatement, "SYNTAX ERROR: Incomplete statement"),
        (
            QueryError::IncompleteCondition,
            "SYNTAX ERROR: Conditions should consist of an attribute, an operator and a value",
        ),
        (QueryError::LikeNeedsStrings, "TYPE ERROR: LIKE takes two strings"),
        (QueryError::NotNumeric(Operator::Less), "TYPE ERROR: numbers are needed for Less"),
        (
            QueryError::NeedsOneList(Operator::NotIn),
            "TYPE ERROR: exactly one list is needed for NotIn",
        ),
        (
            QueryError::ListMismatch(Operator::In),
            "TYPE ERROR: the list and the value are of different types for In",
        ),
        (QueryError::AverageNotNumeric(name("n")), "TYPE ERROR: cannot average n"),
        (
            QueryError::NotFetched(DataSource::Playlist(name("x"))),
            "Playlist(x) data not fetched",
        ),
        (QueryError::NotFound(DataSource::SavedAlbum(name("x"))), "SavedAlbum(x) not found"),
        (QueryError::NotFound(DataSource::Playlists), "Playlists not found"),
        (QueryError::NoRows, "No rows to average"),
    ];
    for (error, message) in cases {
        assert_eq!(error.message(), message);
        assert_eq!(error.clone(), error);
    }
    assert_eq!(found.to_text(), "Attribute(x)");
    let texts: Vec<(Token, &str)> = vec![
        (Token::SELECT, "SELECT"),
        (Token::FROM, "FROM"),
        (Token::WHERE, "WHERE"),
        (Token::COUNT(vec![name("a")]), "COUNT(a)"),
        (Token::AVERAGE(vec![name("a"), name("b"), name("c")]), "AVERAGE(a, b, c)"),
        (Token::COUNT(vec![]), "COUNT()"),
        (Token::Logical(Logical::And), "Logical(And)"),
        (Token::Source(DataSource::SavedAlbums), "Source(SavedAlbums)"),
        (Token::Value(Value::Bool(true)), "Value(true)"),
    ];
    for (token, text) in texts {
        assert_eq!(token.to_text(), text);
        assert_eq!(token.clone(), token);
    }
    for (op, text) in [
        (Operator::Equals, "Equals"),
        (Operator::NotEquals, "NotEquals"),
        (Operator::Like, "Like"),
        (Operator::In, "In"),
        (Operator::NotIn, "NotIn"),
        (Operator::Less, "Less"),
        (Operator::LessEqual, "LessEqual"),
        (Operator::Greater, "Greater"),
        (Operator::GreaterEqual, "GreaterEqual"),
    ] {
        assert_eq!(Token::Operator(op).to_text(), format!("Operator({})", text));
    }
}
