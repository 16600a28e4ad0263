use spotifyql::query::error::{ErrorKind, QueryError};
use spotifyql::query::literal::{read_decimal, read_integer, read_list, read_names};
use spotifyql::query::token::{DataSource, Logical, Token};
use spotifyql::query::tokenise::{split_groups, split_token, tokenise};
use spotifyql::query::value::{Decimal, Kind, Operator, Value};
use spotifyql::text::chars_of;

fn lex(text: &str) -> Result<Vec<Token>, QueryError> {
    tokenise(text.to_string())
}

fn one(text: &str) -> Token {
    let mut tokens = lex(text).unwrap();
    assert_eq!(tokens.len(), 1, "{:?}", tokens);
    tokens.remove(0)
}

fn s(text: &str) -> Value {
    Value::Str(text.to_string())
}

fn names(list: &[&str]) -> Vec<String> {
    list.iter().map(|n| n.to_string()).collect()
}

#[test]
fn keywords_in_any_case() {
    assert_eq!(
        lex("select From WHERE and Or in LIKE not == != < <= > >= *;").unwrap(),
        vec![
            Token::SELECT,
            Token::FROM,
            Token::WHERE,
            Token::Logical(Logical::And),
            Token::Logical(Logical::Or),
            Token::Operator(Operator::In),
            Token::Operator(Operator::Like),
            Token::Operator(Operator::NotIn),
            Token::Operator(Operator::Equals),
            Token::Operator(Operator::NotEquals),
            Token::Operator(Operator::Less),
            Token::Operator(Operator::LessEqual),
            Token::Operator(Operator::Greater),
            Token::Operator(Operator::GreaterEqual),
            Token::Wildcard,
        ]
    );
}

#[test]
fn a_whole_statement() {
    assert_eq!(
        lex("SELECT COUNT(name) FROM playlist(\"all\") WHERE artist == \"Arctic Monkeys\";")
            .unwrap(),
        vec![
            Token::SELECT,
            Token::COUNT(names(&["name"])),
            Token::FROM,
            Token::Source(DataSource::Playlist("all".to_string())),
            Token::WHERE,
            Token::Attribute("artist".to_string()),
            Token::Operator(Operator::Equals),
            Token::Value(s("Arctic Monkeys")),
        ]
    );
}

#[test]
fn aggregations_take_lists_of_names() {
    assert_eq!(one("COUNT(id, name);"), Token::COUNT(names(&["id", "name"])));
    assert_eq!(one("average( track_count );"), Token::AVERAGE(names(&["track_count"])));
    assert_eq!(lex("COUNT();"), Err(QueryError::UnknownToken("COUNT()".to_string())));
    assert_eq!(lex("COUNT;"), Err(QueryError::UnknownToken("COUNT".to_string())));
    assert_eq!(lex("COUNT(a b);"), Err(QueryError::UnknownToken("COUNT(a b)".to_string())));
    assert_eq!(read_names(&chars_of("a , b_2")), Some(names(&["a", "b_2"])));
    assert_eq!(read_names(&chars_of("a,,b")), None);
}

#[test]
fn sources() {
    assert_eq!(one("PLAYLISTS;"), Token::Source(DataSource::Playlists));
    assert_eq!(one("albums;"), Token::Source(DataSource::SavedAlbums));
    assert_eq!(
        one("PLAYLIST(\"Road Trip\");"),
        Token::Source(DataSource::Playlist("Road Trip".to_string()))
    );
    assert_eq!(one("PLAYLIST(All);"), Token::Source(DataSource::Playlist("All".to_string())));
    assert_eq!(
        one("Album( \"In Rainbows\" );"),
        Token::Source(DataSource::SavedAlbum("In Rainbows".to_string()))
    );
    assert_eq!(one("PLAYLIST;"), Token::Source(DataSource::Playlist(String::new())));
}

#[test]
fn scalar_literals() {
    assert_eq!(one("true;"), Token::Value(Value::Bool(true)));
    assert_eq!(one("false;"), Token::Value(Value::Bool(false)));
    assert_eq!(one("True;"), Token::Attribute("True".to_string()));
    assert_eq!(one("42;"), Token::Value(Value::Int(42)));
    assert_eq!(one("-7;"), Token::Value(Value::Int(-7)));
    assert_eq!(one("-0;"), Token::Value(Value::Int(0)));
    assert_eq!(one("9223372036854775807;"), Token::Value(Value::Int(i64::MAX)));
    assert_eq!(one("-9223372036854775808;"), Token::Value(Value::Int(i64::MIN)));
    assert_eq!(
        one("1.5;"),
        Token::Value(Value::Float(Decimal { units: 1_500_000_000_000_000_000 }))
    );
    assert_eq!(
        one("-0.25;"),
        Token::Value(Value::Float(Decimal { units: -250_000_000_000_000_000 }))
    );
    assert_eq!(one("\"a string\";"), Token::Value(s("a string")));
    assert_eq!(one("\"1,2\";"), Token::Value(s("1,2")));
    assert_eq!(one("\"\";"), Token::Value(s("")));
    assert_eq!(one("track_count;"), Token::Attribute("track_count".to_string()));
    assert_eq!(one("12ab;"), Token::Attribute("12ab".to_string()));
}

#[test]
fn numbers_that_cannot_be_held() {
    assert_eq!(
        lex("9223372036854775808;"),
        Err(QueryError::NumberOutOfRange("9223372036854775808".to_string()))
    );
    assert_eq!(
        lex("-9223372036854775809;"),
        Err(QueryError::NumberOutOfRange("-9223372036854775809".to_string()))
    );
    assert_eq!(
        lex("170141183460469231732.0;"),
        Err(QueryError::NumberOutOfRange("170141183460469231732.0".to_string()))
    );
    assert_eq!(
        lex("[1, 99999999999999999999];"),
        Err(QueryError::NumberOutOfRange("[1, 99999999999999999999]".to_string()))
    );
    assert_eq!(lex("9223372036854775808;").unwrap_err().kind(), ErrorKind::Lex);
}

#[test]
fn reading_numbers() {
    assert_eq!(read_integer(&chars_of("12")), Some(Some(12)));
    assert_eq!(read_integer(&chars_of("-")), None);
    assert_eq!(read_integer(&chars_of("")), None);
    assert_eq!(read_integer(&chars_of("1.0")), None);
    assert_eq!(read_integer(&chars_of("+1")), None);
    assert_eq!(read_integer(&chars_of("99999999999999999999")), Some(None));
    assert_eq!(read_decimal(&chars_of("1")), None);
    assert_eq!(read_decimal(&chars_of(".5")), None);
    assert_eq!(read_decimal(&chars_of("5.")), None);
    assert_eq!(read_decimal(&chars_of("1.2.3")), None);
    assert_eq!(
        read_decimal(&chars_of("0.000000000000000001")),
        Some(Some(Decimal { units: 1 }))
    );
    // behind the eighteenth place digits are dropped
    assert_eq!(
        read_decimal(&chars_of("0.0000000000000000019")),
        Some(Some(Decimal { units: 1 }))
    );
    assert_eq!(
        read_decimal(&chars_of("170141183460469231731.687303715884105727")),
        Some(Some(Decimal { units: i128::MAX }))
    );
    assert_eq!(
        read_decimal(&chars_of("170141183460469231731.687303715884105728")),
        Some(None)
    );
}

#[test]
fn list_literals_are_of_one_variant() {
    let cases: Vec<(&str, Kind, usize)> = vec![
        ("[\"a\",\"b\"];", Kind::Str, 2),
        ("[ \"a, b\" , \"c\" ];", Kind::Str, 2),
        ("[1, -2, 3];", Kind::Int, 3),
        ("[7];", Kind::Int, 1),
        ("[1.5, -2.25];", Kind::Float, 2),
    ];
    for (text, kind, count) in cases {
        match one(text) {
            Token::Value(Value::List(items)) => {
                assert_eq!(items.len(), count, "{}", text);
                assert!(items.iter().all(|v| v.kind() == kind), "{}", text);
            }
            other => panic!("{} gave {:?}", text, other),
        }
    }
    assert_eq!(one("[\"a, b\",\"c\"];"), Token::Value(Value::List(vec![s("a, b"), s("c")])));
    assert_eq!(
        one("[1, -2, 3];"),
        Token::Value(Value::List(vec![Value::Int(1), Value::Int(-2), Value::Int(3)]))
    );
    assert_eq!(
        read_list(&chars_of(" 0.5 ,2.0")),
        Some(Some(vec![
            Value::Float(Decimal { units: 500_000_000_000_000_000 }),
            Value::Float(Decimal { units: 2_000_000_000_000_000_000 }),
        ]))
    );
}

#[test]
fn what_is_no_list() {
    for text in ["[];", "[1, 2.5];", "[1, \"a\"];", "[abc];", "[true];", "[1,];", "[\"a\" \"b\"];"] {
        let group = &text[..text.len() - 1];
        assert_eq!(lex(text), Err(QueryError::UnknownToken(group.to_string())), "{}", text);
    }
}

#[test]
fn unknown_groups() {
    assert_eq!(lex("SELECT  id;"), Err(QueryError::UnknownToken(String::new())));
    assert_eq!(lex("id ;"), Err(QueryError::UnknownToken(String::new())));
    assert_eq!(lex("-;"), Err(QueryError::UnknownToken("-".to_string())));
    assert_eq!(lex("(abc);"), Err(QueryError::UnknownToken("(abc)".to_string())));
    assert_eq!(lex("a-b;"), Err(QueryError::UnknownToken("a-b".to_string())));
    assert_eq!(lex("=;"), Err(QueryError::UnknownToken("=".to_string())));
    assert_eq!(lex("=;").unwrap_err().kind(), ErrorKind::Lex);
}

#[test]
fn a_statement_ends_with_a_semicolon() {
    assert_eq!(lex("SELECT id FROM PLAYLISTS"), Err(QueryError::Unterminated));
    assert_eq!(lex(""), Err(QueryError::Unterminated));
    assert_eq!(lex("SELECT id FROM PLAYLISTS").unwrap_err().kind(), ErrorKind::Lex);
    // what follows the first semicolon is not read
    assert_eq!(lex("id; this is not read"), Ok(vec![Token::Attribute("id".to_string())]));
    // a semicolon ends the scan inside a group too
    assert_eq!(lex("\"a;b\""), Ok(vec![Token::Value(s("a"))]));
}

#[test]
fn the_splitting_pass() {
    let groups = split_groups(&chars_of("a, b  (c d, e) \"x y\"z [1, 2];rest")).unwrap();
    let texts: Vec<String> = groups.iter().map(|g| g.iter().collect()).collect();
    assert_eq!(texts, vec!["a", "b", "", "(c d, e)", "\"x y\"z", "[1, 2]"]);
    // the comma that stands outside a group is dropped without parting anything
    let groups = split_groups(&chars_of("id,name;")).unwrap();
    let texts: Vec<String> = groups.iter().map(|g| g.iter().collect()).collect();
    assert_eq!(texts, vec!["idname"]);
    // groups do not nest
    let groups = split_groups(&chars_of("(a \"b) c\";")).unwrap();
    let texts: Vec<String> = groups.iter().map(|g| g.iter().collect()).collect();
    assert_eq!(texts, vec!["(a \"b)", "c\""]);
    let groups = split_groups(&chars_of("a\tb\nc;")).unwrap();
    assert_eq!(groups.len(), 3);
}

#[test]
fn the_parts_of_a_group() {
    let raw = split_token(&chars_of("PLAYLIST(\"Road Trip\")tail"));
    assert_eq!(raw.identifier.iter().collect::<String>(), "PLAYLIST");
    assert_eq!(raw.content.map(|c| c.iter().collect::<String>()), Some("\"Road Trip\"".to_string()));
    assert_eq!(raw.opener, Some('('));
    let raw = split_token(&chars_of("name"));
    assert_eq!(raw.identifier.iter().collect::<String>(), "name");
    assert_eq!(raw.content, None);
    assert_eq!(raw.opener, None);
    let raw = split_token(&chars_of("\"never closed"));
    assert_eq!(raw.identifier.len(), 0);
    assert_eq!(raw.content.map(|c| c.iter().collect::<String>()), Some("never closed".to_string()));
    assert_eq!(raw.opener, Some('"'));
}
