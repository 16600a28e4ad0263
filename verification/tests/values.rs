use spotifyql::query::display::decimal_to_text;
use spotifyql::query::error::{ErrorKind, QueryError};
use spotifyql::query::token::Logical;
use spotifyql::query::value::{Decimal, Kind, Operator, Value};
use spotifyql::text::{chars_of, contains_chars, string_of, trim};

const ONE: i128 = 1_000_000_000_000_000_000;

fn s(text: &str) -> Value {
    Value::Str(text.to_string())
}

fn f(units: i128) -> Value {
    Value::Float(Decimal { units })
}

fn list(items: &[Value]) -> Value {
    Value::List(items.to_vec())
}

#[test]
fn equality_is_structural() {
    assert_eq!(Value::Int(1).compare(Value::Int(1), Operator::Equals), Ok(true));
    assert_eq!(Value::Int(1).compare(f(ONE), Operator::Equals), Ok(false));
    assert_eq!(Value::Int(1).compare(f(ONE), Operator::NotEquals), Ok(true));
    assert_eq!(s("a").compare(s("A"), Operator::Equals), Ok(false));
    assert_eq!(Value::Bool(true).compare(Value::Bool(true), Operator::Equals), Ok(true));
    assert_eq!(
        list(&[Value::Int(1), s("a")]).compare(list(&[Value::Int(1), s("a")]), Operator::Equals),
        Ok(true)
    );
    assert_eq!(
        list(&[Value::Int(1)]).compare(list(&[Value::Int(1), s("a")]), Operator::Equals),
        Ok(false)
    );
    assert_eq!(
        list(&[list(&[Value::Int(1)])]).compare(list(&[list(&[Value::Int(2)])]), Operator::NotEquals),
        Ok(true)
    );
    assert!(s("a").same(&s("a")));
    assert_eq!(s("a").clone(), s("a"));
    assert_eq!(list(&[f(3)]).duplicate(), list(&[f(3)]));
}

#[test]
fn like_looks_in_the_lower_case_of_the_left_side() {
    assert_eq!(s("Road Trip").compare(s("road"), Operator::Like), Ok(true));
    assert_eq!(s("ROAD").compare(s("Road"), Operator::Like), Ok(false));
    assert_eq!(s("ROAD").compare(s("road"), Operator::Like), Ok(true));
    assert_eq!(s("road").compare(s("ROAD"), Operator::Like), Ok(false));
    assert_eq!(s("anything").compare(s(""), Operator::Like), Ok(true));
    assert_eq!(s("ÉDITH").compare(s("édith"), Operator::Like), Ok(true));
    assert_eq!(s("a").compare(Value::Int(1), Operator::Like), Err(QueryError::LikeNeedsStrings));
    assert_eq!(Value::Int(1).compare(s("a"), Operator::Like), Err(QueryError::LikeNeedsStrings));
    assert_eq!(QueryError::LikeNeedsStrings.kind(), ErrorKind::Type);
}

#[test]
fn membership() {
    let numbers = list(&[Value::Int(1), Value::Int(2)]);
    assert_eq!(Value::Int(2).compare(numbers.clone(), Operator::In), Ok(true));
    assert_eq!(numbers.clone().compare(Value::Int(2), Operator::In), Ok(true));
    assert_eq!(Value::Int(3).compare(numbers.clone(), Operator::In), Ok(false));
    assert_eq!(Value::Int(3).compare(numbers.clone(), Operator::NotIn), Ok(true));
    assert_eq!(Value::Int(2).compare(numbers.clone(), Operator::NotIn), Ok(false));
    // nothing is in an empty list
    assert_eq!(Value::Int(1).compare(list(&[]), Operator::In), Ok(false));
    assert_eq!(s("x").compare(list(&[]), Operator::NotIn), Ok(true));
    assert_eq!(
        s("2").compare(numbers.clone(), Operator::In),
        Err(QueryError::ListMismatch(Operator::In))
    );
    assert_eq!(
        f(ONE).compare(numbers.clone(), Operator::NotIn),
        Err(QueryError::ListMismatch(Operator::NotIn))
    );
    // one item of another variant is enough, wherever it stands
    assert_eq!(
        Value::Int(1).compare(list(&[Value::Int(1), s("a")]), Operator::In),
        Err(QueryError::ListMismatch(Operator::In))
    );
    assert_eq!(
        numbers.clone().compare(numbers.clone(), Operator::In),
        Err(QueryError::NeedsOneList(Operator::In))
    );
    assert_eq!(
        Value::Int(1).compare(Value::Int(1), Operator::NotIn),
        Err(QueryError::NeedsOneList(Operator::NotIn))
    );
    assert_eq!(QueryError::NeedsOneList(Operator::In).kind(), ErrorKind::Type);
}

#[test]
fn ordering_takes_numbers() {
    assert_eq!(Value::Int(1).compare(Value::Int(2), Operator::Less), Ok(true));
    assert_eq!(Value::Int(2).compare(Value::Int(2), Operator::Less), Ok(false));
    assert_eq!(Value::Int(2).compare(Value::Int(2), Operator::LessEqual), Ok(true));
    assert_eq!(Value::Int(3).compare(Value::Int(2), Operator::Greater), Ok(true));
    assert_eq!(Value::Int(2).compare(Value::Int(2), Operator::GreaterEqual), Ok(true));
    assert_eq!(Value::Int(1).compare(f(ONE + ONE / 2), Operator::Less), Ok(true));
    assert_eq!(f(ONE / 2).compare(Value::Int(1), Operator::Greater), Ok(false));
    assert_eq!(f(-ONE).compare(Value::Int(-2), Operator::Greater), Ok(true));
    // a whole number is never <= or >= the fractional number of the same size
    assert_eq!(Value::Int(1).compare(f(ONE), Operator::LessEqual), Ok(false));
    assert_eq!(Value::Int(1).compare(f(ONE), Operator::GreaterEqual), Ok(false));
    assert_eq!(f(ONE).compare(f(ONE), Operator::GreaterEqual), Ok(true));
    assert_eq!(
        Value::Int(i64::MAX).compare(Value::Int(i64::MIN), Operator::Greater),
        Ok(true)
    );
    assert_eq!(f(i128::MAX).compare(Value::Int(i64::MAX), Operator::Greater), Ok(true));
    for op in [Operator::Less, Operator::LessEqual, Operator::Greater, Operator::GreaterEqual] {
        assert_eq!(s("1").compare(Value::Int(2), op), Err(QueryError::NotNumeric(op)));
        assert_eq!(Value::Int(2).compare(Value::Bool(true), op), Err(QueryError::NotNumeric(op)));
        assert_eq!(QueryError::NotNumeric(op).kind(), ErrorKind::Type);
    }
}

#[test]
fn kinds_and_units() {
    assert_eq!(s("a").kind(), Kind::Str);
    assert_eq!(Value::Int(1).kind(), Kind::Int);
    assert_eq!(f(1).kind(), Kind::Float);
    assert_eq!(Value::Bool(false).kind(), Kind::Bool);
    assert_eq!(list(&[]).kind(), Kind::List);
    assert_eq!(Value::Int(-3).units(), Some(-3 * ONE));
    assert_eq!(Value::Int(i64::MIN).units(), Some(i64::MIN as i128 * ONE));
    assert_eq!(f(17).units(), Some(17));
    assert_eq!(s("1").units(), None);
}

#[test]
fn connectives() {
    assert_eq!(Logical::And.eval(true, false), false);
    assert_eq!(Logical::And.eval(true, true), true);
    assert_eq!(Logical::Or.eval(false, false), false);
    assert_eq!(Logical::Or.eval(false, true), true);
}

#[test]
fn values_as_text() {
    let text = |v: Value| v.to_text().iter().collect::<String>();
    assert_eq!(text(s("abc")), "abc");
    assert_eq!(text(Value::Int(-120)), "-120");
    assert_eq!(text(Value::Int(0)), "0");
    assert_eq!(text(Value::Int(i64::MIN)), "-9223372036854775808");
    assert_eq!(text(Value::Bool(true)), "true");
    assert_eq!(text(Value::Bool(false)), "false");
    assert_eq!(text(f(ONE + ONE / 2)), "1.5");
    assert_eq!(text(f(-ONE / 4)), "-0.25");
    assert_eq!(text(f(2 * ONE)), "2.0");
    assert_eq!(text(f(1)), "0.000000000000000001");
    assert_eq!(text(f(0)), "0.0");
    assert_eq!(text(list(&[])), "[]");
    assert_eq!(text(list(&[Value::Int(1)])), "[1]");
    assert_eq!(text(list(&[s("a"), Value::Int(2), list(&[f(ONE)])])), "[a, 2, [1.0]]");
    assert_eq!(
        decimal_to_text(Decimal { units: i128::MIN }).iter().collect::<String>(),
        "-170141183460469231731.687303715884105728"
    );
}

#[test]
fn text_helpers() {
    let c = |t: &str| chars_of(t);
    assert_eq!(chars_of("héllo"), vec!['h', 'é', 'l', 'l', 'o']);
    assert_eq!(string_of(&['a', 'ß', 'c']), "aßc");
    assert!(contains_chars(&c("road trip"), &c("d t")));
    assert!(contains_chars(&c("abc"), &c("abc")));
    assert!(contains_chars(&c("abc"), &c("")));
    assert!(contains_chars(&c(""), &c("")));
    assert!(!contains_chars(&c("abc"), &c("abcd")));
    assert!(!contains_chars(&c("abc"), &c("ca")));
    assert_eq!(trim(&c("  a b \t\n")), c("a b"));
    assert_eq!(trim(&c("   ")), c(""));
    assert_eq!(trim(&c("")), c(""));
}
