//! The lexer: from the text of a statement to its tokens.

use vstd::prelude::*;
use crate::query::error::{QueryError, QueryErrorView};
use crate::query::literal::{
    check_bare_word, decimal_magnitude, decimal_units, find, free_of, integer_value, is_bare_word,
    is_decimal, is_integer, lemma_position, list_spec, names_spec, position, read_decimal,
    read_integer, read_list, read_names,
};
use crate::query::token::{token_views, DataSource, DataSourceView, Logical, Token, TokenView};
use crate::query::value::{lemma_list_view, Decimal, Operator, Value, ValueView};
use crate::text::{
    chars_of, check_space, is_space, slice_of, spells, string_of, to_upper, trim, trimmed,
    upper_seq,
};

verus! {

/// Whether `c` opens a group.
pub open spec fn is_opener(c: char) -> bool {
    c == '(' || c == '"' || c == '['
}

/// The character that closes the group that `c` opens.
pub open spec fn closer_of(c: char) -> char {
    if c == '(' {
        ')'
    } else if c == '[' {
        ']'
    } else {
        '"'
    }
}

fn check_opener(c: char) -> (r: bool)
    ensures
        r == is_opener(c),
{
    c == '(' || c == '"' || c == '['
}

fn closer(c: char) -> (r: char)
    ensures
        r == closer_of(c),
{
    if c == '(' {
        ')'
    } else if c == '[' {
        ']'
    } else {
        '"'
    }
}

/// The state of the splitting pass: the groups that are complete, the group
/// that is being read, and the character that closes the open group, if one
/// is open.
pub struct Scan {
    pub groups: Seq<Seq<char>>,
    pub buffer: Seq<char>,
    pub closer: Option<char>,
}

/// The state after one more character, which is not `;`.
///
/// A blank outside a group ends the group that is being read, which may be
/// empty, and inside a group it belongs to it. A comma belongs to the group
/// inside one and is dropped outside. `(`, `"` and `[` open a group where
/// none is open; it is closed by `)`, `"` or `]`. Groups do not nest.
pub open spec fn scan_step(st: Scan, c: char) -> Scan {
    if is_space(c) {
        if st.closer is None {
            Scan { groups: st.groups.push(st.buffer), buffer: seq![], closer: None }
        } else {
            Scan { buffer: st.buffer.push(c), ..st }
        }
    } else if c == ',' {
        if st.closer is Some {
            Scan { buffer: st.buffer.push(c), ..st }
        } else {
            st
        }
    } else if st.closer is None && is_opener(c) {
        Scan { buffer: st.buffer.push(c), closer: Some(closer_of(c)), ..st }
    } else if st.closer == Some(c) {
        Scan { buffer: st.buffer.push(c), closer: None, ..st }
    } else {
        Scan { buffer: st.buffer.push(c), ..st }
    }
}

/// The state after the characters of `input`, none of which is `;`.
pub open spec fn scan(input: Seq<char>) -> Scan
    decreases input.len(),
{
    if input.len() == 0 {
        Scan { groups: seq![], buffer: seq![], closer: None }
    } else {
        scan_step(scan(input.drop_last()), input.last())
    }
}

/// The lexical groups of a statement: what the splitting pass has when it
/// meets the first `;`, the group that is being read included. `None` where
/// the text has no `;`.
pub open spec fn groups_spec(input: Seq<char>) -> Option<Seq<Seq<char>>> {
    let end = position(input, ';');
    if end >= input.len() {
        None
    } else {
        let st = scan(input.take(end));
        Some(st.groups.push(st.buffer))
    }
}

/// The texts of the groups of `groups`, in order.
pub open spec fn group_texts(groups: Seq<Vec<char>>) -> Seq<Seq<char>> {
    Seq::new(groups.len(), |i: int| groups[i]@)
}

/// The splitting pass: the lexical groups of a statement.
pub fn split_groups(input: &[char]) -> (r: Result<Vec<Vec<char>>, QueryError>)
    ensures
        match r {
            Ok(groups) => groups_spec(input@) == Some(group_texts(groups@)),
            Err(e) => groups_spec(input@) is None && e@ == QueryErrorView::Unterminated,
        },
{
    let end = find(input, 0, ';');
    proof {
        assert(input@.skip(0) =~= input@);
    }
    if end >= input.len() {
        return Err(QueryError::Unterminated);
    }
    let mut groups: Vec<Vec<char>> = Vec::new();
    let mut buffer: Vec<char> = Vec::new();
    let mut open: Option<char> = None;
    let mut i: usize = 0;
    proof {
        assert(group_texts(groups@) =~= scan(input@.take(0)).groups);
    }
    while i < end
        invariant
            i <= end < input.len(),
            group_texts(groups@) == scan(input@.take(i as int)).groups,
            buffer@ == scan(input@.take(i as int)).buffer,
            open == scan(input@.take(i as int)).closer,
        decreases end - i,
    {
        let c = input[i];
        let ghost before = scan(input@.take(i as int));
        let ghost texts = group_texts(groups@);
        proof {
            assert(input@.take(i + 1).drop_last() =~= input@.take(i as int));
            assert(input@.take(i + 1).last() == c);
        }
        if check_space(c) {
            if open.is_none() {
                groups.push(buffer);
                buffer = Vec::new();
                proof {
                    assert(group_texts(groups@) =~= texts.push(before.buffer));
                }
            } else {
                buffer.push(c);
            }
        } else if c == ',' {
            if open.is_some() {
                buffer.push(c);
            }
        } else if open.is_none() && check_opener(c) {
            open = Some(closer(c));
            buffer.push(c);
        } else if open == Some(c) {
            open = None;
            buffer.push(c);
        } else {
            buffer.push(c);
        }
        i += 1;
    }
    let ghost texts = group_texts(groups@);
    groups.push(buffer);
    proof {
        assert(group_texts(groups@) =~= texts.push(buffer@));
    }
    Ok(groups)
}

/// A lexical group in its parts: what stands before the first opening
/// character, and what stands between that character and the one that
/// closes it.
#[derive(Clone, Debug, PartialEq)]
pub struct RawToken {
    /// The group as written.
    pub text: Vec<char>,
    /// What stands before the first `(`, `"` or `[`; the whole group where
    /// there is none.
    pub identifier: Vec<char>,
    /// What stands behind the opening character, up to the character that
    /// closes it or to the end of the group.
    pub content: Option<Vec<char>>,
    /// The opening character.
    pub opener: Option<char>,
}

/// The position of the first opening character in `s`; the length of `s`
/// where there is none.
pub open spec fn opener_position(s: Seq<char>) -> int
    decreases s.len(),
{
    if s.len() == 0 || is_opener(s[0]) {
        0
    } else {
        1 + opener_position(s.drop_first())
    }
}

pub proof fn lemma_opener_position_is(s: Seq<char>, n: int)
    requires
        0 <= n <= s.len(),
        forall|j: int| 0 <= j < n ==> !is_opener(#[trigger] s[j]),
        n < s.len() ==> is_opener(s[n]),
    ensures
        opener_position(s) == n,
    decreases s.len(),
{
    if n > 0 {
        let t = s.drop_first();
        assert(!is_opener(s[0]));
        assert forall|j: int| 0 <= j < n - 1 implies !is_opener(#[trigger] t[j]) by {
            assert(t[j] == s[j + 1]);
        }
        if n - 1 < t.len() {
            assert(t[n - 1] == s[n]);
        }
        lemma_opener_position_is(t, n - 1);
    }
}

/// The identifier of a group.
pub open spec fn identifier_spec(group: Seq<char>) -> Seq<char> {
    group.take(opener_position(group))
}

/// The opening character of a group.
pub open spec fn opener_spec(group: Seq<char>) -> Option<char> {
    if opener_position(group) < group.len() {
        Some(group[opener_position(group)])
    } else {
        None
    }
}

/// The content of a group.
pub open spec fn content_spec(group: Seq<char>) -> Option<Seq<char>> {
    let k = opener_position(group);
    if k < group.len() {
        let rest = group.skip(k + 1);
        Some(rest.take(position(rest, closer_of(group[k]))))
    } else {
        None
    }
}

/// What a raw token's content is, as mathematics sees it.
pub open spec fn content_view(content: Option<Vec<char>>) -> Option<Seq<char>> {
    match content {
        Some(c) => Some(c@),
        None => None,
    }
}

/// Parts a lexical group into its identifier and its content.
pub fn split_token(group: &[char]) -> (r: RawToken)
    ensures
        r.text@ == group@,
        r.identifier@ == identifier_spec(group@),
        content_view(r.content) == content_spec(group@),
        r.opener == opener_spec(group@),
{
    let mut k: usize = 0;
    while k < group.len() && !check_opener(group[k])
        invariant
            k <= group.len(),
            forall|j: int| 0 <= j < k ==> !is_opener(#[trigger] group@[j]),
        decreases group.len() - k,
    {
        k += 1;
    }
    proof {
        lemma_opener_position_is(group@, k as int);
        assert(group@.subrange(0, k as int) =~= group@.take(k as int));
        assert(group@.subrange(0, group.len() as int) =~= group@);
    }
    let text = slice_of(group, 0, group.len());
    let identifier = slice_of(group, 0, k);
    if k >= group.len() {
        return RawToken { text, identifier, content: None, opener: None };
    }
    let opener = group[k];
    let end = find(group, k + 1, closer(opener));
    let content = slice_of(group, k + 1, end);
    proof {
        let rest = group@.skip(k + 1);
        lemma_position(rest, closer_of(opener));
        assert(group@.subrange(k + 1, end as int) =~= rest.take(end - (k + 1)));
    }
    RawToken { text, identifier, content: Some(content), opener: Some(opener) }
}

/// The token that a word in upper case spells, if it is a keyword or an
/// operator.
pub open spec fn keyword_spec(word: Seq<char>) -> Option<TokenView> {
    if word == "SELECT"@ {
        Some(TokenView::SELECT)
    } else if word == "FROM"@ {
        Some(TokenView::FROM)
    } else if word == "WHERE"@ {
        Some(TokenView::WHERE)
    } else if word == "AND"@ {
        Some(TokenView::Logical(Logical::And))
    } else if word == "OR"@ {
        Some(TokenView::Logical(Logical::Or))
    } else if word == "IN"@ {
        Some(TokenView::Operator(Operator::In))
    } else if word == "LIKE"@ {
        Some(TokenView::Operator(Operator::Like))
    } else if word == "NOT"@ {
        Some(TokenView::Operator(Operator::NotIn))
    } else if word == "=="@ {
        Some(TokenView::Operator(Operator::Equals))
    } else if word == "!="@ {
        Some(TokenView::Operator(Operator::NotEquals))
    } else if word == "<"@ {
        Some(TokenView::Operator(Operator::Less))
    } else if word == "<="@ {
        Some(TokenView::Operator(Operator::LessEqual))
    } else if word == ">"@ {
        Some(TokenView::Operator(Operator::Greater))
    } else if word == ">="@ {
        Some(TokenView::Operator(Operator::GreaterEqual))
    } else if word == "*"@ {
        Some(TokenView::Wildcard)
    } else {
        None
    }
}

fn keyword(word: &[char]) -> (r: Option<Token>)
    ensures
        match r {
            Some(t) => keyword_spec(word@) == Some(t@),
            None => keyword_spec(word@) is None,
        },
{
    if spells(word, "SELECT") {
        Some(Token::SELECT)
    } else if spells(word, "FROM") {
        Some(Token::FROM)
    } else if spells(word, "WHERE") {
        Some(Token::WHERE)
    } else if spells(word, "AND") {
        Some(Token::Logical(Logical::And))
    } else if spells(word, "OR") {
        Some(Token::Logical(Logical::Or))
    } else if spells(word, "IN") {
        Some(Token::Operator(Operator::In))
    } else if spells(word, "LIKE") {
        Some(Token::Operator(Operator::Like))
    } else if spells(word, "NOT") {
        Some(Token::Operator(Operator::NotIn))
    } else if spells(word, "==") {
        Some(Token::Operator(Operator::Equals))
    } else if spells(word, "!=") {
        Some(Token::Operator(Operator::NotEquals))
    } else if spells(word, "<") {
        Some(Token::Operator(Operator::Less))
    } else if spells(word, "<=") {
        Some(Token::Operator(Operator::LessEqual))
    } else if spells(word, ">") {
        Some(Token::Operator(Operator::Greater))
    } else if spells(word, ">=") {
        Some(Token::Operator(Operator::GreaterEqual))
    } else if spells(word, "*") {
        Some(Token::Wildcard)
    } else {
        None
    }
}

/// `s` without the double quotes around it, if it stands between two.
pub open spec fn unquoted(s: Seq<char>) -> Seq<char> {
    if s.len() >= 2 && s[0] == '"' && s.last() == '"' {
        s.subrange(1, s.len() - 1)
    } else {
        s
    }
}

/// The name that stands between the brackets of `PLAYLIST(..)` or
/// `ALBUM(..)`: the content without the blanks and the double quotes around
/// it; the empty name where there are no brackets.
pub open spec fn source_name(content: Option<Seq<char>>) -> Seq<char> {
    match content {
        Some(c) => unquoted(trimmed(c)),
        None => seq![],
    }
}

fn read_source_name(content: &Option<Vec<char>>) -> (r: String)
    ensures
        r@ == source_name(content_view(*content)),
{
    match content {
        Some(c) => {
            let t = trim(c.as_slice());
            if t.len() >= 2 && t[0] == '"' && t[t.len() - 1] == '"' {
                let inner = slice_of(t.as_slice(), 1, t.len() - 1);
                string_of(inner.as_slice())
            } else {
                string_of(t.as_slice())
            }
        },
        None => String::new(),
    }
}

/// The token that a group with the identifier `identifier` is, where the
/// identifier is no keyword, aggregation or source: a literal or an
/// attribute.
///
/// `true` and `false` are truth values. A whole number and a fractional
/// number denote themselves. Any other bare word is the name of an
/// attribute. A group with nothing before its opening character is a string
/// where it opens with `"`, and a list where it opens with `[`.
pub open spec fn literal_spec(
    identifier: Seq<char>,
    content: Option<Seq<char>>,
    opener: Option<char>,
    text: Seq<char>,
) -> Result<TokenView, QueryErrorView> {
    if identifier == "true"@ {
        Ok(TokenView::Value(ValueView::Bool(true)))
    } else if identifier == "false"@ {
        Ok(TokenView::Value(ValueView::Bool(false)))
    } else if is_integer(identifier) {
        if i64::MIN <= integer_value(identifier) <= i64::MAX {
            Ok(TokenView::Value(ValueView::Int(integer_value(identifier) as i64)))
        } else {
            Err(QueryErrorView::NumberOutOfRange(text))
        }
    } else if is_decimal(identifier) {
        if decimal_magnitude(identifier) <= i128::MAX {
            Ok(
                TokenView::Value(
                    ValueView::Float(Decimal { units: decimal_units(identifier) as i128 }),
                ),
            )
        } else {
            Err(QueryErrorView::NumberOutOfRange(text))
        }
    } else if is_bare_word(identifier) {
        Ok(TokenView::Attribute(identifier))
    } else if identifier.len() == 0 && content is Some && opener == Some('"') {
        Ok(TokenView::Value(ValueView::Str(content->0)))
    } else if identifier.len() == 0 && content is Some && opener == Some('[') {
        match list_spec(content->0) {
            Some(Some(items)) => Ok(TokenView::Value(ValueView::List(items))),
            Some(None) => Err(QueryErrorView::NumberOutOfRange(text)),
            None => Err(QueryErrorView::UnknownToken(text)),
        }
    } else {
        Err(QueryErrorView::UnknownToken(text))
    }
}

/// The token that a group is. The identifier decides, without regard to
/// the case of its letters: a keyword or an operator first, then an
/// aggregation with its attribute names, then a data source, and at last a
/// literal or an attribute. A group that is none of these is an error.
pub open spec fn classify_spec(
    identifier: Seq<char>,
    content: Option<Seq<char>>,
    opener: Option<char>,
    text: Seq<char>,
) -> Result<TokenView, QueryErrorView> {
    let word = upper_seq(identifier);
    if keyword_spec(word) is Some {
        Ok(keyword_spec(word)->0)
    } else if word == "COUNT"@ {
        if content is Some && names_spec(content->0) is Some {
            Ok(TokenView::COUNT(names_spec(content->0)->0))
        } else {
            Err(QueryErrorView::UnknownToken(text))
        }
    } else if word == "AVERAGE"@ {
        if content is Some && names_spec(content->0) is Some {
            Ok(TokenView::AVERAGE(names_spec(content->0)->0))
        } else {
            Err(QueryErrorView::UnknownToken(text))
        }
    } else if word == "PLAYLIST"@ {
        Ok(TokenView::Source(DataSourceView::Playlist(source_name(content))))
    } else if word == "ALBUM"@ {
        Ok(TokenView::Source(DataSourceView::SavedAlbum(source_name(content))))
    } else if word == "PLAYLISTS"@ {
        Ok(TokenView::Source(DataSourceView::Playlists))
    } else if word == "ALBUMS"@ {
        Ok(TokenView::Source(DataSourceView::SavedAlbums))
    } else {
        literal_spec(identifier, content, opener, text)
    }
}

/// What a result with a token holds, as mathematics sees it.
pub open spec fn token_outcome(r: Result<Token, QueryError>) -> Result<TokenView, QueryErrorView> {
    match r {
        Ok(t) => Ok(t@),
        Err(e) => Err(e@),
    }
}

impl RawToken {
    /// What the raw token's content is, as mathematics sees it.
    pub open spec fn content_view(self) -> Option<Seq<char>> {
        content_view(self.content)
    }

    fn unknown(&self) -> (r: QueryError)
        ensures
            r@ == QueryErrorView::UnknownToken(self.text@),
    {
        QueryError::UnknownToken(string_of(self.text.as_slice()))
    }

    fn out_of_range(&self) -> (r: QueryError)
        ensures
            r@ == QueryErrorView::NumberOutOfRange(self.text@),
    {
        QueryError::NumberOutOfRange(string_of(self.text.as_slice()))
    }

    fn build_literal(&self) -> (r: Result<Token, QueryError>)
        ensures
            token_outcome(r) == literal_spec(
                self.identifier@,
                self.content_view(),
                self.opener,
                self.text@,
            ),
    {
        let identifier = self.identifier.as_slice();
        if spells(identifier, "true") {
            return Ok(Token::Value(Value::Bool(true)));
        }
        if spells(identifier, "false") {
            return Ok(Token::Value(Value::Bool(false)));
        }
        match read_integer(identifier) {
            Some(Some(v)) => {
                return Ok(Token::Value(Value::Int(v)));
            },
            Some(None) => {
                return Err(self.out_of_range());
            },
            None => {},
        }
        match read_decimal(identifier) {
            Some(Some(d)) => {
                return Ok(Token::Value(Value::Float(d)));
            },
            Some(None) => {
                return Err(self.out_of_range());
            },
            None => {},
        }
        if check_bare_word(identifier) {
            return Ok(Token::Attribute(string_of(identifier)));
        }
        if identifier.len() != 0 {
            return Err(self.unknown());
        }
        match (&self.content, self.opener) {
            (Some(content), Some(opener)) => {
                if opener == '"' {
                    Ok(Token::Value(Value::Str(string_of(content.as_slice()))))
                } else if opener == '[' {
                    match read_list(content.as_slice()) {
                        Some(Some(items)) => {
                            proof {
                                lemma_list_view(items);
                            }
                            Ok(Token::Value(Value::List(items)))
                        },
                        Some(None) => Err(self.out_of_range()),
                        None => Err(self.unknown()),
                    }
                } else {
                    Err(self.unknown())
                }
            },
            _ => Err(self.unknown()),
        }
    }

    /// Classifies the group.
    pub fn build_token(self) -> (r: Result<Token, QueryError>)
        ensures
            token_outcome(r) == classify_spec(
                self.identifier@,
                self.content_view(),
                self.opener,
                self.text@,
            ),
    {
        let word = to_upper(self.identifier.as_slice());
        match keyword(word.as_slice()) {
            Some(t) => {
                return Ok(t);
            },
            None => {},
        }
        if spells(word.as_slice(), "COUNT") {
            match &self.content {
                Some(c) => match read_names(c.as_slice()) {
                    Some(names) => Ok(Token::COUNT(names)),
                    None => Err(self.unknown()),
                },
                None => Err(self.unknown()),
            }
        } else if spells(word.as_slice(), "AVERAGE") {
            match &self.content {
                Some(c) => match read_names(c.as_slice()) {
                    Some(names) => Ok(Token::AVERAGE(names)),
                    None => Err(self.unknown()),
                },
                None => Err(self.unknown()),
            }
        } else if spells(word.as_slice(), "PLAYLIST") {
            Ok(Token::Source(DataSource::Playlist(read_source_name(&self.content))))
        } else if spells(word.as_slice(), "ALBUM") {
            Ok(Token::Source(DataSource::SavedAlbum(read_source_name(&self.content))))
        } else if spells(word.as_slice(), "PLAYLISTS") {
            Ok(Token::Source(DataSource::Playlists))
        } else if spells(word.as_slice(), "ALBUMS") {
            Ok(Token::Source(DataSource::SavedAlbums))
        } else {
            self.build_literal()
        }
    }
}

/// A group without an identifier is no keyword, aggregation or source.
pub proof fn lemma_empty_identifier_is_literal(
    content: Option<Seq<char>>,
    opener: Option<char>,
    text: Seq<char>,
)
    ensures
        classify_spec(seq![], content, opener, text) == literal_spec(seq![], content, opener, text),
        !is_integer(seq![]),
        !is_decimal(seq![]),
        !is_bare_word(seq![]),
        Seq::<char>::empty() != "true"@,
        Seq::<char>::empty() != "false"@,
{
    reveal_strlit("SELECT");
    reveal_strlit("FROM");
    reveal_strlit("WHERE");
    reveal_strlit("AND");
    reveal_strlit("OR");
    reveal_strlit("IN");
    reveal_strlit("LIKE");
    reveal_strlit("NOT");
    reveal_strlit("==");
    reveal_strlit("!=");
    reveal_strlit("<");
    reveal_strlit("<=");
    reveal_strlit(">");
    reveal_strlit(">=");
    reveal_strlit("*");
    reveal_strlit("COUNT");
    reveal_strlit("AVERAGE");
    reveal_strlit("PLAYLIST");
    reveal_strlit("ALBUM");
    reveal_strlit("PLAYLISTS");
    reveal_strlit("ALBUMS");
    reveal_strlit("true");
    reveal_strlit("false");
    let empty = Seq::<char>::empty();
    assert(upper_seq(empty) =~= empty);
    assert(position(crate::query::literal::unsigned_part(empty), '.') == 0);
}

/// Every list literal is lexed as a list of one variant.
///
/// A group that is written as `[`, the items of a list and `]`, where the
/// items are strings, whole numbers or fractional numbers that can be held,
/// is a literal whose value is a list. The list has an item, and all its
/// items are of the variant that the items are written in.
pub proof fn lemma_list_literal_is_uniform(content: Seq<char>)
    requires
        !content.contains(']'),
        list_spec(content) is Some,
        list_spec(content)->0 is Some,
    ensures
        group_spec(seq!['['] + content + seq![']']) == Ok::<TokenView, QueryErrorView>(
            TokenView::Value(ValueView::List(list_spec(content)->0->0)),
        ),
        list_spec(content)->0->0.len() >= 1,
        crate::query::literal::string_items(content) is Some ==> crate::query::value::all_of_kind(
            list_spec(content)->0->0,
            crate::query::value::Kind::Str,
        ),
        crate::query::literal::string_items(content) is None
            && crate::query::literal::is_integer_list(content)
            ==> crate::query::value::all_of_kind(
            list_spec(content)->0->0,
            crate::query::value::Kind::Int,
        ),
        crate::query::literal::string_items(content) is None
            && !crate::query::literal::is_integer_list(content)
            ==> crate::query::value::all_of_kind(
            list_spec(content)->0->0,
            crate::query::value::Kind::Float,
        ),
{
    let group = seq!['['] + content + seq![']'];
    crate::query::literal::lemma_list_is_uniform(content);
    lemma_bracket_group(content);
    lemma_empty_identifier_is_literal(Some(content), Some('['), group);
}

/// A group that is written as `[`, a text without `]`, and `]` has no
/// identifier, and its content is that text.
pub proof fn lemma_bracket_group(content: Seq<char>)
    requires
        !content.contains(']'),
    ensures
        identifier_spec(seq!['['] + content + seq![']']) == Seq::<char>::empty(),
        opener_spec(seq!['['] + content + seq![']']) == Some('['),
        content_spec(seq!['['] + content + seq![']']) == Some(content),
{
    let group = seq!['['] + content + seq![']'];
    assert(group[0] == '[');
    assert(opener_position(group) == 0);
    assert(identifier_spec(group) =~= Seq::<char>::empty());
    let rest = group.skip(1);
    assert(rest =~= content + seq![']']);
    assert forall|j: int| 0 <= j < content.len() implies #[trigger] rest[j] != ']' by {
        assert(rest[j] == content[j]);
        assert(content.contains(content[j]));
    }
    assert(rest[content.len() as int] == ']');
    crate::query::literal::lemma_position_is(rest, ']', content.len() as int);
    assert(rest.take(content.len() as int) =~= content);
}

/// The token that a group is.
pub open spec fn group_spec(group: Seq<char>) -> Result<TokenView, QueryErrorView> {
    classify_spec(identifier_spec(group), content_spec(group), opener_spec(group), group)
}

/// The tokens of the groups `groups`, or the error of the first group that
/// is no token.
pub open spec fn classify_all(groups: Seq<Seq<char>>) -> Result<Seq<TokenView>, QueryErrorView>
    decreases groups.len(),
{
    if groups.len() == 0 {
        Ok(seq![])
    } else {
        match classify_all(groups.drop_last()) {
            Err(e) => Err(e),
            Ok(tokens) => match group_spec(groups.last()) {
                Err(e) => Err(e),
                Ok(t) => Ok(tokens.push(t)),
            },
        }
    }
}

/// Where the groups before position `at` are tokens and the one at `at` is
/// none, the whole sequence fails with the error of that group.
pub proof fn lemma_classify_fails(groups: Seq<Seq<char>>, at: int)
    requires
        0 <= at < groups.len(),
        classify_all(groups.take(at)) is Ok,
        group_spec(groups[at]) is Err,
    ensures
        classify_all(groups) == Err::<Seq<TokenView>, QueryErrorView>(
            group_spec(groups[at])->Err_0,
        ),
    decreases groups.len(),
{
    if at == groups.len() - 1 {
        assert(groups.drop_last() =~= groups.take(at));
    } else {
        assert(groups.drop_last().take(at) =~= groups.take(at));
        lemma_classify_fails(groups.drop_last(), at);
    }
}

/// The tokens of a statement: its text is split into groups up to the first
/// `;`, and each group is classified.
pub open spec fn tokens_spec(input: Seq<char>) -> Result<Seq<TokenView>, QueryErrorView> {
    match groups_spec(input) {
        None => Err(QueryErrorView::Unterminated),
        Some(groups) => classify_all(groups),
    }
}

/// What a result with tokens holds, as mathematics sees it.
pub open spec fn tokens_outcome(r: Result<Vec<Token>, QueryError>) -> Result<
    Seq<TokenView>,
    QueryErrorView,
> {
    match r {
        Ok(tokens) => Ok(token_views(tokens@)),
        Err(e) => Err(e@),
    }
}

/// The splitting pass takes one character after the other.
pub proof fn lemma_scan_step(input: Seq<char>, c: char)
    ensures
        scan(input.push(c)) == scan_step(scan(input), c),
{
    assert(input.push(c).drop_last() =~= input);
}

/// Whether every character of `word` is one that the splitting pass adds
/// to the group that is being read outside a group: no blank, no comma and
/// no opening character.
pub open spec fn plain_word(word: Seq<char>) -> bool {
    forall|i: int|
        0 <= i < word.len() ==> !is_space(#[trigger] word[i]) && word[i] != ',' && !is_opener(
            word[i],
        )
}

/// Outside a group the splitting pass adds a word to the group that is
/// being read.
pub proof fn lemma_scan_word(input: Seq<char>, word: Seq<char>)
    requires
        scan(input).closer is None,
        plain_word(word),
    ensures
        scan(input + word) == (Scan { buffer: scan(input).buffer + word, ..scan(input) }),
    decreases word.len(),
{
    if word.len() == 0 {
        assert(input + word =~= input);
        assert(scan(input).buffer + word =~= scan(input).buffer);
    } else {
        let front = word.drop_last();
        lemma_scan_word(input, front);
        lemma_scan_step(input + front, word.last());
        assert((input + front).push(word.last()) =~= input + word);
        assert((scan(input).buffer + front).push(word.last()) =~= scan(input).buffer + word);
    }
}

/// Inside a group the splitting pass keeps every character: after the
/// opening character and a text in which the closing character does not
/// stand, the group is open and holds all of them.
pub proof fn lemma_scan_open(input: Seq<char>, open: char, content: Seq<char>)
    requires
        scan(input).closer is None,
        is_opener(open),
        free_of(content, closer_of(open)),
    ensures
        scan(input + seq![open] + content) == (Scan {
            buffer: scan(input).buffer + seq![open] + content,
            closer: Some(closer_of(open)),
            ..scan(input)
        }),
    decreases content.len(),
{
    if content.len() == 0 {
        lemma_scan_step(input, open);
        assert(input.push(open) =~= input + seq![open] + content);
        assert(scan(input).buffer.push(open) =~= scan(input).buffer + seq![open] + content);
    } else {
        let front = content.drop_last();
        lemma_scan_open(input, open, front);
        lemma_scan_step(input + seq![open] + front, content.last());
        assert((input + seq![open] + front).push(content.last()) =~= input + seq![open]
            + content);
        assert((scan(input).buffer + seq![open] + front).push(content.last()) =~= scan(
            input,
        ).buffer + seq![open] + content);
    }
}

/// A whole group, from its opening character to its closing character, is
/// added to the group that is being read, and no group is open behind it.
pub proof fn lemma_scan_group(input: Seq<char>, open: char, content: Seq<char>)
    requires
        scan(input).closer is None,
        is_opener(open),
        free_of(content, closer_of(open)),
    ensures
        scan(input + seq![open] + content + seq![closer_of(open)]) == (Scan {
            buffer: scan(input).buffer + seq![open] + content + seq![closer_of(open)],
            ..scan(input)
        }),
{
    lemma_scan_open(input, open, content);
    lemma_scan_step(input + seq![open] + content, closer_of(open));
    assert((input + seq![open] + content).push(closer_of(open)) =~= input + seq![open] + content
        + seq![closer_of(open)]);
    assert((scan(input).buffer + seq![open] + content).push(closer_of(open)) =~= scan(
        input,
    ).buffer + seq![open] + content + seq![closer_of(open)]);
}

/// A list literal that stands alone in a statement is lexed as one token,
/// a list of one variant.
///
/// The text `[`, the items of a list, `]` and `;`, where the items are
/// strings, whole numbers or fractional numbers that can be held and hold
/// neither `]` nor `;`, has exactly one token: the literal whose value is
/// the list of those items.
pub proof fn lemma_list_literal_is_lexed(content: Seq<char>)
    requires
        !content.contains(']'),
        !content.contains(';'),
        list_spec(content) is Some,
        list_spec(content)->0 is Some,
    ensures
        tokens_spec(seq!['['] + content + seq![']', ';']) == Ok::<Seq<TokenView>, QueryErrorView>(
            seq![TokenView::Value(ValueView::List(list_spec(content)->0->0))],
        ),
{
    let group = seq!['['] + content + seq![']'];
    let input = seq!['['] + content + seq![']', ';'];
    let end: int = content.len() as int + 2;
    assert forall|j: int| 0 <= j < end implies #[trigger] input[j] != ';' by {
        if 1 <= j <= content.len() {
            assert(input[j] == content[j - 1]);
            assert(content.contains(content[j - 1]));
        }
    }
    crate::query::literal::lemma_position_is(input, ';', end);
    assert(input.take(end) =~= group);
    assert forall|j: int| 0 <= j < content.len() implies #[trigger] content[j] != ']' by {
        assert(content.contains(content[j]));
    }
    lemma_scan_group(Seq::<char>::empty(), '[', content);
    assert(Seq::<char>::empty() + seq!['['] + content + seq![']'] =~= group);
    let st = scan(group);
    assert(st.groups =~= Seq::<Seq<char>>::empty());
    assert(st.buffer =~= group);
    let groups = st.groups.push(st.buffer);
    assert(groups =~= seq![group]);
    assert(groups.drop_last() =~= Seq::<Seq<char>>::empty());
    assert(groups.last() == group);
    lemma_list_literal_is_uniform(content);
    assert(classify_all(groups.drop_last()) == Ok::<Seq<TokenView>, QueryErrorView>(seq![]));
    assert(Seq::<TokenView>::empty().push(
        TokenView::Value(ValueView::List(list_spec(content)->0->0)),
    ) =~= seq![TokenView::Value(ValueView::List(list_spec(content)->0->0))]);
}

/// Turns the text of a statement into its tokens.
pub fn tokenise(input: String) -> (r: Result<Vec<Token>, QueryError>)
    ensures
        tokens_outcome(r) == tokens_spec(input@),
{
    let letters = chars_of(input.as_str());
    let groups = match split_groups(letters.as_slice()) {
        Ok(groups) => groups,
        Err(e) => {
            return Err(e);
        },
    };
    let mut tokens: Vec<Token> = Vec::new();
    let mut i: usize = 0;
    let ghost texts = group_texts(groups@);
    proof {
        assert(token_views(tokens@) =~= Seq::<TokenView>::empty());
    }
    while i < groups.len()
        invariant
            i <= groups.len(),
            texts == group_texts(groups@),
            groups_spec(input@) == Some(texts),
            classify_all(texts.take(i as int)) == Ok::<Seq<TokenView>, QueryErrorView>(
                token_views(tokens@),
            ),
        decreases groups.len() - i,
    {
        let ghost before = token_views(tokens@);
        proof {
            assert(texts.take(i + 1).drop_last() =~= texts.take(i as int));
            assert(texts.take(i + 1).last() == groups@[i as int]@);
        }
        match split_token(groups[i].as_slice()).build_token() {
            Ok(token) => {
                tokens.push(token);
                proof {
                    assert(token_views(tokens@) =~= before.push(token@));
                }
            },
            Err(e) => {
                proof {
                    assert(texts[i as int] == groups@[i as int]@);
                    lemma_classify_fails(texts, i as int);
                }
                return Err(e);
            },
        }
        i += 1;
    }
    proof {
        assert(texts.take(groups.len() as int) =~= texts);
    }
    Ok(tokens)
}

} // verus!
