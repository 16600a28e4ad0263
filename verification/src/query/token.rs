//! The lexical units of a statement.

use vstd::prelude::*;
use crate::query::value::{Operator, Value, ValueView};
use crate::text::{copy_names, texts_of};

verus! {

/// The connective that joins two neighbouring conditions of a `WHERE` clause.
#[derive(Clone, Copy, Debug, PartialEq, Eq, Structural)]
pub enum Logical {
    And,
    Or,
}

impl Logical {
    /// The truth value of `a <connective> b`.
    pub open spec fn apply(self, a: bool, b: bool) -> bool {
        match self {
            Logical::And => a && b,
            Logical::Or => a || b,
        }
    }

    pub fn eval(&self, a: bool, b: bool) -> (r: bool)
        ensures
            r == self.apply(a, b),
    {
        match self {
            Logical::And => a && b,
            Logical::Or => a || b,
        }
    }
}

/// The kind of record that a collection holds.
#[derive(Clone, Copy, Debug, PartialEq, Eq, Structural)]
pub enum RecordKind {
    Track,
    Playlist,
    Album,
}

/// The collection that a statement reads: the tracks of one playlist or of
/// one saved album, found by name, or all playlists or all saved albums as
/// rows. It is a key and holds no data.
#[derive(Debug, PartialEq)]
pub enum DataSource {
    Playlist(String),
    Playlists,
    SavedAlbum(String),
    SavedAlbums,
}

pub enum DataSourceView {
    Playlist(Seq<char>),
    Playlists,
    SavedAlbum(Seq<char>),
    SavedAlbums,
}

impl View for DataSource {
    type V = DataSourceView;

    open spec fn view(&self) -> DataSourceView {
        match self {
            DataSource::Playlist(name) => DataSourceView::Playlist(name@),
            DataSource::Playlists => DataSourceView::Playlists,
            DataSource::SavedAlbum(name) => DataSourceView::SavedAlbum(name@),
            DataSource::SavedAlbums => DataSourceView::SavedAlbums,
        }
    }
}

impl DataSourceView {
    /// The kind of the records that the source yields as rows.
    pub open spec fn record_kind(self) -> RecordKind {
        match self {
            DataSourceView::Playlist(_) => RecordKind::Track,
            DataSourceView::Playlists => RecordKind::Playlist,
            DataSourceView::SavedAlbum(_) => RecordKind::Track,
            DataSourceView::SavedAlbums => RecordKind::Album,
        }
    }
}

impl DataSource {
    pub fn record_kind(&self) -> (r: RecordKind)
        ensures
            r == self@.record_kind(),
    {
        match self {
            DataSource::Playlist(_) => RecordKind::Track,
            DataSource::Playlists => RecordKind::Playlist,
            DataSource::SavedAlbum(_) => RecordKind::Track,
            DataSource::SavedAlbums => RecordKind::Album,
        }
    }
}

impl Clone for DataSource {
    fn clone(&self) -> (r: Self)
        ensures
            r@ == self@,
    {
        match self {
            DataSource::Playlist(name) => DataSource::Playlist(name.clone()),
            DataSource::Playlists => DataSource::Playlists,
            DataSource::SavedAlbum(name) => DataSource::SavedAlbum(name.clone()),
            DataSource::SavedAlbums => DataSource::SavedAlbums,
        }
    }
}

/// A lexical unit. The lexer makes tokens and the parser reads them.
#[derive(Debug, PartialEq)]
pub enum Token {
    SELECT,
    FROM,
    WHERE,
    /// `*`: every attribute of the source's records.
    Wildcard,
    /// `COUNT(..)` with the attribute names between the brackets.
    COUNT(Vec<String>),
    /// `AVERAGE(..)` with the attribute names between the brackets.
    AVERAGE(Vec<String>),
    /// A bare word: the name of an attribute.
    Attribute(String),
    Operator(Operator),
    Logical(Logical),
    Source(DataSource),
    /// A literal.
    Value(Value),
}

pub enum TokenView {
    SELECT,
    FROM,
    WHERE,
    Wildcard,
    COUNT(Seq<Seq<char>>),
    AVERAGE(Seq<Seq<char>>),
    Attribute(Seq<char>),
    Operator(Operator),
    Logical(Logical),
    Source(DataSourceView),
    Value(ValueView),
}

impl View for Token {
    type V = TokenView;

    open spec fn view(&self) -> TokenView {
        match self {
            Token::SELECT => TokenView::SELECT,
            Token::FROM => TokenView::FROM,
            Token::WHERE => TokenView::WHERE,
            Token::Wildcard => TokenView::Wildcard,
            Token::COUNT(names) => TokenView::COUNT(texts_of(names@)),
            Token::AVERAGE(names) => TokenView::AVERAGE(texts_of(names@)),
            Token::Attribute(name) => TokenView::Attribute(name@),
            Token::Operator(op) => TokenView::Operator(*op),
            Token::Logical(l) => TokenView::Logical(*l),
            Token::Source(source) => TokenView::Source(source@),
            Token::Value(value) => TokenView::Value(value@),
        }
    }
}

impl Clone for Token {
    fn clone(&self) -> (r: Self)
        ensures
            r@ == self@,
    {
        match self {
            Token::SELECT => Token::SELECT,
            Token::FROM => Token::FROM,
            Token::WHERE => Token::WHERE,
            Token::Wildcard => Token::Wildcard,
            Token::COUNT(names) => Token::COUNT(copy_names(names)),
            Token::AVERAGE(names) => Token::AVERAGE(copy_names(names)),
            Token::Attribute(name) => Token::Attribute(name.clone()),
            Token::Operator(op) => Token::Operator(*op),
            Token::Logical(l) => Token::Logical(*l),
            Token::Source(source) => Token::Source(source.clone()),
            Token::Value(value) => Token::Value(value.clone()),
        }
    }
}

/// The views of the tokens of `tokens`, in order.
pub open spec fn token_views(tokens: Seq<Token>) -> Seq<TokenView> {
    Seq::new(tokens.len(), |i: int| tokens[i]@)
}

} // verus!
