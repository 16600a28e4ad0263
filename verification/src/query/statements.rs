//! The statement that the parser makes and the executor runs.

use vstd::prelude::*;
use crate::query::condition::{Condition, Leaf};
use crate::query::data::{AlbumData, Data, PlaylistData};
use crate::query::error::{QueryError, QueryErrorView};
use crate::query::execute::{execute, execute_spec, output_outcome, OutputView, QueryOutput};
use crate::query::token::{DataSource, DataSourceView, Logical};
use crate::text::{chars_equal, chars_of};

verus! {

/// How the executor turns the rows that pass the conditions into a result.
#[derive(Clone, Copy, Debug, PartialEq, Eq, Structural)]
pub enum Aggregation {
    /// The number of the rows.
    Count,
    /// The mean of an attribute over the rows.
    Average,
    /// No aggregation: the rows themselves.
    Plain,
}

/// A `SELECT` statement.
#[derive(Debug, PartialEq)]
pub struct SelectStatement {
    pub aggregation: Aggregation,
    /// The names of the attributes that are selected or aggregated.
    pub targets: Vec<String>,
    pub source: DataSource,
    pub conditions: Option<Condition>,
}

/// The comparisons and the connectives of a condition chain.
pub struct ChainView {
    pub leaves: Seq<Leaf>,
    pub connectives: Seq<Logical>,
}

pub struct StatementView {
    pub aggregation: Aggregation,
    pub targets: Seq<Seq<char>>,
    pub source: DataSourceView,
    pub conditions: Option<ChainView>,
}

/// What a chain of conditions holds, as mathematics sees it.
pub open spec fn chain_view(conditions: Option<Condition>) -> Option<ChainView> {
    match conditions {
        Some(c) => Some(ChainView { leaves: c.leaves(), connectives: c.connectives() }),
        None => None,
    }
}

impl View for SelectStatement {
    type V = StatementView;

    open spec fn view(&self) -> StatementView {
        StatementView {
            aggregation: self.aggregation,
            targets: crate::text::texts_of(self.targets@),
            source: self.source@,
            conditions: chain_view(self.conditions),
        }
    }
}

impl Clone for SelectStatement {
    fn clone(&self) -> (r: Self)
        ensures
            r@ == self@,
    {
        let conditions = match &self.conditions {
            Some(c) => Some(c.clone()),
            None => None,
        };
        SelectStatement {
            aggregation: self.aggregation,
            targets: crate::text::copy_names(&self.targets),
            source: self.source.clone(),
            conditions,
        }
    }
}

/// The position of the first playlist of `rows` with the name `name`; the
/// number of the rows where none has it.
pub open spec fn playlist_position(rows: Seq<PlaylistData>, name: Seq<char>) -> int
    decreases rows.len(),
{
    if rows.len() == 0 || rows[0].name@ == name {
        0
    } else {
        1 + playlist_position(rows.drop_first(), name)
    }
}

/// The position of the first saved album of `rows` with the name `name`;
/// the number of the rows where none has it.
pub open spec fn album_position(rows: Seq<AlbumData>, name: Seq<char>) -> int
    decreases rows.len(),
{
    if rows.len() == 0 || rows[0].name@ == name {
        0
    } else {
        1 + album_position(rows.drop_first(), name)
    }
}

pub proof fn lemma_playlist_position_is(rows: Seq<PlaylistData>, name: Seq<char>, n: int)
    requires
        0 <= n <= rows.len(),
        forall|j: int| 0 <= j < n ==> (#[trigger] rows[j]).name@ != name,
        n < rows.len() ==> rows[n].name@ == name,
    ensures
        playlist_position(rows, name) == n,
    decreases rows.len(),
{
    if n > 0 {
        let t = rows.drop_first();
        assert(rows[0].name@ != name);
        assert forall|j: int| 0 <= j < n - 1 implies (#[trigger] t[j]).name@ != name by {
            assert(t[j] == rows[j + 1]);
        }
        if n - 1 < t.len() {
            assert(t[n - 1] == rows[n]);
        }
        lemma_playlist_position_is(t, name, n - 1);
    }
}

pub proof fn lemma_album_position_is(rows: Seq<AlbumData>, name: Seq<char>, n: int)
    requires
        0 <= n <= rows.len(),
        forall|j: int| 0 <= j < n ==> (#[trigger] rows[j]).name@ != name,
        n < rows.len() ==> rows[n].name@ == name,
    ensures
        album_position(rows, name) == n,
    decreases rows.len(),
{
    if n > 0 {
        let t = rows.drop_first();
        assert(rows[0].name@ != name);
        assert forall|j: int| 0 <= j < n - 1 implies (#[trigger] t[j]).name@ != name by {
            assert(t[j] == rows[j + 1]);
        }
        if n - 1 < t.len() {
            assert(t[n - 1] == rows[n]);
        }
        lemma_album_position_is(t, name, n - 1);
    }
}

/// What a statement yields over the loaded collections `data`.
///
/// The source names the rows: all playlists, all saved albums, or the
/// tracks of the first playlist or saved album of the given name. A
/// collection that has not been loaded and a name that no row has are
/// errors. The rows then go through the executor.
pub open spec fn run_spec(statement: StatementView, data: Data) -> Result<
    OutputView,
    QueryErrorView,
> {
    match statement.source {
        DataSourceView::Playlists => match data.playlist_data {
            None => Err(QueryErrorView::NotFetched(statement.source)),
            Some(rows) => execute_spec(
                statement.aggregation,
                statement.targets,
                statement.conditions,
                rows@,
            ),
        },
        DataSourceView::Playlist(name) => match data.playlist_data {
            None => Err(QueryErrorView::NotFetched(statement.source)),
            Some(rows) => {
                let k = playlist_position(rows@, name);
                if 0 <= k < rows@.len() {
                    execute_spec(
                        statement.aggregation,
                        statement.targets,
                        statement.conditions,
                        rows@[k].tracks@,
                    )
                } else {
                    Err(QueryErrorView::NotFound(statement.source))
                }
            },
        },
        DataSourceView::SavedAlbums => match data.saved_album_data {
            None => Err(QueryErrorView::NotFetched(statement.source)),
            Some(rows) => execute_spec(
                statement.aggregation,
                statement.targets,
                statement.conditions,
                rows@,
            ),
        },
        DataSourceView::SavedAlbum(name) => match data.saved_album_data {
            None => Err(QueryErrorView::NotFetched(statement.source)),
            Some(rows) => {
                let k = album_position(rows@, name);
                if 0 <= k < rows@.len() {
                    execute_spec(
                        statement.aggregation,
                        statement.targets,
                        statement.conditions,
                        rows@[k].tracks@,
                    )
                } else {
                    Err(QueryErrorView::NotFound(statement.source))
                }
            },
        },
    }
}

fn find_playlist(rows: &Vec<PlaylistData>, name: &String) -> (r: usize)
    ensures
        r == playlist_position(rows@, name@),
        r <= rows.len(),
{
    let wanted = chars_of(name.as_str());
    let mut i: usize = 0;
    while i < rows.len()
        invariant
            i <= rows.len(),
            wanted@ == name@,
            forall|j: int| 0 <= j < i ==> (#[trigger] rows@[j]).name@ != name@,
        decreases rows.len() - i,
    {
        let have = chars_of(rows[i].name.as_str());
        if chars_equal(have.as_slice(), wanted.as_slice()) {
            proof {
                lemma_playlist_position_is(rows@, name@, i as int);
            }
            return i;
        }
        i += 1;
    }
    proof {
        lemma_playlist_position_is(rows@, name@, i as int);
    }
    i
}

fn find_album(rows: &Vec<AlbumData>, name: &String) -> (r: usize)
    ensures
        r == album_position(rows@, name@),
        r <= rows.len(),
{
    let wanted = chars_of(name.as_str());
    let mut i: usize = 0;
    while i < rows.len()
        invariant
            i <= rows.len(),
            wanted@ == name@,
            forall|j: int| 0 <= j < i ==> (#[trigger] rows@[j]).name@ != name@,
        decreases rows.len() - i,
    {
        let have = chars_of(rows[i].name.as_str());
        if chars_equal(have.as_slice(), wanted.as_slice()) {
            proof {
                lemma_album_position_is(rows@, name@, i as int);
            }
            return i;
        }
        i += 1;
    }
    proof {
        lemma_album_position_is(rows@, name@, i as int);
    }
    i
}

impl SelectStatement {
    /// Runs the statement over the loaded collections.
    pub fn run(&self, data: &Data) -> (r: Result<QueryOutput, QueryError>)
        ensures
            output_outcome(r) == run_spec(self@, *data),
    {
        match &self.source {
            DataSource::Playlists => match &data.playlist_data {
                None => Err(QueryError::NotFetched(self.source.clone())),
                Some(rows) => execute(self, rows),
            },
            DataSource::Playlist(name) => match &data.playlist_data {
                None => Err(QueryError::NotFetched(self.source.clone())),
                Some(rows) => {
                    let k = find_playlist(rows, name);
                    if k < rows.len() {
                        execute(self, &rows[k].tracks)
                    } else {
                        Err(QueryError::NotFound(self.source.clone()))
                    }
                },
            },
            DataSource::SavedAlbums => match &data.saved_album_data {
                None => Err(QueryError::NotFetched(self.source.clone())),
                Some(rows) => execute(self, rows),
            },
            DataSource::SavedAlbum(name) => match &data.saved_album_data {
                None => Err(QueryError::NotFetched(self.source.clone())),
                Some(rows) => {
                    let k = find_album(rows, name);
                    if k < rows.len() {
                        execute(self, &rows[k].tracks)
                    } else {
                        Err(QueryError::NotFound(self.source.clone()))
                    }
                },
            },
        }
    }
}

} // verus!
