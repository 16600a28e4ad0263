//! The records that statements read, and the capability through which the
//! engine reads them.

use vstd::prelude::*;
use crate::query::error::{QueryError, QueryErrorView};
use crate::query::token::{DataSource, DataSourceView, RecordKind};
use crate::query::value::{lemma_list_view, views_of, Value, ValueView};
use crate::text::{chars_of, spells, texts_of};

verus! {

/// For how many seconds a loaded collection is taken as fresh.
pub const DATA_TTL: u64 = 1800;

/// What a result with a value holds, as mathematics sees it.
pub open spec fn value_outcome(r: Result<Value, QueryError>) -> Result<ValueView, QueryErrorView> {
    match r {
        Ok(v) => Ok(v@),
        Err(e) => Err(e@),
    }
}

/// Read access to the attributes of a record by name, and the list of the
/// names that its kind of record has.
pub trait KeyAccess {
    /// What the attribute `name` of this record is: its value, or the error
    /// for a name that the record's kind does not have.
    spec fn attribute(&self, name: Seq<char>) -> Result<ValueView, QueryErrorView>;

    /// The names of the attributes of this kind of record, in a fixed order.
    spec fn inventory() -> Seq<Seq<char>>;

    /// Reads the attribute `name`.
    fn access(&self, name: &str) -> (r: Result<Value, QueryError>)
        ensures
            value_outcome(r) == self.attribute(name@),
    ;

    /// The names of the attributes of this kind of record.
    fn attributes() -> (r: Vec<String>)
        ensures
            texts_of(r@) == Self::inventory(),
    ;
}

/// An artist of a track.
#[derive(Clone, Debug, PartialEq)]
pub struct Artist {
    pub id: String,
    pub name: String,
}

/// A track of a playlist or of a saved album.
#[derive(Clone, Debug, PartialEq)]
pub struct TrackData {
    pub id: String,
    pub name: String,
    /// The length of the track in milliseconds.
    pub duration: u64,
    pub album_name: String,
    pub album_id: String,
    /// The artists of the track, in the order in which the catalogue names
    /// them; no identifier occurs twice.
    pub artists: Vec<Artist>,
    pub added_at: String,
    /// A number from 0 to 100.
    pub popularity: u8,
}

/// Whether no two of the artists `artists` have the same identifier.
pub open spec fn distinct_artists(artists: Seq<Artist>) -> bool {
    forall|i: int, j: int|
        0 <= i < j < artists.len() ==> (#[trigger] artists[i]).id@ != (#[trigger] artists[j]).id@
}

impl TrackData {
    /// No identifier occurs twice among the artists of the track.
    pub open spec fn wf(&self) -> bool {
        distinct_artists(self.artists@)
    }
}

/// A playlist with its tracks.
#[derive(Clone, Debug, PartialEq)]
pub struct PlaylistData {
    pub id: String,
    pub name: String,
    pub tracks: Vec<TrackData>,
    /// The address from which the tracks are fetched.
    pub tracks_api: String,
    /// How many tracks the catalogue says the playlist has.
    pub track_count: u64,
}

/// A saved album with its tracks.
#[derive(Clone, Debug, PartialEq)]
pub struct AlbumData {
    pub id: String,
    pub name: String,
    pub tracks: Vec<TrackData>,
    /// How many tracks the catalogue says the album has.
    pub track_count: u64,
}

/// A count as a value: the count itself, or the greatest whole number that
/// a value holds where the count is greater.
pub open spec fn count_view(n: u64) -> ValueView {
    if n <= i64::MAX {
        ValueView::Int(n as i64)
    } else {
        ValueView::Int(i64::MAX)
    }
}

fn count_value(n: u64) -> (r: Value)
    ensures
        r@ == count_view(n),
{
    if n <= 0x7fff_ffff_ffff_ffff {
        Value::Int(n as i64)
    } else {
        Value::Int(i64::MAX)
    }
}

/// The names of the artists `artists`, as values.
pub open spec fn artist_values(artists: Seq<Artist>) -> Seq<ValueView> {
    Seq::new(artists.len(), |i: int| ValueView::Str(artists[i].name@))
}

/// The names of the artists of the tracks `tracks`, track by track, as
/// values. An artist of several tracks is named once for each.
pub open spec fn track_artists(tracks: Seq<TrackData>) -> Seq<ValueView>
    decreases tracks.len(),
{
    if tracks.len() == 0 {
        seq![]
    } else {
        track_artists(tracks.drop_last()) + artist_values(tracks.last().artists@)
    }
}

/// The sum of the popularity of the tracks `tracks`.
pub open spec fn popularity_sum(tracks: Seq<TrackData>) -> nat
    decreases tracks.len(),
{
    if tracks.len() == 0 {
        0
    } else {
        popularity_sum(tracks.drop_last()) + tracks.last().popularity as nat
    }
}

/// The mean popularity of the tracks `tracks`, rounded down; 0 where there
/// are none.
pub open spec fn mean_popularity(tracks: Seq<TrackData>) -> int {
    if tracks.len() == 0 {
        0
    } else {
        popularity_sum(tracks) as int / tracks.len() as int
    }
}

pub proof fn lemma_popularity_sum_bound(tracks: Seq<TrackData>)
    ensures
        popularity_sum(tracks) <= 255 * tracks.len(),
    decreases tracks.len(),
{
    if tracks.len() > 0 {
        lemma_popularity_sum_bound(tracks.drop_last());
    }
}

fn append_artist_values(out: &mut Vec<Value>, artists: &Vec<Artist>)
    ensures
        views_of(final(out)@) == views_of(old(out)@) + artist_values(artists@),
{
    let mut i: usize = 0;
    assert(views_of(out@) =~= views_of(old(out)@) + artist_values(artists@).take(0));
    while i < artists.len()
        invariant
            i <= artists.len(),
            views_of(out@) == views_of(old(out)@) + artist_values(artists@).take(i as int),
        decreases artists.len() - i,
    {
        let ghost before = views_of(out@);
        out.push(Value::Str(artists[i].name.clone()));
        proof {
            assert(views_of(out@) =~= before.push(ValueView::Str(artists@[i as int].name@)));
            assert(artist_values(artists@).take(i + 1) =~= artist_values(artists@).take(
                i as int,
            ).push(ValueView::Str(artists@[i as int].name@)));
            assert(views_of(out@) =~= views_of(old(out)@) + artist_values(artists@).take(i + 1));
        }
        i += 1;
    }
    assert(artist_values(artists@).take(artists.len() as int) =~= artist_values(artists@));
}

/// The names of the artists of the tracks `tracks` as a list.
pub fn artists_of(tracks: &Vec<TrackData>) -> (r: Value)
    ensures
        r@ == ValueView::List(track_artists(tracks@)),
{
    let mut out: Vec<Value> = Vec::new();
    let mut i: usize = 0;
    assert(views_of(out@) =~= track_artists(tracks@.take(0)));
    while i < tracks.len()
        invariant
            i <= tracks.len(),
            views_of(out@) == track_artists(tracks@.take(i as int)),
        decreases tracks.len() - i,
    {
        proof {
            assert(tracks@.take(i + 1).drop_last() =~= tracks@.take(i as int));
        }
        append_artist_values(&mut out, &tracks[i].artists);
        i += 1;
    }
    proof {
        assert(tracks@.take(tracks.len() as int) =~= tracks@);
        lemma_list_view(out);
    }
    Value::List(out)
}

/// The mean popularity of the tracks `tracks` as a value.
pub fn popularity_of(tracks: &Vec<TrackData>) -> (r: Value)
    ensures
        r@ == ValueView::Int(mean_popularity(tracks@) as i64),
        0 <= mean_popularity(tracks@) <= 255,
{
    let mut sum: u128 = 0;
    let mut i: usize = 0;
    while i < tracks.len()
        invariant
            i <= tracks.len(),
            sum == popularity_sum(tracks@.take(i as int)),
            sum <= 255 * i,
        decreases tracks.len() - i,
    {
        proof {
            assert(tracks@.take(i + 1).drop_last() =~= tracks@.take(i as int));
        }
        sum = sum + tracks[i].popularity as u128;
        i += 1;
    }
    proof {
        assert(tracks@.take(tracks.len() as int) =~= tracks@);
    }
    if tracks.len() == 0 {
        Value::Int(0)
    } else {
        let n = tracks.len() as u128;
        assert(sum / n <= 255) by (nonlinear_arith)
            requires
                sum <= 255 * n,
                n > 0,
        ;
        Value::Int((sum / n) as i64)
    }
}

fn unknown_attribute(record: RecordKind, name: &str) -> (r: QueryError)
    ensures
        r@ == (QueryErrorView::UnknownAttribute { record: record, name: name@ }),
{
    let chars = chars_of(name);
    QueryError::UnknownAttribute { record, name: crate::text::string_of(chars.as_slice()) }
}

fn name_of(word: &str) -> (r: String)
    ensures
        r@ == word@,
{
    let chars = chars_of(word);
    crate::text::string_of(chars.as_slice())
}

impl KeyAccess for TrackData {
    open spec fn attribute(&self, name: Seq<char>) -> Result<ValueView, QueryErrorView> {
        if name == "id"@ {
            Ok(ValueView::Str(self.id@))
        } else if name == "name"@ {
            Ok(ValueView::Str(self.name@))
        } else if name == "duration"@ {
            Ok(count_view(self.duration))
        } else if name == "album_name"@ {
            Ok(ValueView::Str(self.album_name@))
        } else if name == "album_id"@ {
            Ok(ValueView::Str(self.album_id@))
        } else if name == "artists"@ {
            Ok(ValueView::List(artist_values(self.artists@)))
        } else if name == "added_at"@ {
            Ok(ValueView::Str(self.added_at@))
        } else if name == "popularity"@ {
            Ok(ValueView::Int(self.popularity as i64))
        } else {
            Err(QueryErrorView::UnknownAttribute { record: RecordKind::Track, name: name })
        }
    }

    open spec fn inventory() -> Seq<Seq<char>> {
        seq![
            "id"@,
            "name"@,
            "duration"@,
            "album_name"@,
            "album_id"@,
            "artists"@,
            "added_at"@,
            "popularity"@,
        ]
    }

    fn access(&self, name: &str) -> (r: Result<Value, QueryError>) {
        let chars = chars_of(name);
        let word = chars.as_slice();
        if spells(word, "id") {
            Ok(Value::Str(self.id.clone()))
        } else if spells(word, "name") {
            Ok(Value::Str(self.name.clone()))
        } else if spells(word, "duration") {
            Ok(count_value(self.duration))
        } else if spells(word, "album_name") {
            Ok(Value::Str(self.album_name.clone()))
        } else if spells(word, "album_id") {
            Ok(Value::Str(self.album_id.clone()))
        } else if spells(word, "artists") {
            let mut out: Vec<Value> = Vec::new();
            append_artist_values(&mut out, &self.artists);
            proof {
                lemma_list_view(out);
                assert(views_of(out@) =~= artist_values(self.artists@));
            }
            Ok(Value::List(out))
        } else if spells(word, "added_at") {
            Ok(Value::Str(self.added_at.clone()))
        } else if spells(word, "popularity") {
            Ok(Value::Int(self.popularity as i64))
        } else {
            Err(unknown_attribute(RecordKind::Track, name))
        }
    }

    fn attributes() -> (r: Vec<String>) {
        let mut out: Vec<String> = Vec::new();
        out.push(name_of("id"));
        out.push(name_of("name"));
        out.push(name_of("duration"));
        out.push(name_of("album_name"));
        out.push(name_of("album_id"));
        out.push(name_of("artists"));
        out.push(name_of("added_at"));
        out.push(name_of("popularity"));
        assert(texts_of(out@) =~= Self::inventory());
        out
    }
}

impl KeyAccess for PlaylistData {
    open spec fn attribute(&self, name: Seq<char>) -> Result<ValueView, QueryErrorView> {
        if name == "id"@ {
            Ok(ValueView::Str(self.id@))
        } else if name == "name"@ {
            Ok(ValueView::Str(self.name@))
        } else if name == "track_count"@ {
            Ok(count_view(self.track_count))
        } else if name == "popularity"@ {
            Ok(ValueView::Int(mean_popularity(self.tracks@) as i64))
        } else if name == "artists"@ {
            Ok(ValueView::List(track_artists(self.tracks@)))
        } else {
            Err(QueryErrorView::UnknownAttribute { record: RecordKind::Playlist, name: name })
        }
    }

    open spec fn inventory() -> Seq<Seq<char>> {
        seq!["id"@, "name"@, "track_count"@, "popularity"@, "artists"@]
    }

    fn access(&self, name: &str) -> (r: Result<Value, QueryError>) {
        let chars = chars_of(name);
        let word = chars.as_slice();
        if spells(word, "id") {
            Ok(Value::Str(self.id.clone()))
        } else if spells(word, "name") {
            Ok(Value::Str(self.name.clone()))
        } else if spells(word, "track_count") {
            Ok(count_value(self.track_count))
        } else if spells(word, "popularity") {
            Ok(popularity_of(&self.tracks))
        } else if spells(word, "artists") {
            Ok(artists_of(&self.tracks))
        } else {
            Err(unknown_attribute(RecordKind::Playlist, name))
        }
    }

    fn attributes() -> (r: Vec<String>) {
        let mut out: Vec<String> = Vec::new();
        out.push(name_of("id"));
        out.push(name_of("name"));
        out.push(name_of("track_count"));
        out.push(name_of("popularity"));
        out.push(name_of("artists"));
        assert(texts_of(out@) =~= Self::inventory());
        out
    }
}

impl KeyAccess for AlbumData {
    open spec fn attribute(&self, name: Seq<char>) -> Result<ValueView, QueryErrorView> {
        if name == "id"@ {
            Ok(ValueView::Str(self.id@))
        } else if name == "name"@ {
            Ok(ValueView::Str(self.name@))
        } else if name == "track_count"@ {
            Ok(count_view(self.track_count))
        } else if name == "popularity"@ {
            Ok(ValueView::Int(mean_popularity(self.tracks@) as i64))
        } else if name == "artists"@ {
            Ok(ValueView::List(track_artists(self.tracks@)))
        } else {
            Err(QueryErrorView::UnknownAttribute { record: RecordKind::Album, name: name })
        }
    }

    open spec fn inventory() -> Seq<Seq<char>> {
        seq!["id"@, "name"@, "track_count"@, "popularity"@, "artists"@]
    }

    fn access(&self, name: &str) -> (r: Result<Value, QueryError>) {
        let chars = chars_of(name);
        let word = chars.as_slice();
        if spells(word, "id") {
            Ok(Value::Str(self.id.clone()))
        } else if spells(word, "name") {
            Ok(Value::Str(self.name.clone()))
        } else if spells(word, "track_count") {
            Ok(count_value(self.track_count))
        } else if spells(word, "popularity") {
            Ok(popularity_of(&self.tracks))
        } else if spells(word, "artists") {
            Ok(artists_of(&self.tracks))
        } else {
            Err(unknown_attribute(RecordKind::Album, name))
        }
    }

    fn attributes() -> (r: Vec<String>) {
        let mut out: Vec<String> = Vec::new();
        out.push(name_of("id"));
        out.push(name_of("name"));
        out.push(name_of("track_count"));
        out.push(name_of("popularity"));
        out.push(name_of("artists"));
        assert(texts_of(out@) =~= Self::inventory());
        out
    }
}

/// The names of the attributes of the records of kind `kind`.
pub open spec fn inventory_of(kind: RecordKind) -> Seq<Seq<char>> {
    match kind {
        RecordKind::Track => TrackData::inventory(),
        RecordKind::Playlist => PlaylistData::inventory(),
        RecordKind::Album => AlbumData::inventory(),
    }
}

/// The names of the attributes of the records of kind `kind`.
pub fn attributes_of(kind: RecordKind) -> (r: Vec<String>)
    ensures
        texts_of(r@) == inventory_of(kind),
{
    match kind {
        RecordKind::Track => TrackData::attributes(),
        RecordKind::Playlist => PlaylistData::attributes(),
        RecordKind::Album => AlbumData::attributes(),
    }
}

/// The collections that have been loaded, each with the time of its
/// loading in seconds since the epoch.
#[derive(Clone, Debug, PartialEq)]
pub struct Data {
    /// When the playlists were loaded.
    pub playlist_data_ct: u64,
    pub playlist_data: Option<Vec<PlaylistData>>,
    /// When the saved albums were loaded.
    pub saved_album_data_ct: u64,
    pub saved_album_data: Option<Vec<AlbumData>>,
}

impl Default for Data {
    fn default() -> (r: Self)
        ensures
            r.playlist_data is None,
            r.saved_album_data is None,
            r.playlist_data_ct == 0,
            r.saved_album_data_ct == 0,
    {
        Data {
            playlist_data_ct: 0,
            playlist_data: None,
            saved_album_data_ct: 0,
            saved_album_data: None,
        }
    }
}

/// Whether a collection loaded at `loaded_at`, if it was loaded at all, has
/// to be loaded again at the time `now`: it was never loaded, or more than
/// `DATA_TTL` seconds have passed since.
pub open spec fn stale(present: bool, loaded_at: u64, now: u64) -> bool {
    !present || loaded_at + DATA_TTL < now
}

impl DataSourceView {
    /// Whether the source reads the playlists; the others read the saved
    /// albums.
    pub open spec fn reads_playlists(self) -> bool {
        self is Playlist || self is Playlists
    }
}

impl Data {
    /// Whether the collection behind `source` has to be loaded at the time
    /// `now`.
    pub fn needs_load(&self, source: &DataSource, now: u64) -> (r: bool)
        ensures
            r == (if source@.reads_playlists() {
                stale(self.playlist_data is Some, self.playlist_data_ct, now)
            } else {
                stale(self.saved_album_data is Some, self.saved_album_data_ct, now)
            }),
    {
        match source {
            DataSource::Playlist(_) | DataSource::Playlists => {
                self.playlist_data.is_none() || (now > self.playlist_data_ct && now
                    - self.playlist_data_ct > DATA_TTL)
            },
            _ => {
                self.saved_album_data.is_none() || (now > self.saved_album_data_ct && now
                    - self.saved_album_data_ct > DATA_TTL)
            },
        }
    }

    /// Keeps the playlists `rows`, loaded at the time `now`.
    pub fn store_playlists(&mut self, rows: Vec<PlaylistData>, now: u64)
        ensures
            final(self).playlist_data == Some(rows),
            final(self).playlist_data_ct == now,
            final(self).saved_album_data == old(self).saved_album_data,
            final(self).saved_album_data_ct == old(self).saved_album_data_ct,
    {
        self.playlist_data = Some(rows);
        self.playlist_data_ct = now;
    }

    /// Keeps the saved albums `rows`, loaded at the time `now`.
    pub fn store_saved_albums(&mut self, rows: Vec<AlbumData>, now: u64)
        ensures
            final(self).saved_album_data == Some(rows),
            final(self).saved_album_data_ct == now,
            final(self).playlist_data == old(self).playlist_data,
            final(self).playlist_data_ct == old(self).playlist_data_ct,
    {
        self.saved_album_data = Some(rows);
        self.saved_album_data_ct = now;
    }
}

} // verus!
