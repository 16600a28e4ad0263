//! Reading the records out of the responses of the catalogue service.

use vstd::prelude::*;
use vstd::string::*;
use crate::query::data::{distinct_artists, AlbumData, Artist, PlaylistData, TrackData};
use crate::query::json::{field_spec, json_views, lemma_array_view, text_spec, Json, JsonView};
use crate::text::{chars_equal, chars_of};

verus! {

/// A member of a response that the engine reads.
#[derive(Clone, Copy, Debug, PartialEq, Eq, Structural)]
pub enum Field {
    Id,
    Name,
    Tracks,
    Href,
    Total,
    AddedAt,
    Track,
    Duration,
    Popularity,
    Album,
    AlbumId,
    AlbumName,
    Artists,
    ArtistId,
    ArtistName,
}

/// Why a response holds no records.
#[derive(Clone, Copy, Debug, PartialEq, Eq, Structural)]
pub enum ResponseError {
    /// The response has no array `items`.
    Items,
    /// An item is no object.
    Item,
    /// A member is missing or of an unexpected type.
    Unexpected(Field),
    /// A member is a number, but no whole number from 0 on.
    NotUnsigned(Field),
}

impl Field {
    /// The name of the member in a response, with the member that it stands
    /// in where it is not a member of an item or of its track.
    pub open spec fn name_spec(self) -> Seq<char> {
        match self {
            Field::Id => "id"@,
            Field::Name => "name"@,
            Field::Tracks => "tracks"@,
            Field::Href => "href' in field 'tracks"@,
            Field::Total => "total' in field 'tracks"@,
            Field::AddedAt => "added_at"@,
            Field::Track => "track"@,
            Field::Duration => "duration_ms"@,
            Field::Popularity => "popularity"@,
            Field::Album => "album"@,
            Field::AlbumId => "id' in field 'album"@,
            Field::AlbumName => "name' in field 'album"@,
            Field::Artists => "artists"@,
            Field::ArtistId => "id' in field 'artists"@,
            Field::ArtistName => "name' in field 'artists"@,
        }
    }

    fn name(self) -> (r: &'static str)
        ensures
            r@ == self.name_spec(),
    {
        match self {
            Field::Id => "id",
            Field::Name => "name",
            Field::Tracks => "tracks",
            Field::Href => "href' in field 'tracks",
            Field::Total => "total' in field 'tracks",
            Field::AddedAt => "added_at",
            Field::Track => "track",
            Field::Duration => "duration_ms",
            Field::Popularity => "popularity",
            Field::Album => "album",
            Field::AlbumId => "id' in field 'album",
            Field::AlbumName => "name' in field 'album",
            Field::Artists => "artists",
            Field::ArtistId => "id' in field 'artists",
            Field::ArtistName => "name' in field 'artists",
        }
    }
}

impl ResponseError {
    /// The message of the error.
    pub open spec fn message_spec(self) -> Seq<char> {
        match self {
            ResponseError::Items => "'items' field in response data is an unexpected type."@,
            ResponseError::Item => "Value in field 'items' in response data is an unexpected type."@,
            ResponseError::Unexpected(field) => "Value '"@ + field.name_spec()
                + "' in field 'items' in response data is an unexpected type."@,
            ResponseError::NotUnsigned(field) => "Value '"@ + field.name_spec()
                + "' in field 'items' in response data is not a positive integer."@,
        }
    }

    /// The message of the error.
    pub fn message(&self) -> (r: String)
        ensures
            r@ == self.message_spec(),
    {
        match self {
            ResponseError::Items => String::from_str(
                "'items' field in response data is an unexpected type.",
            ),
            ResponseError::Item => String::from_str(
                "Value in field 'items' in response data is an unexpected type.",
            ),
            ResponseError::Unexpected(field) => {
                let mut out = String::from_str("Value '");
                out.append(field.name());
                out.append("' in field 'items' in response data is an unexpected type.");
                out
            },
            ResponseError::NotUnsigned(field) => {
                let mut out = String::from_str("Value '");
                out.append(field.name());
                out.append("' in field 'items' in response data is not a positive integer.");
                out
            },
        }
    }
}

/// The text of the member `key`, or the error that names `field`.
pub open spec fn need_text(value: JsonView, key: Seq<char>, field: Field) -> Result<
    Seq<char>,
    ResponseError,
> {
    match text_spec(value, key) {
        Some(s) => Ok(s),
        None => Err(ResponseError::Unexpected(field)),
    }
}

/// The member `key` where it is an object, or the error that names
/// `field`.
pub open spec fn need_object(value: JsonView, key: Seq<char>, field: Field) -> Result<
    JsonView,
    ResponseError,
> {
    match field_spec(value, key) {
        Some(JsonView::Object(members)) => Ok(JsonView::Object(members)),
        _ => Err(ResponseError::Unexpected(field)),
    }
}

/// The member `key` where it is a whole number from 0 on, or the error
/// that names `field`.
pub open spec fn need_number(value: JsonView, key: Seq<char>, field: Field) -> Result<
    u64,
    ResponseError,
> {
    match field_spec(value, key) {
        Some(JsonView::Number(Some(n))) => Ok(n),
        Some(JsonView::Number(None)) => Err(ResponseError::NotUnsigned(field)),
        _ => Err(ResponseError::Unexpected(field)),
    }
}

/// The items of a response: its member `items` where that is an array.
pub open spec fn items_spec(document: JsonView) -> Option<Seq<JsonView>> {
    match field_spec(document, "items"@) {
        Some(JsonView::Array(items)) => Some(items),
        _ => None,
    }
}

fn text_of(value: &Json, key: &str, field: Field) -> (r: Result<String, ResponseError>)
    ensures
        match r {
            Ok(s) => need_text(value@, key@, field) == Ok::<Seq<char>, ResponseError>(s@),
            Err(e) => need_text(value@, key@, field) == Err::<Seq<char>, ResponseError>(e),
        },
{
    match value.text(key) {
        Some(s) => Ok(s),
        None => Err(ResponseError::Unexpected(field)),
    }
}

fn object_of<'a>(value: &'a Json, key: &str, field: Field) -> (r: Result<&'a Json, ResponseError>)
    ensures
        match r {
            Ok(v) => need_object(value@, key@, field) == Ok::<JsonView, ResponseError>(v@),
            Err(e) => need_object(value@, key@, field) == Err::<JsonView, ResponseError>(e),
        },
{
    match value.field(key) {
        Some(v) => match v {
            Json::Object(members) => {
                proof {
                    crate::query::json::lemma_object_view(*members);
                }
                Ok(v)
            },
            _ => Err(ResponseError::Unexpected(field)),
        },
        None => Err(ResponseError::Unexpected(field)),
    }
}

fn number_of(value: &Json, key: &str, field: Field) -> (r: Result<u64, ResponseError>)
    ensures
        r == need_number(value@, key@, field),
{
    match value.field(key) {
        Some(Json::Number(Some(n))) => Ok(*n),
        Some(Json::Number(None)) => Err(ResponseError::NotUnsigned(field)),
        _ => Err(ResponseError::Unexpected(field)),
    }
}

fn items_of(document: &Json) -> (r: Option<&Vec<Json>>)
    ensures
        match r {
            Some(items) => items_spec(document@) == Some(json_views(items@)),
            None => items_spec(document@) is None,
        },
{
    match document.field("items") {
        Some(Json::Array(items)) => {
            proof {
                lemma_array_view(*items);
            }
            Some(items)
        },
        _ => None,
    }
}

/// What the engine reads of a playlist.
pub struct PlaylistFields {
    pub id: Seq<char>,
    pub name: Seq<char>,
    pub href: Seq<char>,
    pub total: u64,
}

/// What an item of a response with playlists holds: it is an object with
/// the texts `id` and `name` and the object `tracks`, which has the text
/// `href` and the number `total`. The first of these that is missing is the
/// error.
pub open spec fn playlist_spec(item: JsonView) -> Result<PlaylistFields, ResponseError> {
    if item !is Object {
        Err(ResponseError::Item)
    } else {
        match need_text(item, "id"@, Field::Id) {
            Err(e) => Err(e),
            Ok(id) => match need_text(item, "name"@, Field::Name) {
                Err(e) => Err(e),
                Ok(name) => match need_object(item, "tracks"@, Field::Tracks) {
                    Err(e) => Err(e),
                    Ok(tracks) => match need_text(tracks, "href"@, Field::Href) {
                        Err(e) => Err(e),
                        Ok(href) => match need_number(tracks, "total"@, Field::Total) {
                            Err(e) => Err(e),
                            Ok(total) => Ok(
                                PlaylistFields { id: id, name: name, href: href, total: total },
                            ),
                        },
                    },
                },
            },
        }
    }
}

/// Whether a playlist holds what was read of it, and no tracks yet.
pub open spec fn playlist_holds(row: PlaylistData, fields: PlaylistFields) -> bool {
    &&& fields == (PlaylistFields {
        id: row.id@,
        name: row.name@,
        href: row.tracks_api@,
        total: row.track_count,
    })
    &&& row.tracks@.len() == 0
}

fn read_playlist(item: &Json) -> (r: Result<PlaylistData, ResponseError>)
    ensures
        match r {
            Ok(row) => playlist_spec(item@) is Ok && playlist_holds(row, playlist_spec(item@)->Ok_0),
            Err(e) => playlist_spec(item@) == Err::<PlaylistFields, ResponseError>(e),
        },
{
    match item {
        Json::Object(members) => {
            proof {
                crate::query::json::lemma_object_view(*members);
            }
        },
        _ => {
            return Err(ResponseError::Item);
        },
    }
    let id = text_of(item, "id", Field::Id)?;
    let name = text_of(item, "name", Field::Name)?;
    let tracks = object_of(item, "tracks", Field::Tracks)?;
    let href = text_of(tracks, "href", Field::Href)?;
    let total = number_of(tracks, "total", Field::Total)?;
    Ok(PlaylistData { id, name, tracks: Vec::new(), tracks_api: href, track_count: total })
}

/// What the first `n` items of a response with playlists hold, or the
/// first error among them.
pub open spec fn playlists_spec(items: Seq<JsonView>, n: nat) -> Result<
    Seq<PlaylistFields>,
    ResponseError,
>
    decreases n,
{
    if n == 0 || n > items.len() {
        Ok(seq![])
    } else {
        match playlists_spec(items, (n - 1) as nat) {
            Err(e) => Err(e),
            Ok(rows) => match playlist_spec(items[n - 1]) {
                Err(e) => Err(e),
                Ok(fields) => Ok(rows.push(fields)),
            },
        }
    }
}

/// What the playlists `rows` hold, as mathematics sees it.
pub open spec fn playlist_fields(rows: Seq<PlaylistData>) -> Seq<PlaylistFields> {
    Seq::new(
        rows.len(),
        |i: int|
            PlaylistFields {
                id: rows[i].id@,
                name: rows[i].name@,
                href: rows[i].tracks_api@,
                total: rows[i].track_count,
            },
    )
}

/// An artist as the engine reads it: an identifier and a name.
pub open spec fn artist_view(artist: Artist) -> (Seq<char>, Seq<char>) {
    (artist.id@, artist.name@)
}

/// The artists of `artists`, as mathematics sees them.
pub open spec fn artist_views(artists: Seq<Artist>) -> Seq<(Seq<char>, Seq<char>)> {
    Seq::new(artists.len(), |i: int| artist_view(artists[i]))
}

/// The position of the first artist of `list` with the identifier `id`;
/// the length of the list where there is none.
pub open spec fn artist_position(list: Seq<(Seq<char>, Seq<char>)>, id: Seq<char>) -> int
    decreases list.len(),
{
    if list.len() == 0 || list[0].0 == id {
        0
    } else {
        1 + artist_position(list.drop_first(), id)
    }
}

/// The list `list` with the artist `id` named `name`: the name replaces
/// the one that an artist of that identifier has, or the artist is added at
/// the end.
pub open spec fn with_artist(
    list: Seq<(Seq<char>, Seq<char>)>,
    id: Seq<char>,
    name: Seq<char>,
) -> Seq<(Seq<char>, Seq<char>)> {
    let at = artist_position(list, id);
    if 0 <= at < list.len() {
        list.update(at, (id, name))
    } else {
        list.push((id, name))
    }
}

/// The artists that the first `n` entries of the array `entries` name, or
/// the error of the first entry that lacks the text `id` or the text
/// `name`.
pub open spec fn artists_spec(entries: Seq<JsonView>, n: nat) -> Result<
    Seq<(Seq<char>, Seq<char>)>,
    ResponseError,
>
    decreases n,
{
    if n == 0 || n > entries.len() {
        Ok(seq![])
    } else {
        match artists_spec(entries, (n - 1) as nat) {
            Err(e) => Err(e),
            Ok(list) => match need_text(entries[n - 1], "id"@, Field::ArtistId) {
                Err(e) => Err(e),
                Ok(id) => match need_text(entries[n - 1], "name"@, Field::ArtistName) {
                    Err(e) => Err(e),
                    Ok(name) => Ok(with_artist(list, id, name)),
                },
            },
        }
    }
}

/// Whether no two artists of `list` have the same identifier.
pub open spec fn distinct_ids(list: Seq<(Seq<char>, Seq<char>)>) -> bool {
    forall|i: int, j: int| 0 <= i < j < list.len() ==> (#[trigger] list[i]).0 != (#[trigger] list[j]).0
}

/// Where the first artist with an identifier stands, and that none stands
/// before it.
pub proof fn lemma_artist_position(list: Seq<(Seq<char>, Seq<char>)>, id: Seq<char>)
    ensures
        0 <= artist_position(list, id) <= list.len(),
        forall|j: int| 0 <= j < artist_position(list, id) ==> (#[trigger] list[j]).0 != id,
        artist_position(list, id) < list.len() ==> list[artist_position(list, id)].0 == id,
    decreases list.len(),
{
    if list.len() == 0 || list[0].0 == id {
    } else {
        let t = list.drop_first();
        lemma_artist_position(t, id);
        assert forall|j: int| 0 <= j < artist_position(list, id) implies (#[trigger] list[j]).0
            != id by {
            if j > 0 {
                assert(list[j] == t[j - 1]);
            }
        }
        if artist_position(list, id) < list.len() {
            assert(list[artist_position(list, id)] == t[artist_position(t, id)]);
        }
    }
}

/// Naming an artist keeps the identifiers of a list apart.
pub proof fn lemma_with_artist_distinct(
    list: Seq<(Seq<char>, Seq<char>)>,
    id: Seq<char>,
    name: Seq<char>,
)
    requires
        distinct_ids(list),
    ensures
        distinct_ids(with_artist(list, id, name)),
{
    lemma_artist_position(list, id);
    let at = artist_position(list, id);
    let after = with_artist(list, id, name);
    assert forall|i: int, j: int| 0 <= i < j < after.len() implies (#[trigger] after[i]).0 != (
    #[trigger] after[j]).0 by {
        if at < list.len() {
            assert(after[i].0 == list[i].0);
            assert(after[j].0 == list[j].0);
        } else {
            if j < list.len() {
                assert(after[i] == list[i]);
                assert(after[j] == list[j]);
            } else {
                assert(after[i] == list[i]);
                assert(after[j].0 == id);
            }
        }
    }
}

/// No identifier occurs twice among the artists that are read.
pub proof fn lemma_artists_distinct(entries: Seq<JsonView>, n: nat)
    requires
        artists_spec(entries, n) is Ok,
    ensures
        distinct_ids(artists_spec(entries, n)->Ok_0),
    decreases n,
{
    if n == 0 || n > entries.len() {
    } else {
        lemma_artists_distinct(entries, (n - 1) as nat);
        let list = artists_spec(entries, (n - 1) as nat)->Ok_0;
        let id = need_text(entries[n - 1], "id"@, Field::ArtistId)->Ok_0;
        let name = need_text(entries[n - 1], "name"@, Field::ArtistName)->Ok_0;
        lemma_with_artist_distinct(list, id, name);
    }
}

/// Artists whose identifiers are apart as mathematics sees them are apart.
pub proof fn lemma_distinct_artists(artists: Seq<Artist>)
    requires
        distinct_ids(artist_views(artists)),
    ensures
        distinct_artists(artists),
{
    let views = artist_views(artists);
    assert forall|i: int, j: int| 0 <= i < j < artists.len() implies (#[trigger] artists[i]).id@ != (
    #[trigger] artists[j]).id@ by {
        assert(views[i].0 == artists[i].id@);
        assert(views[j].0 == artists[j].id@);
    }
}

pub proof fn lemma_artist_position_is(list: Seq<(Seq<char>, Seq<char>)>, id: Seq<char>, n: int)
    requires
        0 <= n <= list.len(),
        forall|j: int| 0 <= j < n ==> (#[trigger] list[j]).0 != id,
        n < list.len() ==> list[n].0 == id,
    ensures
        artist_position(list, id) == n,
    decreases list.len(),
{
    if n > 0 {
        let t = list.drop_first();
        assert(list[0].0 != id);
        assert forall|j: int| 0 <= j < n - 1 implies (#[trigger] t[j]).0 != id by {
            assert(t[j] == list[j + 1]);
        }
        if n - 1 < t.len() {
            assert(t[n - 1] == list[n]);
        }
        lemma_artist_position_is(t, id, n - 1);
    }
}

fn put_artist(list: &mut Vec<Artist>, id: String, name: String)
    ensures
        artist_views(final(list)@) == with_artist(artist_views(old(list)@), id@, name@),
{
    let wanted = chars_of(id.as_str());
    let ghost views = artist_views(list@);
    let mut i: usize = 0;
    while i < list.len()
        invariant
            i <= list.len(),
            wanted@ == id@,
            list@ == old(list)@,
            views == artist_views(list@),
            forall|j: int| 0 <= j < i ==> (#[trigger] views[j]).0 != id@,
        decreases list.len() - i,
    {
        let have = chars_of(list[i].id.as_str());
        assert(views[i as int] == artist_view(list@[i as int]));
        if chars_equal(have.as_slice(), wanted.as_slice()) {
            proof {
                lemma_artist_position_is(views, id@, i as int);
            }
            list.set(i, Artist { id, name });
            assert(artist_views(list@) =~= views.update(i as int, (id@, name@)));
            return ;
        }
        i += 1;
    }
    proof {
        lemma_artist_position_is(views, id@, i as int);
    }
    list.push(Artist { id, name });
    assert(artist_views(list@) =~= views.push((id@, name@)));
}

fn read_artists(entries: &Vec<Json>) -> (r: Result<Vec<Artist>, ResponseError>)
    ensures
        match r {
            Ok(list) => artists_spec(json_views(entries@), entries@.len()) == Ok::<
                Seq<(Seq<char>, Seq<char>)>,
                ResponseError,
            >(artist_views(list@)) && distinct_artists(list@),
            Err(e) => artists_spec(json_views(entries@), entries@.len()) == Err::<
                Seq<(Seq<char>, Seq<char>)>,
                ResponseError,
            >(e),
        },
{
    let mut list: Vec<Artist> = Vec::new();
    let mut i: usize = 0;
    let ghost all = json_views(entries@);
    assert(artist_views(list@) =~= Seq::<(Seq<char>, Seq<char>)>::empty());
    while i < entries.len()
        invariant
            i <= entries.len(),
            all == json_views(entries@),
            artists_spec(all, i as nat) == Ok::<Seq<(Seq<char>, Seq<char>)>, ResponseError>(
                artist_views(list@),
            ),
        decreases entries.len() - i,
    {
        assert(all[i as int] == entries@[i as int]@);
        let id = match text_of(&entries[i], "id", Field::ArtistId) {
            Ok(s) => s,
            Err(e) => {
                proof {
                    lemma_artists_fail(all, (i + 1) as nat, entries@.len());
                }
                return Err(e);
            },
        };
        let name = match text_of(&entries[i], "name", Field::ArtistName) {
            Ok(s) => s,
            Err(e) => {
                proof {
                    lemma_artists_fail(all, (i + 1) as nat, entries@.len());
                }
                return Err(e);
            },
        };
        put_artist(&mut list, id, name);
        i += 1;
    }
    proof {
        lemma_artists_distinct(all, entries@.len());
        lemma_distinct_artists(list@);
    }
    Ok(list)
}

/// An error among the first entries is the error of every longer prefix.
pub proof fn lemma_artists_fail(entries: Seq<JsonView>, n: nat, m: nat)
    requires
        n <= m <= entries.len(),
        artists_spec(entries, n) is Err,
    ensures
        artists_spec(entries, m) == artists_spec(entries, n),
    decreases m,
{
    if n < m {
        lemma_artists_fail(entries, n, (m - 1) as nat);
    }
}

/// What the engine reads of a track.
pub struct TrackFields {
    pub added_at: Seq<char>,
    pub id: Seq<char>,
    pub name: Seq<char>,
    pub duration: u64,
    pub popularity: u8,
    pub album_id: Seq<char>,
    pub album_name: Seq<char>,
    pub artists: Seq<(Seq<char>, Seq<char>)>,
}

/// The entries of the member `artists` of a track, where that is an
/// array.
pub open spec fn artist_entries(track: JsonView) -> Option<Seq<JsonView>> {
    match field_spec(track, "artists"@) {
        Some(JsonView::Array(entries)) => Some(entries),
        _ => None,
    }
}

/// What the album and the artists of a track hold.
pub open spec fn track_tail_spec(
    track: JsonView,
    added_at: Seq<char>,
    id: Seq<char>,
    name: Seq<char>,
    duration: u64,
    popularity: u64,
) -> Result<TrackFields, ResponseError> {
    match need_object(track, "album"@, Field::Album) {
        Err(e) => Err(e),
        Ok(album) => match need_text(album, "id"@, Field::AlbumId) {
            Err(e) => Err(e),
            Ok(album_id) => match need_text(album, "name"@, Field::AlbumName) {
                Err(e) => Err(e),
                Ok(album_name) => match artist_entries(track) {
                    None => Err(ResponseError::Unexpected(Field::Artists)),
                    Some(entries) => match artists_spec(entries, entries.len()) {
                        Err(e) => Err(e),
                        Ok(artists) => Ok(
                            TrackFields {
                                added_at: added_at,
                                id: id,
                                name: name,
                                duration: duration,
                                popularity: (popularity % 256) as u8,
                                album_id: album_id,
                                album_name: album_name,
                                artists: artists,
                            },
                        ),
                    },
                },
            },
        },
    }
}

/// What an item of a response with tracks holds: it is an object with the
/// text `added_at` and the object `track`, which has the texts `id` and
/// `name`, the numbers `duration_ms` and `popularity`, the object `album`
/// with the texts `id` and `name`, and the array `artists`. The first of
/// these that is missing is the error. Of the popularity the lowest eight
/// bits are kept.
pub open spec fn track_spec(item: JsonView) -> Result<TrackFields, ResponseError> {
    if item !is Object {
        Err(ResponseError::Item)
    } else {
        match need_text(item, "added_at"@, Field::AddedAt) {
            Err(e) => Err(e),
            Ok(added_at) => match need_object(item, "track"@, Field::Track) {
                Err(e) => Err(e),
                Ok(track) => match need_text(track, "id"@, Field::Id) {
                    Err(e) => Err(e),
                    Ok(id) => match need_text(track, "name"@, Field::Name) {
                        Err(e) => Err(e),
                        Ok(name) => match need_number(track, "duration_ms"@, Field::Duration) {
                            Err(e) => Err(e),
                            Ok(duration) => match need_number(
                                track,
                                "popularity"@,
                                Field::Popularity,
                            ) {
                                Err(e) => Err(e),
                                Ok(popularity) => track_tail_spec(
                                    track,
                                    added_at,
                                    id,
                                    name,
                                    duration,
                                    popularity,
                                ),
                            },
                        },
                    },
                },
            },
        }
    }
}

fn read_track(item: &Json) -> (r: Result<TrackData, ResponseError>)
    ensures
        match r {
            Ok(row) => track_spec(item@) == Ok::<TrackFields, ResponseError>(track_view(row))
                && row.wf(),
            Err(e) => track_spec(item@) == Err::<TrackFields, ResponseError>(e),
        },
{
    match item {
        Json::Object(members) => {
            proof {
                crate::query::json::lemma_object_view(*members);
            }
        },
        _ => {
            return Err(ResponseError::Item);
        },
    }
    let added_at = text_of(item, "added_at", Field::AddedAt)?;
    let track = object_of(item, "track", Field::Track)?;
    let id = text_of(track, "id", Field::Id)?;
    let name = text_of(track, "name", Field::Name)?;
    let duration = number_of(track, "duration_ms", Field::Duration)?;
    let popularity = number_of(track, "popularity", Field::Popularity)?;
    let album = object_of(track, "album", Field::Album)?;
    let album_id = text_of(album, "id", Field::AlbumId)?;
    let album_name = text_of(album, "name", Field::AlbumName)?;
    let entries = match track.field("artists") {
        Some(Json::Array(entries)) => {
            proof {
                lemma_array_view(*entries);
            }
            entries
        },
        _ => {
            return Err(ResponseError::Unexpected(Field::Artists));
        },
    };
    let artists = read_artists(entries)?;
    Ok(
        TrackData {
            id,
            name,
            duration,
            album_name,
            album_id,
            artists,
            added_at,
            popularity: (popularity % 256) as u8,
        },
    )
}

/// What the first `n` items of a response with tracks hold, or the first
/// error among them.
pub open spec fn tracks_spec(items: Seq<JsonView>, n: nat) -> Result<Seq<TrackFields>, ResponseError>
    decreases n,
{
    if n == 0 || n > items.len() {
        Ok(seq![])
    } else {
        match tracks_spec(items, (n - 1) as nat) {
            Err(e) => Err(e),
            Ok(rows) => match track_spec(items[n - 1]) {
                Err(e) => Err(e),
                Ok(fields) => Ok(rows.push(fields)),
            },
        }
    }
}

/// What a track holds, as mathematics sees it.
pub open spec fn track_view(row: TrackData) -> TrackFields {
    TrackFields {
        added_at: row.added_at@,
        id: row.id@,
        name: row.name@,
        duration: row.duration,
        popularity: row.popularity,
        album_id: row.album_id@,
        album_name: row.album_name@,
        artists: artist_views(row.artists@),
    }
}

/// What the tracks `rows` hold, as mathematics sees it.
pub open spec fn track_fields(rows: Seq<TrackData>) -> Seq<TrackFields> {
    Seq::new(rows.len(), |i: int| track_view(rows[i]))
}

pub proof fn lemma_playlists_fail(items: Seq<JsonView>, n: nat, m: nat)
    requires
        n <= m <= items.len(),
        playlists_spec(items, n) is Err,
    ensures
        playlists_spec(items, m) == playlists_spec(items, n),
    decreases m,
{
    if n < m {
        lemma_playlists_fail(items, n, (m - 1) as nat);
    }
}

pub proof fn lemma_tracks_fail(items: Seq<JsonView>, n: nat, m: nat)
    requires
        n <= m <= items.len(),
        tracks_spec(items, n) is Err,
    ensures
        tracks_spec(items, m) == tracks_spec(items, n),
    decreases m,
{
    if n < m {
        lemma_tracks_fail(items, n, (m - 1) as nat);
    }
}

/// Reads records out of the documents that the catalogue service answers
/// with.
pub struct ResultParser;

impl ResultParser {
    /// The playlists of a response, one for each of its items and in their
    /// order, without their tracks, or the first error: the response has no
    /// array `items`, or an item does not hold what a playlist has.
    pub fn parse_playlists(document: &Json) -> (r: Result<Vec<PlaylistData>, ResponseError>)
        ensures
            match r {
                Ok(rows) => {
                    &&& items_spec(document@) is Some
                    &&& playlists_spec(items_spec(document@)->0, items_spec(document@)->0.len())
                        == Ok::<Seq<PlaylistFields>, ResponseError>(playlist_fields(rows@))
                    &&& forall|i: int| 0 <= i < rows@.len() ==> (#[trigger] rows@[i]).tracks@.len() == 0
                },
                Err(e) => match items_spec(document@) {
                    None => e == ResponseError::Items,
                    Some(items) => playlists_spec(items, items.len()) == Err::<
                        Seq<PlaylistFields>,
                        ResponseError,
                    >(e),
                },
            },
    {
        let items = match items_of(document) {
            Some(items) => items,
            None => {
                return Err(ResponseError::Items);
            },
        };
        let ghost all = json_views(items@);
        let mut playlists: Vec<PlaylistData> = Vec::new();
        let mut i: usize = 0;
        assert(playlist_fields(playlists@) =~= Seq::<PlaylistFields>::empty());
        while i < items.len()
            invariant
                i <= items.len(),
                all == json_views(items@),
                items_spec(document@) == Some(all),
                playlists_spec(all, i as nat) == Ok::<Seq<PlaylistFields>, ResponseError>(
                    playlist_fields(playlists@),
                ),
                forall|k: int|
                    0 <= k < playlists@.len() ==> (#[trigger] playlists@[k]).tracks@.len() == 0,
            decreases items.len() - i,
        {
            assert(all[i as int] == items@[i as int]@);
            let row = match read_playlist(&items[i]) {
                Ok(row) => row,
                Err(e) => {
                    proof {
                        lemma_playlists_fail(all, (i + 1) as nat, all.len());
                    }
                    return Err(e);
                },
            };
            let ghost before = playlist_fields(playlists@);
            playlists.push(row);
            proof {
                assert(playlist_fields(playlists@) =~= before.push(playlist_spec(all[i as int])->Ok_0));
            }
            i += 1;
        }
        Ok(playlists)
    }

    /// The saved albums of a response: none, whatever the response holds.
    pub fn parse_albums(document: &Json) -> (r: Result<Vec<AlbumData>, ResponseError>)
        ensures
            r is Ok,
            r->Ok_0@.len() == 0,
    {
        Ok(Vec::new())
    }

    /// The tracks of a response, one for each of its items and in their
    /// order, or the first error: the response has no array `items`, or an
    /// item does not hold what a track has. No track names an artist
    /// twice.
    pub fn parse_tracks(document: &Json) -> (r: Result<Vec<TrackData>, ResponseError>)
        ensures
            match r {
                Ok(rows) => {
                    &&& items_spec(document@) is Some
                    &&& tracks_spec(items_spec(document@)->0, items_spec(document@)->0.len())
                        == Ok::<Seq<TrackFields>, ResponseError>(track_fields(rows@))
                    &&& forall|i: int| 0 <= i < rows@.len() ==> (#[trigger] rows@[i]).wf()
                },
                Err(e) => match items_spec(document@) {
                    None => e == ResponseError::Items,
                    Some(items) => tracks_spec(items, items.len()) == Err::<
                        Seq<TrackFields>,
                        ResponseError,
                    >(e),
                },
            },
    {
        let items = match items_of(document) {
            Some(items) => items,
            None => {
                return Err(ResponseError::Items);
            },
        };
        let ghost all = json_views(items@);
        let mut tracks: Vec<TrackData> = Vec::new();
        let mut i: usize = 0;
        assert(track_fields(tracks@) =~= Seq::<TrackFields>::empty());
        while i < items.len()
            invariant
                i <= items.len(),
                all == json_views(items@),
                items_spec(document@) == Some(all),
                tracks_spec(all, i as nat) == Ok::<Seq<TrackFields>, ResponseError>(
                    track_fields(tracks@),
                ),
                forall|k: int| 0 <= k < tracks@.len() ==> (#[trigger] tracks@[k]).wf(),
            decreases items.len() - i,
        {
            assert(all[i as int] == items@[i as int]@);
            let row = match read_track(&items[i]) {
                Ok(row) => row,
                Err(e) => {
                    proof {
                        lemma_tracks_fail(all, (i + 1) as nat, all.len());
                    }
                    return Err(e);
                },
            };
            let ghost before = track_fields(tracks@);
            tracks.push(row);
            proof {
                assert(track_fields(tracks@) =~= before.push(track_view(row)));
            }
            i += 1;
        }
        Ok(tracks)
    }
}

} // verus!
