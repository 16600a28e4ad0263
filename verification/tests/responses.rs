use spotifyql::query::data::{Artist, PlaylistData, TrackData};
use spotifyql::query::json::Json;
use spotifyql::query::response::{Field, ResponseError, ResultParser};

fn text(value: &str) -> Json {
    Json::String(value.to_string())
}

fn object(members: Vec<(&str, Json)>) -> Json {
    Json::Object(members.into_iter().map(|(k, v)| (k.to_string(), v)).collect())
}

fn number(n: u64) -> Json {
    Json::Number(Some(n))
}

fn playlist(id: &str, name: &str, total: Json) -> Json {
    object(vec![
        ("id", text(id)),
        ("name", text(name)),
        ("tracks", object(vec![("href", text("http://tracks")), ("total", total)])),
    ])
}

fn artist(id: &str, name: &str) -> Json {
    object(vec![("id", text(id)), ("name", text(name))])
}

fn track(id: &str, popularity: u64, artists: Vec<Json>) -> Json {
    object(vec![
        ("added_at", text("2024-01-02")),
        (
            "track",
            object(vec![
                ("album", object(vec![("id", text("al")), ("name", text("Album"))])),
                ("artists", Json::Array(artists)),
                ("duration_ms", number(1234)),
                ("id", text(id)),
                ("name", text("Name")),
                ("popularity", number(popularity)),
            ]),
        ),
    ])
}

fn items(list: Vec<Json>) -> Json {
    object(vec![("items", Json::Array(list))])
}

fn without(value: Json, path: &[&str]) -> Json {
    match value {
        Json::Object(members) => Json::Object(
            members
                .into_iter()
                .filter(|(k, _)| !(path.len() == 1 && k == path[0]))
                .map(|(k, v)| if path.len() > 1 && k == path[0] { (k, without(v, &path[1..])) } else { (k, v) })
                .collect(),
        ),
        other => other,
    }
}

fn with(value: Json, path: &[&str], new: Json) -> Json {
    match value {
        Json::Object(members) => Json::Object(
            members
                .into_iter()
                .map(|(k, v)| {
                    if k == path[0] {
                        if path.len() == 1 {
                            (k, with_value(&new))
                        } else {
                            (k, with(v, &path[1..], with_value(&new)))
                        }
                    } else {
                        (k, v)
                    }
                })
                .collect(),
        ),
        other => other,
    }
}

fn with_value(value: &Json) -> Json {
    match value {
        Json::Null => Json::Null,
        Json::Bool(b) => Json::Bool(*b),
        Json::Number(n) => Json::Number(*n),
        Json::String(s) => Json::String(s.clone()),
        Json::Array(a) => Json::Array(a.iter().map(with_value).collect()),
        Json::Object(o) => Json::Object(o.iter().map(|(k, v)| (k.clone(), with_value(v))).collect()),
    }
}

#[test]
fn members_of_documents() {
    let doc = object(vec![("a", number(1)), ("b", text("x")), ("a", number(2))]);
    assert_eq!(doc.field("a"), Some(&number(1)));
    assert_eq!(doc.field("b"), Some(&text("x")));
    assert_eq!(doc.field("c"), None);
    assert_eq!(doc.text("b"), Some("x".to_string()));
    assert_eq!(doc.text("a"), None);
    assert_eq!(Json::Null.field("a"), None);
    assert_eq!(Json::Array(vec![]).text("a"), None);
}

#[test]
fn playlists_of_a_response() {
    let doc = items(vec![playlist("pa", "One", number(3)), playlist("pb", "Two", number(0))]);
    assert_eq!(
        ResultParser::parse_playlists(&doc),
        Ok(vec![
            PlaylistData {
                id: "pa".to_string(),
                name: "One".to_string(),
                tracks: vec![],
                tracks_api: "http://tracks".to_string(),
                track_count: 3
            },
            PlaylistData {
                id: "pb".to_string(),
                name: "Two".to_string(),
                tracks: vec![],
                tracks_api: "http://tracks".to_string(),
                track_count: 0
            },
        ])
    );
    assert_eq!(ResultParser::parse_playlists(&items(vec![])), Ok(vec![]));
    assert_eq!(ResultParser::parse_albums(&doc), Ok(vec![]));
    assert_eq!(ResultParser::parse_albums(&Json::Null), Ok(vec![]));
}

#[test]
fn responses_without_playlists() {
    let parse = |doc: Json| ResultParser::parse_playlists(&doc).unwrap_err();
    assert_eq!(parse(Json::Null), ResponseError::Items);
    assert_eq!(parse(object(vec![])), ResponseError::Items);
    assert_eq!(parse(object(vec![("items", text("x"))])), ResponseError::Items);
    assert_eq!(parse(items(vec![text("x")])), ResponseError::Item);
    let good = || playlist("p", "n", number(1));
    let broken = |item: Json| parse(items(vec![good(), item]));
    assert_eq!(broken(without(good(), &["id"])), ResponseError::Unexpected(Field::Id));
    assert_eq!(broken(with(good(), &["id"], number(1))), ResponseError::Unexpected(Field::Id));
    assert_eq!(broken(without(good(), &["name"])), ResponseError::Unexpected(Field::Name));
    assert_eq!(broken(with(good(), &["tracks"], Json::Array(vec![]))), ResponseError::Unexpected(Field::Tracks));
    assert_eq!(broken(without(good(), &["tracks", "href"])), ResponseError::Unexpected(Field::Href));
    assert_eq!(broken(without(good(), &["tracks", "total"])), ResponseError::Unexpected(Field::Total));
    assert_eq!(broken(with(good(), &["tracks", "total"], text("3"))), ResponseError::Unexpected(Field::Total));
    assert_eq!(
        broken(with(good(), &["tracks", "total"], Json::Number(None))),
        ResponseError::NotUnsigned(Field::Total)
    );
    // the first error is the one that is told
    assert_eq!(
        parse(items(vec![without(good(), &["name"]), without(good(), &["id"])])),
        ResponseError::Unexpected(Field::Name)
    );
    assert_eq!(
        broken(without(without(good(), &["tracks"]), &["id"])),
        ResponseError::Unexpected(Field::Id)
    );
}

#[test]
fn tracks_of_a_response() {
    let doc = items(vec![
        track("t1", 77, vec![artist("a", "Ann"), artist("b", "Bob")]),
        track("t2", 300, vec![artist("a", "Ann"), artist("b", "Bob"), artist("a", "Anna")]),
        track("t3", 0, vec![]),
    ]);
    let row = |id: &str, popularity: u8, artists: Vec<(&str, &str)>| TrackData {
        id: id.to_string(),
        name: "Name".to_string(),
        duration: 1234,
        album_name: "Album".to_string(),
        album_id: "al".to_string(),
        artists: artists
            .into_iter()
            .map(|(id, name)| Artist { id: id.to_string(), name: name.to_string() })
            .collect(),
        added_at: "2024-01-02".to_string(),
        popularity,
    };
    assert_eq!(
        ResultParser::parse_tracks(&doc),
        Ok(vec![
            row("t1", 77, vec![("a", "Ann"), ("b", "Bob")]),
            // of the popularity the lowest eight bits are kept, and an artist
            // that is named twice keeps its place and takes the later name
            row("t2", 44, vec![("a", "Anna"), ("b", "Bob")]),
            row("t3", 0, vec![]),
        ])
    );
}

#[test]
fn responses_without_tracks() {
    let parse = |doc: Json| ResultParser::parse_tracks(&doc).unwrap_err();
    assert_eq!(parse(Json::Bool(true)), ResponseError::Items);
    assert_eq!(parse(items(vec![number(1)])), ResponseError::Item);
    let good = || track("t", 1, vec![artist("a", "Ann")]);
    let broken = |item: Json| parse(items(vec![good(), item]));
    let missing = |path: &[&str]| broken(without(good(), path));
    assert_eq!(missing(&["added_at"]), ResponseError::Unexpected(Field::AddedAt));
    assert_eq!(missing(&["track"]), ResponseError::Unexpected(Field::Track));
    assert_eq!(missing(&["track", "id"]), ResponseError::Unexpected(Field::Id));
    assert_eq!(missing(&["track", "name"]), ResponseError::Unexpected(Field::Name));
    assert_eq!(missing(&["track", "duration_ms"]), ResponseError::Unexpected(Field::Duration));
    assert_eq!(missing(&["track", "popularity"]), ResponseError::Unexpected(Field::Popularity));
    assert_eq!(missing(&["track", "album"]), ResponseError::Unexpected(Field::Album));
    assert_eq!(missing(&["track", "album", "id"]), ResponseError::Unexpected(Field::AlbumId));
    assert_eq!(missing(&["track", "album", "name"]), ResponseError::Unexpected(Field::AlbumName));
    assert_eq!(missing(&["track", "artists"]), ResponseError::Unexpected(Field::Artists));
    assert_eq!(
        broken(with(good(), &["track", "duration_ms"], Json::Number(None))),
        ResponseError::NotUnsigned(Field::Duration)
    );
    assert_eq!(
        broken(with(good(), &["track", "popularity"], Json::Number(None))),
        ResponseError::NotUnsigned(Field::Popularity)
    );
    assert_eq!(
        broken(with(good(), &["track", "artists"], text("x"))),
        ResponseError::Unexpected(Field::Artists)
    );
    assert_eq!(
        broken(track("t", 1, vec![artist("a", "Ann"), object(vec![("name", text("x"))])])),
        ResponseError::Unexpected(Field::ArtistId)
    );
    assert_eq!(
        broken(track("t", 1, vec![object(vec![("id", text("x"))])])),
        ResponseError::Unexpected(Field::ArtistName)
    );
    assert_eq!(broken(track("t", 1, vec![Json::Null])), ResponseError::Unexpected(Field::ArtistId));
    assert_eq!(
        parse(items(vec![without(good(), &["track", "album"]), number(1)])),
        ResponseError::Unexpected(Field::Album)
    );
}

#[test]
fn responses_say_what_is_wrong() {
    assert_eq!(
        ResponseError::Items.message(),
        "'items' field in response data is an unexpected type."
    );
    assert_eq!(
        ResponseError::Item.message(),
        "Value in field 'items' in response data is an unexpected type."
    );
    assert_eq!(
        ResponseError::Unexpected(Field::AddedAt).message(),
        "Value 'added_at' in field 'items' in response data is an unexpected type."
    );
    assert_eq!(
        ResponseError::Unexpected(Field::ArtistName).message(),
        "Value 'name' in field 'artists' in field 'items' in response data is an unexpected type."
    );
    assert_eq!(
        ResponseError::NotUnsigned(Field::Total).message(),
        "Value 'total' in field 'tracks' in field 'items' in response data is not a positive integer."
    );
    let names = [
        (Field::Id, "id"),
        (Field::Name, "name"),
        (Field::Tracks, "tracks"),
        (Field::Href, "href' in field 'tracks"),
        (Field::Track, "track"),
        (Field::Duration, "duration_ms"),
        (Field::Popularity, "popularity"),
        (Field::Album, "album"),
        (Field::AlbumId, "id' in field 'album"),
        (Field::AlbumName, "name' in field 'album"),
        (Field::Artists, "artists"),
        (Field::ArtistId, "id' in field 'artists"),
    ];
    for (field, name) in names {
        assert_eq!(
            ResponseError::NotUnsigned(field).message(),
            format!("Value '{}' in field 'items' in response data is not a positive integer.", name)
        );
    }
}
