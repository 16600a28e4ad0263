use spotifyql::query::condition::{compute_conditions, Condition, ConditionResult};
use spotifyql::query::data::{AlbumData, Artist, Data, KeyAccess, PlaylistData, TrackData};
use spotifyql::query::error::{ErrorKind, Expected, QueryError};
use spotifyql::query::execute::{Aggregated, AggregationResult, QueryOutput};
use spotifyql::query::parse::parse;
use spotifyql::query::statements::Aggregation;
use spotifyql::query::token::{DataSource, Logical, Token};
use spotifyql::query::tokenise::tokenise;
use spotifyql::query::value::{Decimal, Operator, Value};

fn track(id: &str, name: &str, popularity: u8, artists: &[&str]) -> TrackData {
    TrackData {
        id: id.to_string(),
        name: name.to_string(),
        duration: 200_000,
        album_name: "Album".to_string(),
        album_id: "al1".to_string(),
        artists: artists
            .iter()
            .enumerate()
            .map(|(i, a)| Artist { id: format!("ar{}", i), name: a.to_string() })
            .collect(),
        added_at: "2024-01-01".to_string(),
        popularity,
    }
}

fn playlist(id: &str, name: &str, tracks: Vec<TrackData>) -> PlaylistData {
    let track_count = tracks.len() as u64;
    PlaylistData {
        id: id.to_string(),
        name: name.to_string(),
        tracks,
        tracks_api: "https://example.invalid/tracks".to_string(),
        track_count,
    }
}

fn library() -> Data {
    Data {
        playlist_data_ct: 0,
        playlist_data: Some(vec![
            playlist(
                "pa",
                "Road Trip",
                vec![
                    track("t1", "Low", 40, &["Arctic Monkeys"]),
                    track("t2", "Mid", 60, &["Blur"]),
                    track("t3", "High", 95, &["Arctic Monkeys", "Blur"]),
                    track("t4", "Edge", 90, &["Pulp"]),
                    track("t5", "Other", 51, &["Pulp"]),
                ],
            ),
            playlist("pb", "ROAD", vec![track("t6", "Solo", 10, &["Blur"])]),
            playlist("pc", "Evening", vec![track("t7", "Dusk", 70, &["Arctic Monkeys"])]),
        ]),
        saved_album_data_ct: 0,
        saved_album_data: None,
    }
}

fn run(query: &str, data: &Data) -> Result<QueryOutput, QueryError> {
    let tokens = tokenise(query.to_string())?;
    let statement = parse(tokens)?;
    statement.run(data)
}

fn s(text: &str) -> Value {
    Value::Str(text.to_string())
}

#[test]
fn select_two_attributes_of_all_playlists() {
    let out = run("SELECT id, name FROM PLAYLISTS;", &library()).unwrap();
    assert_eq!(
        out,
        QueryOutput::Table {
            targets: vec!["id".to_string(), "name".to_string()],
            rows: vec![
                vec![s("pa"), s("Road Trip")],
                vec![s("pb"), s("ROAD")],
                vec![s("pc"), s("Evening")],
            ],
        }
    );
}

#[test]
fn select_tracks_of_named_playlist_between_bounds() {
    let out = run(
        "SELECT name FROM PLAYLIST(\"Road Trip\") WHERE popularity > 50 AND popularity < 90;",
        &library(),
    )
    .unwrap();
    assert_eq!(
        out,
        QueryOutput::Table {
            targets: vec!["name".to_string()],
            rows: vec![vec![s("Mid")], vec![s("Other")]],
        }
    );
}

#[test]
fn count_playlists_with_artist() {
    let out = run(
        "SELECT COUNT(name) FROM PLAYLISTS WHERE \"Arctic Monkeys\" IN artists;",
        &library(),
    )
    .unwrap();
    assert_eq!(
        out,
        QueryOutput::Aggregate(vec![Aggregated {
            target: "name".to_string(),
            result: AggregationResult::Int(2),
        }])
    );
}

#[test]
fn like_lowers_the_left_side_only() {
    let out = run("SELECT id FROM PLAYLISTS WHERE name LIKE \"road\";", &library()).unwrap();
    assert_eq!(
        out,
        QueryOutput::Table {
            targets: vec!["id".to_string()],
            rows: vec![vec![s("pa")], vec![s("pb")]],
        }
    );
    assert_eq!(s("Road Trip").compare(s("road"), Operator::Like), Ok(true));
    assert_eq!(s("ROAD").compare(s("Road"), Operator::Like), Ok(false));
}

#[test]
fn membership_with_mismatched_list_is_a_type_error() {
    let err = run(
        "SELECT name FROM PLAYLISTS WHERE popularity IN [\"a\",\"b\"];",
        &library(),
    )
    .unwrap_err();
    assert_eq!(err, QueryError::ListMismatch(Operator::In));
    assert_eq!(err.kind(), ErrorKind::Type);
}

#[test]
fn wildcard_expands_to_the_playlist_inventory() {
    let statement = parse(tokenise("SELECT * FROM PLAYLISTS;".to_string()).unwrap()).unwrap();
    assert_eq!(statement.targets, PlaylistData::attributes());
    assert_eq!(statement.aggregation, Aggregation::Plain);
    assert_eq!(statement.source, DataSource::Playlists);
    assert_eq!(statement.conditions, None);
    let tracks = parse(tokenise("SELECT * FROM PLAYLIST(\"x\");".to_string()).unwrap()).unwrap();
    assert_eq!(tracks.targets, TrackData::attributes());
    let albums = parse(tokenise("SELECT * FROM ALBUMS;".to_string()).unwrap()).unwrap();
    assert_eq!(albums.targets, AlbumData::attributes());
}

#[test]
fn aggregation_and_wildcard_do_not_mix_with_attributes() {
    let err = parse(tokenise("SELECT name, COUNT(id) FROM PLAYLISTS;".to_string()).unwrap())
        .unwrap_err();
    assert_eq!(err, QueryError::MixedAggregation(Token::COUNT(vec!["id".to_string()])));
    assert_eq!(err.kind(), ErrorKind::Syntax);
    let err =
        parse(tokenise("SELECT *, name FROM PLAYLISTS;".to_string()).unwrap()).unwrap_err();
    assert_eq!(
        err,
        QueryError::UnexpectedToken {
            expected: Expected::From,
            found: Token::Attribute("name".to_string()),
        }
    );
    assert_eq!(err.kind(), ErrorKind::Syntax);
    let err =
        parse(tokenise("SELECT name, * FROM PLAYLISTS;".to_string()).unwrap()).unwrap_err();
    assert_eq!(err, QueryError::MixedWildcard);
}

fn chain(values: &[bool], connectives: &[Logical]) -> ConditionResult {
    let mut tree = ConditionResult { val: values[0], next: None };
    for i in 1..values.len() {
        tree.add_next_condition(connectives[i - 1], values[i]);
    }
    tree
}

#[test]
fn collapse_runs_the_or_pass_before_the_and_pass() {
    let (and, or) = (Logical::And, Logical::Or);
    let tree = chain(&[true, false, false, true, false], &[or, or, and, and]);
    let first = tree.collapse_pass(or);
    assert_eq!(first, chain(&[true, false, true, false], &[or, and, and]));
    let second = first.collapse_pass(and);
    assert_eq!(second, chain(&[true, false, false], &[or, and]));
    assert_eq!(tree.collapse(), true);
    // left to right the same chain comes to false
    assert_eq!(chain(&[true], &[]).collapse(), true);
    assert_eq!(chain(&[false, true], &[and]).collapse(), false);
    assert_eq!(chain(&[false, true], &[or]).collapse(), true);
    // what is left behind the first two values after both passes is not read
    assert_eq!(chain(&[true, false, false], &[or, or]).collapse(), true);
    assert_eq!(chain(&[false, true, true, false], &[and, or, and]).collapse(), false);
}

#[test]
fn conditions_on_one_record() {
    let t = track("t1", "Low", 40, &["Arctic Monkeys"]);
    let mut c = Condition::new("popularity".to_string(), Operator::Greater, Value::Int(50));
    c.add_next_condition(
        Logical::Or,
        Condition::new("name".to_string(), Operator::Equals, s("Low")),
    );
    assert_eq!(compute_conditions(&t, c.clone()), Ok(true));
    c.add_next_condition(
        Logical::And,
        Condition::new("nothing".to_string(), Operator::Equals, s("Low")),
    );
    assert_eq!(
        compute_conditions(&t, c).unwrap_err().kind(),
        ErrorKind::Attribute
    );
}

#[test]
fn average_over_tracks() {
    let out = run(
        "SELECT AVERAGE(popularity, duration) FROM PLAYLIST(\"Road Trip\") WHERE popularity >= 60;",
        &library(),
    )
    .unwrap();
    // 60, 95 and 90: the mean is 81.666..., kept to eighteen places
    assert_eq!(
        out,
        QueryOutput::Aggregate(vec![
            Aggregated {
                target: "popularity".to_string(),
                result: AggregationResult::Float(Decimal { units: 81_666_666_666_666_666_666 }),
            },
            Aggregated {
                target: "duration".to_string(),
                result: AggregationResult::Float(Decimal {
                    units: 200_000_000_000_000_000_000_000
                }),
            },
        ])
    );
    let err = run(
        "SELECT AVERAGE(popularity) FROM PLAYLIST(\"Road Trip\") WHERE popularity > 100;",
        &library(),
    )
    .unwrap_err();
    assert_eq!(err, QueryError::NoRows);
    let err = run("SELECT AVERAGE(name) FROM PLAYLIST(\"ROAD\");", &library()).unwrap_err();
    assert_eq!(err, QueryError::AverageNotNumeric("name".to_string()));
}

#[test]
fn sources_that_are_not_there() {
    let err = run("SELECT name FROM ALBUMS;", &library()).unwrap_err();
    assert_eq!(err, QueryError::NotFetched(DataSource::SavedAlbums));
    assert_eq!(err.kind(), ErrorKind::Source);
    let err = run("SELECT name FROM PLAYLIST(\"Nowhere\");", &library()).unwrap_err();
    assert_eq!(err, QueryError::NotFound(DataSource::Playlist("Nowhere".to_string())));
}
