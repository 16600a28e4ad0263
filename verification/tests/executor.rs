use spotifyql::query::condition::Condition;
use spotifyql::query::data::{AlbumData, Artist, Data, KeyAccess, PlaylistData, TrackData, DATA_TTL};
use spotifyql::query::display::{aggregation_table, build_table, check_table, format_table};
use spotifyql::query::error::{ErrorKind, QueryError};
use spotifyql::query::execute::{
    build_rows, distinct_targets, execute, filter_rows, mean_of, project, Aggregated,
    AggregationResult, QueryOutput,
};
use spotifyql::query::run::{prepare, run_query, Step, TUIQueryStage};
use spotifyql::query::statements::{Aggregation, SelectStatement};
use spotifyql::query::token::{DataSource, RecordKind, Token};
use spotifyql::query::value::{Decimal, Operator, Value};
use spotifyql::ui::tui::{Log, Severity};

const ONE: i128 = 1_000_000_000_000_000_000;

fn track(name: &str, popularity: u8, duration: u64, artists: &[&str]) -> TrackData {
    TrackData {
        id: format!("id-{}", name),
        name: name.to_string(),
        duration,
        album_name: "Album".to_string(),
        album_id: "al".to_string(),
        artists: artists
            .iter()
            .enumerate()
            .map(|(i, a)| Artist { id: format!("ar{}", i), name: a.to_string() })
            .collect(),
        added_at: "2024-01-01".to_string(),
        popularity,
    }
}

fn tracks() -> Vec<TrackData> {
    vec![
        track("one", 10, 1000, &["A"]),
        track("two", 20, 2000, &["B", "C"]),
        track("three", 31, 3000, &[]),
    ]
}

fn s(text: &str) -> Value {
    Value::Str(text.to_string())
}

fn names(list: &[&str]) -> Vec<String> {
    list.iter().map(|n| n.to_string()).collect()
}

fn select(aggregation: Aggregation, targets: &[&str], conditions: Option<Condition>) -> SelectStatement {
    SelectStatement {
        aggregation,
        targets: names(targets),
        source: DataSource::Playlist("p".to_string()),
        conditions,
    }
}

fn float(units: i128) -> AggregationResult {
    AggregationResult::Float(Decimal { units })
}

#[test]
fn attributes_of_a_track() {
    let t = track("two", 20, 2000, &["B", "C"]);
    assert_eq!(t.access("id"), Ok(s("id-two")));
    assert_eq!(t.access("name"), Ok(s("two")));
    assert_eq!(t.access("duration"), Ok(Value::Int(2000)));
    assert_eq!(t.access("album_name"), Ok(s("Album")));
    assert_eq!(t.access("album_id"), Ok(s("al")));
    assert_eq!(t.access("artists"), Ok(Value::List(vec![s("B"), s("C")])));
    assert_eq!(t.access("added_at"), Ok(s("2024-01-01")));
    assert_eq!(t.access("popularity"), Ok(Value::Int(20)));
    assert_eq!(
        t.access("Name"),
        Err(QueryError::UnknownAttribute { record: RecordKind::Track, name: "Name".to_string() })
    );
    assert_eq!(t.access("x").unwrap_err().kind(), ErrorKind::Attribute);
    assert_eq!(t.access("x").unwrap_err().message(), "ATTRIBUTE ERROR: Track has no attribute x");
    let long = TrackData { duration: u64::MAX, ..t };
    assert_eq!(long.access("duration"), Ok(Value::Int(i64::MAX)));
    assert_eq!(
        TrackData::attributes(),
        names(&["id", "name", "duration", "album_name", "album_id", "artists", "added_at", "popularity"])
    );
}

#[test]
fn attributes_of_playlists_and_albums() {
    let p = PlaylistData {
        id: "pa".to_string(),
        name: "P".to_string(),
        tracks: tracks(),
        tracks_api: "api".to_string(),
        track_count: 3,
    };
    assert_eq!(p.access("id"), Ok(s("pa")));
    assert_eq!(p.access("name"), Ok(s("P")));
    assert_eq!(p.access("track_count"), Ok(Value::Int(3)));
    // (10 + 20 + 31) / 3, rounded down
    assert_eq!(p.access("popularity"), Ok(Value::Int(20)));
    assert_eq!(p.access("artists"), Ok(Value::List(vec![s("A"), s("B"), s("C")])));
    assert_eq!(
        p.access("tracks"),
        Err(QueryError::UnknownAttribute { record: RecordKind::Playlist, name: "tracks".to_string() })
    );
    assert_eq!(PlaylistData::attributes(), names(&["id", "name", "track_count", "popularity", "artists"]));
    let a = AlbumData { id: "a1".to_string(), name: "A".to_string(), tracks: vec![], track_count: 0 };
    assert_eq!(a.access("popularity"), Ok(Value::Int(0)));
    assert_eq!(a.access("artists"), Ok(Value::List(vec![])));
    assert_eq!(a.access("name"), Ok(s("A")));
    assert_eq!(
        a.access("duration"),
        Err(QueryError::UnknownAttribute { record: RecordKind::Album, name: "duration".to_string() })
    );
    assert_eq!(AlbumData::attributes(), names(&["id", "name", "track_count", "popularity", "artists"]));
}

#[test]
fn filtering_keeps_positions_in_order() {
    let rows = tracks();
    assert_eq!(filter_rows(&rows, &None), Ok(vec![0, 1, 2]));
    let over_15 = Condition::new("popularity".to_string(), Operator::Greater, Value::Int(15));
    assert_eq!(filter_rows(&rows, &Some(over_15)), Ok(vec![1, 2]));
    let none = Condition::new("popularity".to_string(), Operator::Greater, Value::Int(100));
    assert_eq!(filter_rows(&rows, &Some(none)), Ok(vec![]));
    let broken = Condition::new("popularity".to_string(), Operator::Like, s("x"));
    assert_eq!(filter_rows(&rows, &Some(broken)), Err(QueryError::LikeNeedsStrings));
    assert_eq!(filter_rows(&Vec::<TrackData>::new(), &None), Ok(vec![]));
}

#[test]
fn projection() {
    let rows = tracks();
    assert_eq!(project(&rows[0], &names(&["name", "popularity"])), Ok(vec![s("one"), Value::Int(10)]));
    assert_eq!(project(&rows[0], &names(&[])), Ok(vec![]));
    assert_eq!(
        project(&rows[0], &names(&["name", "nope", "also"])),
        Err(QueryError::UnknownAttribute { record: RecordKind::Track, name: "nope".to_string() })
    );
    assert_eq!(
        build_rows(&rows, &vec![2, 0], &names(&["name"])),
        Ok(vec![vec![s("three")], vec![s("one")]])
    );
}

#[test]
fn count_gives_every_target_the_number_of_rows() {
    let rows = tracks();
    let st = select(Aggregation::Count, &["name", "no_such_attribute"], None);
    assert_eq!(
        execute(&st, &rows),
        Ok(QueryOutput::Aggregate(vec![
            Aggregated { target: "name".to_string(), result: AggregationResult::Int(3) },
            Aggregated { target: "no_such_attribute".to_string(), result: AggregationResult::Int(3) },
        ]))
    );
    let none = Condition::new("popularity".to_string(), Operator::Greater, Value::Int(100));
    let st = select(Aggregation::Count, &["name"], Some(none));
    assert_eq!(
        execute(&st, &rows),
        Ok(QueryOutput::Aggregate(vec![Aggregated {
            target: "name".to_string(),
            result: AggregationResult::Int(0)
        }]))
    );
}

#[test]
fn average_is_the_sum_over_the_rows() {
    let rows = tracks();
    assert_eq!(mean_of(&rows, &vec![0, 1, 2], &"popularity".to_string()), Ok(61 * ONE / 3));
    assert_eq!(mean_of(&rows, &vec![1], &"popularity".to_string()), Ok(20 * ONE));
    assert_eq!(mean_of(&rows, &vec![2, 2], &"duration".to_string()), Ok(3000 * ONE));
    let st = select(Aggregation::Average, &["popularity", "duration"], None);
    assert_eq!(
        execute(&st, &rows),
        Ok(QueryOutput::Aggregate(vec![
            // 61 / 3 = 20.333..., cut behind the eighteenth place
            Aggregated { target: "popularity".to_string(), result: float(20_333_333_333_333_333_333) },
            Aggregated { target: "duration".to_string(), result: float(2000 * ONE) },
        ]))
    );
    let st = select(Aggregation::Average, &["popularity", "name"], None);
    assert_eq!(execute(&st, &rows), Err(QueryError::AverageNotNumeric("name".to_string())));
    let st = select(Aggregation::Average, &["missing"], None);
    assert_eq!(
        execute(&st, &rows),
        Err(QueryError::UnknownAttribute { record: RecordKind::Track, name: "missing".to_string() })
    );
    let st = select(Aggregation::Average, &["popularity"], None);
    assert_eq!(execute(&st, &Vec::<TrackData>::new()), Err(QueryError::NoRows));
    assert_eq!(QueryError::NoRows.kind(), ErrorKind::Aggregation);
    assert_eq!(QueryError::AverageNotNumeric("x".to_string()).kind(), ErrorKind::Type);
}

#[test]
fn a_mean_can_be_held_where_the_sum_cannot() {
    // the greatest duration counts as the greatest whole number, and forty
    // of them add up to more than 128 bits hold
    let mut rows: Vec<TrackData> = (0..40).map(|_| track("t", 0, u64::MAX, &[])).collect();
    let st = select(Aggregation::Average, &["duration"], None);
    assert_eq!(
        execute(&st, &rows),
        Ok(QueryOutput::Aggregate(vec![Aggregated {
            target: "duration".to_string(),
            result: float(i64::MAX as i128 * ONE),
        }]))
    );
    rows.push(track("t", 0, 0, &[]));
    rows.push(track("t", 0, 7, &[]));
    // (40 * (2^63 - 1) + 7) * 10^18 / 42, rounded down
    assert_eq!(
        execute(&st, &rows),
        Ok(QueryOutput::Aggregate(vec![Aggregated {
            target: "duration".to_string(),
            result: float(8784163844623596006833333333333333333),
        }]))
    );
}

fn library() -> Data {
    Data {
        playlist_data_ct: 100,
        playlist_data: Some(vec![
            PlaylistData {
                id: "pa".to_string(),
                name: "twice".to_string(),
                tracks: vec![track("first", 1, 1, &[])],
                tracks_api: String::new(),
                track_count: 1,
            },
            PlaylistData {
                id: "pb".to_string(),
                name: "twice".to_string(),
                tracks: vec![track("second", 2, 2, &[])],
                tracks_api: String::new(),
                track_count: 1,
            },
        ]),
        saved_album_data_ct: 0,
        saved_album_data: Some(vec![AlbumData {
            id: "a1".to_string(),
            name: "Kid A".to_string(),
            tracks: tracks(),
            track_count: 3,
        }]),
    }
}

#[test]
fn the_source_names_the_rows() {
    let data = library();
    // of two playlists of one name the first is read
    assert_eq!(
        run_query(&data, "SELECT name FROM PLAYLIST(\"twice\");".to_string()),
        Ok(QueryOutput::Table { targets: names(&["name"]), rows: vec![vec![s("first")]] })
    );
    assert_eq!(
        run_query(&data, "SELECT name FROM ALBUM(\"Kid A\") WHERE popularity >= 20;".to_string()),
        Ok(QueryOutput::Table {
            targets: names(&["name"]),
            rows: vec![vec![s("two")], vec![s("three")]]
        })
    );
    assert_eq!(
        run_query(&data, "SELECT COUNT(id) FROM ALBUMS;".to_string()),
        Ok(QueryOutput::Aggregate(vec![Aggregated {
            target: "id".to_string(),
            result: AggregationResult::Int(1)
        }]))
    );
    assert_eq!(
        run_query(&data, "SELECT name FROM ALBUM(\"OK\");".to_string()),
        Err(QueryError::NotFound(DataSource::SavedAlbum("OK".to_string())))
    );
    assert_eq!(
        run_query(&Data::default(), "SELECT name FROM PLAYLIST(\"twice\");".to_string()),
        Err(QueryError::NotFetched(DataSource::Playlist("twice".to_string())))
    );
    assert_eq!(
        run_query(&data, "SELECT name FROM PLAYLISTS".to_string()),
        Err(QueryError::Unterminated)
    );
    assert_eq!(
        run_query(&data, "SELECT * FROM ALBUMS;".to_string()),
        Ok(QueryOutput::Table {
            targets: AlbumData::attributes(),
            rows: vec![vec![
                s("a1"),
                s("Kid A"),
                Value::Int(3),
                Value::Int(20),
                Value::List(vec![s("A"), s("B"), s("C")])
            ]]
        })
    );
}

#[test]
fn loaded_collections_grow_stale() {
    let mut data = Data::default();
    let playlists = DataSource::Playlists;
    let albums = DataSource::SavedAlbum("x".to_string());
    assert!(data.needs_load(&playlists, 0));
    assert!(data.needs_load(&albums, 0));
    data.store_playlists(vec![], 1000);
    assert_eq!(data.playlist_data_ct, 1000);
    assert!(!data.needs_load(&playlists, 1000));
    assert!(!data.needs_load(&DataSource::Playlist("p".to_string()), 1000 + DATA_TTL));
    assert!(data.needs_load(&playlists, 1000 + DATA_TTL + 1));
    assert!(!data.needs_load(&playlists, 5));
    assert!(data.needs_load(&albums, 1000));
    data.store_saved_albums(vec![], u64::MAX);
    assert!(!data.needs_load(&DataSource::SavedAlbums, u64::MAX));
    assert_eq!(DATA_TTL, 1800);
}

#[test]
fn tables_as_lines() {
    let rows = vec![track("one", 10, 1, &[]), track("a longer name", 5, 2, &["X"])];
    let lines = build_table(&rows, &names(&["name", "popularity", "artists"])).unwrap();
    assert_eq!(
        lines,
        vec![
            "|    name     |popularity|artists|",
            "|-------------|----------|-------|",
            "|     one     |    10    |  []   |",
            "|a longer name|    5     |  [X]  |",
        ]
    );
    assert_eq!(
        build_table(&rows, &names(&["name", "x"])),
        Err(QueryError::UnknownAttribute { record: RecordKind::Track, name: "x".to_string() })
    );
    assert_eq!(format_table(&names(&[]), &vec![]), vec!["|", "|"]);
    assert!(check_table(&names(&["a"]), &vec![vec![s("x")], vec![s("y")]]));
    assert!(!check_table(&names(&["a"]), &vec![vec![s("x")], vec![]]));
    assert!(check_table(&names(&[]), &vec![]));
    assert_eq!(
        format_table(&names(&["é"]), &vec![vec![s("ab")]]),
        // the width is counted in bytes and the padding in characters
        vec!["|é |", "|--|", "|ab|"]
    );
}

#[test]
fn aggregations_as_lines() {
    let results = vec![
        Aggregated { target: "id".to_string(), result: AggregationResult::Int(12) },
        Aggregated { target: "n".to_string(), result: float(1_234_567_000_000_000_000_000) },
    ];
    assert_eq!(
        aggregation_table(Aggregation::Count, &results),
        vec!["|COUNT(id)|COUNT(n)|", "|---------|--------|", "|12       |1234.57 |"]
    );
    let results = vec![
        Aggregated { target: "x".to_string(), result: float(-5_000_000_000_000_000) },
        Aggregated { target: "y".to_string(), result: float(4_999_999_999_999_999) },
        Aggregated { target: "z".to_string(), result: float(20 * ONE) },
    ];
    assert_eq!(
        aggregation_table(Aggregation::Average, &results),
        vec![
            "|AVERAGE(x)|AVERAGE(y)|AVERAGE(z)|",
            "|----------|----------|----------|",
            "|-0.01     |0.00      |20.00     |"
        ]
    );
    assert_eq!(aggregation_table(Aggregation::Plain, &vec![]), vec!["|", "|", "|"]);
}

fn log(severity: Severity, content: &str) -> Log {
    Log { severity, content: content.to_string() }
}

#[test]
fn a_query_goes_through_its_stages() {
    let data = library();
    let step = TUIQueryStage::Queued("SELECT COUNT(id) FROM PLAYLISTS;".to_string()).advance(&data);
    assert_eq!(step.logs, vec![log(Severity::Log, "Tokenising"), log(Severity::Success, "Tokenised")]);
    assert_eq!(
        step.stage,
        TUIQueryStage::Tokenised(vec![
            Token::SELECT,
            Token::COUNT(names(&["id"])),
            Token::FROM,
            Token::Source(DataSource::Playlists)
        ])
    );
    let step = step.stage.advance(&data);
    assert_eq!(step.logs, vec![log(Severity::Log, "Parsing"), log(Severity::Success, "Parsed")]);
    let statement = prepare("SELECT COUNT(id) FROM PLAYLISTS;".to_string()).unwrap();
    assert_eq!(step.stage, TUIQueryStage::Parsed(statement.clone()));
    let step = step.stage.advance(&data);
    assert_eq!(step.load, Some(DataSource::Playlists));
    assert_eq!(step.logs, vec![log(Severity::Log, "Loading Data")]);
    assert_eq!(step.stage, TUIQueryStage::Parsed(statement.clone()));
    let step = step.stage.loaded(None);
    assert_eq!(step.logs, vec![log(Severity::Success, "Loaded Data")]);
    assert_eq!(step.stage, TUIQueryStage::ParsedWithData(statement.clone()));
    let step = step.stage.advance(&data);
    assert_eq!(
        step,
        Step {
            stage: TUIQueryStage::NotRunning,
            logs: vec![],
            load: None,
            output: Some(QueryOutput::Aggregate(vec![Aggregated {
                target: "id".to_string(),
                result: AggregationResult::Int(2)
            }])),
        }
    );
    let step = step.stage.advance(&data);
    assert_eq!(step, Step { stage: TUIQueryStage::NotRunning, logs: vec![], load: None, output: None });
}

#[test]
fn an_error_ends_the_query() {
    let data = Data::default();
    let step = TUIQueryStage::Queued("SELECT".to_string()).advance(&data);
    assert_eq!(step.stage, TUIQueryStage::NotRunning);
    assert_eq!(
        step.logs,
        vec![log(Severity::Log, "Tokenising"), log(Severity::Error, "Input must be terminated with ';'.")]
    );
    let step = TUIQueryStage::Tokenised(vec![Token::SELECT]).advance(&data);
    assert_eq!(step.stage, TUIQueryStage::NotRunning);
    assert_eq!(step.logs[1].severity, Severity::Error);
    let statement = prepare("SELECT id FROM PLAYLISTS;".to_string()).unwrap();
    let step = TUIQueryStage::Parsed(statement.clone()).loaded(Some("no network".to_string()));
    assert_eq!(step.stage, TUIQueryStage::NotRunning);
    assert_eq!(step.logs, vec![log(Severity::Error, "no network")]);
    let step = TUIQueryStage::ParsedWithData(statement).advance(&data);
    assert_eq!(step.stage, TUIQueryStage::NotRunning);
    assert_eq!(step.output, None);
    assert_eq!(step.logs, vec![log(Severity::Error, "Playlists data not fetched")]);
    // the answer of the loader reaches no stage but the one that waits for it
    let step = TUIQueryStage::Queued("x".to_string()).loaded(None);
    assert_eq!(step.stage, TUIQueryStage::Queued("x".to_string()));
    assert_eq!(step.logs, vec![]);
}

#[test]
fn an_aggregation_has_one_result_for_each_target() {
    let rows = tracks();
    let st = select(Aggregation::Count, &["name", "id", "name", "id", "x"], None);
    assert_eq!(
        execute(&st, &rows),
        Ok(QueryOutput::Aggregate(vec![
            Aggregated { target: "name".to_string(), result: AggregationResult::Int(3) },
            Aggregated { target: "id".to_string(), result: AggregationResult::Int(3) },
            Aggregated { target: "x".to_string(), result: AggregationResult::Int(3) },
        ]))
    );
    let st = select(Aggregation::Average, &["duration", "duration"], None);
    assert_eq!(
        execute(&st, &rows),
        Ok(QueryOutput::Aggregate(vec![Aggregated {
            target: "duration".to_string(),
            result: float(2000 * ONE)
        }]))
    );
    // a table keeps its columns as they are named
    let st = select(Aggregation::Plain, &["name", "name"], None);
    assert_eq!(
        execute(&st, &vec![track("one", 1, 1, &[])]),
        Ok(QueryOutput::Table { targets: names(&["name", "name"]), rows: vec![vec![s("one"), s("one")]] })
    );
    assert_eq!(distinct_targets(&names(&["a", "b", "a", "c", "b"])), names(&["a", "b", "c"]));
    assert_eq!(distinct_targets(&names(&[])), names(&[]));
}
