use spotifyql::api::{APIQuery, QueryType, API_ENDPOINT};
use spotifyql::auth::code::{
    access_token_request, b64, check_expiry, check_hashable, check_token_response, code_challenge,
    code_verifier,
    create_file_content, make_url_safe, sha256, verifier_from, AccessTokenResponse, AuthError,
};
use spotifyql::auth::token_refresh::{apply_refresh, refresh_request};
use spotifyql::commands::input::{read_command, InputCommand, TEST_FILTER};
use spotifyql::commands::login::{authorize_url, extract_code};
use spotifyql::config::app_config::{AppContext, CLIENT_ID};
use spotifyql::config::args::{Command, RunContext};
use spotifyql::config::user_config::UserConfig;
use spotifyql::auth::code::AuthFileContent;
use spotifyql::utils::date::{year_of_reading, Date, DateError, DateOrder, DateScope, DateSource};
use spotifyql::utils::file::{File, FileError, WriteMode};
use spotifyql::utils::url::{build_url, parameterise_list};
use spotifyql::utils::utils::secs_now;

fn date(scope: DateScope, year: u32, month: Option<u8>, day: Option<u8>) -> Date {
    Date { scope, year, month, day }
}

fn read(text: &str, source: DateSource) -> Result<Date, DateError> {
    Date::new_at(text.to_string(), source, 2026)
}

fn pairs(list: &[(&str, &str)]) -> Vec<(String, String)> {
    list.iter().map(|(k, v)| (k.to_string(), v.to_string())).collect()
}

fn strings(list: &[&str]) -> Vec<String> {
    list.iter().map(|n| n.to_string()).collect()
}

#[test]
fn addresses() {
    assert_eq!(build_url("http://x", pairs(&[("a", "1"), ("b", "2")])), "http://x?a=1&b=2");
    assert_eq!(build_url("http://x", pairs(&[("a", "1")])), "http://x?a=1");
    assert_eq!(build_url("http://x", vec![]), "http://x?");
    assert_eq!(build_url("", pairs(&[("", ""), ("", "")])), "?=&=");
    assert_eq!(parameterise_list(strings(&["a", "b", "c"])), "a,b,c");
    assert_eq!(parameterise_list(strings(&["a"])), "a");
    assert_eq!(parameterise_list(vec![]), "");
}

#[test]
fn requests() {
    assert_eq!(QueryType::UserPlaylist.make_endpoint("x"), "x/me/playlists");
    assert_eq!(QueryType::UserFollowing.make_endpoint("x"), "x/me/following");
    assert_eq!(QueryType::UserSavedAlbums.make_endpoint("x"), "x/me/albums");
    assert_eq!(QueryType::UserSavedTracks.make_endpoint("x"), "x/me/tracks");
    assert_eq!(QueryType::Search.make_endpoint("x"), "x/search");
    assert_eq!(QueryType::Root.make_endpoint("x"), "x");
    APIQuery::new();
    let q = APIQuery::playlists(Some(50), Some(100));
    assert_eq!(q.url, "https://api.spotify.com/v1/me/playlists");
    assert_eq!(q.params(), pairs(&[("limit", "50"), ("offset", "100")]));
    assert_eq!(q.request_url(), "https://api.spotify.com/v1/me/playlists?limit=50&offset=100");
    let q = APIQuery::saved_albums(None, Some(0));
    assert_eq!(q.request_url(), "https://api.spotify.com/v1/me/albums?offset=0");
    let q = APIQuery::playlist_tracks("id".to_string());
    assert_eq!(q.request_url(), "https://api.spotify.com/v1/me/albums?");
    assert_eq!(q.fields, Some(String::new()));
    assert_eq!(APIQuery::authorization("tok"), "Bearer tok");
    assert_eq!(API_ENDPOINT, "https://api.spotify.com/v1");
}

#[test]
fn dates_are_read_in_the_order_of_their_source() {
    assert_eq!(
        read("2024-02-29", DateSource::Spotify),
        Ok(date(DateScope::Day, 2024, Some(2), Some(29)))
    );
    assert_eq!(
        read("29/02/2024", DateSource::User),
        Ok(date(DateScope::Day, 2024, Some(2), Some(29)))
    );
    assert_eq!(read("2024-03", DateSource::Spotify), Ok(date(DateScope::Month, 2024, Some(3), None)));
    assert_eq!(read("3-2024", DateSource::User), Ok(date(DateScope::Month, 2024, Some(3), None)));
    assert_eq!(read("1999", DateSource::User), Ok(date(DateScope::Year, 1999, None, None)));
    assert_eq!(read("+1999", DateSource::Spotify), Ok(date(DateScope::Year, 1999, None, None)));
    assert_eq!(read("+1/+2/+2003", DateSource::User), Ok(date(DateScope::Day, 2003, Some(2), Some(1))));
}

#[test]
fn short_years_are_completed() {
    // a year of two digits lies in the twentieth century where 2000 + year lies before the
    // current year, and in the twenty-first where it does not
    assert_eq!(read("25", DateSource::User).unwrap().year, 1925);
    assert_eq!(read("26", DateSource::User).unwrap().year, 2026);
    assert_eq!(read("99", DateSource::User).unwrap().year, 2099);
    assert_eq!(read("0", DateSource::User).unwrap().year, 1900);
    assert_eq!(read("100", DateSource::User).unwrap().year, 100);
    assert_eq!(Date::new_at("5".to_string(), DateSource::User, 0).unwrap().year, 2005);
    let today = Date::new("3/04".to_string(), DateSource::User).unwrap();
    assert!(today.year == 1904 || today.year == 2004);
    assert_eq!(today.month, Some(3));
}

#[test]
fn texts_that_are_no_dates() {
    assert_eq!(read("1/2-2003", DateSource::User), Err(DateError::AmbiguousDelimiter));
    assert_eq!(read("", DateSource::User), Err(DateError::NotAYear));
    assert_eq!(read("year", DateSource::User), Err(DateError::NotAYear));
    assert_eq!(read("4294967296", DateSource::User), Err(DateError::NotAYear));
    assert_eq!(read("4294967295", DateSource::User).unwrap().year, u32::MAX);
    assert_eq!(read("x/2000", DateSource::User), Err(DateError::MonthPart));
    assert_eq!(read("256/2000", DateSource::User), Err(DateError::MonthPart));
    assert_eq!(read("2000/1", DateSource::User), Err(DateError::MonthPart));
    assert_eq!(read("1/x", DateSource::User), Err(DateError::YearPart));
    assert_eq!(read("/", DateSource::User), Err(DateError::MonthPart));
    assert_eq!(read("x/1/2000", DateSource::User), Err(DateError::DayPart));
    assert_eq!(read("2000-1-x", DateSource::Spotify), Err(DateError::DayPart));
    assert_eq!(read("1/x/2000", DateSource::User), Err(DateError::MonthPart));
    assert_eq!(read("1/1/-5", DateSource::User), Err(DateError::AmbiguousDelimiter));
    assert_eq!(read("1/1/x", DateSource::User), Err(DateError::YearPart));
    assert_eq!(read("1/2/3/4", DateSource::User), Err(DateError::Parts));
    assert_eq!(read("13/2000", DateSource::User), Err(DateError::InvalidMonth(13)));
    assert_eq!(read("0/2000", DateSource::User), Err(DateError::InvalidMonth(0)));
    assert_eq!(read("32/1/2000", DateSource::User), Err(DateError::InvalidDay { day: 32, month: 1 }));
    assert_eq!(read("31/4/2000", DateSource::User), Err(DateError::InvalidDay { day: 31, month: 4 }));
    assert_eq!(read("30/2/2000", DateSource::User), Err(DateError::InvalidDay { day: 30, month: 2 }));
}

#[test]
fn the_days_of_the_months() {
    let day = |d: u8, m: u8| date(DateScope::Day, 2001, Some(m), Some(d)).validate();
    for month in [1, 3, 5, 7, 10, 12] {
        assert!(day(31, month).is_ok());
        assert_eq!(day(32, month), Err(DateError::InvalidDay { day: 32, month }));
    }
    for month in [4, 6, 9, 11] {
        assert!(day(30, month).is_ok());
        assert_eq!(day(31, month), Err(DateError::InvalidDay { day: 31, month }));
    }
    assert!(day(29, 2).is_ok());
    assert!(day(0, 2).is_ok());
    // the days of month 8 are not counted
    assert!(day(31, 8).is_ok());
    assert!(day(200, 8).is_ok());
    assert_eq!(day(1, 13), Err(DateError::InvalidMonth(13)));
    assert_eq!(Date::year(1987), Ok(date(DateScope::Year, 1987, None, None)));
    assert_eq!(Date::year(7), Ok(date(DateScope::Year, 7, None, None)));
}

#[test]
fn dates_as_text() {
    assert_eq!(date(DateScope::Day, 2024, Some(2), Some(9)).format(), "9/2/2024");
    assert_eq!(date(DateScope::Month, 2024, Some(12), None).format(), "12/2024");
    assert_eq!(date(DateScope::Year, 0, None, None).format(), "0");
    assert_eq!(date(DateScope::Year, u32::MAX, None, None).format(), "4294967295");
}

#[test]
fn dates_in_time() {
    let y2000 = date(DateScope::Year, 2000, None, None);
    let jan2000 = date(DateScope::Month, 2000, Some(1), None);
    let first = date(DateScope::Day, 2000, Some(1), Some(1));
    let leap = date(DateScope::Day, 2024, Some(2), Some(29));
    let eve = date(DateScope::Day, 1999, Some(12), Some(31));
    assert_eq!(y2000.unix_time(), Some(946684800));
    assert_eq!(jan2000.unix_time(), Some(946684800));
    assert_eq!(first.unix_time(), Some(946684800));
    assert_eq!(leap.unix_time(), Some(1709164800));
    assert_eq!(eve.unix_time(), Some(946598400));
    assert_eq!(date(DateScope::Year, 1970, None, None).unix_time(), Some(0));
    assert_eq!(date(DateScope::Day, 2023, Some(2), Some(29)).unix_time(), None);
    assert_eq!(date(DateScope::Day, 2023, Some(8), Some(200)).unix_time(), None);
    assert_eq!(date(DateScope::Day, 2023, Some(1), Some(0)).unix_time(), None);
    assert_eq!(date(DateScope::Year, u32::MAX, None, None).unix_time(), None);
    assert_eq!(date(DateScope::Year, 300_000, None, None).unix_time(), None);
    assert!(first.same(&first));
    assert!(!first.same(&y2000));
    assert!(!first.same(&leap));
    assert_eq!(first.order(&first), Some(DateOrder::Equal));
    assert_eq!(eve.order(&first), Some(DateOrder::Less));
    assert_eq!(leap.order(&first), Some(DateOrder::Greater));
    // a year and its first day begin at the same time and are not the same
    assert_eq!(y2000.order(&first), None);
    assert_eq!(y2000.lt(&first), Some(false));
    assert_eq!(y2000.le(&first), Some(true));
    assert_eq!(y2000.ge(&first), Some(true));
    assert_eq!(y2000.gt(&first), Some(false));
    assert_eq!(eve.lt(&y2000), Some(true));
    assert_eq!(eve.gt(&y2000), Some(false));
    assert_eq!(leap.ge(&jan2000), Some(true));
    assert_eq!(leap.le(&jan2000), Some(false));
    let never = date(DateScope::Day, 2023, Some(2), Some(30));
    assert_eq!(never.lt(&first), None);
    assert_eq!(first.ge(&never), None);
    assert_eq!(never.order(&first), None);
    assert_eq!(never.order(&never), Some(DateOrder::Equal));
}

#[test]
fn the_clock() {
    // after 2020 and before 2100
    let now = secs_now();
    assert!(now > 1_577_836_800 && now < 4_102_444_800);
    assert!(secs_now() >= now);
}

#[test]
fn files() {
    assert_eq!(File::folder_path("linux"), Ok(strings(&[".config", "spotifyQL"])));
    assert_eq!(File::folder_path("macos"), Ok(strings(&[".config", "spotifyQL"])));
    assert_eq!(File::folder_path("windows"), Ok(strings(&["AppData", "Local", "spotifyQL"])));
    assert_eq!(File::folder_path("Linux"), Err(FileError::UnsupportedOs));
    assert_eq!(File::Auth.path("linux"), Ok(strings(&[".config", "spotifyQL", "auth.json"])));
    assert_eq!(
        File::Config.path("windows"),
        Ok(strings(&["AppData", "Local", "spotifyQL", "config.json"]))
    );
    assert_eq!(File::Auth.path("freebsd"), Err(FileError::UnsupportedOs));
    assert!(WriteMode::Overwrite.truncates());
    assert!(!WriteMode::Append.truncates());
}

#[test]
fn commands() {
    let run = |args: &[&str]| RunContext::new(strings(args)).command;
    assert_eq!(run(&["/usr/bin/spotifyQL", "login"]), Command::Login);
    assert_eq!(run(&["spotifyQL", "logout", "login"]), Command::Logout);
    assert_eq!(run(&["spotifyQL", "anything"]), Command::CLI);
    assert_eq!(run(&["spotifyQL", "x/spotifyQL", "Login"]), Command::CLI);
    assert_eq!(run(&["login"]), Command::Login);
    assert_eq!(run(&["spotifyQL.exe"]), Command::CLI);
    assert_eq!(read_command("/exit"), InputCommand::Exit);
    assert_eq!(read_command("/test"), InputCommand::Test);
    assert_eq!(read_command("/testf"), InputCommand::Query(TEST_FILTER.to_string()));
    assert_eq!(
        read_command("/testd"),
        InputCommand::Query("SELECT id, name FROM playlist(\"all\");".to_string())
    );
    assert_eq!(
        read_command("/testb"),
        InputCommand::Query(
            "SELECT id, name FROM playlist(\"all\") WHERE name == \"test\" AND id == 1;".to_string()
        )
    );
    assert_eq!(read_command("/Exit"), InputCommand::Query("/Exit".to_string()));
    assert_eq!(read_command(""), InputCommand::Query(String::new()));
}

#[test]
fn the_code_of_the_redirect() {
    assert_eq!(extract_code("code=abc".to_string()), Ok("abc".to_string()));
    assert_eq!(extract_code("code=abc&state=x".to_string()), Ok("abc".to_string()));
    assert_eq!(extract_code("code=".to_string()), Ok(String::new()));
    assert_eq!(extract_code("code=a=b".to_string()), Ok("a=b".to_string()));
    // the code ends where `code=` stands again
    assert_eq!(extract_code("code=abcode=def".to_string()), Ok("ab".to_string()));
    assert_eq!(extract_code("code=code=x".to_string()), Ok(String::new()));
    assert_eq!(extract_code("state=x&code=abc".to_string()), Err(AuthError::InvalidRedirect));
    assert_eq!(extract_code("Code=abc".to_string()), Err(AuthError::InvalidRedirect));
    assert_eq!(extract_code("cod".to_string()), Err(AuthError::InvalidRedirect));
    assert_eq!(extract_code("".to_string()), Err(AuthError::InvalidRedirect));
    assert_eq!(extract_code("&code=abc".to_string()), Err(AuthError::InvalidRedirect));
}

#[test]
fn the_address_of_the_sign_in() {
    assert_eq!(
        authorize_url("client", "challenge"),
        "https://accounts.spotify.com/authorize?response_type=code&client_id=client\
         &scope=playlist-read-private,user-library-read,user-follow-read\
         &code_challenge_method=S256&code_challenge=challenge&redirect_uri=http://127.0.0.1:5907"
    );
}

#[test]
fn digests_and_base64() {
    let digest = sha256("abc");
    assert_eq!(
        digest,
        vec![
            0xba, 0x78, 0x16, 0xbf, 0x8f, 0x01, 0xcf, 0xea, 0x41, 0x41, 0x40, 0xde, 0x5d, 0xae,
            0x22, 0x23, 0xb0, 0x03, 0x61, 0xa3, 0x96, 0x17, 0x7a, 0x9c, 0xb4, 0x10, 0xff, 0x61,
            0xf2, 0x00, 0x15, 0xad
        ]
    );
    assert_eq!(b64(&digest), "ungWv48Bz-pBQUDeXa4iI7ADYaOWF3qctBD_YfIAFa0");
    assert_eq!(b64(&[0xfb, 0xff, 0xfe]), "-__-");
    assert_eq!(b64(b"ab"), "YWI");
    assert_eq!(b64(b""), "");
    assert_eq!(code_challenge("verifier"), "iMnq5o6zALKXGivsnlom/0F5/WYda32GHkxlV7mq7hQ=");
    assert_eq!(sha256("").len(), 32);
    assert_eq!(make_url_safe("a+b/c=="), "a-b_c");
    assert_eq!(make_url_safe(""), "");
}

#[test]
fn code_verifiers() {
    // 0 and 63 pick the empty places, 1 picks `A` and 62 picks `9`
    assert_eq!(verifier_from(&[0, 1, 26, 27, 52, 53, 62, 63, 64, 65, 255]), "AZaz09A");
    assert_eq!(verifier_from(&[]), "");
    let verifier = code_verifier().unwrap();
    assert!(verifier.len() <= 128);
    assert!(verifier.chars().all(|c| c.is_ascii_alphanumeric()));
    assert_ne!(verifier, code_verifier().unwrap());
}

#[test]
fn tokens() {
    let response = AccessTokenResponse {
        access_token: "at".to_string(),
        token_type: "Bearer".to_string(),
        expires_in: 3600,
        refresh_token: "rt".to_string(),
        scope: "s".to_string(),
    };
    assert_eq!(
        create_file_content(response.clone(), 1000),
        AuthFileContent {
            token: "at".to_string(),
            refresh_token: "rt".to_string(),
            expires_after: 4600
        }
    );
    let request = access_token_request(
        "id".to_string(),
        "code".to_string(),
        "verifier".to_string(),
        "http://r".to_string(),
    );
    assert_eq!(request.grant_type, "authorization_code");
    assert_eq!(request.client_id, "id");
    assert_eq!(request.code, "code");
    assert_eq!(request.code_verifier, "verifier");
    assert_eq!(request.redirect_uri, "http://r");
    assert_eq!(check_token_response(200, "body".to_string()), Ok("body".to_string()));
    assert_eq!(check_token_response(400, "body".to_string()), Err(AuthError::Refused));
    let mut cx = AppContext::default();
    assert_eq!(cx.client_id, CLIENT_ID);
    assert_eq!(cx.client_id, "d46aab9576a9435593e70791f3cf70d7");
    assert!(cx.signed_out());
    assert_eq!(cx.expires_after, 0);
    assert_eq!(cx.user_config, UserConfig { debug: false });
    apply_refresh(&mut cx, &response, 50);
    assert_eq!((cx.token.as_str(), cx.refresh_token.as_str(), cx.expires_after), ("at", "rt", 3650));
    assert!(!cx.signed_out());
    let request = refresh_request(&cx);
    assert_eq!(request.grant_type, "refresh_token");
    assert_eq!(request.refresh_token, "rt");
    assert_eq!(request.client_id, CLIENT_ID);
    let cx = AppContext::with_auth(
        AuthFileContent { token: "t".to_string(), refresh_token: "r".to_string(), expires_after: 9 },
        UserConfig { debug: true },
    );
    assert_eq!((cx.token.as_str(), cx.refresh_token.as_str(), cx.expires_after), ("t", "r", 9));
    assert!(cx.user_config.debug);
    assert_eq!(cx.data.playlist_data, None);
    assert_eq!(UserConfig::default(), UserConfig { debug: false });
}

#[test]
fn the_clock_is_read_only_for_short_years() {
    let last_century = 946_684_799; // the last second of 1999
    assert_eq!(
        Date::new_with("2024-02-29".to_string(), DateSource::Spotify, None),
        Ok(date(DateScope::Day, 2024, Some(2), Some(29)))
    );
    assert_eq!(Date::new_with("24".to_string(), DateSource::User, None), Err(DateError::NoClock));
    assert_eq!(
        Date::new_with("24".to_string(), DateSource::User, Some(u64::MAX)),
        Err(DateError::NoClock)
    );
    assert_eq!(
        Date::new_with("24".to_string(), DateSource::User, Some(last_century)).unwrap().year,
        2024
    );
    assert_eq!(
        Date::new_with("24".to_string(), DateSource::User, Some(last_century + 1)).unwrap().year,
        2024
    );
    // 2025 lies behind 2000 + 24
    assert_eq!(
        Date::new_with("24".to_string(), DateSource::User, Some(1_735_689_600)).unwrap().year,
        1924
    );
    assert_eq!(Date::new_with("x".to_string(), DateSource::User, None), Err(DateError::NotAYear));
    assert_eq!(year_of_reading(Some(0)), Some(1970));
    assert_eq!(year_of_reading(Some(last_century)), Some(1999));
    assert_eq!(year_of_reading(Some(1_709_164_800)), Some(2024));
    assert_eq!(year_of_reading(None), None);
    assert_eq!(year_of_reading(Some(u64::MAX)), None);
    assert_eq!(year_of_reading(Some(i64::MAX as u64)), None);
    assert_eq!(Date::read("3/2024", DateSource::User), Ok(date(DateScope::Month, 2024, Some(3), None)));
    assert_eq!(Date::read("5", DateSource::User).unwrap().year, 5);
    assert_eq!(date(DateScope::Year, 5, None, None).complete(2026).unwrap().year, 1905);
}

#[test]
fn what_the_program_may_be_asked() {
    assert!(RunContext::has_command(&strings(&["spotifyQL", "login"])));
    assert!(!RunContext::has_command(&strings(&["spotifyQL", "/bin/spotifyQL"])));
    assert!(!RunContext::has_command(&vec![]));
    assert!(check_expiry(u64::MAX - 1, 1));
    assert!(!check_expiry(u64::MAX, 1));
    assert!(check_hashable("a verifier"));
}
