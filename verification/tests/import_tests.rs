use chron::import::{import_fetch, parse_fetch, route, shape_ok, skip_status, FetchError, FetchItem, Route};
use chron::json::Json;
use chron::models::EntityKind;

const SEASON: u128 = 0x11111111_2222_3333_4444_555555555555;
const ID_A: u128 = 0xaaaaaaaa_0000_0000_0000_000000000001;
const ID_B: u128 = 0xbbbbbbbb_0000_0000_0000_000000000002;

const S: &str = "11111111-2222-3333-4444-555555555555";
const A: &str = "aaaaaaaa-0000-0000-0000-000000000001";
const B: &str = "bbbbbbbb-0000-0000-0000-000000000002";
const API: &str = "https://api2.blaseball.com";

fn to_json(v: &serde_json::Value) -> Json {
    match v {
        serde_json::Value::Null => Json::Null,
        serde_json::Value::Bool(b) => Json::Bool(*b),
        serde_json::Value::Number(n) => Json::Number(n.to_string()),
        serde_json::Value::String(s) => Json::String(s.clone()),
        serde_json::Value::Array(a) => Json::Array(a.iter().map(to_json).collect()),
        serde_json::Value::Object(o) => Json::Object(o.iter().map(|(k, v)| (k.clone(), to_json(v))).collect()),
    }
}

fn from_json(j: &Json) -> serde_json::Value {
    match j {
        Json::Null => serde_json::Value::Null,
        Json::Bool(b) => serde_json::Value::Bool(*b),
        Json::Number(n) => serde_json::Value::Number(n.parse().unwrap()),
        Json::String(s) => serde_json::Value::String(s.clone()),
        Json::Array(a) => serde_json::Value::Array(a.iter().map(from_json).collect()),
        Json::Object(o) => serde_json::Value::Object(o.iter().map(|(k, v)| (k.clone(), from_json(v))).collect()),
    }
}

fn parse(text: &str) -> Json {
    to_json(&serde_json::from_str::<serde_json::Value>(text).unwrap())
}

fn value(text: &str) -> serde_json::Value {
    serde_json::from_str(text).unwrap()
}

fn items(r: Result<Vec<FetchItem>, FetchError>) -> Vec<(EntityKind, u128, serde_json::Value)> {
    match r {
        Ok(v) => v.iter().map(|i| (i.kind, i.entity_id, from_json(&i.data))).collect(),
        Err(e) => panic!("import refused: {:?}", e),
    }
}

fn import(url: &str, body: &str) -> Vec<(EntityKind, u128, serde_json::Value)> {
    let data = Some(parse(body));
    assert!(shape_ok(url, &data));
    items(parse_fetch(url, data))
}

#[test]
fn routes_in_rule_order() {
    assert_eq!(route("https://ateb-api2.example/sim"), Route::Skip);
    assert_eq!(route(&format!("{}/seasons/{}/days/3/players/{}", API, S, A)), Route::Player);
    assert_eq!(route(&format!("{}/seasons/{}/games/{}", API, S, A)), Route::Game);
    assert_eq!(route(&format!("{}/seasons/{}/games/{}/boxScore", API, S, A)), Route::BoxScore);
    assert_eq!(route(&format!("{}/feed?page=2", API)), Route::Feed);
    assert_eq!(route(&format!("{}/sim", API)), Route::Sim);
    assert_eq!(route(&format!("{}/temporal", API)), Route::Temporal);
    assert_eq!(route(&format!("{}/flagsmith", API)), Route::Flagsmith);
    assert_eq!(route(&format!("{}/user-ticker/user/x", API)), Route::Ticker);
    assert_eq!(route(&format!("{}/seasons/{}/elections", API, S)), Route::Elections);
    assert_eq!(route(&format!("{}/schedule/{}/2023-07-24/hourly", API, S)), Route::Hourly);
    assert_eq!(route(&format!("{}/schedule/{}", API, S)), Route::Schedule);
    assert_eq!(route(&format!("{}/schedule/{}/live", API, S)), Route::Schedule);
    assert_eq!(route(&format!("{}/other/live", API)), Route::Skip);
    assert_eq!(route(&format!("{}/seasons/{}/games", API, S)), Route::Games);
    assert_eq!(route(&format!("{}/seasons/{}/days/3/teams", API, S)), Route::Teams);
    assert_eq!(route(&format!("{}/something-else", API)), Route::Unknown);
}

#[test]
fn player_and_game_fetches() {
    let player = import(&format!("{}/seasons/{}/days/3/players/{}", API, S, A), r#"{"name": "x"}"#);
    assert_eq!(player, vec![(EntityKind::Player, ID_A, value(r#"{"name": "x"}"#))]);
    let game = import(&format!("{}/seasons/{}/games/{}", API, S, B), r#"{"id": "g", "fetchedAt": 5}"#);
    assert_eq!(game, vec![(EntityKind::Game, ID_B, value(r#"{"id": "g"}"#))]);
    let box_score = import(&format!("{}/seasons/{}/games/{}/boxScore", API, S, B), r#"{"fetchedAt": 5}"#);
    assert_eq!(box_score, vec![(EntityKind::BoxScore, ID_B, value(r#"{"fetchedAt": 5}"#))]);
}

#[test]
fn singleton_fetches() {
    assert_eq!(import(&format!("{}/sim", API), "{}"), vec![(EntityKind::Sim, 0, value("{}"))]);
    assert_eq!(import(&format!("{}/temporal", API), "1"), vec![(EntityKind::Temporal, 0, value("1"))]);
    assert_eq!(import(&format!("{}/flagsmith", API), "[]"), vec![(EntityKind::Flagsmith, 0, value("[]"))]);
    assert_eq!(
        import(&format!("{}/user-ticker/user/x", API), "null"),
        vec![(EntityKind::Ticker, 0, value("null"))]
    );
    assert_eq!(
        import(&format!("{}/seasons/{}/elections", API, S), "{}"),
        vec![(EntityKind::SeasonElections, SEASON, value("{}"))]
    );
    assert_eq!(
        import(&format!("{}/schedule/{}", API, S), "{}"),
        vec![(EntityKind::SeasonSchedule, SEASON, value("{}"))]
    );
}

#[test]
fn feed_fetch_splits_posts() {
    let body = format!(r#"{{"posts": [{{"id": "{}", "t": 1}}, {{"id": "{}", "t": 2}}]}}"#, A, B);
    let r = import(&format!("{}/feed?page=0", API), &body);
    assert_eq!(r.len(), 2);
    assert_eq!(r[0].0, EntityKind::Post);
    assert_eq!(r[0].1, ID_A);
    assert_eq!(r[1].1, ID_B);
    assert_eq!(r[1].2["t"], 2);
}

#[test]
fn hourly_fetch_splits_bet_data() {
    let body = format!(
        r#"[{{"betDatas": [{{"gameId": "{}"}}]}}, {{"betDatas": []}}, {{"betDatas": [{{"gameId": "{}", "odds": 2}}]}}]"#,
        A, B
    );
    let r = import(&format!("{}/schedule/{}/2023-07-24/hourly", API, S), &body);
    assert_eq!(r.len(), 2);
    assert_eq!(r[0].0, EntityKind::GameBetData);
    assert_eq!(r[0].1, ID_A);
    assert_eq!(r[1].1, ID_B);
    assert_eq!(r[1].2["odds"], 2);
}

#[test]
fn games_and_teams_fetches() {
    let games = format!(r#"[{{"id": "{}"}}, {{"id": "{}"}}]"#, B, A);
    let r = import(&format!("{}/seasons/{}/games", API, S), &games);
    let ids: Vec<u128> = r.iter().map(|x| x.1).collect();
    assert_eq!(ids, vec![ID_B, ID_A]);
    assert!(r.iter().all(|x| x.0 == EntityKind::Game));
    let teams = format!(r#"{{"a": [{{"id": "{}"}}], "b": [{{"id": "{}"}}, {{"id": "{}"}}]}}"#, A, B, A);
    let r = import(&format!("{}/seasons/{}/days/3/teams", API, S), &teams);
    let ids: Vec<u128> = r.iter().map(|x| x.1).collect();
    assert_eq!(ids, vec![ID_A, ID_B, ID_A]);
    assert!(r.iter().all(|x| x.0 == EntityKind::Team));
}

#[test]
fn skipped_and_unknown_fetches_hold_nothing() {
    assert!(import("https://ateb-api2.example/sim", "{}").is_empty());
    assert!(import(&format!("{}/other/live", API), "{}").is_empty());
    assert!(import(&format!("{}/nothing", API), "{}").is_empty());
    assert!(items(parse_fetch(&format!("{}/nothing", API), None)).is_empty());
}

#[test]
fn import_errors() {
    let bad_player = format!("{}/seasons/{}/days/3/players/not-an-id", API, S);
    assert!(matches!(parse_fetch(&bad_player, Some(parse("{}"))), Err(FetchError::InvalidId)));
    assert!(matches!(parse_fetch(&bad_player, None), Err(FetchError::InvalidId)));
    let sim = format!("{}/sim", API);
    assert!(matches!(parse_fetch(&sim, None), Err(FetchError::InvalidJson)));
    let live = format!("{}/schedule/other/live", API);
    assert!(matches!(parse_fetch(&live, Some(parse("{}"))), Err(FetchError::InvalidId)));
    let game = format!("{}/seasons/{}/games/{}", API, S, A);
    assert!(matches!(parse_fetch(&game, None), Err(FetchError::InvalidJson)));
    let feed = format!("{}/feed", API);
    let body = Some(parse(&format!(r#"{{"posts": [{{"id": "{}"}}, {{"id": "nope"}}]}}"#, A)));
    assert!(shape_ok(&feed, &body));
    assert!(matches!(parse_fetch(&feed, body), Err(FetchError::InvalidId)));
}

#[test]
fn shapes_that_would_panic_are_detected() {
    let feed = format!("{}/feed", API);
    assert!(!shape_ok(&feed, &Some(parse("[]"))));
    assert!(!shape_ok(&feed, &Some(parse(r#"{"posts": [{"id": 5}]}"#))));
    let games = format!("{}/seasons/{}/games", API, S);
    assert!(!shape_ok(&games, &Some(parse(r#"[{"id": "nope"}]"#))));
    assert!(!shape_ok(&games, &Some(parse("{}"))));
    let teams = format!("{}/days/3/teams", API);
    assert!(!shape_ok(&teams, &Some(parse(r#"{"a": 1}"#))));
    let hourly = format!("{}/schedule/{}/d/hourly", API, S);
    assert!(!shape_ok(&hourly, &Some(parse(r#"[{"other": []}]"#))));
    assert!(shape_ok(&hourly, &None));
    assert!(shape_ok(&format!("{}/sim", API), &Some(parse("5"))));
}

#[test]
fn refused_statuses_are_skipped() {
    assert!(skip_status(Some(500)));
    assert!(skip_status(Some(503)));
    assert!(skip_status(Some(401)));
    assert!(!skip_status(Some(200)));
    assert!(!skip_status(Some(404)));
    assert!(!skip_status(None));
}

#[test]
fn import_fetch_checks_the_shape_first() {
    let games = format!("{}/seasons/{}/games", API, S);
    assert!(import_fetch(&games, Some(parse(r#"[{"id": 3}]"#))).is_none());
    match import_fetch(&games, Some(parse(&format!(r#"[{{"id": "{}"}}]"#, A)))) {
        Some(r) => assert_eq!(items(r), vec![(EntityKind::Game, ID_A, value(&format!(r#"{{"id": "{}"}}"#, A)))]),
        None => panic!("shape refused"),
    }
    assert!(matches!(import_fetch(&format!("{}/sim", API), None), Some(Err(FetchError::InvalidJson))));
}
