use chron::http::ClientResponse;
use chron::json::Json;
use chron::models::EntityKind;
use chron::workers::assets::{book_objects, PollAssets};
use chron::workers::elections::{
    blessing_preferences, favorite_team_request, BlessingData, ElectionData, PollBlessingPreferences, PollElections,
};
use chron::workers::games::{
    all_games_plan, completed_games, outcome_objects, single_game_object, GameSummary, OutcomesError,
    PollAllGameOutcomes, PollAllGames, PollLiveGames,
};
use chron::workers::posts::{next_page, page_objects, PollPosts, PostSummary};
use chron::text::TextSet;
use chron::workers::rosters::{
    league_player_ids, roster_ids, unseen_team_ids, PollActiveRosters, PollAllLeagueData, TeamSummary,
};
use chron::workers::schedule::{bet_data_values, PollSchedule};
use chron::workers::sim::{sim_poll_plan, PollSimData, SaveAs, SimData, SimDataInner};
use chron::workers::{
    book_url, box_score_url, distinct, contains_id, elections_url, feed_url, flagsmith_url, game_url, hourly_url,
    live_url, outcomes_url, player_url, schedule_url, season_games_url, sim_url, team_url, teams_url, temporal_url,
    ticker_url, tournament_url, tournaments_url, users_url, SimState,
};
use std::hash::Hasher;
use siphasher::sip128::Hasher128;

const SEASON: u128 = 0x11111111_2222_3333_4444_555555555555;
const GAME_A: u128 = 0xaaaaaaaa_0000_0000_0000_000000000001;
const GAME_B: u128 = 0xbbbbbbbb_0000_0000_0000_000000000002;
const GAME_C: u128 = 0xcccccccc_0000_0000_0000_000000000003;

const S: &str = "11111111-2222-3333-4444-555555555555";
const A: &str = "aaaaaaaa-0000-0000-0000-000000000001";

fn to_json(v: &serde_json::Value) -> Json {
    match v {
        serde_json::Value::Null => Json::Null,
        serde_json::Value::Bool(b) => Json::Bool(*b),
        serde_json::Value::Number(n) => Json::Number(n.to_string()),
        serde_json::Value::String(s) => Json::String(s.clone()),
        serde_json::Value::Array(a) => Json::Array(a.iter().map(to_json).collect()),
        serde_json::Value::Object(o) => Json::Object(o.iter().map(|(k, v)| (k.clone(), to_json(v))).collect()),
    }
}

fn from_json(j: &Json) -> serde_json::Value {
    match j {
        Json::Null => serde_json::Value::Null,
        Json::Bool(b) => serde_json::Value::Bool(*b),
        Json::Number(n) => serde_json::Value::Number(n.parse().unwrap()),
        Json::String(s) => serde_json::Value::String(s.clone()),
        Json::Array(a) => serde_json::Value::Array(a.iter().map(from_json).collect()),
        Json::Object(o) => serde_json::Value::Object(o.iter().map(|(k, v)| (k.clone(), from_json(v))).collect()),
    }
}

fn parse(text: &str) -> Json {
    to_json(&serde_json::from_str::<serde_json::Value>(text).unwrap())
}

fn value(text: &str) -> serde_json::Value {
    serde_json::from_str(text).unwrap()
}

fn response(url: &str, data: &[u8]) -> ClientResponse {
    ClientResponse {
        url: url.to_string(),
        timestamp_before: 1_000_000,
        timestamp_after: 1_500_000,
        etag: None,
        content_type: Some("application/json".to_string()),
        last_modified: Some("Mon, 01 Jan 2024 00:00:00 GMT".to_string()),
        data: data.to_vec(),
        status_code: 200,
        was_cached: false,
    }
}

fn sip(data: &[u8]) -> u128 {
    let mut h = siphasher::sip128::SipHasher::new();
    h.write(data);
    h.finish128().as_u128()
}

#[test]
fn polling_intervals() {
    assert_eq!(PollAllGames::interval_secs(), 60);
    assert_eq!(PollLiveGames::interval_secs(), 8);
    assert_eq!(PollAllGameOutcomes::interval_secs(), 3600);
    assert_eq!(PollSimData::interval_secs(), 60);
    assert_eq!(PollPosts::interval_secs(), 30);
    assert_eq!(PollSchedule::interval_secs(), 120);
    assert_eq!(PollActiveRosters::interval_secs(), 1200);
    assert_eq!(PollAllLeagueData::interval_secs(), 3600);
    assert_eq!(PollAllLeagueData::first_delay_secs(), 600);
    assert_eq!(PollElections::interval_secs(), 60);
    assert_eq!(PollBlessingPreferences::interval_secs(), 300);
    assert_eq!(PollAssets::interval_secs(), 60);
}

#[test]
fn initial_sim_state() {
    assert_eq!(SimState::initial(), SimState { season: 0, day: -1 });
}

#[test]
fn fixed_urls() {
    assert_eq!(sim_url(), "https://api2.blaseball.com/sim");
    assert_eq!(flagsmith_url(), "https://api2.blaseball.com/flagsmith");
    assert_eq!(temporal_url(), "https://api2.blaseball.com/temporal");
    assert_eq!(users_url(), "https://api2.blaseball.com/users/");
    assert_eq!(
        ticker_url(),
        "https://api2.blaseball.com/user-ticker/user/be2e2189-85e1-400b-ad24-e717fb6483a5"
    );
    assert_eq!(book_url(), "https://blaseball-texts.s3.us-west-2.amazonaws.com/forbiddenbook.json");
}

#[test]
fn season_urls() {
    let base = format!("https://api2.blaseball.com/seasons/{}", S);
    assert_eq!(season_games_url(SEASON), format!("{}/games", base));
    assert_eq!(game_url(SEASON, GAME_A), format!("{}/games/{}", base, A));
    assert_eq!(box_score_url(SEASON, GAME_A), format!("{}/games/{}/boxScore", base, A));
    assert_eq!(outcomes_url(SEASON, GAME_A), format!("{}/games/{}/outcomes", base, A));
    assert_eq!(tournament_url(SEASON, GAME_A), format!("{}/tournaments/{}", base, A));
    assert_eq!(tournaments_url(SEASON), format!("{}/tournaments", base));
    assert_eq!(elections_url(SEASON), format!("{}/elections", base));
    assert_eq!(teams_url(SEASON, 5), format!("{}/days/5/teams", base));
    assert_eq!(team_url(SEASON, -1, GAME_A), format!("{}/days/-1/teams/{}", base, A));
    assert_eq!(player_url(SEASON, 120, GAME_A), format!("{}/days/120/players/{}", base, A));
}

#[test]
fn schedule_and_feed_urls() {
    assert_eq!(live_url(SEASON), format!("https://api2.blaseball.com/schedule/{}/live", S));
    assert_eq!(schedule_url(SEASON), format!("https://api2.blaseball.com/schedule/{}", S));
    assert_eq!(
        hourly_url(SEASON, "2023-07-24"),
        format!("https://api2.blaseball.com/schedule/{}/2023-07-24/hourly", S)
    );
    assert_eq!(feed_url(0), "https://api2.blaseball.com/feed?page=0");
    assert_eq!(feed_url(17), "https://api2.blaseball.com/feed?page=17");
}

#[test]
fn distinct_keeps_first_occurrences() {
    let ids = vec![3, 1, 3, 2, 1];
    let d = distinct(&ids);
    assert_eq!(d, vec![3, 1, 2]);
    assert!(contains_id(&ids, 2));
    assert!(!contains_id(&ids, 4));
    assert!(distinct(&vec![]).is_empty());
}

#[test]
fn all_games_subscribes_to_upcoming_games() {
    let resp = response("https://api2.blaseball.com/seasons/x/games", b"[]");
    let games = vec![
        (parse(r#"{"id": "a"}"#), GameSummary { id: GAME_A, day: 12, complete: false }),
        (parse(r#"{"id": "b"}"#), GameSummary { id: GAME_B, day: 3, complete: true }),
        (parse(r#"{"id": "c"}"#), GameSummary { id: GAME_C, day: 25, complete: false }),
        (parse(r#"{"id": "d"}"#), GameSummary { id: GAME_B, day: 24, complete: false }),
    ];
    let plan = all_games_plan(10, &resp, games);
    assert_eq!(
        plan.subscribe,
        vec![format!("game-feed-{}", A), format!("game-feed-{}", uuid::Uuid::from_u128(GAME_B))]
    );
    assert_eq!(plan.save.len(), 4);
    assert_eq!(plan.save[2].entity_id, GAME_C);
    assert_eq!(plan.save[2].kind, EntityKind::Game);
    assert_eq!(plan.save[2].timestamp, 1_000_000);
    assert_eq!(plan.save[2].request_time, 500_000);
    assert_eq!(from_json(&plan.save[2].data), value(r#"{"id": "c"}"#));
}

#[test]
fn live_games_rounds() {
    let mut live = PollLiveGames::new();
    let tick = live.start_tick(&vec![GAME_A, GAME_B]);
    assert_eq!(tick.subscribe, vec![format!("game-feed-{}", A), format!("game-feed-{}", uuid::Uuid::from_u128(GAME_B))]);
    assert_eq!(tick.poll, vec![GAME_A, GAME_B]);
    assert!(tick.poll_extra);
    live.finish_tick(
        &vec![GameSummary { id: GAME_A, day: 1, complete: true }, GameSummary { id: GAME_B, day: 1, complete: false }],
        tick.poll_extra,
    );
    let tick = live.start_tick(&vec![GAME_A, GAME_B]);
    assert_eq!(tick.poll, vec![GAME_B]);
    assert!(!tick.poll_extra);
    live.finish_tick(&vec![GameSummary { id: GAME_B, day: 1, complete: true }], tick.poll_extra);
    let tick = live.start_tick(&vec![GAME_A, GAME_B, GAME_C]);
    assert_eq!(tick.poll, vec![GAME_B, GAME_C]);
    assert!(tick.poll_extra);
}

#[test]
fn completed_games_in_order() {
    let games = vec![
        GameSummary { id: GAME_C, day: 1, complete: true },
        GameSummary { id: GAME_A, day: 1, complete: false },
        GameSummary { id: GAME_B, day: 2, complete: true },
    ];
    assert_eq!(completed_games(&games), vec![GAME_C, GAME_B]);
}

#[test]
fn single_game_drops_fetched_at() {
    let resp = response("u", b"{}");
    let obj = single_game_object(&resp, GAME_A, parse(r#"{"id": "a", "fetchedAt": 12, "day": 3}"#));
    assert_eq!(obj.kind, EntityKind::Game);
    assert_eq!(obj.entity_id, GAME_A);
    assert_eq!(obj.timestamp, 1_000_000);
    assert_eq!(obj.request_time, 500_000);
    assert_eq!(from_json(&obj.data), value(r#"{"id": "a", "day": 3}"#));
}

#[test]
fn outcomes_are_stored_whole_and_one_by_one() {
    let resp = response("u", b"[]");
    let body = parse(&format!(r#"[{{"id": "{}", "text": "x"}}, {{"text": "no id"}}]"#, A));
    let objs = match outcome_objects(&resp, GAME_B, body) {
        Ok(o) => o,
        Err(_) => panic!("outcomes refused"),
    };
    assert_eq!(objs.len(), 2);
    assert_eq!(objs[0].kind, EntityKind::GameOutcomes);
    assert_eq!(objs[0].entity_id, GAME_B);
    assert_eq!(from_json(&objs[0].data).as_array().unwrap().len(), 2);
    assert_eq!(objs[1].kind, EntityKind::GameOutcome);
    assert_eq!(objs[1].entity_id, GAME_A);
    assert_eq!(objs[1].request_time, 500_000);
    assert_eq!(from_json(&objs[1].data)["text"], "x");
}

#[test]
fn outcomes_edge_cases() {
    let resp = response("u", b"[]");
    match outcome_objects(&resp, GAME_B, parse("[]")) {
        Ok(o) => assert!(o.is_empty()),
        Err(_) => panic!("empty outcomes refused"),
    }
    assert!(matches!(outcome_objects(&resp, GAME_B, parse(r#"{"a": 1}"#)), Err(OutcomesError::NotAnArray)));
}

#[test]
fn sim_plan_with_tournament_and_banner() {
    let sim = SimData {
        sim_data: SimDataInner {
            current_season_id: SEASON,
            current_day: 7,
            current_tournament_id: Some(GAME_A),
            banner: Some("https://cdn.example/banner.png".to_string()),
        },
    };
    assert_eq!(sim.state(), SimState { season: SEASON, day: 7 });
    let jobs = sim_poll_plan(SEASON, &sim);
    let urls: Vec<&str> = jobs.iter().map(|j| j.url.as_str()).collect();
    assert_eq!(
        urls,
        vec![
            "https://api2.blaseball.com/flagsmith".to_string(),
            "https://api2.blaseball.com/user-ticker/user/be2e2189-85e1-400b-ad24-e717fb6483a5".to_string(),
            "https://api2.blaseball.com/temporal".to_string(),
            format!("https://api2.blaseball.com/seasons/{}/tournaments/{}", S, A),
            format!("https://api2.blaseball.com/seasons/{}/tournaments", S),
            "https://cdn.example/banner.png".to_string(),
        ]
    );
    let saves: Vec<SaveAs> = jobs.iter().map(|j| j.save).collect();
    assert_eq!(
        saves,
        vec![
            SaveAs::Entity(EntityKind::Flagsmith, 0),
            SaveAs::Entity(EntityKind::Ticker, 0),
            SaveAs::Entity(EntityKind::Temporal, 0),
            SaveAs::Entity(EntityKind::Tournament, SEASON),
            SaveAs::Entity(EntityKind::SeasonTournaments, SEASON),
            SaveAs::Asset,
        ]
    );
}

#[test]
fn sim_plan_without_extras() {
    let sim = SimData {
        sim_data: SimDataInner { current_season_id: SEASON, current_day: 0, current_tournament_id: None, banner: None },
    };
    let jobs = sim_poll_plan(SEASON, &sim);
    assert_eq!(jobs.len(), 4);
    assert_eq!(jobs[3].save, SaveAs::Entity(EntityKind::SeasonTournaments, SEASON));
}

#[test]
fn feed_paging() {
    assert_eq!(next_page(0, 3), Some(1));
    assert_eq!(next_page(1, 3), Some(2));
    assert_eq!(next_page(2, 3), None);
    assert_eq!(next_page(9, 3), None);
    assert_eq!(next_page(0, 1), None);
    assert_eq!(next_page(0, 0), None);
}

#[test]
fn bet_data_flattened_in_order() {
    let hours = vec![vec![parse("1"), parse("2")], vec![], vec![parse("3")]];
    let flat: Vec<serde_json::Value> = bet_data_values(hours).iter().map(from_json).collect();
    assert_eq!(flat, vec![value("1"), value("2"), value("3")]);
}

#[test]
fn rosters_and_league_players() {
    let teams = vec![
        TeamSummary { id: GAME_A, roster: vec![1, 2, 3] },
        TeamSummary { id: GAME_B, roster: vec![] },
        TeamSummary { id: GAME_C, roster: vec![3, 4] },
    ];
    assert_eq!(roster_ids(&teams), vec![1, 2, 3, 3, 4]);
    let mut all = league_player_ids(&vec![9, 1, 9], &teams);
    assert_eq!(all.len(), 5);
    all.sort();
    assert_eq!(all, vec![1, 2, 3, 4, 9]);
}

#[test]
fn unseen_teams_of_players() {
    let seen = vec![Some(GAME_A), None, Some(GAME_B), Some(GAME_A), Some(GAME_C)];
    let mut r = unseen_team_ids(&seen, &vec![GAME_B]);
    r.sort();
    assert_eq!(r, vec![GAME_A, GAME_C]);
    assert!(unseen_team_ids(&vec![None], &vec![]).is_empty());
}

#[test]
fn blessing_preferences_of_favourite_team() {
    let data = ElectionData {
        blessings: vec![
            BlessingData { id: GAME_A, favorite_team_top_option_ids: vec![GAME_B, GAME_C] },
            BlessingData { id: GAME_C, favorite_team_top_option_ids: vec![] },
        ],
        current_user_favorite_team: SEASON,
    };
    let prefs = blessing_preferences(data);
    assert_eq!(prefs.team_id, SEASON);
    assert_eq!(prefs.groups.len(), 2);
    assert_eq!(prefs.groups[0].id, GAME_A);
    assert_eq!(prefs.groups[0].top_option_ids, vec![GAME_B, GAME_C]);
    let j = from_json(&prefs.to_json());
    let expected = value(&format!(
        r#"{{"team_id": "{}", "groups": [{{"id": "{}", "top_option_ids": ["{}", "{}"]}}, {{"id": "{}", "top_option_ids": []}}]}}"#,
        S,
        A,
        uuid::Uuid::from_u128(GAME_B),
        uuid::Uuid::from_u128(GAME_C),
        uuid::Uuid::from_u128(GAME_C)
    ));
    assert_eq!(j, expected);
}

#[test]
fn favourite_team_request_body() {
    assert_eq!(from_json(&favorite_team_request(GAME_A)), value(&format!(r#"{{"favoriteTeam": "{}"}}"#, A)));
}

#[test]
fn book_stored_as_book_and_asset() {
    let url = "https://blaseball-texts.s3.us-west-2.amazonaws.com/forbiddenbook.json";
    let resp = response(url, b"{\"pages\": []}");
    let objs = book_objects(&resp, parse(r#"{"pages": []}"#));
    assert_eq!(objs.len(), 2);
    assert_eq!(objs[0].kind, EntityKind::ForbiddenBook);
    assert_eq!(objs[0].entity_id, 0);
    assert_eq!(from_json(&objs[0].data), value(r#"{"pages": []}"#));
    assert_eq!(objs[1].kind, EntityKind::Asset);
    assert_eq!(objs[1].entity_id, sip(url.as_bytes()));
    assert_eq!(objs[1].timestamp, 1_000_000);
    let asset = from_json(&objs[1].data);
    assert_eq!(asset["url"], url);
    assert_eq!(asset["hash"], uuid::Uuid::from_u128(sip(b"{\"pages\": []}")).to_string());
    assert_eq!(asset["data"], "eyJwYWdlcyI6IFtdfQ==");
    assert_eq!(asset["content_type"], "application/json");
}

#[test]
fn feed_page_objects_and_icons() {
    let resp = response("https://api2.blaseball.com/feed?page=0", b"{}");
    let mut icons = TextSet::new();
    icons.insert("https://cdn.example/old.png");
    let posts = vec![
        (parse(r#"{"n": 1}"#), PostSummary { id: GAME_A, profile_pin_url: Some("https://cdn.example/a.png".to_string()) }),
        (parse(r#"{"n": 2}"#), PostSummary { id: GAME_B, profile_pin_url: None }),
        (parse(r#"{"n": 3}"#), PostSummary { id: GAME_C, profile_pin_url: Some("https://cdn.example/a.png".to_string()) }),
    ];
    let objs = page_objects(&resp, posts, &mut icons);
    assert_eq!(objs.len(), 3);
    assert_eq!(objs[0].kind, EntityKind::Post);
    assert_eq!(objs[2].entity_id, GAME_C);
    assert_eq!(objs[1].timestamp, 1_000_000);
    assert_eq!(objs[1].request_time, 500_000);
    assert_eq!(from_json(&objs[1].data), value(r#"{"n": 2}"#));
    let mut all = icons.to_vec();
    all.sort();
    assert_eq!(all, vec!["https://cdn.example/a.png".to_string(), "https://cdn.example/old.png".to_string()]);
}
