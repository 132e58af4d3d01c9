//! The ingest workers: the state they share, the endpoints they poll and
//! the decisions they take on what they fetch.

use vstd::prelude::*;

use crate::boundary::{uuid_text, uuid_to_string};
use crate::text::{decimal_text, i32_to_string};

pub mod assets;
pub mod elections;
pub mod games;
pub mod posts;
pub mod rosters;
pub mod schedule;
pub mod sim;

verus! {

/// The simulation's current season and day, as last seen.
#[derive(Clone, Copy, Debug, PartialEq, Eq, Structural)]
pub struct SimState {
    pub season: u128,
    pub day: i32,
}

impl SimState {
    /// The state before anything is known: the nil season, day -1.
    pub fn initial() -> (r: SimState)
        ensures
            r.season == 0 && r.day == -1,
    {
        SimState { season: 0, day: -1 }
    }
}

/// The game API's address followed by `path`.
pub open spec fn api(path: Seq<char>) -> Seq<char> {
    "https://api2.blaseball.com"@ + path
}

/// `/seasons/{season}`.
pub open spec fn season_path(season: u128) -> Seq<char> {
    "/seasons/"@ + uuid_text(season)
}

/// `/seasons/{season}/days/{day}`.
pub open spec fn day_path(season: u128, day: i32) -> Seq<char> {
    season_path(season) + "/days/"@ + decimal_text(day as int)
}

fn api_url(path: String) -> (r: String)
    ensures
        r@ == api(path@),
{
    String::from_str("https://api2.blaseball.com").concat(path.as_str())
}

fn season_path_text(season: u128) -> (r: String)
    ensures
        r@ == season_path(season),
{
    String::from_str("/seasons/").concat(uuid_to_string(season).as_str())
}

fn day_path_text(season: u128, day: i32) -> (r: String)
    ensures
        r@ == day_path(season, day),
{
    season_path_text(season).concat("/days/").concat(i32_to_string(day).as_str())
}

/// The current simulation state.
pub fn sim_url() -> (r: String)
    ensures
        r@ == api("/sim"@),
{
    api_url(String::from_str("/sim"))
}

/// The feature flags.
pub fn flagsmith_url() -> (r: String)
    ensures
        r@ == api("/flagsmith"@),
{
    api_url(String::from_str("/flagsmith"))
}

/// The ticker, read as the archive's own account.
pub fn ticker_url() -> (r: String)
    ensures
        r@ == api("/user-ticker/user/be2e2189-85e1-400b-ad24-e717fb6483a5"@),
{
    api_url(String::from_str("/user-ticker/user/be2e2189-85e1-400b-ad24-e717fb6483a5"))
}

/// The temporal state.
pub fn temporal_url() -> (r: String)
    ensures
        r@ == api("/temporal"@),
{
    api_url(String::from_str("/temporal"))
}

/// The account endpoint, where the favourite team is changed.
pub fn users_url() -> (r: String)
    ensures
        r@ == api("/users/"@),
{
    api_url(String::from_str("/users/"))
}

/// Every game of a season.
pub fn season_games_url(season: u128) -> (r: String)
    ensures
        r@ == api(season_path(season) + "/games"@),
{
    api_url(season_path_text(season).concat("/games"))
}

/// One game of a season.
pub fn game_url(season: u128, game: u128) -> (r: String)
    ensures
        r@ == api(season_path(season) + "/games/"@ + uuid_text(game)),
{
    api_url(season_path_text(season).concat("/games/").concat(uuid_to_string(game).as_str()))
}

/// A game's box score.
pub fn box_score_url(season: u128, game: u128) -> (r: String)
    ensures
        r@ == api(season_path(season) + "/games/"@ + uuid_text(game) + "/boxScore"@),
{
    api_url(season_path_text(season).concat("/games/").concat(uuid_to_string(game).as_str()).concat("/boxScore"))
}

/// A game's outcomes.
pub fn outcomes_url(season: u128, game: u128) -> (r: String)
    ensures
        r@ == api(season_path(season) + "/games/"@ + uuid_text(game) + "/outcomes"@),
{
    api_url(season_path_text(season).concat("/games/").concat(uuid_to_string(game).as_str()).concat("/outcomes"))
}

/// The games of a season being played now.
pub fn live_url(season: u128) -> (r: String)
    ensures
        r@ == api("/schedule/"@ + uuid_text(season) + "/live"@),
{
    api_url(String::from_str("/schedule/").concat(uuid_to_string(season).as_str()).concat("/live"))
}

/// A season's schedule.
pub fn schedule_url(season: u128) -> (r: String)
    ensures
        r@ == api("/schedule/"@ + uuid_text(season)),
{
    api_url(String::from_str("/schedule/").concat(uuid_to_string(season).as_str()))
}

/// The hourly schedule of one date of a season.
pub fn hourly_url(season: u128, date: &str) -> (r: String)
    ensures
        r@ == api("/schedule/"@ + uuid_text(season) + "/"@ + date@ + "/hourly"@),
{
    api_url(
        String::from_str("/schedule/").concat(uuid_to_string(season).as_str()).concat("/").concat(date).concat("/hourly"),
    )
}

/// One tournament of a season.
pub fn tournament_url(season: u128, tournament: u128) -> (r: String)
    ensures
        r@ == api(season_path(season) + "/tournaments/"@ + uuid_text(tournament)),
{
    api_url(season_path_text(season).concat("/tournaments/").concat(uuid_to_string(tournament).as_str()))
}

/// Every tournament of a season.
pub fn tournaments_url(season: u128) -> (r: String)
    ensures
        r@ == api(season_path(season) + "/tournaments"@),
{
    api_url(season_path_text(season).concat("/tournaments"))
}

/// A season's elections.
pub fn elections_url(season: u128) -> (r: String)
    ensures
        r@ == api(season_path(season) + "/elections"@),
{
    api_url(season_path_text(season).concat("/elections"))
}

/// Every team with its roster on a day of a season.
pub fn teams_url(season: u128, day: i32) -> (r: String)
    ensures
        r@ == api(day_path(season, day) + "/teams"@),
{
    api_url(day_path_text(season, day).concat("/teams"))
}

/// One team on a day of a season.
pub fn team_url(season: u128, day: i32, team: u128) -> (r: String)
    ensures
        r@ == api(day_path(season, day) + "/teams/"@ + uuid_text(team)),
{
    api_url(day_path_text(season, day).concat("/teams/").concat(uuid_to_string(team).as_str()))
}

/// One player on a day of a season.
pub fn player_url(season: u128, day: i32, player: u128) -> (r: String)
    ensures
        r@ == api(day_path(season, day) + "/players/"@ + uuid_text(player)),
{
    api_url(day_path_text(season, day).concat("/players/").concat(uuid_to_string(player).as_str()))
}

/// One page of the news feed.
pub fn feed_url(page: i32) -> (r: String)
    ensures
        r@ == api("/feed?page="@ + decimal_text(page as int)),
{
    api_url(String::from_str("/feed?page=").concat(i32_to_string(page).as_str()))
}

/// The forbidden book's text.
pub fn book_url() -> (r: String)
    ensures
        r@ == "https://blaseball-texts.s3.us-west-2.amazonaws.com/forbiddenbook.json"@,
{
    String::from_str("https://blaseball-texts.s3.us-west-2.amazonaws.com/forbiddenbook.json")
}

/// No id occurs twice in `ids`.
pub open spec fn no_repeats(ids: Seq<u128>) -> bool {
    forall|i: int, j: int| 0 <= i < j < ids.len() ==> ids[i] != ids[j]
}

/// The ids of `ids`, each once (a `HashSet` built from them).
pub fn distinct(ids: &Vec<u128>) -> (r: Vec<u128>)
    ensures
        no_repeats(r@),
        r@.to_set() == ids@.to_set(),
{
    let mut r: Vec<u128> = Vec::new();
    let mut i: usize = 0;
    while i < ids.len()
        invariant
            i <= ids@.len(),
            no_repeats(r@),
            r@.to_set() == ids@.subrange(0, i as int).to_set(),
        decreases ids@.len() - i,
    {
        let x = ids[i];
        let ghost prefix = ids@.subrange(0, i as int);
        assert(ids@.subrange(0, i as int + 1) == prefix.push(x));
        proof {
            prefix.lemma_push_to_set_commute(x);
        }
        if !contains_id(&r, x) {
            let ghost before = r@;
            r.push(x);
            proof {
                before.lemma_push_to_set_commute(x);
            }
            assert(no_repeats(r@)) by {
                assert forall|a: int, b: int| 0 <= a < b < r@.len() implies r@[a] != r@[b] by {
                    if b == r@.len() - 1 {
                        assert(before.contains(before[a]));
                    }
                }
            }
        } else {
            assert(r@.to_set().contains(x));
            assert(r@.to_set() =~= r@.to_set().insert(x));
        }
        i = i + 1;
    }
    assert(ids@.subrange(0, ids@.len() as int) =~= ids@);
    r
}

/// Whether `x` is one of `ids`.
pub fn contains_id(ids: &Vec<u128>, x: u128) -> (r: bool)
    ensures
        r == ids@.contains(x),
{
    let mut i: usize = 0;
    while i < ids.len()
        invariant
            i <= ids@.len(),
            forall|j: int| 0 <= j < i ==> ids@[j] != x,
        decreases ids@.len() - i,
    {
        if ids[i] == x {
            assert(ids@[i as int] == x);
            return true;
        }
        i = i + 1;
    }
    false
}

} // verus!
