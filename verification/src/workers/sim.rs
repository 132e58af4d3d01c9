//! The simulation's state and the documents polled alongside it.

use vstd::prelude::*;

use crate::boundary::uuid_text;
use crate::models::EntityKind;
use crate::workers::{
    api, flagsmith_url, season_path, temporal_url, ticker_url, tournament_url, tournaments_url, SimState,
};

verus! {

/// Polls the simulation, the feature flags, the ticker, the temporal state
/// and the season's tournaments.
pub struct PollSimData;

impl PollSimData {
    pub fn interval_secs() -> (r: u64)
        ensures
            r == 60,
    {
        60
    }
}

/// The simulation document.
pub struct SimData {
    pub sim_data: SimDataInner,
}

/// What the archive reads of the simulation.
pub struct SimDataInner {
    pub current_season_id: u128,
    pub current_day: i32,
    pub current_tournament_id: Option<u128>,
    pub banner: Option<String>,
}

impl SimData {
    /// The season and day the simulation is at.
    pub fn state(&self) -> (r: SimState)
        ensures
            r.season == self.sim_data.current_season_id,
            r.day == self.sim_data.current_day,
    {
        SimState { season: self.sim_data.current_season_id, day: self.sim_data.current_day }
    }
}

/// How a fetched document is stored.
#[derive(Clone, Copy, Debug, PartialEq, Eq, Structural)]
pub enum SaveAs {
    /// As an observation of this entity.
    Entity(EntityKind, u128),
    /// As an asset.
    Asset,
}

/// A document to fetch and how to store it.
pub struct FetchJob {
    pub url: String,
    pub save: SaveAs,
}

/// What the fetch jobs stand for: each URL with how it is stored.
pub open spec fn jobs_view(jobs: Seq<FetchJob>) -> Seq<(Seq<char>, SaveAs)> {
    jobs.map_values(|j: FetchJob| (j.url@, j.save))
}

/// The documents polled along with the simulation, in order: flags, ticker,
/// temporal state, the current tournament (if any), the season's
/// tournaments, and the banner image (if any).
pub open spec fn spec_sim_jobs(season: u128, tournament: Option<u128>, banner: Option<Seq<char>>) -> Seq<(Seq<char>, SaveAs)> {
    let fixed = seq![
        (api("/flagsmith"@), SaveAs::Entity(EntityKind::Flagsmith, 0)),
        (api("/user-ticker/user/be2e2189-85e1-400b-ad24-e717fb6483a5"@), SaveAs::Entity(EntityKind::Ticker, 0)),
        (api("/temporal"@), SaveAs::Entity(EntityKind::Temporal, 0)),
    ];
    let with_tournament = match tournament {
        Some(t) => fixed.push(
            (api(season_path(season) + "/tournaments/"@ + uuid_text(t)), SaveAs::Entity(EntityKind::Tournament, season)),
        ),
        None => fixed,
    };
    let with_all = with_tournament.push(
        (api(season_path(season) + "/tournaments"@), SaveAs::Entity(EntityKind::SeasonTournaments, season)),
    );
    match banner {
        Some(b) => with_all.push((b, SaveAs::Asset)),
        None => with_all,
    }
}

/// The documents to poll after reading `sim` in season `season`.
pub fn sim_poll_plan(season: u128, sim: &SimData) -> (r: Vec<FetchJob>)
    ensures
        jobs_view(r@) == spec_sim_jobs(
            season,
            sim.sim_data.current_tournament_id,
            match sim.sim_data.banner {
                Some(b) => Some(b@),
                None => None,
            },
        ),
{
    let mut jobs: Vec<FetchJob> = Vec::new();
    jobs.push(FetchJob { url: flagsmith_url(), save: SaveAs::Entity(EntityKind::Flagsmith, 0) });
    jobs.push(FetchJob { url: ticker_url(), save: SaveAs::Entity(EntityKind::Ticker, 0) });
    jobs.push(FetchJob { url: temporal_url(), save: SaveAs::Entity(EntityKind::Temporal, 0) });
    if let Some(t) = sim.sim_data.current_tournament_id {
        jobs.push(FetchJob { url: tournament_url(season, t), save: SaveAs::Entity(EntityKind::Tournament, season) });
    }
    jobs.push(FetchJob { url: tournaments_url(season), save: SaveAs::Entity(EntityKind::SeasonTournaments, season) });
    if let Some(b) = &sim.sim_data.banner {
        jobs.push(FetchJob { url: b.clone(), save: SaveAs::Asset });
    }
    assert(jobs_view(jobs@) =~= spec_sim_jobs(
        season,
        sim.sim_data.current_tournament_id,
        match sim.sim_data.banner {
            Some(b) => Some(b@),
            None => None,
        },
    ));
    jobs
}

} // verus!
