//! Teams and players: the active rosters of the day, and sweeps over every
//! team and player the archive knows of.

use vstd::prelude::*;

use crate::workers::{contains_id, distinct, no_repeats};

verus! {

/// Polls every team of the day with its roster, then each rostered player.
pub struct PollActiveRosters;

impl PollActiveRosters {
    pub fn interval_secs() -> (r: u64)
        ensures
            r == 1200,
    {
        1200
    }
}

/// Sweeps every known team and player, hourly, first ten minutes after start.
pub struct PollAllLeagueData;

impl PollAllLeagueData {
    pub fn interval_secs() -> (r: u64)
        ensures
            r == 3600,
    {
        3600
    }

    pub fn first_delay_secs() -> (r: u64)
        ensures
            r == 600,
    {
        600
    }
}

/// What the archive reads of a team: its id and its roster's player ids.
pub struct TeamSummary {
    pub id: u128,
    pub roster: Vec<u128>,
}

/// The players of every roster, one roster after another.
pub open spec fn spec_roster_ids(teams: Seq<TeamSummary>) -> Seq<u128>
    decreases teams.len(),
{
    if teams.len() == 0 {
        seq![]
    } else {
        spec_roster_ids(teams.drop_last()) + teams.last().roster@
    }
}

/// The players of every roster, one roster after another.
pub fn roster_ids(teams: &Vec<TeamSummary>) -> (r: Vec<u128>)
    ensures
        r@ == spec_roster_ids(teams@),
{
    let mut r: Vec<u128> = Vec::new();
    let mut i: usize = 0;
    while i < teams.len()
        invariant
            i <= teams@.len(),
            r@ == spec_roster_ids(teams@.subrange(0, i as int)),
        decreases teams@.len() - i,
    {
        let ghost prefix = teams@.subrange(0, i as int + 1);
        assert(prefix.drop_last() =~= teams@.subrange(0, i as int));
        let roster = &teams[i].roster;
        let mut j: usize = 0;
        let ghost before = r@;
        while j < roster.len()
            invariant
                j <= roster@.len(),
                r@ == before + roster@.subrange(0, j as int),
            decreases roster@.len() - j,
        {
            r.push(roster[j]);
            j = j + 1;
            assert(r@ =~= before + roster@.subrange(0, j as int));
        }
        assert(roster@.subrange(0, roster@.len() as int) =~= roster@);
        i = i + 1;
    }
    assert(teams@.subrange(0, teams@.len() as int) =~= teams@);
    r
}

/// The players to sweep: the known ones and every rostered one, each once.
pub fn league_player_ids(known_players: &Vec<u128>, teams: &Vec<TeamSummary>) -> (r: Vec<u128>)
    ensures
        no_repeats(r@),
        r@.to_set() == known_players@.to_set().union(spec_roster_ids(teams@).to_set()),
{
    let mut all = roster_ids(teams);
    let ghost rostered = all@;
    let mut known: Vec<u128> = Vec::new();
    let mut i: usize = 0;
    while i < known_players.len()
        invariant
            i <= known_players@.len(),
            known@ == known_players@.subrange(0, i as int),
        decreases known_players@.len() - i,
    {
        known.push(known_players[i]);
        i = i + 1;
        assert(known@ =~= known_players@.subrange(0, i as int));
    }
    assert(known@ =~= known_players@);
    known.append(&mut all);
    proof {
        vstd::seq_lib::seq_to_set_distributes_over_add(known_players@, rostered);
    }
    distinct(&known)
}

/// The team ids the players were seen on, each once.
pub open spec fn spec_player_teams(teams: Seq<Option<u128>>) -> Seq<u128>
    decreases teams.len(),
{
    if teams.len() == 0 {
        seq![]
    } else {
        match teams.last() {
            Some(t) => spec_player_teams(teams.drop_last()).push(t),
            None => spec_player_teams(teams.drop_last()),
        }
    }
}

/// The teams the players were seen on that are not among `known_teams`, each once.
pub fn unseen_team_ids(player_teams: &Vec<Option<u128>>, known_teams: &Vec<u128>) -> (r: Vec<u128>)
    ensures
        no_repeats(r@),
        r@.to_set() == spec_player_teams(player_teams@).to_set().difference(known_teams@.to_set()),
        forall|t: u128| #[trigger] r@.contains(t) <==> (seen_on(player_teams@, t) && !known_teams@.contains(t)),
{
    let mut found: Vec<u128> = Vec::new();
    let mut i: usize = 0;
    while i < player_teams.len()
        invariant
            i <= player_teams@.len(),
            found@.to_set() == spec_player_teams(player_teams@.subrange(0, i as int)).to_set().difference(
                known_teams@.to_set(),
            ),
        decreases player_teams@.len() - i,
    {
        let ghost prefix = player_teams@.subrange(0, i as int + 1);
        assert(prefix.drop_last() =~= player_teams@.subrange(0, i as int));
        let ghost seen = spec_player_teams(player_teams@.subrange(0, i as int));
        match player_teams[i] {
            Some(t) => {
                proof {
                    seen.lemma_push_to_set_commute(t);
                }
                if !contains_id(known_teams, t) {
                    let ghost before = found@;
                    found.push(t);
                    proof {
                        before.lemma_push_to_set_commute(t);
                    }
                    assert(found@.to_set() =~= seen.push(t).to_set().difference(known_teams@.to_set()));
                } else {
                    assert(found@.to_set() =~= seen.push(t).to_set().difference(known_teams@.to_set()));
                }
            },
            None => {},
        }
        i = i + 1;
    }
    assert(player_teams@.subrange(0, player_teams@.len() as int) =~= player_teams@);
    let r = distinct(&found);
    assert forall|t: u128| #[trigger] r@.contains(t) <==> (seen_on(player_teams@, t) && !known_teams@.contains(t)) by {
        lemma_unseen_teams_exact(player_teams@, known_teams@, t);
        assert(r@.contains(t) == r@.to_set().contains(t));
    }
    r
}

/// Whether some player was seen on team `t`.
pub open spec fn seen_on(player_teams: Seq<Option<u128>>, t: u128) -> bool {
    exists|i: int| 0 <= i < player_teams.len() && #[trigger] player_teams[i] == Some(t)
}

/// The teams read from the players are exactly the teams some player was
/// seen on.
pub proof fn lemma_player_teams_seen(player_teams: Seq<Option<u128>>, t: u128)
    ensures
        spec_player_teams(player_teams).contains(t) <==> seen_on(player_teams, t),
    decreases player_teams.len(),
{
    if player_teams.len() > 0 {
        let init = player_teams.drop_last();
        lemma_player_teams_seen(init, t);
        let n = player_teams.len() - 1;
        if seen_on(init, t) {
            let i = choose|i: int| 0 <= i < init.len() && #[trigger] init[i] == Some(t);
            assert(player_teams[i] == Some(t));
        }
        if seen_on(player_teams, t) {
            let i = choose|i: int| 0 <= i < player_teams.len() && #[trigger] player_teams[i] == Some(t);
            if i < n {
                assert(init[i] == Some(t));
            }
        }
        match player_teams.last() {
            Some(u) => {
                let rest = spec_player_teams(init);
                assert(spec_player_teams(player_teams) == rest.push(u));
                if rest.contains(t) {
                    let k = choose|k: int| 0 <= k < rest.len() && rest[k] == t;
                    assert(rest.push(u)[k] == t);
                }
                if u == t {
                    assert(rest.push(u)[rest.len() as int] == t);
                    assert(player_teams[n] == Some(t));
                }
                if rest.push(u).contains(t) && u != t {
                    let k = choose|k: int| 0 <= k < rest.len() + 1 && rest.push(u)[k] == t;
                    assert(rest[k] == t);
                }
            },
            None => {},
        }
    }
}

/// The teams to fetch are exactly those some player was seen on and that
/// are not known yet: a team a player is on is returned unless it is known,
/// and nothing else is returned.
pub proof fn lemma_unseen_teams_exact(player_teams: Seq<Option<u128>>, known_teams: Seq<u128>, t: u128)
    ensures
        spec_player_teams(player_teams).to_set().difference(known_teams.to_set()).contains(t) <==> (
        seen_on(player_teams, t) && !known_teams.contains(t)),
{
    lemma_player_teams_seen(player_teams, t);
}

} // verus!
