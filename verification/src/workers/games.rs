//! Games: the season's game list, the games being played, and their outcomes.

use vstd::prelude::*;

use crate::db::NewObject;
use crate::http::ClientResponse;
use crate::json::{Json, spec_get_uuid, get_uuid};
use crate::models::EntityKind;
use crate::pusher::{game_feed_channel, spec_game_feed_channel};
use std::collections::HashSet;

verus! {

broadcast use vstd::std_specs::hash::group_hash_axioms;

/// Polls the season's games, subscribing to the feeds of upcoming ones.
pub struct PollAllGames;

impl PollAllGames {
    pub fn interval_secs() -> (r: u64)
        ensures
            r == 60,
    {
        60
    }
}

/// What the archive reads of a game: its id, day and whether it is over.
#[derive(Clone, Copy, Debug, PartialEq, Eq, Structural)]
pub struct GameSummary {
    pub id: u128,
    pub day: i32,
    pub complete: bool,
}

/// Whether the archive follows a game's feed on `day`: it is not over and
/// is to be played before day `day + 15`.
pub open spec fn is_upcoming(game: GameSummary, day: i32) -> bool {
    !game.complete && game.day < day + 15
}

/// The feed channels to subscribe to for the games of a season seen on
/// `day`, in the games' order.
pub open spec fn spec_upcoming_channels(games: Seq<(Json, GameSummary)>, day: i32) -> Seq<Seq<char>>
    decreases games.len(),
{
    if games.len() == 0 {
        seq![]
    } else {
        let rest = spec_upcoming_channels(games.drop_last(), day);
        if is_upcoming(games.last().1, day) {
            rest.push(spec_game_feed_channel(games.last().1.id))
        } else {
            rest
        }
    }
}

/// Subscriptions to make, then observations to store, for a season's games.
pub struct AllGamesPlan {
    pub subscribe: Vec<String>,
    pub save: Vec<NewObject>,
}

/// For the games of a season fetched in `resp` (each as its JSON and what
/// was read of it) on `day`: subscribe to the feed of every upcoming game,
/// then store every game.
pub fn all_games_plan(day: i32, resp: &ClientResponse, games: Vec<(Json, GameSummary)>) -> (r: AllGamesPlan)
    requires
        resp.wf(),
        day <= i32::MAX - 15,
    ensures
        r.subscribe@.map_values(|c: String| c@) == spec_upcoming_channels(games@, day),
        r.save@.len() == games@.len(),
        forall|i: int|
            0 <= i < games@.len() ==> (#[trigger] r.save@[i]) == (NewObject {
                kind: EntityKind::Game,
                entity_id: games@[i].1.id,
                data: games@[i].0,
                request_time: resp.spec_request_time(),
                timestamp: resp.timestamp_before,
            }),
{
    let ghost all = games@;
    let mut subscribe: Vec<String> = Vec::new();
    let mut i: usize = 0;
    while i < games.len()
        invariant
            games@ == all,
            i <= all.len(),
            day <= i32::MAX - 15,
            subscribe@.map_values(|c: String| c@) == spec_upcoming_channels(all.subrange(0, i as int), day),
        decreases all.len() - i,
    {
        let game = games[i].1;
        let ghost prefix = all.subrange(0, i as int + 1);
        assert(prefix.drop_last() =~= all.subrange(0, i as int));
        if !game.complete && game.day < day + 15 {
            let ghost before = subscribe@;
            subscribe.push(game_feed_channel(game.id));
            assert(subscribe@.map_values(|c: String| c@) =~= before.map_values(|c: String| c@).push(
                spec_game_feed_channel(game.id),
            ));
        }
        i = i + 1;
    }
    assert(all.subrange(0, all.len() as int) =~= all);
    let mut save: Vec<NewObject> = Vec::new();
    let mut rest = games;
    let mut k: usize = 0;
    while rest.len() > 0
        invariant
            resp.wf(),
            all.len() <= usize::MAX,
            k + rest@.len() == all.len(),
            rest@ == all.subrange(k as int, all.len() as int),
            save@.len() == k,
            forall|j: int|
                0 <= j < k ==> (#[trigger] save@[j]) == (NewObject {
                    kind: EntityKind::Game,
                    entity_id: all[j].1.id,
                    data: all[j].0,
                    request_time: resp.spec_request_time(),
                    timestamp: resp.timestamp_before,
                }),
        decreases rest@.len(),
    {
        let (value, game) = rest.remove(0);
        save.push(resp.to_chron(EntityKind::Game, game.id, value));
        k = k + 1;
        assert(rest@ =~= all.subrange(k as int, all.len() as int));
    }
    AllGamesPlan { subscribe, save }
}

/// Polls the games being played, and their box scores and outcomes every
/// other round, until each is seen over after such a round.
pub struct PollLiveGames {
    finished_games: HashSet<u128>,
    i: u32,
}

/// What one round of polling live games does.
pub struct LiveTick {
    /// Feed channels to subscribe to, one per live game.
    pub subscribe: Vec<String>,
    /// Games to poll: the live ones not yet finished.
    pub poll: Vec<u128>,
    /// Whether this round also polls box scores and outcomes.
    pub poll_extra: bool,
}

impl PollLiveGames {
    pub fn interval_secs() -> (r: u64)
        ensures
            r == 8,
    {
        8
    }

    /// The games known to be over.
    pub closed spec fn finished(&self) -> Set<u128> {
        self.finished_games@
    }

    /// The number of rounds polled so far.
    pub closed spec fn rounds(&self) -> u32 {
        self.i
    }

    pub fn new() -> (r: PollLiveGames)
        ensures
            r.finished() == Set::<u128>::empty(),
            r.rounds() == 0,
    {
        PollLiveGames { finished_games: HashSet::new(), i: 0 }
    }

    /// The number of rounds polled so far.
    pub fn rounds_polled(&self) -> (r: u32)
        ensures
            r == self.rounds(),
    {
        self.i
    }

    /// The round for the games `live` now: subscribe to each one's feed,
    /// poll those not finished, and poll extras on even rounds.
    pub fn start_tick(&self, live: &Vec<u128>) -> (r: LiveTick)
        ensures
            r.subscribe@.map_values(|c: String| c@) == live@.map_values(|g: u128| spec_game_feed_channel(g)),
            r.poll@ == live@.filter(|g: u128| !self.finished().contains(g)),
            r.poll_extra == (self.rounds() % 2 == 0),
    {
        let mut subscribe: Vec<String> = Vec::new();
        let mut poll: Vec<u128> = Vec::new();
        let mut i: usize = 0;
        let ghost keep = |g: u128| !self.finished().contains(g);
        while i < live.len()
            invariant
                i <= live@.len(),
                keep == (|g: u128| !self.finished().contains(g)),
                subscribe@.map_values(|c: String| c@) == live@.subrange(0, i as int).map_values(
                    |g: u128| spec_game_feed_channel(g),
                ),
                poll@ == live@.subrange(0, i as int).filter(keep),
            decreases live@.len() - i,
        {
            let g = live[i];
            let ghost prefix = live@.subrange(0, i as int);
            assert(live@.subrange(0, i as int + 1) =~= prefix.push(g));
            let ghost before = subscribe@;
            subscribe.push(game_feed_channel(g));
            assert(subscribe@.map_values(|c: String| c@) =~= before.map_values(|c: String| c@).push(spec_game_feed_channel(g)));
            assert(prefix.push(g).map_values(|x: u128| spec_game_feed_channel(x)) =~= prefix.map_values(
                |x: u128| spec_game_feed_channel(x),
            ).push(spec_game_feed_channel(g)));
            proof {
                crate::json::lemma_filter_push(prefix, keep, g);
            }
            if !self.finished_games.contains(&g) {
                poll.push(g);
            }
            i = i + 1;
        }
        assert(live@.subrange(0, live@.len() as int) =~= live@);
        LiveTick { subscribe, poll, poll_extra: self.i % 2 == 0 }
    }

    /// Ends a round that polled `polled`: after a round with extras, the
    /// games seen over are finished.
    pub fn finish_tick(&mut self, polled: &Vec<GameSummary>, poll_extra: bool)
        requires
            old(self).rounds() < u32::MAX,
        ensures
            final(self).rounds() == old(self).rounds() + 1,
            poll_extra ==> final(self).finished() == old(self).finished().union(
                polled@.filter(|g: GameSummary| g.complete).map_values(|g: GameSummary| g.id).to_set(),
            ),
            !poll_extra ==> final(self).finished() == old(self).finished(),
    {
        let ghost completed = |g: GameSummary| g.complete;
        let ghost start = self.finished_games@;
        if poll_extra {
            let mut i: usize = 0;
            while i < polled.len()
                invariant
                    i <= polled@.len(),
                    completed == (|g: GameSummary| g.complete),
                    self.i == old(self).i,
                    self.finished_games@ == start.union(
                        polled@.subrange(0, i as int).filter(completed).map_values(|g: GameSummary| g.id).to_set(),
                    ),
                decreases polled@.len() - i,
            {
                let g = polled[i];
                let ghost prefix = polled@.subrange(0, i as int);
                assert(polled@.subrange(0, i as int + 1) =~= prefix.push(g));
                proof {
                    crate::json::lemma_filter_push(prefix, completed, g);
                }
                let ghost ids_before = prefix.filter(completed).map_values(|x: GameSummary| x.id);
                if g.complete {
                    self.finished_games.insert(g.id);
                    assert(prefix.filter(completed).push(g).map_values(|x: GameSummary| x.id) =~= ids_before.push(g.id));
                    proof {
                        ids_before.lemma_push_to_set_commute(g.id);
                    }
                    assert(self.finished_games@ =~= start.union(ids_before.push(g.id).to_set()));
                }
                i = i + 1;
            }
            assert(polled@.subrange(0, polled@.len() as int) =~= polled@);
        } else {
            assert(self.finished_games@ =~= start);
        }
        self.i = self.i + 1;
    }
}

/// A finished game stays finished, and a round never polls a finished game.
pub proof fn lemma_finished_not_polled(finished: Set<u128>, live: Seq<u128>, g: u128)
    requires
        finished.contains(g),
    ensures
        !live.filter(|x: u128| !finished.contains(x)).contains(g),
{
    let keep = |x: u128| !finished.contains(x);
    if live.filter(keep).contains(g) {
        let k = choose|k: int| 0 <= k < live.filter(keep).len() && live.filter(keep)[k] == g;
        assert(keep(live.filter(keep)[k]));
    }
}

/// The observation of one game fetched in `resp`, without its `fetchedAt`
/// entry, which only busts caches.
pub fn single_game_object(resp: &ClientResponse, game_id: u128, value: Json) -> (r: NewObject)
    requires
        resp.wf(),
    ensures
        r.kind == EntityKind::Game,
        r.entity_id == game_id,
        r.timestamp == resp.timestamp_before,
        r.request_time == resp.timestamp_after - resp.timestamp_before,
        match value {
            Json::Object(members) => r.data matches Json::Object(kept) && kept@ == crate::json::members_without(
                members@,
                "fetchedAt"@,
            ),
            _ => r.data == value,
        },
{
    let data = value.remove_member("fetchedAt");
    resp.to_chron(EntityKind::Game, game_id, data)
}

/// Polls every game's outcomes, rarely.
pub struct PollAllGameOutcomes;

impl PollAllGameOutcomes {
    pub fn interval_secs() -> (r: u64)
        ensures
            r == 3600,
    {
        3600
    }
}

/// The ids of the games that are over, in order.
pub fn completed_games(games: &Vec<GameSummary>) -> (r: Vec<u128>)
    ensures
        r@ == games@.filter(|g: GameSummary| g.complete).map_values(|g: GameSummary| g.id),
{
    let ghost completed = |g: GameSummary| g.complete;
    let mut r: Vec<u128> = Vec::new();
    let mut i: usize = 0;
    while i < games.len()
        invariant
            i <= games@.len(),
            completed == (|g: GameSummary| g.complete),
            r@ == games@.subrange(0, i as int).filter(completed).map_values(|g: GameSummary| g.id),
        decreases games@.len() - i,
    {
        let g = games[i];
        let ghost prefix = games@.subrange(0, i as int);
        assert(games@.subrange(0, i as int + 1) =~= prefix.push(g));
        proof {
            crate::json::lemma_filter_push(prefix, completed, g);
        }
        if g.complete {
            let ghost before = r@;
            r.push(g.id);
            assert(prefix.filter(completed).push(g).map_values(|x: GameSummary| x.id) =~= before.push(g.id));
        }
        i = i + 1;
    }
    assert(games@.subrange(0, games@.len() as int) =~= games@);
    r
}

/// Why a game's outcomes could not be read.
#[derive(Clone, Copy, Debug, PartialEq, Eq, Structural)]
pub enum OutcomesError {
    NotAnArray,
}

/// The observations of outcomes identified by an `id`, in order.
pub open spec fn spec_outcome_objects(resp: ClientResponse, items: Seq<Json>) -> Seq<(u128, Json)>
    decreases items.len(),
{
    if items.len() == 0 {
        seq![]
    } else {
        let rest = spec_outcome_objects(resp, items.drop_last());
        match spec_get_uuid(items.last(), "id"@) {
            Some(id) => rest.push((id, items.last())),
            None => rest,
        }
    }
}

/// What to store of a game's outcomes fetched in `resp`, whose body parsed
/// as `body`: when it lists any, the whole list under the game, then each
/// outcome that has an `id` under that id.
pub fn outcome_objects(resp: &ClientResponse, game_id: u128, body: Json) -> (r: Result<Vec<NewObject>, OutcomesError>)
    requires
        resp.wf(),
    ensures
        match body {
            Json::Array(items) => r matches Ok(objs) && ({
                let singles = spec_outcome_objects(*resp, items@);
                let offset: int = if items@.len() > 0 { 1 } else { 0 };
                &&& objs@.len() == offset + singles.len()
                &&& items@.len() > 0 ==> objs@[0].kind == EntityKind::GameOutcomes && objs@[0].entity_id == game_id
                    && objs@[0].data@ == body@ && objs@[0].timestamp == resp.timestamp_before
                    && objs@[0].request_time == resp.timestamp_after - resp.timestamp_before
                &&& forall|i: int|
                    offset <= i < objs@.len() ==> #[trigger] objs@[i] == (NewObject {
                        kind: EntityKind::GameOutcome,
                        entity_id: singles[i - offset].0,
                        data: singles[i - offset].1,
                        timestamp: resp.timestamp_before,
                        request_time: resp.spec_request_time(),
                    })
            }),
            _ => r == Err::<Vec<NewObject>, OutcomesError>(OutcomesError::NotAnArray),
        },
{
    let whole = body.copy();
    let items = match body {
        Json::Array(items) => items,
        _ => {
            return Err(OutcomesError::NotAnArray);
        },
    };
    let ghost all = items@;
    let mut objs: Vec<NewObject> = Vec::new();
    if items.len() > 0 {
        objs.push(resp.to_chron(EntityKind::GameOutcomes, game_id, whole));
    }
    let ghost offset: int = if all.len() > 0 { 1 } else { 0 };
    let mut rest = items;
    let mut i: usize = 0;
    while rest.len() > 0
        invariant
            resp.wf(),
            all.len() <= usize::MAX,
            i + rest@.len() == all.len(),
            rest@ == all.subrange(i as int, all.len() as int),
            offset == (if all.len() > 0 { 1int } else { 0int }),
            objs@.len() == offset + spec_outcome_objects(*resp, all.subrange(0, i as int)).len(),
            all.len() > 0 ==> objs@[0].kind == EntityKind::GameOutcomes && objs@[0].entity_id == game_id
                && objs@[0].data@ == body@ && objs@[0].timestamp == resp.timestamp_before
                && objs@[0].request_time == resp.timestamp_after - resp.timestamp_before,
            forall|j: int|
                0 <= j < spec_outcome_objects(*resp, all.subrange(0, i as int)).len() ==> #[trigger] objs@[offset + j]
                    == (NewObject {
                    kind: EntityKind::GameOutcome,
                    entity_id: spec_outcome_objects(*resp, all.subrange(0, i as int))[j].0,
                    data: spec_outcome_objects(*resp, all.subrange(0, i as int))[j].1,
                    timestamp: resp.timestamp_before,
                    request_time: resp.spec_request_time(),
                }),
        decreases rest@.len(),
    {
        let ghost prefix = all.subrange(0, i as int + 1);
        assert(prefix.drop_last() =~= all.subrange(0, i as int));
        let outcome = rest.remove(0);
        assert(outcome == all[i as int]);
        match get_uuid(&outcome, "id") {
            Some(id) => {
                objs.push(NewObject {
                    kind: EntityKind::GameOutcome,
                    entity_id: id,
                    data: outcome,
                    timestamp: resp.timestamp(),
                    request_time: resp.request_time(),
                });
            },
            None => {},
        }
        i = i + 1;
        assert(rest@ =~= all.subrange(i as int, all.len() as int));
    }
    assert(all.subrange(0, all.len() as int) =~= all);
    let ghost singles = spec_outcome_objects(*resp, all);
    assert forall|k: int| offset <= k < objs@.len() implies #[trigger] objs@[k] == (NewObject {
        kind: EntityKind::GameOutcome,
        entity_id: singles[k - offset].0,
        data: singles[k - offset].1,
        timestamp: resp.timestamp_before,
        request_time: resp.spec_request_time(),
    }) by {
        assert(objs@[offset + (k - offset)] == objs@[k]);
    }
    Ok(objs)
}

/// Whether an outcome has an identifier under `id`.
pub open spec fn has_outcome_id(x: Json) -> bool {
    spec_get_uuid(x, "id"@) is Some
}

/// Whether `e` is one of `items` that has an identifier, paired with it.
pub open spec fn is_stored_outcome(items: Seq<Json>, e: (u128, Json)) -> bool {
    exists|i: int| 0 <= i < items.len() && #[trigger] has_outcome_id(items[i]) && e == (spec_get_uuid(items[i], "id"@)->0, items[i])
}

/// The outcomes stored one by one are those with an identifier, in order,
/// each under its identifier.
proof fn lemma_outcome_objects_filter(resp: ClientResponse, items: Seq<Json>)
    ensures
        spec_outcome_objects(resp, items) == items.filter(|x: Json| has_outcome_id(x)).map_values(
            |x: Json| (spec_get_uuid(x, "id"@)->0, x),
        ),
    decreases items.len(),
{
    let keep = |x: Json| has_outcome_id(x);
    let pair = |x: Json| (spec_get_uuid(x, "id"@)->0, x);
    if items.len() == 0 {
        items.filter_lemma(keep);
        assert(items.filter(keep).map_values(pair) =~= Seq::<(u128, Json)>::empty());
    } else {
        let init = items.drop_last();
        let x = items.last();
        assert(items =~= init.push(x));
        lemma_outcome_objects_filter(resp, init);
        crate::json::lemma_filter_push(init, keep, x);
        if keep(x) {
            assert(init.filter(keep).push(x).map_values(pair) =~= init.filter(keep).map_values(pair).push(pair(x)));
        }
    }
}

/// Every outcome that has an identifier is stored under it, every stored
/// outcome is one of the list's with its identifier, and there are as many
/// stored outcomes as outcomes with an identifier.
pub proof fn lemma_outcome_objects_complete(resp: ClientResponse, items: Seq<Json>)
    ensures
        spec_outcome_objects(resp, items).len() == items.filter(|x: Json| has_outcome_id(x)).len(),
        forall|i: int|
            0 <= i < items.len() && #[trigger] has_outcome_id(items[i]) ==> spec_outcome_objects(
                resp,
                items,
            ).contains((spec_get_uuid(items[i], "id"@)->0, items[i])),
        forall|j: int|
            0 <= j < spec_outcome_objects(resp, items).len() ==> is_stored_outcome(
                items,
                #[trigger] spec_outcome_objects(resp, items)[j],
            ),
{
    let keep = |x: Json| has_outcome_id(x);
    let pair = |x: Json| (spec_get_uuid(x, "id"@)->0, x);
    lemma_outcome_objects_filter(resp, items);
    let f = items.filter(keep);
    let so = spec_outcome_objects(resp, items);
    items.filter_lemma(keep);
    assert forall|i: int| 0 <= i < items.len() && #[trigger] has_outcome_id(items[i]) implies so.contains(
        (spec_get_uuid(items[i], "id"@)->0, items[i]),
    ) by {
        assert(f.contains(items[i]));
        let k = choose|k: int| 0 <= k < f.len() && f[k] == items[i];
        assert(so[k] == pair(f[k]));
    }
    assert forall|j: int| 0 <= j < so.len() implies is_stored_outcome(items, #[trigger] so[j]) by {
        assert(so[j] == pair(f[j]));
        assert(keep(f[j]));
        assert(f.contains(f[j]));
        items.lemma_filter_contains_rev(keep, f[j]);
        let i = choose|i: int| 0 <= i < items.len() && items[i] == f[j];
        assert(has_outcome_id(items[i]));
        assert(so[j] == (spec_get_uuid(items[i], "id"@)->0, items[i]));
    }
}

} // verus!
