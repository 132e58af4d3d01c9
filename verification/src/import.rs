//! Importing an earlier crawl: each fetched URL is routed to the kind of
//! entity it returned, and the fetched document is split into the
//! observations it holds.

use vstd::prelude::*;

use crate::boundary::{uuid_from_text, uuid_parse};
use crate::json::{Json, JsonView, spec_get_uuid, get_uuid, view_without};
use crate::models::EntityKind;
use crate::text::{contains, ends_with, first_piece, has_infix, has_suffix, last_piece, split_first, split_last};

verus! {

/// One observation found in a fetched document.
pub struct FetchItem {
    pub kind: EntityKind,
    pub entity_id: u128,
    pub data: Json,
}

/// What an observation stands for.
pub open spec fn item_view(i: FetchItem) -> (EntityKind, u128, JsonView) {
    (i.kind, i.entity_id, i.data@)
}

/// What a list of observations stands for.
pub open spec fn items_view(items: Seq<FetchItem>) -> Seq<(EntityKind, u128, JsonView)> {
    items.map_values(|i: FetchItem| item_view(i))
}

/// Why a fetch could not be imported.
#[derive(Clone, Copy, Debug, PartialEq, Eq, Structural)]
pub enum FetchError {
    /// An id in the URL or the document does not parse.
    InvalidId,
    /// The body is not JSON.
    InvalidJson,
}

/// What a fetched URL returned.
#[derive(Clone, Copy, Debug, PartialEq, Eq, Structural)]
pub enum Route {
    /// A mirror the archive does not import, or a URL ending in `/live`
    /// that no earlier rule takes (a season's live list falls under
    /// `/schedule/` and is routed to `Schedule` first).
    Skip,
    Player,
    Game,
    BoxScore,
    Feed,
    Sim,
    Temporal,
    Flagsmith,
    Ticker,
    Elections,
    Hourly,
    Schedule,
    Games,
    Teams,
    /// A URL no rule recognises.
    Unknown,
}

/// The route of `url`: the first rule, in this order, that it matches.
pub open spec fn spec_route(url: Seq<char>) -> Route {
    if has_infix(url, "ateb-api2"@) {
        Route::Skip
    } else if has_infix(url, "/players/"@) {
        Route::Player
    } else if has_infix(url, "/games/"@) {
        if has_suffix(url, "/boxScore"@) {
            Route::BoxScore
        } else {
            Route::Game
        }
    } else if has_infix(url, "/feed"@) {
        Route::Feed
    } else if has_suffix(url, "/sim"@) {
        Route::Sim
    } else if has_suffix(url, "/temporal"@) {
        Route::Temporal
    } else if has_suffix(url, "/flagsmith"@) {
        Route::Flagsmith
    } else if has_infix(url, "/user-ticker/"@) {
        Route::Ticker
    } else if has_suffix(url, "/elections"@) {
        Route::Elections
    } else if has_suffix(url, "/hourly"@) {
        Route::Hourly
    } else if has_infix(url, "/schedule/"@) {
        Route::Schedule
    } else if has_suffix(url, "/live"@) {
        Route::Skip
    } else if has_suffix(url, "/games"@) {
        Route::Games
    } else if has_suffix(url, "/teams"@) {
        Route::Teams
    } else {
        Route::Unknown
    }
}

/// The route of `url`.
pub fn route(url: &str) -> (r: Route)
    ensures
        r == spec_route(url@),
{
    if contains(url, "ateb-api2") {
        Route::Skip
    } else if contains(url, "/players/") {
        Route::Player
    } else if contains(url, "/games/") {
        if ends_with(url, "/boxScore") {
            Route::BoxScore
        } else {
            Route::Game
        }
    } else if contains(url, "/feed") {
        Route::Feed
    } else if ends_with(url, "/sim") {
        Route::Sim
    } else if ends_with(url, "/temporal") {
        Route::Temporal
    } else if ends_with(url, "/flagsmith") {
        Route::Flagsmith
    } else if contains(url, "/user-ticker/") {
        Route::Ticker
    } else if ends_with(url, "/elections") {
        Route::Elections
    } else if ends_with(url, "/hourly") {
        Route::Hourly
    } else if contains(url, "/schedule/") {
        Route::Schedule
    } else if ends_with(url, "/live") {
        Route::Skip
    } else if ends_with(url, "/games") {
        Route::Games
    } else if ends_with(url, "/teams") {
        Route::Teams
    } else {
        Route::Unknown
    }
}

/// The id in the last `/`-separated segment of `url`.
pub open spec fn last_segment_id(url: Seq<char>) -> Option<u128> {
    uuid_from_text(split_last(url, "/"@))
}

/// The id in the segment following the last `marker` in `url`.
pub open spec fn id_after(url: Seq<char>, marker: Seq<char>) -> Option<u128> {
    uuid_from_text(split_first(split_last(url, marker), "/"@))
}

fn id_after_exec(url: &str, marker: &str) -> (r: Option<u128>)
    requires
        marker@.len() > 0,
    ensures
        r == id_after(url@, marker@),
{
    let tail = last_piece(url, marker);
    let segment = first_piece(tail.as_str(), "/");
    uuid_parse(segment.as_str())
}

/// The array, when a value is one.
pub open spec fn array_items(j: Json) -> Seq<Json> {
    match j {
        Json::Array(items) => items@,
        _ => seq![],
    }
}

/// Whether `j` holds, under `key`, a string that parses as an id.
pub open spec fn keyed_id_ok(j: Json, key: Seq<char>) -> bool {
    match j.spec_get(key) {
        Some(Json::String(s)) => uuid_from_text(s@) is Some,
        _ => false,
    }
}

/// Whether every one of `items` holds an id under `key`.
pub open spec fn all_keyed(items: Seq<Json>, key: Seq<char>) -> bool {
    forall|i: int| 0 <= i < items.len() ==> keyed_id_ok(#[trigger] items[i], key)
}

/// A feed page: an object whose `posts` are an array of objects with a string `id`.
pub open spec fn feed_shape(d: Json) -> bool {
    match d.spec_get("posts"@) {
        Some(Json::Array(posts)) => forall|i: int|
            0 <= i < posts@.len() ==> (#[trigger] posts@[i]).spec_get("id"@) matches Some(Json::String(_)),
        _ => false,
    }
}

/// An hourly schedule: an array of hours, each listing `betDatas` with a `gameId`.
pub open spec fn hourly_shape(d: Json) -> bool {
    match d {
        Json::Array(hours) => forall|i: int|
            0 <= i < hours@.len() ==> (match (#[trigger] hours@[i]).spec_get("betDatas"@) {
                Some(Json::Array(bets)) => all_keyed(bets@, "gameId"@),
                _ => false,
            }),
        _ => false,
    }
}

/// A game list: an array of games, each with an `id`.
pub open spec fn games_shape(d: Json) -> bool {
    match d {
        Json::Array(games) => all_keyed(games@, "id"@),
        _ => false,
    }
}

/// A team list: an object of arrays of teams, each with an `id`.
pub open spec fn teams_shape(d: Json) -> bool {
    match d {
        Json::Object(members) => forall|i: int|
            0 <= i < members@.len() ==> (match (#[trigger] members@[i]).1 {
                Json::Array(teams) => all_keyed(teams@, "id"@),
                _ => false,
            }),
        _ => false,
    }
}

/// Whether importing `url` with body `data` can go through: the documents
/// the import reads into have the shape it expects (the import stops on
/// any other).
pub open spec fn spec_shape_ok(url: Seq<char>, data: Option<Json>) -> bool {
    match data {
        Some(d) => match spec_route(url) {
            Route::Feed => feed_shape(d),
            Route::Hourly => hourly_shape(d),
            Route::Games => games_shape(d),
            Route::Teams => teams_shape(d),
            _ => true,
        },
        None => true,
    }
}

/// Each of `items` as an observation of `kind` under its id at `key`.
pub open spec fn keyed_items(items: Seq<Json>, key: Seq<char>, kind: EntityKind) -> Seq<(EntityKind, u128, JsonView)>
    decreases items.len(),
{
    if items.len() == 0 {
        seq![]
    } else {
        keyed_items(items.drop_last(), key, kind).push(
            (kind, spec_get_uuid(items.last(), key)->0, items.last()@),
        )
    }
}

/// The posts of a feed page as observations; the first post whose id does
/// not parse fails the whole page.
pub open spec fn post_items(posts: Seq<Json>) -> Result<Seq<(EntityKind, u128, JsonView)>, FetchError>
    decreases posts.len(),
{
    if posts.len() == 0 {
        Ok(seq![])
    } else {
        match post_items(posts.drop_last()) {
            Err(e) => Err(e),
            Ok(v) => match spec_get_uuid(posts.last(), "id"@) {
                None => Err(FetchError::InvalidId),
                Some(id) => Ok(v.push((EntityKind::Post, id, posts.last()@))),
            },
        }
    }
}

/// The betting data of every hour as observations, one hour after another.
pub open spec fn bet_items(hours: Seq<Json>) -> Seq<(EntityKind, u128, JsonView)>
    decreases hours.len(),
{
    if hours.len() == 0 {
        seq![]
    } else {
        bet_items(hours.drop_last()) + keyed_items(
            match hours.last().spec_get("betDatas"@) {
                Some(b) => array_items(b),
                None => seq![],
            },
            "gameId"@,
            EntityKind::GameBetData,
        )
    }
}

/// The teams of every list of a team object as observations, one list after another.
pub open spec fn team_items(members: Seq<(String, Json)>) -> Seq<(EntityKind, u128, JsonView)>
    decreases members.len(),
{
    if members.len() == 0 {
        seq![]
    } else {
        team_items(members.drop_last()) + keyed_items(array_items(members.last().1), "id"@, EntityKind::Team)
    }
}

/// One observation of the whole body, under `id`.
pub open spec fn whole(data: Option<Json>, kind: EntityKind, id: u128) -> Result<Seq<(EntityKind, u128, JsonView)>, FetchError> {
    match data {
        None => Err(FetchError::InvalidJson),
        Some(d) => Ok(seq![(kind, id, d@)]),
    }
}

/// One observation of the whole body under the id the URL names.
pub open spec fn whole_with_id(id: Option<u128>, data: Option<Json>, kind: EntityKind) -> Result<Seq<(EntityKind, u128, JsonView)>, FetchError> {
    match id {
        None => Err(FetchError::InvalidId),
        Some(i) => whole(data, kind, i),
    }
}

/// The observations a fetch of `url` returning `data` (`None`: not JSON) holds.
pub open spec fn spec_parse_fetch(url: Seq<char>, data: Option<Json>) -> Result<Seq<(EntityKind, u128, JsonView)>, FetchError> {
    match spec_route(url) {
        Route::Skip => Ok(seq![]),
        Route::Unknown => Ok(seq![]),
        Route::Player => whole_with_id(last_segment_id(url), data, EntityKind::Player),
        Route::BoxScore => whole_with_id(id_after(url, "/games/"@), data, EntityKind::BoxScore),
        Route::Game => match id_after(url, "/games/"@) {
            None => Err(FetchError::InvalidId),
            Some(id) => match data {
                None => Err(FetchError::InvalidJson),
                Some(d) => Ok(seq![(EntityKind::Game, id, view_without(d@, "fetchedAt"@))]),
            },
        },
        Route::Feed => match data {
            None => Err(FetchError::InvalidJson),
            Some(d) => post_items(
                match d.spec_get("posts"@) {
                    Some(p) => array_items(p),
                    None => seq![],
                },
            ),
        },
        Route::Sim => whole(data, EntityKind::Sim, 0),
        Route::Temporal => whole(data, EntityKind::Temporal, 0),
        Route::Flagsmith => whole(data, EntityKind::Flagsmith, 0),
        Route::Ticker => whole(data, EntityKind::Ticker, 0),
        Route::Elections => whole_with_id(id_after(url, "/seasons/"@), data, EntityKind::SeasonElections),
        Route::Schedule => whole_with_id(id_after(url, "/schedule/"@), data, EntityKind::SeasonSchedule),
        Route::Hourly => match data {
            None => Err(FetchError::InvalidJson),
            Some(d) => Ok(bet_items(array_items(d))),
        },
        Route::Games => match data {
            None => Err(FetchError::InvalidJson),
            Some(d) => Ok(keyed_items(array_items(d), "id"@, EntityKind::Game)),
        },
        Route::Teams => match data {
            None => Err(FetchError::InvalidJson),
            Some(d) => Ok(
                team_items(
                    match d {
                        Json::Object(ms) => ms@,
                        _ => seq![],
                    },
                ),
            ),
        },
    }
}

/// The observations `items` make of `kind` under their ids at `key`.
fn keyed_items_exec(items: &Vec<Json>, key: &str, kind: EntityKind) -> (r: Vec<FetchItem>)
    requires
        all_keyed(items@, key@),
    ensures
        items_view(r@) == keyed_items(items@, key@, kind),
{
    let mut r: Vec<FetchItem> = Vec::new();
    let mut i: usize = 0;
    while i < items.len()
        invariant
            i <= items@.len(),
            r@.len() == i,
            all_keyed(items@, key@),
            items_view(r@) == keyed_items(items@.subrange(0, i as int), key@, kind),
        decreases items@.len() - i,
    {
        let ghost prefix = items@.subrange(0, i as int + 1);
        assert(prefix.drop_last() =~= items@.subrange(0, i as int));
        assert(keyed_id_ok(items@[i as int], key@));
        let id = match get_uuid(&items[i], key) {
            Some(id) => id,
            None => {
                proof {
                    assert(false);
                }
                0
            },
        };
        let ghost before = r@;
        r.push(FetchItem { kind, entity_id: id, data: items[i].copy() });
        assert(items_view(r@) =~= items_view(before).push(item_view(r@[i as int])));
        i = i + 1;
    }
    assert(items@.subrange(0, items@.len() as int) =~= items@);
    r
}

fn post_items_exec(posts: &Vec<Json>) -> (r: Result<Vec<FetchItem>, FetchError>)
    ensures
        match (r, post_items(posts@)) {
            (Ok(v), Ok(w)) => items_view(v@) == w,
            (Err(e), Err(f)) => e == f,
            _ => false,
        },
{
    let mut r: Vec<FetchItem> = Vec::new();
    let mut i: usize = 0;
    assert(posts@.subrange(0, 0) =~= Seq::<Json>::empty());
    assert(items_view(r@) =~= Seq::<(EntityKind, u128, JsonView)>::empty());
    while i < posts.len()
        invariant
            i <= posts@.len(),
            r@.len() == i,
            post_items(posts@.subrange(0, i as int)) == Ok::<Seq<(EntityKind, u128, JsonView)>, FetchError>(items_view(r@)),
        decreases posts@.len() - i,
    {
        let ghost prefix = posts@.subrange(0, i as int + 1);
        assert(prefix.drop_last() =~= posts@.subrange(0, i as int));
        match get_uuid(&posts[i], "id") {
            Some(id) => {
                let ghost before = r@;
                r.push(FetchItem { kind: EntityKind::Post, entity_id: id, data: posts[i].copy() });
                assert(items_view(r@) =~= items_view(before).push(item_view(r@[i as int])));
            },
            None => {
                proof {
                    lemma_post_items_fail(posts@, i as int);
                }
                return Err(FetchError::InvalidId);
            },
        }
        i = i + 1;
    }
    assert(posts@.subrange(0, posts@.len() as int) =~= posts@);
    Ok(r)
}

/// Once a post's id fails, every longer stretch of the page fails with it.
proof fn lemma_post_items_fail(posts: Seq<Json>, i: int)
    requires
        0 <= i < posts.len(),
        post_items(posts.subrange(0, i)) is Ok,
        spec_get_uuid(posts[i], "id"@) is None,
    ensures
        post_items(posts) == Err::<Seq<(EntityKind, u128, JsonView)>, FetchError>(FetchError::InvalidId),
    decreases posts.len() - i,
{
    lemma_post_items_fail_at(posts, i, i + 1);
    assert(posts.subrange(0, posts.len() as int) =~= posts);
}

proof fn lemma_post_items_fail_at(posts: Seq<Json>, i: int, n: int)
    requires
        0 <= i < n <= posts.len(),
        post_items(posts.subrange(0, i)) is Ok,
        spec_get_uuid(posts[i], "id"@) is None,
    ensures
        post_items(posts.subrange(0, posts.len() as int)) == Err::<Seq<(EntityKind, u128, JsonView)>, FetchError>(FetchError::InvalidId),
    decreases posts.len() - n,
{
    let s = posts.subrange(0, n);
    if n == i + 1 {
        assert(s.drop_last() =~= posts.subrange(0, i));
    }
    assert(post_items(s) == Err::<Seq<(EntityKind, u128, JsonView)>, FetchError>(FetchError::InvalidId)) by {
        lemma_prefix_fail(posts, i, n);
    }
    if n < posts.len() {
        lemma_post_items_fail_at(posts, i, n + 1);
    } else {
        assert(s =~= posts.subrange(0, posts.len() as int));
    }
}

proof fn lemma_prefix_fail(posts: Seq<Json>, i: int, n: int)
    requires
        0 <= i < n <= posts.len(),
        post_items(posts.subrange(0, i)) is Ok,
        spec_get_uuid(posts[i], "id"@) is None,
    ensures
        post_items(posts.subrange(0, n)) == Err::<Seq<(EntityKind, u128, JsonView)>, FetchError>(FetchError::InvalidId),
    decreases n - i,
{
    let s = posts.subrange(0, n);
    if n == i + 1 {
        assert(s.drop_last() =~= posts.subrange(0, i));
        assert(s.last() == posts[i]);
    } else {
        lemma_prefix_fail(posts, i, n - 1);
        assert(s.drop_last() =~= posts.subrange(0, n - 1));
    }
}

fn bet_items_exec(hours: &Vec<Json>) -> (r: Vec<FetchItem>)
    requires
        hourly_shape(Json::Array(*hours)),
    ensures
        items_view(r@) == bet_items(hours@),
{
    let mut r: Vec<FetchItem> = Vec::new();
    let mut i: usize = 0;
    while i < hours.len()
        invariant
            i <= hours@.len(),
            hourly_shape(Json::Array(*hours)),
            items_view(r@) == bet_items(hours@.subrange(0, i as int)),
        decreases hours@.len() - i,
    {
        let ghost prefix = hours@.subrange(0, i as int + 1);
        assert(prefix.drop_last() =~= hours@.subrange(0, i as int));
        let ghost h = hours@[i as int];
        match hours[i].get("betDatas") {
            Some(Json::Array(bets)) => {
                let mut more = keyed_items_exec(bets, "gameId", EntityKind::GameBetData);
                let ghost before = r@;
                let ghost added = more@;
                r.append(&mut more);
                assert(items_view(r@) =~= items_view(before) + items_view(added));
            },
            _ => {
                proof {
                    assert(false);
                }
            },
        }
        i = i + 1;
    }
    assert(hours@.subrange(0, hours@.len() as int) =~= hours@);
    r
}

fn team_items_exec(members: &Vec<(String, Json)>) -> (r: Vec<FetchItem>)
    requires
        teams_shape(Json::Object(*members)),
    ensures
        items_view(r@) == team_items(members@),
{
    let mut r: Vec<FetchItem> = Vec::new();
    let mut i: usize = 0;
    while i < members.len()
        invariant
            i <= members@.len(),
            teams_shape(Json::Object(*members)),
            items_view(r@) == team_items(members@.subrange(0, i as int)),
        decreases members@.len() - i,
    {
        let ghost prefix = members@.subrange(0, i as int + 1);
        assert(prefix.drop_last() =~= members@.subrange(0, i as int));
        match &members[i].1 {
            Json::Array(teams) => {
                let mut more = keyed_items_exec(teams, "id", EntityKind::Team);
                let ghost before = r@;
                let ghost added = more@;
                r.append(&mut more);
                assert(items_view(r@) =~= items_view(before) + items_view(added));
            },
            _ => {
                proof {
                    assert(false);
                }
            },
        }
        i = i + 1;
    }
    assert(members@.subrange(0, members@.len() as int) =~= members@);
    r
}

fn one_item(kind: EntityKind, id: u128, data: Json) -> (r: Vec<FetchItem>)
    ensures
        items_view(r@) == seq![(kind, id, data@)],
{
    let r = vec![FetchItem { kind, entity_id: id, data }];
    assert(items_view(r@) =~= seq![(kind, id, data@)]);
    r
}

/// The observations a fetch of `url` returning `data` (`None` when the body
/// is not JSON) holds.
pub fn parse_fetch(url: &str, data: Option<Json>) -> (r: Result<Vec<FetchItem>, FetchError>)
    requires
        spec_shape_ok(url@, data),
    ensures
        match (r, spec_parse_fetch(url@, data)) {
            (Ok(v), Ok(w)) => items_view(v@) == w,
            (Err(e), Err(f)) => e == f,
            _ => false,
        },
{
    proof {
        reveal_strlit("/");
        reveal_strlit("/games/");
        reveal_strlit("/seasons/");
        reveal_strlit("/schedule/");
    }
    let route = route(url);
    match route {
        Route::Skip => Ok(Vec::new()),
        Route::Unknown => Ok(Vec::new()),
        Route::Player | Route::BoxScore | Route::Elections | Route::Schedule => {
            let (id, kind) = match route {
                Route::Player => (uuid_parse(last_piece(url, "/").as_str()), EntityKind::Player),
                Route::BoxScore => (id_after_exec(url, "/games/"), EntityKind::BoxScore),
                Route::Elections => (id_after_exec(url, "/seasons/"), EntityKind::SeasonElections),
                _ => (id_after_exec(url, "/schedule/"), EntityKind::SeasonSchedule),
            };
            match id {
                None => Err(FetchError::InvalidId),
                Some(i) => match data {
                    None => Err(FetchError::InvalidJson),
                    Some(d) => Ok(one_item(kind, i, d)),
                },
            }
        },
        Route::Game => match id_after_exec(url, "/games/") {
            None => Err(FetchError::InvalidId),
            Some(i) => match data {
                None => Err(FetchError::InvalidJson),
                Some(d) => Ok(one_item(EntityKind::Game, i, d.remove_member("fetchedAt"))),
            },
        },
        Route::Sim | Route::Temporal | Route::Flagsmith | Route::Ticker => {
            let kind = match route {
                Route::Sim => EntityKind::Sim,
                Route::Temporal => EntityKind::Temporal,
                Route::Flagsmith => EntityKind::Flagsmith,
                _ => EntityKind::Ticker,
            };
            match data {
                None => Err(FetchError::InvalidJson),
                Some(d) => Ok(one_item(kind, 0, d)),
            }
        },
        Route::Feed => match data {
            None => Err(FetchError::InvalidJson),
            Some(d) => match d.get("posts") {
                Some(Json::Array(posts)) => post_items_exec(posts),
                _ => {
                    proof {
                        assert(false);
                    }
                    Ok(Vec::new())
                },
            },
        },
        Route::Hourly => match data {
            None => Err(FetchError::InvalidJson),
            Some(Json::Array(hours)) => Ok(bet_items_exec(&hours)),
            Some(_) => {
                proof {
                    assert(false);
                }
                Ok(Vec::new())
            },
        },
        Route::Games => match data {
            None => Err(FetchError::InvalidJson),
            Some(Json::Array(games)) => Ok(keyed_items_exec(&games, "id", EntityKind::Game)),
            Some(_) => {
                proof {
                    assert(false);
                }
                Ok(Vec::new())
            },
        },
        Route::Teams => match data {
            None => Err(FetchError::InvalidJson),
            Some(Json::Object(members)) => Ok(team_items_exec(&members)),
            Some(_) => {
                proof {
                    assert(false);
                }
                Ok(Vec::new())
            },
        },
    }
}

/// Whether the fetched document has the shape the import reads.
#[verifier::loop_isolation(false)]
pub fn shape_ok(url: &str, data: &Option<Json>) -> (r: bool)
    ensures
        r == spec_shape_ok(url@, *data),
{
    let d = match data {
        Some(d) => d,
        None => {
            return true;
        },
    };
    match route(url) {
        Route::Feed => match d.get("posts") {
            Some(Json::Array(posts)) => {
                let mut i: usize = 0;
                while i < posts.len()
                    invariant
                        i <= posts@.len(),
                        forall|j: int| 0 <= j < i ==> (#[trigger] posts@[j]).spec_get("id"@) matches Some(Json::String(_)),
                    decreases posts@.len() - i,
                {
                    match posts[i].get("id") {
                        Some(Json::String(_)) => {},
                        _ => {
                            assert(!(posts@[i as int].spec_get("id"@) matches Some(Json::String(_))));
                            return false;
                        },
                    }
                    i = i + 1;
                }
                true
            },
            _ => false,
        },
        Route::Hourly => match d {
            Json::Array(hours) => {
                let mut i: usize = 0;
                while i < hours.len()
                    invariant
                        i <= hours@.len(),
                        forall|j: int|
                            0 <= j < i ==> (match (#[trigger] hours@[j]).spec_get("betDatas"@) {
                                Some(Json::Array(bets)) => all_keyed(bets@, "gameId"@),
                                _ => false,
                            }),
                    decreases hours@.len() - i,
                {
                    match hours[i].get("betDatas") {
                        Some(Json::Array(bets)) => {
                            if !all_keyed_exec(bets, "gameId") {
                                assert(!(match hours@[i as int].spec_get("betDatas"@) {
                                    Some(Json::Array(bets)) => all_keyed(bets@, "gameId"@),
                                    _ => false,
                                }));
                                return false;
                            }
                        },
                        _ => {
                            assert(!(match hours@[i as int].spec_get("betDatas"@) {
                                Some(Json::Array(bets)) => all_keyed(bets@, "gameId"@),
                                _ => false,
                            }));
                            return false;
                        },
                    }
                    i = i + 1;
                }
                true
            },
            _ => false,
        },
        Route::Games => match d {
            Json::Array(games) => all_keyed_exec(games, "id"),
            _ => false,
        },
        Route::Teams => match d {
            Json::Object(members) => {
                let mut i: usize = 0;
                while i < members.len()
                    invariant
                        i <= members@.len(),
                        forall|j: int|
                            0 <= j < i ==> (match (#[trigger] members@[j]).1 {
                                Json::Array(teams) => all_keyed(teams@, "id"@),
                                _ => false,
                            }),
                    decreases members@.len() - i,
                {
                    match &members[i].1 {
                        Json::Array(teams) => {
                            if !all_keyed_exec(teams, "id") {
                                assert(!(match members@[i as int].1 {
                                    Json::Array(teams) => all_keyed(teams@, "id"@),
                                    _ => false,
                                }));
                                return false;
                            }
                        },
                        _ => {
                            assert(!(match members@[i as int].1 {
                                Json::Array(teams) => all_keyed(teams@, "id"@),
                                _ => false,
                            }));
                            return false;
                        },
                    }
                    i = i + 1;
                }
                true
            },
            _ => false,
        },
        _ => true,
    }
}

fn all_keyed_exec(items: &Vec<Json>, key: &str) -> (r: bool)
    ensures
        r == all_keyed(items@, key@),
{
    let mut i: usize = 0;
    while i < items.len()
        invariant
            i <= items@.len(),
            forall|j: int| 0 <= j < i ==> keyed_id_ok(#[trigger] items@[j], key@),
        decreases items@.len() - i,
    {
        let ok = match items[i].get(key) {
            Some(Json::String(s)) => uuid_parse(s.as_str()).is_some(),
            _ => false,
        };
        if !ok {
            return false;
        }
        i = i + 1;
    }
    true
}

/// Imports a fetch whatever its document: `None` when the document does not
/// have the shape the import reads, else what `parse_fetch` gives.
pub fn import_fetch(url: &str, data: Option<Json>) -> (r: Option<Result<Vec<FetchItem>, FetchError>>)
    ensures
        r is None <==> !spec_shape_ok(url@, data),
        r matches Some(res) ==> match (res, spec_parse_fetch(url@, data)) {
            (Ok(v), Ok(w)) => items_view(v@) == w,
            (Err(e), Err(f)) => e == f,
            _ => false,
        },
{
    if shape_ok(url, &data) {
        Some(parse_fetch(url, data))
    } else {
        None
    }
}

/// Whether a fetch with this status is skipped (server errors and refusals).
pub fn skip_status(status_code: Option<i32>) -> (r: bool)
    ensures
        r == match status_code {
            Some(c) => c == 500 || c == 503 || c == 401,
            None => false,
        },
{
    let c = match status_code {
        Some(c) => c,
        None => 0,
    };
    c == 500 || c == 503 || c == 401
}

} // verus!
