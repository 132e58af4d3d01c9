//! Elections, and each team's blessing preferences, read by switching the
//! archive account's favourite team.

use vstd::prelude::*;

use crate::boundary::{uuid_text, uuid_to_string};
use crate::json::{Json, JsonView, items_view, lemma_items_view, lemma_members_view, members_view};

verus! {

/// Polls the season's elections and the assets they point at.
pub struct PollElections;

impl PollElections {
    pub fn interval_secs() -> (r: u64)
        ensures
            r == 60,
    {
        60
    }
}

/// Polls every team's blessing preferences.
pub struct PollBlessingPreferences;

impl PollBlessingPreferences {
    pub fn interval_secs() -> (r: u64)
        ensures
            r == 300,
    {
        300
    }
}

/// A blessing as the elections list it for the account's favourite team.
pub struct BlessingData {
    pub id: u128,
    pub favorite_team_top_option_ids: Vec<u128>,
}

/// What the archive reads of the elections.
pub struct ElectionData {
    pub blessings: Vec<BlessingData>,
    pub current_user_favorite_team: u128,
}

/// A team's preferred options in one blessing.
pub struct TeamBlessingPreferencesInner {
    pub id: u128,
    pub top_option_ids: Vec<u128>,
}

/// A team's preferred options in every blessing.
pub struct TeamBlessingPreferences {
    pub team_id: u128,
    pub groups: Vec<TeamBlessingPreferencesInner>,
}

/// The preferences the elections show for the account's favourite team.
pub fn blessing_preferences(data: ElectionData) -> (r: TeamBlessingPreferences)
    ensures
        r.team_id == data.current_user_favorite_team,
        r.groups@.len() == data.blessings@.len(),
        forall|i: int|
            0 <= i < r.groups@.len() ==> (#[trigger] r.groups@[i]).id == data.blessings@[i].id
                && r.groups@[i].top_option_ids == data.blessings@[i].favorite_team_top_option_ids,
{
    let ghost all = data.blessings@;
    let n = data.blessings.len();
    let mut groups: Vec<TeamBlessingPreferencesInner> = Vec::new();
    let mut rest = data.blessings;
    let mut k: usize = 0;
    while rest.len() > 0
        invariant
            n == all.len(),
            k + rest@.len() == all.len(),
            rest@ == all.subrange(k as int, all.len() as int),
            groups@.len() == k,
            forall|i: int|
                0 <= i < k ==> (#[trigger] groups@[i]).id == all[i].id && groups@[i].top_option_ids
                    == all[i].favorite_team_top_option_ids,
        decreases rest@.len(),
    {
        let b = rest.remove(0);
        groups.push(TeamBlessingPreferencesInner { id: b.id, top_option_ids: b.favorite_team_top_option_ids });
        k = k + 1;
        assert(rest@ =~= all.subrange(k as int, all.len() as int));
    }
    TeamBlessingPreferences { team_id: data.current_user_favorite_team, groups }
}

/// A list of ids as JSON: an array of their hyphenated texts.
pub open spec fn ids_json(ids: Seq<u128>) -> JsonView {
    JsonView::Array(ids.map_values(|i: u128| JsonView::String(uuid_text(i))))
}

/// One blessing's preferences as JSON.
pub open spec fn group_json(g: TeamBlessingPreferencesInner) -> JsonView {
    JsonView::Object(seq![("id"@, JsonView::String(uuid_text(g.id))), ("top_option_ids"@, ids_json(g.top_option_ids@))])
}

/// A team's preferences as the archive stores them.
pub open spec fn preferences_json(p: TeamBlessingPreferences) -> JsonView {
    JsonView::Object(
        seq![
            ("team_id"@, JsonView::String(uuid_text(p.team_id))),
            ("groups"@, JsonView::Array(p.groups@.map_values(|g: TeamBlessingPreferencesInner| group_json(g)))),
        ],
    )
}

fn ids_to_json(ids: &Vec<u128>) -> (r: Json)
    ensures
        r@ == ids_json(ids@),
{
    let mut items: Vec<Json> = Vec::new();
    let mut i: usize = 0;
    while i < ids.len()
        invariant
            i <= ids@.len(),
            items@.len() == i,
            forall|j: int| 0 <= j < i ==> (#[trigger] items@[j])@ == JsonView::String(uuid_text(ids@[j])),
        decreases ids@.len() - i,
    {
        items.push(Json::String(uuid_to_string(ids[i])));
        i = i + 1;
    }
    proof {
        lemma_items_view(items@);
        assert(items_view(items@) =~= ids@.map_values(|i: u128| JsonView::String(uuid_text(i))));
    }
    Json::Array(items)
}

fn group_to_json(g: &TeamBlessingPreferencesInner) -> (r: Json)
    ensures
        r@ == group_json(*g),
{
    let mut members: Vec<(String, Json)> = Vec::new();
    members.push((String::from_str("id"), Json::String(uuid_to_string(g.id))));
    members.push((String::from_str("top_option_ids"), ids_to_json(&g.top_option_ids)));
    proof {
        lemma_members_view(members@);
        assert(members_view(members@) =~= seq![
            ("id"@, JsonView::String(uuid_text(g.id))),
            ("top_option_ids"@, ids_json(g.top_option_ids@)),
        ]);
    }
    Json::Object(members)
}

impl TeamBlessingPreferences {
    /// The preferences as JSON.
    pub fn to_json(&self) -> (r: Json)
        ensures
            r@ == preferences_json(*self),
    {
        let mut items: Vec<Json> = Vec::new();
        let mut i: usize = 0;
        while i < self.groups.len()
            invariant
                i <= self.groups@.len(),
                items@.len() == i,
                forall|j: int| 0 <= j < i ==> (#[trigger] items@[j])@ == group_json(self.groups@[j]),
            decreases self.groups@.len() - i,
        {
            items.push(group_to_json(&self.groups[i]));
            i = i + 1;
        }
        let ghost groups_view = items_view(items@);
        proof {
            lemma_items_view(items@);
            assert(groups_view =~= self.groups@.map_values(|g: TeamBlessingPreferencesInner| group_json(g)));
        }
        let mut members: Vec<(String, Json)> = Vec::new();
        members.push((String::from_str("team_id"), Json::String(uuid_to_string(self.team_id))));
        members.push((String::from_str("groups"), Json::Array(items)));
        proof {
            lemma_members_view(members@);
            assert(members_view(members@) =~= seq![
                ("team_id"@, JsonView::String(uuid_text(self.team_id))),
                ("groups"@, JsonView::Array(self.groups@.map_values(|g: TeamBlessingPreferencesInner| group_json(g)))),
            ]);
        }
        Json::Object(members)
    }
}

/// The request body that makes `team_id` the account's favourite team.
pub fn favorite_team_request(team_id: u128) -> (r: Json)
    ensures
        r@ == JsonView::Object(seq![("favoriteTeam"@, JsonView::String(uuid_text(team_id)))]),
{
    let mut members: Vec<(String, Json)> = Vec::new();
    members.push((String::from_str("favoriteTeam"), Json::String(uuid_to_string(team_id))));
    proof {
        lemma_members_view(members@);
        assert(members_view(members@) =~= seq![("favoriteTeam"@, JsonView::String(uuid_text(team_id)))]);
    }
    Json::Object(members)
}

} // verus!
