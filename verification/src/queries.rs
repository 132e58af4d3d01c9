//! Listings of the archive: what each query selects, in what order, and the
//! page token that continues a listing after its last item.

use vstd::prelude::*;

use crate::models::{EntityKind, HasPageToken, PageToken};
use crate::json::lemma_filter_push;
use crate::text::str_eq;

verus! {

/// The direction of a listing.
#[derive(Clone, Copy, Debug, PartialEq, Eq, Structural)]
pub enum SortOrder {
    Asc,
    Desc,
}

impl Default for SortOrder {
    fn default() -> (r: SortOrder)
        ensures
            r == SortOrder::Asc,
    {
        SortOrder::Asc
    }
}

impl SortOrder {
    /// The order named `s` in a request (`"asc"` or `"desc"`), if any.
    pub open spec fn spec_from_name(s: Seq<char>) -> Option<SortOrder> {
        if s == "asc"@ {
            Some(SortOrder::Asc)
        } else if s == "desc"@ {
            Some(SortOrder::Desc)
        } else {
            None
        }
    }

    pub fn from_name(s: &str) -> (r: Option<SortOrder>)
        ensures
            r == SortOrder::spec_from_name(s@),
    {
        if str_eq(s, "asc") {
            Some(SortOrder::Asc)
        } else if str_eq(s, "desc") {
            Some(SortOrder::Desc)
        } else {
            None
        }
    }
}

/// A page of a listing and the token that continues it, if the page held anything.
pub struct PaginatedResult<T> {
    pub items: Vec<T>,
    pub next_page: Option<PageToken>,
}

/// The token continuing a listing after `items`: that of the last item.
pub open spec fn next_page_of<T: HasPageToken>(items: Seq<T>) -> Option<PageToken> {
    if items.len() == 0 {
        None
    } else {
        Some(items.last().spec_page_token())
    }
}

/// Wraps a page of items with the token of its last item.
pub fn with_page_token<T: HasPageToken>(items: Vec<T>) -> (r: PaginatedResult<T>)
    ensures
        r.items@ == items@,
        r.next_page == next_page_of(items@),
{
    let pt = if items.len() == 0 {
        None
    } else {
        Some(items[items.len() - 1].page_token())
    };
    PaginatedResult { items, next_page: pt }
}

/// Columns of the archive's tables.
#[derive(Clone, Copy, Debug, PartialEq, Eq, Structural)]
pub enum Column {
    Channel,
    Data,
    EntityId,
    Event,
    GameId,
    Hash,
    Kind,
    Payload,
    Raw,
    SearchTsv,
    Timestamp,
    ValidFrom,
    ValidTo,
}

/// The archive's tables.
#[derive(Clone, Copy, Debug, PartialEq, Eq, Structural)]
pub enum Table {
    Events,
    GameEvents,
    Objects,
    Versions,
}

/// Where a page continues: rows strictly past `token` in `order`, comparing
/// the timestamp column and, when there is one, then the identifier column.
#[derive(Clone, Copy, Debug, PartialEq, Eq, Structural)]
pub struct Cursor {
    pub order: SortOrder,
    pub timestamp_column: Column,
    pub id_column: Option<Column>,
    pub token: PageToken,
}

/// One condition of a query's `where` clause.
pub enum Condition {
    /// The column equals the identifier.
    UuidEq(Column, u128),
    /// The column equals the text.
    TextEq(Column, String),
    /// The search vector matches the full-text query.
    Matches(String),
    /// The column is at or before the instant.
    AtMost(Column, i128),
    /// The column is at or after the instant.
    AtLeast(Column, i128),
    /// The kind column equals the code.
    KindEq(i32),
    /// The column is one of the identifiers.
    UuidIn(Column, Vec<u128>),
    /// `valid_to` is unset or after the instant.
    EndsAfter(i128),
    /// The column is unset.
    IsNull(Column),
    /// The row lies past the cursor.
    After(Cursor),
}

/// A query of the archive: columns, table, the join with the stored
/// objects, sort keys, row limit and conditions, all of which must hold.
pub struct SelectPlan {
    /// `true` selects every column of `versions` and the object's data.
    pub all_version_columns: bool,
    pub columns: Vec<Column>,
    pub from: Table,
    /// Joins the stored objects on the version's hash.
    pub join_objects: bool,
    pub order_by: Vec<(Column, SortOrder)>,
    pub limit: Option<u64>,
    pub conditions: Vec<Condition>,
}

/// The paginate condition for `order` past `token`.
pub open spec fn spec_paginate(order: SortOrder, timestamp_column: Column, id_column: Option<Column>, token: PageToken) -> Condition {
    Condition::After(Cursor { order, timestamp_column, id_column, token })
}

/// The condition continuing a listing sorted by `timestamp_column` (then
/// `id_column`) in `order` after the row with `token`'s key.
pub fn paginate(order: SortOrder, timestamp_column: Column, id_column: Option<Column>, token: PageToken) -> (r: Condition)
    ensures
        r == spec_paginate(order, timestamp_column, id_column, token),
{
    Condition::After(Cursor { order, timestamp_column, id_column, token })
}

/// A row of the archive as the conditions see it.
pub ghost struct Row {
    pub game_id: u128,
    pub entity_id: u128,
    pub kind: int,
    pub channel: Seq<char>,
    pub timestamp: int,
    pub valid_from: int,
    pub valid_to: Option<int>,
    /// The full-text queries the row's search vector matches.
    pub matched_searches: Set<Seq<char>>,
}

/// The identifier a row holds in `c`.
pub open spec fn uuid_column(row: Row, c: Column) -> Option<u128> {
    match c {
        Column::GameId => Some(row.game_id),
        Column::EntityId => Some(row.entity_id),
        _ => None,
    }
}

/// The instant a row holds in `c`.
pub open spec fn time_column(row: Row, c: Column) -> Option<int> {
    match c {
        Column::Timestamp => Some(row.timestamp),
        Column::ValidFrom => Some(row.valid_from),
        Column::ValidTo => row.valid_to,
        _ => None,
    }
}

/// Whether a row lies strictly past the cursor in the cursor's order.
pub open spec fn past_cursor(row: Row, k: Cursor) -> bool {
    match time_column(row, k.timestamp_column) {
        None => false,
        Some(t) => match k.id_column {
            None => match k.order {
                SortOrder::Asc => t > k.token.timestamp,
                SortOrder::Desc => t < k.token.timestamp,
            },
            Some(ic) => match uuid_column(row, ic) {
                None => false,
                Some(id) => match k.order {
                    SortOrder::Asc => t > k.token.timestamp || (t == k.token.timestamp && id > k.token.entity_id),
                    SortOrder::Desc => t < k.token.timestamp || (t == k.token.timestamp && id < k.token.entity_id),
                },
            },
        },
    }
}

/// Whether a row satisfies a condition.
pub open spec fn holds(c: Condition, row: Row) -> bool {
    match c {
        Condition::UuidEq(col, v) => uuid_column(row, col) == Some(v),
        Condition::TextEq(col, v) => col == Column::Channel && row.channel == v@,
        Condition::Matches(q) => row.matched_searches.contains(q@),
        Condition::AtMost(col, t) => match time_column(row, col) {
            Some(x) => x <= t,
            None => false,
        },
        Condition::AtLeast(col, t) => match time_column(row, col) {
            Some(x) => x >= t,
            None => false,
        },
        Condition::KindEq(k) => row.kind == k,
        Condition::UuidIn(col, ids) => match uuid_column(row, col) {
            Some(v) => ids@.contains(v),
            None => false,
        },
        Condition::EndsAfter(t) => match row.valid_to {
            Some(x) => x > t,
            None => true,
        },
        Condition::IsNull(col) => time_column(row, col) is None,
        Condition::After(k) => past_cursor(row, k),
    }
}

/// Whether a plan selects a row: every condition holds.
pub open spec fn selects(plan: SelectPlan, row: Row) -> bool {
    forall|i: int| 0 <= i < plan.conditions@.len() ==> holds(#[trigger] plan.conditions@[i], row)
}

/// Listing game events.
pub struct GetGameEventsQuery {
    pub game_id: Option<u128>,
    pub search: Option<String>,
    pub before: Option<i128>,
    pub after: Option<i128>,
    pub count: u64,
    pub order: SortOrder,
    pub page: Option<PageToken>,
}

/// Listing push events.
pub struct GetEventsQuery {
    pub channel: Option<String>,
    pub before: Option<i128>,
    pub after: Option<i128>,
    pub count: u64,
    pub order: SortOrder,
    pub page: Option<PageToken>,
}

/// Listing the versions of entities of one kind valid at an instant (or now).
pub struct GetEntitiesQuery {
    pub kind: EntityKind,
    pub at: Option<i128>,
    pub id: Vec<u128>,
    pub order: SortOrder,
    pub page: Option<PageToken>,
}

/// Listing every version of entities of one kind.
pub struct GetVersionsQuery {
    pub kind: EntityKind,
    pub id: Vec<u128>,
    pub before: Option<i128>,
    pub after: Option<i128>,
    pub count: u64,
    pub order: SortOrder,
    pub page: Option<PageToken>,
}

/// `s` with `c` appended when `o` holds a value.
pub open spec fn push_if<A>(s: Seq<Condition>, o: Option<A>, c: spec_fn(A) -> Condition) -> Seq<Condition> {
    match o {
        Some(v) => s.push(c(v)),
        None => s,
    }
}

impl GetGameEventsQuery {
    /// The conditions of the listing: game, search, before, after, page, in that order.
    pub open spec fn spec_conditions(self) -> Seq<Condition> {
        let c1 = push_if(Seq::empty(), self.game_id, |g: u128| Condition::UuidEq(Column::GameId, g));
        let c2 = push_if(c1, self.search, |s: String| Condition::Matches(s));
        let c3 = push_if(c2, self.before, |t: i128| Condition::AtMost(Column::Timestamp, t));
        let c4 = push_if(c3, self.after, |t: i128| Condition::AtLeast(Column::Timestamp, t));
        push_if(c4, self.page, |p: PageToken| spec_paginate(self.order, Column::Timestamp, None, p))
    }

    /// Game id, timestamp and data from `game_events`, by timestamp in the
    /// query's order, at most `count` rows.
    pub fn plan(self) -> (r: SelectPlan)
        ensures
            !r.all_version_columns,
            r.columns@ == seq![Column::GameId, Column::Timestamp, Column::Data],
            r.from == Table::GameEvents,
            !r.join_objects,
            r.order_by@ == seq![(Column::Timestamp, self.order)],
            r.limit == Some(self.count),
            r.conditions@ == self.spec_conditions(),
    {
        let mut conditions: Vec<Condition> = Vec::new();
        if let Some(game_id) = self.game_id {
            conditions.push(Condition::UuidEq(Column::GameId, game_id));
        }
        if let Some(search) = self.search {
            conditions.push(Condition::Matches(search));
        }
        if let Some(before) = self.before {
            conditions.push(Condition::AtMost(Column::Timestamp, before));
        }
        if let Some(after) = self.after {
            conditions.push(Condition::AtLeast(Column::Timestamp, after));
        }
        if let Some(page) = self.page {
            conditions.push(paginate(self.order, Column::Timestamp, None, page));
        }
        SelectPlan {
            all_version_columns: false,
            columns: vec![Column::GameId, Column::Timestamp, Column::Data],
            from: Table::GameEvents,
            join_objects: false,
            order_by: vec![(Column::Timestamp, self.order)],
            limit: Some(self.count),
            conditions,
        }
    }
}

impl GetEventsQuery {
    /// The conditions of the listing: channel, before, after, page, in that order.
    pub open spec fn spec_conditions(self) -> Seq<Condition> {
        let c1 = push_if(Seq::empty(), self.channel, |c: String| Condition::TextEq(Column::Channel, c));
        let c2 = push_if(c1, self.before, |t: i128| Condition::AtMost(Column::Timestamp, t));
        let c3 = push_if(c2, self.after, |t: i128| Condition::AtLeast(Column::Timestamp, t));
        push_if(c3, self.page, |p: PageToken| spec_paginate(self.order, Column::Timestamp, None, p))
    }

    /// Channel, event, timestamp, payload and raw text from `events`, by
    /// timestamp in the query's order, at most `count` rows.
    pub fn plan(self) -> (r: SelectPlan)
        ensures
            !r.all_version_columns,
            r.columns@ == seq![Column::Channel, Column::Event, Column::Timestamp, Column::Payload, Column::Raw],
            r.from == Table::Events,
            !r.join_objects,
            r.order_by@ == seq![(Column::Timestamp, self.order)],
            r.limit == Some(self.count),
            r.conditions@ == self.spec_conditions(),
    {
        let mut conditions: Vec<Condition> = Vec::new();
        if let Some(channel) = self.channel {
            conditions.push(Condition::TextEq(Column::Channel, channel));
        }
        if let Some(before) = self.before {
            conditions.push(Condition::AtMost(Column::Timestamp, before));
        }
        if let Some(after) = self.after {
            conditions.push(Condition::AtLeast(Column::Timestamp, after));
        }
        if let Some(page) = self.page {
            conditions.push(paginate(self.order, Column::Timestamp, None, page));
        }
        SelectPlan {
            all_version_columns: false,
            columns: vec![Column::Channel, Column::Event, Column::Timestamp, Column::Payload, Column::Raw],
            from: Table::Events,
            join_objects: false,
            order_by: vec![(Column::Timestamp, self.order)],
            limit: Some(self.count),
            conditions,
        }
    }
}

/// The kind condition every version listing starts with.
pub open spec fn kind_condition(kind: EntityKind) -> Condition {
    Condition::KindEq(kind.spec_code() as i32)
}

impl GetEntitiesQuery {
    /// The conditions of the listing: kind, ids (when any), validity at the
    /// instant (or being current), page, in that order.
    pub open spec fn spec_conditions(self) -> Seq<Condition> {
        let c1 = seq![kind_condition(self.kind)];
        let c2 = if self.id@.len() > 0 {
            c1.push(Condition::UuidIn(Column::EntityId, self.id))
        } else {
            c1
        };
        let c3 = match self.at {
            Some(at) => c2.push(Condition::AtMost(Column::ValidFrom, at)).push(Condition::EndsAfter(at)),
            None => c2.push(Condition::IsNull(Column::ValidTo)),
        };
        push_if(c3, self.page, |p: PageToken| spec_paginate(self.order, Column::ValidFrom, Some(Column::EntityId), p))
    }

    /// Every version column and the object's data, by start of validity then
    /// entity id in the query's order, without a row limit.
    pub fn plan(self) -> (r: SelectPlan)
        ensures
            r.all_version_columns,
            r.columns@ == Seq::<Column>::empty(),
            r.from == Table::Versions,
            r.join_objects,
            r.order_by@ == seq![(Column::ValidFrom, self.order), (Column::EntityId, self.order)],
            r.limit is None,
            r.conditions@ == self.spec_conditions(),
    {
        let mut conditions: Vec<Condition> = Vec::new();
        conditions.push(Condition::KindEq(self.kind.code() as i32));
        if self.id.len() > 0 {
            conditions.push(Condition::UuidIn(Column::EntityId, self.id));
        }
        match self.at {
            Some(at) => {
                conditions.push(Condition::AtMost(Column::ValidFrom, at));
                conditions.push(Condition::EndsAfter(at));
            },
            None => {
                conditions.push(Condition::IsNull(Column::ValidTo));
            },
        }
        if let Some(page) = self.page {
            conditions.push(paginate(self.order, Column::ValidFrom, Some(Column::EntityId), page));
        }
        SelectPlan {
            all_version_columns: true,
            columns: Vec::new(),
            from: Table::Versions,
            join_objects: true,
            order_by: vec![(Column::ValidFrom, self.order), (Column::EntityId, self.order)],
            limit: None,
            conditions,
        }
    }
}

impl GetVersionsQuery {
    /// The conditions of the listing: kind, ids (when any), before, after,
    /// page, in that order.
    pub open spec fn spec_conditions(self) -> Seq<Condition> {
        let c1 = seq![kind_condition(self.kind)];
        let c2 = if self.id@.len() > 0 {
            c1.push(Condition::UuidIn(Column::EntityId, self.id))
        } else {
            c1
        };
        let c3 = push_if(c2, self.before, |t: i128| Condition::AtMost(Column::ValidFrom, t));
        let c4 = push_if(c3, self.after, |t: i128| Condition::AtLeast(Column::ValidFrom, t));
        push_if(c4, self.page, |p: PageToken| spec_paginate(self.order, Column::ValidFrom, Some(Column::EntityId), p))
    }

    /// Every version column and the object's data, by start of validity then
    /// entity id in the query's order, at most `count` rows.
    pub fn plan(self) -> (r: SelectPlan)
        ensures
            r.all_version_columns,
            r.columns@ == Seq::<Column>::empty(),
            r.from == Table::Versions,
            r.join_objects,
            r.order_by@ == seq![(Column::ValidFrom, self.order), (Column::EntityId, self.order)],
            r.limit == Some(self.count),
            r.conditions@ == self.spec_conditions(),
    {
        let mut conditions: Vec<Condition> = Vec::new();
        conditions.push(Condition::KindEq(self.kind.code() as i32));
        if self.id.len() > 0 {
            conditions.push(Condition::UuidIn(Column::EntityId, self.id));
        }
        if let Some(before) = self.before {
            conditions.push(Condition::AtMost(Column::ValidFrom, before));
        }
        if let Some(after) = self.after {
            conditions.push(Condition::AtLeast(Column::ValidFrom, after));
        }
        if let Some(page) = self.page {
            conditions.push(paginate(self.order, Column::ValidFrom, Some(Column::EntityId), page));
        }
        SelectPlan {
            all_version_columns: true,
            columns: Vec::new(),
            from: Table::Versions,
            join_objects: true,
            order_by: vec![(Column::ValidFrom, self.order), (Column::EntityId, self.order)],
            limit: Some(self.count),
            conditions,
        }
    }
}

/// Rows that all conditions of `s + [c]` admit are those `s` admits and `c` admits.
pub proof fn lemma_all_hold_push(s: Seq<Condition>, c: Condition, row: Row)
    ensures
        (forall|i: int| 0 <= i < s.push(c).len() ==> holds(#[trigger] s.push(c)[i], row)) <==> ((forall|i: int|
            0 <= i < s.len() ==> holds(#[trigger] s[i], row)) && holds(c, row)),
{
    assert(s.push(c)[s.len() as int] == c);
    assert forall|i: int| 0 <= i < s.len() implies s.push(c)[i] == s[i] by {}
}

/// A page token continues a game event listing: with the token, the listing
/// selects exactly the rows it selects without one that lie strictly past
/// the token's timestamp in the listing's order.
pub proof fn lemma_game_events_page(q: GetGameEventsQuery, t: PageToken, row: Row)
    requires
        q.page is None,
    ensures
        ({
            let paged = GetGameEventsQuery { page: Some(t), ..q };
            (forall|i: int| 0 <= i < paged.spec_conditions().len() ==> holds(#[trigger] paged.spec_conditions()[i], row))
                <==> ((forall|i: int| 0 <= i < q.spec_conditions().len() ==> holds(#[trigger] q.spec_conditions()[i], row))
                && past_cursor(row, Cursor { order: q.order, timestamp_column: Column::Timestamp, id_column: None, token: t }))
        }),
{
    let paged = GetGameEventsQuery { page: Some(t), ..q };
    assert(paged.spec_conditions() == q.spec_conditions().push(spec_paginate(q.order, Column::Timestamp, None, t)));
    lemma_all_hold_push(q.spec_conditions(), spec_paginate(q.order, Column::Timestamp, None, t), row);
}

/// A page token continues a push event listing, as for game events.
pub proof fn lemma_events_page(q: GetEventsQuery, t: PageToken, row: Row)
    requires
        q.page is None,
    ensures
        ({
            let paged = GetEventsQuery { page: Some(t), ..q };
            (forall|i: int| 0 <= i < paged.spec_conditions().len() ==> holds(#[trigger] paged.spec_conditions()[i], row))
                <==> ((forall|i: int| 0 <= i < q.spec_conditions().len() ==> holds(#[trigger] q.spec_conditions()[i], row))
                && past_cursor(row, Cursor { order: q.order, timestamp_column: Column::Timestamp, id_column: None, token: t }))
        }),
{
    let paged = GetEventsQuery { page: Some(t), ..q };
    assert(paged.spec_conditions() == q.spec_conditions().push(spec_paginate(q.order, Column::Timestamp, None, t)));
    lemma_all_hold_push(q.spec_conditions(), spec_paginate(q.order, Column::Timestamp, None, t), row);
}

/// A page token continues an entity listing: with the token, the listing
/// selects exactly the rows it selects without one that lie strictly past
/// the token's (start of validity, entity id) in the listing's order.
pub proof fn lemma_entities_page(q: GetEntitiesQuery, t: PageToken, row: Row)
    requires
        q.page is None,
    ensures
        ({
            let paged = GetEntitiesQuery { page: Some(t), ..q };
            (forall|i: int| 0 <= i < paged.spec_conditions().len() ==> holds(#[trigger] paged.spec_conditions()[i], row))
                <==> ((forall|i: int| 0 <= i < q.spec_conditions().len() ==> holds(#[trigger] q.spec_conditions()[i], row))
                && past_cursor(row, Cursor { order: q.order, timestamp_column: Column::ValidFrom, id_column: Some(Column::EntityId), token: t }))
        }),
{
    let paged = GetEntitiesQuery { page: Some(t), ..q };
    let c = spec_paginate(q.order, Column::ValidFrom, Some(Column::EntityId), t);
    assert(paged.spec_conditions() == q.spec_conditions().push(c));
    lemma_all_hold_push(q.spec_conditions(), c, row);
}

/// A page token continues a version listing, as for entities.
pub proof fn lemma_versions_page(q: GetVersionsQuery, t: PageToken, row: Row)
    requires
        q.page is None,
    ensures
        ({
            let paged = GetVersionsQuery { page: Some(t), ..q };
            (forall|i: int| 0 <= i < paged.spec_conditions().len() ==> holds(#[trigger] paged.spec_conditions()[i], row))
                <==> ((forall|i: int| 0 <= i < q.spec_conditions().len() ==> holds(#[trigger] q.spec_conditions()[i], row))
                && past_cursor(row, Cursor { order: q.order, timestamp_column: Column::ValidFrom, id_column: Some(Column::EntityId), token: t }))
        }),
{
    let paged = GetVersionsQuery { page: Some(t), ..q };
    let c = spec_paginate(q.order, Column::ValidFrom, Some(Column::EntityId), t);
    assert(paged.spec_conditions() == q.spec_conditions().push(c));
    lemma_all_hold_push(q.spec_conditions(), c, row);
}

/// The row a page token was taken from is never selected by the page it
/// continues: no row lies strictly past its own key.
pub proof fn lemma_cursor_excludes_its_row(row: Row, k: Cursor)
    requires
        time_column(row, k.timestamp_column) == Some(k.token.timestamp as int),
        k.id_column is Some ==> uuid_column(row, k.id_column->0) == Some(k.token.entity_id),
    ensures
        !past_cursor(row, k),
{
}

/// Whether every condition of `conds` holds of `row`.
pub open spec fn all_hold(conds: Seq<Condition>, row: Row) -> bool {
    forall|i: int| 0 <= i < conds.len() ==> holds(#[trigger] conds[i], row)
}

/// The rows every condition of `conds` admits.
pub open spec fn admitted(conds: Seq<Condition>) -> spec_fn(Row) -> bool {
    |r: Row| all_hold(conds, r)
}

/// The first `count` of `rows`, or all of them when there are fewer.
pub open spec fn first(rows: Seq<Row>, count: nat) -> Seq<Row> {
    if count < rows.len() {
        rows.take(count as int)
    } else {
        rows
    }
}

/// What a listing with conditions `conds` and row limit `count` returns from
/// a table whose rows, in the listing's order, are `rows`: the rows every
/// condition admits, in that order, at most `count` of them.
pub open spec fn listed(rows: Seq<Row>, conds: Seq<Condition>, count: nat) -> Seq<Row> {
    first(rows.filter(admitted(conds)), count)
}

/// The key of a row as a page token: its instant in `ts`, and its
/// identifier in `id` (0 when the listing has none).
pub open spec fn row_token(row: Row, ts: Column, id: Option<Column>) -> PageToken {
    PageToken {
        entity_id: match id {
            Some(c) => match uuid_column(row, c) {
                Some(v) => v,
                None => 0,
            },
            None => 0,
        },
        timestamp: match time_column(row, ts) {
            Some(t) => t as i128,
            None => 0,
        },
    }
}

/// Whether `b` lies strictly past `a` in a listing sorted by `ts` (then `id`)
/// in `order`: past the cursor that `a`'s token makes.
pub open spec fn comes_after(a: Row, b: Row, order: SortOrder, ts: Column, id: Option<Column>) -> bool {
    past_cursor(b, Cursor { order, timestamp_column: ts, id_column: id, token: row_token(a, ts, id) })
}

/// Whether a row's key can stand in a page token: it has an instant in `ts`
/// that fits the token, and an identifier in `id` when the listing uses one.
pub open spec fn keyed(row: Row, ts: Column, id: Option<Column>) -> bool {
    &&& time_column(row, ts) matches Some(t) && i128::MIN <= t <= i128::MAX
    &&& id matches Some(c) ==> uuid_column(row, c) is Some
}

/// Whether `rows` are in a listing's order: every key can stand in a token,
/// and each row lies strictly past every row before it (no two keys alike).
pub open spec fn in_order(rows: Seq<Row>, order: SortOrder, ts: Column, id: Option<Column>) -> bool {
    &&& forall|i: int| 0 <= i < rows.len() ==> keyed(#[trigger] rows[i], ts, id)
    &&& forall|i: int, j: int| 0 <= i < j < rows.len() ==> #[trigger] comes_after(rows[i], rows[j], order, ts, id)
}

impl GetGameEventsQuery {
    /// What running the listing's plan returns from a table whose rows, by
    /// timestamp in the listing's order, are `rows`.
    pub open spec fn spec_rows(self, rows: Seq<Row>) -> Seq<Row> {
        listed(rows, self.spec_conditions(), self.count as nat)
    }
}

impl GetEventsQuery {
    /// What running the listing's plan returns from a table whose rows, by
    /// timestamp in the listing's order, are `rows`.
    pub open spec fn spec_rows(self, rows: Seq<Row>) -> Seq<Row> {
        listed(rows, self.spec_conditions(), self.count as nat)
    }
}

impl GetVersionsQuery {
    /// What running the listing's plan returns from a table whose rows, by
    /// start of validity then entity id in the listing's order, are `rows`.
    pub open spec fn spec_rows(self, rows: Seq<Row>) -> Seq<Row> {
        listed(rows, self.spec_conditions(), self.count as nat)
    }
}

/// No row lies past itself, and of two keyed rows at most one lies past the other.
proof fn lemma_comes_after_strict(a: Row, b: Row, order: SortOrder, ts: Column, id: Option<Column>)
    requires
        keyed(a, ts, id),
        keyed(b, ts, id),
    ensures
        !comes_after(a, a, order, ts, id),
        comes_after(a, b, order, ts, id) ==> !comes_after(b, a, order, ts, id),
{
}

/// Filtering by a conjunction filters by each part in turn.
proof fn lemma_filter_and<A>(s: Seq<A>, p: spec_fn(A) -> bool, q: spec_fn(A) -> bool, pq: spec_fn(A) -> bool)
    requires
        forall|x: A| #[trigger] pq(x) == (p(x) && q(x)),
    ensures
        s.filter(pq) == s.filter(p).filter(q),
    decreases s.len(),
{
    if s.len() == 0 {
        s.filter_lemma(pq);
        s.filter_lemma(p);
        s.filter(p).filter_lemma(q);
        assert(s.filter(pq) =~= s.filter(p).filter(q));
    } else {
        let init = s.drop_last();
        let x = s.last();
        assert(s =~= init.push(x));
        lemma_filter_and(init, p, q, pq);
        lemma_filter_push(init, pq, x);
        lemma_filter_push(init, p, x);
        if p(x) {
            lemma_filter_push(init.filter(p), q, x);
        }
    }
}

/// The rows a filter keeps from rows in a listing's order are in that order.
proof fn lemma_filter_in_order(rows: Seq<Row>, p: spec_fn(Row) -> bool, order: SortOrder, ts: Column, id: Option<Column>)
    requires
        in_order(rows, order, ts, id),
    ensures
        in_order(rows.filter(p), order, ts, id),
    decreases rows.len(),
{
    let f = rows.filter(p);
    assert forall|i: int| 0 <= i < f.len() implies keyed(#[trigger] f[i], ts, id) by {
        assert(f.contains(f[i]));
        rows.lemma_filter_contains_rev(p, f[i]);
        let k = choose|k: int| 0 <= k < rows.len() && rows[k] == f[i];
        assert(keyed(rows[k], ts, id));
    }
    if rows.len() > 0 {
        let init = rows.drop_last();
        let x = rows.last();
        assert(rows =~= init.push(x));
        assert forall|i: int, j: int| 0 <= i < j < init.len() implies #[trigger] comes_after(init[i], init[j], order, ts, id) by {
            assert(comes_after(rows[i], rows[j], order, ts, id));
        }
        assert forall|i: int| 0 <= i < init.len() implies keyed(#[trigger] init[i], ts, id) by {
            assert(keyed(rows[i], ts, id));
        }
        lemma_filter_in_order(init, p, order, ts, id);
        lemma_filter_push(init, p, x);
        if p(x) {
            let fi = init.filter(p);
            assert forall|i: int, j: int| 0 <= i < j < f.len() implies #[trigger] comes_after(f[i], f[j], order, ts, id) by {
                if j == fi.len() {
                    assert(fi.contains(fi[i]));
                    init.lemma_filter_contains_rev(p, fi[i]);
                    let k = choose|k: int| 0 <= k < init.len() && init[k] == fi[i];
                    assert(comes_after(rows[k], rows[rows.len() - 1], order, ts, id));
                } else {
                    assert(comes_after(fi[i], fi[j], order, ts, id));
                }
            }
        }
    }
}

/// A filter that keeps exactly the elements from index `n` on keeps the suffix from `n`.
proof fn lemma_filter_from<A>(s: Seq<A>, p: spec_fn(A) -> bool, n: nat)
    requires
        n <= s.len(),
        forall|i: int| 0 <= i < s.len() ==> #[trigger] p(s[i]) == (i >= n),
    ensures
        s.filter(p) == s.subrange(n as int, s.len() as int),
    decreases s.len(),
{
    if n == s.len() {
        assert(s.all(|x: A| !p(x)));
        s.lemma_all_neg_filter_empty(p);
        assert(s.filter(p) =~= s.subrange(n as int, s.len() as int));
    } else {
        let init = s.drop_last();
        let x = s.last();
        assert(s =~= init.push(x));
        assert forall|i: int| 0 <= i < init.len() implies #[trigger] p(init[i]) == (i >= n) by {
            assert(p(s[i]) == (i >= n));
        }
        lemma_filter_from(init, p, n);
        lemma_filter_push(init, p, x);
        assert(p(s[s.len() - 1]));
        assert(init.subrange(n as int, init.len() as int).push(x) =~= s.subrange(n as int, s.len() as int));
    }
}

/// On rows in a listing's order, a full page of `n` followed by the page of
/// `m` that its last row's token continues is the page of `n + m`.
proof fn lemma_pages_join(
    rows: Seq<Row>,
    conds: Seq<Condition>,
    order: SortOrder,
    ts: Column,
    id: Option<Column>,
    n: nat,
    m: nat,
)
    requires
        in_order(rows, order, ts, id),
        n >= 1,
        listed(rows, conds, n).len() == n,
    ensures
        listed(rows, conds, n) + listed(
            rows,
            conds.push(
                Condition::After(
                    Cursor {
                        order,
                        timestamp_column: ts,
                        id_column: id,
                        token: row_token(listed(rows, conds, n).last(), ts, id),
                    },
                ),
            ),
            m,
        ) == listed(rows, conds, n + m),
{
    let f = rows.filter(admitted(conds));
    let page = listed(rows, conds, n);
    assert(f.len() >= n);
    assert(page =~= f.take(n as int));
    let a = f[n - 1];
    assert(page.last() == a);
    let c = Condition::After(Cursor { order, timestamp_column: ts, id_column: id, token: row_token(a, ts, id) });
    let kc = |r: Row| holds(c, r);
    assert forall|r: Row| #[trigger] admitted(conds.push(c))(r) == (admitted(conds)(r) && kc(r)) by {
        lemma_all_hold_push(conds, c, r);
    }
    lemma_filter_and(rows, admitted(conds), kc, admitted(conds.push(c)));
    lemma_filter_in_order(rows, admitted(conds), order, ts, id);
    assert forall|i: int| 0 <= i < f.len() implies #[trigger] kc(f[i]) == (i >= n) by {
        assert(keyed(f[i], ts, id));
        assert(keyed(a, ts, id));
        assert(kc(f[i]) == comes_after(a, f[i], order, ts, id));
        if i > n - 1 {
            assert(comes_after(f[n - 1], f[i], order, ts, id));
        } else if i == n - 1 {
            lemma_comes_after_strict(a, a, order, ts, id);
        } else {
            assert(comes_after(f[i], f[n - 1], order, ts, id));
            lemma_comes_after_strict(f[i], a, order, ts, id);
        }
    }
    lemma_filter_from(f, kc, n);
    let rest = f.subrange(n as int, f.len() as int);
    assert(rows.filter(admitted(conds.push(c))) == rest);
    assert(f.take(n as int) + first(rest, m) =~= first(f, n + m));
}

/// Paging a game event listing neither skips nor repeats an event: on a
/// table whose events, by timestamp in the listing's order, are `rows` (no
/// two timestamps alike), a full first page of `q.count` events followed by
/// the page of `m` that its last event's token continues is the first page
/// of `q.count + m`.
pub proof fn lemma_game_events_pages_join(q: GetGameEventsQuery, rows: Seq<Row>, m: u64)
    requires
        q.page is None,
        q.count >= 1,
        q.count + m <= u64::MAX,
        in_order(rows, q.order, Column::Timestamp, None),
        q.spec_rows(rows).len() == q.count,
    ensures
        ({
            let page = q.spec_rows(rows);
            let next = GetGameEventsQuery {
                count: m,
                page: Some(row_token(page.last(), Column::Timestamp, None)),
                ..q
            };
            let both = GetGameEventsQuery { count: (q.count + m) as u64, ..q };
            page + next.spec_rows(rows) == both.spec_rows(rows)
        }),
{
    let page = q.spec_rows(rows);
    let t = row_token(page.last(), Column::Timestamp, None);
    let next = GetGameEventsQuery { count: m, page: Some(t), ..q };
    let both = GetGameEventsQuery { count: (q.count + m) as u64, ..q };
    assert(next.spec_conditions() == q.spec_conditions().push(spec_paginate(q.order, Column::Timestamp, None, t)));
    assert(both.spec_conditions() == q.spec_conditions());
    lemma_pages_join(rows, q.spec_conditions(), q.order, Column::Timestamp, None, q.count as nat, m as nat);
}

/// Paging a push event listing neither skips nor repeats an event, as for
/// game events.
pub proof fn lemma_events_pages_join(q: GetEventsQuery, rows: Seq<Row>, m: u64)
    requires
        q.page is None,
        q.count >= 1,
        q.count + m <= u64::MAX,
        in_order(rows, q.order, Column::Timestamp, None),
        q.spec_rows(rows).len() == q.count,
    ensures
        ({
            let page = q.spec_rows(rows);
            let next = GetEventsQuery { count: m, page: Some(row_token(page.last(), Column::Timestamp, None)), ..q };
            let both = GetEventsQuery { count: (q.count + m) as u64, ..q };
            page + next.spec_rows(rows) == both.spec_rows(rows)
        }),
{
    let page = q.spec_rows(rows);
    let t = row_token(page.last(), Column::Timestamp, None);
    let next = GetEventsQuery { count: m, page: Some(t), ..q };
    let both = GetEventsQuery { count: (q.count + m) as u64, ..q };
    assert(next.spec_conditions() == q.spec_conditions().push(spec_paginate(q.order, Column::Timestamp, None, t)));
    assert(both.spec_conditions() == q.spec_conditions());
    lemma_pages_join(rows, q.spec_conditions(), q.order, Column::Timestamp, None, q.count as nat, m as nat);
}

/// Paging a version listing neither skips nor repeats a version: on a table
/// whose versions, by start of validity then entity id in the listing's
/// order, are `rows` (no two such keys alike), a full first page of
/// `q.count` versions followed by the page of `m` that its last version's
/// token continues is the first page of `q.count + m`.
pub proof fn lemma_versions_pages_join(q: GetVersionsQuery, rows: Seq<Row>, m: u64)
    requires
        q.page is None,
        q.count >= 1,
        q.count + m <= u64::MAX,
        in_order(rows, q.order, Column::ValidFrom, Some(Column::EntityId)),
        q.spec_rows(rows).len() == q.count,
    ensures
        ({
            let page = q.spec_rows(rows);
            let next = GetVersionsQuery {
                count: m,
                page: Some(row_token(page.last(), Column::ValidFrom, Some(Column::EntityId))),
                ..q
            };
            let both = GetVersionsQuery { count: (q.count + m) as u64, ..q };
            page + next.spec_rows(rows) == both.spec_rows(rows)
        }),
{
    let page = q.spec_rows(rows);
    let t = row_token(page.last(), Column::ValidFrom, Some(Column::EntityId));
    let next = GetVersionsQuery { count: m, page: Some(t), ..q };
    let both = GetVersionsQuery { count: (q.count + m) as u64, ..q };
    let c = spec_paginate(q.order, Column::ValidFrom, Some(Column::EntityId), t);
    assert(next.spec_conditions() == q.spec_conditions().push(c));
    assert(both.spec_conditions() == q.spec_conditions());
    lemma_pages_join(
        rows,
        q.spec_conditions(),
        q.order,
        Column::ValidFrom,
        Some(Column::EntityId),
        q.count as nat,
        m as nat,
    );
}

/// Every condition of no conditions holds.
proof fn lemma_all_hold_empty(row: Row)
    ensures
        all_hold(Seq::<Condition>::empty(), row),
{
}

/// Adding a condition when an optional parameter is present adds that
/// condition to what must hold.
proof fn lemma_all_hold_push_if<A>(s: Seq<Condition>, o: Option<A>, f: spec_fn(A) -> Condition, row: Row)
    ensures
        all_hold(push_if(s, o, f), row) <==> (all_hold(s, row) && (o matches Some(v) ==> holds(f(v), row))),
{
    match o {
        Some(v) => lemma_all_hold_push(s, f(v), row),
        None => {},
    }
}

/// Adding a condition adds it to what must hold.
proof fn lemma_all_hold_push1(s: Seq<Condition>, c: Condition, row: Row)
    ensures
        all_hold(s.push(c), row) <==> (all_hold(s, row) && holds(c, row)),
{
    lemma_all_hold_push(s, c, row);
}

/// A game event listing selects exactly the events of its game (when it
/// names one), matching its search (when it has one), within its time
/// bounds, and past its page token.
pub proof fn lemma_game_events_selection(q: GetGameEventsQuery, row: Row)
    ensures
        all_hold(q.spec_conditions(), row) <==> {
            &&& q.game_id matches Some(g) ==> row.game_id == g
            &&& q.search matches Some(text) ==> row.matched_searches.contains(text@)
            &&& q.before matches Some(b) ==> row.timestamp <= b
            &&& q.after matches Some(a) ==> row.timestamp >= a
            &&& q.page matches Some(t) ==> past_cursor(
                row,
                Cursor { order: q.order, timestamp_column: Column::Timestamp, id_column: None, token: t },
            )
        },
{
    let c1 = push_if(Seq::empty(), q.game_id, |g: u128| Condition::UuidEq(Column::GameId, g));
    let c2 = push_if(c1, q.search, |s: String| Condition::Matches(s));
    let c3 = push_if(c2, q.before, |t: i128| Condition::AtMost(Column::Timestamp, t));
    let c4 = push_if(c3, q.after, |t: i128| Condition::AtLeast(Column::Timestamp, t));
    lemma_all_hold_empty(row);
    lemma_all_hold_push_if(Seq::empty(), q.game_id, |g: u128| Condition::UuidEq(Column::GameId, g), row);
    lemma_all_hold_push_if(c1, q.search, |s: String| Condition::Matches(s), row);
    lemma_all_hold_push_if(c2, q.before, |t: i128| Condition::AtMost(Column::Timestamp, t), row);
    lemma_all_hold_push_if(c3, q.after, |t: i128| Condition::AtLeast(Column::Timestamp, t), row);
    lemma_all_hold_push_if(
        c4,
        q.page,
        |p: PageToken| spec_paginate(q.order, Column::Timestamp, None, p),
        row,
    );
}

/// A push event listing selects exactly the events on its channel (when it
/// names one), at or before its `before` instant, at or after its `after`
/// instant, and past its page token.
pub proof fn lemma_events_selection(q: GetEventsQuery, row: Row)
    ensures
        all_hold(q.spec_conditions(), row) <==> {
            &&& q.channel matches Some(c) ==> row.channel == c@
            &&& q.before matches Some(b) ==> row.timestamp <= b
            &&& q.after matches Some(a) ==> row.timestamp >= a
            &&& q.page matches Some(t) ==> past_cursor(
                row,
                Cursor { order: q.order, timestamp_column: Column::Timestamp, id_column: None, token: t },
            )
        },
{
    let c1 = push_if(Seq::empty(), q.channel, |c: String| Condition::TextEq(Column::Channel, c));
    let c2 = push_if(c1, q.before, |t: i128| Condition::AtMost(Column::Timestamp, t));
    let c3 = push_if(c2, q.after, |t: i128| Condition::AtLeast(Column::Timestamp, t));
    lemma_all_hold_empty(row);
    lemma_all_hold_push_if(Seq::empty(), q.channel, |c: String| Condition::TextEq(Column::Channel, c), row);
    lemma_all_hold_push_if(c1, q.before, |t: i128| Condition::AtMost(Column::Timestamp, t), row);
    lemma_all_hold_push_if(c2, q.after, |t: i128| Condition::AtLeast(Column::Timestamp, t), row);
    lemma_all_hold_push_if(
        c3,
        q.page,
        |p: PageToken| spec_paginate(q.order, Column::Timestamp, None, p),
        row,
    );
}

/// An entity listing selects exactly the versions of its kind, of its ids
/// when it names any, valid at its instant (or current, without one), and
/// past its page token.
pub proof fn lemma_entities_selection(q: GetEntitiesQuery, row: Row)
    ensures
        all_hold(q.spec_conditions(), row) <==> {
            &&& row.kind == q.kind.spec_code()
            &&& q.id@.len() > 0 ==> q.id@.contains(row.entity_id)
            &&& q.at matches Some(a) ==> row.valid_from <= a && (row.valid_to matches Some(e) ==> e > a)
            &&& q.at is None ==> row.valid_to is None
            &&& q.page matches Some(t) ==> past_cursor(
                row,
                Cursor {
                    order: q.order,
                    timestamp_column: Column::ValidFrom,
                    id_column: Some(Column::EntityId),
                    token: t,
                },
            )
        },
{
    let c1 = seq![kind_condition(q.kind)];
    let c2 = if q.id@.len() > 0 {
        c1.push(Condition::UuidIn(Column::EntityId, q.id))
    } else {
        c1
    };
    let c3 = match q.at {
        Some(at) => c2.push(Condition::AtMost(Column::ValidFrom, at)).push(Condition::EndsAfter(at)),
        None => c2.push(Condition::IsNull(Column::ValidTo)),
    };
    lemma_all_hold_empty(row);
    assert(c1 == Seq::<Condition>::empty().push(kind_condition(q.kind)));
    lemma_all_hold_push1(Seq::empty(), kind_condition(q.kind), row);
    lemma_all_hold_push1(c1, Condition::UuidIn(Column::EntityId, q.id), row);
    match q.at {
        Some(at) => {
            lemma_all_hold_push1(c2, Condition::AtMost(Column::ValidFrom, at), row);
            lemma_all_hold_push1(c2.push(Condition::AtMost(Column::ValidFrom, at)), Condition::EndsAfter(at), row);
        },
        None => {
            lemma_all_hold_push1(c2, Condition::IsNull(Column::ValidTo), row);
        },
    }
    lemma_all_hold_push_if(
        c3,
        q.page,
        |p: PageToken| spec_paginate(q.order, Column::ValidFrom, Some(Column::EntityId), p),
        row,
    );
}

/// A version listing selects exactly the versions of its kind, of its ids
/// when it names any, starting within its time bounds, and past its page
/// token.
pub proof fn lemma_versions_selection(q: GetVersionsQuery, row: Row)
    ensures
        all_hold(q.spec_conditions(), row) <==> {
            &&& row.kind == q.kind.spec_code()
            &&& q.id@.len() > 0 ==> q.id@.contains(row.entity_id)
            &&& q.before matches Some(b) ==> row.valid_from <= b
            &&& q.after matches Some(a) ==> row.valid_from >= a
            &&& q.page matches Some(t) ==> past_cursor(
                row,
                Cursor {
                    order: q.order,
                    timestamp_column: Column::ValidFrom,
                    id_column: Some(Column::EntityId),
                    token: t,
                },
            )
        },
{
    let c1 = seq![kind_condition(q.kind)];
    let c2 = if q.id@.len() > 0 {
        c1.push(Condition::UuidIn(Column::EntityId, q.id))
    } else {
        c1
    };
    let c3 = push_if(c2, q.before, |t: i128| Condition::AtMost(Column::ValidFrom, t));
    let c4 = push_if(c3, q.after, |t: i128| Condition::AtLeast(Column::ValidFrom, t));
    lemma_all_hold_empty(row);
    assert(c1 == Seq::<Condition>::empty().push(kind_condition(q.kind)));
    lemma_all_hold_push1(Seq::empty(), kind_condition(q.kind), row);
    lemma_all_hold_push1(c1, Condition::UuidIn(Column::EntityId, q.id), row);
    lemma_all_hold_push_if(c2, q.before, |t: i128| Condition::AtMost(Column::ValidFrom, t), row);
    lemma_all_hold_push_if(c3, q.after, |t: i128| Condition::AtLeast(Column::ValidFrom, t), row);
    lemma_all_hold_push_if(
        c4,
        q.page,
        |p: PageToken| spec_paginate(q.order, Column::ValidFrom, Some(Column::EntityId), p),
        row,
    );
}

} // verus!
