//! The read API: its query parameters, how they become listings of the
//! archive, and its error answer.

use vstd::prelude::*;

use crate::boundary::{lemma_uuid_text_parses, uuid_from_text, uuid_parse, uuid_text};
use crate::models::{EntityKind, IsoDateTime};
use crate::queries;
use crate::queries::SortOrder;
use crate::text::{chars_of, substring};

verus! {

/// The items of a listing, as an API answer wraps them.
pub struct WrappedResponse<T> {
    pub items: Vec<T>,
}

/// The error answer: status 500 with the error's text.
pub struct AppError {
    pub message: String,
}

impl AppError {
    pub fn new(message: String) -> (r: AppError)
        ensures
            r.message == message,
    {
        AppError { message }
    }

    /// The HTTP status of the answer.
    pub fn status_code(&self) -> (r: u16)
        ensures
            r == 500,
    {
        500
    }
}

/// The number of rows to list: the requested count, or `max` when none
/// was requested, and never more than `max`.
pub open spec fn spec_clamp_count(count: Option<u64>, max: u64) -> u64 {
    match count {
        Some(c) => if c < max {
            c
        } else {
            max
        },
        None => max,
    }
}

/// `count.unwrap_or(max).min(max)`.
pub fn clamp_count(count: Option<u64>, max: u64) -> (r: u64)
    ensures
        r == spec_clamp_count(count, max),
        r <= max,
{
    let c = match count {
        Some(c) => c,
        None => max,
    };
    if c < max {
        c
    } else {
        max
    }
}

/// An optional instant's nanoseconds.
pub open spec fn nanos_opt(t: Option<IsoDateTime>) -> Option<i128> {
    match t {
        Some(x) => Some(x.0),
        None => None,
    }
}

fn nanos_of(t: Option<IsoDateTime>) -> (r: Option<i128>)
    ensures
        r == nanos_opt(t),
{
    match t {
        Some(x) => Some(x.0),
        None => None,
    }
}

/// Parameters of `/v0/game-events`.
pub struct GetGameEventsQuery {
    pub game_id: Option<u128>,
    pub search: Option<String>,
    pub before: Option<IsoDateTime>,
    pub after: Option<IsoDateTime>,
    pub count: Option<u64>,
    pub order: SortOrder,
}

impl GetGameEventsQuery {
    /// The listing asked for: at most 5000 events, from the first page.
    pub fn into_db_query(self) -> (r: queries::GetGameEventsQuery)
        ensures
            r.game_id == self.game_id,
            r.search == self.search,
            r.before == nanos_opt(self.before),
            r.after == nanos_opt(self.after),
            r.count == spec_clamp_count(self.count, 5000),
            r.order == self.order,
            r.page is None,
    {
        queries::GetGameEventsQuery {
            game_id: self.game_id,
            search: self.search,
            before: nanos_of(self.before),
            after: nanos_of(self.after),
            count: clamp_count(self.count, 5000),
            order: self.order,
            page: None,
        }
    }
}

/// Parameters of `/v0/events`.
pub struct GetEventsQuery {
    pub channel: Option<String>,
    pub before: Option<IsoDateTime>,
    pub after: Option<IsoDateTime>,
    pub count: Option<u64>,
    pub order: SortOrder,
}

impl GetEventsQuery {
    /// The listing asked for: at most 5000 events, from the first page.
    pub fn into_db_query(self) -> (r: queries::GetEventsQuery)
        ensures
            r.channel == self.channel,
            r.before == nanos_opt(self.before),
            r.after == nanos_opt(self.after),
            r.count == spec_clamp_count(self.count, 5000),
            r.order == self.order,
            r.page is None,
    {
        queries::GetEventsQuery {
            channel: self.channel,
            before: nanos_of(self.before),
            after: nanos_of(self.after),
            count: clamp_count(self.count, 5000),
            order: self.order,
            page: None,
        }
    }
}

/// Parameters of the entity listing.
pub struct GetEntitiesQuery {
    pub kind: EntityKind,
}

impl GetEntitiesQuery {
    /// The listing asked for: the current version of every entity of the
    /// kind, in ascending order, from the first page.
    pub fn into_db_query(self) -> (r: queries::GetEntitiesQuery)
        ensures
            r.kind == self.kind,
            r.at is None,
            r.id@.len() == 0,
            r.order == SortOrder::Asc,
            r.page is None,
    {
        queries::GetEntitiesQuery { kind: self.kind, at: None, id: Vec::new(), order: SortOrder::Asc, page: None }
    }
}

/// Parameters of `/v0/versions`.
pub struct GetVersionsQuery {
    pub kind: EntityKind,
    pub id: Vec<u128>,
    pub before: Option<IsoDateTime>,
    pub after: Option<IsoDateTime>,
    pub count: Option<u64>,
    pub order: SortOrder,
}

impl GetVersionsQuery {
    /// The listing asked for: at most 1000 versions, from the first page.
    pub fn into_db_query(self) -> (r: queries::GetVersionsQuery)
        ensures
            r.kind == self.kind,
            r.id == self.id,
            r.before == nanos_opt(self.before),
            r.after == nanos_opt(self.after),
            r.count == spec_clamp_count(self.count, 1000),
            r.order == self.order,
            r.page is None,
    {
        queries::GetVersionsQuery {
            kind: self.kind,
            id: self.id,
            before: nanos_of(self.before),
            after: nanos_of(self.after),
            count: clamp_count(self.count, 1000),
            order: self.order,
            page: None,
        }
    }
}

/// The pieces of `s` between commas (`s.split(",")`): one more than the
/// number of commas, empty pieces included.
pub open spec fn comma_pieces(s: Seq<char>) -> Seq<Seq<char>>
    decreases s.len(),
{
    if s.len() == 0 {
        seq![s]
    } else if s.last() == ',' {
        comma_pieces(s.drop_last()).push(seq![])
    } else {
        let ps = comma_pieces(s.drop_last());
        ps.update(ps.len() - 1, ps.last().push(s.last()))
    }
}

pub proof fn lemma_comma_pieces_nonempty(s: Seq<char>)
    ensures
        comma_pieces(s).len() >= 1,
    decreases s.len(),
{
    if s.len() > 0 {
        lemma_comma_pieces_nonempty(s.drop_last());
    }
}

/// Why a list of ids was refused.
#[derive(Clone, Copy, Debug, PartialEq, Eq, Structural)]
pub enum IdListError {
    /// A piece between commas is not an id.
    InvalidId,
}

/// Whether every piece parses as an id.
pub open spec fn all_ids(pieces: Seq<Seq<char>>) -> bool {
    forall|i: int| 0 <= i < pieces.len() ==> uuid_from_text(#[trigger] pieces[i]) is Some
}

/// A comma-separated list of ids: each piece between commas parsed as an
/// id; refused when any piece (an empty one too) is not an id.
pub fn parse_id_list(s: &str) -> (r: Result<Vec<u128>, IdListError>)
    ensures
        match r {
            Ok(ids) => all_ids(comma_pieces(s@)) && ids@ == comma_pieces(s@).map_values(
                |p: Seq<char>| uuid_from_text(p)->0,
            ),
            Err(_) => !all_ids(comma_pieces(s@)),
        },
{
    let cs = chars_of(s);
    let n = cs.len();
    // pieces found so far, and where the current one starts
    let mut pieces: Vec<String> = Vec::new();
    let mut start: usize = 0;
    let mut i: usize = 0;
    proof {
        assert(s@.subrange(0, 0) =~= Seq::<char>::empty());
    }
    while i < n
        invariant
            cs@ == s@,
            n == s@.len(),
            start <= i <= n,
            pieces@.map_values(|p: String| p@) + seq![s@.subrange(start as int, i as int)] == comma_pieces(
                s@.subrange(0, i as int),
            ),
        decreases n - i,
    {
        let ghost prev = s@.subrange(0, i as int);
        let ghost next = s@.subrange(0, i as int + 1);
        assert(next.drop_last() =~= prev);
        assert(next.last() == cs@[i as int]);
        if cs[i] == ',' {
            let piece = substring(s, start, i);
            let ghost before = pieces@;
            pieces.push(piece);
            assert(pieces@.map_values(|p: String| p@) =~= before.map_values(|p: String| p@).push(
                s@.subrange(start as int, i as int),
            ));
            i = i + 1;
            start = i;
            assert(s@.subrange(start as int, i as int) =~= Seq::<char>::empty());
            assert(pieces@.map_values(|p: String| p@) + seq![s@.subrange(start as int, i as int)] =~= comma_pieces(
                s@.subrange(0, i as int),
            ));
        } else {
            let ghost ps = comma_pieces(prev);
            assert(ps.last() == s@.subrange(start as int, i as int));
            assert(s@.subrange(start as int, i as int + 1) =~= s@.subrange(start as int, i as int).push(cs@[i as int]));
            i = i + 1;
            assert(pieces@.map_values(|p: String| p@) + seq![s@.subrange(start as int, i as int)] =~= comma_pieces(
                s@.subrange(0, i as int),
            ));
        }
    }
    pieces.push(substring(s, start, n));
    assert(s@.subrange(0, n as int) =~= s@);
    let ghost all = pieces@.map_values(|p: String| p@);
    assert(all =~= comma_pieces(s@));
    let mut ids: Vec<u128> = Vec::new();
    let mut k: usize = 0;
    while k < pieces.len()
        invariant
            k <= pieces@.len(),
            all == pieces@.map_values(|p: String| p@),
            all == comma_pieces(s@),
            ids@.len() == k,
            forall|j: int| 0 <= j < k ==> uuid_from_text(#[trigger] all[j]) == Some(ids@[j]),
        decreases pieces@.len() - k,
    {
        match uuid_parse(pieces[k].as_str()) {
            Some(id) => {
                ids.push(id);
            },
            None => {
                assert(uuid_from_text(all[k as int]) is None);
                return Err(IdListError::InvalidId);
            },
        }
        k = k + 1;
    }
    assert(ids@ =~= all.map_values(|p: Seq<char>| uuid_from_text(p)->0));
    Ok(ids)
}

/// The texts of `ids` joined by commas, as a client writes a list of ids.
pub open spec fn id_list_text(ids: Seq<u128>) -> Seq<char>
    decreases ids.len(),
{
    if ids.len() == 0 {
        seq![]
    } else if ids.len() == 1 {
        uuid_text(ids[0])
    } else {
        id_list_text(ids.drop_last()).push(',') + uuid_text(ids.last())
    }
}

/// Appending text without commas to `s` extends the last piece of `s`.
proof fn lemma_comma_pieces_append(s: Seq<char>, t: Seq<char>)
    requires
        forall|i: int| 0 <= i < t.len() ==> t[i] != ',',
    ensures
        comma_pieces(s + t) == comma_pieces(s).update(
            comma_pieces(s).len() - 1,
            comma_pieces(s).last() + t,
        ),
        comma_pieces(s + t).len() == comma_pieces(s).len(),
    decreases t.len(),
{
    lemma_comma_pieces_nonempty(s);
    if t.len() == 0 {
        assert(s + t =~= s);
        assert(comma_pieces(s).last() + t =~= comma_pieces(s).last());
        assert(comma_pieces(s).update(comma_pieces(s).len() - 1, comma_pieces(s).last()) =~= comma_pieces(s));
    } else {
        let init = t.drop_last();
        let c = t.last();
        lemma_comma_pieces_append(s, init);
        assert((s + t).drop_last() =~= s + init);
        assert((s + t).last() == c);
        let ps = comma_pieces(s);
        assert(ps.last() + t =~= (ps.last() + init).push(c));
        assert(comma_pieces(s + t) =~= ps.update(ps.len() - 1, ps.last() + t));
    }
}

/// The pieces of a list of ids are the ids' texts.
pub proof fn lemma_id_list_pieces(ids: Seq<u128>)
    requires
        ids.len() > 0,
    ensures
        comma_pieces(id_list_text(ids)) == ids.map_values(|id: u128| uuid_text(id)),
    decreases ids.len(),
{
    let t = uuid_text(ids.last());
    assert forall|i: int| 0 <= i < t.len() implies t[i] != ',' by {
        assert(crate::boundary::is_uuid_char(t[i]));
    }
    if ids.len() == 1 {
        let empty = Seq::<char>::empty();
        assert(empty + t =~= t);
        lemma_comma_pieces_append(empty, t);
        assert(comma_pieces(empty) == seq![empty]);
        assert(empty + t == uuid_text(ids[0]));
        assert(comma_pieces(id_list_text(ids)) =~= ids.map_values(|id: u128| uuid_text(id)));
    } else {
        let prev = ids.drop_last();
        lemma_id_list_pieces(prev);
        let head = id_list_text(prev).push(',');
        lemma_comma_pieces_append(head, t);
        assert(head.drop_last() =~= id_list_text(prev));
        lemma_comma_pieces_nonempty(id_list_text(prev));
        let ps = comma_pieces(id_list_text(prev));
        assert(comma_pieces(head) == ps.push(seq![]));
        assert(seq![] + t =~= t);
        assert(comma_pieces(head + t) =~= ps.push(t));
        assert(ids.map_values(|id: u128| uuid_text(id)) =~= prev.map_values(|id: u128| uuid_text(id)).push(t));
    }
}

/// A list of ids written as their texts joined by commas reads back as the
/// same ids, in the same order.
pub proof fn lemma_id_list_roundtrip(ids: Seq<u128>)
    requires
        ids.len() > 0,
    ensures
        all_ids(comma_pieces(id_list_text(ids))),
        comma_pieces(id_list_text(ids)).map_values(|p: Seq<char>| uuid_from_text(p)->0) == ids,
{
    lemma_id_list_pieces(ids);
    let pieces = comma_pieces(id_list_text(ids));
    assert forall|i: int| 0 <= i < pieces.len() implies uuid_from_text(#[trigger] pieces[i]) == Some(ids[i]) by {
        lemma_uuid_text_parses(ids[i]);
    }
    assert(pieces.map_values(|p: Seq<char>| uuid_from_text(p)->0) =~= ids);
}

} // verus!
