//! The archive's data model: kinds of archived entities, stored events and
//! versions, and the page tokens that continue a listing.

use vstd::prelude::*;

use crate::boundary::{
    base64_url_safe_decode, base64_url_safe_encode, decode_url_safe, encode_url_safe,
    unix_nanos_in_range, unix_nanos_valid,
};
use crate::bytes::{
    be_value, from_twos_complement, i128_from_le_bytes, i128_le_bytes, i128_to_le_bytes,
    le_value, lemma_i128_le_roundtrip, lemma_u128_be_roundtrip, u128_be_bytes, u128_from_be_bytes,
    u128_to_be_bytes,
};
use crate::json::Json;
use crate::text::str_eq;

verus! {

/// The kinds of entity the archive keeps versions of.
#[derive(Clone, Copy, Debug, PartialEq, Eq, Structural)]
pub enum EntityKind {
    Game,
    Player,
    Team,
    Flagsmith,
    Ticker,
    SeasonElections,
    SeasonSchedule,
    SeasonScheduleHourly,
    Temporal,
    Post,
    GameBetData,
    BoxScore,
    Sim,
    SeasonTournaments,
    Tournament,
    Asset,
    ForbiddenBook,
    TeamBlessingPreferences,
    GameOutcomes,
    GameOutcome,
}

impl EntityKind {
    /// The number the database stores for this kind.
    pub open spec fn spec_code(self) -> i16 {
        match self {
            EntityKind::Game => 1,
            EntityKind::Player => 2,
            EntityKind::Team => 3,
            EntityKind::Flagsmith => 4,
            EntityKind::Ticker => 5,
            EntityKind::SeasonElections => 6,
            EntityKind::SeasonSchedule => 7,
            EntityKind::SeasonScheduleHourly => 8,
            EntityKind::Temporal => 9,
            EntityKind::Post => 10,
            EntityKind::GameBetData => 11,
            EntityKind::BoxScore => 12,
            EntityKind::Sim => 13,
            EntityKind::SeasonTournaments => 14,
            EntityKind::Tournament => 15,
            EntityKind::Asset => 16,
            EntityKind::ForbiddenBook => 17,
            EntityKind::TeamBlessingPreferences => 18,
            EntityKind::GameOutcomes => 19,
            EntityKind::GameOutcome => 20,
        }
    }

    /// The snake_case name by which requests and responses refer to this kind.
    pub open spec fn spec_name(self) -> Seq<char> {
        match self {
            EntityKind::Game => "game"@,
            EntityKind::Player => "player"@,
            EntityKind::Team => "team"@,
            EntityKind::Flagsmith => "flagsmith"@,
            EntityKind::Ticker => "ticker"@,
            EntityKind::SeasonElections => "season_elections"@,
            EntityKind::SeasonSchedule => "season_schedule"@,
            EntityKind::SeasonScheduleHourly => "season_schedule_hourly"@,
            EntityKind::Temporal => "temporal"@,
            EntityKind::Post => "post"@,
            EntityKind::GameBetData => "game_bet_data"@,
            EntityKind::BoxScore => "box_score"@,
            EntityKind::Sim => "sim"@,
            EntityKind::SeasonTournaments => "season_tournaments"@,
            EntityKind::Tournament => "tournament"@,
            EntityKind::Asset => "asset"@,
            EntityKind::ForbiddenBook => "forbidden_book"@,
            EntityKind::TeamBlessingPreferences => "team_blessing_preferences"@,
            EntityKind::GameOutcomes => "game_outcomes"@,
            EntityKind::GameOutcome => "game_outcome"@,
        }
    }

    /// The number the database stores for this kind.
    pub fn code(&self) -> (r: i16)
        ensures
            r == self.spec_code(),
    {
        match self {
            EntityKind::Game => 1,
            EntityKind::Player => 2,
            EntityKind::Team => 3,
            EntityKind::Flagsmith => 4,
            EntityKind::Ticker => 5,
            EntityKind::SeasonElections => 6,
            EntityKind::SeasonSchedule => 7,
            EntityKind::SeasonScheduleHourly => 8,
            EntityKind::Temporal => 9,
            EntityKind::Post => 10,
            EntityKind::GameBetData => 11,
            EntityKind::BoxScore => 12,
            EntityKind::Sim => 13,
            EntityKind::SeasonTournaments => 14,
            EntityKind::Tournament => 15,
            EntityKind::Asset => 16,
            EntityKind::ForbiddenBook => 17,
            EntityKind::TeamBlessingPreferences => 18,
            EntityKind::GameOutcomes => 19,
            EntityKind::GameOutcome => 20,
        }
    }

    /// The kind the database stores as `code`; `None` for any other number.
    pub fn from_code(code: i16) -> (r: Option<EntityKind>)
        ensures
            match r {
                Some(k) => k.spec_code() == code,
                None => forall|k: EntityKind| k.spec_code() != code,
            },
            r is Some <==> 1 <= code <= 20,
            forall|k: EntityKind| k.spec_code() == code ==> r == Some(k),
    {
        match code {
            1 => Some(EntityKind::Game),
            2 => Some(EntityKind::Player),
            3 => Some(EntityKind::Team),
            4 => Some(EntityKind::Flagsmith),
            5 => Some(EntityKind::Ticker),
            6 => Some(EntityKind::SeasonElections),
            7 => Some(EntityKind::SeasonSchedule),
            8 => Some(EntityKind::SeasonScheduleHourly),
            9 => Some(EntityKind::Temporal),
            10 => Some(EntityKind::Post),
            11 => Some(EntityKind::GameBetData),
            12 => Some(EntityKind::BoxScore),
            13 => Some(EntityKind::Sim),
            14 => Some(EntityKind::SeasonTournaments),
            15 => Some(EntityKind::Tournament),
            16 => Some(EntityKind::Asset),
            17 => Some(EntityKind::ForbiddenBook),
            18 => Some(EntityKind::TeamBlessingPreferences),
            19 => Some(EntityKind::GameOutcomes),
            20 => Some(EntityKind::GameOutcome),
            _ => None,
        }
    }

    /// The snake_case name of this kind.
    pub fn name(&self) -> (r: &'static str)
        ensures
            r@ == self.spec_name(),
    {
        match self {
            EntityKind::Game => "game",
            EntityKind::Player => "player",
            EntityKind::Team => "team",
            EntityKind::Flagsmith => "flagsmith",
            EntityKind::Ticker => "ticker",
            EntityKind::SeasonElections => "season_elections",
            EntityKind::SeasonSchedule => "season_schedule",
            EntityKind::SeasonScheduleHourly => "season_schedule_hourly",
            EntityKind::Temporal => "temporal",
            EntityKind::Post => "post",
            EntityKind::GameBetData => "game_bet_data",
            EntityKind::BoxScore => "box_score",
            EntityKind::Sim => "sim",
            EntityKind::SeasonTournaments => "season_tournaments",
            EntityKind::Tournament => "tournament",
            EntityKind::Asset => "asset",
            EntityKind::ForbiddenBook => "forbidden_book",
            EntityKind::TeamBlessingPreferences => "team_blessing_preferences",
            EntityKind::GameOutcomes => "game_outcomes",
            EntityKind::GameOutcome => "game_outcome",
        }
    }

    /// The kind with snake_case name `s`; `None` when no kind has that name.
    pub fn from_name(s: &str) -> (r: Option<EntityKind>)
        ensures
            match r {
                Some(k) => k.spec_name() == s@,
                None => forall|k: EntityKind| k.spec_name() != s@,
            },
            forall|k: EntityKind| k.spec_name() == s@ ==> r == Some(k),
    {
        let mut i: i16 = 1;
        while i <= 20
            invariant
                1 <= i <= 21,
                forall|k: EntityKind| k.spec_code() < i ==> k.spec_name() != s@,
            decreases 21 - i,
        {
            match EntityKind::from_code(i) {
                Some(k) => {
                    if str_eq(k.name(), s) {
                        proof {
                            assert forall|j: EntityKind| j.spec_name() == s@ implies j == k by {
                                lemma_kind_names_distinct(k, j);
                            }
                        }
                        return Some(k);
                    }
                },
                None => {
                    assert(false);
                },
            }
            i = i + 1;
        }
        None
    }
}

/// Codes tell kinds apart, and `from_code` inverts `code`.
pub proof fn lemma_kind_code_roundtrip(k: EntityKind, j: EntityKind)
    ensures
        1 <= k.spec_code() <= 20,
        k.spec_code() == j.spec_code() ==> k == j,
{
}

/// Names tell kinds apart: a kind's name names no other kind.
pub proof fn lemma_kind_names_distinct(k: EntityKind, j: EntityKind)
    ensures
        k.spec_name() == j.spec_name() ==> k == j,
{
    reveal_strlit("game");
    reveal_strlit("player");
    reveal_strlit("team");
    reveal_strlit("flagsmith");
    reveal_strlit("ticker");
    reveal_strlit("season_elections");
    reveal_strlit("season_schedule");
    reveal_strlit("season_schedule_hourly");
    reveal_strlit("temporal");
    reveal_strlit("post");
    reveal_strlit("game_bet_data");
    reveal_strlit("box_score");
    reveal_strlit("sim");
    reveal_strlit("season_tournaments");
    reveal_strlit("tournament");
    reveal_strlit("asset");
    reveal_strlit("forbidden_book");
    reveal_strlit("team_blessing_preferences");
    reveal_strlit("game_outcomes");
    reveal_strlit("game_outcome");
    if k.spec_name() == j.spec_name() && k != j {
        let a = k.spec_name();
        let b = j.spec_name();
        assert(a.len() == b.len());
        assert(a[0] == b[0]);
        assert(a[1] == b[1]);
        assert(a[2] == b[2]);
        if a.len() > 5 {
            assert(a[5] == b[5]);
        }
        if a.len() > 6 {
            assert(a[6] == b[6]);
        }
        if a.len() > 7 {
            assert(a[7] == b[7]);
        }
    }
}

/// A timestamp, in nanoseconds since the Unix epoch, written as RFC 3339
/// text wherever the archive exchanges it.
#[derive(Clone, Copy, Debug, PartialEq, Eq, Structural)]
pub struct IsoDateTime(pub i128);

impl From<i128> for IsoDateTime {
    fn from(value: i128) -> (r: IsoDateTime) {
        IsoDateTime(value)
    }
}

impl vstd::std_specs::convert::FromSpecImpl<i128> for IsoDateTime {
    open spec fn obeys_from_spec() -> bool {
        true
    }

    open spec fn from_spec(value: i128) -> IsoDateTime {
        IsoDateTime(value)
    }
}

impl IsoDateTime {
    /// The instant, in nanoseconds since the Unix epoch.
    pub fn into_nanos(self) -> (r: i128)
        ensures
            r == self.0,
    {
        self.0
    }
}

/// A position in a listing: the sort key of the last item a page held.
#[derive(Clone, Copy, Debug, PartialEq, Eq, Structural)]
pub struct PageToken {
    pub entity_id: u128,
    /// Nanoseconds since the Unix epoch.
    pub timestamp: i128,
}

/// Why a page token's text was refused.
#[derive(Clone, Copy, Debug, PartialEq, Eq, Structural)]
pub enum PageTokenError {
    /// The text is not URL-safe base64.
    InvalidEncoding,
    /// The text does not decode to exactly 32 bytes.
    InvalidLength,
    /// The timestamp lies outside the years -9999..=9999.
    TimestampOutOfRange,
}

impl PageToken {
    /// Whether the token's timestamp is an instant the archive can hold.
    pub open spec fn valid(self) -> bool {
        unix_nanos_valid(self.timestamp as int)
    }

    /// The 32 bytes a token's text encodes: the timestamp in nanoseconds as a
    /// little-endian two's complement number, then the identifier's bytes.
    pub open spec fn spec_bytes(self) -> Seq<u8> {
        i128_le_bytes(self.timestamp) + u128_be_bytes(self.entity_id)
    }

    /// The text of a token: its bytes in URL-safe base64.
    pub open spec fn spec_text(self) -> Seq<char> {
        base64_url_safe_encode(self.spec_bytes())
    }

    /// The token a text denotes, or why it denotes none.
    pub open spec fn spec_parse(text: Seq<char>) -> Result<PageToken, PageTokenError> {
        match base64_url_safe_decode(text) {
            None => Err(PageTokenError::InvalidEncoding),
            Some(b) => if b.len() != 32 {
                Err(PageTokenError::InvalidLength)
            } else {
                let ts = from_twos_complement(le_value(b.subrange(0, 16)));
                if !unix_nanos_valid(ts) {
                    Err(PageTokenError::TimestampOutOfRange)
                } else {
                    Ok(
                        PageToken {
                            timestamp: ts as i128,
                            entity_id: be_value(b.subrange(16, 32)) as u128,
                        },
                    )
                }
            },
        }
    }

    /// The token's text. Parsing the text gives the token back whenever its
    /// timestamp is one the archive can hold.
    pub fn to_string(&self) -> (r: String)
        ensures
            r@ == self.spec_text(),
            self.valid() ==> PageToken::spec_parse(r@) == Ok::<PageToken, PageTokenError>(*self),
    {
        let mut buf = i128_to_le_bytes(self.timestamp);
        let mut id = u128_to_be_bytes(self.entity_id);
        buf.append(&mut id);
        proof {
            lemma_token_bytes_roundtrip(*self);
        }
        assert(buf@ == self.spec_bytes());
        encode_url_safe(buf.as_slice())
    }

    /// The token a text denotes: URL-safe base64 of 32 bytes, the first 16 a
    /// little-endian timestamp in nanoseconds within the years -9999..=9999,
    /// the last 16 the identifier.
    pub fn from_str(s: &str) -> (r: Result<PageToken, PageTokenError>)
        ensures
            r == PageToken::spec_parse(s@),
    {
        let data = match decode_url_safe(s) {
            Some(d) => d,
            None => {
                return Err(PageTokenError::InvalidEncoding);
            },
        };
        if data.len() != 32 {
            return Err(PageTokenError::InvalidLength);
        }
        let ts_bytes = slice_range(&data, 0, 16);
        let id_bytes = slice_range(&data, 16, 32);
        let timestamp = i128_from_le_bytes(ts_bytes.as_slice());
        if !unix_nanos_in_range(timestamp) {
            return Err(PageTokenError::TimestampOutOfRange);
        }
        let entity_id = u128_from_be_bytes(id_bytes.as_slice());
        Ok(PageToken { entity_id, timestamp })
    }
}

/// The bytes of a token read back as the same timestamp and identifier.
pub proof fn lemma_token_bytes_roundtrip(t: PageToken)
    ensures
        t.spec_bytes().len() == 32,
        t.spec_bytes().subrange(0, 16) == i128_le_bytes(t.timestamp),
        t.spec_bytes().subrange(16, 32) == u128_be_bytes(t.entity_id),
        from_twos_complement(le_value(t.spec_bytes().subrange(0, 16))) == t.timestamp,
        be_value(t.spec_bytes().subrange(16, 32)) == t.entity_id,
{
    lemma_i128_le_roundtrip(t.timestamp);
    lemma_u128_be_roundtrip(t.entity_id);
    assert(t.spec_bytes().subrange(0, 16) =~= i128_le_bytes(t.timestamp));
    assert(t.spec_bytes().subrange(16, 32) =~= u128_be_bytes(t.entity_id));
}

/// The bytes `v[from..to]`.
fn slice_range(v: &Vec<u8>, from: usize, to: usize) -> (r: Vec<u8>)
    requires
        from <= to <= v@.len(),
    ensures
        r@ == v@.subrange(from as int, to as int),
{
    let mut r: Vec<u8> = Vec::new();
    let mut i = from;
    while i < to
        invariant
            from <= i <= to,
            to <= v@.len(),
            r@ == v@.subrange(from as int, i as int),
        decreases to - i,
    {
        r.push(v[i]);
        i = i + 1;
        assert(r@ =~= v@.subrange(from as int, i as int));
    }
    r
}

/// An event received from the push channel and stored as it came.
pub struct PusherEvent {
    /// Nanoseconds since the Unix epoch at which the event arrived.
    pub timestamp: i128,
    pub channel: String,
    pub event: String,
    pub payload: Option<Json>,
    pub raw: String,
}

impl PusherEvent {
    pub fn new(timestamp: i128, channel: String, event: String, payload: Option<Json>, raw: String) -> (r: PusherEvent)
        ensures
            r.timestamp == timestamp,
            r.channel == channel,
            r.event == event,
            r.payload == payload,
            r.raw == raw,
    {
        PusherEvent { timestamp, channel, event, payload, raw }
    }
}

/// An event of a game's play-by-play feed.
pub struct GameEvent {
    pub game_id: u128,
    /// Nanoseconds since the Unix epoch.
    pub timestamp: i128,
    pub data: Json,
}

/// One version of an entity: its data from `valid_from` until `valid_to`
/// (or until now, for the current version).
pub struct EntityVersion {
    pub kind: EntityKind,
    pub entity_id: u128,
    pub valid_from: IsoDateTime,
    pub valid_to: Option<IsoDateTime>,
    pub data: Json,
}

/// Items of a listing, each with the token that continues the listing after it.
pub trait HasPageToken {
    spec fn spec_page_token(&self) -> PageToken;

    fn page_token(&self) -> (r: PageToken)
        ensures
            r == self.spec_page_token(),
    ;
}

impl HasPageToken for EntityVersion {
    open spec fn spec_page_token(&self) -> PageToken {
        PageToken { entity_id: self.entity_id, timestamp: self.valid_from.0 }
    }

    fn page_token(&self) -> (r: PageToken) {
        PageToken { entity_id: self.entity_id, timestamp: self.valid_from.0 }
    }
}

impl HasPageToken for GameEvent {
    open spec fn spec_page_token(&self) -> PageToken {
        PageToken { entity_id: 0, timestamp: self.timestamp }
    }

    fn page_token(&self) -> (r: PageToken) {
        PageToken { entity_id: 0, timestamp: self.timestamp }
    }
}

impl HasPageToken for PusherEvent {
    open spec fn spec_page_token(&self) -> PageToken {
        PageToken { entity_id: 0, timestamp: self.timestamp }
    }

    fn page_token(&self) -> (r: PageToken) {
        PageToken { entity_id: 0, timestamp: self.timestamp }
    }
}

} // verus!
