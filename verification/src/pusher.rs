//! The push channel: messages as they arrive, the channels subscribed to,
//! how a message's payload is encoded, and what the archive does with each
//! kind of event.

use vstd::prelude::*;

use crate::boundary::{
    base64_standard_decode, bytes_opt_view, decode_standard, gunzip, gzip_decompress, lemma_uuid_text_parses,
    uuid_from_text, uuid_parse, uuid_text, uuid_to_string,
};
use crate::db::NewObject;
use crate::json::{Json, JsonView, lemma_members_view, members_view};
use crate::models::EntityKind;
use crate::text::{has_prefix, starts_with, str_eq, trim_start_all, trim_start_matches, TextSet};

verus! {

/// A message as the push service sends it.
pub struct SerializedPusherMessage {
    pub channel: Option<String>,
    pub event: String,
    pub data: String,
}

/// A received message: when it came, its channel (empty when it had none),
/// event name, raw data and decoded payload.
pub struct PusherMessage {
    /// Nanoseconds since the Unix epoch at which the message arrived.
    pub timestamp: i128,
    pub channel: String,
    pub event: String,
    pub data: String,
    pub payload: Option<Json>,
}

impl PusherMessage {
    /// The message received at `timestamp` as `msg`, whose data decoded to `payload`.
    pub fn from_serialized(timestamp: i128, msg: SerializedPusherMessage, payload: Option<Json>) -> (r: PusherMessage)
        ensures
            r.timestamp == timestamp,
            r.channel@ == match msg.channel {
                Some(c) => c@,
                None => Seq::<char>::empty(),
            },
            r.event == msg.event,
            r.data == msg.data,
            r.payload == payload,
    {
        let channel = match msg.channel {
            Some(c) => c,
            None => String::new(),
        };
        PusherMessage { timestamp, channel, event: msg.event, data: msg.data, payload }
    }
}

/// Whether an event is the push service's own bookkeeping, which the archive skips.
pub open spec fn spec_is_internal_event(event: Seq<char>) -> bool {
    has_prefix(event, "pusher_internal:"@)
}

pub fn is_internal_event(event: &str) -> (r: bool)
    ensures
        r == spec_is_internal_event(event@),
{
    starts_with(event, "pusher_internal:")
}

/// The channels subscribed to on every connection, in this order.
pub open spec fn spec_default_channels() -> Seq<Seq<char>> {
    seq!["ticker"@, "sim-data"@, "temporal"@]
}

pub fn default_channels() -> (r: Vec<String>)
    ensures
        r@.map_values(|c: String| c@) == spec_default_channels(),
{
    let r = vec![String::from_str("ticker"), String::from_str("sim-data"), String::from_str("temporal")];
    assert(r@.map_values(|c: String| c@) =~= spec_default_channels());
    r
}

/// The channel carrying a game's play-by-play feed.
pub open spec fn spec_game_feed_channel(game_id: u128) -> Seq<char> {
    "game-feed-"@ + uuid_text(game_id)
}

/// The feed channel of a game names that game: a `game-data` event
/// received on it is filed under the game it was subscribed for.
pub fn game_feed_channel(game_id: u128) -> (r: String)
    ensures
        r@ == spec_game_feed_channel(game_id),
        spec_feed_game_id(r@) == Some(game_id),
{
    let id = uuid_to_string(game_id);
    let r = String::from_str("game-feed-").concat(id.as_str());
    proof {
        let prefix = "game-feed-"@;
        reveal_strlit("game-feed-");
        assert(prefix.len() == 10);
        let rest = r@.subrange(10, r@.len() as int);
        assert(rest =~= id@);
        assert(r@.subrange(0, 10) =~= prefix);
        assert(!has_prefix(id@, prefix)) by {
            assert(crate::boundary::is_uuid_char(id@[0]));
            assert(prefix[0] == 'g');
            if has_prefix(id@, prefix) {
                assert(id@.subrange(0, 10)[0] == id@[0]);
            }
        }
        assert(trim_start_all(id@, prefix) == id@);
        assert(trim_start_all(r@, prefix) == trim_start_all(rest, prefix));
        lemma_uuid_text_parses(game_id);
    }
    r
}

/// The JSON command that subscribes to `channel`.
pub open spec fn spec_subscribe_command(channel: Seq<char>) -> JsonView {
    JsonView::Object(
        seq![
            ("event"@, JsonView::String("pusher:subscribe"@)),
            ("data"@, JsonView::Object(seq![("auth"@, JsonView::String(""@)), ("channel"@, JsonView::String(channel))])),
        ],
    )
}

pub fn subscribe_command(channel: String) -> (r: Json)
    ensures
        r@ == spec_subscribe_command(channel@),
{
    let ghost ch = channel@;
    let mut data: Vec<(String, Json)> = Vec::new();
    data.push((String::from_str("auth"), Json::String(String::new())));
    data.push((String::from_str("channel"), Json::String(channel)));
    let mut cmd: Vec<(String, Json)> = Vec::new();
    cmd.push((String::from_str("event"), Json::String(String::from_str("pusher:subscribe"))));
    let ghost data_members = data@;
    cmd.push((String::from_str("data"), Json::Object(data)));
    proof {
        lemma_members_view(data_members);
        lemma_members_view(cmd@);
        reveal_strlit("");
        assert(""@ =~= Seq::<char>::empty());
        assert(members_view(data_members) =~= seq![("auth"@, JsonView::String(""@)), ("channel"@, JsonView::String(ch))]);
        assert(members_view(cmd@) =~= seq![
            ("event"@, JsonView::String("pusher:subscribe"@)),
            ("data"@, JsonView::Object(seq![("auth"@, JsonView::String(""@)), ("channel"@, JsonView::String(ch))])),
        ]);
    }
    Json::Object(cmd)
}

/// The channels subscribed to on a connection; each is subscribed once.
pub type Subscriptions = TextSet;

/// A subscription is sent at most once: after a channel is recorded,
/// recording it again asks for nothing and changes nothing.
pub proof fn lemma_subscribe_once(subscribed: Set<Seq<char>>, channel: Seq<char>)
    ensures
        subscribed.insert(channel).contains(channel),
        subscribed.insert(channel).insert(channel) == subscribed.insert(channel),
{
    assert(subscribed.insert(channel).insert(channel) =~= subscribed.insert(channel));
}

/// How a message's payload is to be read.
pub enum PayloadSource {
    /// The wrapped message was base64 of a gzip member; these are its
    /// decompressed bytes, which hold the payload's JSON text.
    Compressed(Vec<u8>),
    /// The wrapped message is not base64: the payload is the message's JSON,
    /// or failing that the whole data's JSON.
    Plain,
}

/// Why a message's payload could not be read.
#[derive(Clone, Copy, Debug, PartialEq, Eq, Structural)]
pub enum PayloadError {
    /// The data is not an object wrapping a `message` string.
    NotWrapped,
    /// The message is base64, but not of a valid gzip member.
    BadCompression,
}

/// Where the payload of data wrapping `message` (`None`: no wrapped
/// message) is found.
pub open spec fn spec_payload_source(message: Option<Seq<char>>) -> Result<Option<Seq<u8>>, PayloadError> {
    match message {
        None => Err(PayloadError::NotWrapped),
        Some(m) => match base64_standard_decode(m) {
            Some(decoded) => match gzip_decompress(decoded) {
                Some(text) => Ok(Some(text)),
                None => Err(PayloadError::BadCompression),
            },
            None => Ok(None),
        },
    }
}

/// Where a payload is found, given the `message` string its data wraps
/// (`None` when the data wraps none).
pub fn payload_source(message: Option<&str>) -> (r: Result<PayloadSource, PayloadError>)
    ensures
        match (r, spec_payload_source(match message { Some(m) => Some(m@), None => None })) {
            (Ok(PayloadSource::Compressed(b)), Ok(Some(t))) => b@ == t,
            (Ok(PayloadSource::Plain), Ok(None)) => true,
            (Err(e), Err(f)) => e == f,
            _ => false,
        },
{
    match message {
        None => Err(PayloadError::NotWrapped),
        Some(m) => match decode_standard(m) {
            Some(decoded) => match gunzip(decoded.as_slice()) {
                Some(text) => Ok(PayloadSource::Compressed(text)),
                None => Err(PayloadError::BadCompression),
            },
            None => Ok(PayloadSource::Plain),
        },
    }
}

/// What the archive does with a push event, beyond storing the event.
pub enum PusherAction {
    Nothing,
    /// Take the simulation's current season and day from this payload.
    UpdateSim(Json),
    /// Store this observation.
    Save(NewObject),
    /// Store each of these as an event of the game's feed.
    SaveGameEvents(u128, Vec<Json>),
}

/// Why a push event could not be handled.
#[derive(Clone, Copy, Debug, PartialEq, Eq, Structural)]
pub enum PusherError {
    /// A game feed's channel does not name a game id.
    InvalidGameId,
    /// A game feed's payload is not an array of events.
    NotAnArray,
}

/// The game a feed channel is for: the channel without its leading
/// `game-feed-` prefixes, parsed as an id.
pub open spec fn spec_feed_game_id(channel: Seq<char>) -> Option<u128> {
    uuid_from_text(trim_start_all(channel, "game-feed-"@))
}

/// What to do with the event `event` on `channel`, received at `timestamp`
/// with `payload`.
pub fn pusher_action(timestamp: i128, channel: &str, event: &str, payload: Option<Json>) -> (r: Result<PusherAction, PusherError>)
    ensures
        payload is None ==> r matches Ok(PusherAction::Nothing),
        payload is Some && event@ == "sim-data"@ ==> r == Ok::<PusherAction, PusherError>(PusherAction::UpdateSim(payload->0)),
        payload is Some && event@ == "temporal-message"@ ==> (r matches Ok(PusherAction::Save(obj)) && obj == (NewObject {
            kind: EntityKind::Temporal,
            entity_id: 0,
            request_time: 0,
            timestamp,
            data: payload->0,
        })),
        payload is Some && event@ == "game-data"@ ==> match spec_feed_game_id(channel@) {
            None => r == Err::<PusherAction, PusherError>(PusherError::InvalidGameId),
            Some(g) => match payload->0 {
                Json::Array(items) => (r matches Ok(PusherAction::SaveGameEvents(id, events)) && id == g && events@ == items@),
                _ => r == Err::<PusherAction, PusherError>(PusherError::NotAnArray),
            },
        },
        payload is Some && event@ != "sim-data"@ && event@ != "temporal-message"@ && event@ != "game-data"@
            ==> r matches Ok(PusherAction::Nothing),
{
    proof {
        reveal_strlit("sim-data");
        reveal_strlit("temporal-message");
        reveal_strlit("game-data");
        reveal_strlit("game-feed-");
        assert("sim-data"@.len() == 8);
        assert("temporal-message"@.len() == 16);
        assert("sim-data"@ != "temporal-message"@);
        assert("sim-data"@ != "game-data"@);
        assert("temporal-message"@ != "game-data"@);
    }
    let payload = match payload {
        Some(p) => p,
        None => {
            return Ok(PusherAction::Nothing);
        },
    };
    if str_eq(event, "sim-data") {
        Ok(PusherAction::UpdateSim(payload))
    } else if str_eq(event, "temporal-message") {
        Ok(
            PusherAction::Save(
                NewObject { kind: EntityKind::Temporal, entity_id: 0, request_time: 0, timestamp, data: payload },
            ),
        )
    } else if str_eq(event, "game-data") {
        let id_text = trim_start_matches(channel, "game-feed-");
        let game_id = match uuid_parse(id_text.as_str()) {
            Some(g) => g,
            None => {
                return Err(PusherError::InvalidGameId);
            },
        };
        match payload {
            Json::Array(items) => Ok(PusherAction::SaveGameEvents(game_id, items)),
            _ => Err(PusherError::NotAnArray),
        }
    } else {
        Ok(PusherAction::Nothing)
    }
}

} // verus!
