//! Responses of the game API as the archive records them, and the cache of
//! responses that carry an entity tag, which lets a conditional request
//! that comes back "not modified" reuse the earlier body.

use dashmap::DashMap;
use vstd::prelude::*;

use crate::asset::{Asset, asset_json};
use vstd::utf8::encode_utf8;
use crate::boundary::{base64_standard_encode, sip128_digest, unix_nanos_valid, uuid_text, uuid_to_string};
use crate::db::NewObject;
use crate::json::Json;
use crate::models::EntityKind;
use crate::text::str_eq;

verus! {

/// A fetched response: the final URL, when the request was sent and when
/// its answer came, headers the archive keeps, the body and the status.
#[derive(Clone)]
pub struct ClientResponse {
    pub url: String,
    /// Nanoseconds since the Unix epoch before sending.
    pub timestamp_before: i128,
    /// Nanoseconds since the Unix epoch after the answer came.
    pub timestamp_after: i128,
    pub etag: Option<String>,
    pub content_type: Option<String>,
    pub last_modified: Option<String>,
    pub data: Vec<u8>,
    pub status_code: u16,
    pub was_cached: bool,
}

/// A response's content.
pub ghost struct ResponseView {
    pub url: Seq<char>,
    pub timestamp_before: i128,
    pub timestamp_after: i128,
    pub etag: Option<Seq<char>>,
    pub content_type: Option<Seq<char>>,
    pub last_modified: Option<Seq<char>>,
    pub data: Seq<u8>,
    pub status_code: u16,
    pub was_cached: bool,
}

/// An optional string's text.
pub open spec fn text_opt(o: Option<String>) -> Option<Seq<char>> {
    match o {
        Some(s) => Some(s@),
        None => None,
    }
}

impl View for ClientResponse {
    type V = ResponseView;

    open spec fn view(&self) -> ResponseView {
        ResponseView {
            url: self.url@,
            timestamp_before: self.timestamp_before,
            timestamp_after: self.timestamp_after,
            etag: text_opt(self.etag),
            content_type: text_opt(self.content_type),
            last_modified: text_opt(self.last_modified),
            data: self.data@,
            status_code: self.status_code,
            was_cached: self.was_cached,
        }
    }
}

/// A copy of an optional string.
pub fn copy_text_opt(o: &Option<String>) -> (r: Option<String>)
    ensures
        text_opt(r) == text_opt(*o),
{
    match o {
        Some(s) => Some(s.clone()),
        None => None,
    }
}

/// A copy of a byte vector.
pub fn copy_bytes(v: &Vec<u8>) -> (r: Vec<u8>)
    ensures
        r@ == v@,
{
    let mut r: Vec<u8> = Vec::new();
    let mut i: usize = 0;
    while i < v.len()
        invariant
            i <= v@.len(),
            r@ == v@.subrange(0, i as int),
        decreases v@.len() - i,
    {
        r.push(v[i]);
        i = i + 1;
        assert(r@ =~= v@.subrange(0, i as int));
    }
    assert(v@.subrange(0, v@.len() as int) =~= v@);
    r
}

impl ClientResponse {
    /// Both instants are ones the archive can hold.
    pub open spec fn wf(&self) -> bool {
        unix_nanos_valid(self.timestamp_before as int) && unix_nanos_valid(self.timestamp_after as int)
    }

    /// How long the request took, in nanoseconds.
    pub open spec fn spec_request_time(&self) -> i128 {
        (self.timestamp_after - self.timestamp_before) as i128
    }

    /// A copy of the response.
    pub fn copy(&self) -> (r: ClientResponse)
        ensures
            r@ == self@,
    {
        ClientResponse {
            url: self.url.clone(),
            timestamp_before: self.timestamp_before,
            timestamp_after: self.timestamp_after,
            etag: copy_text_opt(&self.etag),
            content_type: copy_text_opt(&self.content_type),
            last_modified: copy_text_opt(&self.last_modified),
            data: copy_bytes(&self.data),
            status_code: self.status_code,
            was_cached: self.was_cached,
        }
    }

    /// How long the request took, in nanoseconds.
    pub fn request_time(&self) -> (r: i128)
        requires
            self.wf(),
        ensures
            r == self.timestamp_after - self.timestamp_before,
    {
        self.timestamp_after - self.timestamp_before
    }

    /// When the request was sent.
    pub fn timestamp(&self) -> (r: i128)
        ensures
            r == self.timestamp_before,
    {
        self.timestamp_before
    }

    /// The observation of entity `entity_id` of `kind` this response makes,
    /// whose body parsed as `parsed`.
    pub fn to_chron(&self, kind: EntityKind, entity_id: u128, parsed: Json) -> (r: NewObject)
        requires
            self.wf(),
        ensures
            r.kind == kind,
            r.entity_id == entity_id,
            r.data == parsed,
            r.timestamp == self.timestamp_before,
            r.request_time == self.timestamp_after - self.timestamp_before,
    {
        NewObject {
            data: parsed,
            kind,
            entity_id,
            request_time: self.request_time(),
            timestamp: self.timestamp(),
        }
    }

    /// The observation of the asset this response fetched.
    pub fn to_asset_object(&self) -> (r: NewObject)
        requires
            self.wf(),
            (self.data@.len() + 2) / 3 * 4 <= usize::MAX,
        ensures
            r.kind == EntityKind::Asset,
            r.entity_id == sip128_digest(encode_utf8(self.url@)),
            r.data@ == asset_json(
                sip128_digest(encode_utf8(self.url@)),
                self.url@,
                text_opt(self.last_modified),
                text_opt(self.content_type),
                sip128_digest(self.data@),
                base64_standard_encode(self.data@),
            ),
            r.timestamp == self.timestamp_before,
            r.request_time == self.timestamp_after - self.timestamp_before,
    {
        let asset = Asset::new(
            self.url.as_str(),
            copy_text_opt(&self.last_modified),
            copy_text_opt(&self.content_type),
            self.data.as_slice(),
        );
        let id = asset.id;
        let value = asset.to_json();
        NewObject {
            kind: EntityKind::Asset,
            entity_id: id,
            data: value,
            timestamp: self.timestamp(),
            request_time: self.request_time(),
        }
    }
}

#[verifier::external_type_specification]
#[verifier::external_body]
#[verifier::reject_recursive_types(K)]
#[verifier::reject_recursive_types(V)]
#[verifier::reject_recursive_types(S)]
pub struct ExDashMap<K, V, S>(DashMap<K, V, S>);

/// A concurrent map from request URL to response.
pub type ResponseMap = DashMap<String, ClientResponse>;

/// The responses a `dashmap::DashMap` holds, by URL.
pub uninterp spec fn dash_map_entries(map: ResponseMap) -> Map<Seq<char>, ResponseView>;

/// No cached responses.
pub open spec fn no_responses() -> Map<Seq<char>, ResponseView> {
    Map::empty()
}

/// `dashmap::DashMap::new`. Claims: the new map is empty.
#[verifier::external_body]
fn dash_map_new() -> (r: ResponseMap)
    ensures
        dash_map_entries(r) == no_responses(),
{
    DashMap::new()
}

/// `dashmap::DashMap::get`, copying the entry out of the guard. Claims: the
/// entry stored under `url`, if any.
#[verifier::external_body]
fn dash_map_get(map: &ResponseMap, url: &str) -> (r: Option<ClientResponse>)
    ensures
        match r {
            Some(e) => dash_map_entries(*map).contains_key(url@) && dash_map_entries(*map)[url@] == e@,
            None => !dash_map_entries(*map).contains_key(url@),
        },
{
    match map.get(url) {
        Some(entry) => Some(entry.value().clone()),
        None => None,
    }
}

/// `dashmap::DashMap::insert`. Claims: afterwards `url` maps to `value` and
/// every other entry is unchanged.
#[verifier::external_body]
fn dash_map_insert(map: &mut ResponseMap, url: String, value: ClientResponse)
    ensures
        dash_map_entries(*final(map)) == dash_map_entries(*old(map)).insert(url@, value@),
{
    map.insert(url, value);
}

/// The responses that carried an entity tag, by the URL they were requested with.
pub struct ResponseCache {
    responses: ResponseMap,
}

/// The entity tag a conditional request for `url` sends, given the cached responses.
pub open spec fn spec_request_etag(entries: Map<Seq<char>, ResponseView>, url: Seq<char>) -> Option<Seq<char>> {
    if entries.contains_key(url) {
        entries[url].etag
    } else {
        None
    }
}

/// The cached response a "not modified" answer with entity tag `etag`
/// stands for: the one cached for `url` when its tag is the same, marked as
/// cached and given the answer's status.
pub open spec fn spec_reuse(
    entries: Map<Seq<char>, ResponseView>,
    url: Seq<char>,
    status: u16,
    etag: Option<Seq<char>>,
) -> Option<ResponseView> {
    if status == 304 && entries.contains_key(url) && entries[url].etag == etag {
        Some(ResponseView { status_code: status, was_cached: true, ..entries[url] })
    } else {
        None
    }
}

/// The cached responses after a fresh response to `url`: kept when it
/// carries an entity tag.
pub open spec fn spec_remember(
    entries: Map<Seq<char>, ResponseView>,
    url: Seq<char>,
    response: ResponseView,
) -> Map<Seq<char>, ResponseView> {
    if response.etag is Some {
        entries.insert(url, response)
    } else {
        entries
    }
}

impl ResponseCache {
    pub closed spec fn entries(&self) -> Map<Seq<char>, ResponseView> {
        dash_map_entries(self.responses)
    }

    pub fn new() -> (r: ResponseCache)
        ensures
            r.entries() == Map::<Seq<char>, ResponseView>::empty(),
    {
        ResponseCache { responses: dash_map_new() }
    }

    /// The entity tag to send with a request for `url` (`If-None-Match`).
    pub fn request_etag(&self, url: &str) -> (r: Option<String>)
        ensures
            text_opt(r) == spec_request_etag(self.entries(), url@),
    {
        match dash_map_get(&self.responses, url) {
            Some(cached) => cached.etag,
            None => None,
        }
    }

    /// The response to return for an answer to `url` with `status` and
    /// entity tag `etag`, when it reuses the cached one.
    pub fn reuse(&self, url: &str, status: u16, etag: &Option<String>) -> (r: Option<ClientResponse>)
        ensures
            match r {
                Some(resp) => spec_reuse(self.entries(), url@, status, text_opt(*etag)) == Some(resp@),
                None => spec_reuse(self.entries(), url@, status, text_opt(*etag)) is None,
            },
    {
        if status != 304 {
            return None;
        }
        match dash_map_get(&self.responses, url) {
            Some(cached) => {
                let same = match (&cached.etag, etag) {
                    (Some(a), Some(b)) => str_eq(a.as_str(), b.as_str()),
                    (None, None) => true,
                    _ => false,
                };
                assert(same == (text_opt(cached.etag) == text_opt(*etag)));
                if same {
                    let ghost c = cached@;
                    let mut resp = cached;
                    resp.status_code = status;
                    resp.was_cached = true;
                    assert(resp@ == ResponseView { status_code: status, was_cached: true, ..c });
                    Some(resp)
                } else {
                    None
                }
            },
            None => None,
        }
    }

    /// Keeps a fresh response to `url` when it carries an entity tag.
    pub fn remember(&mut self, url: &str, response: &ClientResponse)
        ensures
            final(self).entries() == spec_remember(old(self).entries(), url@, response@),
    {
        if response.etag.is_some() {
            dash_map_insert(&mut self.responses, String::from_str(url), response.copy());
        }
    }
}

/// After a response with an entity tag is remembered, the next request for
/// the same URL sends that tag, and a "not modified" answer with the same
/// tag gives back the remembered response, marked as cached.
pub proof fn lemma_cache_replays(entries: Map<Seq<char>, ResponseView>, url: Seq<char>, response: ResponseView)
    requires
        response.etag is Some,
    ensures
        spec_request_etag(spec_remember(entries, url, response), url) == response.etag,
        spec_reuse(spec_remember(entries, url, response), url, 304, response.etag) == Some(
            ResponseView { status_code: 304, was_cached: true, ..response },
        ),
{
}

/// A response without an entity tag leaves the cache as it was.
pub proof fn lemma_untagged_not_cached(entries: Map<Seq<char>, ResponseView>, url: Seq<char>, response: ResponseView)
    requires
        response.etag is None,
    ensures
        spec_remember(entries, url, response) == entries,
{
}

} // verus!
