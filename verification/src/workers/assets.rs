//! The forbidden book and the assets the feature flags point at.

use vstd::prelude::*;

use crate::asset::asset_json;
use crate::boundary::{base64_standard_encode, sip128_digest};
use crate::db::NewObject;
use crate::http::{ClientResponse, text_opt};
use crate::json::Json;
use crate::models::EntityKind;
use vstd::utf8::encode_utf8;

verus! {

/// Polls the forbidden book and the assets the feature flags point at.
pub struct PollAssets;

impl PollAssets {
    pub fn interval_secs() -> (r: u64)
        ensures
            r == 60,
    {
        60
    }
}

/// The book fetched in `resp`, whose body parsed as `parsed`, is stored
/// twice: as the book's observation, then as an asset.
pub fn book_objects(resp: &ClientResponse, parsed: Json) -> (r: Vec<NewObject>)
    requires
        resp.wf(),
        (resp.data@.len() + 2) / 3 * 4 <= usize::MAX,
    ensures
        r@.len() == 2,
        r@[0] == (NewObject {
            kind: EntityKind::ForbiddenBook,
            entity_id: 0,
            data: parsed,
            timestamp: resp.timestamp_before,
            request_time: resp.spec_request_time(),
        }),
        r@[1].kind == EntityKind::Asset,
        r@[1].entity_id == sip128_digest(encode_utf8(resp.url@)),
        r@[1].data@ == asset_json(
            sip128_digest(encode_utf8(resp.url@)),
            resp.url@,
            text_opt(resp.last_modified),
            text_opt(resp.content_type),
            sip128_digest(resp.data@),
            base64_standard_encode(resp.data@),
        ),
        r@[1].timestamp == resp.timestamp_before,
        r@[1].request_time == resp.spec_request_time(),
{
    let mut r: Vec<NewObject> = Vec::new();
    r.push(resp.to_chron(EntityKind::ForbiddenBook, 0, parsed));
    r.push(resp.to_asset_object());
    r
}

} // verus!
