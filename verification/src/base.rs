//! Settings of the archiver, and the content hash it names objects by.

use vstd::prelude::*;

use crate::boundary::{sip128, sip128_digest};

verus! {

/// Where the archive lives, the session cookie for the game API, and whether
/// to poll the API directly instead of following the push channel.
pub struct ChronConfig {
    pub database_uri: String,
    pub auth_cookie: String,
    pub crisis_mode: bool,
}

/// A 128-bit identifier derived from `data`: its SipHash-2-4 digest with
/// both keys zero.
pub fn uuid_hash(data: &[u8]) -> (r: u128)
    ensures
        r == sip128_digest(data@),
{
    sip128(data)
}

} // verus!
