//! Assets (images, texts) the archive keeps a copy of, and the URLs found
//! in fetched documents that point at them.

use vstd::prelude::*;
use vstd::string::StringSliceAdditionalSpecFns;

use crate::boundary::{
    base64_standard_encode, encode_standard, parse_url, sip128, sip128_digest, url_from_str,
    uuid_text, uuid_to_string,
};
use crate::base::uuid_hash;
use crate::json::{Json, JsonView, members_view, text_or_null, text_or_null_json};

verus! {

/// A copy of a fetched asset: identified by the hash of its URL, with the
/// hash of its content and the content in base64.
pub struct Asset {
    pub id: u128,
    pub url: String,
    pub last_modified: Option<String>,
    pub content_type: Option<String>,
    pub hash: u128,
    /// The content, base64-encoded (standard alphabet, padded).
    pub data: String,
}

impl Asset {
    /// The asset fetched from `url` (a parsed URL's text) with content `data`.
    pub fn new(url: &str, last_modified: Option<String>, content_type: Option<String>, data: &[u8]) -> (r: Asset)
        requires
            (data@.len() + 2) / 3 * 4 <= usize::MAX,
        ensures
            r.id == sip128_digest(url.spec_bytes()),
            r.url@ == url@,
            r.last_modified == last_modified,
            r.content_type == content_type,
            r.hash == sip128_digest(data@),
            r.data@ == base64_standard_encode(data@),
    {
        let url_hash = sip128(url.as_bytes());
        let encoded_data = encode_standard(data);
        let data_hash = uuid_hash(data);
        Asset {
            id: url_hash,
            last_modified,
            content_type,
            url: url.to_owned(),
            hash: data_hash,
            data: encoded_data,
        }
    }
}

/// The JSON record of an asset, as the archive stores it: its fields by
/// name, identifiers in their hyphenated text.
pub open spec fn asset_json(
    id: u128,
    url: Seq<char>,
    last_modified: Option<Seq<char>>,
    content_type: Option<Seq<char>>,
    hash: u128,
    data: Seq<char>,
) -> JsonView {
    JsonView::Object(
        seq![
            ("id"@, JsonView::String(uuid_text(id))),
            ("url"@, JsonView::String(url)),
            ("last_modified"@, text_or_null(last_modified)),
            ("content_type"@, text_or_null(content_type)),
            ("hash"@, JsonView::String(uuid_text(hash))),
            ("data"@, JsonView::String(data)),
        ],
    )
}

/// An optional string's text.
pub open spec fn opt_text(o: Option<String>) -> Option<Seq<char>> {
    match o {
        Some(s) => Some(s@),
        None => None,
    }
}

impl Asset {
    /// The asset's JSON record.
    pub fn to_json(&self) -> (r: Json)
        ensures
            r@ == asset_json(
                self.id,
                self.url@,
                opt_text(self.last_modified),
                opt_text(self.content_type),
                self.hash,
                self.data@,
            ),
    {
        let mut members: Vec<(String, Json)> = Vec::new();
        members.push((String::from_str("id"), Json::String(uuid_to_string(self.id))));
        members.push((String::from_str("url"), Json::String(self.url.clone())));
        members.push((String::from_str("last_modified"), text_or_null_json(&self.last_modified)));
        members.push((String::from_str("content_type"), text_or_null_json(&self.content_type)));
        members.push((String::from_str("hash"), Json::String(uuid_to_string(self.hash))));
        members.push((String::from_str("data"), Json::String(self.data.clone())));
        let r = Json::Object(members);
        proof {
            crate::json::lemma_members_view(members@);
            assert(members_view(members@) =~= seq![
                ("id"@, JsonView::String(uuid_text(self.id))),
                ("url"@, JsonView::String(self.url@)),
                ("last_modified"@, text_or_null(opt_text(self.last_modified))),
                ("content_type"@, text_or_null(opt_text(self.content_type))),
                ("hash"@, JsonView::String(uuid_text(self.hash))),
                ("data"@, JsonView::String(self.data@)),
            ]);
        }
        r
    }
}

/// The URL `text` stands for, when it parses as one that has a host.
pub open spec fn url_with_host(text: Seq<char>) -> Seq<Seq<char>> {
    match url_from_str(text) {
        Some((u, has_host)) => if has_host {
            seq![u]
        } else {
            seq![]
        },
        None => seq![],
    }
}

/// The URLs with a host among the strings of `value`, in document order
/// (array elements in order, object members in the order listed).
pub open spec fn urls_in(value: Json) -> Seq<Seq<char>>
    decreases value,
{
    match value {
        Json::Array(items) => urls_in_items(items@),
        Json::Object(members) => urls_in_members(members@),
        Json::String(s) => url_with_host(s@),
        _ => seq![],
    }
}

/// The URLs in each of `items`, one after another.
pub open spec fn urls_in_items(items: Seq<Json>) -> Seq<Seq<char>>
    decreases items,
{
    if items.len() == 0 {
        seq![]
    } else {
        urls_in_items(items.subrange(0, items.len() - 1)) + urls_in(items[items.len() - 1])
    }
}

/// The URLs in the values of `members`, one after another.
pub open spec fn urls_in_members(members: Seq<(String, Json)>) -> Seq<Seq<char>>
    decreases members,
{
    if members.len() == 0 {
        seq![]
    } else {
        urls_in_members(members.subrange(0, members.len() - 1)) + urls_in(members[members.len() - 1].1)
    }
}

/// The texts of `urls`.
pub open spec fn texts(urls: Seq<String>) -> Seq<Seq<char>> {
    urls.map_values(|u: String| u@)
}

fn find_urls_inner(value: &Json, urls: &mut Vec<String>)
    ensures
        texts(final(urls)@) == texts(old(urls)@) + urls_in(*value),
    decreases value,
{
    match value {
        Json::Array(items) => {
            let mut i: usize = 0;
            while i < items.len()
                invariant
                    *value == Json::Array(*items),
                    i <= items@.len(),
                    texts(urls@) == texts(old(urls)@) + urls_in_items(items@.subrange(0, i as int)),
                decreases items@.len() - i,
            {
                proof {
                    assert(decreases_to!(*value => (*value)->Array_0));
                    assert(decreases_to!(*items => items@));
                    assert(decreases_to!(items@ => items@[i as int]));
                }
                find_urls_inner(&items[i], urls);
                let ghost s = items@.subrange(0, i as int + 1);
                assert(s.subrange(0, i as int) =~= items@.subrange(0, i as int));
                assert(urls_in_items(s) == urls_in_items(items@.subrange(0, i as int)) + urls_in(items@[i as int]));
                i = i + 1;
            }
            assert(items@.subrange(0, items@.len() as int) =~= items@);
        },
        Json::Object(members) => {
            let mut i: usize = 0;
            while i < members.len()
                invariant
                    *value == Json::Object(*members),
                    i <= members@.len(),
                    texts(urls@) == texts(old(urls)@) + urls_in_members(members@.subrange(0, i as int)),
                decreases members@.len() - i,
            {
                proof {
                    assert(decreases_to!(*value => (*value)->Object_0));
                    assert(decreases_to!(*members => members@));
                    assert(decreases_to!(members@ => members@[i as int]));
                    assert(decreases_to!(members@[i as int] => members@[i as int].1));
                }
                find_urls_inner(&members[i].1, urls);
                let ghost s = members@.subrange(0, i as int + 1);
                assert(s.subrange(0, i as int) =~= members@.subrange(0, i as int));
                assert(urls_in_members(s) == urls_in_members(members@.subrange(0, i as int)) + urls_in(members@[i as int].1));
                i = i + 1;
            }
            assert(members@.subrange(0, members@.len() as int) =~= members@);
        },
        Json::String(s) => {
            match parse_url(s.as_str()) {
                Some(url) => {
                    if url.has_host {
                        let ghost before = urls@;
                        urls.push(url.text);
                        assert(texts(urls@) =~= texts(before) + url_with_host(s@));
                    } else {
                        assert(url_with_host(s@) =~= Seq::<Seq<char>>::empty());
                        assert(texts(urls@) =~= texts(old(urls)@) + url_with_host(s@));
                    }
                },
                None => {
                    assert(texts(urls@) =~= texts(old(urls)@) + url_with_host(s@));
                },
            }
        },
        _ => {
            assert(texts(urls@) =~= texts(old(urls)@) + urls_in(*value));
        },
    }
}

/// The URLs with a host among the strings of a document, in document order.
pub fn find_urls(value: &Json) -> (r: Vec<String>)
    ensures
        texts(r@) == urls_in(*value),
        forall|path: Seq<nat>, u: Seq<char>| #[trigger] leads_to_url(*value, path, u) ==> texts(r@).contains(u),
        forall|u: Seq<char>| #[trigger] texts(r@).contains(u) ==> exists|path: Seq<nat>| leads_to_url(*value, path, u),
{
    let mut urls: Vec<String> = Vec::new();
    find_urls_inner(value, &mut urls);
    assert(texts(Seq::<String>::empty()) =~= Seq::<Seq<char>>::empty());
    assert(texts(urls@) =~= urls_in(*value));
    proof {
        assert forall|path: Seq<nat>, u: Seq<char>| #[trigger] leads_to_url(*value, path, u) implies texts(
            urls@,
        ).contains(u) by {
            lemma_find_urls_complete(*value, path, string_at(*value, path)->0, u);
        }
        assert forall|u: Seq<char>| #[trigger] texts(urls@).contains(u) implies exists|path: Seq<nat>|
            leads_to_url(*value, path, u) by {
            lemma_find_urls_sound(*value, u);
        }
    }
    urls
}

/// The string found in `value` by following `path`: each step picks an
/// array item or an object member's value by its index; `None` when the
/// path leads nowhere or ends on something other than a string.
pub open spec fn string_at(value: Json, path: Seq<nat>) -> Option<Seq<char>>
    decreases path.len(),
{
    if path.len() == 0 {
        match value {
            Json::String(t) => Some(t@),
            _ => None,
        }
    } else {
        let k = path[0] as int;
        match value {
            Json::Array(items) => if k < items@.len() {
                string_at(items@[k], path.drop_first())
            } else {
                None
            },
            Json::Object(members) => if k < members@.len() {
                string_at(members@[k].1, path.drop_first())
            } else {
                None
            },
            _ => None,
        }
    }
}

proof fn lemma_urls_in_items_contains(items: Seq<Json>, k: int, u: Seq<char>)
    requires
        0 <= k < items.len(),
        urls_in(items[k]).contains(u),
    ensures
        urls_in_items(items).contains(u),
    decreases items.len(),
{
    let init = items.subrange(0, items.len() - 1);
    let last = urls_in(items[items.len() - 1]);
    let whole = urls_in_items(init) + last;
    assert(urls_in_items(items) == whole);
    if k == items.len() - 1 {
        let j = choose|j: int| 0 <= j < last.len() && last[j] == u;
        assert(whole[urls_in_items(init).len() + j] == u);
    } else {
        assert(init[k] == items[k]);
        lemma_urls_in_items_contains(init, k, u);
        let j = choose|j: int| 0 <= j < urls_in_items(init).len() && urls_in_items(init)[j] == u;
        assert(whole[j] == u);
    }
}

proof fn lemma_urls_in_members_contains(members: Seq<(String, Json)>, k: int, u: Seq<char>)
    requires
        0 <= k < members.len(),
        urls_in(members[k].1).contains(u),
    ensures
        urls_in_members(members).contains(u),
    decreases members.len(),
{
    let init = members.subrange(0, members.len() - 1);
    let last = urls_in(members[members.len() - 1].1);
    let whole = urls_in_members(init) + last;
    assert(urls_in_members(members) == whole);
    if k == members.len() - 1 {
        let j = choose|j: int| 0 <= j < last.len() && last[j] == u;
        assert(whole[urls_in_members(init).len() + j] == u);
    } else {
        assert(init[k] == members[k]);
        lemma_urls_in_members_contains(init, k, u);
        let j = choose|j: int| 0 <= j < urls_in_members(init).len() && urls_in_members(init)[j] == u;
        assert(whole[j] == u);
    }
}

/// Every string of a document that parses as a URL with a host, at any
/// depth inside arrays and objects, is among the URLs `find_urls` gives.
pub proof fn lemma_find_urls_complete(value: Json, path: Seq<nat>, s: Seq<char>, u: Seq<char>)
    requires
        string_at(value, path) == Some(s),
        url_from_str(s) == Some((u, true)),
    ensures
        urls_in(value).contains(u),
    decreases path.len(),
{
    if path.len() == 0 {
        assert(urls_in(value) == seq![u]);
        assert(urls_in(value)[0] == u);
    } else {
        let k = path[0] as int;
        match value {
            Json::Array(items) => {
                lemma_find_urls_complete(items@[k], path.drop_first(), s, u);
                lemma_urls_in_items_contains(items@, k, u);
            },
            Json::Object(members) => {
                lemma_find_urls_complete(members@[k].1, path.drop_first(), s, u);
                lemma_urls_in_members_contains(members@, k, u);
            },
            _ => {},
        }
    }
}

/// Whether following `path` in `value` leads to a string that parses as the
/// URL `u`, with a host.
pub open spec fn leads_to_url(value: Json, path: Seq<nat>, u: Seq<char>) -> bool {
    match string_at(value, path) {
        Some(s) => url_from_str(s) == Some((u, true)),
        None => false,
    }
}

proof fn lemma_urls_in_items_source(items: Seq<Json>, u: Seq<char>)
    requires
        urls_in_items(items).contains(u),
    ensures
        exists|k: int| 0 <= k < items.len() && #[trigger] urls_in(items[k]).contains(u),
    decreases items.len(),
{
    let init = items.subrange(0, items.len() - 1);
    let last = urls_in(items[items.len() - 1]);
    let whole = urls_in_items(init) + last;
    assert(urls_in_items(items) == whole);
    let j = choose|j: int| 0 <= j < whole.len() && whole[j] == u;
    if j < urls_in_items(init).len() {
        assert(urls_in_items(init)[j] == u);
        lemma_urls_in_items_source(init, u);
        let k = choose|k: int| 0 <= k < init.len() && #[trigger] urls_in(init[k]).contains(u);
        assert(init[k] == items[k]);
    } else {
        assert(last[j - urls_in_items(init).len()] == u);
        assert(urls_in(items[items.len() - 1]).contains(u));
    }
}

proof fn lemma_urls_in_members_source(members: Seq<(String, Json)>, u: Seq<char>)
    requires
        urls_in_members(members).contains(u),
    ensures
        exists|k: int| 0 <= k < members.len() && #[trigger] urls_in(members[k].1).contains(u),
    decreases members.len(),
{
    let init = members.subrange(0, members.len() - 1);
    let last = urls_in(members[members.len() - 1].1);
    let whole = urls_in_members(init) + last;
    assert(urls_in_members(members) == whole);
    let j = choose|j: int| 0 <= j < whole.len() && whole[j] == u;
    if j < urls_in_members(init).len() {
        assert(urls_in_members(init)[j] == u);
        lemma_urls_in_members_source(init, u);
        let k = choose|k: int| 0 <= k < init.len() && #[trigger] urls_in(init[k].1).contains(u);
        assert(init[k] == members[k]);
    } else {
        assert(last[j - urls_in_members(init).len()] == u);
        assert(urls_in(members[members.len() - 1].1).contains(u));
    }
}

/// Every URL `find_urls` gives comes from a string of the document that
/// parses as that URL, with a host.
pub proof fn lemma_find_urls_sound(value: Json, u: Seq<char>)
    requires
        urls_in(value).contains(u),
    ensures
        exists|path: Seq<nat>| #[trigger] leads_to_url(value, path, u),
    decreases value,
{
    match value {
        Json::String(t) => {
            let path = Seq::<nat>::empty();
            assert(url_from_str(t@) == Some((u, true)));
            assert(string_at(value, path) == Some(t@));
            assert(leads_to_url(value, path, u));
        },
        Json::Array(items) => {
            lemma_urls_in_items_source(items@, u);
            let k = choose|k: int| 0 <= k < items@.len() && #[trigger] urls_in(items@[k]).contains(u);
            assert(decreases_to!(value => value->Array_0));
            assert(decreases_to!(items => items@));
            assert(decreases_to!(items@ => items@[k]));
            lemma_find_urls_sound(items@[k], u);
            let p = choose|p: Seq<nat>| #[trigger] leads_to_url(items@[k], p, u);
            let path = seq![k as nat] + p;
            assert(path.drop_first() =~= p);
            assert(string_at(value, path) == string_at(items@[k], p));
            assert(leads_to_url(value, path, u));
        },
        Json::Object(members) => {
            lemma_urls_in_members_source(members@, u);
            let k = choose|k: int| 0 <= k < members@.len() && #[trigger] urls_in(members@[k].1).contains(u);
            assert(decreases_to!(value => value->Object_0));
            assert(decreases_to!(members => members@));
            assert(decreases_to!(members@ => members@[k]));
            assert(decreases_to!(members@[k] => members@[k].1));
            lemma_find_urls_sound(members@[k].1, u);
            let p = choose|p: Seq<nat>| #[trigger] leads_to_url(members@[k].1, p, u);
            let path = seq![k as nat] + p;
            assert(path.drop_first() =~= p);
            assert(string_at(value, path) == string_at(members@[k].1, p));
            assert(leads_to_url(value, path, u));
        },
        _ => {
            assert(urls_in(value).len() == 0);
        },
    }
}

} // verus!
