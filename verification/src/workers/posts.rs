//! The news feed, read page by page, and the profile icons its posts show.

use vstd::prelude::*;

use crate::db::NewObject;
use crate::http::ClientResponse;
use crate::json::Json;
use crate::models::EntityKind;
use crate::text::TextSet;

verus! {

/// Polls every page of the news feed.
pub struct PollPosts;

impl PollPosts {
    pub fn interval_secs() -> (r: u64)
        ensures
            r == 30,
    {
        30
    }
}

/// What the archive reads of a post: its id and its author's icon.
pub struct PostSummary {
    pub id: u128,
    pub profile_pin_url: Option<String>,
}

/// The page to read after page `page_idx` of a feed with `total_pages`
/// pages: none once `page_idx` reaches the last page.
pub fn next_page(page_idx: i32, total_pages: i32) -> (r: Option<i32>)
    requires
        total_pages > i32::MIN,
    ensures
        r == if page_idx >= total_pages - 1 {
            None::<i32>
        } else {
            Some((page_idx + 1) as i32)
        },
{
    if page_idx >= total_pages - 1 {
        None
    } else {
        Some(page_idx + 1)
    }
}

/// The profile icons the authors of `posts` show, as texts.
pub open spec fn pin_urls(posts: Seq<(Json, PostSummary)>) -> Set<Seq<char>>
    decreases posts.len(),
{
    if posts.len() == 0 {
        Set::empty()
    } else {
        let rest = pin_urls(posts.drop_last());
        match posts.last().1.profile_pin_url {
            Some(u) => rest.insert(u@),
            None => rest,
        }
    }
}

/// The observation of one post of a feed page fetched in `resp`.
pub open spec fn post_object(resp: ClientResponse, post: (Json, PostSummary)) -> NewObject {
    NewObject {
        kind: EntityKind::Post,
        entity_id: post.1.id,
        data: post.0,
        timestamp: resp.timestamp_before,
        request_time: resp.spec_request_time(),
    }
}

/// One page of the feed fetched in `resp`, each post as its JSON and what
/// was read of it: the posts' observations in order, and every author's
/// icon added to `icons`.
pub fn page_objects(resp: &ClientResponse, posts: Vec<(Json, PostSummary)>, icons: &mut TextSet) -> (r: Vec<NewObject>)
    requires
        resp.wf(),
    ensures
        r@.len() == posts@.len(),
        forall|i: int| 0 <= i < posts@.len() ==> #[trigger] r@[i] == post_object(*resp, posts@[i]),
        final(icons).members() == old(icons).members().union(pin_urls(posts@)),
{
    let ghost all = posts@;
    let ghost start = icons.members();
    let n: usize = posts.len();
    assert(all.len() == n);
    let mut objs: Vec<NewObject> = Vec::new();
    let mut rest = posts;
    let mut k: usize = 0;
    assert(all.subrange(0, 0) =~= Seq::<(Json, PostSummary)>::empty());
    assert(start.union(Set::<Seq<char>>::empty()) =~= start);
    while rest.len() > 0
        invariant
            resp.wf(),
            all.len() <= usize::MAX,
            k + rest@.len() == all.len(),
            rest@ == all.subrange(k as int, all.len() as int),
            objs@.len() == k,
            forall|j: int| 0 <= j < k ==> #[trigger] objs@[j] == post_object(*resp, all[j]),
            icons.members() == start.union(pin_urls(all.subrange(0, k as int))),
        decreases rest@.len(),
    {
        let (value, post) = rest.remove(0);
        let ghost prefix = all.subrange(0, k as int + 1);
        assert(prefix.drop_last() =~= all.subrange(0, k as int));
        assert(prefix.last() == (value, post));
        let ghost before = icons.members();
        match &post.profile_pin_url {
            Some(icon) => {
                icons.insert(icon.as_str());
                assert(icons.members() =~= start.union(pin_urls(prefix)));
            },
            None => {
                assert(icons.members() =~= start.union(pin_urls(prefix)));
            },
        }
        objs.push(resp.to_chron(EntityKind::Post, post.id, value));
        k = k + 1;
        assert(rest@ =~= all.subrange(k as int, all.len() as int));
    }
    assert(all.subrange(0, all.len() as int) =~= all);
    objs
}

} // verus!
