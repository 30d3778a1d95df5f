use vstd::prelude::*;
use vstd::string::StringExecFns;
use crate::agg::{aggregate_spec, fetch_all, first_err, resps, FetchError};
use crate::cache::{cache_enabled, cache_lookup, Cache};
use crate::model::{str_views, validate_spec, APIResponse, Direction, PostsQuery, SortBy};
use crate::render::{error_body, render_error, render_success, success_body};
use crate::text::{join, join_strs};

verus! {

/// The fingerprint of a whole query: the tag list as given (order is not
/// normalized), the sort key name and the direction name, colon-separated.
pub open spec fn query_key_spec(tags: Seq<String>, k: SortBy, d: Direction) -> Seq<char> {
    join_strs(tags, ","@) + ":"@ + k.name_spec() + ":"@ + d.name_spec()
}

/// Builds the query fingerprint used by the per-query cache tier.
pub fn query_cache_key(tags: &Vec<String>, sort_by: SortBy, direction: Direction) -> (r: String)
    ensures
        r@ == query_key_spec(tags@, sort_by, direction),
{
    let mut out = join(tags, ",");
    out.append(":");
    out.append(sort_by.name());
    out.append(":");
    out.append(direction.name());
    proof {
        assert(out@ =~= query_key_spec(tags@, sort_by, direction));
    }
    out
}

/// An ampersand-separated variant of the query fingerprint.
pub open spec fn redis_key_spec(tags: Seq<String>, k: SortBy, d: Direction) -> Seq<char> {
    join_strs(tags, ","@) + "&"@ + k.name_spec() + "&"@ + d.name_spec()
}

/// Joins the tag list and the sort parameters into one store key.
pub fn redis_key(tags: &Vec<String>, sort_by: SortBy, direction: Direction) -> (r: String)
    ensures
        r@ == redis_key_spec(tags@, sort_by, direction),
{
    let mut out = join(tags, ",");
    out.append("&");
    out.append(sort_by.name());
    out.append("&");
    out.append(direction.name());
    proof {
        assert(out@ =~= redis_key_spec(tags@, sort_by, direction));
    }
    out
}

/// The body a validated query yields once its fetches came back error-free.
pub open spec fn posts_body_spec(rs: Seq<APIResponse>, k: SortBy, d: Direction) -> Seq<char> {
    success_body(aggregate_spec(rs, k, d))
}

/// First half of the request flow: looks the validated query up in the
/// per-query cache tier. A hit is returned verbatim and no fetch is needed.
pub fn posts_cached(cache: &Cache, tags: &Vec<String>, sort_by: SortBy, direction: Direction) -> (r:
    Option<String>)
    ensures
        match r {
            Some(b) => cache_lookup(*cache, query_key_spec(tags@, sort_by, direction)) == Some(b@),
            None => cache_lookup(*cache, query_key_spec(tags@, sort_by, direction)) is None,
        },
{
    let key = query_cache_key(tags, sort_by, direction);
    cache.try_read(key.as_str())
}

/// Second half of the request flow, taken on a cache miss once every tag's
/// fetch has settled: joins the outcomes fail-fast, renders the merged body,
/// and writes it back to the per-query cache tier best-effort. On a fetch
/// error the cache is left untouched and the first error, in tag order, is
/// reported.
pub fn posts_fetched(
    cache: &mut Cache,
    tags: &Vec<String>,
    sort_by: SortBy,
    direction: Direction,
    results: Vec<Result<APIResponse, FetchError>>,
) -> (r: Result<String, FetchError>)
    ensures
        r is Ok <==> first_err(results@) is None,
        r is Err ==> r->Err_0 == first_err(results@)->0 && *final(cache) == *old(cache),
        r is Ok ==> r->Ok_0@ == posts_body_spec(resps(results@), sort_by, direction),
        cache_enabled(*final(cache)) == cache_enabled(*old(cache)),
        r is Ok && cache_enabled(*old(cache)) ==> cache_lookup(
            *final(cache),
            query_key_spec(tags@, sort_by, direction),
        ) == Some(posts_body_spec(resps(results@), sort_by, direction)),
        r is Ok && cache_enabled(*old(cache)) ==> forall|k2: Seq<char>|
            k2 != query_key_spec(tags@, sort_by, direction) ==> cache_lookup(*final(cache), k2)
                == cache_lookup(*old(cache), k2),
        r is Ok && !cache_enabled(*old(cache)) ==> *final(cache) == *old(cache),
{
    match fetch_all(results, sort_by, direction) {
        Err(e) => Err(e),
        Ok(posts) => {
            let body = render_success(&posts);
            let key = query_cache_key(tags, sort_by, direction);
            cache.try_write(key.as_str(), body.as_str());
            Ok(body)
        },
    }
}

/// Validates a raw query, mapping a failure straight to the reply the HTTP
/// boundary sends for it: a client error status with the message's JSON body.
/// A validation message is the one kind of detail a client may see; every
/// internal failure is answered with the opaque server error body instead.
pub fn validate_or_reply(query: PostsQuery) -> (r: Result<
    (Vec<String>, SortBy, Direction),
    (u16, String),
>)
    ensures
        match r {
            Ok(t) => validate_spec(query) is Ok && str_views(t.0@) == validate_spec(
                query,
            )->Ok_0.0 && t.1 == validate_spec(query)->Ok_0.1 && t.2 == validate_spec(
                query,
            )->Ok_0.2,
            Err(reply) => validate_spec(query) is Err && reply.0 == 400 && reply.1@ == error_body(
                validate_spec(query)->Err_0,
            ),
        },
{
    match query.validate() {
        Ok(t) => Ok(t),
        Err(message) => Err((400, render_error(message))),
    }
}

/// What a validated query is answered with, given the cache it meets and the
/// responses its fetches would yield: a cache hit verbatim, else the freshly
/// aggregated body.
pub open spec fn handle_outcome(
    c: Cache,
    rs: Seq<APIResponse>,
    tags: Seq<String>,
    k: SortBy,
    d: Direction,
) -> Seq<char> {
    match cache_lookup(c, query_key_spec(tags, k, d)) {
        Some(b) => b,
        None => posts_body_spec(rs, k, d),
    }
}

/// Cache idempotence: after a first, missed query has aggregated and written
/// its body, a second identical query against the resulting cache is answered
/// with those very bytes — whatever its own fetch round would have returned,
/// so no upstream call is needed.
pub proof fn lemma_cache_idempotent(
    before: Cache,
    after: Cache,
    rs: Seq<APIResponse>,
    tags: Seq<String>,
    k: SortBy,
    d: Direction,
)
    requires
        cache_lookup(before, query_key_spec(tags, k, d)) is None,
        cache_lookup(after, query_key_spec(tags, k, d)) == Some(posts_body_spec(rs, k, d)),
    ensures
        forall|rs2: Seq<APIResponse>|
            #[trigger] handle_outcome(after, rs2, tags, k, d) == handle_outcome(
                before,
                rs,
                tags,
                k,
                d,
            ),
{
}

/// Cache-absent equivalence: a query that misses is answered identically
/// whatever cache it missed in — in particular, with no cache configured at
/// all — since the body depends only on the responses and the requested
/// order.
pub proof fn lemma_cache_absent_equivalence(
    c1: Cache,
    c2: Cache,
    rs: Seq<APIResponse>,
    tags: Seq<String>,
    k: SortBy,
    d: Direction,
)
    requires
        cache_lookup(c1, query_key_spec(tags, k, d)) is None,
        cache_lookup(c2, query_key_spec(tags, k, d)) is None,
    ensures
        handle_outcome(c1, rs, tags, k, d) == handle_outcome(c2, rs, tags, k, d),
{
}

} // verus!
