use post_gateway::{
    cache, dedup, fetch_all, flatten, posts_cached, posts_fetched, query_cache_key, redis_key,
    reverse_posts, sort_posts, APIResponse, Direction, FetchError, Post, SortBy,
};

fn post(id: i64, likes: i64, reads: i64, popularity: i64) -> Post {
    Post {
        id,
        author: format!("author{}", id),
        author_id: id * 10,
        likes,
        popularity,
        reads,
        tags: vec!["tech".to_string()],
    }
}

#[test]
fn dedup_keeps_one_post_per_id() {
    let a = APIResponse { posts: vec![post(1, 3, 7, 100)] };
    let b = APIResponse { posts: vec![post(1, 3, 7, 100)] };
    let merged = flatten(vec![a, b]);
    assert_eq!(merged.len(), 2);
    let unique = dedup(merged);
    assert_eq!(unique.len(), 1);
    assert_eq!(unique[0].id, 1);
}

#[test]
fn dedup_keeps_first_occurrence() {
    let first = post(5, 1, 1, 1);
    let mut second = post(5, 2, 2, 2);
    second.author = "other".to_string();
    let unique = dedup(vec![first, second, post(6, 0, 0, 0)]);
    assert_eq!(unique.len(), 2);
    assert_eq!(unique[0].author, "author5");
    assert_eq!(unique[1].id, 6);
}

#[test]
fn sort_by_likes_desc_reverses_ascending() {
    let posts = vec![post(1, 3, 0, 0), post(2, 1, 0, 0), post(3, 2, 0, 0)];
    let asc = sort_posts(posts, SortBy::Likes);
    let likes_asc: Vec<i64> = asc.iter().map(|p| p.likes).collect();
    assert_eq!(likes_asc, vec![1, 2, 3]);
    let desc = reverse_posts(asc);
    let likes_desc: Vec<i64> = desc.iter().map(|p| p.likes).collect();
    assert_eq!(likes_desc, vec![3, 2, 1]);
}

#[test]
fn sort_is_stable_for_equal_keys() {
    let mut a = post(1, 7, 0, 0);
    a.author = "first".to_string();
    let mut b = post(2, 7, 0, 0);
    b.author = "second".to_string();
    let sorted = sort_posts(vec![a, b], SortBy::Likes);
    assert_eq!(sorted[0].author, "first");
    assert_eq!(sorted[1].author, "second");
}

#[test]
fn sort_by_popularity_orders_fixed_point() {
    let posts = vec![post(1, 0, 0, 950), post(2, 0, 0, 100), post(3, 0, 0, 500)];
    let sorted = sort_posts(posts, SortBy::Popularity);
    let ids: Vec<i64> = sorted.iter().map(|p| p.id).collect();
    assert_eq!(ids, vec![2, 3, 1]);
}

#[test]
fn fetch_all_merges_dedups_and_sorts() {
    let a = APIResponse { posts: vec![post(2, 0, 0, 0), post(1, 0, 0, 0)] };
    let b = APIResponse { posts: vec![post(1, 0, 0, 0), post(3, 0, 0, 0)] };
    let r = fetch_all(vec![Ok(a), Ok(b)], SortBy::Id, Direction::Asc).unwrap();
    let ids: Vec<i64> = r.iter().map(|p| p.id).collect();
    assert_eq!(ids, vec![1, 2, 3]);
}

#[test]
fn fetch_all_fails_fast_on_any_error() {
    let a = APIResponse { posts: vec![post(1, 0, 0, 0)] };
    let b = APIResponse { posts: vec![post(2, 0, 0, 0)] };
    let r = fetch_all(
        vec![Ok(a), Err(FetchError::Upstream("boom".to_string())), Ok(b)],
        SortBy::Id,
        Direction::Asc,
    );
    assert!(matches!(r, Err(FetchError::Upstream(_))));
}

#[test]
fn fetch_all_reports_first_error_in_tag_order() {
    let r = fetch_all(
        vec![
            Err(FetchError::Serde("bad cache entry".to_string())),
            Err(FetchError::Upstream("boom".to_string())),
        ],
        SortBy::Id,
        Direction::Asc,
    );
    assert!(matches!(r, Err(FetchError::Serde(_))));
}

#[test]
fn direction_symmetry_on_distinct_keys() {
    let make = || {
        vec![Ok(APIResponse {
            posts: vec![post(1, 5, 0, 0), post(2, 9, 0, 0), post(3, 7, 0, 0)],
        })]
    };
    let asc = fetch_all(make(), SortBy::Likes, Direction::Asc).unwrap();
    let desc = fetch_all(make(), SortBy::Likes, Direction::Desc).unwrap();
    let asc_reversed: Vec<i64> = asc.iter().rev().map(|p| p.id).collect();
    let desc_ids: Vec<i64> = desc.iter().map(|p| p.id).collect();
    assert_eq!(asc_reversed, desc_ids);
}

#[test]
fn redis_key_joins_with_ampersands() {
    let tags = vec!["history".to_string(), "tech".to_string()];
    let k = redis_key(&tags, SortBy::Likes, Direction::Desc);
    assert_eq!(k, "history,tech&likes&desc");
}

#[test]
fn query_cache_key_joins_with_colons() {
    let tags = vec!["history".to_string(), "tech".to_string()];
    let k = query_cache_key(&tags, SortBy::Likes, Direction::Desc);
    assert_eq!(k, "history,tech:likes:desc");
}

#[test]
fn identical_queries_hit_the_cache_with_identical_bytes() {
    let mut c = cache(true);
    let tags = vec!["tech".to_string()];
    let rs = vec![Ok(APIResponse { posts: vec![post(1, 3, 7, 950)] })];

    assert!(posts_cached(&c, &tags, SortBy::Id, Direction::Asc).is_none());
    let first = posts_fetched(&mut c, &tags, SortBy::Id, Direction::Asc, rs).unwrap();

    let second = posts_cached(&c, &tags, SortBy::Id, Direction::Asc)
        .expect("second identical query must be a cache hit");
    assert_eq!(first, second);
}

#[test]
fn different_queries_do_not_share_a_cache_entry() {
    let mut c = cache(true);
    let tags = vec!["tech".to_string()];
    let rs = vec![Ok(APIResponse { posts: vec![post(1, 3, 7, 950)] })];
    posts_fetched(&mut c, &tags, SortBy::Id, Direction::Asc, rs).unwrap();
    assert!(posts_cached(&c, &tags, SortBy::Id, Direction::Desc).is_none());
    assert!(posts_cached(&c, &tags, SortBy::Likes, Direction::Asc).is_none());
}

#[test]
fn cache_absent_gives_the_same_body() {
    let tags = vec!["tech".to_string()];
    let make = || vec![Ok(APIResponse { posts: vec![post(1, 3, 7, 950), post(2, 1, 2, 100)] })];

    let mut with_cache = cache(true);
    let body_cached =
        posts_fetched(&mut with_cache, &tags, SortBy::Likes, Direction::Desc, make()).unwrap();

    let mut without_cache = cache(false);
    let body_plain =
        posts_fetched(&mut without_cache, &tags, SortBy::Likes, Direction::Desc, make()).unwrap();

    assert_eq!(body_cached, body_plain);
    assert!(posts_cached(&without_cache, &tags, SortBy::Likes, Direction::Desc).is_none());
}

#[test]
fn failed_fetch_writes_nothing_to_the_cache() {
    let mut c = cache(true);
    let tags = vec!["tech".to_string()];
    let rs: Vec<Result<APIResponse, FetchError>> =
        vec![Err(FetchError::Upstream("down".to_string()))];
    assert!(posts_fetched(&mut c, &tags, SortBy::Id, Direction::Asc, rs).is_err());
    assert!(posts_cached(&c, &tags, SortBy::Id, Direction::Asc).is_none());
}

#[test]
fn end_to_end_two_tags_sorted_by_id_asc() {
    let mut c = cache(true);
    let tags = vec!["a".to_string(), "b".to_string()];
    let from_a = APIResponse {
        posts: vec![Post {
            id: 2,
            author: "Bea".to_string(),
            author_id: 20,
            likes: 4,
            popularity: 700,
            reads: 50,
            tags: vec!["a".to_string()],
        }],
    };
    let from_b = APIResponse {
        posts: vec![Post {
            id: 1,
            author: "Al".to_string(),
            author_id: 10,
            likes: 9,
            popularity: 950,
            reads: 80,
            tags: vec!["b".to_string()],
        }],
    };
    let body = posts_fetched(
        &mut c,
        &tags,
        SortBy::Id,
        Direction::Asc,
        vec![Ok(from_a), Ok(from_b)],
    )
    .unwrap();
    assert_eq!(
        body,
        "{\"posts\":[\
         {\"id\":1,\"author\":\"Al\",\"authorId\":10,\"likes\":9,\"popularity\":0.95,\"reads\":80,\"tags\":[\"b\"]},\
         {\"id\":2,\"author\":\"Bea\",\"authorId\":20,\"likes\":4,\"popularity\":0.7,\"reads\":50,\"tags\":[\"a\"]}\
         ]}"
    );
}
