pub mod agg;
pub mod cache;
pub mod gateway;
pub mod model;
pub mod ping;
pub mod render;
pub mod sort;
pub mod text;

pub use agg::{
    dedup, fetch_all, flatten, lemma_aggregate_sorted, lemma_aggregate_unique_ids,
    lemma_first_err_exists, FetchError,
};
pub use cache::{cache, cache_enabled, cache_lookup, Cache, IntoCacheKey};
pub use gateway::{
    lemma_cache_absent_equivalence, lemma_cache_idempotent, posts_cached, posts_fetched,
    query_cache_key, redis_key, validate_or_reply,
};
pub use model::{parse_tags, APIResponse, Direction, Post, PostsQuery, PostsResponse, SortBy};
pub use ping::{ping, Ping};
pub use render::{
    render_error, render_ping, render_post, render_response, render_server_error, render_success,
};
pub use sort::{lemma_direction_symmetry, reverse_posts, sort_posts};
pub use text::{join, str_eq};
