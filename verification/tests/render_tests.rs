use post_gateway::{
    cache, ping, render_error, render_ping, render_post, render_response, render_server_error,
    render_success, IntoCacheKey, Post, PostsResponse,
};

fn post() -> Post {
    Post {
        id: -3,
        author: "Jo \"the\\pen\"\n".to_string(),
        author_id: 7,
        likes: 0,
        popularity: -950,
        reads: 12,
        tags: vec!["x".to_string(), "y".to_string()],
    }
}

#[test]
fn render_post_escapes_and_formats() {
    let s = render_post(&post());
    assert_eq!(
        s,
        "{\"id\":-3,\"author\":\"Jo \\\"the\\\\pen\\\"\\n\",\"authorId\":7,\
         \"likes\":0,\"popularity\":-0.95,\"reads\":12,\"tags\":[\"x\",\"y\"]}"
    );
}

#[test]
fn render_post_escapes_control_characters() {
    let mut p = post();
    p.author = "a\u{1}b".to_string();
    p.popularity = 0;
    p.id = 0;
    p.tags = vec![];
    let s = render_post(&p);
    assert_eq!(
        s,
        "{\"id\":0,\"author\":\"a\\u0001b\",\"authorId\":7,\
         \"likes\":0,\"popularity\":0,\"reads\":12,\"tags\":[]}"
    );
}

#[test]
fn popularity_fixed_point_forms() {
    let mut p = post();
    p.author = "a".to_string();
    p.tags = vec![];
    let pops: Vec<(i64, &str)> = vec![
        (0, "0"),
        (950, "0.95"),
        (905, "0.905"),
        (900, "0.9"),
        (1000, "1"),
        (1500, "1.5"),
        (-100, "-0.1"),
        (12345, "12.345"),
    ];
    for (val, expect) in pops {
        p.popularity = val;
        let s = render_post(&p);
        let needle = format!("\"popularity\":{},", expect);
        assert!(
            s.contains(&needle),
            "popularity {} rendered wrongly in {}",
            val,
            s
        );
    }
}

#[test]
fn render_success_empty_list() {
    let s = render_success(&vec![]);
    assert_eq!(s, "{\"posts\":[]}");
}

#[test]
fn render_error_body() {
    let s = render_error("Tags parameter is required");
    assert_eq!(s, "{\"error\":\"Tags parameter is required\"}");
}

#[test]
fn render_server_error_body() {
    let s = render_server_error();
    assert_eq!(
        s,
        "{\"status\":\"error\",\"message\":\"Internal Server Error\"}"
    );
}

#[test]
fn ping_reports_success() {
    assert!(ping().success);
    assert_eq!(render_ping(), "{\"success\":true}");
}

#[test]
fn render_response_covers_both_variants() {
    let err = PostsResponse::Error { error: "Tags parameter is required".to_string() };
    assert_eq!(
        render_response(&err),
        "{\"error\":\"Tags parameter is required\"}"
    );
    let ok = PostsResponse::Success { posts: vec![] };
    assert_eq!(render_response(&ok), "{\"posts\":[]}");
}

#[test]
fn string_cache_key_is_itself() {
    let k = "history,tech:likes:desc".to_string();
    assert_eq!(k.clone().into_cache_key(), k);
}

#[test]
fn disabled_cache_misses_and_drops_writes() {
    let mut c = cache(false);
    c.try_write("k", "v");
    assert!(c.try_read("k").is_none());
    let mut c = cache(true);
    c.try_write("k", "v");
    assert_eq!(c.try_read("k").unwrap(), "v");
    c.try_write("k", "w");
    assert_eq!(c.try_read("k").unwrap(), "w");
    assert!(c.try_read("other").is_none());
}
