use post_gateway::{parse_tags, Direction, PostsQuery, SortBy};

fn query(tags: Option<&str>, sort_by: Option<&str>, direction: Option<&str>) -> PostsQuery {
    PostsQuery {
        tags: tags.map(|s| s.to_string()),
        sort_by: sort_by.map(|s| s.to_string()),
        direction: direction.map(|s| s.to_string()),
    }
}

#[test]
fn validate_accepts_nonempty_tags() {
    let r = query(Some("history,tech"), None, None).validate().unwrap();
    assert_eq!(r.0, vec!["history".to_string(), "tech".to_string()]);
    assert_eq!(r.1, SortBy::Id);
    assert_eq!(r.2, Direction::Asc);
}

#[test]
fn validate_rejects_missing_tags() {
    let e = query(None, None, None).validate().unwrap_err();
    assert_eq!(e, "Tags parameter is required");
}

#[test]
fn validate_rejects_empty_tags() {
    let e = query(Some(""), None, None).validate().unwrap_err();
    assert_eq!(e, "Tags parameter is required");
}

#[test]
fn validate_rejects_all_empty_segments() {
    let e = query(Some(",,,"), None, None).validate().unwrap_err();
    assert_eq!(e, "Tags parameter is required");
}

#[test]
fn validate_parses_sort_by_and_direction() {
    let r = query(Some("a"), Some("likes"), Some("desc")).validate().unwrap();
    assert_eq!(r.1, SortBy::Likes);
    assert_eq!(r.2, Direction::Desc);
    let r = query(Some("a"), Some("popularity"), Some("asc")).validate().unwrap();
    assert_eq!(r.1, SortBy::Popularity);
    assert_eq!(r.2, Direction::Asc);
    let r = query(Some("a"), Some("reads"), None).validate().unwrap();
    assert_eq!(r.1, SortBy::Reads);
}

#[test]
fn validate_rejects_bad_sort_by() {
    let e = query(Some("a"), Some("magic"), None).validate().unwrap_err();
    assert_eq!(e, "sortBy parameter is invalid");
}

#[test]
fn validate_rejects_bad_direction() {
    let e = query(Some("a"), None, Some("up")).validate().unwrap_err();
    assert_eq!(e, "direction parameter is invalid");
}

#[test]
fn validate_checks_tags_before_sort_by() {
    let e = query(None, Some("magic"), Some("up")).validate().unwrap_err();
    assert_eq!(e, "Tags parameter is required");
}

#[test]
fn validate_or_reply_maps_failure_to_client_error() {
    let (status, body) =
        post_gateway::validate_or_reply(query(None, None, None)).unwrap_err();
    assert_eq!(status, 400);
    assert_eq!(body, "{\"error\":\"Tags parameter is required\"}");
}

#[test]
fn parse_tags_drops_empty_segments() {
    let v = parse_tags("a,,b,").unwrap();
    assert_eq!(v, vec!["a".to_string(), "b".to_string()]);
}

#[test]
fn parse_tags_single_comma_fails() {
    assert!(parse_tags(",").is_err());
}
