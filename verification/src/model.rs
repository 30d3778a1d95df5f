use vstd::prelude::*;
use vstd::string::StrSliceExecFns;
use crate::text::{push_char, str_eq};

verus! {

/// The field a query asks the aggregated posts to be sorted by.
#[derive(Clone, Copy, Debug, PartialEq, Eq, Structural)]
pub enum SortBy {
    Id,
    Reads,
    Likes,
    Popularity,
}

/// The requested output order.
#[derive(Clone, Copy, Debug, PartialEq, Eq, Structural)]
pub enum Direction {
    Asc,
    Desc,
}

impl SortBy {
    /// The lower-case name of the sort key, as it appears in queries and cache keys.
    pub open spec fn name_spec(self) -> Seq<char> {
        match self {
            SortBy::Id => "id"@,
            SortBy::Reads => "reads"@,
            SortBy::Likes => "likes"@,
            SortBy::Popularity => "popularity"@,
        }
    }

    pub fn name(self) -> (r: &'static str)
        ensures
            r@ == self.name_spec(),
    {
        match self {
            SortBy::Id => "id",
            SortBy::Reads => "reads",
            SortBy::Likes => "likes",
            SortBy::Popularity => "popularity",
        }
    }

    /// Which sort key, if any, a raw parameter value names.
    pub open spec fn of_name(s: Seq<char>) -> Option<SortBy> {
        if s == "id"@ {
            Some(SortBy::Id)
        } else if s == "reads"@ {
            Some(SortBy::Reads)
        } else if s == "likes"@ {
            Some(SortBy::Likes)
        } else if s == "popularity"@ {
            Some(SortBy::Popularity)
        } else {
            None
        }
    }

    pub fn from_name(s: &str) -> (r: Option<SortBy>)
        ensures
            r == SortBy::of_name(s@),
    {
        if str_eq(s, "id") {
            Some(SortBy::Id)
        } else if str_eq(s, "reads") {
            Some(SortBy::Reads)
        } else if str_eq(s, "likes") {
            Some(SortBy::Likes)
        } else if str_eq(s, "popularity") {
            Some(SortBy::Popularity)
        } else {
            None
        }
    }
}

impl Direction {
    /// The lower-case name of the direction, as it appears in queries and cache keys.
    pub open spec fn name_spec(self) -> Seq<char> {
        match self {
            Direction::Asc => "asc"@,
            Direction::Desc => "desc"@,
        }
    }

    pub fn name(self) -> (r: &'static str)
        ensures
            r@ == self.name_spec(),
    {
        match self {
            Direction::Asc => "asc",
            Direction::Desc => "desc",
        }
    }

    /// Which direction, if any, a raw parameter value names.
    pub open spec fn of_name(s: Seq<char>) -> Option<Direction> {
        if s == "asc"@ {
            Some(Direction::Asc)
        } else if s == "desc"@ {
            Some(Direction::Desc)
        } else {
            None
        }
    }

    pub fn from_name(s: &str) -> (r: Option<Direction>)
        ensures
            r == Direction::of_name(s@),
    {
        if str_eq(s, "asc") {
            Some(Direction::Asc)
        } else if str_eq(s, "desc") {
            Some(Direction::Desc)
        } else {
            None
        }
    }
}

/// One blog post. Identity is the `id` field alone: deduplication treats two
/// posts with equal ids as the same entity.
///
/// `popularity` is held in thousandths (`950` stands for `0.95`), so that the
/// ordering and the rendering the aggregation needs are over plain integers;
/// the boundary that talks to the upstream service converts its floating-point
/// popularity into this fixed-point form (non-finite values map to `i64::MIN`,
/// which orders least).
#[derive(Clone, Debug)]
pub struct Post {
    pub id: i64,
    pub author: String,
    pub author_id: i64,
    pub likes: i64,
    pub popularity: i64,
    pub reads: i64,
    pub tags: Vec<String>,
}

/// The raw shape the upstream content service returns for one tag; also the
/// unit the per-tag cache tier stores.
#[derive(Clone, Debug)]
pub struct APIResponse {
    pub posts: Vec<Post>,
}

/// The body of an aggregation reply: either the merged post list or a
/// validation message.
#[derive(Clone, Debug)]
pub enum PostsResponse {
    Error { error: String },
    Success { posts: Vec<Post> },
}

/// The views of a list of strings.
pub open spec fn str_views(v: Seq<String>) -> Seq<Seq<char>> {
    v.map_values(|s: String| s@)
}

/// The non-empty comma-separated segments of `s`, with `cur` the segment
/// accumulated so far.
pub open spec fn tags_from(s: Seq<char>, cur: Seq<char>) -> Seq<Seq<char>>
    decreases s.len(),
{
    if s.len() == 0 {
        if cur.len() == 0 {
            Seq::empty()
        } else {
            seq![cur]
        }
    } else if s[0] == ',' {
        (if cur.len() == 0 {
            Seq::empty()
        } else {
            seq![cur]
        }) + tags_from(s.drop_first(), Seq::empty())
    } else {
        tags_from(s.drop_first(), cur.push(s[0]))
    }
}

/// The non-empty comma-separated segments of a raw `tags` parameter.
pub open spec fn tags_of(s: Seq<char>) -> Seq<Seq<char>> {
    tags_from(s, Seq::empty())
}

/// Splits a comma-separated string, discarding empty segments; an input with
/// no non-empty segment is rejected.
pub fn parse_tags(tags: &str) -> (r: Result<Vec<String>, ()>)
    ensures
        match r {
            Ok(v) => tags_of(tags@).len() > 0 && str_views(v@) == tags_of(tags@),
            Err(_) => tags_of(tags@).len() == 0,
        },
{
    let n = tags.unicode_len();
    let mut out: Vec<String> = Vec::new();
    let mut cur: String = String::new();
    let mut i: usize = 0;
    proof {
        assert(tags@.skip(0) =~= tags@);
        assert(str_views(out@) =~= Seq::<Seq<char>>::empty());
        assert(str_views(out@) + tags_from(tags@, Seq::empty()) =~= tags_from(
            tags@,
            Seq::empty(),
        ));
    }
    while i < n
        invariant
            n == tags@.len(),
            i <= n,
            tags_of(tags@) == str_views(out@) + tags_from(tags@.skip(i as int), cur@),
        decreases n - i,
    {
        let c = tags.get_char(i);
        proof {
            assert(tags@.skip(i as int)[0] == tags@[i as int]);
            assert(tags@.skip(i as int).drop_first() =~= tags@.skip(i + 1));
        }
        if c == ',' {
            if !cur.as_str().is_empty() {
                let ghost old_out = str_views(out@);
                let ghost old_cur = cur@;
                out.push(cur);
                cur = String::new();
                proof {
                    assert(str_views(out@) =~= old_out.push(old_cur));
                    assert(str_views(out@) + tags_from(tags@.skip(i + 1), cur@) =~= old_out + (
                    seq![old_cur] + tags_from(tags@.skip(i + 1), Seq::empty())));
                }
            } else {
                proof {
                    assert(Seq::<Seq<char>>::empty() + tags_from(tags@.skip(i + 1), Seq::empty())
                        =~= tags_from(tags@.skip(i + 1), Seq::empty()));
                    assert(cur@ =~= Seq::<char>::empty());
                }
            }
        } else {
            push_char(&mut cur, c);
        }
        i = i + 1;
    }
    proof {
        assert(tags@.skip(n as int) =~= Seq::<char>::empty());
    }
    if !cur.as_str().is_empty() {
        let ghost old_out = str_views(out@);
        let ghost old_cur = cur@;
        out.push(cur);
        proof {
            assert(str_views(out@) =~= old_out.push(old_cur));
            assert(str_views(out@) =~= old_out + seq![old_cur]);
        }
    }
    if out.len() > 0 {
        Ok(out)
    } else {
        proof {
            assert(tags_of(tags@) =~= str_views(out@));
        }
        Err(())
    }
}

/// The raw query parameters of an aggregation request, before validation.
/// `None` stands for a parameter that was absent from the request.
#[derive(Clone, Debug)]
pub struct PostsQuery {
    pub tags: Option<String>,
    pub sort_by: Option<String>,
    pub direction: Option<String>,
}

/// What validating a raw query yields: the split tag list with the chosen sort
/// key and direction, or the message of the first failing rule. Absent
/// parameters fall back to their defaults; present but malformed ones are
/// errors.
pub open spec fn validate_spec(q: PostsQuery) -> Result<(Seq<Seq<char>>, SortBy, Direction), Seq<
    char,
>> {
    if !(q.tags is Some) || tags_of(q.tags->0@).len() == 0 {
        Err("Tags parameter is required"@)
    } else if q.sort_by is Some && SortBy::of_name(q.sort_by->0@) is None {
        Err("sortBy parameter is invalid"@)
    } else if q.direction is Some && Direction::of_name(q.direction->0@) is None {
        Err("direction parameter is invalid"@)
    } else {
        Ok(
            (
                tags_of(q.tags->0@),
                if q.sort_by is Some {
                    SortBy::of_name(q.sort_by->0@)->0
                } else {
                    SortBy::Id
                },
                if q.direction is Some {
                    Direction::of_name(q.direction->0@)->0
                } else {
                    Direction::Asc
                },
            ),
        )
    }
}

impl PostsQuery {
    /// Normalizes the raw parameters into a validated triple, or reports the
    /// fixed message of the first rule that fails.
    pub fn validate(self) -> (r: Result<(Vec<String>, SortBy, Direction), &'static str>)
        ensures
            match r {
                Ok(t) => validate_spec(self) is Ok && str_views(t.0@) == validate_spec(self)->Ok_0.0
                    && t.1 == validate_spec(self)->Ok_0.1 && t.2 == validate_spec(self)->Ok_0.2,
                Err(m) => validate_spec(self) is Err && m@ == validate_spec(self)->Err_0,
            },
    {
        let PostsQuery { tags, sort_by, direction } = self;
        let tags = match tags {
            None => {
                return Err("Tags parameter is required");
            },
            Some(t) => match parse_tags(t.as_str()) {
                Ok(v) => v,
                Err(_) => {
                    return Err("Tags parameter is required");
                },
            },
        };
        let sort_by = match sort_by {
            None => SortBy::Id,
            Some(s) => match SortBy::from_name(s.as_str()) {
                Some(k) => k,
                None => {
                    return Err("sortBy parameter is invalid");
                },
            },
        };
        let direction = match direction {
            None => Direction::Asc,
            Some(s) => match Direction::from_name(s.as_str()) {
                Some(d) => d,
                None => {
                    return Err("direction parameter is invalid");
                },
            },
        };
        Ok((tags, sort_by, direction))
    }
}

} // verus!
