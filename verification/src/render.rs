use vstd::prelude::*;
use vstd::string::StrSliceExecFns;
use vstd::string::StringExecFns;
use crate::model::{Post, PostsResponse};
use crate::text::{dec_digit, i64_dec, i64_to_dec, push_char, u64_dec, u64_to_dec};

verus! {

/// The character for one hexadecimal digit, lower case.
pub open spec fn hex_digit(d: nat) -> char {
    if d < 10 {
        dec_digit(d)
    } else {
        (((97 + d - 10) as u8) as char)
    }
}

fn hex_char(d: u8) -> (c: char)
    requires
        d < 16,
    ensures
        c == hex_digit(d as nat),
{
    if d < 10 {
        (48u8 + d) as char
    } else {
        (97u8 + d - 10) as char
    }
}

/// How one character is written inside a JSON string literal.
pub open spec fn esc_char(c: char) -> Seq<char> {
    if c == '"' {
        seq!['\\', '"']
    } else if c == '\\' {
        seq!['\\', '\\']
    } else if c == '\u{8}' {
        seq!['\\', 'b']
    } else if c == '\u{c}' {
        seq!['\\', 'f']
    } else if c == '\n' {
        seq!['\\', 'n']
    } else if c == '\r' {
        seq!['\\', 'r']
    } else if c == '\t' {
        seq!['\\', 't']
    } else if (c as u32) < 32 {
        seq!['\\', 'u', '0', '0', hex_digit((c as u32) as nat / 16), hex_digit(
            (c as u32) as nat % 16,
        )]
    } else {
        seq![c]
    }
}

/// A string's characters written with JSON escaping.
pub open spec fn esc(s: Seq<char>) -> Seq<char>
    decreases s.len(),
{
    if s.len() == 0 {
        Seq::empty()
    } else {
        esc(s.drop_last()) + esc_char(s.last())
    }
}

/// A JSON string literal: quotes around the escaped characters.
pub open spec fn quoted(s: Seq<char>) -> Seq<char> {
    seq!['"'] + esc(s) + seq!['"']
}

/// Escapes a string for inclusion in a JSON string literal.
pub fn esc_str(s: &str) -> (r: String)
    ensures
        r@ == esc(s@),
{
    let n = s.unicode_len();
    let mut out = String::new();
    let mut i: usize = 0;
    while i < n
        invariant
            n == s@.len(),
            i <= n,
            out@ == esc(s@.take(i as int)),
        decreases n - i,
    {
        let c = s.get_char(i);
        proof {
            assert(s@.take(i + 1).drop_last() =~= s@.take(i as int));
            assert(s@.take(i + 1).last() == s@[i as int]);
        }
        if c == '"' {
            push_char(&mut out, '\\');
            push_char(&mut out, '"');
        } else if c == '\\' {
            push_char(&mut out, '\\');
            push_char(&mut out, '\\');
        } else if c == '\u{8}' {
            push_char(&mut out, '\\');
            push_char(&mut out, 'b');
        } else if c == '\u{c}' {
            push_char(&mut out, '\\');
            push_char(&mut out, 'f');
        } else if c == '\n' {
            push_char(&mut out, '\\');
            push_char(&mut out, 'n');
        } else if c == '\r' {
            push_char(&mut out, '\\');
            push_char(&mut out, 'r');
        } else if c == '\t' {
            push_char(&mut out, '\\');
            push_char(&mut out, 't');
        } else if (c as u32) < 32 {
            push_char(&mut out, '\\');
            push_char(&mut out, 'u');
            push_char(&mut out, '0');
            push_char(&mut out, '0');
            let x = c as u32;
            push_char(&mut out, hex_char((x / 16) as u8));
            push_char(&mut out, hex_char((x % 16) as u8));
        } else {
            push_char(&mut out, c);
        }
        proof {
            assert(out@ =~= esc(s@.take(i + 1)));
        }
        i = i + 1;
    }
    proof {
        assert(s@.take(n as int) =~= s@);
    }
    out
}

/// The fixed-point popularity written back as a decimal: integer part, then
/// the thousandths with trailing zeros trimmed (`950` gives `0.95`).
pub open spec fn pop_frac(f: nat) -> Seq<char> {
    if f % 10 == 0 {
        if (f / 10) % 10 == 0 {
            seq![dec_digit(f / 100)]
        } else {
            seq![dec_digit(f / 100), dec_digit((f / 10) % 10)]
        }
    } else {
        seq![dec_digit(f / 100), dec_digit((f / 10) % 10), dec_digit(f % 10)]
    }
}

pub open spec fn pop_mag(m: nat) -> Seq<char> {
    if m % 1000 == 0 {
        u64_dec(m / 1000)
    } else {
        u64_dec(m / 1000) + seq!['.'] + pop_frac(m % 1000)
    }
}

pub open spec fn pop_dec(m: int) -> Seq<char> {
    if m < 0 {
        seq!['-'] + pop_mag((-m) as nat)
    } else {
        pop_mag(m as nat)
    }
}

/// Renders a popularity held in thousandths as a decimal number.
pub fn pop_to_dec(m: i64) -> (r: String)
    ensures
        r@ == pop_dec(m as int),
{
    let mag: u64 = if m == i64::MIN {
        9223372036854775808u64
    } else if m < 0 {
        (-m) as u64
    } else {
        m as u64
    };
    proof {
        if m < 0 {
            assert(mag as nat == (-(m as int)) as nat);
        }
    }
    let mut out = String::new();
    if m < 0 {
        push_char(&mut out, '-');
    }
    let ip = u64_to_dec(mag / 1000);
    out.append(ip.as_str());
    let f = mag % 1000;
    if f != 0 {
        push_char(&mut out, '.');
        let d1 = (f / 100) as u8;
        let d2 = ((f / 10) % 10) as u8;
        let d3 = (f % 10) as u8;
        push_char(&mut out, (48u8 + d1) as char);
        if d3 != 0 {
            push_char(&mut out, (48u8 + d2) as char);
            push_char(&mut out, (48u8 + d3) as char);
        } else if d2 != 0 {
            push_char(&mut out, (48u8 + d2) as char);
        }
    }
    proof {
        assert(out@ =~= pop_dec(m as int));
    }
    out
}

/// The elements of the `tags` field, each a JSON string, joined with commas.
pub open spec fn tags_json_inner(ts: Seq<String>) -> Seq<char>
    decreases ts.len(),
{
    if ts.len() == 0 {
        Seq::empty()
    } else if ts.len() == 1 {
        quoted(ts[0]@)
    } else {
        tags_json_inner(ts.drop_last()) + seq![','] + quoted(ts.last()@)
    }
}

/// The JSON array of a post's tags.
pub open spec fn tags_json(ts: Seq<String>) -> Seq<char> {
    seq!['['] + tags_json_inner(ts) + seq![']']
}

fn render_tags(ts: &Vec<String>) -> (r: String)
    ensures
        r@ == tags_json(ts@),
{
    let mut out = String::new();
    push_char(&mut out, '[');
    let mut i: usize = 0;
    proof {
        assert(out@ =~= seq!['['] + tags_json_inner(ts@.take(0)));
    }
    while i < ts.len()
        invariant
            i <= ts@.len(),
            out@ == seq!['['] + tags_json_inner(ts@.take(i as int)),
        decreases ts@.len() - i,
    {
        proof {
            assert(ts@.take(i + 1).drop_last() =~= ts@.take(i as int));
            assert(ts@.take(i + 1).last() == ts@[i as int]);
        }
        if i > 0 {
            push_char(&mut out, ',');
        }
        push_char(&mut out, '"');
        let e = esc_str(ts[i].as_str());
        out.append(e.as_str());
        push_char(&mut out, '"');
        proof {
            assert(out@ =~= seq!['['] + tags_json_inner(ts@.take(i + 1)));
        }
        i = i + 1;
    }
    proof {
        assert(ts@.take(ts@.len() as int) =~= ts@);
    }
    push_char(&mut out, ']');
    proof {
        assert(out@ =~= tags_json(ts@));
    }
    out
}

/// The JSON object of one post, fields in their canonical order.
pub open spec fn post_json(p: Post) -> Seq<char> {
    "{\"id\":"@ + i64_dec(p.id as int) + ",\"author\":"@ + quoted(p.author@) + ",\"authorId\":"@
        + i64_dec(p.author_id as int) + ",\"likes\":"@ + i64_dec(p.likes as int)
        + ",\"popularity\":"@ + pop_dec(p.popularity as int) + ",\"reads\":"@ + i64_dec(
        p.reads as int,
    ) + ",\"tags\":"@ + tags_json(p.tags@) + "}"@
}

/// Renders one post as a JSON object.
pub fn render_post(p: &Post) -> (r: String)
    ensures
        r@ == post_json(*p),
{
    let mut out = String::new();
    out.append("{\"id\":");
    let d = i64_to_dec(p.id);
    out.append(d.as_str());
    out.append(",\"author\":");
    push_char(&mut out, '"');
    let e = esc_str(p.author.as_str());
    out.append(e.as_str());
    push_char(&mut out, '"');
    out.append(",\"authorId\":");
    let d = i64_to_dec(p.author_id);
    out.append(d.as_str());
    out.append(",\"likes\":");
    let d = i64_to_dec(p.likes);
    out.append(d.as_str());
    out.append(",\"popularity\":");
    let d = pop_to_dec(p.popularity);
    out.append(d.as_str());
    out.append(",\"reads\":");
    let d = i64_to_dec(p.reads);
    out.append(d.as_str());
    out.append(",\"tags\":");
    let t = render_tags(&p.tags);
    out.append(t.as_str());
    out.append("}");
    proof {
        assert(out@ =~= post_json(*p));
    }
    out
}

/// The JSON objects of the posts, joined with commas.
pub open spec fn posts_json_inner(ps: Seq<Post>) -> Seq<char>
    decreases ps.len(),
{
    if ps.len() == 0 {
        Seq::empty()
    } else if ps.len() == 1 {
        post_json(ps[0])
    } else {
        posts_json_inner(ps.drop_last()) + seq![','] + post_json(ps.last())
    }
}

/// The body of a successful aggregation reply.
pub open spec fn success_body(ps: Seq<Post>) -> Seq<char> {
    "{\"posts\":["@ + posts_json_inner(ps) + "]}"@
}

/// The body of a validation failure reply.
pub open spec fn error_body(msg: Seq<char>) -> Seq<char> {
    "{\"error\":"@ + quoted(msg) + "}"@
}

/// Renders the merged post list as the success reply body.
pub fn render_success(ps: &Vec<Post>) -> (r: String)
    ensures
        r@ == success_body(ps@),
{
    let mut out = String::new();
    out.append("{\"posts\":[");
    let mut i: usize = 0;
    proof {
        assert(out@ =~= "{\"posts\":["@ + posts_json_inner(ps@.take(0)));
    }
    while i < ps.len()
        invariant
            i <= ps@.len(),
            out@ == "{\"posts\":["@ + posts_json_inner(ps@.take(i as int)),
        decreases ps@.len() - i,
    {
        proof {
            assert(ps@.take(i + 1).drop_last() =~= ps@.take(i as int));
            assert(ps@.take(i + 1).last() == ps@[i as int]);
        }
        if i > 0 {
            push_char(&mut out, ',');
        }
        let pj = render_post(&ps[i]);
        out.append(pj.as_str());
        proof {
            assert(out@ =~= "{\"posts\":["@ + posts_json_inner(ps@.take(i + 1)));
        }
        i = i + 1;
    }
    proof {
        assert(ps@.take(ps@.len() as int) =~= ps@);
    }
    out.append("]}");
    proof {
        assert(out@ =~= success_body(ps@));
    }
    out
}

/// Renders a validation message as the client error reply body.
pub fn render_error(msg: &str) -> (r: String)
    ensures
        r@ == error_body(msg@),
{
    let mut out = String::new();
    out.append("{\"error\":");
    push_char(&mut out, '"');
    let e = esc_str(msg);
    out.append(e.as_str());
    push_char(&mut out, '"');
    out.append("}");
    proof {
        assert(out@ =~= error_body(msg@));
    }
    out
}

/// The body of an aggregation reply, success or validation failure.
pub open spec fn response_body(r: PostsResponse) -> Seq<char> {
    match r {
        PostsResponse::Error { error } => error_body(error@),
        PostsResponse::Success { posts } => success_body(posts@),
    }
}

/// Renders an aggregation reply body.
pub fn render_response(r: &PostsResponse) -> (s: String)
    ensures
        s@ == response_body(*r),
{
    match r {
        PostsResponse::Error { error } => render_error(error.as_str()),
        PostsResponse::Success { posts } => render_success(posts),
    }
}

/// The opaque body of an internal failure reply: detail stays on the server.
pub fn render_server_error() -> (r: String)
    ensures
        r@ == "{\"status\":\"error\",\"message\":\"Internal Server Error\"}"@,
{
    String::from_str("{\"status\":\"error\",\"message\":\"Internal Server Error\"}")
}

/// The body of the liveness probe reply.
pub fn render_ping() -> (r: String)
    ensures
        r@ == "{\"success\":true}"@,
{
    String::from_str("{\"success\":true}")
}

} // verus!
