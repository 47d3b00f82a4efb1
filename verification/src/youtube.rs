//! Recognition of YouTube video URLs and extraction of their video ID.
//!
//! Recognised forms (over `http` or `https`):
//! - `www.youtube.com`, `m.youtube.com`, `music.youtube.com`, `youtube.com`
//!   with `/watch?...v=ID...` or `/shorts/ID...`
//! - `youtu.be/ID...`
//!
//! The ID runs up to the next `/`, `?`, `&` or `#` and must be a non-empty
//! run of ASCII letters, digits, `-` and `_`.
use vstd::prelude::*;

use crate::text::{
    chars_eq, chars_of, has_prefix, lemma_split_on_without_sep, nonempty_pieces,
    nonempty_pieces_chars, slice_chars, split_on, starts_with_chars, string_of,
};

verus! {

/// Where a span of a URL ends.
pub enum Stop {
    /// The end of a video ID: `/`, `?`, `&` or `#`.
    Token,
    /// The end of the authority: `/`, `?` or `#`.
    Authority,
    /// The start of the fragment: `#`.
    Fragment,
}

pub open spec fn is_stop(kind: Stop, c: char) -> bool {
    match kind {
        Stop::Token => c == '/' || c == '?' || c == '&' || c == '#',
        Stop::Authority => c == '/' || c == '?' || c == '#',
        Stop::Fragment => c == '#',
    }
}

/// The length of the longest prefix of `s` free of `kind`'s stop characters.
pub open spec fn span_len(s: Seq<char>, kind: Stop) -> nat
    decreases s.len(),
{
    if s.len() == 0 || is_stop(kind, s[0]) {
        0
    } else {
        1 + span_len(s.drop_first(), kind)
    }
}

/// A character allowed in a video ID.
pub open spec fn is_id_char(c: char) -> bool {
    ||| ('a' <= c && c <= 'z')
    ||| ('A' <= c && c <= 'Z')
    ||| ('0' <= c && c <= '9')
    ||| c == '-'
    ||| c == '_'
}

/// The video ID at the start of `s`, if it is a well-formed one.
pub open spec fn id_at(s: Seq<char>) -> Option<Seq<char>> {
    let id = s.take(span_len(s, Stop::Token) as int);
    if id.len() > 0 && forall|i: int| 0 <= i < id.len() ==> is_id_char(#[trigger] id[i]) {
        Some(id)
    } else {
        None
    }
}

/// The URL after its `https://` or `http://` scheme.
pub open spec fn after_scheme(u: Seq<char>) -> Option<Seq<char>> {
    if has_prefix(u, "https://"@) {
        Some(u.skip("https://"@.len() as int))
    } else if has_prefix(u, "http://"@) {
        Some(u.skip("http://"@.len() as int))
    } else {
        None
    }
}

/// A host that serves `/watch` and `/shorts` pages.
pub open spec fn is_youtube_host(h: Seq<char>) -> bool {
    h == "youtube.com"@ || h == "www.youtube.com"@ || h == "m.youtube.com"@ || h
        == "music.youtube.com"@
}

/// The first piece that starts with `p`.
pub open spec fn first_with_prefix(pieces: Seq<Seq<char>>, p: Seq<char>) -> Option<Seq<char>>
    decreases pieces.len(),
{
    if pieces.len() == 0 {
        None
    } else if has_prefix(pieces[0], p) {
        Some(pieces[0])
    } else {
        first_with_prefix(pieces.drop_first(), p)
    }
}

/// The video ID named by the first `v` parameter of a query string.
pub open spec fn watch_query_id(query: Seq<char>) -> Option<Seq<char>> {
    let q = query.take(span_len(query, Stop::Fragment) as int);
    match first_with_prefix(nonempty_pieces(q, '&'), "v="@) {
        Some(param) => id_at(param.skip("v="@.len() as int)),
        None => None,
    }
}

/// The video ID of a path on one of the `youtube.com` hosts.
pub open spec fn youtube_path_id(path: Seq<char>) -> Option<Seq<char>> {
    if has_prefix(path, "/watch?"@) {
        watch_query_id(path.skip("/watch?"@.len() as int))
    } else if has_prefix(path, "/shorts/"@) {
        id_at(path.skip("/shorts/"@.len() as int))
    } else {
        None
    }
}

/// The stable video ID of a supported YouTube URL.
pub open spec fn youtube_video_id_of(u: Seq<char>) -> Option<Seq<char>> {
    match after_scheme(u) {
        Some(rest) => {
            let n = span_len(rest, Stop::Authority) as int;
            let host = rest.take(n);
            let path = rest.skip(n);
            if host == "youtu.be"@ {
                if has_prefix(path, "/"@) {
                    id_at(path.skip("/"@.len() as int))
                } else {
                    None
                }
            } else if is_youtube_host(host) {
                youtube_path_id(path)
            } else {
                None
            }
        },
        None => None,
    }
}

fn is_stop_char(kind: &Stop, c: char) -> (b: bool)
    ensures
        b == is_stop(*kind, c),
{
    match kind {
        Stop::Token => c == '/' || c == '?' || c == '&' || c == '#',
        Stop::Authority => c == '/' || c == '?' || c == '#',
        Stop::Fragment => c == '#',
    }
}

proof fn lemma_span_len(s: Seq<char>, kind: Stop, i: int)
    requires
        0 <= i <= s.len(),
        forall|j: int| 0 <= j < i ==> !is_stop(kind, #[trigger] s[j]),
        i == s.len() || is_stop(kind, s[i]),
    ensures
        span_len(s, kind) == i,
    decreases i,
{
    if i > 0 {
        lemma_span_len(s.drop_first(), kind, i - 1);
    }
}

/// The length of the longest prefix of `v` free of `kind`'s stop characters.
fn span_len_chars(v: &[char], kind: &Stop) -> (n: usize)
    ensures
        n == span_len(v@, *kind),
        n <= v@.len(),
{
    let mut i: usize = 0;
    while i < v.len() && !is_stop_char(kind, v[i])
        invariant
            i <= v.len(),
            forall|j: int| 0 <= j < i ==> !is_stop(*kind, #[trigger] v@[j]),
        decreases v.len() - i,
    {
        i = i + 1;
    }
    proof {
        lemma_span_len(v@, *kind, i as int);
    }
    i
}

fn is_id_character(c: char) -> (b: bool)
    ensures
        b == is_id_char(c),
{
    ('a' <= c && c <= 'z') || ('A' <= c && c <= 'Z') || ('0' <= c && c <= '9') || c == '-' || c
        == '_'
}

/// The video ID at the start of `v`, if it is a well-formed one.
fn id_at_chars(v: &[char]) -> (r: Option<Vec<char>>)
    ensures
        r matches Some(id) ==> id_at(v@) == Some(id@),
        r is None ==> id_at(v@) is None,
{
    let n = span_len_chars(v, &Stop::Token);
    let id = slice_chars(v, 0, n);
    assert(id@ =~= v@.take(n as int));
    if id.len() == 0 {
        return None;
    }
    let mut i: usize = 0;
    while i < id.len()
        invariant
            i <= id.len(),
            id@ == v@.take(span_len(v@, Stop::Token) as int),
            forall|j: int| 0 <= j < i ==> is_id_char(#[trigger] id@[j]),
        decreases id.len() - i,
    {
        if !is_id_character(id[i]) {
            assert(!is_id_char(id@[i as int]));
            return None;
        }
        i = i + 1;
    }
    Some(id)
}

/// The first piece that starts with `p`.
fn first_with_prefix_chars(pieces: &Vec<Vec<char>>, p: &[char]) -> (r: Option<usize>)
    ensures
        r matches Some(k) ==> k < pieces@.len() && has_prefix(pieces@[k as int]@, p@)
            && first_with_prefix(
            pieces@.map_values(|x: Vec<char>| x@),
            p@,
        ) == Some(pieces@[k as int]@),
        r is None ==> first_with_prefix(pieces@.map_values(|x: Vec<char>| x@), p@) is None,
{
    let ghost all = pieces@.map_values(|x: Vec<char>| x@);
    let mut i: usize = 0;
    assert(all.skip(0) =~= all);
    while i < pieces.len()
        invariant
            i <= pieces.len(),
            all == pieces@.map_values(|x: Vec<char>| x@),
            first_with_prefix(all, p@) == first_with_prefix(all.skip(i as int), p@),
        decreases pieces.len() - i,
    {
        assert(all.skip(i as int)[0] == pieces@[i as int]@);
        if starts_with_chars(&pieces[i], p) {
            return Some(i);
        }
        assert(all.skip(i as int).drop_first() =~= all.skip(i + 1));
        i = i + 1;
    }
    None
}

/// The stable video ID of a supported YouTube URL.
pub fn youtube_video_id(url: &str) -> (r: Option<String>)
    ensures
        r matches Some(id) ==> youtube_video_id_of(url@) == Some(id@),
        r is None ==> youtube_video_id_of(url@) is None,
{
    let u = chars_of(url);
    let https = chars_of("https://");
    let http = chars_of("http://");
    let rest = if starts_with_chars(&u, &https) {
        slice_chars(&u, https.len(), u.len())
    } else if starts_with_chars(&u, &http) {
        slice_chars(&u, http.len(), u.len())
    } else {
        return None;
    };
    assert(after_scheme(url@) == Some(rest@));
    let n = span_len_chars(&rest, &Stop::Authority);
    let host = slice_chars(&rest, 0, n);
    let path = slice_chars(&rest, n, rest.len());
    assert(host@ =~= rest@.take(n as int));
    assert(path@ =~= rest@.skip(n as int));
    let id = if chars_eq(&host, &chars_of("youtu.be")) {
        let slash = chars_of("/");
        if starts_with_chars(&path, &slash) {
            let after = slice_chars(&path, slash.len(), path.len());
            assert(after@ =~= path@.skip("/"@.len() as int));
            id_at_chars(&after)
        } else {
            None
        }
    } else if chars_eq(&host, &chars_of("youtube.com")) || chars_eq(&host, &chars_of("www.youtube.com"))
        || chars_eq(&host, &chars_of("m.youtube.com")) || chars_eq(
        &host,
        &chars_of("music.youtube.com"),
    ) {
        youtube_path_id_chars(&path)
    } else {
        None
    };
    match id {
        Some(id) => Some(string_of(&id)),
        None => None,
    }
}

fn youtube_path_id_chars(path: &[char]) -> (r: Option<Vec<char>>)
    ensures
        r matches Some(id) ==> youtube_path_id(path@) == Some(id@),
        r is None ==> youtube_path_id(path@) is None,
{
    let watch = chars_of("/watch?");
    let shorts = chars_of("/shorts/");
    if starts_with_chars(path, &watch) {
        let query = slice_chars(path, watch.len(), path.len());
        assert(query@ =~= path@.skip("/watch?"@.len() as int));
        let n = span_len_chars(&query, &Stop::Fragment);
        let q = slice_chars(&query, 0, n);
        assert(q@ =~= query@.take(n as int));
        let pieces = nonempty_pieces_chars(&q, '&');
        assert(pieces@.map_values(|x: Vec<char>| x@) =~= nonempty_pieces(q@, '&'));
        let vp = chars_of("v=");
        match first_with_prefix_chars(&pieces, &vp) {
            Some(k) => {
                let param = &pieces[k];
                let after = slice_chars(param, vp.len(), param.len());
                assert(after@ =~= param@.skip("v="@.len() as int));
                id_at_chars(&after)
            },
            None => None,
        }
    } else if starts_with_chars(path, &shorts) {
        let after = slice_chars(path, shorts.len(), path.len());
        assert(after@ =~= path@.skip("/shorts/"@.len() as int));
        id_at_chars(&after)
    } else {
        None
    }
}

/// A well-formed ID is read back whole.
proof fn lemma_id_at_whole(id: Seq<char>)
    requires
        id.len() > 0,
        forall|i: int| 0 <= i < id.len() ==> is_id_char(#[trigger] id[i]),
    ensures
        id_at(id) == Some(id),
{
    assert forall|j: int| 0 <= j < id.len() implies !is_stop(Stop::Token, #[trigger] id[j]) by {
        assert(is_id_char(id[j]));
    }
    lemma_span_len(id, Stop::Token, id.len() as int);
    assert(id.take(id.len() as int) =~= id);
}

/// The query `v=ID` names the video ID.
proof fn lemma_watch_query(id: Seq<char>)
    requires
        id.len() > 0,
        forall|i: int| 0 <= i < id.len() ==> is_id_char(#[trigger] id[i]),
    ensures
        watch_query_id("v="@ + id) == Some(id),
{
    reveal_strlit("v=");
    let query = "v="@ + id;
    assert forall|j: int| 0 <= j < query.len() implies !is_stop(Stop::Fragment, #[trigger] query[j])
        && query[j] != '&' by {
        if j >= 2 {
            assert(query[j] == id[j - 2]);
            assert(is_id_char(id[j - 2]));
        }
    }
    lemma_span_len(query, Stop::Fragment, query.len() as int);
    let q = query.take(query.len() as int);
    assert(q =~= query);
    lemma_split_on_without_sep(q, '&');
    let pred = |x: Seq<char>| x.len() > 0;
    Seq::<Seq<char>>::empty().lemma_filter_push(q, pred);
    assert(Seq::<Seq<char>>::empty().push(q) =~= seq![q]);
    assert(Seq::<Seq<char>>::empty().filter(pred) =~= Seq::<Seq<char>>::empty());
    assert(nonempty_pieces(q, '&') =~= seq![q]);
    assert(q.subrange(0, 2) =~= "v="@);
    assert(first_with_prefix(seq![q], "v="@) == Some(q));
    assert(q.skip(2) =~= id);
    lemma_id_at_whole(id);
}

/// An `https` URL on `host` with `path` splits into that host and path.
proof fn lemma_split_url(host: Seq<char>, path: Seq<char>)
    requires
        forall|i: int| 0 <= i < host.len() ==> !is_stop(Stop::Authority, #[trigger] host[i]),
        path.len() > 0,
        path[0] == '/',
    ensures
        after_scheme("https://"@ + host + path) == Some(host + path),
        span_len(host + path, Stop::Authority) == host.len(),
        (host + path).take(host.len() as int) == host,
        (host + path).skip(host.len() as int) == path,
{
    reveal_strlit("https://");
    let u = "https://"@ + host + path;
    assert(u.subrange(0, 8) =~= "https://"@);
    assert(u.skip(8) =~= host + path);
    let rest = host + path;
    assert forall|j: int| 0 <= j < host.len() implies !is_stop(Stop::Authority, #[trigger] rest[j]) by {
        assert(rest[j] == host[j]);
    }
    assert(rest[host.len() as int] == path[0]);
    lemma_span_len(rest, Stop::Authority, host.len() as int);
    assert(rest.take(host.len() as int) =~= host);
    assert(rest.skip(host.len() as int) =~= path);
}

/// The forms that the library recognises yield their video ID: for a
/// well-formed ID, `https://{www.,m.,music.,}youtube.com/watch?v=ID`,
/// `https://youtube.com/shorts/ID` and `https://youtu.be/ID`.
pub proof fn lemma_recognised_forms_yield_their_id(id: Seq<char>)
    requires
        id.len() > 0,
        forall|i: int| 0 <= i < id.len() ==> is_id_char(#[trigger] id[i]),
    ensures
        youtube_video_id_of("https://"@ + "www.youtube.com"@ + ("/watch?v="@ + id)) == Some(id),
        youtube_video_id_of("https://"@ + "m.youtube.com"@ + ("/watch?v="@ + id)) == Some(id),
        youtube_video_id_of("https://"@ + "music.youtube.com"@ + ("/watch?v="@ + id)) == Some(id),
        youtube_video_id_of("https://"@ + "youtube.com"@ + ("/watch?v="@ + id)) == Some(id),
        youtube_video_id_of("https://"@ + "youtube.com"@ + ("/shorts/"@ + id)) == Some(id),
        youtube_video_id_of("https://"@ + "youtu.be"@ + ("/"@ + id)) == Some(id),
{
    reveal_strlit("www.youtube.com");
    reveal_strlit("m.youtube.com");
    reveal_strlit("music.youtube.com");
    reveal_strlit("youtube.com");
    reveal_strlit("youtu.be");
    reveal_strlit("/watch?v=");
    reveal_strlit("/watch?");
    reveal_strlit("/shorts/");
    reveal_strlit("/");
    let watch = "/watch?v="@ + id;
    assert(watch.subrange(0, 7) =~= "/watch?"@);
    assert(watch.skip(7) =~= "v="@ + id) by {
        reveal_strlit("v=");
    }
    lemma_watch_query(id);
    assert(watch[0] == '/');
    let hosts = seq!["www.youtube.com"@, "m.youtube.com"@, "music.youtube.com"@, "youtube.com"@];
    assert forall|k: int| 0 <= k < 4 implies youtube_video_id_of("https://"@ + #[trigger] hosts[k] + watch) == Some(id) by {
        let h = hosts[k];
        assert forall|i: int| 0 <= i < h.len() implies !is_stop(Stop::Authority, #[trigger] h[i]) by {
        }
        lemma_split_url(h, watch);
        assert(h.len() != "youtu.be"@.len());
        assert(is_youtube_host(h));
    }
    assert(hosts[0] == "www.youtube.com"@);
    assert(hosts[1] == "m.youtube.com"@);
    assert(hosts[2] == "music.youtube.com"@);
    assert(hosts[3] == "youtube.com"@);
    let shorts = "/shorts/"@ + id;
    assert(shorts.subrange(0, 8) =~= "/shorts/"@);
    assert(!has_prefix(shorts, "/watch?"@)) by {
        assert(shorts[1] != "/watch?"@[1]);
        assert(shorts.subrange(0, 7)[1] == shorts[1]);
    }
    assert(shorts.skip(8) =~= id);
    lemma_id_at_whole(id);
    assert forall|i: int| 0 <= i < "youtube.com"@.len() implies !is_stop(Stop::Authority, #[trigger] "youtube.com"@[i]) by {
    }
    lemma_split_url("youtube.com"@, shorts);
    assert("youtube.com"@.len() != "youtu.be"@.len());
    let short = "/"@ + id;
    assert(short.subrange(0, 1) =~= "/"@);
    assert(short.skip(1) =~= id);
    assert forall|i: int| 0 <= i < "youtu.be"@.len() implies !is_stop(Stop::Authority, #[trigger] "youtu.be"@[i]) by {
    }
    lemma_split_url("youtu.be"@, short);
}

} // verus!
