//! Candidate URLs for fetching a feed through known provider instances.
use vstd::prelude::*;

use vstd::string::StringSliceAdditionalSpecFns;

use crate::outside::{parse_url, url_parse, UrlParts, UrlPartsView};
use crate::text::{
    chars_eq, chars_of, concat_chars, find, find_chars, has_prefix, nonempty_pieces,
    nonempty_pieces_chars, slice_chars, starts_with_chars, string_of, trim_end_char,
    trim_end_char_chars, lemma_trim_end_char_at, lemma_trim_end_char_append, lemma_pieces_lead,
    lemma_find_from_some, occurs_at,
};

verus! {

/// A registered instance of a feed provider (such as RSSHub).
pub struct FeedProviderInstance {
    pub id: u128,
    pub base_url: String,
    pub provider_type: String,
}

/// One attempt URL for fetching a feed via a known provider instance.
#[derive(Clone, Debug, PartialEq, Eq)]
pub struct ProviderCandidate {
    pub url: String,
    pub provider_type: String,
    /// `None` when the URL was supplied by the user and does not map to any
    /// known instance — we still try it, but skip success/failure recording.
    pub instance_id: Option<u128>,
}

/// A candidate as spec values.
pub struct CandidateView {
    pub url: Seq<char>,
    pub provider_type: Seq<char>,
    pub instance_id: Option<u128>,
}

impl View for ProviderCandidate {
    type V = CandidateView;

    open spec fn view(&self) -> CandidateView {
        CandidateView {
            url: self.url@,
            provider_type: self.provider_type@,
            instance_id: self.instance_id,
        }
    }
}

/// The candidate that `inst` offers for an RSSHub path.
pub open spec fn candidate_for(inst: FeedProviderInstance, rsshub_path: Seq<char>) -> CandidateView {
    CandidateView {
        url: trim_end_char(inst.base_url@, '/') + rsshub_path,
        provider_type: inst.provider_type@,
        instance_id: Some(inst.id),
    }
}

/// A candidate's URL is the instance's whole base URL, less only its
/// trailing `/` characters, followed by the RSSHub path.
pub proof fn lemma_candidate_url_keeps_the_whole_base(inst: FeedProviderInstance, rsshub_path: Seq<char>)
    ensures
        exists|n: int|
            0 <= n <= inst.base_url@.len() && candidate_for(inst, rsshub_path).url == #[trigger] inst.base_url@.take(n)
                + rsshub_path && (forall|k: int|
                n <= k < inst.base_url@.len() ==> #[trigger] inst.base_url@[k] == '/') && (n > 0
                ==> inst.base_url@[n - 1] != '/'),
        candidate_for(inst, rsshub_path).provider_type == inst.provider_type@,
        candidate_for(inst, rsshub_path).instance_id == Some(inst.id),
{
    let n = lemma_trim_end_char_at(inst.base_url@, '/');
    assert(inst.base_url@.subrange(0, n) =~= inst.base_url@.take(n));
}

/// The candidates of the RSSHub instances among `insts`, in order.
pub open spec fn rsshub_candidates(insts: Seq<FeedProviderInstance>, rsshub_path: Seq<char>) -> Seq<
    CandidateView,
>
    decreases insts.len(),
{
    if insts.len() == 0 {
        Seq::empty()
    } else {
        let r = rsshub_candidates(insts.drop_last(), rsshub_path);
        if insts.last().provider_type@ == "rsshub"@ {
            r.push(candidate_for(insts.last(), rsshub_path))
        } else {
            r
        }
    }
}

/// Build candidate YouTube RSSHub URLs for `rsshub_path`
/// (e.g. `/youtube/user/@JFlaMusic`). YouTube only flows through RSSHub today,
/// so non-rsshub instances are skipped silently.
pub fn youtube_candidates(rsshub_path: &str, instances: &[FeedProviderInstance]) -> (r: Vec<
    ProviderCandidate,
>)
    ensures
        r@.map_values(|c: ProviderCandidate| c@) == rsshub_candidates(instances@, rsshub_path@),
{
    let rsshub = chars_of("rsshub");
    let path = chars_of(rsshub_path);
    let mut out: Vec<ProviderCandidate> = Vec::new();
    let mut i: usize = 0;
    while i < instances.len()
        invariant
            i <= instances.len(),
            rsshub@ == "rsshub"@,
            path@ == rsshub_path@,
            out@.map_values(|c: ProviderCandidate| c@) == rsshub_candidates(
                instances@.take(i as int),
                rsshub_path@,
            ),
        decreases instances.len() - i,
    {
        let inst = &instances[i];
        assert(instances@.take(i + 1).drop_last() =~= instances@.take(i as int));
        assert(instances@.take(i + 1).last() == *inst);
        let ptype = chars_of(inst.provider_type.as_str());
        if chars_eq(&ptype, &rsshub) {
            let base = trim_end_char_chars(&chars_of(inst.base_url.as_str()), '/');
            let url = concat_chars(&base, &path);
            let c = ProviderCandidate {
                url: string_of(&url),
                provider_type: inst.provider_type.clone(),
                instance_id: Some(inst.id),
            };
            out.push(c);
        }
        assert(out@.map_values(|c: ProviderCandidate| c@) =~= rsshub_candidates(
            instances@.take(i + 1),
            rsshub_path@,
        ));
        i = i + 1;
    }
    assert(instances@.take(instances.len() as int) =~= instances@);
    out
}

/// Whether a URL path lies under a base path, at a path-segment boundary.
pub open spec fn path_under(base_path: Seq<char>, url_path: Seq<char>) -> bool {
    let bp = trim_end_char(base_path, '/');
    ||| bp.len() == 0
    ||| bp == "/"@
    ||| url_path == bp
    ||| (has_prefix(url_path, bp) && url_path.len() > bp.len() && url_path[bp.len() as int] == '/')
}

/// Whether a parsed URL belongs to an instance whose parsed base is `base`:
/// same origin (scheme, host, effective port) and a path under the base's.
pub open spec fn belongs_to(url: UrlPartsView, base: Option<UrlPartsView>) -> bool {
    match base {
        Some(b) => url.scheme == b.scheme && url.host == b.host && url.port == b.port && path_under(
            b.path,
            url.path,
        ),
        None => false,
    }
}

/// The byte length of a base's serialisation (as `str::len` reports it), by
/// which matches are ranked.
pub open spec fn base_rank(base: Option<UrlPartsView>) -> nat {
    match base {
        Some(b) => (vstd::utf8::encode_utf8(b.serialization).len() as usize) as nat,
        None => 0,
    }
}

/// The position of the matching base with the longest serialisation; of
/// several such, the last (as `Iterator::max_by_key` picks).
pub open spec fn best_match(url: UrlPartsView, bases: Seq<Option<UrlPartsView>>) -> Option<int>
    decreases bases.len(),
{
    if bases.len() == 0 {
        None
    } else {
        let best = best_match(url, bases.drop_last());
        let last = bases.len() - 1;
        if belongs_to(url, bases.last()) && (best is None || base_rank(bases[best->0]) <= base_rank(
            bases.last(),
        )) {
            Some(last)
        } else {
            best
        }
    }
}

proof fn lemma_best_match_bounds(url: UrlPartsView, bases: Seq<Option<UrlPartsView>>)
    ensures
        best_match(url, bases) matches Some(i) ==> 0 <= i < bases.len() && belongs_to(url, bases[i]),
    decreases bases.len(),
{
    if bases.len() > 0 {
        lemma_best_match_bounds(url, bases.drop_last());
    }
}

/// The parsed bases as spec values.
pub open spec fn views_of(bases: Seq<Option<UrlParts>>) -> Seq<Option<UrlPartsView>> {
    bases.map_values(
        |b: Option<UrlParts>|
            match b {
                Some(p) => Some(p@),
                None => None,
            },
    )
}

fn opt_string_eq(a: &Option<String>, b: &Option<String>) -> (r: bool)
    ensures
        r == ((match *a {
            Some(s) => Some(s@),
            None => None,
        }) == (match *b {
            Some(s) => Some(s@),
            None => None,
        })),
{
    match (a, b) {
        (Some(x), Some(y)) => *x == *y,
        (None, None) => true,
        _ => false,
    }
}

fn path_under_exec(base_path: &str, url_path: &str) -> (r: bool)
    ensures
        r == path_under(base_path@, url_path@),
{
    let bp = trim_end_char_chars(&chars_of(base_path), '/');
    let up = chars_of(url_path);
    if bp.len() == 0 || chars_eq(&bp, &chars_of("/")) || chars_eq(&up, &bp) {
        return true;
    }
    starts_with_chars(&up, &bp) && up.len() > bp.len() && up[bp.len()] == '/'
}

fn belongs_to_exec(url: &UrlParts, base: &Option<UrlParts>) -> (r: bool)
    ensures
        r == belongs_to(url@, match *base {
            Some(p) => Some(p@),
            None => None,
        }),
{
    match base {
        Some(b) => url.scheme == b.scheme && opt_string_eq(&url.host, &b.host) && url.port == b.port
            && path_under_exec(b.path.as_str(), url.path.as_str()),
        None => false,
    }
}

/// Among the parsed bases of the instances, the one to which the parsed URL
/// belongs with the longest serialisation (the last of several such).
pub fn best_instance_for_parsed_url(url: &UrlParts, bases: &Vec<Option<UrlParts>>) -> (r: Option<
    usize,
>)
    ensures
        r matches Some(i) ==> best_match(url@, views_of(bases@)) == Some(i as int),
        r is None ==> best_match(url@, views_of(bases@)) is None,
{
    let ghost vs = views_of(bases@);
    let mut best: Option<usize> = None;
    let mut best_len: usize = 0;
    let mut i: usize = 0;
    while i < bases.len()
        invariant
            i <= bases.len(),
            vs == views_of(bases@),
            best matches Some(k) ==> k < i && best_len == base_rank(vs[k as int]),
            (match best {
                Some(k) => Some(k as int),
                None => None,
            }) == best_match(url@, vs.take(i as int)),
        decreases bases.len() - i,
    {
        proof {
            let pre = vs.take(i + 1);
            assert(pre.drop_last() =~= vs.take(i as int));
            assert(pre.last() == vs[i as int]);
            lemma_best_match_bounds(url@, vs.take(i as int));
            match best {
                Some(k) => {
                    assert(pre[k as int] == vs[k as int]);
                },
                None => {},
            }
        }
        assert(vs[i as int] == (match bases@[i as int] {
            Some(p) => Some(p@),
            None => None,
        }));
        if belongs_to_exec(url, &bases[i]) {
            let len = match &bases[i] {
                Some(b) => {
                    let s = b.serialization.as_str();
                    assert(s.spec_bytes() == vstd::utf8::encode_utf8(s@));
                    s.len()
                },
                None => 0,
            };
            assert(len == base_rank(vs[i as int]));
            if best.is_none() || best_len <= len {
                best = Some(i);
                best_len = len;
            }
        }
        i = i + 1;
    }
    assert(vs.take(bases.len() as int) =~= vs);
    best
}

/// Find which provider instance a URL belongs to by origin + path-boundary match.
/// Among matching instances the longest base-url prefix wins so a more specific
/// `https://host/rss2` registration takes precedence over `https://host/rss`.
pub fn instance_for_url<'a>(instances: &'a [FeedProviderInstance], url: &str) -> (r: Option<
    &'a FeedProviderInstance,
>)
    ensures
        url_parse(url@) is None ==> r is None,
        url_parse(url@) matches Some(u) ==> {
            let bases = instances@.map_values(
                |inst: FeedProviderInstance| url_parse(trim_end_char(inst.base_url@, '/')),
            );
            match best_match(u, bases) {
                Some(i) => r == Some(&instances@[i]),
                None => r is None,
            }
        },
{
    let parsed = match parse_url(url) {
        Some(p) => p,
        None => return None,
    };
    let mut bases: Vec<Option<UrlParts>> = Vec::new();
    let mut i: usize = 0;
    while i < instances.len()
        invariant
            i <= instances.len(),
            bases@.len() == i,
            forall|j: int|
                0 <= j < i ==> views_of(bases@)[j] == url_parse(
                    trim_end_char(#[trigger] instances@[j].base_url@, '/'),
                ),
        decreases instances.len() - i,
    {
        let trimmed = string_of(&trim_end_char_chars(&chars_of(instances[i].base_url.as_str()), '/'));
        bases.push(parse_url(trimmed.as_str()));
        proof {
            assert(views_of(bases@)[i as int] == url_parse(
                trim_end_char(instances@[i as int].base_url@, '/'),
            ));
        }
        i = i + 1;
    }
    proof {
        let expect = instances@.map_values(
            |inst: FeedProviderInstance| url_parse(trim_end_char(inst.base_url@, '/')),
        );
        assert(views_of(bases@) =~= expect);
    }
    match best_instance_for_parsed_url(&parsed, &bases) {
        Some(k) => {
            proof {
                lemma_best_match_bounds(parsed@, views_of(bases@));
            }
            Some(&instances[k])
        },
        None => None,
    }
}

/// The RSSHub path that a canonical YouTube channel URL maps to.
pub open spec fn rsshub_path_of(youtube_url: Seq<char>) -> Option<Seq<char>> {
    let u = trim_end_char(youtube_url, '/');
    match find(u, "youtube.com"@) {
        Some(i) => {
            let segs = nonempty_pieces(u.skip(i + "youtube.com"@.len()), '/');
            if segs.len() >= 1 && has_prefix(segs[0], "@"@) {
                Some("/youtube/user/"@ + segs[0])
            } else if segs.len() >= 2 && segs[0] == "channel"@ {
                Some("/youtube/channel/"@ + segs[1])
            } else if segs.len() >= 2 && segs[0] == "user"@ {
                Some("/youtube/user/"@ + segs[1])
            } else if segs.len() >= 2 && segs[0] == "c"@ {
                Some("/youtube/c/"@ + segs[1])
            } else {
                None
            }
        },
        None => None,
    }
}

/// Recover the RSSHub path from a canonical YouTube URL like
/// `https://www.youtube.com/@JFlaMusic` or `https://www.youtube.com/channel/UC123`.
pub fn youtube_rsshub_path_from_canonical(youtube_url: &str) -> (r: Option<String>)
    ensures
        r matches Some(p) ==> rsshub_path_of(youtube_url@) == Some(p@),
        r is None ==> rsshub_path_of(youtube_url@) is None,
{
    let u = trim_end_char_chars(&chars_of(youtube_url), '/');
    let host = chars_of("youtube.com");
    let i = match find_chars(&u, &host) {
        Some(i) => i,
        None => return None,
    };
    proof {
        assert(i + host.len() <= u.len()) by {
            let k = i as int;
            assert(find(u@, host@) == Some(k));
            lemma_find_occurs(u@, host@, 0);
        }
    }
    let rest = slice_chars(&u, i + host.len(), u.len());
    assert(rest@ =~= u@.skip(i + "youtube.com"@.len()));
    let segs = nonempty_pieces_chars(&rest, '/');
    let ghost sv = nonempty_pieces(rest@, '/');
    if segs.len() >= 1 && starts_with_chars(&segs[0], &chars_of("@")) {
        return Some(string_of(&concat_chars(&chars_of("/youtube/user/"), &segs[0])));
    }
    if segs.len() >= 2 {
        let first = &segs[0];
        if chars_eq(first, &chars_of("channel")) {
            return Some(string_of(&concat_chars(&chars_of("/youtube/channel/"), &segs[1])));
        }
        if chars_eq(first, &chars_of("user")) {
            return Some(string_of(&concat_chars(&chars_of("/youtube/user/"), &segs[1])));
        }
        if chars_eq(first, &chars_of("c")) {
            return Some(string_of(&concat_chars(&chars_of("/youtube/c/"), &segs[1])));
        }
    }
    None
}

proof fn lemma_after_youtube_host(path: Seq<char>)
    ensures
        find("https://www.youtube.com"@ + path, "youtube.com"@) == Some(12int),
        ("https://www.youtube.com"@ + path).skip(12 + "youtube.com"@.len() as int) == path,
{
    reveal_strlit("https://www.youtube.com");
    reveal_strlit("youtube.com");
    let u = "https://www.youtube.com"@ + path;
    let pat = "youtube.com"@;
    assert(u.subrange(12, 23) =~= pat);
    assert forall|i: int| 0 <= i < 12 implies !occurs_at(u, pat, i) by {
        if occurs_at(u, pat, i) {
            assert(u.subrange(i, i + pat.len())[0] == pat[0]);
        }
    }
    lemma_find_from_some(u, pat, 0, 12);
    assert(u.skip(23) =~= path);
}

/// The RSSHub path of a canonical YouTube URL comes from the first two
/// non-empty path segments after `youtube.com`, whatever follows them:
/// `https://www.youtube.com/{channel,user,c}/ID…` gives
/// `/youtube/{channel,user,c}/ID`, and `https://www.youtube.com/@HANDLE…`
/// gives `/youtube/user/@HANDLE`.
pub proof fn lemma_rsshub_path_from_leading_segments(kind: Seq<char>, id: Seq<char>, rest: Seq<char>)
    requires
        id.len() > 0,
        forall|i: int| 0 <= i < id.len() ==> #[trigger] id[i] != '/',
        rest.len() == 0 || rest[0] == '/',
    ensures
        kind == "channel"@ ==> rsshub_path_of("https://www.youtube.com/"@ + kind + "/"@ + id + rest)
            == Some("/youtube/channel/"@ + id),
        kind == "user"@ ==> rsshub_path_of("https://www.youtube.com/"@ + kind + "/"@ + id + rest)
            == Some("/youtube/user/"@ + id),
        kind == "c"@ ==> rsshub_path_of("https://www.youtube.com/"@ + kind + "/"@ + id + rest)
            == Some("/youtube/c/"@ + id),
        has_prefix(id, "@"@) ==> rsshub_path_of("https://www.youtube.com/"@ + id + rest) == Some(
            "/youtube/user/"@ + id,
        ),
{
    reveal_strlit("https://www.youtube.com/");
    reveal_strlit("https://www.youtube.com");
    reveal_strlit("/");
    reveal_strlit("@");
    reveal_strlit("channel");
    reveal_strlit("user");
    reveal_strlit("c");
    reveal_strlit("youtube.com");
    let h = "https://www.youtube.com"@;
    let n = lemma_trim_end_char_at(rest, '/');
    let rest2 = trim_end_char(rest, '/');
    assert(rest2.len() == 0 || rest2[0] == '/') by {
        if n > 0 {
            assert(rest2[0] == rest[0]);
        }
    }
    // The handle form.
    let a1 = h + seq!['/'] + id;
    assert(a1.last() == id.last());
    assert("https://www.youtube.com/"@ + id + rest =~= a1 + rest);
    lemma_trim_end_char_append(a1, rest, '/');
    let path1 = seq!['/'] + id + rest2;
    assert(a1 + rest2 =~= h + path1);
    lemma_after_youtube_host(path1);
    lemma_pieces_lead(id, rest2, '/');
    assert((seq!['/'] + id + rest2).skip(0) =~= path1);
    // The kind forms.
    if kind == "channel"@ || kind == "user"@ || kind == "c"@ {
        assert(kind.len() > 0);
        assert forall|i: int| 0 <= i < kind.len() implies #[trigger] kind[i] != '/' by {}
        let a2 = h + seq!['/'] + kind + seq!['/'] + id;
        assert(a2.last() == id.last());
        assert("https://www.youtube.com/"@ + kind + "/"@ + id + rest =~= a2 + rest);
        lemma_trim_end_char_append(a2, rest, '/');
        let tail = seq!['/'] + id + rest2;
        let path2 = seq!['/'] + kind + tail;
        assert(a2 + rest2 =~= h + path2);
        lemma_after_youtube_host(path2);
        lemma_pieces_lead(kind, tail, '/');
        let segs = nonempty_pieces(path2, '/');
        assert(segs == seq![kind] + (seq![id] + nonempty_pieces(rest2, '/')));
        assert(segs[0] == kind);
        assert(segs[1] == id);
        assert(!has_prefix(segs[0], "@"@)) by {
            assert(segs[0].subrange(0, 1)[0] == kind[0]);
        }
    }
}

proof fn lemma_find_occurs(s: Seq<char>, pat: Seq<char>, from: int)
    ensures
        crate::text::find_from(s, pat, from) matches Some(k) ==> crate::text::occurs_at(s, pat, k),
    decreases s.len() + 1 - from,
{
    if !(from < 0 || from + pat.len() > s.len()) && !crate::text::occurs_at(s, pat, from) {
        lemma_find_occurs(s, pat, from + 1);
    }
}

} // verus!
