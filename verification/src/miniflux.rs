//! The rules of Miniflux synchronisation: which connection settings are
//! usable, which requests go out, which tags an entry carries and which
//! library entries a sync archives.
use vstd::prelude::*;

use crate::domain::{string_field, string_member, JsonValue};
use crate::tag_names::{insert_sorted, strictly_sorted, views};
use crate::text::{
    chars_of, concat_chars, decimal_i64_chars, decimal_int, has_prefix, lemma_decimal_int_injective,
    starts_with_chars,
    string_of, trim, trim_chars, trim_end_char, trim_end_char_chars,
};

verus! {

broadcast use vstd::std_specs::hash::group_hash_axioms;

/// The category of a Miniflux feed.
pub struct MinifluxFeedCategory {
    pub title: String,
}

/// The feed that a Miniflux entry belongs to.
pub struct MinifluxFeed {
    pub category: Option<MinifluxFeedCategory>,
}

/// One unread entry as Miniflux lists it.
pub struct MinifluxEntry {
    pub id: i32,
    pub title: String,
    pub url: String,
    pub tags: Option<Vec<String>>,
    pub feed: Option<MinifluxFeed>,
}

/// The body of Miniflux's entry listing.
pub struct MinifluxResponse {
    pub total: i32,
    pub entries: Vec<MinifluxEntry>,
}

/// The names that an entry offers as tags, before trimming: its feed's
/// category title, then its own tags.
pub open spec fn offered_names(e: MinifluxEntry) -> Seq<Seq<char>> {
    let category = match e.feed {
        Some(f) => match f.category {
            Some(c) => seq![c.title@],
            None => Seq::<Seq<char>>::empty(),
        },
        None => Seq::<Seq<char>>::empty(),
    };
    let tags = match e.tags {
        Some(t) => t@.map_values(|s: String| s@),
        None => Seq::<Seq<char>>::empty(),
    };
    category + tags
}

/// The trimmed, non-blank names among `names`.
pub open spec fn kept_names(names: Seq<Seq<char>>) -> Set<Seq<char>>
    decreases names.len(),
{
    if names.len() == 0 {
        Set::empty()
    } else if trim(names.last()).len() > 0 {
        kept_names(names.drop_last()).insert(trim(names.last()))
    } else {
        kept_names(names.drop_last())
    }
}

fn keep_name(out: &mut Vec<Vec<char>>, name: &String, Ghost(names): Ghost<Seq<Seq<char>>>)
    requires
        strictly_sorted(views(old(out)@)),
        names.len() > 0,
        names.last() == name@,
        views(old(out)@).to_set() == kept_names(names.drop_last()),
    ensures
        strictly_sorted(views(final(out)@)),
        views(final(out)@).to_set() == kept_names(names),
{
    let t = trim_chars(&chars_of(name.as_str()));
    if t.len() > 0 {
        insert_sorted(out, t);
    }
}

/// The names kept from the category of an entry's feed.
fn keep_category(e: &MinifluxEntry, out: &mut Vec<Vec<char>>) -> (n: Ghost<int>)
    requires
        old(out)@.len() == 0,
    ensures
        n@ == (match e.feed {
            Some(f) => match f.category {
                Some(_) => 1int,
                None => 0int,
            },
            None => 0int,
        }),
        strictly_sorted(views(final(out)@)),
        views(final(out)@).to_set() == kept_names(offered_names(*e).take(n@)),
{
    let ghost offered = offered_names(*e);
    assert(views(out@).to_set() =~= Set::<Seq<char>>::empty());
    assert(kept_names(offered.take(0)) == Set::<Seq<char>>::empty());
    match &e.feed {
        Some(f) => match &f.category {
            Some(c) => {
                proof {
                    assert(offered.take(1).drop_last() =~= offered.take(0));
                }
                keep_name(out, &c.title, Ghost(offered.take(1)));
                Ghost(1int)
            },
            None => Ghost(0int),
        },
        None => Ghost(0int),
    }
}

/// Converts character vectors to strings.
fn strings_of(v: &Vec<Vec<char>>) -> (r: Vec<String>)
    ensures
        r@.map_values(|s: String| s@) == views(v@),
{
    let mut r: Vec<String> = Vec::new();
    let mut k: usize = 0;
    while k < v.len()
        invariant
            k <= v.len(),
            r@.len() == k,
            r@.map_values(|s: String| s@) == views(v@).take(k as int),
        decreases v.len() - k,
    {
        let s = string_of(v[k].as_slice());
        assert(s@ == views(v@)[k as int]);
        let ghost prev = r@;
        r.push(s);
        proof {
            assert forall|j: int| 0 <= j < k implies r@.map_values(|s: String| s@)[j] == views(
                v@,
            ).take(k + 1)[j] && #[trigger] r@[j] == prev[j] by {
                assert(r@[j] == prev[j]);
                assert(prev.map_values(|s: String| s@)[j] == views(v@).take(k as int)[j]);
            }
        }
        k = k + 1;
        assert(r@.map_values(|s: String| s@) =~= views(v@).take(k as int));
    }
    assert(views(v@).take(v.len() as int) =~= views(v@));
    r
}

/// The tag names of an entry: its category title and tags, trimmed, without
/// blanks, sorted and without duplicates.
pub fn entry_tag_names(e: &MinifluxEntry) -> (r: Vec<String>)
    ensures
        strictly_sorted(r@.map_values(|s: String| s@)),
        r@.map_values(|s: String| s@).to_set() == kept_names(offered_names(*e)),
{
    let ghost offered = offered_names(*e);
    let mut out: Vec<Vec<char>> = Vec::new();
    let Ghost(category_len) = keep_category(e, &mut out);
    match &e.tags {
        Some(tags) => {
            let mut i: usize = 0;
            while i < tags.len()
                invariant
                    i <= tags.len(),
                    offered == offered_names(*e),
                    0 <= category_len <= 1,
                    offered.len() == category_len + tags@.len(),
                    forall|k: int|
                        0 <= k < tags@.len() ==> offered[category_len + k] == (
                        #[trigger] tags@[k])@,
                    strictly_sorted(views(out@)),
                    views(out@).to_set() == kept_names(offered.take(category_len + i)),
                decreases tags.len() - i,
            {
                assert(offered.take(category_len + i + 1).drop_last() =~= offered.take(
                    category_len + i,
                ));
                keep_name(&mut out, &tags[i], Ghost(offered.take(category_len + i + 1)));
                i = i + 1;
            }
            assert(offered.take(category_len + i) =~= offered);
        },
        None => {
            assert(offered.take(category_len) =~= offered);
        },
    }
    strings_of(&out)
}

/// What the connection settings say of the Miniflux endpoint.
pub enum EndpointCheck {
    /// The URL or the API key is missing or empty.
    Missing,
    /// The URL does not start with `http://` or `https://`.
    BadScheme,
    /// The endpoint can be called.
    Ready { url: String, api_key: String },
}

/// The text that the connection settings hold under `key`, or the empty text.
pub open spec fn config_text(config: JsonValue, key: Seq<char>) -> Seq<char> {
    match string_member(config, key) {
        Some(s) => s,
        None => Seq::empty(),
    }
}

/// Whether a Miniflux URL names an HTTP(S) endpoint.
pub open spec fn has_http_scheme(url: Seq<char>) -> bool {
    has_prefix(url, "http://"@) || has_prefix(url, "https://"@)
}

/// Reads the Miniflux URL and API key from the connection settings and checks
/// them: both must be present and non-empty, and the URL must be HTTP(S).
pub fn check_endpoint(config: &JsonValue) -> (r: EndpointCheck)
    ensures
        (config_text(*config, "url"@).len() == 0 || config_text(*config, "api_key"@).len() == 0)
            <==> r is Missing,
        r is BadScheme <==> (config_text(*config, "url"@).len() > 0 && config_text(
            *config,
            "api_key"@,
        ).len() > 0 && !has_http_scheme(config_text(*config, "url"@))),
        r matches EndpointCheck::Ready { url, api_key } ==> url@ == config_text(*config, "url"@)
            && api_key@ == config_text(*config, "api_key"@),
{
    let url = match string_field(config, "url") {
        Some(s) => s,
        None => String::new(),
    };
    let api_key = match string_field(config, "api_key") {
        Some(s) => s,
        None => String::new(),
    };
    if url.as_str().is_empty() || api_key.as_str().is_empty() {
        return EndpointCheck::Missing;
    }
    let u = chars_of(url.as_str());
    if !starts_with_chars(&u, &chars_of("http://")) && !starts_with_chars(&u, &chars_of("https://")) {
        return EndpointCheck::BadScheme;
    }
    EndpointCheck::Ready { url, api_key }
}

/// The URL that lists a Miniflux instance's unread entries.
pub open spec fn unread_entries_url(base: Seq<char>) -> Seq<char> {
    trim_end_char(base, '/') + "/v1/entries?status=unread&limit=10000"@
}

/// The URL that updates the status of Miniflux entries.
pub open spec fn entries_url(base: Seq<char>) -> Seq<char> {
    trim_end_char(base, '/') + "/v1/entries"@
}

/// Builds the URL that lists a Miniflux instance's unread entries.
pub fn unread_entries_request_url(base: &str) -> (r: String)
    ensures
        r@ == unread_entries_url(base@),
{
    let b = trim_end_char_chars(&chars_of(base), '/');
    string_of(&concat_chars(&b, &chars_of("/v1/entries?status=unread&limit=10000")))
}

/// Builds the URL that updates the status of Miniflux entries.
pub fn entries_request_url(base: &str) -> (r: String)
    ensures
        r@ == entries_url(base@),
{
    let b = trim_end_char_chars(&chars_of(base), '/');
    string_of(&concat_chars(&b, &chars_of("/v1/entries")))
}

/// Whether an HTTP status code is a success (`2xx`).
pub fn is_success_status(code: u16) -> (b: bool)
    ensures
        b == (200 <= code <= 299),
{
    200 <= code && code <= 299
}

/// The key from which a Miniflux entry's library origin is derived.
pub open spec fn origin_key(id: i32) -> Seq<char> {
    "miniflux:"@ + decimal_int(id as int)
}

/// Distinct Miniflux entries have distinct origin keys, so the library's
/// duplicate check never takes one entry for another.
pub proof fn lemma_origin_keys_distinct(a: i32, b: i32)
    requires
        a != b,
    ensures
        origin_key(a) != origin_key(b),
{
    if origin_key(a) == origin_key(b) {
        let n = "miniflux:"@.len() as int;
        assert(origin_key(a).skip(n) =~= decimal_int(a as int));
        assert(origin_key(b).skip(n) =~= decimal_int(b as int));
        lemma_decimal_int_injective(a as int, b as int);
    }
}

/// Builds the key from which a Miniflux entry's library origin is derived.
pub fn entry_origin_key(id: i32) -> (r: String)
    ensures
        r@ == origin_key(id),
{
    string_of(&concat_chars(&chars_of("miniflux:"), &decimal_i64_chars(id as i64)))
}

/// A library entry that came from Miniflux and is still in the inbox or
/// saved for later.
pub struct MappedEntry {
    pub library_entry_id: u128,
    pub miniflux_id: i32,
}

/// Whether Miniflux still lists `id` as unread.
pub open spec fn listed_unread(entries: Seq<MinifluxEntry>, id: i32) -> bool {
    exists|i: int| 0 <= i < entries.len() && #[trigger] entries[i].id == id
}

/// The mapped library entries whose Miniflux entry is no longer unread, in order.
pub open spec fn stale_entries(mapped: Seq<MappedEntry>, entries: Seq<MinifluxEntry>) -> Seq<u128>
    decreases mapped.len(),
{
    if mapped.len() == 0 {
        Seq::empty()
    } else {
        let r = stale_entries(mapped.drop_last(), entries);
        if listed_unread(entries, mapped.last().miniflux_id) {
            r
        } else {
            r.push(mapped.last().library_entry_id)
        }
    }
}

/// The mapped library entries to archive: those whose Miniflux entry is no
/// longer among the unread ones.
pub fn stale_library_entries(mapped: &[MappedEntry], entries: &[MinifluxEntry]) -> (r: Vec<u128>)
    ensures
        r@ == stale_entries(mapped@, entries@),
{
    let mut unread: std::collections::HashSet<i32> = std::collections::HashSet::new();
    let mut i: usize = 0;
    while i < entries.len()
        invariant
            i <= entries.len(),
            forall|id: i32| unread@.contains(id) <==> listed_unread(entries@.take(i as int), id),
        decreases entries.len() - i,
    {
        let id = entries[i].id;
        unread.insert(id);
        proof {
            assert forall|x: i32| unread@.contains(x) <==> listed_unread(
                entries@.take(i + 1),
                x,
            ) by {
                if listed_unread(entries@.take(i + 1), x) && x != id {
                    let k = choose|k: int| 0 <= k < i + 1 && #[trigger] entries@.take(i + 1)[k].id == x;
                    assert(entries@.take(i as int)[k].id == x);
                }
                if listed_unread(entries@.take(i as int), x) {
                    let k = choose|k: int| 0 <= k < i && #[trigger] entries@.take(i as int)[k].id == x;
                    assert(entries@.take(i + 1)[k].id == x);
                }
                if x == id {
                    assert(entries@.take(i + 1)[i as int].id == x);
                }
            }
        }
        i = i + 1;
    }
    assert(entries@.take(entries.len() as int) =~= entries@);
    let mut out: Vec<u128> = Vec::new();
    let mut j: usize = 0;
    while j < mapped.len()
        invariant
            j <= mapped.len(),
            forall|id: i32| unread@.contains(id) <==> listed_unread(entries@, id),
            out@ == stale_entries(mapped@.take(j as int), entries@),
        decreases mapped.len() - j,
    {
        assert(mapped@.take(j + 1).drop_last() =~= mapped@.take(j as int));
        if !unread.contains(&mapped[j].miniflux_id) {
            out.push(mapped[j].library_entry_id);
        }
        j = j + 1;
    }
    assert(mapped@.take(mapped.len() as int) =~= mapped@);
    out
}

/// A sync archives exactly the mapped library entries whose Miniflux entry
/// is no longer listed as unread: never one that is still unread, and none
/// that is not.
pub proof fn lemma_stale_entries_exact(mapped: Seq<MappedEntry>, entries: Seq<MinifluxEntry>, x: u128)
    ensures
        stale_entries(mapped, entries).contains(x) <==> exists|i: int|
            0 <= i < mapped.len() && (#[trigger] mapped[i]).library_entry_id == x && !listed_unread(
                entries,
                mapped[i].miniflux_id,
            ),
    decreases mapped.len(),
{
    if mapped.len() > 0 {
        let init = mapped.drop_last();
        lemma_stale_entries_exact(init, entries, x);
        let r = stale_entries(init, entries);
        if stale_entries(mapped, entries).contains(x) {
            if r.contains(x) {
                let i = choose|i: int|
                    0 <= i < init.len() && (#[trigger] init[i]).library_entry_id == x && !listed_unread(
                        entries,
                        init[i].miniflux_id,
                    );
                assert(mapped[i] == init[i]);
            } else {
                let k = choose|k: int| 0 <= k < stale_entries(mapped, entries).len() && stale_entries(mapped, entries)[k] == x;
                assert(k == r.len());
                assert(mapped[mapped.len() - 1] == mapped.last());
            }
        }
        if exists|i: int|
            0 <= i < mapped.len() && (#[trigger] mapped[i]).library_entry_id == x && !listed_unread(
                entries,
                mapped[i].miniflux_id,
            ) {
            let i = choose|i: int|
                0 <= i < mapped.len() && (#[trigger] mapped[i]).library_entry_id == x && !listed_unread(
                    entries,
                    mapped[i].miniflux_id,
                );
            if i < mapped.len() - 1 {
                assert(init[i] == mapped[i]);
                let k = choose|k: int| 0 <= k < r.len() && r[k] == x;
                if !listed_unread(entries, mapped.last().miniflux_id) {
                    assert(r.push(mapped.last().library_entry_id)[k] == x);
                }
            } else {
                assert(r.push(mapped.last().library_entry_id)[r.len() as int] == x);
            }
        }
    }
}

} // verus!
