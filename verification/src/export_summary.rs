//! Summaries of documents for exports.
use vstd::prelude::*;

use std::collections::HashMap;

use crate::error::AppError;
use crate::text::{chars_of, is_ws, lemma_trim_idempotent, lemma_trim_span, string_of, trim, trim_chars};

verus! {

broadcast use vstd::std_specs::hash::group_hash_axioms;

/// A document to summarise, with the excerpt that it was stored with.
pub struct DocumentSummarySource {
    pub document_id: u128,
    pub excerpt: Option<String>,
}

/// An optional text, as a spec value.
pub open spec fn opt_text(v: Option<String>) -> Option<Seq<char>> {
    match v {
        Some(s) => Some(s@),
        None => None,
    }
}

/// The summary stored for an excerpt: the excerpt without surrounding white
/// space, unless nothing else is left.
pub open spec fn normalized(excerpt: Option<Seq<char>>) -> Option<Seq<char>> {
    match excerpt {
        Some(s) => if trim(s).len() > 0 {
            Some(trim(s))
        } else {
            None
        },
        None => None,
    }
}

/// Normalising a summary again changes nothing.
pub proof fn lemma_normalized_idempotent(excerpt: Option<Seq<char>>)
    ensures
        normalized(normalized(excerpt)) == normalized(excerpt),
{
    if let Some(s) = excerpt {
        lemma_trim_idempotent(s);
    }
}

/// An excerpt loses its summary exactly when it is all white space (or
/// absent); otherwise the summary is the excerpt from its first to its last
/// character that is not white space, whatever lies between (line breaks
/// included).
pub proof fn lemma_summary_is_the_trimmed_excerpt(s: Seq<char>)
    ensures
        normalized(None) is None,
        normalized(Some(s)) is None <==> forall|k: int| 0 <= k < s.len() ==> is_ws(#[trigger] s[k]),
        normalized(Some(s)) matches Some(t) ==> exists|i: int, j: int|
            0 <= i < j <= s.len() && t == #[trigger] s.subrange(i, j) && !is_ws(s[i]) && !is_ws(
                s[j - 1],
            ) && (forall|k: int| 0 <= k < i ==> is_ws(#[trigger] s[k])) && (forall|k: int|
                j <= k < s.len() ==> is_ws(#[trigger] s[k])),
{
    let (i, j) = lemma_trim_span(s);
    if trim(s).len() > 0 {
        assert(s.subrange(i, j) == trim(s));
    }
}

fn normalized_summary(value: Option<&str>) -> (r: Option<String>)
    ensures
        opt_text(r) == normalized(match value {
            Some(s) => Some(s@),
            None => None,
        }),
{
    match value {
        Some(s) => {
            let t = trim_chars(&chars_of(s));
            if t.len() > 0 {
                Some(string_of(&t))
            } else {
                None
            }
        },
        None => None,
    }
}

/// The stored summaries of the sources, by document; of several sources of
/// one document, the last one counts.
pub open spec fn stored_summaries(sources: Seq<DocumentSummarySource>) -> Map<u128, Option<Seq<char>>>
    decreases sources.len(),
{
    if sources.len() == 0 {
        Map::empty()
    } else {
        stored_summaries(sources.drop_last()).insert(
            sources.last().document_id,
            normalized(opt_text(sources.last().excerpt)),
        )
    }
}

/// The documents of the sources.
pub open spec fn source_ids(sources: Seq<DocumentSummarySource>) -> Set<u128> {
    sources.map_values(|s: DocumentSummarySource| s.document_id).to_set()
}

/// The summaries of a map, as spec values.
pub open spec fn summary_texts(m: Map<u128, Option<String>>) -> Map<u128, Option<Seq<char>>> {
    m.map_values(|v: Option<String>| opt_text(v))
}

/// An optional borrowed text, as a spec value.
pub open spec fn opt_str(v: Option<&str>) -> Option<Seq<char>> {
    match v {
        Some(s) => Some(s@),
        None => None,
    }
}

/// The outcome of a batch, with its map as a spec value.
pub open spec fn batch_view(r: Result<HashMap<u128, Option<String>>, AppError>) -> Result<
    Map<u128, Option<String>>,
    AppError,
> {
    match r {
        Ok(m) => Ok(m@),
        Err(e) => Err(e),
    }
}

/// What the lookups of the first `n` sources give when the lookup of the
/// source at position `k` gives `outs[k]`, taken in order: the first failed
/// lookup ends the batch with its error; otherwise each document maps to the
/// summary that the lookup of its last source gave.
pub open spec fn batch_fold(
    sources: Seq<DocumentSummarySource>,
    outs: Seq<Result<Option<String>, AppError>>,
    n: nat,
) -> Result<Map<u128, Option<String>>, AppError>
    decreases n,
{
    if n == 0 {
        Ok(Map::empty())
    } else {
        let k = n - 1;
        match batch_fold(sources, outs, k as nat) {
            Err(e) => Err(e),
            Ok(m) => match outs[k] {
                Err(e) => Err(e),
                Ok(v) => Ok(m.insert(sources[k].document_id, v)),
            },
        }
    }
}

/// Whether `res` is the outcome of a batch over `sources` whose lookups
/// gave `outs`: each lookup that the batch makes (those before the first
/// failure) gives an outcome that `may` allows for its position.
pub open spec fn batch_explained(
    may: spec_fn(int, Result<Option<String>, AppError>) -> bool,
    sources: Seq<DocumentSummarySource>,
    outs: Seq<Result<Option<String>, AppError>>,
    res: Result<Map<u128, Option<String>>, AppError>,
) -> bool {
    &&& outs.len() == sources.len()
    &&& forall|k: nat| k < sources.len() && (#[trigger] batch_fold(sources, outs, k)) is Ok ==> may(
        k as int,
        outs[k as int],
    )
    &&& batch_fold(sources, outs, sources.len()) == res
}

proof fn lemma_batch_fold_prefix(
    sources: Seq<DocumentSummarySource>,
    a: Seq<Result<Option<String>, AppError>>,
    b: Seq<Result<Option<String>, AppError>>,
    n: nat,
)
    requires
        n <= a.len(),
        n <= b.len(),
        forall|k: int| 0 <= k < n ==> a[k] == b[k],
    ensures
        batch_fold(sources, a, n) == batch_fold(sources, b, n),
    decreases n,
{
    if n > 0 {
        lemma_batch_fold_prefix(sources, a, b, (n - 1) as nat);
    }
}

proof fn lemma_batch_fold_error_stays(
    sources: Seq<DocumentSummarySource>,
    outs: Seq<Result<Option<String>, AppError>>,
    k: nat,
    n: nat,
)
    requires
        k <= n,
        batch_fold(sources, outs, k) is Err,
    ensures
        batch_fold(sources, outs, n) == batch_fold(sources, outs, k),
    decreases n,
{
    if k < n {
        lemma_batch_fold_error_stays(sources, outs, k, (n - 1) as nat);
    }
}

/// A source of document summaries for exports.
pub trait ExportSummaryProvider {
    /// The summary of one document, given the excerpt that it was stored with.
    fn summary_for_document(&self, document_id: u128, excerpt: Option<&str>) -> Result<
        Option<String>,
        AppError,
    >;

    /// The summaries of several documents, by document: each source's
    /// document and excerpt are looked up in order, the first error ends the
    /// batch with that error, and otherwise each document maps to what the
    /// lookup of its last source gave.
    fn summaries_for_documents(&self, sources: &[DocumentSummarySource]) -> (r: Result<
        HashMap<u128, Option<String>>,
        AppError,
    >)
        default_ensures
            exists|outs: Seq<Result<Option<String>, AppError>>|
                #[trigger] batch_fold(sources@, outs, sources@.len()) == batch_view(r) && batch_explained(
                    |k: int, o: Result<Option<String>, AppError>|
                        exists|x: Option<&str>|
                            opt_str(x) == opt_text(sources@[k].excerpt) && call_ensures(
                                Self::summary_for_document,
                                (self, sources@[k].document_id, x),
                                o,
                            ),
                    sources@,
                    outs,
                    batch_view(r),
                ),
            r matches Ok(m) ==> m@.dom() == source_ids(sources@),
    {
        let ghost may = |k: int, o: Result<Option<String>, AppError>|
            exists|x: Option<&str>|
                opt_str(x) == opt_text(sources@[k].excerpt) && call_ensures(
                    Self::summary_for_document,
                    (self, sources@[k].document_id, x),
                    o,
                );
        let ghost mut outs: Seq<Result<Option<String>, AppError>> = Seq::empty();
        let mut summaries: HashMap<u128, Option<String>> = HashMap::new();
        let mut i: usize = 0;
        proof {
            assert(summaries@ =~= Map::<u128, Option<String>>::empty());
            assert(sources@.take(0).map_values(|s: DocumentSummarySource| s.document_id).to_set()
                =~= Set::empty());
        }
        while i < sources.len()
            invariant
                i <= sources.len(),
                may == (|k: int, o: Result<Option<String>, AppError>|
                    exists|x: Option<&str>|
                        opt_str(x) == opt_text(sources@[k].excerpt) && call_ensures(
                            Self::summary_for_document,
                            (self, sources@[k].document_id, x),
                            o,
                        )),
                outs.len() == i,
                forall|k: int| 0 <= k < i ==> may(k, #[trigger] outs[k]),
                forall|k: nat| k <= i ==> (#[trigger] batch_fold(sources@, outs, k)) is Ok,
                batch_fold(sources@, outs, i as nat) == Ok::<Map<u128, Option<String>>, AppError>(
                    summaries@,
                ),
                summaries@.dom() == source_ids(sources@.take(i as int)),
            decreases sources.len() - i,
        {
            let source = &sources[i];
            let excerpt = match &source.excerpt {
                Some(s) => Some(s.as_str()),
                None => None,
            };
            let res = self.summary_for_document(source.document_id, excerpt);
            let ghost prev = outs;
            proof {
                assert(opt_str(excerpt) == opt_text(sources@[i as int].excerpt));
                assert(call_ensures(Self::summary_for_document, (self, source.document_id, excerpt), res));
                assert(may(i as int, res));
                outs = outs.push(res);
                lemma_batch_fold_prefix(sources@, prev, outs, i as nat);
            }
            let summary = match res {
                Ok(s) => s,
                Err(e) => {
                    proof {
                        let n = sources@.len();
                        let full = outs + Seq::new((n - (i + 1)) as nat, |j: int| Err::<Option<String>, AppError>(e));
                        assert(batch_fold(sources@, outs, (i + 1) as nat) == Err::<Map<u128, Option<String>>, AppError>(e));
                        lemma_batch_fold_prefix(sources@, outs, full, (i + 1) as nat);
                        lemma_batch_fold_error_stays(sources@, full, (i + 1) as nat, n);
                        assert forall|k: nat| k < n && (#[trigger] batch_fold(sources@, full, k)) is Ok implies may(
                            k as int,
                            full[k as int],
                        ) by {
                            if k > i {
                                lemma_batch_fold_error_stays(sources@, full, (i + 1) as nat, k);
                            } else {
                                assert(full[k as int] == outs[k as int]);
                            }
                        }
                        assert(batch_explained(may, sources@, full, Err(e)));
                    }
                    return Err(e);
                },
            };
            let ghost before = summaries@;
            summaries.insert(source.document_id, summary);
            proof {
                assert(batch_fold(sources@, outs, (i + 1) as nat) == Ok::<Map<u128, Option<String>>, AppError>(
                    before.insert(sources@[i as int].document_id, summary),
                ));
                assert forall|k: nat| k <= i + 1 implies (#[trigger] batch_fold(sources@, outs, k)) is Ok by {
                    if k <= i {
                        assert(batch_fold(sources@, prev, k) is Ok);
                        lemma_batch_fold_prefix(sources@, prev, outs, k);
                    }
                }
                lemma_source_ids_push(sources@, i as int);
            }
            i = i + 1;
        }
        proof {
            assert(batch_explained(may, sources@, outs, Ok(summaries@)));
        }
        assert(sources@.take(sources.len() as int) =~= sources@);
        Ok(summaries)
    }
}

proof fn lemma_source_ids_push(sources: Seq<DocumentSummarySource>, i: int)
    requires
        0 <= i < sources.len(),
    ensures
        source_ids(sources.take(i + 1)) == source_ids(sources.take(i)).insert(sources[i].document_id),
{
    let f = |s: DocumentSummarySource| s.document_id;
    assert(sources.take(i + 1).map_values(f) =~= sources.take(i).map_values(f).push(
        sources[i].document_id,
    ));
    sources.take(i).map_values(f).lemma_push_to_set_commute(sources[i].document_id);
}

/// The provider that serves the excerpt stored with each document.
#[derive(Debug, Clone, Copy)]
pub struct StoredExportSummaryProvider {}

impl StoredExportSummaryProvider {
    pub fn new() -> (p: Self)
        ensures
            p == (StoredExportSummaryProvider {}),
    {
        StoredExportSummaryProvider {  }
    }
}

impl Default for StoredExportSummaryProvider {
    fn default() -> (p: Self)
        ensures
            p == (StoredExportSummaryProvider {}),
    {
        StoredExportSummaryProvider {  }
    }
}

impl ExportSummaryProvider for StoredExportSummaryProvider {

    fn summary_for_document(&self, document_id: u128, excerpt: Option<&str>) -> (r: Result<
        Option<String>,
        AppError,
    >)
        ensures
            r matches Ok(s) && opt_text(s) == normalized(match excerpt {
                Some(e) => Some(e@),
                None => None,
            }),
    {
        Ok(normalized_summary(excerpt))
    }

    fn summaries_for_documents(&self, sources: &[DocumentSummarySource]) -> (r: Result<
        HashMap<u128, Option<String>>,
        AppError,
    >)
        ensures
            r matches Ok(m) && summary_texts(m@) == stored_summaries(sources@),
            r matches Ok(m) && m@.dom() == source_ids(sources@),
    {
        let mut summaries: HashMap<u128, Option<String>> = HashMap::new();
        let mut i: usize = 0;
        proof {
            assert(summary_texts(summaries@) =~= stored_summaries(sources@.take(0)));
            assert(sources@.take(0).map_values(|s: DocumentSummarySource| s.document_id).to_set()
                =~= Set::empty());
        }
        while i < sources.len()
            invariant
                i <= sources.len(),
                summary_texts(summaries@) == stored_summaries(sources@.take(i as int)),
                summaries@.dom() == source_ids(sources@.take(i as int)),
            decreases sources.len() - i,
        {
            let source = &sources[i];
            let excerpt = match &source.excerpt {
                Some(s) => Some(s.as_str()),
                None => None,
            };
            let summary = normalized_summary(excerpt);
            let ghost before = summaries@;
            summaries.insert(source.document_id, summary);
            proof {
                assert(sources@.take(i + 1).drop_last() =~= sources@.take(i as int));
                assert(summary_texts(summaries@) =~= summary_texts(before).insert(
                    source.document_id,
                    normalized(opt_text(source.excerpt)),
                ));
                lemma_source_ids_push(sources@, i as int);
            }
            i = i + 1;
        }
        assert(sources@.take(sources.len() as int) =~= sources@);
        Ok(summaries)
    }
}

/// A document's summary in a batch is what a single lookup gives for the
/// last source of that document in the batch.
pub proof fn lemma_batch_agrees_with_single(sources: Seq<DocumentSummarySource>, i: int)
    requires
        0 <= i < sources.len(),
        forall|j: int| i < j < sources.len() ==> (#[trigger] sources[j]).document_id != sources[i].document_id,
    ensures
        stored_summaries(sources).contains_key(sources[i].document_id),
        stored_summaries(sources)[sources[i].document_id] == normalized(opt_text(sources[i].excerpt)),
    decreases sources.len(),
{
    if i < sources.len() - 1 {
        assert forall|j: int| i < j < sources.drop_last().len() implies (
        #[trigger] sources.drop_last()[j]).document_id != sources.drop_last()[i].document_id by {
            assert(sources.drop_last()[j] == sources[j]);
        }
        lemma_batch_agrees_with_single(sources.drop_last(), i);
    }
}

} // verus!
