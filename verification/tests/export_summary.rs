use std::collections::HashMap;

use indelible::error::AppError;
use indelible::export_summary::{DocumentSummarySource, ExportSummaryProvider, StoredExportSummaryProvider};

fn src(id: u128, excerpt: Option<&str>) -> DocumentSummarySource {
    DocumentSummarySource { document_id: id, excerpt: excerpt.map(String::from) }
}

#[test]
fn stored_summaries_are_trimmed_excerpts() {
    let p = StoredExportSummaryProvider::new();
    assert_eq!(p.summary_for_document(1, Some("  A summary.\n")).unwrap().as_deref(), Some("A summary."));
    assert_eq!(p.summary_for_document(1, Some(" \t\u{3000} ")).unwrap(), None);
    assert_eq!(p.summary_for_document(1, None).unwrap(), None);
}

#[test]
fn batches_agree_with_single_lookups_and_the_last_source_wins() {
    let p = StoredExportSummaryProvider::default();
    let sources = vec![src(1, Some(" one ")), src(2, None), src(1, Some("uno")), src(3, Some("  "))];
    let m = p.summaries_for_documents(&sources).unwrap();
    let mut expected = HashMap::new();
    expected.insert(1u128, Some("uno".to_string()));
    expected.insert(2u128, None);
    expected.insert(3u128, None);
    assert_eq!(m, expected);
}

struct Failing;

impl ExportSummaryProvider for Failing {
    fn summary_for_document(&self, document_id: u128, excerpt: Option<&str>) -> Result<Option<String>, AppError> {
        if document_id == 2 {
            Err(AppError::Repository("down".into()))
        } else {
            Ok(excerpt.map(|e| e.to_uppercase()))
        }
    }
}

#[test]
fn the_default_batch_calls_each_document_and_stops_at_an_error() {
    let m = Failing.summaries_for_documents(&[src(1, Some("a")), src(3, None)]).unwrap();
    assert_eq!(m.get(&1), Some(&Some("A".to_string())));
    assert_eq!(m.get(&3), Some(&None));
    assert_eq!(Failing.summaries_for_documents(&[src(1, Some("a")), src(2, None)]), Err(AppError::Repository("down".into())));
}

struct FailingProvider;

impl ExportSummaryProvider for FailingProvider {
    fn summary_for_document(&self, _document_id: u128, _excerpt: Option<&str>) -> Result<Option<String>, AppError> {
        Err(AppError::Repository("lookup failed".into()))
    }
}

#[test]
fn an_empty_batch_succeeds_and_a_failed_lookup_ends_the_batch() {
    let p = FailingProvider;
    assert_eq!(p.summaries_for_documents(&[]).unwrap(), HashMap::new());
    assert_eq!(
        p.summaries_for_documents(&[src(1, Some("x"))]),
        Err(AppError::Repository("lookup failed".into()))
    );
}

struct PerDocument;

impl ExportSummaryProvider for PerDocument {
    fn summary_for_document(&self, document_id: u128, excerpt: Option<&str>) -> Result<Option<String>, AppError> {
        if document_id >= 10 {
            Err(AppError::Repository(format!("document {document_id}")))
        } else {
            Ok(excerpt.map(String::from))
        }
    }
}

#[test]
fn the_default_batch_returns_the_first_error_in_order_and_the_last_lookup_per_document() {
    let failing = [src(1, Some("a")), src(11, None), src(12, None)];
    assert_eq!(PerDocument.summaries_for_documents(&failing), Err(AppError::Repository("document 11".into())));
    let m = PerDocument.summaries_for_documents(&[src(1, Some("a")), src(2, None), src(1, Some("b"))]).unwrap();
    let mut expected = HashMap::new();
    expected.insert(1u128, Some("b".to_string()));
    expected.insert(2u128, None);
    assert_eq!(m, expected);
}
