use confidant::bundled::{
    batches, bundled_status, check_kb_lengths, document_count, BundledDefaultsStatus, KB_BATCH_SIZE,
};

#[test]
fn document_count_reads_the_statistics() {
    assert_eq!(document_count(&Ok("{\"status\":\"success\",\"document_count\":12}".to_string())), 12);
    assert_eq!(document_count(&Ok("{\"document_count\":0}".to_string())), 0);
    assert_eq!(
        document_count(&Ok("{\"document_count\":18446744073709551615}".to_string())),
        u64::MAX
    );
}

#[test]
fn document_count_is_zero_when_nothing_is_known() {
    for stats in [
        "{}",
        "{\"document_count\":\"12\"}",
        "{\"document_count\":-3}",
        "{\"document_count\":2.0}",
        "{\"document_count\":1e3}",
        "{\"document_count\":18446744073709551616}",
        "{\"document_count\":null}",
        "[12]",
        "not json",
    ] {
        assert_eq!(document_count(&Ok(stats.to_string())), 0, "{}", stats);
    }
    assert_eq!(document_count(&Err("Vector store not initialized".to_string())), 0);
}

#[test]
fn status_offers_a_download_only_without_a_model() {
    let download = Some(("https://example.org/m.gguf".to_string(), "/data/m.gguf".to_string()));
    assert_eq!(
        bundled_status(false, 3, download.clone()),
        BundledDefaultsStatus {
            model_ready: false,
            kb_ready: true,
            default_model_download_url: Some("https://example.org/m.gguf".to_string()),
            default_model_output_path: Some("/data/m.gguf".to_string()),
        }
    );
    assert_eq!(
        bundled_status(true, 0, download),
        BundledDefaultsStatus {
            model_ready: true,
            kb_ready: false,
            default_model_download_url: None,
            default_model_output_path: None,
        }
    );
    assert_eq!(
        bundled_status(false, 0, None),
        BundledDefaultsStatus {
            model_ready: false,
            kb_ready: false,
            default_model_download_url: None,
            default_model_output_path: None,
        }
    );
}

#[test]
fn knowledge_base_needs_one_embedding_per_document() {
    assert_eq!(check_kb_lengths(0, 0), Ok(()));
    assert_eq!(check_kb_lengths(120, 120), Ok(()));
    assert_eq!(
        check_kb_lengths(120, 119),
        Err("Bundled KB: documents length 120 != embeddings length 119".to_string())
    );
}

#[test]
fn batches_cover_everything_in_order() {
    assert_eq!(KB_BATCH_SIZE, 50);
    assert_eq!(batches(0, 50), Vec::new());
    assert_eq!(batches(1, 50), vec![(0, 1)]);
    assert_eq!(batches(50, 50), vec![(0, 50)]);
    assert_eq!(batches(51, 50), vec![(0, 50), (50, 51)]);
    assert_eq!(batches(120, 50), vec![(0, 50), (50, 100), (100, 120)]);
    let expected: Vec<(usize, usize)> =
        (0..120).step_by(50).map(|start| (start, (start + 50).min(120))).collect();
    assert_eq!(batches(120, KB_BATCH_SIZE), expected);
    assert_eq!(batches(usize::MAX, usize::MAX - 1), vec![(0, usize::MAX - 1), (usize::MAX - 1, usize::MAX)]);
}
