use chunk_embed::pipeline::{
    after_segmentation, align_embeddings, chunk_embed_result, embed_markdown_result,
    require_credential, PipelineError,
};
use chunk_embed::segmentation::{AttemptOutcome, HuggingFaceClient, Message, SegmentationError};

#[test]
fn aligned_result_pairs_by_position() {
    let chunks = vec!["a".to_string(), "b".to_string()];
    let embeddings = vec![vec![1.0f64, 2.0], vec![3.0, 4.0]];
    let items = align_embeddings(chunks, embeddings).unwrap();
    assert_eq!(items.len(), 2);
    assert_eq!(items[0].chunk, "a");
    assert_eq!(items[0].embedding, vec![1.0, 2.0]);
    assert_eq!(items[1].chunk, "b");
    assert_eq!(items[1].embedding, vec![3.0, 4.0]);
}

#[test]
fn count_mismatch_is_rejected() {
    // The provider returned one vector for two chunks: the call fails
    // rather than returning misaligned data.
    let chunks = vec!["a".to_string(), "b".to_string()];
    let embeddings = vec![vec![1.0f64, 2.0]];
    match align_embeddings(chunks, embeddings) {
        Err(PipelineError::EmbeddingProviderFailure(d)) => {
            assert_eq!(d, "embedding count differs from chunk count")
        }
        _ => panic!("expected a provider failure"),
    }
}

#[test]
fn flattened_output_concatenates_in_order() {
    let r = chunk_embed_result(Ok(vec![vec![1.0f64, 2.0], vec![3.0, 4.0]]));
    assert_eq!(r.unwrap(), vec![1.0, 2.0, 3.0, 4.0]);
}

#[test]
fn flatten_of_no_vectors_is_empty() {
    let r = chunk_embed_result(Ok(Vec::<Vec<f64>>::new()));
    assert_eq!(r.unwrap(), Vec::<f64>::new());
}

#[test]
fn provider_failure_is_wrapped_for_chunk_embed() {
    let r = chunk_embed_result::<f64>(Err("model unavailable".to_string()));
    match r {
        Err(PipelineError::EmbeddingProviderFailure(d)) => assert_eq!(d, "model unavailable"),
        _ => panic!("expected a provider failure"),
    }
}

#[test]
fn provider_failure_is_wrapped_for_markdown() {
    let chunks = vec!["a".to_string()];
    let r = embed_markdown_result::<f64>(chunks, Err("boom".to_string()));
    match r {
        Err(PipelineError::EmbeddingProviderFailure(d)) => assert_eq!(d, "boom"),
        _ => panic!("expected a provider failure"),
    }
}

#[test]
fn markdown_mismatch_is_rejected() {
    let chunks = vec!["a".to_string(), "b".to_string(), "c".to_string()];
    let r = embed_markdown_result(chunks, Ok(vec![vec![1.0f64], vec![2.0]]));
    assert!(matches!(r, Err(PipelineError::EmbeddingProviderFailure(_))));
}

#[test]
fn missing_credential_fails_fast() {
    assert!(matches!(
        require_credential(None),
        Err(PipelineError::MissingCredential)
    ));
    assert_eq!(require_credential(Some("k".to_string())).unwrap(), "k");
}

#[test]
fn segmentation_error_propagates_unchanged() {
    let r = after_segmentation(Err(SegmentationError::NoCompletionChoice));
    assert!(matches!(
        r,
        Err(PipelineError::Segmentation(SegmentationError::NoCompletionChoice))
    ));
    let ok = after_segmentation(Ok(vec!["a".to_string()]));
    assert_eq!(ok.unwrap(), vec!["a".to_string()]);
}

#[test]
fn markdown_pipeline_end_to_end() {
    // Segmentation response with two non-empty sections, then a provider
    // answer with one vector per chunk: two items, each chunk paired with
    // the vector of its position.
    let client = HuggingFaceClient::new();
    let (seg, attempts) = client.chunk_markdown(vec![
        AttemptOutcome::Completion {
            choices: vec![Message {
                role: "assistant".to_string(),
                content: "A section\n---\nB section".to_string(),
            }],
        },
        AttemptOutcome::TransportFailure { detail: "unused".to_string() },
        AttemptOutcome::TransportFailure { detail: "unused".to_string() },
    ]);
    assert_eq!(attempts, 1);
    let chunks = after_segmentation(seg).unwrap();
    assert_eq!(chunks, vec!["A section".to_string(), "B section".to_string()]);
    let items =
        embed_markdown_result(chunks, Ok(vec![vec![0.5f64, 1.5], vec![2.5, 3.5]])).unwrap();
    assert_eq!(items.len(), 2);
    assert_eq!(items[0].chunk, "A section");
    assert_eq!(items[0].embedding, vec![0.5, 1.5]);
    assert_eq!(items[1].chunk, "B section");
    assert_eq!(items[1].embedding, vec![2.5, 3.5]);
}

#[test]
fn degenerate_response_still_embeds() {
    // A response with no non-empty section falls back to one chunk holding
    // the entire content, and one vector suffices.
    let client = HuggingFaceClient::new();
    let (seg, _) = client.chunk_markdown(vec![
        AttemptOutcome::Completion {
            choices: vec![Message {
                role: "assistant".to_string(),
                content: " \n---\n ".to_string(),
            }],
        },
        AttemptOutcome::TransportFailure { detail: "unused".to_string() },
        AttemptOutcome::TransportFailure { detail: "unused".to_string() },
    ]);
    let chunks = seg.unwrap();
    assert_eq!(chunks, vec![" \n---\n ".to_string()]);
    let items = embed_markdown_result(chunks, Ok(vec![vec![9.0f64]])).unwrap();
    assert_eq!(items.len(), 1);
    assert_eq!(items[0].chunk, " \n---\n ");
    assert_eq!(items[0].embedding, vec![9.0]);
}
