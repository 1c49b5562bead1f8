use tpt_ai_agents::embeddings::{
    check_embeddings_present, cohere_embed_url, openai_embeddings_url, result_ids,
    sorted_positions, EmbeddingMeta, EmbeddingRequest, EmbeddingsError,
};

#[test]
fn test_embedding_request_builder() {
    let req = EmbeddingRequest {
        model: "test-model".into(),
        inputs: vec!["hello".into(), "world".into()],
        dimensions: None,
    };
    assert_eq!(req.model, "test-model");
    assert_eq!(req.inputs.len(), 2);
    assert!(req.check_batch().is_ok());
}

#[test]
fn test_embedding_response_meta_default() {
    let meta = EmbeddingMeta::default();
    assert!(meta.total_tokens.is_none());
    assert!(meta.model.is_none());
    let meta = EmbeddingMeta::empty();
    assert!(meta.total_tokens.is_none());
    assert!(meta.model.is_none());
}

#[test]
fn test_error_display() {
    let err = EmbeddingsError::EmptyBatch;
    assert_eq!(err.message(), "input batch is empty");
    let err = EmbeddingsError::Provider {
        code: 401,
        message: "unauthorized".into(),
    };
    assert!(err.message().contains("401"));
    assert_eq!(err.message(), "provider error 401: unauthorized");
    assert_eq!(EmbeddingsError::NoData.message(), "response contained no embedding data");
    assert_eq!(EmbeddingsError::Network("x".into()).message(), "network error: x");
    assert_eq!(EmbeddingsError::Serialization("y".into()).message(), "serialization error: y");
}

#[test]
fn empty_batches_and_empty_answers_are_errors() {
    let req = EmbeddingRequest { model: "m".into(), inputs: vec![], dimensions: Some(8) };
    assert!(matches!(req.check_batch(), Err(EmbeddingsError::EmptyBatch)));
    assert!(matches!(check_embeddings_present(0), Err(EmbeddingsError::NoData)));
    assert!(check_embeddings_present(3).is_ok());
    assert!(matches!(
        EmbeddingsError::from_status(503, "down".into()),
        EmbeddingsError::Provider { code: 503, .. }
    ));
}

#[test]
fn results_take_the_ids_of_their_inputs() {
    let inputs = vec!["a".to_string(), "b".to_string()];
    assert_eq!(result_ids(&inputs, 3), vec!["a".to_string(), "b".to_string(), String::new()]);
    assert_eq!(result_ids(&inputs, 1), vec!["a".to_string()]);
}

#[test]
fn provider_results_are_put_in_index_order_stably() {
    assert_eq!(sorted_positions(&vec![2, 0, 1]), vec![1, 2, 0]);
    assert_eq!(sorted_positions(&vec![1, 0, 1, 0]), vec![1, 3, 0, 2]);
    assert!(sorted_positions(&vec![]).is_empty());
}

#[test]
fn embedding_urls() {
    assert_eq!(openai_embeddings_url("https://api.openai.com/v1/"), "https://api.openai.com/v1/embeddings");
    assert_eq!(cohere_embed_url("https://api.cohere.com"), "https://api.cohere.com/v1/embed");
}
