use vstd::prelude::*;

use crate::llm_client::{trim_end_slashes, trim_trailing_slashes};
use crate::text::{decimal, decimal_spec, owned};

verus! {

/// Metadata returned alongside embeddings (token usage, model info).
#[derive(Debug, Clone, Default)]
pub struct EmbeddingMeta {
    /// Total tokens consumed by the request.
    pub total_tokens: Option<u32>,
    /// Model identifier used by the provider.
    pub model: Option<String>,
}

impl EmbeddingMeta {
    /// Metadata with nothing known.
    pub fn empty() -> (r: Self)
        ensures
            r.total_tokens is None,
            r.model is None,
    {
        EmbeddingMeta { total_tokens: None, model: None }
    }
}

/// Input for an embedding request.
#[derive(Debug, Clone)]
pub struct EmbeddingRequest {
    /// The model to use for embedding.
    pub model: String,
    /// Text inputs to embed; each becomes one result.
    pub inputs: Vec<String>,
    /// Optional dimensions parameter.
    pub dimensions: Option<u32>,
}

/// Errors of embedding clients.
#[derive(Debug)]
pub enum EmbeddingsError {
    /// The underlying HTTP client call failed.
    Network(String),
    /// The provider returned an error response.
    Provider { code: u16, message: String },
    /// A JSON serialization or deserialization error.
    Serialization(String),
    /// The input batch is empty.
    EmptyBatch,
    /// The response contained no embedding data.
    NoData,
}

impl EmbeddingRequest {
    /// Fails with `EmptyBatch` when there is nothing to embed.
    pub fn check_batch(&self) -> (r: Result<(), EmbeddingsError>)
        ensures
            r is Ok <==> self.inputs@.len() > 0,
            r matches Err(e) ==> e is EmptyBatch,
    {
        if self.inputs.len() == 0 {
            Err(EmbeddingsError::EmptyBatch)
        } else {
            Ok(())
        }
    }
}

impl EmbeddingsError {
    /// The message that describes this error.
    pub fn message(&self) -> (r: String)
        ensures
            match self {
                EmbeddingsError::Network(m) => r@ == "network error: "@ + m@,
                EmbeddingsError::Provider { code, message } => r@ == "provider error "@ + decimal_spec(
                    *code as nat,
                ) + ": "@ + message@,
                EmbeddingsError::Serialization(m) => r@ == "serialization error: "@ + m@,
                EmbeddingsError::EmptyBatch => r@ == "input batch is empty"@,
                EmbeddingsError::NoData => r@ == "response contained no embedding data"@,
            },
    {
        match self {
            EmbeddingsError::Network(m) => {
                let mut r = owned("network error: ");
                r.append(m.as_str());
                r
            },
            EmbeddingsError::Provider { code, message } => {
                let mut r = owned("provider error ");
                r.append(decimal(*code as u64).as_str());
                r.append(": ");
                r.append(message.as_str());
                r
            },
            EmbeddingsError::Serialization(m) => {
                let mut r = owned("serialization error: ");
                r.append(m.as_str());
                r
            },
            EmbeddingsError::EmptyBatch => owned("input batch is empty"),
            EmbeddingsError::NoData => owned("response contained no embedding data"),
        }
    }

    /// The error for an unsuccessful HTTP status, with the response body as
    /// its message.
    pub fn from_status(status: u16, body: String) -> (r: Self)
        ensures
            r matches EmbeddingsError::Provider { code, message } && code == status && message == body,
    {
        EmbeddingsError::Provider { code: status, message: body }
    }
}

/// Fails with `NoData` when a provider answered with no embedding.
pub fn check_embeddings_present(count: usize) -> (r: Result<(), EmbeddingsError>)
    ensures
        r is Ok <==> count > 0,
        r matches Err(e) ==> e is NoData,
{
    if count == 0 {
        Err(EmbeddingsError::NoData)
    } else {
        Ok(())
    }
}

/// The OpenAI embeddings URL: the base URL without trailing slashes,
/// followed by `/embeddings`.
pub fn openai_embeddings_url(base_url: &str) -> (r: String)
    ensures
        r@ == trim_end_slashes(base_url@) + "/embeddings"@,
{
    let mut r = trim_trailing_slashes(base_url);
    r.append("/embeddings");
    r
}

/// The Cohere embed URL: the base URL without trailing slashes, followed by
/// `/v1/embed`.
pub fn cohere_embed_url(base_url: &str) -> (r: String)
    ensures
        r@ == trim_end_slashes(base_url@) + "/v1/embed"@,
{
    let mut r = trim_trailing_slashes(base_url);
    r.append("/v1/embed");
    r
}

/// The id of the `i`-th result: the `i`-th input, or empty when there are
/// fewer inputs.
pub open spec fn id_for(inputs: Seq<Seq<char>>, i: int) -> Seq<char> {
    if 0 <= i < inputs.len() {
        inputs[i]
    } else {
        Seq::empty()
    }
}

/// The ids of `count` results, in order: each result takes the input at
/// its position, or an empty id past the last input.
pub fn result_ids(inputs: &Vec<String>, count: usize) -> (r: Vec<String>)
    ensures
        r@.len() == count,
        forall|i: int| 0 <= i < count ==> #[trigger] r@[i]@ == id_for(
            inputs@.map_values(|s: String| s@),
            i,
        ),
{
    let mut r: Vec<String> = Vec::new();
    let mut i: usize = 0;
    while i < count
        invariant
            i <= count,
            r@.len() == i,
            forall|j: int| 0 <= j < i ==> #[trigger] r@[j]@ == id_for(
                inputs@.map_values(|s: String| s@),
                j,
            ),
        decreases count - i,
    {
        if i < inputs.len() {
            r.push(owned(inputs[i].as_str()));
        } else {
            r.push(String::new());
        }
        i = i + 1;
    }
    r
}

}
