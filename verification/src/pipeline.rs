//! The per-request pipeline: pairing chunks with embeddings.
//!
//! The orchestration has two shapes. The pre-chunked operation flattens the
//! provider's vectors into one sequence. The markdown operation pairs every
//! chunk produced by segmentation with the provider's vector of the same
//! position — and fails outright when the provider's output does not line up
//! with the chunks, rather than returning misaligned data.
//!
//! The embedding values themselves are opaque to the pipeline: every
//! function here is generic in the vector element type and never inspects,
//! reorders or drops an element.

use vstd::prelude::*;

use crate::segmentation::SegmentationError;

verus! {

/// Why a pipeline call failed.
#[derive(Debug)]
pub enum PipelineError {
    /// The segmentation stage failed after its retries; the inner error is
    /// surfaced unchanged.
    Segmentation(SegmentationError),
    /// The embedding provider reported a failure, or its output did not
    /// line up with the chunks it was given.
    EmbeddingProviderFailure(String),
    /// No credential for the segmentation endpoint was available. Detected
    /// before any network attempt.
    MissingCredential,
}

/// One chunk paired with the embedding vector of the same position.
pub struct EmbeddedChunk<T> {
    pub chunk: String,
    pub embedding: Vec<T>,
}

/// The views of a sequence of vectors, concatenated in order:
/// `vs[0]` first, then `vs[1]`, and so on.
pub open spec fn flat_views<T>(vs: Seq<Vec<T>>) -> Seq<T>
    decreases vs.len(),
{
    if vs.len() == 0 {
        Seq::empty()
    } else {
        vs[0]@ + flat_views(vs.skip(1))
    }
}

/// The detail text used when the provider's vector count does not match the
/// chunk count.
pub open spec fn count_mismatch_detail() -> Seq<char> {
    "embedding count differs from chunk count"@
}

/// Check that a segmentation credential is present, before any network
/// attempt is made.
pub fn require_credential(credential: Option<String>) -> (r: Result<String, PipelineError>)
    ensures
        r is Ok <==> credential is Some,
        r is Ok ==> Some(r->Ok_0) == credential,
        r is Err ==> r->Err_0 == PipelineError::MissingCredential,
{
    match credential {
        Some(c) => Ok(c),
        None => Err(PipelineError::MissingCredential),
    }
}

/// Surface a finished segmentation stage to the pipeline: chunks pass
/// through untouched, a segmentation error is wrapped but otherwise
/// unchanged.
pub fn after_segmentation(r: Result<Vec<String>, SegmentationError>) -> (out: Result<
    Vec<String>,
    PipelineError,
>)
    ensures
        out is Ok <==> r is Ok,
        r is Ok ==> out->Ok_0 == r->Ok_0,
        r is Err ==> out->Err_0 == PipelineError::Segmentation(r->Err_0),
{
    match r {
        Ok(chunks) => Ok(chunks),
        Err(e) => Err(PipelineError::Segmentation(e)),
    }
}

/// Pair every chunk with the provider's vector of the same position.
/// Succeeds exactly when the provider returned one vector per chunk; the
/// result then holds as many items as there were chunks, item `i` pairing
/// chunk `i` with vector `i`, both unmodified. A count mismatch is rejected
/// as a provider failure; no partial or misaligned result is ever returned.
#[verifier::loop_isolation(false)]
pub fn align_embeddings<T>(chunks: Vec<String>, embeddings: Vec<Vec<T>>) -> (r: Result<
    Vec<EmbeddedChunk<T>>,
    PipelineError,
>)
    ensures
        r is Ok <==> chunks@.len() == embeddings@.len(),
        r is Ok ==> r->Ok_0@.len() == chunks@.len() && (forall|i: int|
            0 <= i < chunks@.len() ==> (#[trigger] r->Ok_0@[i]).chunk == chunks@[i]
                && r->Ok_0@[i].embedding == embeddings@[i]),
        r is Err ==> (r->Err_0 matches PipelineError::EmbeddingProviderFailure(d) && d@
            == count_mismatch_detail()),
{
    if chunks.len() != embeddings.len() {
        return Err(
            PipelineError::EmbeddingProviderFailure(
                "embedding count differs from chunk count".to_owned(),
            ),
        );
    }
    let n: usize = chunks.len();
    let ghost cs = chunks@;
    let ghost es = embeddings@;
    let mut remaining_chunks: Vec<String> = chunks;
    let mut remaining_embeddings: Vec<Vec<T>> = embeddings;
    let mut items: Vec<EmbeddedChunk<T>> = Vec::new();
    let mut k: usize = 0;
    proof {
        assert(cs.skip(0) =~= cs);
        assert(es.skip(0) =~= es);
    }
    while k < n
        invariant
            n == cs.len(),
            k <= n,
            remaining_chunks@ == cs.skip(k as int),
            remaining_embeddings@ == es.skip(k as int),
            items@.len() == k,
            forall|i: int|
                0 <= i < k ==> (#[trigger] items@[i]).chunk == cs[i] && items@[i].embedding
                    == es[i],
        decreases cs.len() - k,
    {
        let chunk: String = remaining_chunks.remove(0);
        let embedding: Vec<T> = remaining_embeddings.remove(0);
        proof {
            assert(chunk == cs[k as int]);
            assert(embedding == es[k as int]);
            assert(remaining_chunks@ =~= cs.skip(k as int + 1));
            assert(remaining_embeddings@ =~= es.skip(k as int + 1));
        }
        items.push(EmbeddedChunk { chunk, embedding });
        k = k + 1;
    }
    Ok(items)
}

/// Flatten the provider's vectors into one sequence: vector 0 first, then
/// vector 1, and so on, every element in order and none dropped.
#[verifier::loop_isolation(false)]
pub fn flatten_embeddings<T>(embeddings: Vec<Vec<T>>) -> (r: Vec<T>)
    ensures
        r@ == flat_views(embeddings@),
{
    let n: usize = embeddings.len();
    let ghost es = embeddings@;
    let mut remaining: Vec<Vec<T>> = embeddings;
    let mut flat: Vec<T> = Vec::new();
    let mut k: usize = 0;
    proof {
        assert(es.skip(0) =~= es);
        assert(flat@ + flat_views(es.skip(0)) =~= flat_views(es));
    }
    while k < n
        invariant
            n == es.len(),
            k <= n,
            remaining@ == es.skip(k as int),
            flat_views(es) == flat@ + flat_views(es.skip(k as int)),
        decreases es.len() - k,
    {
        let mut v: Vec<T> = remaining.remove(0);
        let ghost old_flat = flat@;
        proof {
            assert(v == es[k as int]);
            assert(remaining@ =~= es.skip(k as int + 1));
            assert(es.skip(k as int).skip(1) =~= es.skip(k as int + 1));
            assert(es.skip(k as int)[0] == es[k as int]);
            assert(flat_views(es.skip(k as int)) == es[k as int]@ + flat_views(
                es.skip(k as int + 1),
            ));
            assert(old_flat + (es[k as int]@ + flat_views(es.skip(k as int + 1))) =~= (old_flat
                + es[k as int]@) + flat_views(es.skip(k as int + 1)));
        }
        flat.append(&mut v);
        k = k + 1;
    }
    proof {
        assert(es.skip(es.len() as int) =~= Seq::<Vec<T>>::empty());
        assert(flat_views(es) =~= flat@);
    }
    flat
}

/// The pre-chunked operation's result: the provider's vectors flattened
/// into one sequence, or the provider's failure wrapped.
pub fn chunk_embed_result<T>(provider_result: Result<Vec<Vec<T>>, String>) -> (r: Result<
    Vec<T>,
    PipelineError,
>)
    ensures
        provider_result is Err ==> r is Err && r->Err_0 == PipelineError::EmbeddingProviderFailure(
            provider_result->Err_0,
        ),
        provider_result is Ok ==> r is Ok && r->Ok_0@ == flat_views(provider_result->Ok_0@),
{
    match provider_result {
        Err(detail) => Err(PipelineError::EmbeddingProviderFailure(detail)),
        Ok(vectors) => Ok(flatten_embeddings(vectors)),
    }
}

/// The markdown operation's embedding stage: a provider failure is wrapped
/// and surfaced, and the provider's vectors are paired with the chunks as
/// [`align_embeddings`] says — one item per chunk, positions preserved,
/// never a misaligned result.
pub fn embed_markdown_result<T>(
    chunks: Vec<String>,
    provider_result: Result<Vec<Vec<T>>, String>,
) -> (r: Result<Vec<EmbeddedChunk<T>>, PipelineError>)
    ensures
        provider_result is Err ==> r is Err && r->Err_0 == PipelineError::EmbeddingProviderFailure(
            provider_result->Err_0,
        ),
        provider_result is Ok ==> {
            &&& r is Ok <==> chunks@.len() == provider_result->Ok_0@.len()
            &&& r is Ok ==> r->Ok_0@.len() == chunks@.len() && (forall|i: int|
                0 <= i < chunks@.len() ==> (#[trigger] r->Ok_0@[i]).chunk == chunks@[i]
                    && r->Ok_0@[i].embedding == provider_result->Ok_0@[i])
            &&& r is Err ==> (r->Err_0 matches PipelineError::EmbeddingProviderFailure(d) && d@
                == count_mismatch_detail())
        },
{
    match provider_result {
        Err(detail) => Err(PipelineError::EmbeddingProviderFailure(detail)),
        Ok(vectors) => align_embeddings(chunks, vectors),
    }
}

} // verus!
