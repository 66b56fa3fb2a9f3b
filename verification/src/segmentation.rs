//! The segmentation client: turning a markdown document into chunks with
//! the help of a remote chat-completion endpoint.
//!
//! The client owns every decision of the round trip — how the request is
//! built, which HTTP statuses count as success, how each attempt's outcome
//! is classified, and when a failed attempt is retried — while the
//! surrounding application performs the HTTP calls and the waiting, and
//! reports each attempt back as an [`AttemptOutcome`].

use vstd::prelude::*;
use vstd::string::*;

use crate::chunking::{chunks_of, parse_chunks, views_of};
use crate::retry::{BackoffRetrier, RetryDecision, MAX_ATTEMPTS};

verus! {

/// One message of the chat-style request or response payload.
pub struct Message {
    pub role: String,
    pub content: String,
}

/// Why a segmentation call failed. Surfaced to the caller only once the
/// retry budget is exhausted.
#[derive(Debug)]
pub enum SegmentationError {
    /// The request never produced an HTTP response (network failure or
    /// timeout), or its body could not be read.
    TransportFailure(String),
    /// The endpoint answered with a non-success status; `detail` is the
    /// server-provided error text.
    RemoteRejection { status: u16, detail: String },
    /// The response body does not have the expected structure.
    MalformedResponse(String),
    /// The response parsed, but offered no completion choice.
    NoCompletionChoice,
}

/// What one HTTP attempt produced, as reported by the driver performing the
/// round trip.
pub enum AttemptOutcome {
    /// No response arrived: network failure, timeout, or an unreadable body.
    TransportFailure { detail: String },
    /// A response arrived with a status that is not a success status (see
    /// [`is_success_status`]); `detail` is the response body text.
    Rejection { status: u16, detail: String },
    /// A response arrived with a success status but its body could not be
    /// decoded as a chat-completion payload; `detail` describes the decoder
    /// failure.
    MalformedBody { detail: String },
    /// A response arrived with a success status and decoded into the listed
    /// completion choices.
    Completion { choices: Vec<Message> },
}

/// The statuses the client treats as success: the 2xx range.
pub open spec fn success_status(status: u16) -> bool {
    200 <= status < 300
}

/// Decide whether an HTTP status counts as success.
pub fn is_success_status(status: u16) -> (r: bool)
    ensures
        r == success_status(status),
{
    200 <= status && status < 300
}

/// How the client classifies one attempt: every outcome other than a
/// completion with at least one choice maps to the matching error, and a
/// completion's first choice is parsed into chunks.
pub open spec fn attempt_model(outcome: AttemptOutcome) -> Result<
    Seq<Seq<char>>,
    SegmentationError,
> {
    match outcome {
        AttemptOutcome::TransportFailure { detail } => Err(
            SegmentationError::TransportFailure(detail),
        ),
        AttemptOutcome::Rejection { status, detail } => Err(
            SegmentationError::RemoteRejection { status, detail },
        ),
        AttemptOutcome::MalformedBody { detail } => Err(
            SegmentationError::MalformedResponse(detail),
        ),
        AttemptOutcome::Completion { choices } => if choices@.len() == 0 {
            Err(SegmentationError::NoCompletionChoice)
        } else {
            Ok(chunks_of(choices@[0].content@))
        },
    }
}

/// The model identifier named in every segmentation request.
pub open spec fn model_id() -> Seq<char> {
    "meta-llama/Llama-3.3-70B-Instruct"@
}

/// The fixed system instruction of every segmentation request.
pub open spec fn system_instruction() -> Seq<char> {
    "You are a helpful assistant that chunks markdown content into logical sections. Each chunk should be a complete thought or section."@
}

/// The fixed text that precedes the document in the user message.
pub open spec fn user_prompt_prefix() -> Seq<char> {
    "Please chunk the following markdown into logical sections. Separate each section with '---':\n\n"@
}

/// A chat-style segmentation request: the model to use and the messages to
/// send. The driver serialises it and posts it to the endpoint.
pub struct SegmentationRequest {
    pub model: String,
    pub messages: Vec<Message>,
}

/// How long the driver should wait for one HTTP attempt, in seconds.
pub const REQUEST_TIMEOUT_SECS: u64 = 30;

/// The chat-completion endpoint the request is posted to.
pub fn segmentation_endpoint() -> (r: &'static str)
    ensures
        r@ == "https://api-inference.huggingface.co/models/meta-llama/Llama-3.3-70B-Instruct/v1/chat/completions"@,
{
    "https://api-inference.huggingface.co/models/meta-llama/Llama-3.3-70B-Instruct/v1/chat/completions"
}

/// Client for the remote segmentation endpoint. It holds no state; each
/// call stands alone.
pub struct HuggingFaceClient;

impl HuggingFaceClient {
    pub fn new() -> (client: Self) {
        HuggingFaceClient
    }

    /// Build the chat-style request for one document: the fixed system
    /// instruction, then a user message holding the document verbatim after
    /// the fixed prompt prefix.
    pub fn build_segmentation_request(&self, markdown: &str) -> (r: SegmentationRequest)
        ensures
            r.model@ == model_id(),
            r.messages@.len() == 2,
            r.messages@[0].role@ == "system"@,
            r.messages@[0].content@ == system_instruction(),
            r.messages@[1].role@ == "user"@,
            r.messages@[1].content@ == user_prompt_prefix() + markdown@,
    {
        let mut user_content: String =
            "Please chunk the following markdown into logical sections. Separate each section with '---':\n\n".to_owned();
        user_content.append(markdown);
        let mut messages: Vec<Message> = Vec::new();
        messages.push(
            Message {
                role: "system".to_owned(),
                content:
                    "You are a helpful assistant that chunks markdown content into logical sections. Each chunk should be a complete thought or section.".to_owned(),
            },
        );
        messages.push(Message { role: "user".to_owned(), content: user_content });
        SegmentationRequest { model: "meta-llama/Llama-3.3-70B-Instruct".to_owned(), messages }
    }

    /// Classify one attempt's outcome exactly as [`attempt_model`] says:
    /// failures map to their error, and a completion's first choice is
    /// split into chunks.
    pub fn evaluate_attempt(&self, outcome: AttemptOutcome) -> (r: Result<
        Vec<String>,
        SegmentationError,
    >)
        ensures
            r is Ok <==> attempt_model(outcome) is Ok,
            r is Ok ==> views_of(r->Ok_0@) == attempt_model(outcome)->Ok_0 && r->Ok_0@.len() >= 1,
            r is Err ==> r->Err_0 == attempt_model(outcome)->Err_0,
    {
        match outcome {
            AttemptOutcome::TransportFailure { detail } => Err(
                SegmentationError::TransportFailure(detail),
            ),
            AttemptOutcome::Rejection { status, detail } => Err(
                SegmentationError::RemoteRejection { status, detail },
            ),
            AttemptOutcome::MalformedBody { detail } => Err(
                SegmentationError::MalformedResponse(detail),
            ),
            AttemptOutcome::Completion { choices } => {
                if choices.len() == 0 {
                    Err(SegmentationError::NoCompletionChoice)
                } else {
                    let first: &Message = &choices[0];
                    Ok(parse_chunks(first.content.as_str()))
                }
            },
        }
    }

    /// Segment a document given the outcome of every attempt the driver is
    /// prepared to make: classify the attempts in order under the retry
    /// policy and return the surfaced result together with the number of
    /// attempts used.
    ///
    /// The driver's live loop interleaves the same decisions with its HTTP
    /// calls and waits; here the outcomes are supplied up front, which
    /// makes the whole retried round trip one verified function.
    #[verifier::loop_isolation(false)]
    pub fn chunk_markdown(&self, outcomes: Vec<AttemptOutcome>) -> (r: (
        Result<Vec<String>, SegmentationError>,
        u32,
    ))
        requires
            outcomes@.len() == MAX_ATTEMPTS,
        ensures
            r.1 == retried_attempts(outcomes@),
            r.0 is Ok <==> retried_model(outcomes@) is Ok,
            r.0 is Ok ==> views_of(r.0->Ok_0@) == retried_model(outcomes@)->Ok_0
                && r.0->Ok_0@.len() >= 1,
            r.0 is Err ==> r.0->Err_0 == retried_model(outcomes@)->Err_0,
    {
        let ghost orig = outcomes@;
        let mut pending: Vec<AttemptOutcome> = outcomes;
        let mut retrier: BackoffRetrier = BackoffRetrier::new();
        let mut i: u32 = 0;
        proof {
            assert(orig.skip(0) =~= orig);
        }
        while i < MAX_ATTEMPTS
            invariant
                orig.len() == MAX_ATTEMPTS,
                i < MAX_ATTEMPTS,
                retrier.wf(),
                retrier.attempts_failed == i,
                pending@ == orig.skip(i as int),
                retried_from(orig, 0) == retried_from(orig, i as int),
            decreases MAX_ATTEMPTS - i,
        {
            let outcome: AttemptOutcome = pending.remove(0);
            proof {
                assert(outcome == orig[i as int]);
            }
            let result: Result<Vec<String>, SegmentationError> = self.evaluate_attempt(outcome);
            match result {
                Ok(chunks) => {
                    proof {
                        assert(retried_from(orig, i as int) == (
                            i as int + 1,
                            attempt_model(orig[i as int]),
                        ));
                    }
                    return (Ok(chunks), i + 1);
                },
                Err(e) => {
                    match retrier.on_failure() {
                        RetryDecision::Retry { .. } => {
                            proof {
                                assert(pending@ =~= orig.skip(i as int + 1));
                                assert(retried_from(orig, i as int) == retried_from(
                                    orig,
                                    i as int + 1,
                                ));
                            }
                            i = i + 1;
                        },
                        RetryDecision::GiveUp => {
                            proof {
                                assert(i + 1 >= MAX_ATTEMPTS);
                                assert(retried_from(orig, i as int) == (
                                    i as int + 1,
                                    attempt_model(orig[i as int]),
                                ));
                            }
                            return (Err(e), i + 1);
                        },
                    }
                },
            }
        }
        proof {
            assert(false);
        }
        (Err(SegmentationError::NoCompletionChoice), 0)
    }
}

/// The retried run from attempt `i` on: the pair of the attempt count after
/// the run and the surfaced result. An attempt's success is surfaced at
/// once; a failure is surfaced only when it was the last attempt the budget
/// allows.
pub open spec fn retried_from(outcomes: Seq<AttemptOutcome>, i: int) -> (
    int,
    Result<Seq<Seq<char>>, SegmentationError>,
)
    decreases MAX_ATTEMPTS - i when 0 <= i < MAX_ATTEMPTS
{
    let r = attempt_model(outcomes[i]);
    if r is Ok || i + 1 >= MAX_ATTEMPTS {
        (i + 1, r)
    } else {
        retried_from(outcomes, i + 1)
    }
}

/// How many attempts the retried run performs.
pub open spec fn retried_attempts(outcomes: Seq<AttemptOutcome>) -> int {
    retried_from(outcomes, 0).0
}

/// The result the retried run surfaces.
pub open spec fn retried_model(outcomes: Seq<AttemptOutcome>) -> Result<
    Seq<Seq<char>>,
    SegmentationError,
> {
    retried_from(outcomes, 0).1
}

/// An operation that fails on its first two attempts and succeeds on the
/// third: the retried run returns the third attempt's success, and the
/// operation is invoked exactly three times.
pub proof fn lemma_two_failures_then_success(outcomes: Seq<AttemptOutcome>)
    requires
        outcomes.len() == MAX_ATTEMPTS,
        attempt_model(outcomes[0]) is Err,
        attempt_model(outcomes[1]) is Err,
        attempt_model(outcomes[2]) is Ok,
    ensures
        retried_attempts(outcomes) == 3,
        retried_model(outcomes) == attempt_model(outcomes[2]),
{
    reveal_with_fuel(retried_from, 4);
}

/// An operation that fails on every attempt: the retried run surfaces the
/// failure of the final attempt, and the operation is invoked exactly three
/// times.
pub proof fn lemma_all_attempts_fail(outcomes: Seq<AttemptOutcome>)
    requires
        outcomes.len() == MAX_ATTEMPTS,
        forall|j: int| 0 <= j < MAX_ATTEMPTS ==> attempt_model(#[trigger] outcomes[j]) is Err,
    ensures
        retried_attempts(outcomes) == 3,
        retried_model(outcomes) == attempt_model(outcomes[2]),
{
    reveal_with_fuel(retried_from, 4);
    assert(attempt_model(outcomes[0]) is Err);
    assert(attempt_model(outcomes[1]) is Err);
    assert(attempt_model(outcomes[2]) is Err);
}

} // verus!
