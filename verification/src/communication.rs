//! The batcher's request–response boundary: the request and response shapes
//! of its three operations — build a proposal, fetch streamed content, notify
//! a reached decision — and the rules that turn a response into a caller's
//! result.
//!
//! Only the decisions live here, verified: which request a call sends, and
//! which result or error each response yields. Dispatching a request — in
//! process or over a network — is transport, done outside this library, which
//! hands the response back to `handle_*_response`. The error type keeps
//! transport failure and domain failure distinct, so callers can retry the
//! one and surface the other.

use vstd::prelude::*;

use crate::objects::ExecutionSummary;

verus! {

/// Input to the build-proposal operation.
#[derive(Clone, Copy, PartialEq, Eq, Structural, Debug, Default)]
pub struct BuildProposalInput {
    pub proposal_id: u64,
}

/// Input to the fetch-streamed-content operation.
#[derive(Clone, Copy, PartialEq, Eq, Structural, Debug, Default)]
pub struct GetStreamContentInput {
    pub proposal_id: u64,
}

/// Input to the decision-reached notification.
#[derive(Clone, Copy, PartialEq, Eq, Structural, Debug, Default)]
pub struct DecisionReachedInput {
    pub proposal_id: u64,
}

/// One unit of streamed proposal content: a transaction's execution summary,
/// or the end of the stream.
#[derive(Clone, PartialEq, Eq, Debug)]
pub enum StreamContent {
    Summary(ExecutionSummary),
    StreamEnd,
}

/// Failure reported by the batcher operation itself: a domain failure, to be
/// surfaced to the caller rather than retried.
#[derive(Clone, Copy, PartialEq, Eq, Structural, Debug)]
pub enum BatcherError {
    InternalError,
}

/// Failure of the request/response delivery itself: a transport failure, a
/// candidate for retry.
#[derive(Clone, Copy, PartialEq, Eq, Structural, Debug)]
pub enum ClientError {
    ConnectionFailure,
    SerializationFailure,
    ResponseTimeout,
    UnexpectedResponse,
}

/// What a batcher operation itself returns: its value, or its domain error.
pub type BatcherResult<T> = Result<T, BatcherError>;

/// One request to the batcher, tagged by operation.
#[derive(Clone, Copy, PartialEq, Eq, Structural, Debug)]
pub enum BatcherRequest {
    BuildProposal(BuildProposalInput),
    GetStreamContent(GetStreamContentInput),
    DecisionReached(DecisionReachedInput),
}

/// One response from the batcher, tagged by the operation it answers.
#[derive(PartialEq, Eq, Debug)]
pub enum BatcherResponse {
    BuildProposal(BatcherResult<()>),
    GetStreamContent(BatcherResult<StreamContent>),
    DecisionReached(BatcherResult<()>),
}

/// The unified client error: a transport failure or a domain failure, kept
/// distinct.
#[derive(Clone, Copy, PartialEq, Eq, Structural, Debug)]
pub enum BatcherClientError {
    ClientError(ClientError),
    BatcherError(BatcherError),
}

/// What a call through the client returns: the operation's value, or the
/// unified error.
pub type BatcherClientResult<T> = Result<T, BatcherClientError>;

impl From<ClientError> for BatcherClientError {
    /// A transport failure wraps into the unified error unchanged.
    fn from(e: ClientError) -> (r: Self) {
        BatcherClientError::ClientError(e)
    }
}

impl vstd::std_specs::convert::FromSpecImpl<ClientError> for BatcherClientError {
    open spec fn obeys_from_spec() -> bool {
        true
    }

    open spec fn from_spec(e: ClientError) -> Self {
        BatcherClientError::ClientError(e)
    }
}

impl From<BatcherError> for BatcherClientError {
    /// A domain failure wraps into the unified error unchanged.
    fn from(e: BatcherError) -> (r: Self) {
        BatcherClientError::BatcherError(e)
    }
}

impl vstd::std_specs::convert::FromSpecImpl<BatcherError> for BatcherClientError {
    open spec fn obeys_from_spec() -> bool {
        true
    }

    open spec fn from_spec(e: BatcherError) -> Self {
        BatcherClientError::BatcherError(e)
    }
}

/// The request a build-proposal call sends.
pub fn build_proposal_request(input: BuildProposalInput) -> (r: BatcherRequest)
    ensures
        r == BatcherRequest::BuildProposal(input),
{
    BatcherRequest::BuildProposal(input)
}

/// The request a fetch-streamed-content call sends.
pub fn get_stream_content_request(input: GetStreamContentInput) -> (r: BatcherRequest)
    ensures
        r == BatcherRequest::GetStreamContent(input),
{
    BatcherRequest::GetStreamContent(input)
}

/// The request a decision-reached call sends.
pub fn decision_reached_request(input: DecisionReachedInput) -> (r: BatcherRequest)
    ensures
        r == BatcherRequest::DecisionReached(input),
{
    BatcherRequest::DecisionReached(input)
}

/// The result a build-proposal call yields for each possible response: the
/// matching variant passes its value through, its domain error is wrapped as
/// such, and any other variant is a transport-level unexpected response.
pub fn handle_build_proposal_response(response: BatcherResponse) -> (r: BatcherClientResult<()>)
    ensures
        match response {
            BatcherResponse::BuildProposal(Ok(v)) => r == BatcherClientResult::<()>::Ok(v),
            BatcherResponse::BuildProposal(Err(e)) => r == BatcherClientResult::<()>::Err(
                BatcherClientError::BatcherError(e),
            ),
            _ => r == BatcherClientResult::<()>::Err(
                BatcherClientError::ClientError(ClientError::UnexpectedResponse),
            ),
        },
{
    match response {
        BatcherResponse::BuildProposal(Ok(v)) => Ok(v),
        BatcherResponse::BuildProposal(Err(e)) => Err(BatcherClientError::from(e)),
        _ => Err(BatcherClientError::from(ClientError::UnexpectedResponse)),
    }
}

/// The result a fetch-streamed-content call yields for each possible
/// response.
pub fn handle_get_stream_content_response(response: BatcherResponse) -> (r: BatcherClientResult<
    StreamContent,
>)
    ensures
        match response {
            BatcherResponse::GetStreamContent(Ok(v)) => r == BatcherClientResult::<
                StreamContent,
            >::Ok(v),
            BatcherResponse::GetStreamContent(Err(e)) => r == BatcherClientResult::<
                StreamContent,
            >::Err(BatcherClientError::BatcherError(e)),
            _ => r == BatcherClientResult::<StreamContent>::Err(
                BatcherClientError::ClientError(ClientError::UnexpectedResponse),
            ),
        },
{
    match response {
        BatcherResponse::GetStreamContent(Ok(v)) => Ok(v),
        BatcherResponse::GetStreamContent(Err(e)) => Err(BatcherClientError::from(e)),
        _ => Err(BatcherClientError::from(ClientError::UnexpectedResponse)),
    }
}

/// The result a decision-reached call yields for each possible response.
pub fn handle_decision_reached_response(response: BatcherResponse) -> (r: BatcherClientResult<()>)
    ensures
        match response {
            BatcherResponse::DecisionReached(Ok(v)) => r == BatcherClientResult::<()>::Ok(v),
            BatcherResponse::DecisionReached(Err(e)) => r == BatcherClientResult::<()>::Err(
                BatcherClientError::BatcherError(e),
            ),
            _ => r == BatcherClientResult::<()>::Err(
                BatcherClientError::ClientError(ClientError::UnexpectedResponse),
            ),
        },
{
    match response {
        BatcherResponse::DecisionReached(Ok(v)) => Ok(v),
        BatcherResponse::DecisionReached(Err(e)) => Err(BatcherClientError::from(e)),
        _ => Err(BatcherClientError::from(ClientError::UnexpectedResponse)),
    }
}

} // verus!
