//! The batcher client's decision logic: request construction, and the result
//! each response variant yields — the matching variant's value, its domain
//! error wrapped as such, or an unexpected-response transport error.

use execution_summary::communication::{
    build_proposal_request,
    decision_reached_request,
    get_stream_content_request,
    handle_build_proposal_response,
    handle_decision_reached_response,
    handle_get_stream_content_response,
    BatcherClientError,
    BatcherError,
    BatcherRequest,
    BatcherResponse,
    BuildProposalInput,
    ClientError,
    DecisionReachedInput,
    GetStreamContentInput,
    StreamContent,
};

#[test]
fn test_requests_carry_their_inputs() {
    let b = BuildProposalInput { proposal_id: 1 };
    let g = GetStreamContentInput { proposal_id: 2 };
    let d = DecisionReachedInput { proposal_id: 3 };
    assert_eq!(build_proposal_request(b), BatcherRequest::BuildProposal(b));
    assert_eq!(get_stream_content_request(g), BatcherRequest::GetStreamContent(g));
    assert_eq!(decision_reached_request(d), BatcherRequest::DecisionReached(d));
}

#[test]
fn test_build_proposal_response_ok() {
    let r = handle_build_proposal_response(BatcherResponse::BuildProposal(Ok(())));
    assert_eq!(r, Ok(()));
}

#[test]
fn test_build_proposal_response_domain_error() {
    let r = handle_build_proposal_response(BatcherResponse::BuildProposal(Err(
        BatcherError::InternalError,
    )));
    assert_eq!(r, Err(BatcherClientError::BatcherError(BatcherError::InternalError)));
}

#[test]
fn test_build_proposal_response_unexpected_variant() {
    let r = handle_build_proposal_response(BatcherResponse::DecisionReached(Ok(())));
    assert_eq!(
        r,
        Err(BatcherClientError::ClientError(ClientError::UnexpectedResponse))
    );
}

#[test]
fn test_get_stream_content_response_ok() {
    let r = handle_get_stream_content_response(BatcherResponse::GetStreamContent(Ok(
        StreamContent::StreamEnd,
    )));
    assert_eq!(r, Ok(StreamContent::StreamEnd));
}

#[test]
fn test_get_stream_content_response_domain_error() {
    let r = handle_get_stream_content_response(BatcherResponse::GetStreamContent(Err(
        BatcherError::InternalError,
    )));
    assert_eq!(r, Err(BatcherClientError::BatcherError(BatcherError::InternalError)));
}

#[test]
fn test_get_stream_content_response_unexpected_variant() {
    let r = handle_get_stream_content_response(BatcherResponse::BuildProposal(Ok(())));
    assert_eq!(
        r,
        Err(BatcherClientError::ClientError(ClientError::UnexpectedResponse))
    );
}

#[test]
fn test_decision_reached_response_ok() {
    let r = handle_decision_reached_response(BatcherResponse::DecisionReached(Ok(())));
    assert_eq!(r, Ok(()));
}

#[test]
fn test_decision_reached_response_domain_error() {
    let r = handle_decision_reached_response(BatcherResponse::DecisionReached(Err(
        BatcherError::InternalError,
    )));
    assert_eq!(r, Err(BatcherClientError::BatcherError(BatcherError::InternalError)));
}

#[test]
fn test_decision_reached_response_unexpected_variant() {
    let r = handle_decision_reached_response(BatcherResponse::GetStreamContent(Ok(
        StreamContent::StreamEnd,
    )));
    assert_eq!(
        r,
        Err(BatcherClientError::ClientError(ClientError::UnexpectedResponse))
    );
}

#[test]
fn test_error_conversions_keep_the_kind() {
    let transport: BatcherClientError = ClientError::ConnectionFailure.into();
    let domain: BatcherClientError = BatcherError::InternalError.into();
    assert_eq!(transport, BatcherClientError::ClientError(ClientError::ConnectionFailure));
    assert_eq!(domain, BatcherClientError::BatcherError(BatcherError::InternalError));
}
