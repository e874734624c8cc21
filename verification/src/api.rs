//! What the operations of a functional group answer to their clients.
use vstd::prelude::*;

use crate::ecu::{DataError, EcuParameters};
use crate::executions::ExecutionStatus;

verus! {

/// Why a request is refused.
#[derive(Debug, PartialEq, Eq)]
pub enum ApiError {
    BadRequest(String),
    Forbidden(Option<String>),
    NotFound(Option<String>),
    Conflict(String),
    InternalServerError(Option<String>),
    BadGateway(String),
}

impl ApiError {
    /// The HTTP status of the refusal.
    pub open spec fn spec_status(&self) -> u16 {
        match self {
            ApiError::BadRequest(_) => 400,
            ApiError::Forbidden(_) => 403,
            ApiError::NotFound(_) => 404,
            ApiError::Conflict(_) => 409,
            ApiError::InternalServerError(_) => 500,
            ApiError::BadGateway(_) => 502,
        }
    }

    /// The HTTP status of the refusal.
    #[verifier::when_used_as_spec(spec_status)]
    pub fn status(&self) -> (status: u16)
        ensures
            status == self.spec_status(),
    {
        match self {
            ApiError::BadRequest(_) => 400,
            ApiError::Forbidden(_) => 403,
            ApiError::NotFound(_) => 404,
            ApiError::Conflict(_) => 409,
            ApiError::InternalServerError(_) => 500,
            ApiError::BadGateway(_) => 502,
        }
    }
}

/// A refusal, and whether its JSON schema is to go with it.
#[derive(Debug, PartialEq, Eq)]
pub struct ErrorWrapper {
    pub error: ApiError,
    pub include_schema: bool,
}

/// The bodies that have a JSON schema.
#[derive(Clone, Copy, Debug, PartialEq, Eq, Structural)]
pub enum Schema {
    /// A list of [`OperationCollectionItem`].
    OperationItems,
    /// The parameters and errors of all ECUs.
    OperationResponse,
    /// An [`AsyncPostResponse`].
    AsyncPostResponse,
}

/// `schema`, if it is asked for.
pub open spec fn requested_schema(include_schema: bool, schema: Schema) -> Option<Schema> {
    if include_schema {
        Some(schema)
    } else {
        None
    }
}

/// Gives `schema`, if it is asked for.
pub(crate) fn schema_if(include_schema: bool, schema: Schema) -> (requested: Option<Schema>)
    ensures
        requested == requested_schema(include_schema, schema),
{
    if include_schema {
        Some(schema)
    } else {
        None
    }
}

/// An operation that a functional group offers.
#[derive(Debug, PartialEq, Eq)]
pub struct OperationCollectionItem {
    pub id: String,
    pub name: String,
    pub proximity_proof_required: bool,
    pub asynchronous_execution: bool,
}

/// The answer to the start of an asynchronous execution.
#[derive(Debug, PartialEq, Eq)]
pub struct AsyncPostResponse {
    pub id: String,
    pub status: Option<ExecutionStatus>,
    pub schema: Option<Schema>,
}

/// An answer to a client.
#[derive(Debug, PartialEq)]
pub enum Response {
    /// The operations that a functional group offers.
    Operations { items: Vec<OperationCollectionItem>, schema: Option<Schema> },
    /// What the ECUs reported, and what went wrong at which of them.
    Operation { parameters: EcuParameters, errors: Vec<DataError>, schema: Option<Schema> },
    /// An asynchronous execution was started and can be found at `location`.
    Accepted { location: String, body: AsyncPostResponse },
    /// All is done, and there is nothing to say.
    NoContent,
    /// The request is refused.
    Error(ErrorWrapper),
}

impl Response {
    /// The HTTP status of the answer.
    pub open spec fn spec_status(&self) -> u16 {
        match self {
            Response::Operations { .. } => 200,
            Response::Operation { .. } => 200,
            Response::Accepted { .. } => 202,
            Response::NoContent => 204,
            Response::Error(wrapper) => wrapper.error.spec_status(),
        }
    }

    /// The HTTP status of the answer.
    #[verifier::when_used_as_spec(spec_status)]
    pub fn status(&self) -> (status: u16)
        ensures
            status == self.spec_status(),
    {
        match self {
            Response::Operations { .. } => 200,
            Response::Operation { .. } => 200,
            Response::Accepted { .. } => 202,
            Response::NoContent => 204,
            Response::Error(wrapper) => wrapper.error.status(),
        }
    }
}

/// Every answer has its status: 200 with what was asked for, 202 for an execution that was started,
/// 204 for one that is over, and that of the refusal else.
pub proof fn law_status_of_an_answer(response: Response)
    ensures
        match response {
            Response::Operations { .. } => response.status() == 200,
            Response::Operation { .. } => response.status() == 200,
            Response::Accepted { .. } => response.status() == 202,
            Response::NoContent => response.status() == 204,
            Response::Error(wrapper) => match wrapper.error {
                ApiError::BadRequest(_) => response.status() == 400,
                ApiError::Forbidden(_) => response.status() == 403,
                ApiError::NotFound(_) => response.status() == 404,
                ApiError::Conflict(_) => response.status() == 409,
                ApiError::InternalServerError(_) => response.status() == 500,
                ApiError::BadGateway(_) => response.status() == 502,
            },
        },
{
}

} // verus!
