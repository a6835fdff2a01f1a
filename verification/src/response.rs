//! Errors of symbolication, and the answers to requests.

use apple_crash_report_parser::ParseError;
use symbolic::minidump::processor::ProcessMinidumpError;
use vstd::prelude::*;
use vstd::string::*;

use crate::types::{CompletedModel, CompletedSymbolicationResponse, RequestId};

verus! {

/// An error of input or output.
#[verifier::external_type_specification]
#[verifier::external_body]
pub struct ExIoError(std::io::Error);

/// Why an Apple crash report could not be parsed.
#[verifier::external_type_specification]
#[verifier::external_body]
pub struct ExParseError(apple_crash_report_parser::ParseError);

/// Errors during symbolication.
#[derive(Debug)]
pub enum SymbolicationError {
    /// Symbolication took too long.
    Timeout,
    /// Input or output failed.
    Io(std::io::Error),
    /// The channel of the response was canceled. Potentially when the system is shutting down.
    CanceledChannel,
    /// A minidump could not be processed.
    Minidump(ProcessMinidumpError),
    /// An Apple crash report could not be parsed.
    AppleCrashReport(ParseError),
}

impl From<std::io::Error> for SymbolicationError {
    fn from(err: std::io::Error) -> (r: SymbolicationError)
        ensures
            r == SymbolicationError::Io(err),
    {
        SymbolicationError::Io(err)
    }
}

impl vstd::std_specs::convert::FromSpecImpl<std::io::Error> for SymbolicationError {
    open spec fn obeys_from_spec() -> bool {
        true
    }

    open spec fn from_spec(err: std::io::Error) -> SymbolicationError {
        SymbolicationError::Io(err)
    }
}

impl From<ProcessMinidumpError> for SymbolicationError {
    fn from(err: ProcessMinidumpError) -> (r: SymbolicationError)
        ensures
            r == SymbolicationError::Minidump(err),
    {
        SymbolicationError::Minidump(err)
    }
}

impl vstd::std_specs::convert::FromSpecImpl<ProcessMinidumpError> for SymbolicationError {
    open spec fn obeys_from_spec() -> bool {
        true
    }

    open spec fn from_spec(err: ProcessMinidumpError) -> SymbolicationError {
        SymbolicationError::Minidump(err)
    }
}

impl From<ParseError> for SymbolicationError {
    fn from(err: ParseError) -> (r: SymbolicationError)
        ensures
            r == SymbolicationError::AppleCrashReport(err),
    {
        SymbolicationError::AppleCrashReport(err)
    }
}

impl vstd::std_specs::convert::FromSpecImpl<ParseError> for SymbolicationError {
    open spec fn obeys_from_spec() -> bool {
        true
    }

    open spec fn from_spec(err: ParseError) -> SymbolicationError {
        SymbolicationError::AppleCrashReport(err)
    }
}

impl SymbolicationError {
    /// What the error says.
    pub fn message(&self) -> (r: String)
        ensures
            match self {
                SymbolicationError::Timeout => r@ == "symbolication took too long"@,
                SymbolicationError::Io(err) => exists|text: String|
                    to_string_from_display_ensures(err, text) && r@ == "internal IO failed: "@
                        + #[trigger] text@,
                SymbolicationError::CanceledChannel => r@
                    == "response channel unexpectedly canceled"@,
                SymbolicationError::Minidump(_) => r@ == "failed to process minidump"@,
                SymbolicationError::AppleCrashReport(_) => r@
                    == "failed to parse apple crash report"@,
            },
    {
        match self {
            SymbolicationError::Timeout => "symbolication took too long".to_owned(),
            SymbolicationError::Io(err) => {
                let text: String = err.to_string();
                let mut message: String = "internal IO failed: ".to_owned();
                message.append(text.as_str());
                assert(to_string_from_display_ensures(err, text) && message@
                    == "internal IO failed: "@ + text@);
                message
            },
            SymbolicationError::CanceledChannel =>
                "response channel unexpectedly canceled".to_owned(),
            SymbolicationError::Minidump(_) => "failed to process minidump".to_owned(),
            SymbolicationError::AppleCrashReport(_) =>
                "failed to parse apple crash report".to_owned(),
        }
    }
}

/// The answer to a request.
#[derive(Clone, Debug)]
pub enum SymbolicationResponse {
    /// Symbolication is still running.
    Pending {
        /// The identifier of the request.
        request_id: RequestId,
        /// After how many seconds to ask again.
        retry_after: usize,
    },
    /// Symbolication is done.
    Completed(Box<CompletedSymbolicationResponse>),
    /// Symbolication failed, for a reason that lies in the request.
    Failed {
        /// The reason.
        message: String,
    },
    /// Symbolication took too long.
    Timeout,
    /// Symbolication failed, for a reason that does not lie in the request.
    InternalError,
}

/// The model of a [`SymbolicationResponse`].
pub enum ResponseModel {
    Pending { request_id: Seq<char>, retry_after: usize },
    Completed(CompletedModel),
    Failed { message: Seq<char> },
    Timeout,
    InternalError,
}

impl DeepView for SymbolicationResponse {
    type V = ResponseModel;

    open spec fn deep_view(&self) -> ResponseModel {
        match self {
            SymbolicationResponse::Pending { request_id, retry_after } => ResponseModel::Pending {
                request_id: request_id.deep_view(),
                retry_after: *retry_after,
            },
            SymbolicationResponse::Completed(response) => ResponseModel::Completed(
                response.deep_view(),
            ),
            SymbolicationResponse::Failed { message } => ResponseModel::Failed {
                message: message@,
            },
            SymbolicationResponse::Timeout => ResponseModel::Timeout,
            SymbolicationResponse::InternalError => ResponseModel::InternalError,
        }
    }
}

/// Whether a response is the answer to a request that ended in an error.
pub open spec fn answers_error(err: &SymbolicationError, response: ResponseModel) -> bool {
    match err {
        SymbolicationError::Timeout => response == ResponseModel::Timeout,
        SymbolicationError::Io(_) => response == ResponseModel::InternalError,
        SymbolicationError::CanceledChannel => response == ResponseModel::InternalError,
        SymbolicationError::Minidump(err) => response matches ResponseModel::Failed { message }
            && exists|text: String|
            to_string_from_display_ensures(err, text) && message == #[trigger] text@,
        SymbolicationError::AppleCrashReport(err) => response matches ResponseModel::Failed {
            message,
        } && exists|text: String|
            to_string_from_display_ensures(err, text) && message == #[trigger] text@,
    }
}

impl From<&SymbolicationError> for SymbolicationResponse {
    /// The answer to a request that ended in an error.
    fn from(err: &SymbolicationError) -> (r: SymbolicationResponse)
        ensures
            answers_error(err, r.deep_view()),
    {
        match err {
            SymbolicationError::Timeout => SymbolicationResponse::Timeout,
            SymbolicationError::Io(_) => SymbolicationResponse::InternalError,
            SymbolicationError::CanceledChannel => SymbolicationResponse::InternalError,
            SymbolicationError::Minidump(err) => {
                let message: String = err.to_string();
                SymbolicationResponse::Failed { message }
            },
            SymbolicationError::AppleCrashReport(err) => {
                let message: String = err.to_string();
                SymbolicationResponse::Failed { message }
            },
        }
    }
}

impl vstd::std_specs::convert::FromSpecImpl<&SymbolicationError> for SymbolicationResponse {
    open spec fn obeys_from_spec() -> bool {
        false
    }

    open spec fn from_spec(err: &SymbolicationError) -> SymbolicationResponse {
        arbitrary()
    }
}

impl SymbolicationResponse {
    /// The answer to a request that ended: the result, or what is said of the error.
    pub fn from_result(
        result: Result<CompletedSymbolicationResponse, SymbolicationError>,
    ) -> (r: SymbolicationResponse)
        ensures
            match result {
                Ok(response) => r.deep_view() == ResponseModel::Completed(response.deep_view()),
                Err(err) => answers_error(&err, r.deep_view()),
            },
    {
        match result {
            Ok(response) => SymbolicationResponse::Completed(Box::new(response)),
            Err(err) => SymbolicationResponse::from(&err),
        }
    }
}

/// An error is answered by its kind. What lies in the request is told in the words of the error, and
/// what does not is kept.
pub proof fn law_answers(err: &SymbolicationError, response: ResponseModel)
    requires
        answers_error(err, response),
    ensures
        err is Timeout <==> response is Timeout,
        err is Io || err is CanceledChannel <==> response is InternalError,
        err is Minidump || err is AppleCrashReport <==> response is Failed,
        err matches SymbolicationError::Minidump(failure) ==> exists|text: String|
            to_string_from_display_ensures(failure, text) && (response matches ResponseModel::Failed {
                message,
            } && message == #[trigger] text@),
        err matches SymbolicationError::AppleCrashReport(failure) ==> exists|text: String|
            to_string_from_display_ensures(failure, text) && (response matches ResponseModel::Failed {
                message,
            } && message == #[trigger] text@),
{
}

} // verus!
