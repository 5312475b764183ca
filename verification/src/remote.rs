//! Classification of one remote operation attempt. The outbound call itself
//! is performed outside the crate; what it observed comes back here as a
//! plain value and is folded into an `ExecutionOutcome`.

use vstd::prelude::*;
use vstd::string::StringExecFns;
use crate::digits::decimal_digits;
use crate::digits::u16_to_decimal;
use crate::records::ExecutionOutcome;

verus! {

/// The fixed delay, in seconds, that a successful execution waits before
/// reporting success: a minimum settle time on the success path.
pub const MIN_SETTLE_SECS: u64 = 5;

/// What one outbound call attempt observed: either the transport failed with
/// a cause, or an exchange completed with some status code.
#[derive(Debug)]
pub enum HttpResult {
    TransportError(String),
    Status(u16),
}

/// The mathematical model of an `ExecutionOutcome`.
#[verifier::ext_equal]
pub enum OutcomeModel {
    Success,
    Failure(Seq<char>),
}

impl View for ExecutionOutcome {
    type V = OutcomeModel;

    open spec fn view(&self) -> OutcomeModel {
        match self {
            ExecutionOutcome::Success => OutcomeModel::Success,
            ExecutionOutcome::Failure(m) => OutcomeModel::Failure(m@),
        }
    }
}

/// A status code in the success range.
pub open spec fn is_success_status(code: u16) -> bool {
    200 <= code < 300
}

/// The diagnostic for an attempt whose transport failed.
pub open spec fn transport_failure_message(cause: Seq<char>) -> Seq<char> {
    "HTTP request failed: "@ + cause
}

/// The diagnostic for an exchange that completed outside the success range.
pub open spec fn status_failure_message(code: u16) -> Seq<char> {
    "HTTP request returned status: "@ + decimal_digits(code as nat)
}

/// The outcome that a given attempt classifies as.
pub open spec fn spec_outcome_of_http(r: HttpResult) -> OutcomeModel {
    match r {
        HttpResult::TransportError(cause) => OutcomeModel::Failure(
            transport_failure_message(cause@),
        ),
        HttpResult::Status(code) => if is_success_status(code) {
            OutcomeModel::Success
        } else {
            OutcomeModel::Failure(status_failure_message(code))
        },
    }
}

/// Classifies one attempt: a transport failure or a non-success status code
/// is a per-task failure carrying its diagnostic; a success-range status is
/// a success. Exactly one attempt is ever classified per invocation: no
/// error kind is retried.
pub fn outcome_of_http(r: HttpResult) -> (o: ExecutionOutcome)
    ensures
        o@ == spec_outcome_of_http(r),
        o.wf(),
{
    match r {
        HttpResult::TransportError(cause) => {
            let mut m = "HTTP request failed: ".to_owned();
            m.append(cause.as_str());
            proof {
                reveal_strlit("HTTP request failed: ");
            }
            ExecutionOutcome::Failure(m)
        },
        HttpResult::Status(code) => {
            if 200 <= code && code < 300 {
                ExecutionOutcome::Success
            } else {
                let mut m = "HTTP request returned status: ".to_owned();
                let code_digits = u16_to_decimal(code);
                m.append(code_digits.as_str());
                proof {
                    reveal_strlit("HTTP request returned status: ");
                }
                ExecutionOutcome::Failure(m)
            }
        },
    }
}

} // verus!
