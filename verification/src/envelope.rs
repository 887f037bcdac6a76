//! The response envelope: the uniform `{status, error, data}` wrapper that
//! every JSON endpoint returns, with status carried inside the body rather
//! than as the transport-level status code.

use vstd::prelude::*;
use vstd::string::StringExecFns;

verus! {

/// Result wrapper returned by every JSON endpoint. `status` is 0 on success
/// and non-zero on failure; exactly one of `error` / `data` is populated.
#[derive(Debug, Clone, PartialEq, Eq)]
pub struct Envelope<T> {
    pub status: u16,
    pub error: Option<String>,
    pub data: Option<T>,
}

/// The envelope an operation outcome maps to: success gives status 0 with the
/// payload and no error; failure gives status 1 with the message and no data.
pub open spec fn envelope_spec<T>(result: Result<T, String>) -> Envelope<T> {
    match result {
        Ok(d) => Envelope { status: 0u16, error: None, data: Some(d) },
        Err(e) => Envelope { status: 1u16, error: Some(e), data: None },
    }
}

impl<T> Envelope<T> {
    /// Exactly one of `error` / `data` is populated, never both, never
    /// neither: `data` iff the status says success, `error` iff it says
    /// failure.
    pub open spec fn well_formed(self) -> bool {
        &&& self.status == 0 <==> self.error is None
        &&& self.status == 0 <==> self.data is Some
    }

    /// The success envelope for a payload.
    pub fn ok(data: T) -> (r: Self)
        ensures
            r == envelope_spec::<T>(Ok(data)),
            r.well_formed(),
    {
        Envelope { status: 0, error: None, data: Some(data) }
    }

    /// The failure envelope for an error message.
    pub fn fail(error: String) -> (r: Self)
        ensures
            r == envelope_spec::<T>(Err(error)),
            r.well_formed(),
    {
        Envelope { status: 1, error: Some(error), data: None }
    }

    /// Wraps one backend outcome, leaving the payload or message unchanged.
    pub fn of_result(result: Result<T, String>) -> (r: Self)
        ensures
            r == envelope_spec(result),
            r.well_formed(),
    {
        match result {
            Ok(d) => Self::ok(d),
            Err(e) => Self::fail(e),
        }
    }
}

/// Law: every envelope built from an operation outcome is well formed, a
/// success carries exactly the payload with status 0, and a failure carries
/// exactly the message with a non-zero status.
pub proof fn lemma_envelope_shape<T>(result: Result<T, String>)
    ensures
        envelope_spec(result).well_formed(),
        result is Ok ==> envelope_spec(result).status == 0
            && envelope_spec(result).data == Some(result->Ok_0)
            && envelope_spec(result).error is None,
        result is Err ==> envelope_spec(result).status != 0
            && envelope_spec(result).error == Some(result->Err_0)
            && envelope_spec(result).data is None,
{
}

/// Law: the envelope translation keeps no state of its own, so repeating an
/// operation that returns the same backend outcome yields the same envelope.
pub proof fn lemma_envelope_idempotent<T>(first: Result<T, String>, second: Result<T, String>)
    requires
        first == second,
    ensures
        envelope_spec(first) == envelope_spec(second),
{
}

/// Builds the operation-specific failure message `"<desc> failed: <err>"`
/// that failure envelopes carry.
pub fn describe_failure(desc: &str, err: &str) -> (m: String)
    ensures
        m@ == desc@ + " failed: "@ + err@,
{
    let mut m = String::from_str(desc);
    m.append(" failed: ");
    m.append(err);
    m
}

} // verus!
