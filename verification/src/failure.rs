//! What is said when something fails.

use vstd::prelude::*;

use crate::text::join;

verus! {

/// The value of what may have failed with a text.
pub open spec fn outcome<T>(result: Result<T, String>) -> Result<T, Seq<char>> {
    match result {
        Ok(value) => Ok(value),
        Err(detail) => Err(detail@),
    }
}

/// How far a request over HTTP came before it failed.
pub enum HttpStage {
    /// No response came.
    Send,
    /// The response bore an error status.
    Status,
    /// The body could not be read or understood.
    Body,
}

/// A request that failed.
pub struct HttpFailure {
    pub stage: HttpStage,
    /// What the client had to say about it.
    pub detail: String,
}

/// The one of three wordings that fits the stage, followed by the detail.
pub open spec fn worded(
    failure: HttpFailure,
    send: Seq<char>,
    status: Seq<char>,
    body: Seq<char>,
) -> Seq<char> {
    (match failure.stage {
        HttpStage::Send => send,
        HttpStage::Status => status,
        HttpStage::Body => body,
    }) + failure.detail@
}

impl HttpFailure {
    /// Words the failure.
    pub fn message(&self, send: &str, status: &str, body: &str) -> (text: String)
        ensures
            text@ == worded(*self, send@, status@, body@),
    {
        match self.stage {
            HttpStage::Send => join(send, self.detail.as_str()),
            HttpStage::Status => join(status, self.detail.as_str()),
            HttpStage::Body => join(body, self.detail.as_str()),
        }
    }
}

/// A failure is told in the words that fit how far the request came, and with all that the
/// client had to say about it.
pub proof fn failures_are_told_in_full(
    failure: HttpFailure,
    send: Seq<char>,
    status: Seq<char>,
    body: Seq<char>,
)
    ensures
        failure.stage is Send ==> worded(failure, send, status, body) == send + failure.detail@,
        failure.stage is Status ==> worded(failure, send, status, body) == status
            + failure.detail@,
        failure.stage is Body ==> worded(failure, send, status, body) == body + failure.detail@,
{
}

/// Taking an outcome for its value keeps what came of it, or every word of why nothing did.
pub proof fn outcomes_keep_their_words<T>(value: T, detail: String)
    ensures
        outcome(Ok::<T, String>(value)) == Ok::<T, Seq<char>>(value),
        outcome(Err::<T, String>(detail)) == Err::<T, Seq<char>>(detail@),
{
}

} // verus!
