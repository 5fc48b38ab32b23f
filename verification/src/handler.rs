//! The resolution handler: what to answer for a request, given whether it
//! named a domain and what the resolver said. The lookup itself is the
//! caller's to perform.

use vstd::prelude::*;
use crate::address::IpAddress;
use crate::envelope::{success_code, success_msg, ApiResponse, Failure, HttpStatus};

verus! {

/// A request to resolve one name.
#[derive(Clone, Debug)]
pub struct ResolutionRequest {
    /// The name to resolve, exactly as the client sent it.
    pub domain: String,
}

/// What a successful lookup found.
#[derive(Clone, Debug)]
pub struct ResolutionResult {
    /// The name that was asked for.
    pub domain: String,
    /// The addresses, in the order in which the resolver gave them.
    pub addresses: Vec<IpAddress>,
}

/// A `ResolutionResult` as a mathematical value.
pub struct ResolutionResultView {
    pub domain: Seq<char>,
    pub addresses: Seq<IpAddress>,
}

impl View for ResolutionResult {
    type V = ResolutionResultView;

    open spec fn view(&self) -> ResolutionResultView {
        ResolutionResultView { domain: self.domain@, addresses: self.addresses@ }
    }
}

/// What the resolver said: the addresses, or the description of its error.
pub type Outcome = Result<Vec<IpAddress>, String>;

/// A complete answer of the handler: the HTTP status and the envelope. The
/// two always agree: 200 goes with the success code, 400 with the code of a
/// validation failure, 502 with the code of a resolution failure.
#[derive(Debug)]
pub struct Reply {
    status: HttpStatus,
    body: ApiResponse<ResolutionResult>,
}

/// A `Reply` as a mathematical value.
pub struct ReplyView {
    pub status: HttpStatus,
    pub code: Seq<char>,
    pub msg: Seq<char>,
    pub data: Option<ResolutionResultView>,
}

/// Whether an HTTP status and an envelope code go together.
pub open spec fn agree(status: HttpStatus, code: Seq<char>) -> bool {
    ||| status == HttpStatus::Success && code == success_code()
    ||| status == Failure::Validation.http_status() && code == Failure::Validation.code_text()
    ||| status == Failure::Resolution.http_status() && code == Failure::Resolution.code_text()
}

impl View for Reply {
    type V = ReplyView;

    closed spec fn view(&self) -> ReplyView {
        ReplyView {
            status: self.status,
            code: self.body.code_text(),
            msg: self.body.msg_text(),
            data: match self.body.payload() {
                Some(found) => Some(found@),
                None => None,
            },
        }
    }
}

impl Reply {
    #[verifier::type_invariant]
    spec fn status_and_code_agree(self) -> bool {
        &&& agree(self.status, self.body.code_text())
        &&& self.body.payload() is Some <==> self.body.code_text() == success_code()
    }

    /// The HTTP status. It is 200 exactly when the envelope carries data.
    pub fn status(&self) -> (status: HttpStatus)
        ensures
            status == self@.status,
            agree(status, self@.code),
            status == HttpStatus::Success <==> self@.data is Some,
    {
        proof {
            use_type_invariant(self);
            crate::envelope::lemma_codes_distinct();
        }
        self.status
    }

    /// The envelope.
    pub fn body(&self) -> (body: &ApiResponse<ResolutionResult>)
        ensures
            body.code_text() == self@.code,
            body.msg_text() == self@.msg,
            body.payload() is Some <==> self@.data is Some,
            body.payload() matches Some(found) ==> self@.data == Some(found@),
            agree(self@.status, body.code_text()),
    {
        proof {
            use_type_invariant(self);
        }
        &self.body
    }

    /// Takes the answer apart into status and envelope.
    pub fn into_parts(self) -> (parts: (HttpStatus, ApiResponse<ResolutionResult>))
        ensures
            parts.0 == self@.status,
            parts.1.code_text() == self@.code,
            parts.1.msg_text() == self@.msg,
            parts.1.payload() is Some <==> self@.data is Some,
            parts.1.payload() matches Some(found) ==> self@.data == Some(found@),
            agree(parts.0, parts.1.code_text()),
    {
        proof {
            use_type_invariant(&self);
        }
        (self.status, self.body)
    }
}

/// The message of the answer to a request without a `domain` parameter.
pub open spec fn missing_domain_msg() -> Seq<char> {
    "Missing domain parameter"@
}

/// The answer to a request without a `domain` parameter.
pub open spec fn missing_domain_reply() -> ReplyView {
    ReplyView {
        status: HttpStatus::BadRequest,
        code: Failure::Validation.code_text(),
        msg: missing_domain_msg(),
        data: None,
    }
}

/// The answer to a request for `domain` whose lookup yielded `addresses`.
pub open spec fn resolved_reply(domain: Seq<char>, addresses: Seq<IpAddress>) -> ReplyView {
    ReplyView {
        status: HttpStatus::Success,
        code: success_code(),
        msg: success_msg(),
        data: Some(ResolutionResultView { domain, addresses }),
    }
}

/// The answer to a request whose lookup failed with the description `reason`.
pub open spec fn failed_reply(reason: Seq<char>) -> ReplyView {
    ReplyView {
        status: HttpStatus::BadGateway,
        code: Failure::Resolution.code_text(),
        msg: reason,
        data: None,
    }
}

/// The resolver's verdict as a mathematical value.
pub open spec fn outcome_view(outcome: Outcome) -> Result<Seq<IpAddress>, Seq<char>> {
    match outcome {
        Ok(addresses) => Ok(addresses@),
        Err(reason) => Err(reason@),
    }
}

/// The answer that a request is owed, given its `domain` parameter and, for
/// the case that a lookup takes place, what the resolver says.
pub open spec fn reply_for(
    domain: Option<Seq<char>>,
    outcome: Result<Seq<IpAddress>, Seq<char>>,
) -> ReplyView {
    match domain {
        None => missing_domain_reply(),
        Some(name) => match outcome {
            Ok(addresses) => resolved_reply(name, addresses),
            Err(reason) => failed_reply(reason),
        },
    }
}

/// The answer to a request without a `domain` parameter.
pub fn missing_domain() -> (reply: Reply)
    ensures
        reply@ == missing_domain_reply(),
{
    proof {
        crate::envelope::lemma_codes_distinct();
    }
    Reply {
        status: Failure::Validation.status(),
        body: ApiResponse::failure(Failure::Validation, "Missing domain parameter".to_string()),
    }
}

/// The answer to `request` once its lookup has yielded `addresses`. The
/// addresses are passed on in the order given, none dropped, and the domain
/// is echoed as it was asked for.
pub fn resolved(request: ResolutionRequest, addresses: Vec<IpAddress>) -> (reply: Reply)
    ensures
        reply@ == resolved_reply(request.domain@, addresses@),
{
    Reply {
        status: HttpStatus::Success,
        body: ApiResponse::success(ResolutionResult { domain: request.domain, addresses }),
    }
}

/// The answer to a request whose lookup failed. The resolver's description
/// of the error is passed on verbatim.
pub fn failed(reason: String) -> (reply: Reply)
    ensures
        reply@ == failed_reply(reason@),
{
    proof {
        crate::envelope::lemma_codes_distinct();
    }
    Reply {
        status: Failure::Resolution.status(),
        body: ApiResponse::failure(Failure::Resolution, reason),
    }
}

/// Checks the query of a request. With a `domain` parameter the request is
/// valid and is to be resolved as it stands; without one it is answered at
/// once, and no lookup is made.
pub fn validate(domain: Option<String>) -> (checked: Result<ResolutionRequest, Reply>)
    ensures
        match domain {
            Some(name) => checked matches Ok(request) && request.domain@ == name@,
            None => checked matches Err(reply) && reply@ == missing_domain_reply(),
        },
{
    match domain {
        Some(name) => Ok(ResolutionRequest { domain: name }),
        None => Err(missing_domain()),
    }
}

/// Turns the resolver's verdict on `request` into the answer.
pub fn conclude(request: ResolutionRequest, outcome: Outcome) -> (reply: Reply)
    ensures
        reply@ == reply_for(Some(request.domain@), outcome_view(outcome)),
{
    match outcome {
        Ok(addresses) => resolved(request, addresses),
        Err(reason) => failed(reason),
    }
}

/// The domain echoed in a successful answer is the domain that was asked
/// for, character for character, and success is the only answer that
/// carries a payload.
pub proof fn lemma_domain_round_trip(
    domain: Seq<char>,
    outcome: Result<Seq<IpAddress>, Seq<char>>,
)
    ensures
        reply_for(Some(domain), outcome).data is Some <==> outcome is Ok,
        outcome is Ok ==> reply_for(Some(domain), outcome).data->0.domain == domain,
        outcome is Ok ==> reply_for(Some(domain), outcome).data->0.addresses == outcome->Ok_0,
{
}

/// Whatever the request and the resolver's verdict, the answer carries a
/// payload if and only if its code is the success code, and then its status
/// is 200.
pub proof fn lemma_payload_iff_success(
    domain: Option<Seq<char>>,
    outcome: Result<Seq<IpAddress>, Seq<char>>,
)
    ensures
        reply_for(domain, outcome).data is Some <==> reply_for(domain, outcome).code
            == success_code(),
        reply_for(domain, outcome).data is Some <==> reply_for(domain, outcome).status
            == HttpStatus::Success,
{
    crate::envelope::lemma_codes_distinct();
}

} // verus!
