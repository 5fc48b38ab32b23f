//! The uniform response envelope and the status vocabulary around it.

use vstd::prelude::*;

verus! {

/// HTTP statuses that the service answers with.
#[derive(Clone, Copy, Debug, PartialEq, Eq, Structural)]
pub enum HttpStatus {
    /// 200: the name resolved.
    Success,
    /// 400: the request carried no `domain` parameter.
    BadRequest,
    /// 429: the admission controller rejected the request.
    TooManyRequests,
    /// 502: the resolver reported a failure.
    BadGateway,
}

impl HttpStatus {
    /// The numeric status code.
    pub open spec fn number(self) -> nat {
        match self {
            HttpStatus::Success => 200,
            HttpStatus::BadRequest => 400,
            HttpStatus::TooManyRequests => 429,
            HttpStatus::BadGateway => 502,
        }
    }

    /// The numeric status code.
    pub fn code(&self) -> (n: u16)
        ensures
            n as nat == self.number(),
    {
        match self {
            HttpStatus::Success => 200,
            HttpStatus::BadRequest => 400,
            HttpStatus::TooManyRequests => 429,
            HttpStatus::BadGateway => 502,
        }
    }
}

/// The failures that are reported inside an envelope.
#[derive(Clone, Copy, Debug, PartialEq, Eq, Structural)]
pub enum Failure {
    /// The request itself is unusable; nothing was looked up.
    Validation,
    /// The resolver reported an error of any kind.
    Resolution,
}

/// The envelope code that denotes success.
pub open spec fn success_code() -> Seq<char> {
    "00000"@
}

/// The envelope message that goes with success.
pub open spec fn success_msg() -> Seq<char> {
    "OK"@
}

impl Failure {
    /// The envelope code of this kind of failure.
    pub open spec fn code_text(self) -> Seq<char> {
        match self {
            Failure::Validation => "11001"@,
            Failure::Resolution => "11002"@,
        }
    }

    /// The HTTP status that goes with this kind of failure.
    pub open spec fn http_status(self) -> HttpStatus {
        match self {
            Failure::Validation => HttpStatus::BadRequest,
            Failure::Resolution => HttpStatus::BadGateway,
        }
    }

    /// The envelope code of this kind of failure.
    pub fn code(&self) -> (s: String)
        ensures
            s@ == self.code_text(),
    {
        match self {
            Failure::Validation => "11001".to_string(),
            Failure::Resolution => "11002".to_string(),
        }
    }

    /// The HTTP status that goes with this kind of failure.
    pub fn status(&self) -> (s: HttpStatus)
        ensures
            s == self.http_status(),
    {
        match self {
            Failure::Validation => HttpStatus::BadRequest,
            Failure::Resolution => HttpStatus::BadGateway,
        }
    }
}

/// No failure code is the success code, and the two failure codes differ.
pub proof fn lemma_codes_distinct()
    ensures
        Failure::Validation.code_text() != success_code(),
        Failure::Resolution.code_text() != success_code(),
        Failure::Validation.code_text() != Failure::Resolution.code_text(),
{
    reveal_strlit("00000");
    reveal_strlit("11001");
    reveal_strlit("11002");
    assert("11001"@[1] == '1');
    assert("00000"@[1] == '0');
    assert("11002"@[1] == '1');
    assert("11001"@[4] == '1');
    assert("11002"@[4] == '2');
}

/// The body of every response that the handler produces: a code from the
/// fixed taxonomy, a message for humans, and a payload that is present
/// exactly when the code is the success code.
#[derive(Debug)]
pub struct ApiResponse<T> {
    code: String,
    msg: String,
    data: Option<T>,
}

impl<T> ApiResponse<T> {
    #[verifier::type_invariant]
    spec fn payload_iff_success(self) -> bool {
        self.data is Some <==> self.code@ == success_code()
    }

    /// The code, as text.
    pub closed spec fn code_text(self) -> Seq<char> {
        self.code@
    }

    /// The message.
    pub closed spec fn msg_text(self) -> Seq<char> {
        self.msg@
    }

    /// The payload.
    pub closed spec fn payload(self) -> Option<T> {
        self.data
    }

    /// The envelope of a success, carrying `data`.
    pub fn success(data: T) -> (r: Self)
        ensures
            r.code_text() == success_code(),
            r.msg_text() == success_msg(),
            r.payload() == Some(data),
    {
        ApiResponse { code: "00000".to_string(), msg: "OK".to_string(), data: Some(data) }
    }

    /// The envelope of a failure of the given kind. It carries no payload.
    pub fn failure(kind: Failure, msg: String) -> (r: Self)
        ensures
            r.code_text() == kind.code_text(),
            r.msg_text() == msg@,
            r.payload() is None,
    {
        proof {
            lemma_codes_distinct();
        }
        ApiResponse { code: kind.code(), msg, data: None }
    }

    /// The code.
    pub fn code(&self) -> (c: &str)
        ensures
            c@ == self.code_text(),
    {
        self.code.as_str()
    }

    /// The message.
    pub fn msg(&self) -> (m: &str)
        ensures
            m@ == self.msg_text(),
    {
        self.msg.as_str()
    }

    /// The payload, if the envelope has one.
    pub fn data(&self) -> (d: Option<&T>)
        ensures
            d is Some <==> self.payload() is Some,
            d is Some ==> *d->0 == self.payload()->0,
    {
        self.data.as_ref()
    }

    /// Whether the envelope denotes success. An envelope carries a payload
    /// if and only if it does.
    pub fn is_success(&self) -> (b: bool)
        ensures
            b == (self.code_text() == success_code()),
            b == (self.payload() is Some),
    {
        proof {
            use_type_invariant(self);
        }
        self.data.is_some()
    }

    /// Takes the envelope apart into code, message and payload.
    pub fn into_parts(self) -> (parts: (String, String, Option<T>))
        ensures
            parts.0@ == self.code_text(),
            parts.1@ == self.msg_text(),
            parts.2 == self.payload(),
            parts.2 is Some <==> parts.0@ == success_code(),
    {
        proof {
            use_type_invariant(&self);
        }
        (self.code, self.msg, self.data)
    }
}

} // verus!
