use dnsqueryx::address::IpAddress;
use dnsqueryx::envelope::{ApiResponse, Failure, HttpStatus};
use dnsqueryx::handler::{conclude, failed, missing_domain, resolved, validate, ResolutionRequest};

#[test]
fn missing_domain_is_bad_request() {
    let reply = validate(None).expect_err("a request without a domain is not valid");
    assert_eq!(reply.status(), HttpStatus::BadRequest);
    assert_eq!(reply.status().code(), 400);
    assert_eq!(reply.body().code(), "11001");
    assert_eq!(reply.body().msg(), "Missing domain parameter");
    assert!(reply.body().data().is_none());
    assert!(!reply.body().is_success());
}

#[test]
fn missing_domain_reply_is_the_same_from_either_entry() {
    let direct = missing_domain();
    let checked = validate(None).expect_err("a request without a domain is not valid");
    assert_eq!(direct.status(), checked.status());
    assert_eq!(direct.body().code(), checked.body().code());
    assert_eq!(direct.body().msg(), checked.body().msg());
}

#[test]
fn resolved_lookup_is_ok() {
    let request = validate(Some("example.com".to_string())).expect("the domain is present");
    let reply = conclude(request, Ok(vec![IpAddress::V4(93, 184, 216, 34)]));
    assert_eq!(reply.status(), HttpStatus::Success);
    assert_eq!(reply.status().code(), 200);
    assert_eq!(reply.body().code(), "00000");
    assert_eq!(reply.body().msg(), "OK");
    let data = reply.body().data().expect("a success carries data");
    assert_eq!(data.domain, "example.com");
    assert_eq!(data.addresses, vec![IpAddress::V4(93, 184, 216, 34)]);
}

#[test]
fn failed_lookup_is_bad_gateway() {
    let request = validate(Some("invalid.invalid".to_string())).expect("the domain is present");
    let reply = conclude(request, Err("no record found for name: invalid.invalid.".to_string()));
    assert_eq!(reply.status(), HttpStatus::BadGateway);
    assert_eq!(reply.status().code(), 502);
    assert_eq!(reply.body().code(), "11002");
    assert_eq!(reply.body().msg(), "no record found for name: invalid.invalid.");
    assert!(reply.body().data().is_none());
}

#[test]
fn resolver_error_text_is_passed_on_verbatim() {
    let text = "  request timed out\n\t(after 5s) \u{00e9}\u{4e16} ";
    let reply = failed(text.to_string());
    assert_eq!(reply.body().msg(), text);
    assert_eq!(reply.status(), HttpStatus::BadGateway);
}

#[test]
fn domain_is_echoed_without_normalization() {
    for name in ["Example.COM.", " spaced name ", "", "xn--bcher-kva.example", "b\u{00fc}cher.example"] {
        let request = validate(Some(name.to_string())).expect("the domain is present");
        assert_eq!(request.domain, name);
        let reply = conclude(request, Ok(Vec::new()));
        let data = reply.body().data().expect("a success carries data");
        assert_eq!(data.domain, name);
    }
}

#[test]
fn empty_domain_is_present_and_goes_to_the_resolver() {
    let request = validate(Some(String::new())).expect("an empty domain is still a domain");
    assert_eq!(request.domain, "");
}

#[test]
fn addresses_keep_order_and_duplicates() {
    let addresses = vec![
        IpAddress::V6(0x2606, 0x2800, 0x220, 0x1, 0x248, 0x1893, 0x25c8, 0x1946),
        IpAddress::V4(93, 184, 216, 34),
        IpAddress::V4(10, 0, 0, 1),
        IpAddress::V4(93, 184, 216, 34),
    ];
    let reply = resolved(ResolutionRequest { domain: "example.com".to_string() }, addresses.clone());
    let data = reply.body().data().expect("a success carries data");
    assert_eq!(data.addresses, addresses);
}

#[test]
fn success_with_no_addresses_still_carries_data() {
    let reply = resolved(ResolutionRequest { domain: "example.com".to_string() }, Vec::new());
    assert!(reply.body().is_success());
    let data = reply.body().data().expect("a success carries data");
    assert!(data.addresses.is_empty());
}

#[test]
fn envelope_has_data_exactly_on_success() {
    let ok: ApiResponse<u8> = ApiResponse::success(7);
    assert!(ok.is_success());
    assert_eq!(ok.code(), "00000");
    assert_eq!(ok.data(), Some(&7));
    for kind in [Failure::Validation, Failure::Resolution] {
        let bad: ApiResponse<u8> = ApiResponse::failure(kind, "no".to_string());
        assert!(!bad.is_success());
        assert_ne!(bad.code(), "00000");
        assert_eq!(bad.data(), None);
    }
}

#[test]
fn envelope_comes_apart_into_its_fields() {
    let ok: ApiResponse<u8> = ApiResponse::success(7);
    assert_eq!(ok.into_parts(), ("00000".to_string(), "OK".to_string(), Some(7)));
    let bad: ApiResponse<u8> = ApiResponse::failure(Failure::Resolution, "boom".to_string());
    assert_eq!(bad.into_parts(), ("11002".to_string(), "boom".to_string(), None));
}

#[test]
fn failure_kinds_have_their_codes_and_statuses() {
    assert_eq!(Failure::Validation.code(), "11001");
    assert_eq!(Failure::Validation.status(), HttpStatus::BadRequest);
    assert_eq!(Failure::Resolution.code(), "11002");
    assert_eq!(Failure::Resolution.status(), HttpStatus::BadGateway);
}

#[test]
fn statuses_have_their_numbers() {
    assert_eq!(HttpStatus::Success.code(), 200);
    assert_eq!(HttpStatus::BadRequest.code(), 400);
    assert_eq!(HttpStatus::TooManyRequests.code(), 429);
    assert_eq!(HttpStatus::BadGateway.code(), 502);
}

#[test]
fn reply_comes_apart_into_status_and_envelope() {
    let reply = resolved(ResolutionRequest { domain: "example.com".to_string() }, Vec::new());
    let (status, body) = reply.into_parts();
    assert_eq!(status, HttpStatus::Success);
    assert_eq!(body.code(), "00000");
    let (status, body) = failed("timeout".to_string()).into_parts();
    assert_eq!(status, HttpStatus::BadGateway);
    let (code, msg, data) = body.into_parts();
    assert_eq!((code.as_str(), msg.as_str()), ("11002", "timeout"));
    assert!(data.is_none());
}

#[test]
fn status_is_success_exactly_when_there_is_data() {
    let replies = [
        missing_domain(),
        failed("refused".to_string()),
        resolved(ResolutionRequest { domain: "a.example".to_string() }, Vec::new()),
    ];
    for reply in replies {
        assert_eq!(reply.status() == HttpStatus::Success, reply.body().data().is_some());
        assert_eq!(reply.body().is_success(), reply.body().data().is_some());
    }
}
