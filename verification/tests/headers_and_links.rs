use release_party::headers::{
    close_to_running_out_of_requests, parse_rate_limit, rate_decision, RateDecision,
    ResponseHeaders,
};
use release_party::links::{response_has_a_next_link, response_next_link, LinkError};

fn headers_with_rate(v: &str) -> ResponseHeaders {
    ResponseHeaders {
        link: None,
        rate_limit_remaining: Some(v.to_string()),
    }
}

fn headers_with_link(v: &str) -> ResponseHeaders {
    ResponseHeaders {
        link: Some(v.to_string()),
        rate_limit_remaining: None,
    }
}

fn empty_headers() -> ResponseHeaders {
    ResponseHeaders {
        link: None,
        rate_limit_remaining: None,
    }
}

#[test]
fn plenty_of_requests_left() {
    let plenty_left_headers = headers_with_rate("10000");
    assert_eq!(false, close_to_running_out_of_requests(&plenty_left_headers));
}

#[test]
fn almost_no_requests_left() {
    let nothing_left_headers = headers_with_rate("1");
    assert_eq!(true, close_to_running_out_of_requests(&nothing_left_headers));
}

#[test]
fn no_next_link() {
    assert_eq!(false, response_has_a_next_link(&empty_headers()));
}

#[test]
fn has_next_link() {
    let headers =
        headers_with_link("<http://example.com/TheBook/chapter2>; rel=\"next\"; title=\"next page\"");
    assert_eq!(true, response_has_a_next_link(&headers));
}

#[test]
fn finds_next_link() {
    let headers =
        headers_with_link("<http://example.com/TheBook/chapter3>; rel=\"next\"; title=\"next page\"");
    let expected_uri = "http://example.com/TheBook/chapter3";
    assert_eq!(expected_uri, response_next_link(&headers).unwrap());
}

#[test]
fn missing_rate_header_means_no_delay() {
    assert_eq!(false, close_to_running_out_of_requests(&empty_headers()));
    assert_eq!(RateDecision::Proceed, rate_decision(&empty_headers()));
}

#[test]
fn rate_thresholds() {
    assert_eq!(RateDecision::Exhausted, rate_decision(&headers_with_rate("0")));
    assert_eq!(RateDecision::Cooldown, rate_decision(&headers_with_rate("1")));
    assert_eq!(RateDecision::Cooldown, rate_decision(&headers_with_rate("9")));
    assert_eq!(RateDecision::Proceed, rate_decision(&headers_with_rate("10")));
    assert_eq!(RateDecision::Proceed, rate_decision(&headers_with_rate("55")));
}

#[test]
fn quoted_rate_value_parses_like_bare() {
    assert_eq!(Some(55), parse_rate_limit("\"55\""));
    assert_eq!(Some(55), parse_rate_limit("55"));
    assert_eq!(
        rate_decision(&headers_with_rate("\"55\"")),
        rate_decision(&headers_with_rate("55"))
    );
    assert_eq!(RateDecision::Cooldown, rate_decision(&headers_with_rate("\"5\"")));
    assert_eq!(RateDecision::Exhausted, rate_decision(&headers_with_rate("\"0\"")));
}

#[test]
fn malformed_rate_value_reads_as_ample() {
    assert_eq!(None, parse_rate_limit("plenty"));
    assert_eq!(None, parse_rate_limit(""));
    assert_eq!(None, parse_rate_limit("\"\""));
    assert_eq!(None, parse_rate_limit("12a"));
    assert_eq!(None, parse_rate_limit("99999999999999999999999999"));
    assert_eq!(RateDecision::Proceed, rate_decision(&headers_with_rate("plenty")));
    assert_eq!(false, close_to_running_out_of_requests(&headers_with_rate("plenty")));
}

#[test]
fn link_without_next_relation_has_no_next_page() {
    let headers =
        headers_with_link("<http://example.com/TheBook/chapter1>; rel=\"previous\"; title=\"previous page\"");
    assert_eq!(false, response_has_a_next_link(&headers));
    assert_eq!(Err(LinkError::NoNextLink), response_next_link(&headers));
}

#[test]
fn next_entry_among_several_is_found() {
    let headers = headers_with_link(
        "<http://example.com/TheBook/chapter1>; rel=\"previous\", \
         <http://example.com/TheBook/chapter3>; rel=\"next\"",
    );
    assert_eq!(true, response_has_a_next_link(&headers));
    assert_eq!(
        "http://example.com/TheBook/chapter3",
        response_next_link(&headers).unwrap()
    );
}

#[test]
fn next_relation_compares_case_insensitively() {
    let headers = headers_with_link("<http://example.com/p2>; rel=\"Next\"");
    assert_eq!(true, response_has_a_next_link(&headers));
}

#[test]
fn quoted_comma_does_not_split_entries() {
    let headers = headers_with_link(
        "<http://example.com/p2>; rel=\"next\"; title=\"two, pages\"",
    );
    assert_eq!(true, response_has_a_next_link(&headers));
    assert_eq!("http://example.com/p2", response_next_link(&headers).unwrap());
}

#[test]
fn next_entry_without_bracketed_url_is_malformed() {
    let headers = headers_with_link("http://example.com/p2; rel=\"next\"");
    assert_eq!(true, response_has_a_next_link(&headers));
    assert_eq!(Err(LinkError::MalformedNextLink), response_next_link(&headers));
}

#[test]
fn empty_headers_have_no_next_page_url() {
    assert_eq!(Err(LinkError::NoNextLink), response_next_link(&empty_headers()));
}
