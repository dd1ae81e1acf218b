use base64::engine::general_purpose::STANDARD;
use base64::Engine;
use rss_qualifier::error::AppError;
use rss_qualifier::request_handling::{
    check_url, decode_request_path, path_payload, qualified_reply, rejection, url_of_decoded,
    PathError, STATUS_BAD_REQUEST, STATUS_INTERNAL_SERVER_ERROR, STATUS_OK,
};

#[test]
fn leading_slashes_are_dropped_and_no_others() {
    assert_eq!(path_payload(b"/abc"), b"abc");
    assert_eq!(path_payload(b"///a/b/"), b"a/b/");
    assert_eq!(path_payload(b"abc"), b"abc");
    assert_eq!(path_payload(b"/"), b"");
    assert_eq!(path_payload(b""), b"");
}

#[test]
fn a_path_that_encodes_a_url_names_that_url() {
    let path = format!("/{}", STANDARD.encode("https://example.com/feed.xml"));
    assert_eq!(decode_request_path(&path), Ok("https://example.com/feed.xml".to_string()));
    assert_eq!(
        decode_request_path("/aHR0cHM6Ly9leGFtcGxlLmNvbS9mZWVkLnhtbA=="),
        Ok("https://example.com/feed.xml".to_string())
    );
}

#[test]
fn the_url_comes_back_in_its_serialized_form() {
    let path = STANDARD.encode("HTTPS://Example.COM");
    assert_eq!(decode_request_path(&path), Ok("https://example.com/".to_string()));
}

#[test]
fn a_path_that_is_not_base64_is_rejected() {
    assert_eq!(decode_request_path("/not base64!"), Err(PathError::Base64));
    assert_eq!(decode_request_path("/aHR0cHM6Ly9leGFtcGxlLmNvbQ"), Err(PathError::Base64));
    assert_eq!(decode_request_path("/a/b"), Err(PathError::Base64));
}

#[test]
fn decoded_bytes_that_are_not_utf8_are_rejected() {
    let path = format!("/{}", STANDARD.encode([0xc3u8, 0x28]));
    assert_eq!(path, "/wyg=");
    assert_eq!(decode_request_path(&path), Err(PathError::Utf8));
}

#[test]
fn slashes_that_open_the_encoded_text_are_dropped_too() {
    let encoded = STANDARD.encode([0xffu8, 0xfe, 0xfd]);
    assert_eq!(encoded, "//79");
    assert_eq!(path_payload(format!("/{}", encoded).as_bytes()), b"79");
    assert_eq!(decode_request_path(&format!("/{}", encoded)), Err(PathError::Base64));
}

#[test]
fn decoded_text_that_is_no_url_is_rejected() {
    let path = format!("/{}", STANDARD.encode("not a url"));
    assert_eq!(decode_request_path(&path), Err(PathError::Url));
    assert_eq!(decode_request_path("/"), Err(PathError::Url));
    assert_eq!(decode_request_path(""), Err(PathError::Url));
}

#[test]
fn decoded_bytes_are_checked_in_order() {
    assert_eq!(url_of_decoded(None), Err(PathError::Base64));
    assert_eq!(url_of_decoded(Some(vec![0xc3, 0x28])), Err(PathError::Utf8));
    assert_eq!(url_of_decoded(Some(b"example.com/feed".to_vec())), Err(PathError::Url));
    assert_eq!(
        url_of_decoded(Some("http://example.com/ä".as_bytes().to_vec())),
        Ok("http://example.com/%C3%A4".to_string())
    );
}

#[test]
fn check_url_reports_the_parsers_message() {
    assert_eq!(check_url("http://example.com/a b").ok(), Some("http://example.com/a%20b".to_string()));
    match check_url("example.com") {
        Err(error) => assert_eq!(error.message(), "Url error: relative URL without a base"),
        Ok(_) => panic!("a URL needs a scheme"),
    }
    match check_url("http://") {
        Err(AppError::UrlParseError(message)) => assert_eq!(message, "empty host"),
        _ => panic!("a URL needs a host"),
    }
}

#[test]
fn each_rejection_is_a_bad_request_with_its_own_words() {
    let reply = rejection(PathError::Base64);
    assert_eq!(reply.status, 400);
    assert_eq!(reply.status, STATUS_BAD_REQUEST);
    assert_eq!(reply.body, "Failed to decode Base64 path");
    let reply = rejection(PathError::Utf8);
    assert_eq!(reply.status, 400);
    assert_eq!(reply.body, "Invalid UTF-8 sequence in Base64 decoded URL");
    let reply = rejection(PathError::Url);
    assert_eq!(reply.status, 400);
    assert_eq!(reply.body, "Invalid URL in Base64 decoded path");
}

#[test]
fn an_enriched_feed_is_served_as_it_is() {
    let reply = qualified_reply(Ok("<rss/>".to_string()));
    assert_eq!(reply.status, 200);
    assert_eq!(reply.status, STATUS_OK);
    assert_eq!(reply.body, "<rss/>");
}

#[test]
fn a_failed_feed_is_an_internal_error_with_the_cause() {
    let reply = qualified_reply(Err(AppError::ScrapeError("Failed to parse feed".to_string())));
    assert_eq!(reply.status, 500);
    assert_eq!(reply.status, STATUS_INTERNAL_SERVER_ERROR);
    assert_eq!(reply.body, "Could not qualify RSS: ScraperError: Failed to parse feed");
    let reply = qualified_reply(Err(AppError::Reqwest("connection refused".to_string())));
    assert_eq!(reply.status, 500);
    assert_eq!(reply.body, "Could not qualify RSS: HTTP request error: connection refused");
}
