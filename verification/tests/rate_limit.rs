use prompt_stream::rate_limit::find_header;
use prompt_stream::rate_limit::Header;
use prompt_stream::rate_limit::HeaderError;
use prompt_stream::rate_limit::MissingHeader;
use prompt_stream::rate_limit::RateLimitMetadata;
use prompt_stream::rate_limit::read_number;
use prompt_stream::rate_limit::read_text;

fn header(name: &str, value: &str) -> Header {
    Header { name: name.to_string(), value: Some(value.to_string()) }
}

fn all_headers() -> Vec<Header> {
    vec![
        header("content-type", "text/event-stream"),
        header("retry-after", "20"),
        header("retry-after-ms", "20000"),
        header("x-ratelimit-limit-requests", "5000"),
        header("x-ratelimit-limit-tokens", "160000"),
        header("x-ratelimit-remaining-requests", "4999"),
        header("x-ratelimit-remaining-tokens", "159976"),
        header("x-ratelimit-reset-requests", "12ms"),
        header("x-ratelimit-reset-tokens", "6m0s"),
    ]
}

fn without(name: &str) -> Vec<Header> {
    all_headers().into_iter().filter(|h| h.name != name).collect()
}

fn with_value(name: &str, value: Option<&str>) -> Vec<Header> {
    all_headers()
        .into_iter()
        .map(|h| {
            if h.name == name {
                Header { name: h.name, value: value.map(str::to_string) }
            } else {
                h
            }
        })
        .collect()
}

#[test]
fn metadata_is_read_from_the_eight_headers() {
    let metadata = RateLimitMetadata::from_headers(&all_headers()).unwrap();
    assert_eq!(
        metadata,
        RateLimitMetadata {
            retry_after: 20,
            retry_after_ms: 20000,
            ratelimit_limit_requests: 5000,
            ratelimit_limit_tokens: 160000,
            ratelimit_remaining_requests: 4999,
            ratelimit_remaining_tokens: 159976,
            ratelimit_reset_requests: "12ms".to_string(),
            ratelimit_reset_tokens: "6m0s".to_string(),
        }
    );
    assert_eq!(RateLimitMetadata::extract(&all_headers()), Some(metadata));
}

#[test]
fn metadata_is_had_whole_or_not_at_all() {
    let names = [
        "retry-after",
        "retry-after-ms",
        "x-ratelimit-limit-requests",
        "x-ratelimit-limit-tokens",
        "x-ratelimit-remaining-requests",
        "x-ratelimit-remaining-tokens",
        "x-ratelimit-reset-requests",
        "x-ratelimit-reset-tokens",
    ];
    for name in names {
        let headers = without(name);
        assert_eq!(
            RateLimitMetadata::from_headers(&headers),
            Err(HeaderError::Missing(MissingHeader(name.to_string())))
        );
        assert_eq!(RateLimitMetadata::extract(&headers), None);
    }
    assert_eq!(RateLimitMetadata::extract(&Vec::new()), None);
    assert_eq!(
        RateLimitMetadata::from_headers(&Vec::new()),
        Err(HeaderError::Missing(MissingHeader("retry-after".to_string())))
    );
}

#[test]
fn a_value_that_is_not_text_ends_the_reading() {
    let headers = with_value("x-ratelimit-limit-tokens", None);
    assert_eq!(
        RateLimitMetadata::from_headers(&headers),
        Err(HeaderError::NotText("x-ratelimit-limit-tokens".to_string()))
    );
    let headers = with_value("x-ratelimit-reset-tokens", None);
    assert_eq!(
        RateLimitMetadata::from_headers(&headers),
        Err(HeaderError::NotText("x-ratelimit-reset-tokens".to_string()))
    );
    assert_eq!(RateLimitMetadata::extract(&headers), None);
}

#[test]
fn a_count_that_is_no_number_ends_the_reading() {
    for name in [
        "retry-after",
        "retry-after-ms",
        "x-ratelimit-limit-requests",
        "x-ratelimit-limit-tokens",
        "x-ratelimit-remaining-requests",
        "x-ratelimit-remaining-tokens",
    ] {
        let headers = with_value(name, Some("soon"));
        assert_eq!(
            RateLimitMetadata::from_headers(&headers),
            Err(HeaderError::NotNumber(name.to_string()))
        );
        assert_eq!(RateLimitMetadata::extract(&headers), None);
    }
}

#[test]
fn a_missing_header_is_found_before_a_wrong_number() {
    let headers: Vec<Header> = with_value("retry-after", Some("-1"))
        .into_iter()
        .filter(|h| h.name != "x-ratelimit-reset-tokens")
        .collect();
    assert_eq!(
        RateLimitMetadata::from_headers(&headers),
        Err(HeaderError::Missing(MissingHeader("x-ratelimit-reset-tokens".to_string())))
    );
}

#[test]
fn the_first_header_of_a_name_counts() {
    let mut headers = all_headers();
    headers.push(header("retry-after", "99"));
    headers.insert(0, header("x-ratelimit-limit-requests", "1"));
    let metadata = RateLimitMetadata::from_headers(&headers).unwrap();
    assert_eq!(metadata.retry_after, 20);
    assert_eq!(metadata.ratelimit_limit_requests, 1);
    assert_eq!(find_header(&headers, "retry-after").unwrap().value, Some("20".to_string()));
    assert!(find_header(&headers, "etag").is_none());
}

#[test]
fn header_texts_and_numbers_are_read_one_by_one() {
    let headers = with_value("retry-after-ms", None);
    assert_eq!(read_text(&headers, "retry-after"), Ok("20".to_string()));
    assert_eq!(
        read_text(&headers, "retry-after-ms"),
        Err(HeaderError::NotText("retry-after-ms".to_string()))
    );
    assert_eq!(
        read_text(&headers, "age"),
        Err(HeaderError::Missing(MissingHeader("age".to_string())))
    );
    assert_eq!(read_number(&"20".to_string(), "retry-after"), Ok(20));
    assert_eq!(
        read_number(&"2.5".to_string(), "retry-after"),
        Err(HeaderError::NotNumber("retry-after".to_string()))
    );
}

#[test]
fn a_missing_header_is_named_in_its_message() {
    assert_eq!(
        MissingHeader("retry-after".to_string()).message(),
        "Missing header: 'retry-after'."
    );
}

#[test]
fn header_names_are_read_in_any_case() {
    let headers: Vec<Header> = all_headers()
        .into_iter()
        .map(|h| Header { name: h.name.to_uppercase(), value: h.value })
        .collect();
    let metadata = RateLimitMetadata::from_headers(&headers).unwrap();
    assert_eq!(Some(metadata), RateLimitMetadata::extract(&all_headers()));
    let headers = vec![header("Retry-After", "3"), header("retry-after", "4")];
    assert_eq!(find_header(&headers, "retry-after").unwrap().value, Some("3".to_string()));
    assert!(find_header(&headers, "Retry-After").is_none());
}
