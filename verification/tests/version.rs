use simple_server_analytics::version::HttpVersion;

#[test]
fn every_version_has_its_label() {
    assert_eq!(HttpVersion::Http09.to_string(), "HTTP/0.9");
    assert_eq!(HttpVersion::Http10.to_string(), "HTTP/1.0");
    assert_eq!(HttpVersion::Http11.to_string(), "HTTP/1.1");
    assert_eq!(HttpVersion::Http2.to_string(), "HTTP/2");
    assert_eq!(HttpVersion::Http3.to_string(), "HTTP/3");
    assert_eq!(HttpVersion::Unknown.to_string(), "Unknown");
    assert_eq!(HttpVersion::Http11.as_str(), "HTTP/1.1");
}

#[test]
fn every_spelling_is_read() {
    assert_eq!(HttpVersion::from_str("HTTP/0.9"), Ok(HttpVersion::Http09));
    assert_eq!(HttpVersion::from_str("0.9"), Ok(HttpVersion::Http09));
    assert_eq!(HttpVersion::from_str("HTTP/1"), Ok(HttpVersion::Http10));
    assert_eq!(HttpVersion::from_str("1"), Ok(HttpVersion::Http10));
    assert_eq!(HttpVersion::from_str("HTTP/1.0"), Ok(HttpVersion::Http10));
    assert_eq!(HttpVersion::from_str("1.0"), Ok(HttpVersion::Http10));
    assert_eq!(HttpVersion::from_str("HTTP/1.1"), Ok(HttpVersion::Http11));
    assert_eq!(HttpVersion::from_str("1.1"), Ok(HttpVersion::Http11));
    assert_eq!(HttpVersion::from_str("HTTP/2"), Ok(HttpVersion::Http2));
    assert_eq!(HttpVersion::from_str("2"), Ok(HttpVersion::Http2));
    assert_eq!(HttpVersion::from_str("HTTP/2.0"), Ok(HttpVersion::Http2));
    assert_eq!(HttpVersion::from_str("2.0"), Ok(HttpVersion::Http2));
    assert_eq!(HttpVersion::from_str("HTTP/3"), Ok(HttpVersion::Http3));
    assert_eq!(HttpVersion::from_str("3"), Ok(HttpVersion::Http3));
    assert_eq!(HttpVersion::from_str("HTTP/3.0"), Ok(HttpVersion::Http3));
    assert_eq!(HttpVersion::from_str("3.0"), Ok(HttpVersion::Http3));
}

#[test]
fn any_other_text_is_unknown() {
    assert_eq!(HttpVersion::from_str("Unknown"), Ok(HttpVersion::Unknown));
    assert_eq!(HttpVersion::from_str(""), Ok(HttpVersion::Unknown));
    assert_eq!(HttpVersion::from_str("http/1.1"), Ok(HttpVersion::Unknown));
    assert_eq!(HttpVersion::from_str("HTTP/1.1 "), Ok(HttpVersion::Unknown));
    assert_eq!(HttpVersion::from_str("HTTP/4"), Ok(HttpVersion::Unknown));
    assert_eq!(HttpVersion::from_str("1.2"), Ok(HttpVersion::Unknown));
}

#[test]
fn a_label_is_read_back_as_its_version() {
    let all: Vec<HttpVersion> = vec![
        HttpVersion::Http09,
        HttpVersion::Http10,
        HttpVersion::Http11,
        HttpVersion::Http2,
        HttpVersion::Http3,
        HttpVersion::Unknown,
    ];
    for version in all {
        assert_eq!(HttpVersion::from_str(&version.to_string()), Ok(version));
    }
}
