use alphavantage::client::AlphavantageError;
use alphavantage::ident::derive_identifier;
use alphavantage::names::canonical_name;
use alphavantage::names::contains_str;
use alphavantage::names::default_segment;
use alphavantage::names::raw_endpoint_name;
use alphavantage::url::parse_port;
use alphavantage::url::parse_url;

#[test]
fn quote_endpoint_label_is_rewritten() {
    assert_eq!(raw_endpoint_name("Quote Endpoint"), "GLOBAL_QUOTE");
}

#[test]
fn search_endpoint_label_is_rewritten() {
    assert_eq!(raw_endpoint_name("Search Endpoint"), "SYMBOL_SEARCH");
}

#[test]
fn other_headings_resolve_to_themselves_trimmed() {
    assert_eq!(raw_endpoint_name("  Current Price \n"), "Current Price");
    assert_eq!(raw_endpoint_name("CURRENCY_EXCHANGE_RATE"), "CURRENCY_EXCHANGE_RATE");
}

#[test]
fn parenthesized_groups_are_stripped() {
    assert_eq!(derive_identifier("Time Series (Daily)"), "TimeSeries");
}

#[test]
fn ampersand_becomes_and() {
    assert_eq!(derive_identifier("Quotes & Info"), "QuotesAndInfo");
    assert_eq!(derive_identifier("Digital & Crypto Currencies (Beta)"), "DigitalAndCryptoCurrencies");
}

#[test]
fn identifier_derivation_is_idempotent_on_samples() {
    for title in [
        "Time Series (Daily)",
        "Quotes & Info",
        "Digital & Crypto Currencies (Beta)",
        "Fundamental Data",
    ] {
        let once = derive_identifier(title);
        assert_eq!(derive_identifier(&once), once);
    }
}

#[test]
fn canonical_names_are_snake_case() {
    assert_eq!(canonical_name("Current Price"), "current_price");
    assert_eq!(canonical_name("  INTRADAY   Series "), "intraday_series");
    assert_eq!(canonical_name("Quote Endpoint"), "quote_endpoint");
}

#[test]
fn default_segment_splits_on_equals() {
    assert_eq!(default_segment("outputsize=compact").as_deref(), Some("compact"));
    assert_eq!(default_segment("a=b=c").as_deref(), Some("b"));
    assert_eq!(default_segment("trailing=").as_deref(), Some(""));
    assert!(default_segment("nodefault").is_none());
}

#[test]
fn substring_search_finds_the_necessity_words() {
    assert!(contains_str("By default this one is Required.", "Required"));
    assert!(contains_str("Optional: interval", "Optional"));
    assert!(!contains_str("Require", "Required"));
    assert!(!contains_str("", "Optional"));
}

#[test]
fn urls_split_into_parts() {
    let u = parse_url("https://www.alphavantage.co/query?function=X").unwrap();
    assert!(u.https);
    assert_eq!(u.host, "www.alphavantage.co");
    assert_eq!(u.port, 443);
    assert_eq!(u.path_and_query, "/query?function=X");

    let u2 = parse_url("http://example.com:8080/a/b").unwrap();
    assert!(!u2.https);
    assert_eq!(u2.host, "example.com");
    assert_eq!(u2.port, 8080);
    assert_eq!(u2.path_and_query, "/a/b");
}

#[test]
fn unknown_scheme_is_rejected() {
    assert!(parse_url("ftp://example.com/x").is_none());
    assert!(parse_url("example.com/x").is_none());
}

#[test]
fn url_without_path_is_rejected() {
    assert!(parse_url("https://example.com").is_none());
}

#[test]
fn bad_port_is_rejected() {
    assert!(parse_url("http://example.com:99999/x").is_none());
    assert!(parse_url("http://example.com:12ab/x").is_none());
}

#[test]
fn port_parsing_bounds() {
    assert_eq!(parse_port("65535"), Some(65535));
    assert_eq!(parse_port("65536"), None);
    assert_eq!(parse_port("0"), Some(0));
    assert_eq!(parse_port(""), None);
}

#[test]
fn error_messages_are_fixed() {
    let e = AlphavantageError::Network("boom".to_string());
    assert_eq!(e.message(), "the network request failed");
    let e2 = AlphavantageError::InvalidJson("bad token".to_string());
    assert_eq!(e2.message(), "could not deserialize into json");
    assert_eq!(e2.detail().as_str(), "bad token");
}
