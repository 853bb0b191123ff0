use kite_connect::connect::{
    check_candles_session, check_response, endpoint_url, gtt_path, historical_url,
    instrument_query, instruments_path, margins_path, order_form, order_path, order_trades_path,
    response_error, variety_order_path, BASE_URL, KITE_VERSION,
};
use kite_connect::text::{byte_prefix, contains, push_decimal};
use kite_connect::{KiteClient, KiteError};

#[test]
fn login_url_names_the_api_key() {
    let c = KiteClient::new("abc", "xyz");
    assert_eq!(c.login_url(), "https://kite.trade/connect/login?api_key=abc&v3");
}

#[test]
fn authorization_follows_the_access_token() {
    let mut c = KiteClient::new("abc", "xyz");
    assert_eq!(c.authorization(), "token abc:xyz");
    c.set_access_token("new");
    assert_eq!(c.authorization(), "token abc:new");
    assert_eq!(c.login_url(), "https://kite.trade/connect/login?api_key=abc&v3");
}

#[test]
fn addresses() {
    assert_eq!(BASE_URL, "https://api.kite.trade");
    assert_eq!(KITE_VERSION, "3");
    assert_eq!(endpoint_url("/user/profile"), "https://api.kite.trade/user/profile");
    assert_eq!(margins_path(None), "/user/margins");
    assert_eq!(margins_path(Some("equity")), "/user/margins/equity");
    assert_eq!(instruments_path(None), "/instruments");
    assert_eq!(instruments_path(Some("NSE")), "/instruments/NSE");
    assert_eq!(order_path("151220000000000"), "/orders/151220000000000");
    assert_eq!(order_trades_path("42"), "/orders/42/trades");
    assert_eq!(variety_order_path("regular", "42"), "/orders/regular/42");
    assert_eq!(gtt_path(0), "/gtt/triggers/0");
    assert_eq!(gtt_path(123456), "/gtt/triggers/123456");
    assert_eq!(gtt_path(u64::MAX), format!("/gtt/triggers/{}", u64::MAX));
}

#[test]
fn historical_address() {
    assert_eq!(
        historical_url("5633", "2024-01-01", "2024-01-31", "day"),
        "https://api.kite.trade/instruments/historical/5633/day?from=2024-01-01&to=2024-01-31&continuous=false"
    );
}

#[test]
fn quote_query_repeats_the_i_parameter() {
    let q = instrument_query(&["NSE:INFY", "NSE:RELIANCE"]);
    assert_eq!(
        q,
        vec![
            ("i".to_string(), "NSE:INFY".to_string()),
            ("i".to_string(), "NSE:RELIANCE".to_string())
        ]
    );
    assert!(instrument_query(&[]).is_empty());
}

#[test]
fn checksum_is_hex_sha256_of_key_token_secret() {
    let c = KiteClient::new("a", "unused");
    // SHA-256 of "abc".
    assert_eq!(
        c.session_checksum("b", "c"),
        "ba7816bf8f01cfea414140de5dae2223b00361a396177a9cb410ff61f20015ad"
    );
    // SHA-256 of the empty text.
    let e = KiteClient::new("", "");
    assert_eq!(
        e.session_checksum("", ""),
        "e3b0c44298fc1c149afbf4c8996fb92427ae41e4649b934ca495991b7852b855"
    );
}

#[test]
fn session_and_renew_forms() {
    let c = KiteClient::new("a", "t");
    let abc = "ba7816bf8f01cfea414140de5dae2223b00361a396177a9cb410ff61f20015ad".to_string();
    assert_eq!(
        c.session_form("b", "c"),
        vec![
            ("api_key".to_string(), "a".to_string()),
            ("checksum".to_string(), abc.clone()),
            ("request_token".to_string(), "b".to_string()),
        ]
    );
    assert_eq!(
        c.renew_form("b", "c"),
        vec![
            ("api_key".to_string(), "a".to_string()),
            ("checksum".to_string(), abc),
            ("refresh_token".to_string(), "b".to_string()),
        ]
    );
}

#[test]
fn success_below_400() {
    assert_eq!(check_response(200, r#"{"status":"success","data":{}}"#), Ok(()));
    assert_eq!(check_response(399, "plain text"), Ok(()));
}

#[test]
fn token_error_on_403_is_an_expired_session() {
    let body = r#"{"status":"error","message":"Incorrect api_key or access_token.","error_type":"TokenException"}"#;
    assert_eq!(check_response(403, body), Err(KiteError::SessionExpired));
    let body = r#"{"error_type":"SomeTokenError"}"#;
    assert_eq!(check_response(403, body), Err(KiteError::SessionExpired));
}

#[test]
fn other_403_is_an_api_error() {
    let body = r#"{"message":"Forbidden","error_type":"PermissionException"}"#;
    assert_eq!(
        check_response(403, body),
        Err(KiteError::Api { status: 403, message: "Forbidden".to_string() })
    );
}

#[test]
fn api_error_without_message() {
    assert_eq!(
        check_response(500, "<html>oops</html>"),
        Err(KiteError::Api { status: 500, message: "Unknown error".to_string() })
    );
    assert_eq!(
        check_response(404, r#"{"message": 5}"#),
        Err(KiteError::Api { status: 404, message: "Unknown error".to_string() })
    );
    // A token error type counts only on a 403.
    assert_eq!(
        check_response(401, r#"{"error_type":"TokenException","message":"m"}"#),
        Err(KiteError::Api { status: 401, message: "m".to_string() })
    );
}

#[test]
fn verdict_from_members() {
    assert_eq!(
        response_error(403, Some("TokenException".to_string()), None),
        Err(KiteError::SessionExpired)
    );
    assert_eq!(
        response_error(403, None, Some("no".to_string())),
        Err(KiteError::Api { status: 403, message: "no".to_string() })
    );
    assert_eq!(response_error(201, Some("TokenException".to_string()), None), Ok(()));
}

#[test]
fn candle_session_check() {
    assert_eq!(check_candles_session(Some("TokenException")), Err(KiteError::SessionExpired));
    assert_eq!(check_candles_session(Some("TokenExceptionX")), Ok(()));
    assert_eq!(check_candles_session(None), Ok(()));
}

#[test]
fn error_messages() {
    assert_eq!(KiteError::Http("timeout".to_string()).message(), "HTTP error: timeout");
    assert_eq!(
        KiteError::Api { status: 429, message: "Too many requests".to_string() }.message(),
        "Kite API error: 429 \u{2014} Too many requests"
    );
    assert_eq!(KiteError::SessionExpired.message(), "Session expired (403)");
    assert_eq!(KiteError::WebSocket("closed".to_string()).message(), "WebSocket error: closed");
    assert_eq!(
        KiteError::Serialization("bad".to_string()).message(),
        "Serialization error: bad"
    );
    assert_eq!(
        KiteError::Connection("refused".to_string()).message(),
        "Connection error: refused"
    );
}

#[test]
fn text_helpers() {
    assert!(contains("TokenException", "Token"));
    assert!(contains("abc", ""));
    assert!(!contains("Tok", "Token"));
    assert!(contains("xxTokenyy", "Token"));
    let mut s = String::from("n=");
    push_decimal(&mut s, 0);
    assert_eq!(s, "n=0");
    let mut s = String::new();
    push_decimal(&mut s, 1_000_000_007);
    assert_eq!(s, "1000000007");
}

#[test]
fn order_form_lists_given_fields_in_name_order() {
    let f = order_form(
        "regular", "NSE", "INFY-EQ", "BUY", 1, "CNC", "LIMIT", Some("1500.0"), Some("DAY"), None,
    );
    let pairs: Vec<(&str, &str)> = f.iter().map(|(k, v)| (k.as_str(), v.as_str())).collect();
    assert_eq!(
        pairs,
        vec![
            ("exchange", "NSE"),
            ("order_type", "LIMIT"),
            ("price", "1500.0"),
            ("product", "CNC"),
            ("quantity", "1"),
            ("tradingsymbol", "INFY-EQ"),
            ("transaction_type", "BUY"),
            ("validity", "DAY"),
            ("variety", "regular"),
        ]
    );
    let g = order_form("amo", "BSE", "X", "SELL", 250, "MIS", "SL", None, None, Some("99.5"));
    let names: Vec<&str> = g.iter().map(|(k, _)| k.as_str()).collect();
    assert_eq!(
        names,
        vec![
            "exchange", "order_type", "product", "quantity", "tradingsymbol",
            "transaction_type", "trigger_price", "variety",
        ]
    );
    assert_eq!(g[3].1, "250");
    assert_eq!(g[6].1, "99.5");
}

#[test]
fn every_request_carries_version_and_authorization() {
    let c = KiteClient::new("key", "tok");
    assert_eq!(
        c.request_headers(),
        vec![
            ("X-Kite-Version".to_string(), "3".to_string()),
            ("Authorization".to_string(), "token key:tok".to_string()),
        ]
    );
    assert_eq!(c.session_checksum("anything", "secret").len(), 64);
}

#[test]
fn byte_prefix_ends_between_characters() {
    assert_eq!(byte_prefix("hello", 200), "hello");
    assert_eq!(byte_prefix("hello", 3), "hel");
    assert_eq!(byte_prefix("", 0), "");
    // The rupee sign takes three bytes; a limit of 2 or 4 cannot end inside it.
    assert_eq!(byte_prefix("a\u{20b9}b", 2), "a");
    assert_eq!(byte_prefix("a\u{20b9}b", 4), "a\u{20b9}");
    let long = "\u{20b9}".repeat(100);
    assert_eq!(byte_prefix(&long, 200).len(), 198);
}
