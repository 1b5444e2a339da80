use session_store::cookies::{cookies, parse_cookie_header, SameSite, SetCookie};
use session_store::StringHashMap;

fn value<'a>(parsed: &'a StringHashMap<String>, name: &str) -> Option<&'a str> {
    parsed.get(name).map(|v| v.as_str())
}

#[test]
fn single_cookie() {
    let parsed = parse_cookie_header("SESSION_ID=abc123");
    assert_eq!(parsed.len(), 1);
    assert_eq!(value(&parsed, "SESSION_ID"), Some("abc123"));
}

#[test]
fn several_cookies_are_trimmed() {
    let parsed = parse_cookie_header("a=1; b=2 ;\tc=3\r\n");
    assert_eq!(parsed.len(), 3);
    assert_eq!(value(&parsed, "a"), Some("1"));
    assert_eq!(value(&parsed, "b"), Some("2"));
    assert_eq!(value(&parsed, "c"), Some("3"));
}

#[test]
fn last_of_a_repeated_name_wins() {
    let parsed = parse_cookie_header("a=1; b=2; a=3");
    assert_eq!(parsed.len(), 2);
    assert_eq!(value(&parsed, "a"), Some("3"));
    assert_eq!(value(&parsed, "b"), Some("2"));
}

#[test]
fn split_is_at_the_first_equals_sign() {
    let parsed = parse_cookie_header("token=x=y=z");
    assert_eq!(parsed.len(), 1);
    assert_eq!(value(&parsed, "token"), Some("x=y=z"));
}

#[test]
fn only_the_ends_of_an_entry_are_trimmed() {
    let parsed = parse_cookie_header("  a = 1  ");
    assert_eq!(parsed.len(), 1);
    assert_eq!(value(&parsed, "a "), Some(" 1"));
    assert_eq!(value(&parsed, "a"), None);
}

#[test]
fn empty_name_and_empty_value() {
    let parsed = parse_cookie_header("=v; k=");
    assert_eq!(parsed.len(), 2);
    assert_eq!(value(&parsed, ""), Some("v"));
    assert_eq!(value(&parsed, "k"), Some(""));
}

#[test]
fn entry_without_separator_is_passed_over() {
    let parsed = parse_cookie_header("junk; a=1; more junk ;b=2");
    assert_eq!(parsed.len(), 2);
    assert_eq!(value(&parsed, "a"), Some("1"));
    assert_eq!(value(&parsed, "b"), Some("2"));
    assert_eq!(value(&parsed, "junk"), None);
}

#[test]
fn empty_header_and_empty_entries() {
    assert_eq!(parse_cookie_header("").len(), 0);
    assert_eq!(parse_cookie_header(";").len(), 0);
    assert_eq!(parse_cookie_header("   ").len(), 0);
    let parsed = parse_cookie_header(";;a=1;");
    assert_eq!(parsed.len(), 1);
    assert_eq!(value(&parsed, "a"), Some("1"));
}

#[test]
fn unicode_white_space_is_trimmed() {
    let parsed = parse_cookie_header("\u{3000}a=1\u{a0};\u{2003}b=2\u{85}\u{2028};\u{1680}c=3\u{205f}");
    assert_eq!(parsed.len(), 3);
    assert_eq!(value(&parsed, "a"), Some("1"));
    assert_eq!(value(&parsed, "b"), Some("2"));
    assert_eq!(value(&parsed, "c"), Some("3"));
}

#[test]
fn characters_that_only_look_like_space_stay() {
    // U+200B (zero width space) and U+FEFF are not white space.
    let parsed = parse_cookie_header("\u{200b}a=1\u{feff}");
    assert_eq!(parsed.len(), 1);
    assert_eq!(value(&parsed, "\u{200b}a"), Some("1\u{feff}"));
}

#[test]
fn trimming_agrees_with_the_standard_library() {
    let mut code: u32 = 0;
    while code < 0x3100 {
        if let Some(c) = char::from_u32(code) {
            if c != ';' && c != '=' {
                let header = format!("{}n=v{}", c, c);
                let parsed = parse_cookie_header(&header);
                let (name, text) = header.trim().split_once('=').unwrap();
                assert_eq!(parsed.len(), 1);
                assert_eq!(value(&parsed, name), Some(text));
            }
        }
        code += 1;
    }
}

#[test]
fn text_beyond_ascii() {
    let parsed = parse_cookie_header("ключ=значение; 名前=値");
    assert_eq!(parsed.len(), 2);
    assert_eq!(value(&parsed, "ключ"), Some("значение"));
    assert_eq!(value(&parsed, "名前"), Some("値"));
}

#[test]
fn request_without_cookie_header_has_no_cookies() {
    let mut headers: StringHashMap<String> = StringHashMap::new();
    headers.insert(String::from("host"), String::from("example.org"));
    assert!(cookies(&headers).is_none());
}

#[test]
fn request_with_cookie_header() {
    let mut headers: StringHashMap<String> = StringHashMap::new();
    headers.insert(String::from("host"), String::from("example.org"));
    headers.insert(String::from("cookie"), String::from("theme=dark; SESSION_ID=abc123"));
    let parsed = cookies(&headers).unwrap();
    assert_eq!(parsed.len(), 2);
    assert_eq!(value(&parsed, "theme"), Some("dark"));
    assert_eq!(value(&parsed, "SESSION_ID"), Some("abc123"));
}

#[test]
fn header_name_is_matched_as_written() {
    let mut headers: StringHashMap<String> = StringHashMap::new();
    headers.insert(String::from("Cookie"), String::from("a=1"));
    assert!(cookies(&headers).is_none());
}

#[test]
fn malformed_cookie_does_not_hide_the_others() {
    let mut headers: StringHashMap<String> = StringHashMap::new();
    headers.insert(String::from("cookie"), String::from("broken; SESSION_ID=abc123"));
    let parsed = cookies(&headers).unwrap();
    assert_eq!(parsed.len(), 1);
    assert_eq!(value(&parsed, "SESSION_ID"), Some("abc123"));
}

#[test]
fn set_cookie_is_plain_data() {
    let directive = SetCookie {
        value: String::from("v"),
        domain: Some(String::from("example.org")),
        expires: None,
        httponly: true,
        max_age: Some(60),
        partitioned: false,
        path: Some(String::from("/")),
        samesite: Some(SameSite::Lax),
        secure: true,
    };
    assert_eq!(directive.value, "v");
    assert_eq!(directive.domain.as_deref(), Some("example.org"));
    assert_eq!(directive.max_age, Some(60));
    assert_eq!(directive.samesite, Some(SameSite::Lax));
    assert_ne!(SameSite::Strict, SameSite::Unrestricted);
}
