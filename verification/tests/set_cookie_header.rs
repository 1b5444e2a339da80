use session_store::cookies::{SameSite, SetCookie};
use session_store::registry::SessionStore;
use session_store::sessions::start_session;
use session_store::StringHashMap;

fn plain(value: &str) -> SetCookie {
    SetCookie {
        value: String::from(value),
        domain: None,
        expires: None,
        httponly: false,
        max_age: None,
        partitioned: false,
        path: None,
        samesite: None,
        secure: false,
    }
}

#[test]
fn name_and_value_alone() {
    assert_eq!(plain("b").header_value("a"), "a=b");
    assert_eq!(plain("").header_value("a"), "a=");
}

#[test]
fn every_attribute_in_order() {
    let directive = SetCookie {
        value: String::from("v"),
        domain: Some(String::from("example.org")),
        expires: Some(String::from("Wed, 21 Oct 2015 07:28:00 GMT")),
        httponly: true,
        max_age: Some(3600),
        partitioned: true,
        path: Some(String::from("/")),
        samesite: Some(SameSite::Lax),
        secure: true,
    };
    assert_eq!(
        directive.header_value("id"),
        "id=v; Domain=example.org; Path=/; Expires=Wed, 21 Oct 2015 07:28:00 GMT; Max-Age=3600; Secure; HttpOnly; SameSite=Lax; Partitioned"
    );
}

#[test]
fn max_age_in_decimal() {
    let mut directive = plain("v");
    directive.max_age = Some(0);
    assert_eq!(directive.header_value("n"), "n=v; Max-Age=0");
    directive.max_age = Some(9);
    assert_eq!(directive.header_value("n"), "n=v; Max-Age=9");
    directive.max_age = Some(10);
    assert_eq!(directive.header_value("n"), "n=v; Max-Age=10");
    directive.max_age = Some(1_002_003);
    assert_eq!(directive.header_value("n"), "n=v; Max-Age=1002003");
    directive.max_age = Some(u32::MAX);
    assert_eq!(directive.header_value("n"), "n=v; Max-Age=4294967295");
}

#[test]
fn same_site_words() {
    let mut directive = plain("v");
    directive.samesite = Some(SameSite::Strict);
    assert_eq!(directive.header_value("n"), "n=v; SameSite=Strict");
    directive.samesite = Some(SameSite::Lax);
    assert_eq!(directive.header_value("n"), "n=v; SameSite=Lax");
    directive.samesite = Some(SameSite::Unrestricted);
    assert_eq!(directive.header_value("n"), "n=v; SameSite=None");
}

#[test]
fn single_flags() {
    let mut directive = plain("v");
    directive.secure = true;
    assert_eq!(directive.header_value("n"), "n=v; Secure");
    let mut directive = plain("v");
    directive.httponly = true;
    assert_eq!(directive.header_value("n"), "n=v; HttpOnly");
    let mut directive = plain("v");
    directive.partitioned = true;
    assert_eq!(directive.header_value("n"), "n=v; Partitioned");
    let mut directive = plain("v");
    directive.path = Some(String::from("/app"));
    assert_eq!(directive.header_value("n"), "n=v; Path=/app");
}

#[test]
fn session_cookie_as_a_header() {
    let mut store = SessionStore::new();
    let headers: StringHashMap<String> = StringHashMap::new();
    let mut set_cookie: StringHashMap<SetCookie> = StringHashMap::new();
    let session = start_session(&mut store, &headers, &mut set_cookie).unwrap();
    let header = set_cookie.get("SESSION_ID").unwrap().header_value("SESSION_ID");
    assert_eq!(
        header,
        format!("SESSION_ID={}; HttpOnly; SameSite=Strict", session.session_key())
    );
}
