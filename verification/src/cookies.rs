//! Cookies: the `Cookie` request header read into a map, and the
//! `Set-Cookie` response header written from its description.
//!
//! A `Cookie` header is a list of entries separated by `;`. Each entry is
//! trimmed of surrounding white space and split at its first `=` into a name
//! and a value. An entry without `=` is passed over; the entries around it
//! still count. Where a name occurs more than once, the last entry wins.

use crate::text::{
    chars_of, decimal, decimal_text, lemma_position, position, split, trim, trim_bounds,
};
use vstd::hash_map::StringHashMap;
use vstd::prelude::*;

verus! {

/// The `SameSite` attribute of a cookie.
#[derive(Debug, Clone, Copy, PartialEq, Eq, Structural)]
pub enum SameSite {
    Strict,
    Lax,
    /// Written `SameSite=None` on the wire: the cookie travels with
    /// cross-site requests too.
    Unrestricted,
}

/// What a `Set-Cookie` header says, apart from the cookie's name.
#[derive(Debug, Clone)]
pub struct SetCookie {
    pub value: String,
    pub domain: Option<String>,
    pub expires: Option<String>,
    pub httponly: bool,
    pub max_age: Option<u32>,
    pub partitioned: bool,
    pub path: Option<String>,
    pub samesite: Option<SameSite>,
    pub secure: bool,
}

/// A [`SetCookie`] with its texts as sequences of characters.
pub struct SetCookieModel {
    pub value: Seq<char>,
    pub domain: Option<Seq<char>>,
    pub expires: Option<Seq<char>>,
    pub httponly: bool,
    pub max_age: Option<u32>,
    pub partitioned: bool,
    pub path: Option<Seq<char>>,
    pub samesite: Option<SameSite>,
    pub secure: bool,
}

/// The characters of an optional text.
pub open spec fn optional_text(text: Option<String>) -> Option<Seq<char>> {
    match text {
        Some(s) => Some(s@),
        None => None,
    }
}

impl View for SetCookie {
    type V = SetCookieModel;

    open spec fn view(&self) -> SetCookieModel {
        SetCookieModel {
            value: self.value@,
            domain: optional_text(self.domain),
            expires: optional_text(self.expires),
            httponly: self.httponly,
            max_age: self.max_age,
            partitioned: self.partitioned,
            path: optional_text(self.path),
            samesite: self.samesite,
            secure: self.secure,
        }
    }
}

/// The word that stands for a `SameSite` policy in a header.
pub open spec fn same_site_word(policy: SameSite) -> Seq<char> {
    match policy {
        SameSite::Strict => "Strict"@,
        SameSite::Lax => "Lax"@,
        SameSite::Unrestricted => "None"@,
    }
}

/// An attribute with a text, written after `label` if the text is there.
pub open spec fn text_attribute(label: Seq<char>, text: Option<Seq<char>>) -> Seq<char> {
    match text {
        Some(t) => label + t,
        None => Seq::empty(),
    }
}

/// An attribute without a value, written if it is set.
pub open spec fn flag_attribute(label: Seq<char>, set: bool) -> Seq<char> {
    if set {
        label
    } else {
        Seq::empty()
    }
}

/// The value of the `Set-Cookie` header for the cookie `name`: name and
/// value, then each attribute that is present or set, in a fixed order.
pub open spec fn set_cookie_header(name: Seq<char>, cookie: SetCookieModel) -> Seq<char> {
    name + "="@ + cookie.value + text_attribute("; Domain="@, cookie.domain) + text_attribute(
        "; Path="@,
        cookie.path,
    ) + text_attribute("; Expires="@, cookie.expires) + (match cookie.max_age {
        Some(seconds) => "; Max-Age="@ + decimal(seconds as nat),
        None => Seq::empty(),
    }) + flag_attribute("; Secure"@, cookie.secure) + flag_attribute(
        "; HttpOnly"@,
        cookie.httponly,
    ) + (match cookie.samesite {
        Some(policy) => "; SameSite="@ + same_site_word(policy),
        None => Seq::empty(),
    }) + flag_attribute("; Partitioned"@, cookie.partitioned)
}

fn append_text(header: &mut String, label: &str, text: &Option<String>)
    ensures
        final(header)@ == old(header)@ + text_attribute(label@, optional_text(*text)),
{
    match text {
        Some(t) => {
            header.append(label);
            header.append(t.as_str());
            assert(final(header)@ =~= old(header)@ + (label@ + t@));
        },
        None => {
            assert(final(header)@ =~= old(header)@ + Seq::<char>::empty());
        },
    }
}

fn append_flag(header: &mut String, label: &str, set: bool)
    ensures
        final(header)@ == old(header)@ + flag_attribute(label@, set),
{
    if set {
        header.append(label);
    } else {
        assert(final(header)@ =~= old(header)@ + Seq::<char>::empty());
    }
}

impl SetCookie {
    /// Writes the directive as the value of a `Set-Cookie` header for the
    /// cookie `name`.
    pub fn header_value(&self, name: &str) -> (header: String)
        ensures
            header@ == set_cookie_header(name@, self@),
    {
        let mut header = String::from_str(name);
        header.append("=");
        header.append(self.value.as_str());
        append_text(&mut header, "; Domain=", &self.domain);
        append_text(&mut header, "; Path=", &self.path);
        append_text(&mut header, "; Expires=", &self.expires);
        match self.max_age {
            Some(seconds) => {
                let digits = decimal_text(seconds);
                header.append("; Max-Age=");
                header.append(digits.as_str());
                assert(header@ =~= name@ + "="@ + self.value@ + text_attribute(
                    "; Domain="@,
                    optional_text(self.domain),
                ) + text_attribute("; Path="@, optional_text(self.path)) + text_attribute(
                    "; Expires="@,
                    optional_text(self.expires),
                ) + ("; Max-Age="@ + decimal(seconds as nat)));
            },
            None => {
                assert(header@ =~= header@ + Seq::<char>::empty());
            },
        }
        append_flag(&mut header, "; Secure", self.secure);
        append_flag(&mut header, "; HttpOnly", self.httponly);
        match self.samesite {
            Some(policy) => {
                let ghost before = header@;
                header.append("; SameSite=");
                match policy {
                    SameSite::Strict => header.append("Strict"),
                    SameSite::Lax => header.append("Lax"),
                    SameSite::Unrestricted => header.append("None"),
                }
                assert(header@ =~= before + ("; SameSite="@ + same_site_word(policy)));
            },
            None => {
                assert(header@ =~= header@ + Seq::<char>::empty());
            },
        }
        append_flag(&mut header, "; Partitioned", self.partitioned);
        header
    }
}

/// The name of the request header that carries the cookies.
pub open spec fn cookie_header_name() -> Seq<char> {
    "cookie"@
}

/// Name and value of one entry of a cookie header, or nothing if the entry
/// holds no `=`.
pub open spec fn cookie_pair(entry: Seq<char>) -> Option<(Seq<char>, Seq<char>)> {
    let text = trim(entry);
    let at = position(text, '=') as int;
    if at < text.len() {
        Some((text.take(at), text.skip(at + 1)))
    } else {
        None
    }
}

/// `cookies` after one more entry has been read.
pub open spec fn with_entry(
    cookies: Map<Seq<char>, Seq<char>>,
    entry: Seq<char>,
) -> Map<Seq<char>, Seq<char>> {
    match cookie_pair(entry) {
        Some((name, value)) => cookies.insert(name, value),
        None => cookies,
    }
}

/// The cookies that a run of entries gives, read first to last.
pub open spec fn collect(entries: Seq<Seq<char>>) -> Map<Seq<char>, Seq<char>>
    decreases entries.len(),
{
    if entries.len() == 0 {
        Map::empty()
    } else {
        with_entry(collect(entries.drop_last()), entries.last())
    }
}

/// The cookies that a `Cookie` header holds.
pub open spec fn cookie_header_entries(header: Seq<char>) -> Map<Seq<char>, Seq<char>> {
    collect(split(header, ';'))
}

/// Whether `held` holds the texts `texts`, name by name, and nothing else.
pub open spec fn holds_texts(held: Map<Seq<char>, String>, texts: Map<Seq<char>, Seq<char>>) -> bool {
    &&& held.dom() == texts.dom()
    &&& forall|name: Seq<char>| texts.contains_key(name) ==> (#[trigger] held[name])@ == texts[name]
}

/// What a map of texts holds, each text as its characters.
spec fn text_values(texts: Map<Seq<char>, String>) -> Map<Seq<char>, Seq<char>> {
    Map::new(|name: Seq<char>| texts.contains_key(name), |name: Seq<char>| texts[name]@)
}

/// A name that occurs in several entries has the value of the last of them:
/// an entry read later overwrites, and an entry without `=` changes nothing.
pub proof fn lemma_last_entry_wins(entries: Seq<Seq<char>>, entry: Seq<char>)
    ensures
        match cookie_pair(entry) {
            Some((name, value)) => collect(entries.push(entry)) == collect(entries).insert(
                name,
                value,
            ),
            None => collect(entries.push(entry)) == collect(entries),
        },
{
    assert(entries.push(entry).drop_last() =~= entries);
}

/// Reads the entry `chars[from..to]` of `header` into `cookies`.
fn read_entry(
    cookies: &mut StringHashMap<String>,
    header: &str,
    chars: &Vec<char>,
    from: usize,
    to: usize,
)
    requires
        chars@ == header@,
        from <= to <= chars.len(),
    ensures
        text_values(final(cookies)@) == with_entry(
            text_values(old(cookies)@),
            chars@.subrange(from as int, to as int),
        ),
{
    let (lo, hi) = trim_bounds(chars, from, to);
    let mut at = lo;
    while at < hi && chars[at] != '='
        invariant
            lo <= at <= hi <= chars.len(),
            forall|j: int| lo <= j < at ==> chars[j] != '=',
        decreases hi - at,
    {
        at += 1;
    }
    let ghost text = chars@.subrange(lo as int, hi as int);
    proof {
        lemma_position(text, '=', at - lo);
    }
    if at < hi {
        let name = header.substring_char(lo, at).to_owned();
        let value = header.substring_char(at + 1, hi).to_owned();
        assert(name@ =~= text.take(at - lo));
        assert(value@ =~= text.skip(at - lo + 1));
        cookies.insert(name, value);
        assert(text_values(final(cookies)@) =~= text_values(old(cookies)@).insert(name@, value@));
    }
}

/// Reads a `Cookie` header into a map from cookie name to value.
pub fn parse_cookie_header(header: &str) -> (cookies: StringHashMap<String>)
    ensures
        holds_texts(cookies@, cookie_header_entries(header@)),
{
    let chars = chars_of(header);
    let n = chars.len();
    let mut cookies: StringHashMap<String> = StringHashMap::new();
    let ghost mut read: Seq<Seq<char>> = Seq::empty();
    let mut start: usize = 0;
    let mut i: usize = 0;
    assert(text_values(cookies@) =~= collect(read));
    assert(chars@.take(0) =~= Seq::<char>::empty());
    assert(split(chars@.take(0), ';') =~= read.push(chars@.subrange(0, 0)));
    while i < n
        invariant
            chars@ == header@,
            n == chars.len(),
            start <= i <= n,
            split(chars@.take(i as int), ';') == read.push(chars@.subrange(start as int, i as int)),
            text_values(cookies@) == collect(read),
        decreases n - i,
    {
        let ghost before = split(chars@.take(i as int), ';');
        let ghost entry = chars@.subrange(start as int, i as int);
        assert(chars@.take(i + 1).drop_last() =~= chars@.take(i as int));
        assert(chars@.take(i + 1).last() == chars@[i as int]);
        if chars[i] == ';' {
            read_entry(&mut cookies, header, &chars, start, i);
            proof {
                assert(read.push(entry).drop_last() =~= read);
                read = read.push(entry);
            }
            start = i + 1;
            assert(chars@.subrange(start as int, i + 1) =~= Seq::<char>::empty());
        } else {
            assert(before.drop_last() =~= read);
            assert(entry.push(chars@[i as int]) =~= chars@.subrange(start as int, i + 1));
        }
        i += 1;
    }
    read_entry(&mut cookies, header, &chars, start, n);
    proof {
        assert(chars@.take(n as int) =~= chars@);
        let entry = chars@.subrange(start as int, n as int);
        assert(read.push(entry).drop_last() =~= read);
        assert(text_values(cookies@) == cookie_header_entries(header@));
        assert(cookies@.dom() =~= text_values(cookies@).dom());
        assert forall|name: Seq<char>| cookies@.contains_key(name) implies (#[trigger] cookies@[name])@
            == text_values(cookies@)[name] by {}
    }
    cookies
}

/// The cookies of a request, from its `cookie` header; nothing if the request
/// has no such header.
pub fn cookies(headers: &StringHashMap<String>) -> (found: Option<StringHashMap<String>>)
    ensures
        match found {
            Some(cookies) => headers@.contains_key(cookie_header_name()) && holds_texts(
                cookies@,
                cookie_header_entries(headers@[cookie_header_name()]@),
            ),
            None => !headers@.contains_key(cookie_header_name()),
        },
{
    match headers.get("cookie") {
        Some(header) => Some(parse_cookie_header(header.as_str())),
        None => None,
    }
}

} // verus!
