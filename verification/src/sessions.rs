//! Session handles, and the entry point of a request: find the session that
//! the request's cookie names, or begin a new one.

use crate::cookies::{
    cookie_header_entries, cookie_header_name, cookies, optional_text, SameSite, SetCookie,
    SetCookieModel,
};
use crate::keys::{is_minted_key, mint_key, SessionError};
use crate::registry::{
    attribute_of, fresh_session, swept, with_attribute, SessionModel, SessionStore,
};
use crate::values::{AttributeModel, AttributeValue, SessionValue};
use vstd::hash_map::StringHashMap;
use vstd::prelude::*;

verus! {

/// The name of the cookie that carries the session key.
pub open spec fn session_cookie_name() -> Seq<char> {
    "SESSION_ID"@
}

/// The `Set-Cookie` directive that hands a new session key to the client:
/// hidden from scripts, sent with same-site requests only, and otherwise
/// plain.
pub open spec fn session_cookie(key: Seq<char>) -> SetCookieModel {
    SetCookieModel {
        value: key,
        domain: None,
        expires: None,
        httponly: true,
        max_age: None,
        partitioned: false,
        path: None,
        samesite: Some(SameSite::Strict),
        secure: false,
    }
}

/// `after` is `before` with the cookie of the session `key` put under
/// `SESSION_ID`; every other directive is as it was.
pub open spec fn emitted(
    before: Map<Seq<char>, SetCookie>,
    after: Map<Seq<char>, SetCookie>,
    key: Seq<char>,
) -> bool {
    &&& after.contains_key(session_cookie_name())
    &&& after[session_cookie_name()]@ == session_cookie(key)
    &&& after.remove(session_cookie_name()) == before.remove(session_cookie_name())
}

/// The session key that a request presents: the value of its `SESSION_ID`
/// cookie, if it has one.
pub open spec fn presented_key(headers: Map<Seq<char>, String>) -> Option<Seq<char>> {
    if headers.contains_key(cookie_header_name()) {
        let cookies = cookie_header_entries(headers[cookie_header_name()]@);
        if cookies.contains_key(session_cookie_name()) {
            Some(cookies[session_cookie_name()])
        } else {
            None
        }
    } else {
        None
    }
}

/// The session that a presented key leads to: the key itself where it names
/// a live session, nothing otherwise.
pub open spec fn resumed(
    sessions: Map<Seq<char>, SessionModel>,
    presented: Option<Seq<char>>,
) -> Option<Seq<char>> {
    match presented {
        Some(key) => if sessions.contains_key(key) {
            Some(key)
        } else {
            None
        },
        None => None,
    }
}

/// `key` named no session in `before`, and `after` is `before` with a
/// session under `key` that holds nothing yet.
pub open spec fn opened(
    before: Map<Seq<char>, SessionModel>,
    after: Map<Seq<char>, SessionModel>,
    key: Seq<char>,
) -> bool {
    &&& !before.contains_key(key)
    &&& after.contains_key(key)
    &&& after[key].attributes == Map::<Seq<char>, AttributeModel>::empty()
    &&& after.remove(key) == before
}

/// How a request for a session may end, given the live sessions `live` and
/// the key `presented`.
///
/// A presented key that names a live session is resumed: nothing changes and
/// no cookie is emitted. Otherwise a key is minted that names no live
/// session, its session opened and its cookie emitted; or, if no such key
/// could be had, nothing changes.
pub open spec fn session_given(
    live: Map<Seq<char>, SessionModel>,
    presented: Option<Seq<char>>,
    cookies_before: Map<Seq<char>, SetCookie>,
    after: Map<Seq<char>, SessionModel>,
    cookies_after: Map<Seq<char>, SetCookie>,
    outcome: Result<Session, SessionError>,
) -> bool {
    match resumed(live, presented) {
        Some(key) => {
            &&& outcome matches Ok(session)
            &&& session@ == key
            &&& after == live
            &&& cookies_after == cookies_before
        },
        None => match outcome {
            Ok(session) => {
                &&& is_minted_key(session@)
                &&& opened(live, after, session@)
                &&& emitted(cookies_before, cookies_after, session@)
            },
            Err(error) => {
                &&& error == SessionError::EntropyFailure
                &&& after == live
                &&& cookies_after == cookies_before
            },
        },
    }
}

/// What reading an attribute as a `V` gives: the attribute where it has the
/// shape of `V`, nothing where it has another or is not there.
pub open spec fn read_as<V: SessionValue>(found: Option<AttributeModel>) -> Option<
    AttributeModel,
> {
    match found {
        Some(attribute) => if attribute.kind() == V::kind() {
            Some(attribute)
        } else {
            None
        },
        None => None,
    }
}

/// A handle on one session: it holds the session's key and nothing else.
pub struct Session {
    session_key: String,
}

impl View for Session {
    type V = Seq<char>;

    closed spec fn view(&self) -> Seq<char> {
        self.session_key@
    }
}

impl Session {
    /// The handle on the live session `session_key`, if there is one.
    pub fn resume(store: &SessionStore, session_key: String) -> (found: Option<Session>)
        ensures
            match found {
                Some(session) => resumed(store@, Some(session_key@)) == Some(session@),
                None => resumed(store@, Some(session_key@)) is None,
            },
    {
        if store.contains(session_key.as_str()) {
            Some(Session { session_key })
        } else {
            None
        }
    }

    /// Opens the session `session_key`, created at `now`, and emits the
    /// cookie that tells the client its key. Where the key names a live
    /// session already, nothing is opened, emitted or changed.
    pub fn open(
        store: &mut SessionStore,
        session_key: String,
        now: u128,
        set_cookie: &mut StringHashMap<SetCookie>,
    ) -> (opening: Option<Session>)
        ensures
            match opening {
                Some(session) => {
                    &&& !old(store)@.contains_key(session_key@)
                    &&& session@ == session_key@
                    &&& final(store)@ == old(store)@.insert(session_key@, fresh_session(now))
                    &&& emitted(old(set_cookie)@, final(set_cookie)@, session_key@)
                },
                None => {
                    &&& old(store)@.contains_key(session_key@)
                    &&& final(store)@ == old(store)@
                    &&& final(set_cookie)@ == old(set_cookie)@
                },
            },
    {
        if !store.insert(session_key.clone(), now) {
            return None;
        }
        let directive = SetCookie {
            value: session_key.clone(),
            domain: None,
            expires: None,
            httponly: true,
            max_age: None,
            partitioned: false,
            path: None,
            samesite: Some(SameSite::Strict),
            secure: false,
        };
        set_cookie.insert(String::from_str("SESSION_ID"), directive);
        assert(final(set_cookie)@.remove(session_cookie_name()) =~= old(set_cookie)@.remove(
            session_cookie_name(),
        ));
        Some(Session { session_key })
    }

    /// Resumes the session `session_key` if it is live; otherwise mints a
    /// key, opens its session at the clock's reading and emits its cookie.
    ///
    /// Fails only when the random source supplies no key, or one that names
    /// a live session already, and then changes nothing.
    pub fn new(
        store: &mut SessionStore,
        session_key: Option<String>,
        set_cookie: &mut StringHashMap<SetCookie>,
    ) -> (outcome: Result<Session, SessionError>)
        ensures
            session_given(
                old(store)@,
                optional_text(session_key),
                old(set_cookie)@,
                final(store)@,
                final(set_cookie)@,
                outcome,
            ),
    {
        if let Some(session_key) = session_key {
            if let Some(session) = Session::resume(store, session_key) {
                return Ok(session);
            }
        }
        let session_key = match mint_key() {
            Ok(key) => key,
            Err(error) => {
                return Err(error);
            },
        };
        let now = store.now();
        match Session::open(store, session_key, now, set_cookie) {
            Some(session) => {
                proof {
                    let key = session@;
                    assert(final(store)@.remove(key) =~= old(store)@);
                    assert(final(store)@[key].attributes =~= Map::<
                        Seq<char>,
                        AttributeModel,
                    >::empty());
                }
                Ok(session)
            },
            None => Err(SessionError::EntropyFailure),
        }
    }

    /// Stores `v` under `k` in this session, over what was there under that
    /// name. Returns `false`, and stores nothing, if the session is no longer
    /// in the registry.
    pub fn set(&mut self, store: &mut SessionStore, k: String, v: AttributeValue) -> (stored: bool)
        ensures
            final(self)@ == old(self)@,
            stored == old(store)@.contains_key(old(self)@),
            final(store)@ == with_attribute(old(store)@, old(self)@, k@, v@),
    {
        store.set_attribute(self.session_key.as_str(), k, v)
    }

    /// A copy of the value stored under `k` in this session, read as a `V`.
    /// There is none if the session is no longer in the registry, if it holds
    /// nothing under `k`, or if what it holds there is not a `V`.
    pub fn get<V: SessionValue>(&self, store: &SessionStore, k: &String) -> (found: Option<V>)
        ensures
            match found {
                Some(value) => read_as::<V>(attribute_of(store@, self@, k@)) == Some(value.model()),
                None => read_as::<V>(attribute_of(store@, self@, k@)) is None,
            },
    {
        match store.attribute(self.session_key.as_str(), k.as_str()) {
            Some(attribute) => V::from_attribute(attribute),
            None => None,
        }
    }

    /// The key that names this session in the registry and in the cookie.
    pub fn session_key(&self) -> (key: &String)
        ensures
            key@ == self@,
    {
        &self.session_key
    }

    /// Removes this session, with all that is stored in it, from the
    /// registry. The handle is used up.
    pub fn destroy(self, store: &mut SessionStore)
        ensures
            final(store)@ == old(store)@.remove(self@),
    {
        store.remove(self.session_key.as_str());
    }
}

/// Begins the handling of a request: sweeps the registry at the clock's
/// reading, then resumes the session that the request's `SESSION_ID` cookie
/// names or, if it names none that is live, begins a new one.
pub fn start_session(
    store: &mut SessionStore,
    request_headers: &StringHashMap<String>,
    set_cookie: &mut StringHashMap<SetCookie>,
) -> (outcome: Result<Session, SessionError>)
    ensures
        exists|now: u128|
            session_given(
                #[trigger] swept(old(store)@, now),
                presented_key(request_headers@),
                old(set_cookie)@,
                final(store)@,
                final(set_cookie)@,
                outcome,
            ),
{
    let now = store.now();
    store.sweep(now);
    if let Some(cookies) = cookies(request_headers) {
        if let Some(session_key) = cookies.get("SESSION_ID") {
            return Session::new(store, Some(session_key.clone()), set_cookie);
        }
    }
    Session::new(store, None, set_cookie)
}

/// A value stored as a `V` is read back as a `V`, and read as a type of
/// another shape it is not there.
pub proof fn lemma_read_as_stored<V: SessionValue, W: SessionValue>(value: V)
    ensures
        read_as::<V>(Some(value.model())) == Some(value.model()),
        W::kind() != V::kind() ==> read_as::<W>(Some(value.model())) is None,
{
    value.lemma_model_has_kind();
}

/// Two handles with the same key are handles on the same session: what is
/// stored through the first is read through the second.
pub proof fn lemma_handles_share_session(
    sessions: Map<Seq<char>, SessionModel>,
    first: Session,
    second: Session,
    name: Seq<char>,
    value: AttributeModel,
)
    requires
        first@ == second@,
        sessions.contains_key(first@),
    ensures
        attribute_of(with_attribute(sessions, first@, name, value), second@, name) == Some(value),
{
}

/// A request that presents the key of a live session gets that session:
/// the registry stays as it is and no cookie is emitted.
pub proof fn lemma_live_key_resumes(
    live: Map<Seq<char>, SessionModel>,
    key: Seq<char>,
    cookies_before: Map<Seq<char>, SetCookie>,
    after: Map<Seq<char>, SessionModel>,
    cookies_after: Map<Seq<char>, SetCookie>,
    outcome: Result<Session, SessionError>,
)
    requires
        live.contains_key(key),
        session_given(live, Some(key), cookies_before, after, cookies_after, outcome),
    ensures
        outcome matches Ok(session) && session@ == key,
        after == live,
        cookies_after == cookies_before,
{
}

/// A request that presents no key and is given a session gets one under a
/// newly minted key, which named no session before, with nothing stored in
/// it; the cookie that is emitted carries that key; and every session that
/// was live still is, as it was.
pub proof fn lemma_no_key_mints(
    live: Map<Seq<char>, SessionModel>,
    cookies_before: Map<Seq<char>, SetCookie>,
    after: Map<Seq<char>, SessionModel>,
    cookies_after: Map<Seq<char>, SetCookie>,
    outcome: Result<Session, SessionError>,
)
    requires
        session_given(live, None, cookies_before, after, cookies_after, outcome),
        outcome is Ok,
    ensures
        is_minted_key(outcome->Ok_0@),
        !live.contains_key(outcome->Ok_0@),
        live.submap_of(after),
        after.contains_key(outcome->Ok_0@),
        after[outcome->Ok_0@].attributes == Map::<Seq<char>, AttributeModel>::empty(),
        cookies_after.contains_key(session_cookie_name()),
        cookies_after[session_cookie_name()]@ == session_cookie(outcome->Ok_0@),
{
}

/// A key that is minted differs from the key of every live session: of two
/// sessions begun one after the other, the second has another key than the
/// first for as long as the first is live.
pub proof fn lemma_minted_key_is_unused(
    live: Map<Seq<char>, SessionModel>,
    presented: Option<Seq<char>>,
    cookies_before: Map<Seq<char>, SetCookie>,
    after: Map<Seq<char>, SessionModel>,
    cookies_after: Map<Seq<char>, SetCookie>,
    outcome: Result<Session, SessionError>,
    other: Seq<char>,
)
    requires
        session_given(live, presented, cookies_before, after, cookies_after, outcome),
        resumed(live, presented) is None,
        outcome is Ok,
        live.contains_key(other),
    ensures
        outcome->Ok_0@ != other,
        after.contains_key(other),
        after[other] == live[other],
{
}

/// A key that names no live session counts for nothing: the request ends
/// in every respect as one that presents no key.
pub proof fn lemma_unknown_key_is_no_key(
    live: Map<Seq<char>, SessionModel>,
    key: Seq<char>,
    cookies_before: Map<Seq<char>, SetCookie>,
    after: Map<Seq<char>, SessionModel>,
    cookies_after: Map<Seq<char>, SetCookie>,
    outcome: Result<Session, SessionError>,
)
    requires
        !live.contains_key(key),
    ensures
        session_given(live, Some(key), cookies_before, after, cookies_after, outcome)
            == session_given(live, None, cookies_before, after, cookies_after, outcome),
{
}

} // verus!
