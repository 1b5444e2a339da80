//! The registry of live sessions: session key to creation time and
//! attributes, with eviction by age.

use crate::clock::{elapsed_nanos, NANOS_PER_SECOND};
use crate::values::{AttributeModel, AttributeValue};
use vstd::hash_map::StringHashMap;
use vstd::prelude::*;

verus! {

/// Seconds a session may reach in age before a sweep removes it.
pub const SESSION_TTL_SECONDS: u128 = 3600;

/// One session, as mathematics: when it was created, on the store's clock,
/// and what is stored in it.
pub struct SessionModel {
    pub created: u128,
    pub attributes: Map<Seq<char>, AttributeModel>,
}

/// A session as it is right after creation at `now`: nothing stored yet.
pub open spec fn fresh_session(now: u128) -> SessionModel {
    SessionModel { created: now, attributes: Map::empty() }
}

/// The registry after a session is begun under `key` at `now`: unchanged
/// when `key` names a live session already.
pub open spec fn with_session(
    sessions: Map<Seq<char>, SessionModel>,
    key: Seq<char>,
    now: u128,
) -> Map<Seq<char>, SessionModel> {
    if sessions.contains_key(key) {
        sessions
    } else {
        sessions.insert(key, fresh_session(now))
    }
}

/// Whole seconds from `created` to `now`; zero when `now` is the earlier one.
pub open spec fn age_in_seconds(created: u128, now: u128) -> nat {
    if now >= created {
        ((now - created) / (NANOS_PER_SECOND as int)) as nat
    } else {
        0
    }
}

/// Whether a session created at `created` is past its time to live at `now`.
pub open spec fn is_expired(created: u128, now: u128) -> bool {
    age_in_seconds(created, now) > SESSION_TTL_SECONDS
}

/// The registry after a sweep at `now`: the sessions that have not expired,
/// each as it was.
pub open spec fn swept(
    sessions: Map<Seq<char>, SessionModel>,
    now: u128,
) -> Map<Seq<char>, SessionModel> {
    Map::new(
        |key: Seq<char>| sessions.contains_key(key) && !is_expired(sessions[key].created, now),
        |key: Seq<char>| sessions[key],
    )
}

/// The attribute stored under `name` in the session `key`, if that session is
/// live and has one.
pub open spec fn attribute_of(
    sessions: Map<Seq<char>, SessionModel>,
    key: Seq<char>,
    name: Seq<char>,
) -> Option<AttributeModel> {
    if sessions.contains_key(key) && sessions[key].attributes.contains_key(name) {
        Some(sessions[key].attributes[name])
    } else {
        None
    }
}

/// The registry after `value` is stored under `name` in the session `key`:
/// unchanged when there is no such session.
pub open spec fn with_attribute(
    sessions: Map<Seq<char>, SessionModel>,
    key: Seq<char>,
    name: Seq<char>,
    value: AttributeModel,
) -> Map<Seq<char>, SessionModel> {
    if sessions.contains_key(key) {
        sessions.insert(
            key,
            SessionModel {
                created: sessions[key].created,
                attributes: sessions[key].attributes.insert(name, value),
            },
        )
    } else {
        sessions
    }
}

/// When the session `key` was created, if it is live.
pub open spec fn created_at(sessions: Map<Seq<char>, SessionModel>, key: Seq<char>) -> Option<
    u128,
> {
    if sessions.contains_key(key) {
        Some(sessions[key].created)
    } else {
        None
    }
}

/// What a map of stored values holds.
spec fn attributes_model(
    contents: Map<Seq<char>, AttributeValue>,
) -> Map<Seq<char>, AttributeModel> {
    Map::new(|name: Seq<char>| contents.contains_key(name), |name: Seq<char>| contents[name]@)
}

struct SessionData {
    key: String,
    creation_time: u128,
    session_contents: StringHashMap<AttributeValue>,
}

impl View for SessionData {
    type V = SessionModel;

    closed spec fn view(&self) -> SessionModel {
        SessionModel {
            created: self.creation_time,
            attributes: attributes_model(self.session_contents@),
        }
    }
}

/// Where the sessions are kept. They lie in `slots` in no particular order;
/// `index` finds the slot of a key.
struct Slots {
    index: StringHashMap<usize>,
    slots: Vec<SessionData>,
}

impl View for Slots {
    type V = Map<Seq<char>, SessionModel>;

    closed spec fn view(&self) -> Map<Seq<char>, SessionModel> {
        Map::new(
            |key: Seq<char>| self.index@.contains_key(key),
            |key: Seq<char>| self.slots[self.index@[key] as int]@,
        )
    }
}

fn expired(created: u128, now: u128) -> (e: bool)
    ensures
        e == is_expired(created, now),
{
    now >= created && (now - created) / NANOS_PER_SECOND > SESSION_TTL_SECONDS
}

impl Slots {
    /// Index and slots agree: every indexed key names its slot, and every
    /// slot is indexed under its key.
    closed spec fn wf(&self) -> bool {
        &&& forall|key: Seq<char>| #[trigger]
            self.index@.contains_key(key) ==> self.index@[key] < self.slots.len()
                && self.slots[self.index@[key] as int].key@ == key
        &&& forall|i: int|
            0 <= i < self.slots.len() ==> self.index@.contains_key((#[trigger] self.slots[i]).key@)
                && self.index@[self.slots[i].key@] == i
    }

    fn new() -> (empty: Self)
        ensures
            empty.wf(),
            empty@ == Map::<Seq<char>, SessionModel>::empty(),
    {
        let empty = Slots { index: StringHashMap::new(), slots: Vec::new() };
        assert(empty@ =~= Map::<Seq<char>, SessionModel>::empty());
        empty
    }

    fn len(&self) -> (n: usize)
        requires
            self.wf(),
        ensures
            n == self@.len(),
    {
        broadcast use vstd::hash_map::group_hash_map_axioms;

        assert(self@.dom() =~= self.index@.dom());
        self.index.len()
    }

    fn contains(&self, key: &str) -> (live: bool)
        ensures
            live == self@.contains_key(key@),
    {
        self.index.contains_key(key)
    }

    fn created(&self, key: &str) -> (t: Option<u128>)
        requires
            self.wf(),
        ensures
            t == created_at(self@, key@),
    {
        match self.index.get(key) {
            None => None,
            Some(i) => Some(self.slots[*i].creation_time),
        }
    }

    fn insert(&mut self, key: String, now: u128) -> (inserted: bool)
        requires
            old(self).wf(),
        ensures
            final(self).wf(),
            inserted == !old(self)@.contains_key(key@),
            final(self)@ == with_session(old(self)@, key@, now),
    {
        if self.index.contains_key(key.as_str()) {
            return false;
        }
        let fresh = SessionData {
            key: key.clone(),
            creation_time: now,
            session_contents: StringHashMap::new(),
        };
        assert(fresh@.attributes =~= Map::<Seq<char>, AttributeModel>::empty());
        let n = self.slots.len();
        self.index.insert(key, n);
        self.slots.push(fresh);
        assert(final(self)@ =~= old(self)@.insert(key@, fresh_session(now)));
        true
    }

    /// Takes the session in slot `i` out; the last slot moves into its
    /// place.
    fn remove_slot(&mut self, i: usize)
        requires
            old(self).wf(),
            i < old(self).slots.len(),
        ensures
            final(self).wf(),
            final(self)@ == old(self)@.remove(old(self).slots[i as int].key@),
            final(self).slots.len() == old(self).slots.len() - 1,
            forall|j: int| 0 <= j < i ==> final(self).slots[j] == old(self).slots[j],
    {
        let removed = self.slots.swap_remove(i);
        self.index.remove(removed.key.as_str());
        if i < self.slots.len() {
            let moved = self.slots[i].key.clone();
            self.index.insert(moved, i);
        }
        assert(final(self)@ =~= old(self)@.remove(old(self).slots[i as int].key@));
    }

    fn remove(&mut self, key: &str)
        requires
            old(self).wf(),
        ensures
            final(self).wf(),
            final(self)@ == old(self)@.remove(key@),
    {
        match self.index.get(key) {
            None => {
                assert(final(self)@ =~= old(self)@.remove(key@));
            },
            Some(i) => {
                let i = *i;
                self.remove_slot(i);
            },
        }
    }

    fn sweep(&mut self, now: u128)
        requires
            old(self).wf(),
        ensures
            final(self).wf(),
            final(self)@ == swept(old(self)@, now),
    {
        let mut i: usize = 0;
        while i < self.slots.len()
            invariant
                self.wf(),
                i <= self.slots.len(),
                forall|key: Seq<char>| #[trigger]
                    self@.contains_key(key) ==> old(self)@.contains_key(key) && self@[key] == old(
                        self,
                    )@[key],
                forall|key: Seq<char>| #[trigger]
                    old(self)@.contains_key(key) && !is_expired(old(self)@[key].created, now)
                        ==> self@.contains_key(key),
                forall|j: int|
                    0 <= j < i ==> !is_expired((#[trigger] self.slots[j]).creation_time, now),
            decreases self.slots.len() - i,
        {
            if expired(self.slots[i].creation_time, now) {
                self.remove_slot(i);
            } else {
                i += 1;
            }
        }
        assert(final(self)@ =~= swept(old(self)@, now));
    }

    fn set_attribute(&mut self, key: &str, name: String, value: AttributeValue) -> (stored: bool)
        requires
            old(self).wf(),
        ensures
            final(self).wf(),
            stored == old(self)@.contains_key(key@),
            final(self)@ == with_attribute(old(self)@, key@, name@, value@),
    {
        match self.index.get(key) {
            None => false,
            Some(i) => {
                let i = *i;
                self.slots[i].session_contents.insert(name, value);
                assert(final(self).slots[i as int]@.attributes =~= old(self).slots[i as int]@.attributes.insert(
                    name@,
                    value@,
                ));
                assert(final(self)@ =~= with_attribute(old(self)@, key@, name@, value@));
                true
            },
        }
    }

    fn attribute(&self, key: &str, name: &str) -> (found: Option<&AttributeValue>)
        requires
            self.wf(),
        ensures
            match found {
                Some(value) => attribute_of(self@, key@, name@) == Some(value@),
                None => attribute_of(self@, key@, name@) is None,
            },
    {
        match self.index.get(key) {
            None => None,
            Some(i) => self.slots[*i].session_contents.get(name),
        }
    }
}

/// The registry of live sessions, with the clock that dates them.
///
/// Its view is the map from session key to session.
pub struct SessionStore {
    origin: tokio::time::Instant,
    sessions: Slots,
}

impl View for SessionStore {
    type V = Map<Seq<char>, SessionModel>;

    closed spec fn view(&self) -> Map<Seq<char>, SessionModel> {
        self.sessions@
    }
}

impl SessionStore {
    #[verifier::type_invariant]
    spec fn well_formed(self) -> bool {
        self.sessions.wf()
    }

    /// An empty registry, whose clock starts now.
    pub fn new() -> (store: Self)
        ensures
            store@ == Map::<Seq<char>, SessionModel>::empty(),
    {
        SessionStore { origin: tokio::time::Instant::now(), sessions: Slots::new() }
    }

    /// Reads the store's clock.
    pub(crate) fn now(&self) -> u128 {
        elapsed_nanos(&self.origin)
    }

    /// Number of live sessions.
    pub fn len(&self) -> (n: usize)
        ensures
            n == self@.len(),
    {
        proof {
            use_type_invariant(self);
        }
        self.sessions.len()
    }

    /// Whether `key` names a live session.
    pub fn contains(&self, key: &str) -> (live: bool)
        ensures
            live == self@.contains_key(key@),
    {
        self.sessions.contains(key)
    }

    /// When the session `key` was created, if it is live.
    pub fn created(&self, key: &str) -> (t: Option<u128>)
        ensures
            t == created_at(self@, key@),
    {
        proof {
            use_type_invariant(self);
        }
        self.sessions.created(key)
    }

    /// Puts a session with nothing in it under `key`, created at `now`,
    /// unless `key` names a live session already: a live session is never
    /// displaced. Says whether the session was put there.
    pub fn insert(&mut self, key: String, now: u128) -> (inserted: bool)
        ensures
            inserted == !old(self)@.contains_key(key@),
            final(self)@ == with_session(old(self)@, key@, now),
    {
        proof {
            use_type_invariant(&*self);
        }
        let mut sessions = Slots::new();
        std::mem::swap(&mut sessions, &mut self.sessions);
        let inserted = sessions.insert(key, now);
        self.sessions = sessions;
        inserted
    }

    /// Removes the session `key` and everything stored in it.
    pub fn remove(&mut self, key: &str)
        ensures
            final(self)@ == old(self)@.remove(key@),
    {
        proof {
            use_type_invariant(&*self);
        }
        let mut sessions = Slots::new();
        std::mem::swap(&mut sessions, &mut self.sessions);
        sessions.remove(key);
        self.sessions = sessions;
    }

    /// Removes every session that has expired at `now`, in one pass.
    pub fn sweep(&mut self, now: u128)
        ensures
            final(self)@ == swept(old(self)@, now),
    {
        proof {
            use_type_invariant(&*self);
        }
        let mut sessions = Slots::new();
        std::mem::swap(&mut sessions, &mut self.sessions);
        sessions.sweep(now);
        self.sessions = sessions;
    }

    /// Stores `value` under `name` in the session `key`, over what was there
    /// under that name. Says whether the session exists; without one nothing
    /// is stored.
    pub fn set_attribute(&mut self, key: &str, name: String, value: AttributeValue) -> (stored:
        bool)
        ensures
            stored == old(self)@.contains_key(key@),
            final(self)@ == with_attribute(old(self)@, key@, name@, value@),
    {
        proof {
            use_type_invariant(&*self);
        }
        let mut sessions = Slots::new();
        std::mem::swap(&mut sessions, &mut self.sessions);
        let stored = sessions.set_attribute(key, name, value);
        self.sessions = sessions;
        stored
    }

    /// The value stored under `name` in the session `key`.
    pub fn attribute(&self, key: &str, name: &str) -> (found: Option<&AttributeValue>)
        ensures
            match found {
                Some(value) => attribute_of(self@, key@, name@) == Some(value@),
                None => attribute_of(self@, key@, name@) is None,
            },
    {
        proof {
            use_type_invariant(self);
        }
        self.sessions.attribute(key, name)
    }
}

/// A session has expired exactly when `now` lies a full second or more
/// beyond the time to live after its creation.
pub proof fn lemma_expiry_threshold(created: u128, now: u128)
    ensures
        is_expired(created, now) <==> now - created >= (SESSION_TTL_SECONDS + 1) * NANOS_PER_SECOND,
{
}

/// A sweep removes a session that has expired, so that afterwards its key
/// finds nothing, and leaves a session that has not expired as it was.
pub proof fn lemma_sweep_by_age(
    sessions: Map<Seq<char>, SessionModel>,
    now: u128,
    key: Seq<char>,
    name: Seq<char>,
    value: AttributeModel,
)
    requires
        sessions.contains_key(key),
    ensures
        is_expired(sessions[key].created, now) ==> {
            &&& !swept(sessions, now).contains_key(key)
            &&& attribute_of(swept(sessions, now), key, name) is None
            &&& with_attribute(swept(sessions, now), key, name, value) == swept(sessions, now)
        },
        !is_expired(sessions[key].created, now) ==> {
            &&& swept(sessions, now).contains_key(key)
            &&& swept(sessions, now)[key] == sessions[key]
        },
{
}

/// A sweep touches no session but those it removes, and a second sweep at
/// the same time finds nothing left to remove.
pub proof fn lemma_sweep_settles(sessions: Map<Seq<char>, SessionModel>, now: u128)
    ensures
        swept(sessions, now).submap_of(sessions),
        swept(swept(sessions, now), now) == swept(sessions, now),
{
    assert(swept(swept(sessions, now), now) =~= swept(sessions, now));
}

/// Once a session is removed, its key finds nothing: reading gives no
/// attribute, and storing changes nothing.
pub proof fn lemma_removed_is_absent(
    sessions: Map<Seq<char>, SessionModel>,
    key: Seq<char>,
    name: Seq<char>,
    value: AttributeModel,
)
    ensures
        !sessions.remove(key).contains_key(key),
        attribute_of(sessions.remove(key), key, name) is None,
        with_attribute(sessions.remove(key), key, name, value) == sessions.remove(key),
{
}

/// What is stored under a name in a live session is what is then read under
/// that name, and storing touches neither another name nor another session.
pub proof fn lemma_stored_is_read(
    sessions: Map<Seq<char>, SessionModel>,
    key: Seq<char>,
    name: Seq<char>,
    value: AttributeModel,
    other_key: Seq<char>,
    other_name: Seq<char>,
)
    requires
        sessions.contains_key(key),
    ensures
        attribute_of(with_attribute(sessions, key, name, value), key, name) == Some(value),
        other_key != key || other_name != name ==> attribute_of(
            with_attribute(sessions, key, name, value),
            other_key,
            other_name,
        ) == attribute_of(sessions, other_key, other_name),
{
}

} // verus!
