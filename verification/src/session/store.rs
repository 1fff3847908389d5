//! Session persistence.

use vstd::prelude::*;

use super::session::SessionError;
use crate::strmap::StringMap;

verus! {

/// Whether `e` is `InvalidId` with reason `message`.
pub open spec fn is_invalid_id(e: SessionError, message: Seq<char>) -> bool {
    e matches SessionError::InvalidId { message: m } && m@ == message
}

fn validate_id(id: &str) -> (r: Result<(), SessionError>)
    ensures
        id@.len() == 0 ==> r is Err && is_invalid_id(r->Err_0, "id must not be empty"@),
        id@.len() > 0 ==> r is Ok,
{
    if id.is_empty() {
        return Err(SessionError::InvalidId { message: "id must not be empty".to_string() });
    }
    Ok(())
}

/// The attribute views of stored sessions.
pub open spec fn session_views(m: Map<Seq<char>, StringMap<String>>) -> Map<Seq<char>, Map<Seq<char>, Seq<char>>> {
    m.map_values(|a: StringMap<String>| attribute_view(a))
}

/// The attributes of a session map, as plain values.
pub open spec fn attribute_view(a: StringMap<String>) -> Map<Seq<char>, Seq<char>> {
    a@.map_values(|v: String| v@)
}

/// Whether `r` is what a load of `id` may return from a store holding
/// `sessions`: the stored attributes, nothing for an unknown id, or an error
/// of the store.
pub open spec fn load_answer(
    sessions: Map<Seq<char>, Map<Seq<char>, Seq<char>>>,
    id: Seq<char>,
    r: Result<Option<StringMap<String>>, SessionError>,
) -> bool {
    match r {
        Ok(Some(a)) => sessions.dom().contains(id) && attribute_view(a) == sessions[id],
        Ok(None) => !sessions.dom().contains(id),
        Err(_) => true,
    }
}

/// Loads and saves session attribute maps by id.
pub trait SessionStore {
    /// The stored sessions by id.
    spec fn sessions(&self) -> Map<Seq<char>, Map<Seq<char>, Seq<char>>>;

    /// Returns stored attributes for `id`, or `None` when unknown.
    fn load(&self, id: &str) -> (r: Result<Option<StringMap<String>>, SessionError>)
        ensures
            load_answer(self.sessions(), id@, r),
    ;

    /// Persists `attributes` for `id`; once it succeeds they are what `id` holds.
    fn save(&mut self, id: &str, attributes: &StringMap<String>) -> (r: Result<(), SessionError>)
        ensures
            r is Ok ==> final(self).sessions() == old(self).sessions().insert(id@, attribute_view(*attributes)),
    ;

    /// Deletes `id` when present; once it succeeds `id` holds nothing.
    fn delete(&mut self, id: &str) -> (r: Result<(), SessionError>)
        ensures
            r is Ok ==> final(self).sessions() == old(self).sessions().remove(id@),
    ;
}

/// Process-local session store.
pub struct MemorySessionStore {
    sessions: StringMap<StringMap<String>>,
}

impl MemorySessionStore {
    /// Stored sessions by id.
    pub closed spec fn view(&self) -> Map<Seq<char>, Map<Seq<char>, Seq<char>>> {
        session_views(self.sessions@)
    }

    /// Creates an empty store.
    pub fn new() -> (r: Self)
        ensures
            r@ == Map::<Seq<char>, Map<Seq<char>, Seq<char>>>::empty(),
    {
        let r = MemorySessionStore { sessions: StringMap::new() };
        assert(r@ =~= Map::<Seq<char>, Map<Seq<char>, Seq<char>>>::empty());
        r
    }

    /// Stored attributes for `id`; an empty id is refused.
    pub fn load_session(&self, id: &str) -> (r: Result<Option<StringMap<String>>, SessionError>)
        ensures
            id@.len() == 0 ==> r is Err && is_invalid_id(r->Err_0, "id must not be empty"@),
            id@.len() > 0 ==> r is Ok && load_answer(self@, id@, r),
    {
        validate_id(id)?;
        match self.sessions.get(id) {
            Some(a) => Ok(Some(a.duplicate())),
            None => Ok(None),
        }
    }

    /// Saves a copy of `attributes` under `id`; an empty id is refused.
    pub fn save_session(&mut self, id: &str, attributes: &StringMap<String>) -> (r: Result<(), SessionError>)
        ensures
            id@.len() == 0 ==> r is Err && is_invalid_id(r->Err_0, "id must not be empty"@)
                && final(self)@ == old(self)@,
            id@.len() > 0 ==> r is Ok && final(self)@ == old(self)@.insert(id@, attribute_view(*attributes)),
    {
        validate_id(id)?;
        let copy = attributes.duplicate();
        let mut sessions = StringMap::new();
        std::mem::swap(&mut sessions, &mut self.sessions);
        let _ = sessions.insert(id.to_owned(), copy);
        self.sessions = sessions;
        assert(self@ =~= old(self)@.insert(id@, attribute_view(*attributes)));
        Ok(())
    }

    /// Deletes `id`; an empty id is refused.
    pub fn delete_session(&mut self, id: &str) -> (r: Result<(), SessionError>)
        ensures
            id@.len() == 0 ==> r is Err && is_invalid_id(r->Err_0, "id must not be empty"@)
                && final(self)@ == old(self)@,
            id@.len() > 0 ==> r is Ok && final(self)@ == old(self)@.remove(id@),
    {
        validate_id(id)?;
        let mut sessions = StringMap::new();
        std::mem::swap(&mut sessions, &mut self.sessions);
        let _ = sessions.remove(id);
        self.sessions = sessions;
        assert(self@ =~= old(self)@.remove(id@));
        Ok(())
    }
}

impl SessionStore for MemorySessionStore {
    closed spec fn sessions(&self) -> Map<Seq<char>, Map<Seq<char>, Seq<char>>> {
        self@
    }

    fn load(&self, id: &str) -> (r: Result<Option<StringMap<String>>, SessionError>)
        ensures
            id@.len() == 0 ==> r is Err && is_invalid_id(r->Err_0, "id must not be empty"@),
            id@.len() > 0 ==> r is Ok,
    {
        self.load_session(id)
    }

    fn save(&mut self, id: &str, attributes: &StringMap<String>) -> (r: Result<(), SessionError>)
        ensures
            id@.len() == 0 ==> r is Err && is_invalid_id(r->Err_0, "id must not be empty"@)
                && final(self)@ == old(self)@,
            id@.len() > 0 ==> r is Ok,
    {
        self.save_session(id, attributes)
    }

    fn delete(&mut self, id: &str) -> (r: Result<(), SessionError>)
        ensures
            id@.len() == 0 ==> r is Err && is_invalid_id(r->Err_0, "id must not be empty"@)
                && final(self)@ == old(self)@,
            id@.len() > 0 ==> r is Ok,
    {
        self.delete_session(id)
    }
}

/// Read after write: once a save of `attributes` under `id` has succeeded, a
/// load of `id` finds them, unless the load itself fails; once a delete of
/// `id` has succeeded, a load of `id` finds nothing; and neither changes
/// what a load of any other id finds.
pub proof fn law_load_after_save(
    sessions: Map<Seq<char>, Map<Seq<char>, Seq<char>>>,
    id: Seq<char>,
    attributes: Map<Seq<char>, Seq<char>>,
    other: Seq<char>,
    loaded: Result<Option<StringMap<String>>, SessionError>,
)
    requires
        other != id,
    ensures
        load_answer(sessions.insert(id, attributes), id, loaded) ==> (loaded is Err || (loaded matches Ok(Some(a))
            && attribute_view(a) == attributes)),
        load_answer(sessions.remove(id), id, loaded) ==> (loaded is Err || loaded == Ok::<
            Option<StringMap<String>>,
            SessionError,
        >(None)),
        load_answer(sessions.insert(id, attributes), other, loaded) == load_answer(sessions, other, loaded),
        load_answer(sessions.remove(id), other, loaded) == load_answer(sessions, other, loaded),
{
}

} // verus!
