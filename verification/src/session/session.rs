//! In-request session bag.

use vstd::prelude::*;

use crate::strmap::StringMap;

verus! {

/// Failure while reading or writing session state.
#[derive(Debug, Clone, PartialEq, Eq)]
pub enum SessionError {
    /// Session id is empty or otherwise rejected.
    InvalidId {
        /// Reason.
        message: String,
    },
    /// Store or cookie operation failed.
    Store {
        /// Underlying message.
        message: String,
    },
    /// Cryptographic RNG failed while creating a session id.
    Generation,
}

/// Mutable key/value session attributes for one request lifecycle.
pub struct Session {
    id: String,
    attributes: StringMap<String>,
    is_new: bool,
    invalidated: bool,
    dirty: bool,
}

impl Session {
    /// Session identifier.
    pub closed spec fn spec_id(&self) -> Seq<char> {
        self.id@
    }

    /// The attributes.
    pub closed spec fn view(&self) -> Map<Seq<char>, Seq<char>> {
        self.attributes@.map_values(|v: String| v@)
    }

    /// Whether the id was minted for this request.
    pub closed spec fn spec_is_new(&self) -> bool {
        self.is_new
    }

    /// Whether the session was invalidated.
    pub closed spec fn spec_invalidated(&self) -> bool {
        self.invalidated
    }

    /// Whether attributes changed since load, or the session is new.
    pub closed spec fn spec_dirty(&self) -> bool {
        self.dirty || self.is_new
    }

    /// A new empty session with `id`.
    pub fn new(id: &str) -> (r: Self)
        ensures
            r.spec_id() == id@,
            r@ == Map::<Seq<char>, Seq<char>>::empty(),
            r.spec_is_new(),
            !r.spec_invalidated(),
            r.spec_dirty(),
    {
        let r = Session {
            id: id.to_owned(),
            attributes: StringMap::new(),
            is_new: true,
            invalidated: false,
            dirty: false,
        };
        assert(r@ =~= Map::<Seq<char>, Seq<char>>::empty());
        r
    }

    /// A session loaded from a store with `attributes`.
    pub fn existing(id: &str, attributes: StringMap<String>) -> (r: Self)
        ensures
            r.spec_id() == id@,
            r@ == attributes@.map_values(|v: String| v@),
            !r.spec_is_new(),
            !r.spec_invalidated(),
            !r.spec_dirty(),
    {
        Session { id: id.to_owned(), attributes, is_new: false, invalidated: false, dirty: false }
    }

    /// Session identifier (placed in the session cookie).
    pub fn id(&self) -> (r: &str)
        ensures
            r@ == self.spec_id(),
    {
        self.id.as_str()
    }

    /// Whether this id was minted for the current request.
    pub fn is_new(&self) -> (r: bool)
        ensures
            r == self.spec_is_new(),
    {
        self.is_new
    }

    /// Whether [`Self::invalidate`] was called.
    pub fn is_invalidated(&self) -> (r: bool)
        ensures
            r == self.spec_invalidated(),
    {
        self.invalidated
    }

    /// Whether attributes changed since load (or the session is new).
    pub fn is_dirty(&self) -> (r: bool)
        ensures
            r == self.spec_dirty(),
    {
        self.dirty || self.is_new
    }

    /// The value stored under `key`.
    pub fn get(&self, key: &str) -> (r: Option<&str>)
        ensures
            match r {
                Some(v) => self@.dom().contains(key@) && v@ == self@[key@],
                None => !self@.dom().contains(key@),
            },
    {
        match self.attributes.get(key) {
            Some(v) => Some(v.as_str()),
            None => None,
        }
    }

    /// Sets `key` to `value` and marks the session dirty.
    pub fn set(&mut self, key: &str, value: &str)
        ensures
            final(self)@ == old(self)@.insert(key@, value@),
            final(self).spec_dirty(),
            final(self).spec_id() == old(self).spec_id(),
            final(self).spec_is_new() == old(self).spec_is_new(),
            final(self).spec_invalidated() == old(self).spec_invalidated(),
    {
        let mut attributes = StringMap::new();
        std::mem::swap(&mut attributes, &mut self.attributes);
        let _ = attributes.insert(key.to_owned(), value.to_owned());
        self.attributes = attributes;
        self.dirty = true;
        assert(self@ =~= old(self)@.insert(key@, value@));
    }

    /// Removes `key`, returning its value; the session becomes dirty only
    /// when a value was removed.
    pub fn remove(&mut self, key: &str) -> (r: Option<String>)
        ensures
            final(self)@ == old(self)@.remove(key@),
            match r {
                Some(v) => old(self)@.dom().contains(key@) && v@ == old(self)@[key@],
                None => !old(self)@.dom().contains(key@),
            },
            final(self).spec_dirty() == (old(self).spec_dirty() || r is Some),
            final(self).spec_id() == old(self).spec_id(),
            final(self).spec_is_new() == old(self).spec_is_new(),
            final(self).spec_invalidated() == old(self).spec_invalidated(),
    {
        let mut attributes = StringMap::new();
        std::mem::swap(&mut attributes, &mut self.attributes);
        let previous = attributes.remove(key);
        self.attributes = attributes;
        if previous.is_some() {
            self.dirty = true;
        }
        assert(self@ =~= old(self)@.remove(key@));
        previous
    }

    /// Clears all attributes; the session becomes dirty when any were held.
    pub fn clear(&mut self)
        ensures
            final(self)@ == Map::<Seq<char>, Seq<char>>::empty(),
            final(self).spec_dirty() == (old(self).spec_dirty() || old(self)@.dom().len() > 0),
            final(self).spec_id() == old(self).spec_id(),
            final(self).spec_is_new() == old(self).spec_is_new(),
            final(self).spec_invalidated() == old(self).spec_invalidated(),
    {
        assert(self@.dom() =~= self.attributes@.dom());
        if self.attributes.len() > 0 {
            self.attributes = StringMap::new();
            self.dirty = true;
        }
        proof {
            if old(self).attributes@.dom().len() == 0 {
                assert(old(self).attributes@ =~= Map::<Seq<char>, String>::empty());
            }
        }
        assert(self@ =~= Map::<Seq<char>, Seq<char>>::empty());
    }

    /// Marks the session destroyed: attributes cleared, store delete on commit.
    pub fn invalidate(&mut self)
        ensures
            final(self)@ == Map::<Seq<char>, Seq<char>>::empty(),
            final(self).spec_invalidated(),
            final(self).spec_dirty(),
            final(self).spec_id() == old(self).spec_id(),
            final(self).spec_is_new() == old(self).spec_is_new(),
    {
        self.attributes = StringMap::new();
        self.invalidated = true;
        self.dirty = true;
        assert(self@ =~= Map::<Seq<char>, Seq<char>>::empty());
    }

    /// Attribute map for persistence.
    pub fn attributes(&self) -> (r: &StringMap<String>)
        ensures
            r@.map_values(|v: String| v@) == self@,
    {
        &self.attributes
    }

    /// A copy of the attributes, to be saved.
    pub fn take_for_save(&self) -> (r: StringMap<String>)
        ensures
            r@.map_values(|v: String| v@) == self@,
    {
        self.attributes.duplicate()
    }
}

/// A read gives back the last write: after setting `key` to `value`, `key`
/// reads `value` and every other key reads what it read before.
pub proof fn law_set_then_get(before: Map<Seq<char>, Seq<char>>, key: Seq<char>, value: Seq<char>, other: Seq<char>)
    requires
        other != key,
    ensures
        before.insert(key, value)[key] == value,
        before.insert(key, value).dom().contains(key),
        before.insert(key, value).dom().contains(other) == before.dom().contains(other),
        before.dom().contains(other) ==> before.insert(key, value)[other] == before[other],
{
}

} // verus!
