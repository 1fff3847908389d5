//! Normalization context passed to normalizers and denormalizers.

use vstd::prelude::*;

use crate::strmap::StringMap;

verus! {

/// Key/value bag available during normalize / denormalize.
pub struct NormalizationContext {
    attributes: StringMap<String>,
}

/// The character views of the values of a string map.
pub open spec fn text_values(m: Map<Seq<char>, String>) -> Map<Seq<char>, Seq<char>> {
    m.map_values(|v: String| v@)
}

impl NormalizationContext {
    /// Attributes by key.
    pub closed spec fn attributes(&self) -> Map<Seq<char>, Seq<char>> {
        text_values(self.attributes.view())
    }

    /// An empty context.
    pub fn new() -> (r: Self)
        ensures
            r.attributes() == Map::<Seq<char>, Seq<char>>::empty(),
    {
        let r = NormalizationContext { attributes: StringMap::new() };
        assert(r.attributes() =~= Map::<Seq<char>, Seq<char>>::empty());
        r
    }

    /// Sets attribute `key` to `value`.
    pub fn set(&mut self, key: &str, value: &str)
        ensures
            final(self).attributes() == old(self).attributes().insert(key@, value@),
    {
        let v = value.to_owned();
        let _ = self.attributes.insert(key.to_owned(), v);
        assert(self.attributes() =~= old(self).attributes().insert(key@, value@));
    }

    /// The attribute `key`, when set.
    pub fn get(&self, key: &str) -> (r: Option<&str>)
        ensures
            match r {
                Some(v) => self.attributes().dom().contains(key@) && v@ == self.attributes()[key@],
                None => !self.attributes().dom().contains(key@),
            },
    {
        match self.attributes.get(key) {
            Some(v) => Some(v.as_str()),
            None => None,
        }
    }
}

} // verus!
