//! Indexed document shape.

use vstd::prelude::*;

use crate::text::{chars_equal, chars_less, chars_of, lemma_lex_irreflexive, lemma_lex_total, lemma_lex_transitive, lex_lt};

verus! {

/// Whether the keys of `s` strictly increase.
pub open spec fn keys_increasing(s: Seq<(String, String)>) -> bool {
    forall|i: int, j: int| 0 <= i < j < s.len() ==> lex_lt((#[trigger] s[i]).0@, (#[trigger] s[j]).0@)
}

/// Field names and values of `s` as character sequences.
pub open spec fn field_views(s: Seq<(String, String)>) -> Seq<(Seq<char>, Seq<char>)> {
    s.map_values(|p: (String, String)| (p.0@, p.1@))
}

/// Failure while indexing or querying documents.
#[derive(Debug, Clone, PartialEq, Eq)]
pub enum SearchError {
    /// Document id is invalid for this index.
    InvalidId {
        /// Document id.
        id: String,
        /// Reason.
        message: String,
    },
    /// Query text is invalid for this index.
    InvalidQuery {
        /// Reason.
        message: String,
    },
    /// Index operation failed.
    Index {
        /// Underlying message.
        message: String,
    },
}

/// Whether two errors are the same variant with the same texts.
pub open spec fn same_error(a: SearchError, b: SearchError) -> bool {
    match (a, b) {
        (SearchError::InvalidId { id: i1, message: m1 }, SearchError::InvalidId { id: i2, message: m2 }) => i1@ == i2@ && m1@ == m2@,
        (SearchError::InvalidQuery { message: m1 }, SearchError::InvalidQuery { message: m2 }) => m1@ == m2@,
        (SearchError::Index { message: m1 }, SearchError::Index { message: m2 }) => m1@ == m2@,
        _ => false,
    }
}

impl SearchError {
    /// A copy of this error.
    pub fn duplicate(&self) -> (r: Self)
        ensures
            same_error(r, *self),
    {
        match self {
            SearchError::InvalidId { id, message } => SearchError::InvalidId { id: id.clone(), message: message.clone() },
            SearchError::InvalidQuery { message } => SearchError::InvalidQuery { message: message.clone() },
            SearchError::Index { message } => SearchError::Index { message: message.clone() },
        }
    }
}

/// Document stored in an index: a stable id and searchable text fields,
/// kept in order of field name.
pub struct SearchDocument {
    id: String,
    fields: Vec<(String, String)>,
}

impl SearchDocument {
    #[verifier::type_invariant]
    closed spec fn sorted(&self) -> bool {
        keys_increasing(self.fields@)
    }

    /// Document id.
    pub closed spec fn spec_id(&self) -> Seq<char> {
        self.id@
    }

    /// Fields in order of name.
    pub closed spec fn spec_fields(&self) -> Seq<(Seq<char>, Seq<char>)> {
        field_views(self.fields@)
    }

    /// Builds a document with `id` and no fields.
    pub fn new(id: &str) -> (r: Self)
        ensures
            r.spec_id() == id@,
            r.spec_fields().len() == 0,
    {
        SearchDocument { id: id.to_owned(), fields: Vec::new() }
    }

    /// Adds or replaces the text field `name`, keeping fields ordered by name.
    pub fn field(self, name: &str, value: &str) -> (r: Self)
        ensures
            r.spec_id() == self.spec_id(),
            fields_after_set(self.spec_fields(), name@, value@) == r.spec_fields(),
    {
        proof {
            use_type_invariant(&self);
        }
        let SearchDocument { id, fields } = self;
        let mut fields = fields;
        let n = chars_of(name);
        let mut p: usize = 0;
        while p < fields.len()
            invariant
                0 <= p <= fields@.len(),
                keys_increasing(fields@),
                forall|k: int| 0 <= k < p ==> lex_lt((#[trigger] fields@[k]).0@, n@),
            ensures
                0 <= p <= fields@.len(),
                p < fields@.len() ==> !lex_lt(fields@[p as int].0@, n@),
            decreases fields@.len() - p,
        {
            let key = chars_of(fields[p].0.as_str());
            if !chars_less(key.as_slice(), n.as_slice()) {
                break;
            }
            p = p + 1;
        }
        let ghost old_fields = fields@;
        let replace = if p < fields.len() {
            let key = chars_of(fields[p].0.as_str());
            chars_equal(key.as_slice(), n.as_slice())
        } else {
            false
        };
        if replace {
            fields.remove(p);
            fields.insert(p, (name.to_owned(), value.to_owned()));
            proof {
                assert forall|i: int, j: int| 0 <= i < j < fields@.len() implies lex_lt(
                    (#[trigger] fields@[i]).0@,
                    (#[trigger] fields@[j]).0@,
                ) by {
                    assert(fields@[i].0@ == old_fields[i].0@);
                    assert(fields@[j].0@ == old_fields[j].0@);
                }
                assert(field_views(fields@) =~= fields_after_set(field_views(old_fields), n@, value@))
                    by {
                    lemma_set_position(field_views(old_fields), n@, value@, p as int, true);
                }
            }
        } else {
            fields.insert(p, (name.to_owned(), value.to_owned()));
            proof {
                if p < old_fields.len() {
                    assert(!lex_lt(old_fields[p as int].0@, n@));
                    lemma_lex_total(old_fields[p as int].0@, n@);
                }
                assert forall|i: int, j: int| 0 <= i < j < fields@.len() implies lex_lt(
                    (#[trigger] fields@[i]).0@,
                    (#[trigger] fields@[j]).0@,
                ) by {
                    if j < p {
                        assert(fields@[i] == old_fields[i] && fields@[j] == old_fields[j]);
                    } else if j == p {
                        assert(fields@[i] == old_fields[i]);
                    } else if i == p {
                        assert(fields@[j] == old_fields[j - 1]);
                        if j - 1 > p {
                            lemma_lex_transitive(n@, old_fields[p as int].0@, old_fields[j - 1].0@);
                        }
                    } else if i < p {
                        assert(fields@[i] == old_fields[i] && fields@[j] == old_fields[j - 1]);
                        if j - 1 >= p {
                            lemma_lex_total(old_fields[p as int].0@, n@);
                            lemma_lex_transitive(old_fields[i].0@, n@, old_fields[p as int].0@);
                            if j - 1 > p {
                                lemma_lex_transitive(old_fields[i].0@, old_fields[p as int].0@, old_fields[j - 1].0@);
                            }
                        }
                    } else {
                        assert(fields@[i] == old_fields[i - 1] && fields@[j] == old_fields[j - 1]);
                    }
                }
                assert(field_views(fields@) =~= fields_after_set(field_views(old_fields), n@, value@))
                    by {
                    lemma_set_position(field_views(old_fields), n@, value@, p as int, false);
                }
            }
        }
        SearchDocument { id, fields }
    }

    /// Stable document id.
    pub fn id(&self) -> (r: &str)
        ensures
            r@ == self.spec_id(),
    {
        self.id.as_str()
    }

    /// Searchable text fields, in order of name.
    pub fn fields(&self) -> (r: &Vec<(String, String)>)
        ensures
            field_views(r@) == self.spec_fields(),
            keys_increasing(r@),
    {
        proof {
            use_type_invariant(self);
        }
        &self.fields
    }

    /// Consumes the document into `(id, fields)`.
    pub fn into_parts(self) -> (r: (String, Vec<(String, String)>))
        ensures
            r.0@ == self.spec_id(),
            field_views(r.1@) == self.spec_fields(),
    {
        let SearchDocument { id, fields } = self;
        (id, fields)
    }
}

/// Fields `s` (ordered by name) with `name` set to `value`: replaced in
/// place when present, otherwise inserted in order.
pub open spec fn fields_after_set(s: Seq<(Seq<char>, Seq<char>)>, name: Seq<char>, value: Seq<char>) -> Seq<(Seq<char>, Seq<char>)>
    decreases s.len(),
{
    if s.len() == 0 {
        seq![(name, value)]
    } else if lex_lt(s[0].0, name) {
        seq![s[0]] + fields_after_set(s.drop_first(), name, value)
    } else if s[0].0 == name {
        seq![(name, value)] + s.drop_first()
    } else {
        seq![(name, value)] + s
    }
}

proof fn lemma_set_position(s: Seq<(Seq<char>, Seq<char>)>, name: Seq<char>, value: Seq<char>, p: int, replace: bool)
    requires
        0 <= p <= s.len(),
        forall|k: int| 0 <= k < p ==> lex_lt((#[trigger] s[k]).0, name),
        p < s.len() ==> !lex_lt(s[p].0, name),
        replace ==> p < s.len() && s[p].0 == name,
        !replace ==> p == s.len() || s[p].0 != name,
    ensures
        replace ==> fields_after_set(s, name, value) == s.update(p, (name, value)),
        !replace ==> fields_after_set(s, name, value) == s.insert(p, (name, value)),
    decreases p,
{
    if p == 0 {
        if replace {
            assert(fields_after_set(s, name, value) =~= s.update(p, (name, value)));
        } else {
            assert(fields_after_set(s, name, value) =~= s.insert(p, (name, value)));
        }
    } else {
        let t = s.drop_first();
        assert forall|k: int| 0 <= k < p - 1 implies lex_lt((#[trigger] t[k]).0, name) by {
            assert(t[k] == s[k + 1]);
        }
        lemma_set_position(t, name, value, p - 1, replace);
        if replace {
            assert(fields_after_set(s, name, value) =~= s.update(p, (name, value)));
        } else {
            assert(fields_after_set(s, name, value) =~= s.insert(p, (name, value)));
        }
    }
}

} // verus!
