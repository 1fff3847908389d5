//! Query and hit types.

use vstd::prelude::*;

verus! {

/// Text query with optional limit and an offset.
#[derive(Debug, Clone)]
pub struct SearchQuery {
    text: String,
    limit: Option<usize>,
    offset: usize,
}

impl SearchQuery {
    /// Query text.
    pub closed spec fn spec_text(&self) -> Seq<char> {
        self.text@
    }

    /// Optional hit limit.
    pub closed spec fn spec_limit(&self) -> Option<usize> {
        self.limit
    }

    /// Hit offset.
    pub closed spec fn spec_offset(&self) -> usize {
        self.offset
    }

    /// Builds a query from free text, with no limit and offset zero.
    pub fn new(text: &str) -> (r: Self)
        ensures
            r.spec_text() == text@,
            r.spec_limit() is None,
            r.spec_offset() == 0,
    {
        SearchQuery { text: text.to_owned(), limit: None, offset: 0 }
    }

    /// Caps the number of hits returned (after offset).
    pub fn with_limit(self, limit: usize) -> (r: Self)
        ensures
            r.spec_text() == self.spec_text(),
            r.spec_limit() == Some(limit),
            r.spec_offset() == self.spec_offset(),
    {
        SearchQuery { limit: Some(limit), ..self }
    }

    /// Skips the first `offset` hits (after ranking).
    pub fn with_offset(self, offset: usize) -> (r: Self)
        ensures
            r.spec_text() == self.spec_text(),
            r.spec_limit() == self.spec_limit(),
            r.spec_offset() == offset,
    {
        SearchQuery { offset, ..self }
    }

    /// Query text.
    pub fn text(&self) -> (r: &str)
        ensures
            r@ == self.spec_text(),
    {
        self.text.as_str()
    }

    /// Optional hit limit.
    pub fn limit(&self) -> (r: Option<usize>)
        ensures
            r == self.spec_limit(),
    {
        self.limit
    }

    /// Hit offset.
    pub fn offset(&self) -> (r: usize)
        ensures
            r == self.spec_offset(),
    {
        self.offset
    }
}

/// Ranked match: document id and score (higher is better).
#[derive(Debug, Clone, PartialEq, Eq)]
pub struct SearchHit {
    id: String,
    score: u32,
}

/// The id and score of a hit.
pub open spec fn hit_view(h: SearchHit) -> (Seq<char>, u32) {
    (h.spec_id(), h.spec_score())
}

/// The ids and scores of hits.
pub open spec fn hit_views(s: Seq<SearchHit>) -> Seq<(Seq<char>, u32)> {
    s.map_values(|h: SearchHit| hit_view(h))
}

impl SearchHit {
    /// Document id.
    pub closed spec fn spec_id(&self) -> Seq<char> {
        self.id@
    }

    /// Score.
    pub closed spec fn spec_score(&self) -> u32 {
        self.score
    }

    /// A hit for `id` with `score`.
    pub fn new(id: &str, score: u32) -> (r: Self)
        ensures
            r.spec_id() == id@,
            r.spec_score() == score,
    {
        SearchHit { id: id.to_owned(), score }
    }

    /// A hit taking ownership of `id`.
    pub fn from_parts(id: String, score: u32) -> (r: Self)
        ensures
            r.spec_id() == id@,
            r.spec_score() == score,
    {
        SearchHit { id, score }
    }

    /// Document id.
    pub fn id(&self) -> (r: &str)
        ensures
            r@ == self.spec_id(),
    {
        self.id.as_str()
    }

    /// Ranking score from the adapter.
    pub fn score(&self) -> (r: u32)
        ensures
            r == self.spec_score(),
    {
        self.score
    }
}

} // verus!
