//! In-memory document index.

use vstd::prelude::*;
use vstd::relations::{sorted_by, total_ordering};

use crate::search::document::{SearchDocument, SearchError};
use crate::search::index::{is_empty_id_error, validate_id, DocumentIndex};
use crate::search::query::{hit_view, hit_views, SearchHit, SearchQuery};
use crate::strmap::StringMap;
use crate::text::{
    chars_less, chars_of, join, join_chars, lemma_lex_irreflexive, lemma_lex_total,
    lemma_lex_transitive, lex_lt, occurrences, sat_add, split_words, string_of, to_lowercase,
    lowercase, string_views, views_of, words,
};

verus! {

/// Query tokens of `text`: its white-space separated words, lower-cased,
/// with empty ones dropped.
pub open spec fn query_tokens(text: Seq<char>) -> Seq<Seq<char>> {
    lowered_words(text).filter(non_empty())
}

/// The white-space separated words of `text`, lower-cased.
pub open spec fn lowered_words(text: Seq<char>) -> Seq<Seq<char>> {
    words(text).map_values(|w: Seq<char>| lowercase(w))
}

/// Whether a token is non-empty.
pub open spec fn non_empty() -> spec_fn(Seq<char>) -> bool {
    |t: Seq<char>| t.len() > 0
}

/// The values of `fields`, lower-cased, in field order.
pub open spec fn lowered_values(fields: Seq<(Seq<char>, Seq<char>)>) -> Seq<Seq<char>> {
    fields.map_values(|f: (Seq<char>, Seq<char>)| lowercase(f.1))
}

/// The text a document is matched against: its field values in field order,
/// lower-cased and joined with single spaces.
pub open spec fn haystack_of(fields: Seq<(Seq<char>, Seq<char>)>) -> Seq<char> {
    join(lowered_values(fields), seq![' '])
}

/// `n` saturated at `u32::MAX`.
pub open spec fn capped(n: nat) -> u32 {
    if n > u32::MAX {
        u32::MAX
    } else {
        n as u32
    }
}

/// Saturating sum of the occurrence counts of `tokens` in `hay`, or `None`
/// when some token does not occur.
pub open spec fn token_total(hay: Seq<char>, tokens: Seq<Seq<char>>) -> Option<u32>
    decreases tokens.len(),
{
    if tokens.len() == 0 {
        Some(0u32)
    } else {
        match token_total(hay, tokens.drop_last()) {
            Some(t) => if occurrences(hay, tokens.last()) == 0 {
                None
            } else {
                Some(sat_add(t as int, capped(occurrences(hay, tokens.last())) as int) as u32)
            },
            None => None,
        }
    }
}

/// Score of a document text against query tokens: `None` for no tokens or
/// when a token is missing, else the saturating sum of occurrence counts.
pub open spec fn score_of(hay: Seq<char>, tokens: Seq<Seq<char>>) -> Option<u32> {
    if tokens.len() == 0 {
        None
    } else {
        token_total(hay, tokens)
    }
}

/// The hit a stored entry yields for `tokens`, if it matches.
pub open spec fn entry_hit(e: (String, SearchDocument), tokens: Seq<Seq<char>>) -> Option<
    (Seq<char>, u32),
> {
    match score_of(haystack_of(e.1.spec_fields()), tokens) {
        Some(s) => Some((e.0@, s)),
        None => None,
    }
}

/// Matching entries as `(id, score)`, in storage order.
pub open spec fn candidates(entries: Seq<(String, SearchDocument)>, tokens: Seq<Seq<char>>) -> Seq<
    (Seq<char>, u32),
> {
    entries.filter_map(|e: (String, SearchDocument)| entry_hit(e, tokens))
}

/// Whether hit `a` ranks no later than hit `b`: higher score first, then id
/// in ascending order.
pub open spec fn ranks_first(a: (Seq<char>, u32), b: (Seq<char>, u32)) -> bool {
    a.1 > b.1 || (a.1 == b.1 && (a.0 == b.0 || lex_lt(a.0, b.0)))
}

/// The ranking order as a relation.
pub open spec fn rank_order() -> spec_fn((Seq<char>, u32), (Seq<char>, u32)) -> bool {
    |a: (Seq<char>, u32), b: (Seq<char>, u32)| ranks_first(a, b)
}

/// Hits in rank order.
pub open spec fn ranked(hits: Seq<(Seq<char>, u32)>) -> Seq<(Seq<char>, u32)> {
    hits.sort_by(rank_order())
}

/// The window of `s` that skips `offset` items and keeps at most `limit`.
pub open spec fn page<T>(s: Seq<T>, offset: int, limit: Option<usize>) -> Seq<T> {
    let rest = if offset >= s.len() {
        Seq::<T>::empty()
    } else {
        s.skip(offset)
    };
    match limit {
        Some(l) => if l < rest.len() {
            rest.take(l as int)
        } else {
            rest
        },
        None => rest,
    }
}

/// The ranking order is a total order.
pub proof fn lemma_rank_order_total()
    ensures
        total_ordering(rank_order()),
{
    let r = rank_order();
    assert forall|x: (Seq<char>, u32)| #[trigger] r(x, x) by {}
    assert forall|x: (Seq<char>, u32), y: (Seq<char>, u32)| #[trigger]
        r(x, y) && #[trigger] r(y, x) implies x == y by {
        if x.0 != y.0 {
            lemma_lex_transitive(x.0, y.0, x.0);
            lemma_lex_irreflexive(x.0);
        }
    }
    assert forall|x: (Seq<char>, u32), y: (Seq<char>, u32), z: (Seq<char>, u32)| #[trigger]
        r(x, y) && #[trigger] r(y, z) implies r(x, z) by {
        if x.1 == y.1 && y.1 == z.1 && x.0 != y.0 && y.0 != z.0 {
            lemma_lex_transitive(x.0, y.0, z.0);
        }
    }
    assert forall|x: (Seq<char>, u32), y: (Seq<char>, u32)| #[trigger] r(x, y) || #[trigger] r(
        y,
        x,
    ) by {
        if x.0 != y.0 {
            lemma_lex_total(x.0, y.0);
        }
    }
}

/// The `(id, score)` views of working hits.
pub open spec fn pair_views(v: Seq<(Vec<char>, u32)>) -> Seq<(Seq<char>, u32)> {
    v.map_values(|p: (Vec<char>, u32)| (p.0@, p.1))
}

/// Whether hit `a` ranks no later than hit `b`.
fn ranks_first_exec(a: &(Vec<char>, u32), b: &(Vec<char>, u32)) -> (r: bool)
    ensures
        r == ranks_first((a.0@, a.1), (b.0@, b.1)),
{
    if a.1 != b.1 {
        a.1 > b.1
    } else {
        let before = chars_less(b.0.as_slice(), a.0.as_slice());
        proof {
            if a.0@ == b.0@ {
                lemma_lex_irreflexive(a.0@);
            } else {
                lemma_lex_total(a.0@, b.0@);
                if lex_lt(a.0@, b.0@) && lex_lt(b.0@, a.0@) {
                    lemma_lex_transitive(a.0@, b.0@, a.0@);
                    lemma_lex_irreflexive(a.0@);
                }
            }
        }
        !before
    }
}

/// Index of a first-ranked hit of the non-empty `v`.
fn first_ranked(v: &Vec<(Vec<char>, u32)>) -> (m: usize)
    requires
        v@.len() > 0,
    ensures
        m < v@.len(),
        forall|k: int| 0 <= k < v@.len() ==> ranks_first(pair_views(v@)[m as int], #[trigger] pair_views(v@)[k]),
{
    proof {
        lemma_rank_order_total();
    }
    let mut m: usize = 0;
    let mut j: usize = 1;
    while j < v.len()
        invariant
            total_ordering(rank_order()),
            0 < j <= v@.len(),
            m < j,
            forall|k: int| 0 <= k < j ==> ranks_first(pair_views(v@)[m as int], #[trigger] pair_views(v@)[k]),
        decreases v@.len() - j,
    {
        if !ranks_first_exec(&v[m], &v[j]) {
            proof {
                let r = rank_order();
                let a = pair_views(v@)[m as int];
                let b = pair_views(v@)[j as int];
                assert(r(a, b) || r(b, a));
                assert forall|k: int| 0 <= k < j + 1 implies ranks_first(b, #[trigger] pair_views(v@)[k]) by {
                    let c = pair_views(v@)[k];
                    if k < j {
                        assert(r(b, a) && r(a, c));
                    } else {
                        assert(r(b, b));
                    }
                }
            }
            m = j;
        }
        j = j + 1;
    }
    m
}

/// `v` in rank order.
fn rank(v: Vec<(Vec<char>, u32)>) -> (r: Vec<(Vec<char>, u32)>)
    ensures
        pair_views(r@) == ranked(pair_views(v@)),
{
    broadcast use vstd::seq_lib::group_to_multiset_ensures;
    broadcast use vstd::multiset::group_multiset_axioms;

    proof {
        lemma_rank_order_total();
    }
    let ghost whole = pair_views(v@);
    let mut rest = v;
    let mut out: Vec<(Vec<char>, u32)> = Vec::new();
    assert(pair_views(out@).to_multiset().add(pair_views(rest@).to_multiset()) =~= whole.to_multiset());
    while rest.len() > 0
        invariant
            total_ordering(rank_order()),
            whole == pair_views(v@),
            pair_views(out@).to_multiset().add(pair_views(rest@).to_multiset()) == whole.to_multiset(),
            sorted_by(pair_views(out@), rank_order()),
            forall|i: int, j: int|
                0 <= i < out@.len() && 0 <= j < rest@.len() ==> ranks_first(
                    #[trigger] pair_views(out@)[i],
                    #[trigger] pair_views(rest@)[j],
                ),
        decreases rest@.len(),
    {
        let m = first_ranked(&rest);
        let ghost old_rest = pair_views(rest@);
        let ghost old_out = pair_views(out@);
        let ghost x = old_rest[m as int];
        let item = rest.remove(m);
        out.push(item);
        proof {
            assert(pair_views(rest@) =~= old_rest.remove(m as int));
            assert(pair_views(out@) =~= old_out.push(x));
            old_rest.to_multiset_ensures();
            old_out.to_multiset_ensures();
            assert(old_rest.contains(x)) by {
                assert(old_rest[m as int] == x);
            }
            assert(old_rest.to_multiset().count(x) > 0);
            assert(pair_views(rest@).to_multiset() =~= old_rest.to_multiset().remove(x));
            assert(pair_views(out@).to_multiset() =~= old_out.to_multiset().insert(x));
            assert(pair_views(out@).to_multiset().add(pair_views(rest@).to_multiset())
                =~= whole.to_multiset());
            assert forall|i: int, j: int| 0 <= i < j < pair_views(out@).len() implies #[trigger]
                rank_order()(pair_views(out@)[i], pair_views(out@)[j]) by {
                if j == old_out.len() {
                    assert(ranks_first(old_out[i], old_rest[m as int]));
                } else {
                    assert(rank_order()(old_out[i], old_out[j]));
                }
            }
            assert forall|i: int, j: int|
                0 <= i < pair_views(out@).len() && 0 <= j < pair_views(rest@).len() implies ranks_first(
                #[trigger] pair_views(out@)[i],
                #[trigger] pair_views(rest@)[j],
            ) by {
                let jj = if j < m { j } else { j + 1 };
                assert(pair_views(rest@)[j] == old_rest[jj]);
                if i < old_out.len() {
                    assert(ranks_first(old_out[i], old_rest[jj]));
                } else {
                    assert(ranks_first(x, old_rest[jj]));
                }
            }
        }
    }
    proof {
        assert(pair_views(rest@).to_multiset() =~= vstd::multiset::Multiset::empty());
        assert(pair_views(out@).to_multiset() =~= whole.to_multiset());
        whole.lemma_sort_by_ensures(rank_order());
        vstd::seq_lib::lemma_sorted_unique(pair_views(out@), whole.sort_by(rank_order()), rank_order());
    }
    out
}

/// In-memory index with case-insensitive token substring matching.
///
/// Query text is split on Unicode white space. A document matches when every
/// non-empty token appears as a substring of its field values (lower-cased,
/// joined by spaces). Score is the sum of token occurrence counts. Hits are
/// ranked by score, highest first, then by id.
pub struct MemorySearchAdapter {
    docs: StringMap<SearchDocument>,
}

impl MemorySearchAdapter {
    /// Stored documents by id.
    pub closed spec fn documents(&self) -> Map<Seq<char>, SearchDocument> {
        self.docs.view()
    }

    /// Stored `(id, document)` entries in storage order; their ids are the
    /// keys of [`Self::documents`].
    pub closed spec fn stored(&self) -> Seq<(String, SearchDocument)> {
        self.docs.entries_view()
    }

    /// Hits `query` yields on this index, in rank order and paged.
    pub open spec fn query_result(&self, query: SearchQuery) -> Seq<(Seq<char>, u32)> {
        page(
            ranked(candidates(self.stored(), query_tokens(query.spec_text()))),
            query.spec_offset() as int,
            query.spec_limit(),
        )
    }

    /// Creates an empty index.
    pub fn new() -> (r: Self)
        ensures
            r.documents() == Map::<Seq<char>, SearchDocument>::empty(),
            r.stored().len() == 0,
    {
        MemorySearchAdapter { docs: StringMap::new() }
    }

    /// Number of non-overlapping occurrences of `needle` in `haystack`,
    /// saturated at `u32::MAX`; zero for an empty needle.
    pub fn count_occurrences(haystack: &str, needle: &str) -> (r: u32)
        ensures
            r == capped(occurrences(haystack@, needle@)),
    {
        let h = chars_of(haystack);
        let n = chars_of(needle);
        crate::text::count_occurrences(h.as_slice(), n.as_slice())
    }

    /// Score of `haystack` against `tokens`: `None` when there are no tokens
    /// or some token does not occur, else the saturating sum of counts.
    pub fn score(haystack: &str, tokens: &[String]) -> (r: Option<u32>)
        ensures
            r == score_of(haystack@, string_views(tokens@)),
    {
        let h = chars_of(haystack);
        let mut toks: Vec<Vec<char>> = Vec::new();
        let mut i: usize = 0;
        while i < tokens.len()
            invariant
                0 <= i <= tokens@.len(),
                toks@.len() == i,
                forall|j: int| 0 <= j < i ==> (#[trigger] toks@[j])@ == tokens@[j]@,
            decreases tokens@.len() - i,
        {
            toks.push(chars_of(tokens[i].as_str()));
            i = i + 1;
        }
        assert(views_of(toks@) =~= string_views(tokens@));
        Self::score_chars(h.as_slice(), &toks)
    }

    fn score_chars(hay: &[char], tokens: &Vec<Vec<char>>) -> (r: Option<u32>)
        ensures
            r == score_of(hay@, views_of(tokens@)),
    {
        if tokens.len() == 0 {
            return None;
        }
        let mut total: u32 = 0;
        let mut i: usize = 0;
        while i < tokens.len()
            invariant
                0 <= i <= tokens@.len(),
                token_total(hay@, views_of(tokens@).take(i as int)) == Some(total),
            decreases tokens@.len() - i,
        {
            proof {
                assert(views_of(tokens@).take(i + 1).drop_last() =~= views_of(tokens@).take(i as int));
            }
            let count = crate::text::count_occurrences(hay, tokens[i].as_slice());
            if count == 0 {
                proof {
                    assert(views_of(tokens@).take(i + 1).last() == tokens@[i as int]@);
                }
                assert(token_total(hay@, views_of(tokens@).take(i + 1)) is None);
                let ghost k = i + 1;
                proof {
                    lemma_token_total_none(hay@, views_of(tokens@), k);
                }
                return None;
            }
            total = total.saturating_add(count);
            i = i + 1;
        }
        assert(views_of(tokens@).take(tokens@.len() as int) =~= views_of(tokens@));
        Some(total)
    }

    fn tokens(text: &str) -> (r: Vec<Vec<char>>)
        ensures
            views_of(r@) == query_tokens(text@),
    {
        let c = chars_of(text);
        let ws = split_words(c.as_slice());
        let ghost lowered = lowered_words(text@);
        let mut out: Vec<Vec<char>> = Vec::new();
        let mut i: usize = 0;
        while i < ws.len()
            invariant
                views_of(ws@) == words(text@),
                lowered == lowered_words(text@),
                0 <= i <= ws@.len(),
                views_of(out@) == lowered.take(i as int).filter(non_empty()),
            decreases ws@.len() - i,
        {
            let s = string_of(ws[i].as_slice());
            let low = to_lowercase(s.as_str());
            let lc = chars_of(low.as_str());
            proof {
                assert(lowered.take(i + 1).drop_last() =~= lowered.take(i as int));
                assert(lowered.take(i + 1).last() == lowercase(ws@[i as int]@));
                assert(lc@ == lowered.take(i + 1).last());
            }
            let ghost prev = lowered.take(i as int).filter(non_empty());
            if lc.len() > 0 {
                out.push(lc);
                proof {
                    reveal(Seq::filter);
                    assert(non_empty()(lc@));
                    assert(lowered.take(i + 1).filter(non_empty()) == prev.push(lc@));
                    assert(views_of(out@) =~= prev.push(lc@));
                }
            } else {
                proof {
                    reveal(Seq::filter);
                    assert(!non_empty()(lc@));
                    assert(lowered.take(i + 1).filter(non_empty()) == prev);
                }
            }
            i = i + 1;
        }
        assert(lowered.take(ws@.len() as int) =~= lowered);
        out
    }

    fn haystack(document: &SearchDocument) -> (r: Vec<char>)
        ensures
            r@ == haystack_of(document.spec_fields()),
    {
        let fields = document.fields();
        let mut parts: Vec<Vec<char>> = Vec::new();
        let mut i: usize = 0;
        while i < fields.len()
            invariant
                crate::search::document::field_views(fields@) == document.spec_fields(),
                0 <= i <= fields@.len(),
                parts@.len() == i,
                forall|j: int| 0 <= j < i ==> (#[trigger] parts@[j])@ == lowercase(fields@[j].1@),
            decreases fields@.len() - i,
        {
            let low = to_lowercase(fields[i].1.as_str());
            parts.push(chars_of(low.as_str()));
            i = i + 1;
        }
        assert(views_of(parts@) =~= lowered_values(document.spec_fields()));
        let sep = vec![' '];
        assert(sep@ =~= seq![' ']);
        join_chars(&parts, sep.as_slice())
    }
}

impl MemorySearchAdapter {
    /// Matching stored entries as working hits, in storage order.
    fn matching(&self, tokens: &Vec<Vec<char>>) -> (r: Vec<(Vec<char>, u32)>)
        ensures
            pair_views(r@) == candidates(self.stored(), views_of(tokens@)),
    {
        let entries = self.docs.entries();
        let ghost toks = views_of(tokens@);
        let mut hits: Vec<(Vec<char>, u32)> = Vec::new();
        let mut i: usize = 0;
        while i < entries.len()
            invariant
                entries@ == self.stored(),
                toks == views_of(tokens@),
                0 <= i <= entries@.len(),
                pair_views(hits@) == candidates(entries@.take(i as int), toks),
            decreases entries@.len() - i,
        {
            let hay = Self::haystack(&entries[i].1);
            let sc = Self::score_chars(hay.as_slice(), tokens);
            proof {
                assert(entries@.take(i + 1).drop_last() =~= entries@.take(i as int));
                assert(entries@.take(i + 1).last() == entries@[i as int]);
            }
            match sc {
                Some(score) => {
                    let ghost prev = pair_views(hits@);
                    hits.push((chars_of(entries[i].0.as_str()), score));
                    proof {
                        assert(pair_views(hits@) =~= prev.push((entries@[i as int].0@, score)));
                    }
                },
                None => {},
            }
            i = i + 1;
        }
        assert(entries@.take(entries@.len() as int) =~= entries@);
        hits
    }

    /// The page of `ranked` that `query` asks for, as hits.
    fn page_of(ranked: &Vec<(Vec<char>, u32)>, query: &SearchQuery) -> (r: Vec<SearchHit>)
        ensures
            hit_views(r@) == page(pair_views(ranked@), query.spec_offset() as int, query.spec_limit()),
    {
        let n = ranked.len();
        let offset = query.offset();
        let start = if offset < n {
            offset
        } else {
            n
        };
        let end = match query.limit() {
            Some(l) => if l < n - start {
                start + l
            } else {
                n
            },
            None => n,
        };
        let mut out: Vec<SearchHit> = Vec::new();
        let mut k: usize = start;
        while k < end
            invariant
                start <= k <= end <= ranked@.len(),
                hit_views(out@) == pair_views(ranked@).subrange(start as int, k as int),
            decreases end - k,
        {
            let id = string_of(ranked[k].0.as_slice());
            let ghost prev = out@;
            let h = SearchHit::from_parts(id, ranked[k].1);
            proof {
                assert(hit_view(h) == pair_views(ranked@)[k as int]);
            }
            out.push(h);
            k = k + 1;
            proof {
                assert(out@ == prev.push(h));
                assert(hit_views(out@) =~= hit_views(prev).push(hit_view(h)));
                assert(hit_views(out@) =~= pair_views(ranked@).subrange(start as int, k as int));
            }
        }
        proof {
            let s = pair_views(ranked@);
            let rest = if offset >= s.len() { Seq::empty() } else { s.skip(offset as int) };
            assert(rest =~= s.subrange(start as int, n as int));
            assert(page(s, offset as int, query.spec_limit()) =~= s.subrange(start as int, end as int));
        }
        out
    }
}

impl DocumentIndex for MemorySearchAdapter {
    fn upsert(&mut self, document: SearchDocument) -> (r: Result<(), SearchError>)
        ensures
            document.spec_id().len() > 0 ==> r is Ok && final(self).documents() == old(
                self,
            ).documents().insert(document.spec_id(), document),
            document.spec_id().len() == 0 ==> *final(self) == *old(self),
    {
        match validate_id(document.id()) {
            Ok(()) => {},
            Err(e) => return Err(e),
        }
        let id = document.id().to_owned();
        let _ = self.docs.insert(id, document);
        Ok(())
    }

    fn delete(&mut self, id: &str) -> (r: Result<bool, SearchError>)
        ensures
            id@.len() > 0 ==> r == Ok::<bool, SearchError>(old(self).documents().dom().contains(id@))
                && final(self).documents() == old(self).documents().remove(id@),
            id@.len() == 0 ==> *final(self) == *old(self),
    {
        match validate_id(id) {
            Ok(()) => {},
            Err(e) => return Err(e),
        }
        let removed = self.docs.remove(id);
        Ok(removed.is_some())
    }

    fn query(&mut self, query: &SearchQuery) -> (r: Result<Vec<SearchHit>, SearchError>)
        ensures
            *final(self) == *old(self),
            r matches Ok(hits) && hit_views(hits@) == old(self).query_result(*query),
    {
        let tokens = Self::tokens(query.text());
        let hits = self.matching(&tokens);
        let ranked = rank(hits);
        Ok(Self::page_of(&ranked, query))
    }

    fn clear(&mut self) -> (r: Result<(), SearchError>)
        ensures
            r is Ok,
            final(self).documents() == Map::<Seq<char>, SearchDocument>::empty(),
            final(self).stored().len() == 0,
    {
        self.docs.clear();
        Ok(())
    }
}

/// Every candidate comes from a stored entry that matches with that score.
proof fn lemma_candidate_source(entries: Seq<(String, SearchDocument)>, tokens: Seq<Seq<char>>, h: (Seq<char>, u32))
    requires
        candidates(entries, tokens).contains(h),
    ensures
        exists|j: int| 0 <= j < entries.len() && (#[trigger] entries[j]).0@ == h.0
            && score_of(haystack_of(entries[j].1.spec_fields()), tokens) == Some(h.1),
    decreases entries.len(),
{
    let rest = entries.drop_last();
    let last = entries.last();
    let c = candidates(entries, tokens);
    let k = choose|k: int| 0 <= k < c.len() && c[k] == h;
    match entry_hit(last, tokens) {
        Some(x) => {
            assert(c == candidates(rest, tokens) + seq![x]);
            if k < candidates(rest, tokens).len() {
                assert(candidates(rest, tokens)[k] == h);
                lemma_candidate_source(rest, tokens, h);
                let j = choose|j: int| 0 <= j < rest.len() && (#[trigger] rest[j]).0@ == h.0
                    && score_of(haystack_of(rest[j].1.spec_fields()), tokens) == Some(h.1);
                assert(entries[j] == rest[j]);
            } else {
                assert(entries[entries.len() - 1] == last);
            }
        },
        None => {
            assert(c == candidates(rest, tokens));
            lemma_candidate_source(rest, tokens, h);
            let j = choose|j: int| 0 <= j < rest.len() && (#[trigger] rest[j]).0@ == h.0
                && score_of(haystack_of(rest[j].1.spec_fields()), tokens) == Some(h.1);
            assert(entries[j] == rest[j]);
        },
    }
}

/// A query only reports stored documents: each hit names a stored entry
/// whose fields match the query tokens with exactly the hit's score.
pub proof fn law_hits_are_stored_matches(index: MemorySearchAdapter, query: SearchQuery, i: int)
    requires
        0 <= i < index.query_result(query).len(),
    ensures
        exists|j: int| 0 <= j < index.stored().len() && (#[trigger] index.stored()[j]).0@ == index.query_result(query)[i].0
            && score_of(haystack_of(index.stored()[j].1.spec_fields()), query_tokens(query.spec_text()))
            == Some(index.query_result(query)[i].1),
{
    broadcast use vstd::seq_lib::group_to_multiset_ensures;

    let tokens = query_tokens(query.spec_text());
    let c = candidates(index.stored(), tokens);
    let r = ranked(c);
    let off = query.spec_offset() as int;
    let h = index.query_result(query)[i];
    lemma_rank_order_total();
    c.lemma_sort_by_ensures(rank_order());
    let rest = if off >= r.len() { Seq::<(Seq<char>, u32)>::empty() } else { r.skip(off) };
    assert(rest.len() > 0);
    assert(h == rest[i]);
    assert(h == r[off + i]);
    assert(r.contains(h));
    assert(r.to_multiset().count(h) > 0);
    assert(c.to_multiset().count(h) > 0);
    assert(c.contains(h));
    lemma_candidate_source(index.stored(), tokens, h);
}

/// Hits come in rank order: higher score first, equal scores by ascending id.
pub proof fn law_hits_in_rank_order(index: MemorySearchAdapter, query: SearchQuery, i: int, j: int)
    requires
        0 <= i < j < index.query_result(query).len(),
    ensures
        ranks_first(index.query_result(query)[i], index.query_result(query)[j]),
{
    let c = candidates(index.stored(), query_tokens(query.spec_text()));
    let r = ranked(c);
    let off = query.spec_offset() as int;
    lemma_rank_order_total();
    c.lemma_sort_by_ensures(rank_order());
    let rest = if off >= r.len() { Seq::<(Seq<char>, u32)>::empty() } else { r.skip(off) };
    assert(rest.len() > 0);
    assert(index.query_result(query)[i] == r[off + i]);
    assert(index.query_result(query)[j] == r[off + j]);
    assert(rank_order()(r[off + i], r[off + j]));
}

proof fn lemma_token_total_none(hay: Seq<char>, tokens: Seq<Seq<char>>, k: int)
    requires
        0 <= k <= tokens.len(),
        token_total(hay, tokens.take(k)) is None,
    ensures
        token_total(hay, tokens) is None,
    decreases tokens.len() - k,
{
    if k < tokens.len() {
        assert(tokens.take(k + 1).drop_last() =~= tokens.take(k));
        lemma_token_total_none(hay, tokens, k + 1);
    } else {
        assert(tokens.take(k) =~= tokens);
    }
}

} // verus!
