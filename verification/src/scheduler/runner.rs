//! Tick-based schedule runner.

use vstd::prelude::*;

use crate::scheduler::clock::{is_instant, Clock};
use crate::scheduler::error::SchedulerError;
use crate::scheduler::schedule::{
    is_empty_id_error, job_view, job_views, validate_id, DueJob, Schedule,
};
use crate::scheduler::trigger::{fires_forward, next_due, Trigger, FAR_FUTURE};
use crate::text::chars_equal;
use crate::text::chars_of;

verus! {

/// A registered schedule: id, trigger and the instant it is armed for.
pub type EntryView = (Seq<char>, Trigger, i128);

struct Entry {
    id: String,
    trigger: Trigger,
    next: i128,
}

spec fn entry_view(e: Entry) -> EntryView {
    (e.id@, e.trigger, e.next)
}

spec fn entry_views(s: Seq<Entry>) -> Seq<EntryView> {
    s.map_values(|e: Entry| entry_view(e))
}

/// Whether the ids of `s` are pairwise distinct.
pub open spec fn ids_distinct(s: Seq<EntryView>) -> bool {
    forall|i: int, j: int| 0 <= i < s.len() && 0 <= j < s.len() && i != j ==> (#[trigger] s[i]).0 != (#[trigger] s[j]).0
}

/// Whether some entry of `s` has id `id`.
pub open spec fn has_id(s: Seq<EntryView>, id: Seq<char>) -> bool {
    exists|i: int| 0 <= i < s.len() && (#[trigger] s[i]).0 == id
}

/// The jobs a tick at `now` reports: the entries armed for `now` or
/// earlier, in registration order, with the instant each was armed for.
pub open spec fn due_at(s: Seq<EntryView>, now: int) -> Seq<(Seq<char>, i128)> {
    s.filter_map(|e: EntryView| if e.2 <= now { Some((e.0, e.2)) } else { None })
}

/// The entries after a tick at `now`: those that fired are re-armed from `now`.
pub open spec fn rearmed_at(s: Seq<EntryView>, now: int) -> Seq<EntryView> {
    s.map_values(|e: EntryView| if e.2 <= now { (e.0, e.1, next_due(e.1, now) as i128) } else { e })
}

/// The entries without the one whose id is `id`.
pub open spec fn without_id(s: Seq<EntryView>, id: Seq<char>) -> Seq<EntryView> {
    s.filter_map(|e: EntryView| if e.0 == id { None } else { Some(e) })
}

/// Whether every armed instant of `s` is an instant a clock can read.
pub open spec fn all_instants(s: Seq<EntryView>) -> bool {
    forall|i: int| 0 <= i < s.len() ==> is_instant(#[trigger] s[i].2 as int)
}

/// Whether every trigger of `s` arms strictly later than it is armed at.
pub open spec fn all_fire_forward(s: Seq<EntryView>) -> bool {
    forall|i: int| 0 <= i < s.len() ==> fires_forward(#[trigger] s[i].1)
}

/// The earliest armed instant of `s`.
pub open spec fn earliest(s: Seq<EntryView>) -> Option<i128>
    decreases s.len(),
{
    if s.len() == 0 {
        None
    } else {
        match earliest(s.drop_last()) {
            Some(m) => Some(if s.last().2 < m { s.last().2 } else { m }),
            None => Some(s.last().2),
        }
    }
}

/// Collects schedules and reports due work on each tick; it never sleeps.
pub struct Scheduler {
    entries: Vec<Entry>,
}

impl Scheduler {
    #[verifier::type_invariant]
    closed spec fn distinct(&self) -> bool {
        &&& ids_distinct(entry_views(self.entries@))
        &&& all_instants(entry_views(self.entries@))
    }

    /// Registered schedules in registration order.
    pub closed spec fn entries(&self) -> Seq<EntryView> {
        entry_views(self.entries@)
    }

    /// Empty scheduler.
    pub fn new() -> (r: Self)
        ensures
            r.entries().len() == 0,
    {
        Scheduler { entries: Vec::new() }
    }

    /// Index of the entry with id `id`, if any.
    fn position(&self, id: &str) -> (r: Option<usize>)
        ensures
            match r {
                Some(i) => i < self.entries().len() && self.entries()[i as int].0 == id@,
                None => !has_id(self.entries(), id@),
            },
    {
        let wanted = chars_of(id);
        let mut i: usize = 0;
        while i < self.entries.len()
            invariant
                0 <= i <= self.entries@.len(),
                wanted@ == id@,
                forall|j: int| 0 <= j < i ==> (#[trigger] self.entries@[j]).id@ != id@,
            decreases self.entries@.len() - i,
        {
            let have = chars_of(self.entries[i].id.as_str());
            if chars_equal(have.as_slice(), wanted.as_slice()) {
                assert(self.entries()[i as int] == entry_view(self.entries@[i as int]));
                return Some(i);
            }
            i = i + 1;
        }
        proof {
            assert forall|j: int| 0 <= j < self.entries().len() implies (#[trigger] self.entries()[j]).0 != id@ by {
                assert(self.entries()[j] == entry_view(self.entries@[j]));
            }
        }
        None
    }

    /// Registers `schedule`, arming its first fire from `now`. A second
    /// schedule with a registered id is rejected.
    pub fn add_at(&mut self, schedule: Schedule, now: i128) -> (r: Result<(), SchedulerError>)
        requires
            is_instant(now as int),
        ensures
            has_id(old(self).entries(), schedule.spec_id()) ==> (r matches Err(SchedulerError::InvalidId { id, message })
                && id@ == schedule.spec_id() && message@ == "schedule id already registered"@
                && final(self).entries() == old(self).entries()),
            !has_id(old(self).entries(), schedule.spec_id()) ==> (r is Ok && final(self).entries()
                == old(self).entries().push(
                (schedule.spec_id(), schedule.spec_trigger(), next_due(schedule.spec_trigger(), now as int) as i128),
            )),
    {
        proof {
            use_type_invariant(&*self);
        }
        match validate_id(schedule.id()) {
            Ok(()) => {},
            Err(e) => return Err(e),
        }
        match self.position(schedule.id()) {
            Some(_) => {
                return Err(SchedulerError::InvalidId {
                    id: schedule.id().to_owned(),
                    message: "schedule id already registered".to_owned(),
                });
            },
            None => {},
        }
        let next = schedule.trigger().first_due(now);
        let (id, trigger) = schedule.into_parts();
        let ghost before = self.entries();
        let mut entries: Vec<Entry> = Vec::new();
        std::mem::swap(&mut entries, &mut self.entries);
        entries.push(Entry { id, trigger, next });
        proof {
            assert(entry_views(entries@) =~= before.push((id@, trigger, next)));
            let s = entry_views(entries@);
            assert forall|i: int, j: int| 0 <= i < s.len() && 0 <= j < s.len() && i != j implies (#[trigger] s[i]).0 != (#[trigger] s[j]).0 by {
                if i < before.len() && j < before.len() {
                    assert(s[i] == before[i] && s[j] == before[j]);
                } else if i < before.len() {
                    assert(s[i] == before[i]);
                } else {
                    assert(s[j] == before[j]);
                }
            }
            assert forall|i: int| 0 <= i < s.len() implies is_instant(#[trigger] s[i].2 as int) by {
                if i < before.len() {
                    assert(s[i] == before[i]);
                }
            }
        }
        self.entries = entries;
        Ok(())
    }

    /// Registers `schedule`, arming its first fire from `clock.now()`.
    pub fn add<C: Clock>(&mut self, schedule: Schedule, clock: &C) -> (r: Result<(), SchedulerError>)
        ensures
            has_id(old(self).entries(), schedule.spec_id()) ==> (r matches Err(SchedulerError::InvalidId { id, message })
                && id@ == schedule.spec_id() && message@ == "schedule id already registered"@
                && final(self).entries() == old(self).entries()),
            !has_id(old(self).entries(), schedule.spec_id()) ==> (r is Ok && exists|now: i128| is_instant(now as int)
                && clock.may_read(now) && final(self).entries() == old(self).entries().push(
                (schedule.spec_id(), schedule.spec_trigger(), #[trigger] next_due(schedule.spec_trigger(), now as int) as i128),
            )),
    {
        let now = clock.now();
        self.add_at(schedule, now)
    }

    /// Number of registered schedules.
    pub fn len(&self) -> (r: usize)
        ensures
            r == self.entries().len(),
    {
        self.entries.len()
    }

    /// Whether no schedules are registered.
    pub fn is_empty(&self) -> (r: bool)
        ensures
            r == (self.entries().len() == 0),
    {
        self.entries.len() == 0
    }

    /// Earliest armed instant across all schedules.
    pub fn next_wake(&self) -> (r: Option<i128>)
        ensures
            r == earliest(self.entries()),
            r matches Some(w) ==> is_instant(w as int),
    {
        proof {
            use_type_invariant(self);
        }
        let mut best: Option<i128> = None;
        let mut i: usize = 0;
        while i < self.entries.len()
            invariant
                0 <= i <= self.entries@.len(),
                best == earliest(entry_views(self.entries@).take(i as int)),
                all_instants(entry_views(self.entries@)),
                best matches Some(w) ==> is_instant(w as int),
            decreases self.entries@.len() - i,
        {
            proof {
                assert(entry_views(self.entries@).take(i + 1).drop_last() =~= entry_views(self.entries@).take(i as int));
            }
            let t = self.entries[i].next;
            assert(entry_views(self.entries@)[i as int].2 == t);
            best = match best {
                Some(m) => Some(if t < m { t } else { m }),
                None => Some(t),
            };
            i = i + 1;
        }
        assert(entry_views(self.entries@).take(self.entries@.len() as int) =~= entry_views(self.entries@));
        best
    }

    /// Reports every schedule armed for `now` or earlier, in registration
    /// order, and re-arms each from `now`.
    pub fn tick_at(&mut self, now: i128) -> (r: Vec<DueJob>)
        requires
            is_instant(now as int),
        ensures
            job_views(r@) == due_at(old(self).entries(), now as int),
            final(self).entries() == rearmed_at(old(self).entries(), now as int),
            now < FAR_FUTURE && all_fire_forward(old(self).entries()) ==> due_at(final(self).entries(), now as int).len() == 0,
    {
        proof {
            use_type_invariant(&*self);
        }
        let ghost before = self.entries();
        let mut rest: Vec<Entry> = Vec::new();
        std::mem::swap(&mut rest, &mut self.entries);
        let ghost n = rest@.len();
        let mut done: Vec<Entry> = Vec::new();
        let mut due: Vec<DueJob> = Vec::new();
        while rest.len() > 0
            invariant
                is_instant(now as int),
                before.len() == n,
                done@.len() + rest@.len() == n,
                entry_views(done@) == rearmed_at(before.take(done@.len() as int), now as int),
                entry_views(rest@) == before.skip(done@.len() as int),
                job_views(due@) == due_at(before.take(done@.len() as int), now as int),
                now < FAR_FUTURE && all_fire_forward(before) ==> forall|j: int| 0 <= j < done@.len() ==> (#[trigger] entry_views(done@)[j]).2 > now,
                all_instants(before),
                all_instants(entry_views(done@)),
            decreases rest@.len(),
        {
            let ghost k = done@.len() as int;
            let ghost old_rest = rest@;
            let e = rest.remove(0);
            proof {
                assert(entry_views(old_rest)[0] == entry_view(old_rest[0]));
                assert(before.skip(k)[0] == before[k]);
                assert(entry_view(e) == before[k]);
                assert forall|j: int| 0 <= j < rest@.len() implies #[trigger] entry_views(rest@)[j] == before.skip(k + 1)[j] by {
                    assert(rest@[j] == old_rest[j + 1]);
                    assert(entry_views(old_rest)[j + 1] == entry_view(old_rest[j + 1]));
                    assert(before.skip(k)[j + 1] == before[k + 1 + j]);
                }
                assert(entry_views(rest@) =~= before.skip(k + 1));
                assert(before.take(k + 1).drop_last() =~= before.take(k));
                assert(before.take(k + 1).last() == before[k]);
            }
            let Entry { id, trigger, next } = e;
            if next <= now {
                let job = DueJob::new(id.clone(), next);
                let ghost prev_due = due@;
                due.push(job);
                proof {
                    assert(job_views(due@) =~= job_views(prev_due).push(job_view(job)));
                }
                let armed = trigger.next_after(next, now);
                let ghost prev_done = done@;
                done.push(Entry { id, trigger, next: armed });
                proof {
                    assert forall|j: int| 0 <= j < done@.len() implies is_instant(#[trigger] entry_views(done@)[j].2 as int) by {
                        if j < k {
                            assert(entry_views(done@)[j] == entry_views(prev_done)[j]);
                        }
                    }
                    if now < FAR_FUTURE && all_fire_forward(before) {
                        assert(fires_forward(before[k].1));
                        assert forall|j: int| 0 <= j < done@.len() implies (#[trigger] entry_views(done@)[j]).2 > now by {
                            if j < k {
                                assert(entry_views(done@)[j] == entry_views(prev_done)[j]);
                            }
                        }
                    }
                    assert(rearmed_at(before.take(k + 1), now as int) =~= rearmed_at(before.take(k), now as int).push(
                        (id@, trigger, armed),
                    ));
                    assert(entry_views(done@) =~= entry_views(prev_done).push((id@, trigger, armed)));
                }
            } else {
                let ghost prev_done = done@;
                done.push(Entry { id, trigger, next });
                proof {
                    assert forall|j: int| 0 <= j < done@.len() implies is_instant(#[trigger] entry_views(done@)[j].2 as int) by {
                        if j < k {
                            assert(entry_views(done@)[j] == entry_views(prev_done)[j]);
                        }
                    }
                    if now < FAR_FUTURE && all_fire_forward(before) {
                        assert forall|j: int| 0 <= j < done@.len() implies (#[trigger] entry_views(done@)[j]).2 > now by {
                            if j < k {
                                assert(entry_views(done@)[j] == entry_views(prev_done)[j]);
                            }
                        }
                    }
                    assert(rearmed_at(before.take(k + 1), now as int) =~= rearmed_at(before.take(k), now as int).push(
                        (id@, trigger, next),
                    ));
                    assert(entry_views(done@) =~= entry_views(prev_done).push((id@, trigger, next)));
                }
            }
        }
        proof {
            assert(before.take(n as int) =~= before);
            if now < FAR_FUTURE && all_fire_forward(before) {
                lemma_nothing_due(entry_views(done@), now as int);
            }
            let s = entry_views(done@);
            assert forall|i: int, j: int| 0 <= i < s.len() && 0 <= j < s.len() && i != j implies (#[trigger] s[i]).0 != (#[trigger] s[j]).0 by {
                assert(s[i].0 == before[i].0);
                assert(s[j].0 == before[j].0);
            }
        }
        self.entries = done;
        due
    }

    /// Reports due schedules at `clock.now()` and re-arms them.
    pub fn tick<C: Clock>(&mut self, clock: &C) -> (r: Vec<DueJob>)
        ensures
            exists|now: i128| is_instant(now as int) && clock.may_read(now) && job_views(r@) == due_at(old(self).entries(), now as int)
                && #[trigger] rearmed_at(old(self).entries(), now as int) == final(self).entries(),
    {
        let now = clock.now();
        self.tick_at(now)
    }

    /// Removes the schedule with id `id`; returns whether it was registered.
    pub fn remove(&mut self, id: &str) -> (r: bool)
        ensures
            r == has_id(old(self).entries(), id@),
            final(self).entries() == without_id(old(self).entries(), id@),
    {
        proof {
            use_type_invariant(&*self);
        }
        match self.position(id) {
            Some(i) => {
                let ghost before = self.entries();
                let mut entries: Vec<Entry> = Vec::new();
                std::mem::swap(&mut entries, &mut self.entries);
                let _ = entries.remove(i);
                proof {
                    assert(entry_views(entries@) =~= before.remove(i as int));
                    lemma_without_unique(before, id@, i as int);
                    let s = entry_views(entries@);
                    assert forall|a: int, b: int| 0 <= a < s.len() && 0 <= b < s.len() && a != b implies (#[trigger] s[a]).0 != (#[trigger] s[b]).0 by {
                        let a2 = if a < i { a } else { a + 1 };
                        let b2 = if b < i { b } else { b + 1 };
                        assert(s[a] == before[a2]);
                        assert(s[b] == before[b2]);
                    }
                    assert forall|a: int| 0 <= a < s.len() implies is_instant(#[trigger] s[a].2 as int) by {
                        let a2 = if a < i { a } else { a + 1 };
                        assert(s[a] == before[a2]);
                    }
                }
                self.entries = entries;
                true
            },
            None => {
                proof {
                    lemma_without_absent(self.entries(), id@);
                }
                false
            },
        }
    }
}

proof fn lemma_nothing_due(s: Seq<EntryView>, now: int)
    requires
        forall|i: int| 0 <= i < s.len() ==> (#[trigger] s[i]).2 > now,
    ensures
        due_at(s, now).len() == 0,
    decreases s.len(),
{
    if s.len() > 0 {
        let t = s.drop_last();
        assert forall|i: int| 0 <= i < t.len() implies (#[trigger] t[i]).2 > now by {
            assert(t[i] == s[i]);
        }
        lemma_nothing_due(t, now);
        assert(s.last() == s[s.len() - 1]);
    }
}

/// A tick at the earliest armed instant reports at least one job, and a
/// tick before it reports none.
pub proof fn law_next_wake_is_first_due(s: Seq<EntryView>, t: int)
    requires
        s.len() > 0,
    ensures
        earliest(s) is Some,
        due_at(s, earliest(s)->0 as int).len() > 0,
        t < earliest(s)->0 ==> due_at(s, t).len() == 0,
    decreases s.len(),
{
    let u = s.drop_last();
    let last = s.last();
    let w = earliest(s)->0;
    if u.len() == 0 {
        assert(due_at(u, t) =~= Seq::empty());
        assert(due_at(u, w as int) =~= Seq::empty());
    } else {
        law_next_wake_is_first_due(u, t);
        let m = earliest(u)->0;
        if w == m {
            law_next_wake_is_first_due(u, w as int);
        }
    }
}

proof fn lemma_without_absent(s: Seq<EntryView>, id: Seq<char>)
    requires
        !has_id(s, id),
    ensures
        without_id(s, id) == s,
    decreases s.len(),
{
    if s.len() > 0 {
        let t = s.drop_last();
        assert(!has_id(t, id)) by {
            if has_id(t, id) {
                let i = choose|i: int| 0 <= i < t.len() && (#[trigger] t[i]).0 == id;
                assert(s[i] == t[i]);
            }
        }
        lemma_without_absent(t, id);
        assert(s.last() == s[s.len() - 1]);
        assert(s =~= t.push(s.last()));
    }
}

proof fn lemma_without_unique(s: Seq<EntryView>, id: Seq<char>, i: int)
    requires
        ids_distinct(s),
        0 <= i < s.len(),
        s[i].0 == id,
    ensures
        without_id(s, id) == s.remove(i),
    decreases s.len(),
{
    let t = s.drop_last();
    if i == s.len() - 1 {
        assert(!has_id(t, id)) by {
            if has_id(t, id) {
                let j = choose|j: int| 0 <= j < t.len() && (#[trigger] t[j]).0 == id;
                assert(s[j] == t[j]);
            }
        }
        lemma_without_absent(t, id);
        assert(s.remove(i) =~= t);
    } else {
        assert(ids_distinct(t)) by {
            assert forall|a: int, b: int| 0 <= a < t.len() && 0 <= b < t.len() && a != b implies (#[trigger] t[a]).0 != (#[trigger] t[b]).0 by {
                assert(t[a] == s[a] && t[b] == s[b]);
            }
        }
        assert(t[i] == s[i]);
        lemma_without_unique(t, id, i);
        assert(s.last() == s[s.len() - 1]);
        assert(s.last().0 != id);
        assert(s.remove(i) =~= t.remove(i).push(s.last()));
    }
}

} // verus!
