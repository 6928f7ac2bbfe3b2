//! The day membership index: the set of events that a user's day lists
//! because time of theirs was booked onto it.

use vstd::prelude::*;

verus! {

/// A user's calendar day and the events booked onto it from other days.
#[derive(Debug)]
pub struct Day {
    pub id: String,
    pub owner: String,
    /// The `YYYY-MM-DD` date of the day.
    pub date: String,
    /// Identifiers of the events listed on the day, without duplicates.
    pub events: Vec<String>,
}

/// A change to the membership of the day `date` of `owner`: list the event
/// (`attach`) or stop listing it.
#[derive(Debug)]
pub struct DayUpdate {
    pub owner: String,
    pub date: String,
    pub event_id: String,
    pub attach: bool,
}

/// `new` is `old` after `update`: changed only where `update` concerns it,
/// and then listing the event or no longer listing it.
pub open spec fn updated_by(old: Day, update: DayUpdate, new: Day) -> bool {
    &&& new.wf()
    &&& new.same_day(&old)
    &&& if old.owner@ == update.owner@ && old.date@ == update.date@ {
        forall|e: Seq<char>| #[trigger]
            new.lists(e) == if update.attach {
                old.lists(e) || e == update.event_id@
            } else {
                old.lists(e) && e != update.event_id@
            }
    } else {
        new == old
    }
}

impl Day {
    pub open spec fn lists(&self, event_id: Seq<char>) -> bool {
        exists|i: int| 0 <= i < self.events@.len() && self.events@[i]@ == event_id
    }

    /// No event is listed twice.
    pub open spec fn wf(&self) -> bool {
        forall|i: int, j: int|
            0 <= i < j < self.events@.len() ==> self.events@[i]@ != self.events@[j]@
    }

    pub open spec fn same_day(&self, other: &Day) -> bool {
        &&& self.id == other.id
        &&& self.owner == other.owner
        &&& self.date == other.date
    }

    /// Position of `event_id` in the listed events, if it is listed.
    fn position_of(&self, event_id: &str) -> (r: Option<usize>)
        ensures
            match r {
                Some(k) => k < self.events@.len() && self.events@[k as int]@ == event_id@,
                None => !self.lists(event_id@),
            },
    {
        let key = event_id.to_owned();
        let mut i: usize = 0;
        while i < self.events.len()
            invariant
                0 <= i <= self.events@.len(),
                key@ == event_id@,
                forall|j: int| 0 <= j < i ==> self.events@[j]@ != event_id@,
            decreases self.events@.len() - i,
        {
            if self.events[i] == key {
                return Some(i);
            }
            i += 1;
        }
        None
    }

    /// Whether the day lists `event_id`.
    pub fn lists_event(&self, event_id: &str) -> (r: bool)
        ensures
            r == self.lists(event_id@),
    {
        self.position_of(event_id).is_some()
    }

    /// Lists `event_id` on the day; nothing changes where it is listed already.
    pub fn attach_on_create(&mut self, event_id: &str)
        requires
            old(self).wf(),
        ensures
            final(self).wf(),
            final(self).same_day(old(self)),
            forall|e: Seq<char>| #[trigger]
                final(self).lists(e) == (old(self).lists(e) || e == event_id@),
            old(self).lists(event_id@) ==> *final(self) == *old(self),
    {
        if self.position_of(event_id).is_some() {
            return;
        }
        let ghost before = self.events@;
        self.events.push(event_id.to_owned());
        proof {
            assert forall|e: Seq<char>| #[trigger]
                self.lists(e) == (old(self).lists(e) || e == event_id@) by {
                if old(self).lists(e) {
                    let i = choose|i: int| 0 <= i < before.len() && before[i]@ == e;
                    assert(self.events@[i]@ == e);
                }
                if e == event_id@ {
                    assert(self.events@[before.len() as int]@ == e);
                }
                if self.lists(e) {
                    let i = choose|i: int| 0 <= i < self.events@.len() && self.events@[i]@ == e;
                    if i < before.len() {
                        assert(before[i]@ == e);
                    }
                }
            }
        }
    }

    /// Stops listing `event_id` on the day, but only when `remaining`, the
    /// number of the event's allocations still targeting this date, is zero.
    pub fn detach_on_delete(&mut self, event_id: &str, remaining: usize)
        requires
            old(self).wf(),
        ensures
            final(self).wf(),
            final(self).same_day(old(self)),
            remaining > 0 ==> *final(self) == *old(self),
            remaining == 0 ==> forall|e: Seq<char>| #[trigger]
                final(self).lists(e) == (old(self).lists(e) && e != event_id@),
    {
        if remaining > 0 {
            return;
        }
        match self.position_of(event_id) {
            None => {},
            Some(k) => {
                let ghost before = self.events@;
                self.events.remove(k);
                proof {
                    assert forall|a: int, b: int|
                        0 <= a < b < self.events@.len() implies self.events@[a]@
                        != self.events@[b]@ by {
                        let a2 = if a < k { a } else { a + 1 };
                        let b2 = if b < k { b } else { b + 1 };
                        assert(self.events@[a] == before[a2]);
                        assert(self.events@[b] == before[b2]);
                    }
                    assert forall|e: Seq<char>| #[trigger]
                        self.lists(e) == (old(self).lists(e) && e != event_id@) by {
                        if self.lists(e) {
                            let i = choose|i: int|
                                0 <= i < self.events@.len() && self.events@[i]@ == e;
                            let i2 = if i < k { i } else { i + 1 };
                            assert(before[i2]@ == e);
                            assert(i2 != k);
                        }
                        if old(self).lists(e) && e != event_id@ {
                            let i = choose|i: int| 0 <= i < before.len() && before[i]@ == e;
                            assert(i != k);
                            let i2 = if i < k { i } else { i - 1 };
                            assert(self.events@[i2]@ == e);
                        }
                    }
                }
            },
        }
    }

    /// Applies `update` where it concerns this day (same owner and date);
    /// other days are left as they are.
    pub fn apply(&mut self, update: &DayUpdate)
        requires
            old(self).wf(),
        ensures
            updated_by(*old(self), *update, *final(self)),
    {
        if self.owner != update.owner || self.date != update.date {
            return;
        }
        if update.attach {
            self.attach_on_create(update.event_id.as_str());
        } else {
            self.detach_on_delete(update.event_id.as_str(), 0);
        }
    }
}

} // verus!
