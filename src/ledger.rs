//! The booking ledger of an event: its allocations, the cached booked total,
//! and the capacity rule that the total never exceeds the event's duration.

use vstd::prelude::*;

use crate::ident::{fresh_object_id, is_object_id};

verus! {

/// One allocation of an event's duration onto a target day.
#[derive(Debug)]
pub struct BookingDetail {
    /// Identifier of the allocation.
    pub id: String,
    /// The `YYYY-MM-DD` date that the allocation targets.
    pub to_date: String,
    /// Hours allocated, in hundredths of an hour.
    pub amount: u64,
}

impl BookingDetail {
    /// A new allocation of `amount` onto `to_date`, under a newly generated identifier.
    pub fn new(to_date: String, amount: u64) -> (r: BookingDetail)
        ensures
            is_object_id(r.id@),
            r.to_date == to_date,
            r.amount == amount,
    {
        BookingDetail { id: fresh_object_id(), to_date, amount }
    }
}

/// A unit of recorded work whose duration can be booked onto days.
#[derive(Debug)]
pub struct Event {
    pub id: String,
    /// When the event happened, in milliseconds since the Unix epoch.
    pub occurrence_ms: i64,
    /// Total bookable hours, in hundredths of an hour.
    pub duration: u64,
    pub booking_details: Vec<BookingDetail>,
    /// Cached sum of the allocated amounts.
    pub duration_booked: u64,
    pub fully_booked: bool,
}

/// Sum of the amounts of `d`.
pub open spec fn booked_sum(d: Seq<BookingDetail>) -> nat
    decreases d.len(),
{
    if d.len() == 0 {
        0
    } else {
        booked_sum(d.drop_last()) + d.last().amount as nat
    }
}

/// No two allocations of `d` share an identifier.
pub open spec fn ids_distinct(d: Seq<BookingDetail>) -> bool {
    forall|i: int, j: int| 0 <= i < j < d.len() ==> d[i].id@ != d[j].id@
}

pub open spec fn has_id(d: Seq<BookingDetail>, id: Seq<char>) -> bool {
    exists|i: int| 0 <= i < d.len() && d[i].id@ == id
}

/// Number of allocations of `d` that target `date`.
pub open spec fn count_on_date(d: Seq<BookingDetail>, date: Seq<char>) -> nat
    decreases d.len(),
{
    if d.len() == 0 {
        0
    } else {
        count_on_date(d.drop_last(), date) + if d.last().to_date@ == date {
            1nat
        } else {
            0nat
        }
    }
}

pub open spec fn has_date(d: Seq<BookingDetail>, date: Seq<char>) -> bool {
    exists|i: int| 0 <= i < d.len() && d[i].to_date@ == date
}

impl Event {
    /// The ledger's invariant: the cached total is the sum of the
    /// allocations and within the duration, a fully booked event has all of
    /// its duration allocated, and allocations are keyed by identifier.
    pub open spec fn wf(&self) -> bool {
        &&& booked_sum(self.booking_details@) == self.duration_booked
        &&& self.duration_booked <= self.duration
        &&& self.fully_booked ==> self.duration_booked == self.duration
        &&& ids_distinct(self.booking_details@)
    }

    /// The same event, with everything but the allocations and the two
    /// derived fields unchanged.
    pub open spec fn same_event(&self, other: &Event) -> bool {
        &&& self.id == other.id
        &&& self.occurrence_ms == other.occurrence_ms
        &&& self.duration == other.duration
    }
}

/// `new` is `old` with `detail` booked onto it: the allocation fitted the
/// remaining capacity and was added, the total grew by its amount, and the
/// event is fully booked exactly when the total reached the duration.
pub open spec fn booked_onto(old: Event, detail: BookingDetail, new: Event) -> bool {
    &&& new.same_event(&old)
    &&& !has_id(old.booking_details@, detail.id@)
    &&& booked_sum(old.booking_details@) + detail.amount <= old.duration
    &&& new.booking_details@ == old.booking_details@.push(detail)
    &&& new.duration_booked == old.duration_booked + detail.amount
    &&& new.fully_booked == (new.duration_booked == new.duration)
}

/// `new` is `old` without its allocation `d`, whose identifier is `id`: the
/// total dropped by its amount and the event is no longer fully booked.
pub open spec fn removed_from(old: Event, id: Seq<char>, new: Event, d: BookingDetail) -> bool {
    &&& new.same_event(&old)
    &&& d.id@ == id
    &&& exists|k: int|
        0 <= k < old.booking_details@.len() && old.booking_details@[k] == d
            && new.booking_details@ == old.booking_details@.remove(k)
    &&& new.duration_booked == old.duration_booked - d.amount
    &&& !new.fully_booked
}

pub proof fn lemma_booked_sum_prefix(d: Seq<BookingDetail>, k: int)
    requires
        0 <= k <= d.len(),
    ensures
        booked_sum(d.subrange(0, k)) <= booked_sum(d),
    decreases d.len() - k,
{
    if k == d.len() {
        assert(d.subrange(0, k) =~= d);
    } else {
        lemma_booked_sum_prefix(d, k + 1);
        assert(d.subrange(0, k + 1).drop_last() =~= d.subrange(0, k));
    }
}

pub proof fn lemma_booked_sum_remove(d: Seq<BookingDetail>, k: int)
    requires
        0 <= k < d.len(),
    ensures
        booked_sum(d.remove(k)) + d[k].amount == booked_sum(d),
    decreases d.len(),
{
    if k == d.len() - 1 {
        assert(d.remove(k) =~= d.drop_last());
    } else {
        lemma_booked_sum_remove(d.drop_last(), k);
        assert(d.remove(k).drop_last() =~= d.drop_last().remove(k));
        assert(d.remove(k).last() == d.last());
    }
}

pub proof fn lemma_count_zero(d: Seq<BookingDetail>, date: Seq<char>)
    ensures
        count_on_date(d, date) == 0 <==> !has_date(d, date),
    decreases d.len(),
{
    if d.len() > 0 {
        lemma_count_zero(d.drop_last(), date);
        if has_date(d.drop_last(), date) {
            let i = choose|i: int| 0 <= i < d.len() - 1 && d.drop_last()[i].to_date@ == date;
            assert(d[i].to_date@ == date);
        }
        if has_date(d, date) && d.last().to_date@ != date {
            let i = choose|i: int| 0 <= i < d.len() && d[i].to_date@ == date;
            assert(d.drop_last()[i].to_date@ == date);
        }
    }
}

/// The recomputed sum of the allocated amounts; `None` where it does not fit a `u64`.
pub fn total_booked(details: &Vec<BookingDetail>) -> (r: Option<u64>)
    ensures
        match r {
            Some(v) => v == booked_sum(details@),
            None => booked_sum(details@) > u64::MAX,
        },
{
    let mut acc: u64 = 0;
    let mut i: usize = 0;
    while i < details.len()
        invariant
            0 <= i <= details@.len(),
            acc == booked_sum(details@.subrange(0, i as int)),
        decreases details@.len() - i,
    {
        proof {
            assert(details@.subrange(0, i + 1).drop_last() =~= details@.subrange(0, i as int));
            lemma_booked_sum_prefix(details@, i + 1);
        }
        if details[i].amount > u64::MAX - acc {
            return None;
        }
        acc = acc + details[i].amount;
        i += 1;
    }
    assert(details@.subrange(0, i as int) =~= details@);
    Some(acc)
}

/// Position of the allocation with identifier `id`, if there is one.
pub fn find_detail(details: &Vec<BookingDetail>, id: &str) -> (r: Option<usize>)
    ensures
        match r {
            Some(k) => k < details@.len() && details@[k as int].id@ == id@,
            None => !has_id(details@, id@),
        },
{
    let key = id.to_owned();
    let mut i: usize = 0;
    while i < details.len()
        invariant
            0 <= i <= details@.len(),
            key@ == id@,
            forall|j: int| 0 <= j < i ==> details@[j].id@ != id@,
        decreases details@.len() - i,
    {
        if details[i].id == key {
            return Some(i);
        }
        i += 1;
    }
    None
}

/// Number of allocations that target `date`.
pub fn count_details_on(details: &Vec<BookingDetail>, date: &str) -> (r: usize)
    ensures
        r == count_on_date(details@, date@),
{
    let key = date.to_owned();
    let mut n: usize = 0;
    let mut i: usize = 0;
    while i < details.len()
        invariant
            0 <= i <= details@.len(),
            key@ == date@,
            n == count_on_date(details@.subrange(0, i as int), date@),
            n <= i,
        decreases details@.len() - i,
    {
        assert(details@.subrange(0, i + 1).drop_last() =~= details@.subrange(0, i as int));
        if details[i].to_date == key {
            n += 1;
        }
        i += 1;
    }
    assert(details@.subrange(0, i as int) =~= details@);
    n
}

/// Why a booking was refused: it would exceed the event's duration.
#[derive(Clone, Copy, Debug, PartialEq, Eq, Structural)]
pub struct CapacityError {
    /// Hours still free on the event, in hundredths of an hour.
    pub available: u64,
}

impl Event {
    /// Whether the ledger's invariant holds.
    pub fn is_well_formed(&self) -> (r: bool)
        ensures
            r == self.wf(),
    {
        match total_booked(&self.booking_details) {
            Some(total) => {
                if total != self.duration_booked || self.duration_booked > self.duration {
                    return false;
                }
                if self.fully_booked && self.duration_booked != self.duration {
                    return false;
                }
            },
            None => {
                return false;
            },
        }
        let n = self.booking_details.len();
        let mut i: usize = 0;
        while i < n
            invariant
                n == self.booking_details@.len(),
                0 <= i <= n,
                forall|a: int, b: int|
                    0 <= a < b < n && a < i ==> self.booking_details@[a].id@
                        != self.booking_details@[b].id@,
            decreases n - i,
        {
            let mut j: usize = i + 1;
            while j < n
                invariant
                    n == self.booking_details@.len(),
                    0 <= i < n,
                    i + 1 <= j <= n,
                    forall|a: int, b: int|
                        0 <= a < b < n && a < i ==> self.booking_details@[a].id@
                            != self.booking_details@[b].id@,
                    forall|b: int| i < b < j ==> self.booking_details@[i as int].id@
                        != self.booking_details@[b].id@,
                decreases n - j,
            {
                if self.booking_details[i].id == self.booking_details[j].id {
                    return false;
                }
                j += 1;
            }
            i += 1;
        }
        true
    }

    /// Books `detail` onto this event when it fits the remaining capacity.
    ///
    /// The booked total is recomputed from the allocations. Where it plus
    /// `detail.amount` exceeds the duration, the event is left as it was and
    /// the error carries the hours still free. Otherwise the allocation is
    /// added, the total becomes the new sum, and the event is fully booked
    /// exactly when that sum equals its duration.
    pub fn book(&mut self, detail: BookingDetail) -> (r: Result<(), CapacityError>)
        requires
            old(self).wf(),
            !has_id(old(self).booking_details@, detail.id@),
        ensures
            final(self).wf(),
            final(self).same_event(old(self)),
            r is Err <==> booked_sum(old(self).booking_details@) + detail.amount > old(self).duration,
            match r {
                Err(e) => {
                    &&& e.available == old(self).duration - booked_sum(old(self).booking_details@)
                    &&& *final(self) == *old(self)
                },
                Ok(()) => booked_onto(*old(self), detail, *final(self)),
            },
    {
        let existing = match total_booked(&self.booking_details) {
            Some(t) => t,
            None => {
                return Err(CapacityError { available: 0 });
            },
        };
        if detail.amount > self.duration - existing {
            return Err(CapacityError { available: self.duration - existing });
        }
        let new_total = existing + detail.amount;
        let ghost old_details = self.booking_details@;
        self.booking_details.push(detail);
        proof {
            assert(self.booking_details@.drop_last() =~= old_details);
        }
        self.duration_booked = new_total;
        self.fully_booked = new_total == self.duration;
        Ok(())
    }

    /// Removes the allocation with identifier `id`, if the event has one.
    ///
    /// The total drops by the removed amount, and the event is no longer
    /// fully booked, whatever remains. Without such an allocation the event
    /// is left as it was.
    pub fn remove_detail(&mut self, id: &str) -> (r: Option<BookingDetail>)
        requires
            old(self).wf(),
        ensures
            final(self).wf(),
            final(self).same_event(old(self)),
            r is None <==> !has_id(old(self).booking_details@, id@),
            match r {
                None => *final(self) == *old(self),
                Some(d) => removed_from(*old(self), id@, *final(self), d),
            },
    {
        match find_detail(&self.booking_details, id) {
            None => None,
            Some(k) => {
                let ghost old_details = self.booking_details@;
                let d = self.booking_details.remove(k);
                proof {
                    lemma_booked_sum_remove(old_details, k as int);
                    assert forall|a: int, b: int|
                        0 <= a < b < self.booking_details@.len() implies self.booking_details@[a].id@
                        != self.booking_details@[b].id@ by {
                        let a2 = if a < k { a } else { a + 1 };
                        let b2 = if b < k { b } else { b + 1 };
                        assert(self.booking_details@[a] == old_details[a2]);
                        assert(self.booking_details@[b] == old_details[b2]);
                    }
                }
                self.duration_booked = self.duration_booked - d.amount;
                self.fully_booked = false;
                Some(d)
            },
        }
    }
}

} // verus!
