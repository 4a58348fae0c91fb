use vstd::prelude::*;
use crate::counter::Counter;
use crate::error::Error;
use crate::principal::Principal;
use crate::record::{Amendable, Keyed};
use crate::scan::{
    ascending, every, in_order_of_time, lemma_newest_is_bounded, lemma_newest_reverses_order,
    lemma_push_keeps_order_of_time, named_by, newest, recent,
};

verus! {

/// The most records that one stream holds.
pub const MAX_RECORDS: usize = 0xFFFF_FFFF;

/// What can be observed of a record log: whether it was set up, and the
/// records it holds, in the order in which they were appended.
#[verifier::ext_equal]
pub struct LogState<R> {
    pub ready: bool,
    pub records: Seq<R>,
}

impl<R: Keyed> LogState<R> {
    /// A log that was never set up.
    pub open spec fn fresh() -> LogState<R> {
        LogState { ready: false, records: Seq::empty() }
    }

    /// The log after it was set up. A log that is set up already stays as it is.
    pub open spec fn set_up(self) -> LogState<R> {
        LogState { ready: true, records: self.records }
    }

    /// The identifier that the next record will get.
    pub open spec fn next_id(self) -> u64 {
        (self.records.len() + 1) as u64
    }

    /// The log after `draft` was appended at the instant `at`.
    pub open spec fn appended(self, draft: R, at: u64) -> LogState<R> {
        LogState { ready: self.ready, records: self.records.push(draft.sealed(self.next_id(), at)) }
    }

    /// The log after each of `drafts` was appended in turn, each at its instant.
    pub open spec fn appended_all(self, drafts: Seq<(R, u64)>) -> LogState<R>
        decreases drafts.len(),
    {
        if drafts.len() == 0 {
            self
        } else {
            self.appended_all(drafts.drop_last()).appended(drafts.last().0, drafts.last().1)
        }
    }

    /// Whether a record with the identifier `id` stands in the log.
    pub open spec fn holds(self, id: u64) -> bool {
        exists|i: int| 0 <= i < self.records.len() && (#[trigger] self.records[i]).key() == id
    }

    /// The k-th record has the identifier k: identifiers start at 1, rise by
    /// one with each append and never repeat.
    pub open spec fn numbered(self) -> bool {
        forall|i: int| 0 <= i < self.records.len() ==> (#[trigger] self.records[i]).key() == i + 1
    }

    /// No record was appended at an earlier instant than one before it.
    pub open spec fn chronological(self) -> bool {
        in_order_of_time(self.records)
    }

    /// What holds of every log that the engine hands out.
    pub open spec fn valid(self) -> bool {
        &&& self.records.len() <= MAX_RECORDS
        &&& self.numbered()
        &&& !self.ready ==> self.records.len() == 0
    }

    /// The log after the record with the identifier `id` was amended.
    pub open spec fn amended(self, id: u64) -> LogState<R> where R: Amendable {
        LogState {
            ready: self.ready,
            records: self.records.update(id - 1, self.records[id - 1].amended()),
        }
    }

    /// How a request of `caller` to amend the record `id` is answered:
    /// the caller must have proved the identity, the record must exist, and
    /// the caller must be the actor that the record entitles.
    pub open spec fn verdict(self, authorized: bool, id: u64, caller: Seq<char>) -> Result<
        (),
        Error,
    > where R: Amendable {
        if !authorized {
            Err(Error::Unauthorized)
        } else if !self.holds(id) {
            Err(Error::NotFound)
        } else if !self.records[id - 1].entitles(caller) {
            Err(Error::Forbidden)
        } else {
            Ok(())
        }
    }
}

/// In a valid log the record `id` exists exactly when `id` is between 1 and
/// the number of records, and it then stands at the place `id - 1`.
pub proof fn lemma_holds_by_number<R: Keyed>(state: LogState<R>, id: u64)
    requires
        state.valid(),
    ensures
        state.holds(id) <==> 1 <= id <= state.records.len(),
        state.holds(id) ==> state.records[id - 1].key() == id,
{
    if 1 <= id <= state.records.len() {
        assert(state.records[id - 1].key() == id);
    }
}

/// Appending to a valid log that has room leaves a valid log, one record
/// longer, whose new record carries the next identifier and the instant given.
pub proof fn lemma_append_keeps_valid<R: Keyed>(state: LogState<R>, draft: R, at: u64)
    requires
        state.valid(),
        state.ready,
        state.records.len() < MAX_RECORDS,
    ensures
        state.appended(draft, at).valid(),
        state.appended(draft, at).records.len() == state.records.len() + 1,
        state.appended(draft, at).records.last().key() == state.records.len() + 1,
        state.appended(draft, at).records.last().stamp() == at,
        state.appended(draft, at).next_id() == state.next_id() + 1,
{
    draft.sealed_is_stamped(state.next_id(), at);
}

/// Appending at an instant that is not before that of the last record keeps
/// the log in the order of time.
pub proof fn lemma_append_keeps_chronology<R: Keyed>(state: LogState<R>, draft: R, at: u64)
    requires
        state.chronological(),
        state.records.len() == 0 || state.records.last().stamp() <= at,
    ensures
        state.appended(draft, at).chronological(),
{
    draft.sealed_is_stamped(state.next_id(), at);
    lemma_push_keeps_order_of_time(state.records, draft.sealed(state.next_id(), at));
}

/// Of every run of appends to a log that was set up: the k-th append gets the
/// identifier that follows the k - 1 before it, and the log grows by one
/// record with each. Started on a new log, the appends get 1, 2, 3, ... with
/// no gap and no repeat, and the log holds as many records as were appended.
pub proof fn lemma_ids_count_up<R: Keyed>(start: LogState<R>, drafts: Seq<(R, u64)>)
    requires
        start.valid(),
        start.ready,
        start.records.len() + drafts.len() <= MAX_RECORDS,
    ensures
        start.appended_all(drafts).valid(),
        start.appended_all(drafts).ready,
        start.appended_all(drafts).records.len() == start.records.len() + drafts.len(),
        start.appended_all(drafts).next_id() == start.next_id() + drafts.len(),
        forall|k: int|
            0 <= k < drafts.len() ==> (#[trigger] start.appended_all(drafts).records[start.records.len()
                + k]).key() == start.next_id() + k,
    decreases drafts.len(),
{
    if drafts.len() > 0 {
        let front = drafts.drop_last();
        lemma_ids_count_up(start, front);
        let before = start.appended_all(front);
        lemma_append_keeps_valid(before, drafts.last().0, drafts.last().1);
    }
}

/// Amending a record of a valid log leaves a valid log of the same length in
/// which only that record differs, and it differs neither in its identifier
/// nor in its instant.
pub proof fn lemma_amend_keeps_valid<R: Amendable>(state: LogState<R>, id: u64)
    requires
        state.valid(),
        state.holds(id),
    ensures
        state.amended(id).valid(),
        state.amended(id).records.len() == state.records.len(),
        state.amended(id).records[id - 1].key() == id,
        state.amended(id).records[id - 1].stamp() == state.records[id - 1].stamp(),
        forall|i: int|
            0 <= i < state.records.len() && i != id - 1 ==> #[trigger] state.amended(id).records[i]
                == state.records[i],
        state.chronological() ==> state.amended(id).chronological(),
{
    lemma_holds_by_number(state, id);
    state.records[id - 1].amended_keeps_identity();
}

/// The relation of a record to one that was appended later: by the instant,
/// and by the identifier where the instants are equal.
pub open spec fn older<R: Keyed>() -> spec_fn(R, R) -> bool {
    |a: R, b: R| a.stamp() < b.stamp() || (a.stamp() == b.stamp() && a.key() < b.key())
}

/// `out` is sorted by the instants of its records, the latest first, and by
/// their identifiers, the greatest first, where the instants are equal.
pub open spec fn newest_first<R: Keyed>(out: Seq<R>) -> bool {
    forall|i: int, j: int|
        0 <= i < j < out.len() ==> (#[trigger] out[i]).stamp() > (#[trigger] out[j]).stamp() || (
        out[i].stamp() == out[j].stamp() && out[i].key() > out[j].key())
}

/// A scan of a valid log that is in the order of time hands out at most
/// `limit` records, sorted by their instants, the latest first, and by
/// their identifiers, the greatest first, where the instants are equal.
pub proof fn lemma_scan_is_sorted<R: Keyed>(
    state: LogState<R>,
    keep: spec_fn(R) -> bool,
    limit: nat,
)
    requires
        state.valid(),
        state.chronological(),
    ensures
        newest(state.records, keep, limit).len() <= limit,
        newest_first(newest(state.records, keep, limit)),
{
    lemma_newest_is_bounded(state.records, keep, limit);
    assert(ascending(state.records, older::<R>()));
    lemma_newest_reverses_order(state.records, keep, limit, older::<R>());
}

/// An append-only log of records of one schema, with the allocator of their
/// identifiers. It exists from the start and accepts records once it was set up.
pub struct RecordLog<R: Keyed> {
    counter: Option<Counter>,
    records: Vec<R>,
}

impl<R: Keyed> View for RecordLog<R> {
    type V = LogState<R>;

    closed spec fn view(&self) -> LogState<R> {
        LogState { ready: self.counter is Some, records: self.records@ }
    }
}

impl<R: Keyed> RecordLog<R> {
    /// The allocator has handed out one identifier for each record.
    pub closed spec fn counted(&self) -> bool {
        match self.counter {
            Some(c) => c.wf() && c.issued() == self.records@.len(),
            None => true,
        }
    }

    /// The log is one that the engine hands out.
    pub open spec fn wf(&self) -> bool {
        self.counted() && self@.valid()
    }

    /// A log that was never set up.
    pub fn new() -> (log: RecordLog<R>)
        ensures
            log.wf(),
            log@ == LogState::<R>::fresh(),
    {
        RecordLog { counter: None, records: Vec::new() }
    }

    /// Sets the log up: it is empty and its first identifier will be 1. A
    /// log that was set up before stays as it is.
    pub fn init(&mut self)
        requires
            old(self).wf(),
        ensures
            final(self).wf(),
            final(self)@ == old(self)@.set_up(),
    {
        if self.counter.is_none() {
            self.counter = Some(Counter::new());
        }
    }

    /// Whether the log was set up.
    pub fn is_ready(&self) -> (ready: bool)
        ensures
            ready == self@.ready,
    {
        self.counter.is_some()
    }

    /// The number of records.
    pub fn len(&self) -> (n: usize)
        ensures
            n == self@.records.len(),
    {
        self.records.len()
    }

    /// The records, in the order in which they were appended.
    pub fn records(&self) -> (all: &Vec<R>)
        ensures
            all@ == self@.records,
    {
        &self.records
    }

    /// The allocator, if the log was set up: it has handed out as many
    /// identifiers as the log holds records.
    pub fn counter(&self) -> (c: Option<Counter>)
        requires
            self.wf(),
        ensures
            c is Some <==> self@.ready,
            c matches Some(k) ==> k.wf() && k.issued() == self@.records.len(),
    {
        self.counter
    }

    /// Appends `draft` at the instant `at`: the record gets the next
    /// identifier and the instant, and goes to the end of the log. A log that
    /// was never set up refuses and stays as it is.
    pub fn append(&mut self, draft: R, at: u64) -> (res: Result<u64, Error>)
        requires
            old(self).wf(),
            old(self)@.records.len() < MAX_RECORDS,
        ensures
            final(self).wf(),
            !old(self)@.ready ==> res == Err::<u64, Error>(Error::NotInitialized) && final(self)@
                == old(self)@,
            old(self)@.ready ==> res == Ok::<u64, Error>(old(self)@.next_id()) && final(self)@
                == old(self)@.appended(draft, at),
            old(self)@.chronological() && (old(self)@.records.len() == 0
                || old(self)@.records.last().stamp() <= at) ==> final(self)@.chronological(),
    {
        let mut counter = match self.counter {
            Some(c) => c,
            None => {
                return Err(Error::NotInitialized);
            },
        };
        let id = counter.allocate();
        proof {
            lemma_append_keeps_valid(self@, draft, at);
            if self@.chronological() && (self@.records.len() == 0 || self@.records.last().stamp()
                <= at) {
                lemma_append_keeps_chronology(self@, draft, at);
            }
        }
        let full = draft.seal(id, at);
        self.records.push(full);
        self.counter = Some(counter);
        Ok(id)
    }

    /// The place of the record with the identifier `id`.
    pub fn find(&self, id: u64) -> (place: Option<usize>)
        requires
            self.wf(),
        ensures
            place is Some <==> self@.holds(id),
            place matches Some(i) ==> i < self@.records.len() && self@.records[i as int].key()
                == id && i == id - 1,
    {
        proof {
            lemma_holds_by_number(self@, id);
        }
        if 1 <= id && id <= self.records.len() as u64 {
            Some((id - 1) as usize)
        } else {
            None
        }
    }

    /// Whether a record with the identifier `id` stands in the log.
    pub fn contains(&self, id: u64) -> (found: bool)
        requires
            self.wf(),
        ensures
            found == self@.holds(id),
    {
        self.find(id).is_some()
    }

    /// Copies of the records that name `actor`, the most recently appended
    /// first, at most `limit` of them.
    pub fn recent(&self, actor: &Principal, limit: u32) -> (out: Vec<R>)
        ensures
            out@ == newest(self@.records, named_by::<R>(actor@), limit as nat),
            out@.len() <= limit,
            self@.valid() && self@.chronological() ==> newest_first(out@),
    {
        proof {
            if self@.valid() && self@.chronological() {
                lemma_scan_is_sorted(self@, named_by::<R>(actor@), limit as nat);
            }
        }
        recent(&self.records, actor, limit)
    }

    /// Copies of all the records that name `actor`, in the order in which
    /// they were appended.
    pub fn every(&self, actor: &Principal) -> (out: Vec<R>)
        ensures
            out@ == self@.records.filter(named_by::<R>(actor@)),
    {
        every(&self.records, actor)
    }

    /// The log that was stored as `counter` and `records`, if the two make a
    /// log that the engine could have handed out.
    pub fn restore(counter: Option<Counter>, records: Vec<R>) -> (log: Option<RecordLog<R>>)
        requires
            counter matches Some(c) ==> c.wf(),
        ensures
            log is Some <==> {
                &&& LogState { ready: counter is Some, records: records@ }.valid()
                &&& counter matches Some(c) ==> c.issued() == records@.len()
            },
            log matches Some(l) ==> l.wf() && l@ == (LogState {
                ready: counter is Some,
                records: records@,
            }),
    {
        let n = records.len();
        if n > MAX_RECORDS {
            return None;
        }
        match counter {
            Some(c) => {
                if c.total_count() != n as u64 {
                    return None;
                }
            },
            None => {
                if n != 0 {
                    return None;
                }
            },
        }
        let mut i: usize = 0;
        while i < n
            invariant
                i <= n,
                n == records@.len(),
                n <= MAX_RECORDS,
                forall|k: int| 0 <= k < i ==> (#[trigger] records@[k]).key() == k + 1,
            decreases n - i,
        {
            if records[i].id() != i as u64 + 1 {
                return None;
            }
            i += 1;
        }
        Some(RecordLog { counter, records })
    }

    /// The allocator and the records, to be stored.
    pub fn into_parts(self) -> (parts: (Option<Counter>, Vec<R>))
        requires
            self.wf(),
        ensures
            parts.0 is Some <==> self@.ready,
            parts.0 matches Some(c) ==> c.wf() && c.issued() == self@.records.len(),
            parts.1@ == self@.records,
    {
        (self.counter, self.records)
    }
}

impl<R: Amendable> RecordLog<R> {
    /// The guarded way to the one change that a record admits. The caller must have
    /// proved the identity, the record must exist and must entitle the caller;
    /// then the record is replaced, at its place, by its amended form. A
    /// refusal leaves the log as it is.
    pub fn amend(&mut self, authorized: bool, id: u64, caller: &Principal) -> (res: Result<
        (),
        Error,
    >)
        requires
            old(self).wf(),
        ensures
            final(self).wf(),
            res == old(self)@.verdict(authorized, id, caller@),
            res is Ok ==> final(self)@ == old(self)@.amended(id),
            res is Err ==> final(self)@ == old(self)@,
            old(self)@.chronological() ==> final(self)@.chronological(),
    {
        if !authorized {
            return Err(Error::Unauthorized);
        }
        let place = match self.find(id) {
            Some(i) => i,
            None => {
                return Err(Error::NotFound);
            },
        };
        if !self.records[place].may_amend(caller) {
            return Err(Error::Forbidden);
        }
        proof {
            lemma_amend_keeps_valid(self@, id);
        }
        let changed = self.records[place].amend();
        self.records.set(place, changed);
        Ok(())
    }
}

} // verus!
