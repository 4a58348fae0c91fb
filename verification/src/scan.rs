use vstd::prelude::*;
use crate::principal::Principal;
use crate::record::Entry;

verus! {

/// A filter on the records of a stream, which a scan can ask record by record.
/// Its answer depends on the record alone.
pub trait Filter<R> {
    /// Whether the filter keeps `record`.
    spec fn keeps(&self, record: R) -> bool;

    /// Tells whether the filter keeps `record`.
    fn admits(&self, record: &R) -> (hit: bool)
        ensures
            hit == self.keeps(*record),
    ;
}

/// The records that a filter keeps.
pub open spec fn kept_by<R, F: Filter<R>>(filter: F) -> spec_fn(R) -> bool {
    |r: R| filter.keeps(r)
}

/// The filter of a scan for one actor: the records that name `actor`.
pub open spec fn named_by<R: Entry>(actor: Seq<char>) -> spec_fn(R) -> bool {
    |r: R| r.names(actor)
}

/// The filter for the records that name one actor.
pub struct NamedBy<'a> {
    pub actor: &'a Principal,
}

impl<'a, R: Entry> Filter<R> for NamedBy<'a> {
    open spec fn keeps(&self, record: R) -> bool {
        record.names(self.actor@)
    }

    fn admits(&self, record: &R) -> (hit: bool) {
        record.involves(self.actor)
    }
}

/// The records of `stream` that satisfy `keep`, the most recently appended
/// first, cut off after `limit` of them.
pub open spec fn newest<R>(stream: Seq<R>, keep: spec_fn(R) -> bool, limit: nat) -> Seq<R> {
    let hits = stream.filter(keep).reverse();
    if limit < hits.len() {
        hits.take(limit as int)
    } else {
        hits
    }
}

/// Every pair of places of `s`, the earlier before the later, stands in `before`.
pub open spec fn ascending<R>(s: Seq<R>, before: spec_fn(R, R) -> bool) -> bool {
    forall|i: int, j: int| 0 <= i < j < s.len() ==> before(#[trigger] s[i], #[trigger] s[j])
}

/// Every pair of places of `s`, the earlier before the later, stands in
/// `before` the other way round.
pub open spec fn descending<R>(s: Seq<R>, before: spec_fn(R, R) -> bool) -> bool {
    forall|i: int, j: int| 0 <= i < j < s.len() ==> before(#[trigger] s[j], #[trigger] s[i])
}

/// No record of `stream` was appended at an earlier instant than one before it.
pub open spec fn in_order_of_time<R: Entry>(stream: Seq<R>) -> bool {
    forall|i: int, j: int|
        0 <= i <= j < stream.len() ==> (#[trigger] stream[i]).stamp() <= (#[trigger] stream[j]).stamp()
}

/// Each record of `out` was appended no earlier than those behind it.
pub open spec fn latest_first<R: Entry>(out: Seq<R>) -> bool {
    forall|i: int, j: int|
        0 <= i <= j < out.len() ==> (#[trigger] out[i]).stamp() >= (#[trigger] out[j]).stamp()
}

/// The relation of a record to one that was appended no earlier.
pub open spec fn not_after<R: Entry>() -> spec_fn(R, R) -> bool {
    |a: R, b: R| a.stamp() <= b.stamp()
}

proof fn lemma_reverse_add<R>(a: Seq<R>, b: Seq<R>)
    ensures
        (a + b).reverse() == b.reverse() + a.reverse(),
{
}

proof fn lemma_reverse_prepend<R>(x: R, s: Seq<R>)
    ensures
        (seq![x] + s).reverse() == s.reverse().push(x),
{
}

/// What a scan has gathered from the tail of a stream is already the whole
/// answer once it holds `limit` records or the tail is the whole stream.
proof fn lemma_newest_from_tail<R>(stream: Seq<R>, keep: spec_fn(R) -> bool, limit: nat, from: int)
    requires
        0 <= from <= stream.len(),
        stream.skip(from).filter(keep).len() <= limit,
        from == 0 || stream.skip(from).filter(keep).len() == limit,
    ensures
        newest(stream, keep, limit) == stream.skip(from).filter(keep).reverse(),
{
    let head = stream.take(from);
    let tail = stream.skip(from);
    assert(stream =~= head + tail);
    Seq::filter_distributes_over_add(head, tail, keep);
    lemma_reverse_add(head.filter(keep), tail.filter(keep));
    if from == 0 {
        reveal(Seq::filter);
    }
}

/// One step of a scan towards the older end of the stream.
proof fn lemma_tail_step<R>(stream: Seq<R>, keep: spec_fn(R) -> bool, from: int)
    requires
        0 < from <= stream.len(),
    ensures
        stream.skip(from - 1).filter(keep).reverse() == if keep(stream[from - 1]) {
            stream.skip(from).filter(keep).reverse().push(stream[from - 1])
        } else {
            stream.skip(from).filter(keep).reverse()
        },
{
    let x = stream[from - 1];
    let tail = stream.skip(from);
    assert(stream.skip(from - 1) =~= seq![x] + tail);
    tail.lemma_filter_prepend(x, keep);
    if keep(x) {
        lemma_reverse_prepend(x, tail.filter(keep));
    }
}

/// A scan never hands out more than `limit` records.
pub proof fn lemma_newest_is_bounded<R>(stream: Seq<R>, keep: spec_fn(R) -> bool, limit: nat)
    ensures
        newest(stream, keep, limit).len() <= limit,
        newest(stream, keep, limit).len() <= stream.len(),
{
    stream.lemma_filter_len(keep);
}

/// A scan with no budget hands out nothing, and so does a scan of an empty
/// stream.
pub proof fn lemma_newest_of_nothing<R>(stream: Seq<R>, keep: spec_fn(R) -> bool, limit: nat)
    requires
        limit == 0 || stream.len() == 0,
    ensures
        newest(stream, keep, limit) == Seq::<R>::empty(),
{
    stream.lemma_filter_len(keep);
}

/// Every record that a scan hands out satisfies the filter and stands in the
/// stream.
pub proof fn lemma_newest_are_hits<R>(stream: Seq<R>, keep: spec_fn(R) -> bool, limit: nat)
    ensures
        forall|k: int|
            0 <= k < newest(stream, keep, limit).len() ==> keep(
                #[trigger] newest(stream, keep, limit)[k],
            ) && stream.contains(newest(stream, keep, limit)[k]),
{
    let out = newest(stream, keep, limit);
    let hits = stream.filter(keep);
    assert forall|k: int| 0 <= k < out.len() implies keep(#[trigger] out[k]) && stream.contains(
        out[k],
    ) by {
        let at = hits.len() - 1 - k;
        stream.lemma_filter_pred(keep, at);
        stream.lemma_filter_contains_rev(keep, hits[at]);
    }
}

/// Filtering keeps the records in the order in which they stand.
pub proof fn lemma_filter_keeps_order<R>(
    s: Seq<R>,
    keep: spec_fn(R) -> bool,
    before: spec_fn(R, R) -> bool,
)
    requires
        ascending(s, before),
    ensures
        ascending(s.filter(keep), before),
    decreases s.len(),
{
    reveal(Seq::filter);
    if s.len() > 0 {
        let front = s.drop_last();
        lemma_filter_keeps_order(front, keep, before);
        let kept = front.filter(keep);
        if keep(s.last()) {
            assert forall|i: int, j: int| 0 <= i < j < s.filter(keep).len() implies before(
                #[trigger] s.filter(keep)[i],
                #[trigger] s.filter(keep)[j],
            ) by {
                if j == kept.len() {
                    front.lemma_filter_contains_rev(keep, kept[i]);
                }
            }
        }
    }
}

/// A scan hands the records out in the reverse of the order in which the
/// stream holds them: whatever relation holds from each record of the stream
/// to each later one holds, in the answer, from each record to each earlier one.
pub proof fn lemma_newest_reverses_order<R>(
    stream: Seq<R>,
    keep: spec_fn(R) -> bool,
    limit: nat,
    before: spec_fn(R, R) -> bool,
)
    requires
        ascending(stream, before),
    ensures
        descending(newest(stream, keep, limit), before),
{
    lemma_filter_keeps_order(stream, keep, before);
}

/// A scan of a stream that is in the order of time hands the records out
/// with the latest first.
pub proof fn lemma_newest_is_latest_first<R: Entry>(
    stream: Seq<R>,
    keep: spec_fn(R) -> bool,
    limit: nat,
)
    requires
        in_order_of_time(stream),
    ensures
        latest_first(newest(stream, keep, limit)),
{
    lemma_newest_reverses_order(stream, keep, limit, not_after::<R>());
}

/// A stream stays in the order of time when the record that is appended
/// carries an instant that is not before that of the last record.
pub proof fn lemma_push_keeps_order_of_time<R: Entry>(stream: Seq<R>, record: R)
    requires
        in_order_of_time(stream),
        stream.len() == 0 || stream.last().stamp() <= record.stamp(),
    ensures
        in_order_of_time(stream.push(record)),
{
}

/// Two filters that agree on every record keep the same records.
pub proof fn lemma_same_filter<R>(stream: Seq<R>, keep: spec_fn(R) -> bool, other: spec_fn(R) -> bool)
    requires
        forall|r: R| #[trigger] keep(r) == other(r),
    ensures
        stream.filter(keep) == stream.filter(other),
    decreases stream.len(),
{
    reveal(Seq::filter);
    if stream.len() > 0 {
        lemma_same_filter(stream.drop_last(), keep, other);
    }
}

/// Scans `stream` from its most recently appended record towards the oldest
/// and gathers copies of those that `filter` keeps, until `limit` are
/// gathered or the stream is exhausted.
pub fn scan<R: Entry, F: Filter<R>>(stream: &Vec<R>, filter: &F, limit: u32) -> (out: Vec<R>)
    ensures
        out@ == newest(stream@, kept_by(*filter), limit as nat),
        out@.len() <= limit,
        in_order_of_time(stream@) ==> latest_first(out@),
{
    let ghost keep = kept_by::<R, F>(*filter);
    let mut out: Vec<R> = Vec::new();
    let mut i: usize = stream.len();
    proof {
        reveal(Seq::filter);
    }
    while i > 0 && out.len() < limit as usize
        invariant
            i <= stream.len(),
            keep == kept_by::<R, F>(*filter),
            out@ == stream@.skip(i as int).filter(keep).reverse(),
            out@.len() <= limit,
        decreases i,
    {
        proof {
            lemma_tail_step(stream@, keep, i as int);
        }
        i -= 1;
        if filter.admits(&stream[i]) {
            out.push(stream[i].duplicate());
        }
    }
    proof {
        lemma_newest_from_tail(stream@, keep, limit as nat, i as int);
        if in_order_of_time(stream@) {
            lemma_newest_is_latest_first(stream@, keep, limit as nat);
        }
    }
    out
}

/// Gathers copies of all the records of `stream` that `filter` keeps, in the
/// order in which they were appended.
pub fn select<R: Entry, F: Filter<R>>(stream: &Vec<R>, filter: &F) -> (out: Vec<R>)
    ensures
        out@ == stream@.filter(kept_by(*filter)),
{
    let ghost keep = kept_by::<R, F>(*filter);
    let mut out: Vec<R> = Vec::new();
    let mut i: usize = 0;
    proof {
        reveal(Seq::filter);
    }
    while i < stream.len()
        invariant
            i <= stream.len(),
            keep == kept_by::<R, F>(*filter),
            out@ == stream@.take(i as int).filter(keep),
        decreases stream.len() - i,
    {
        proof {
            assert(stream@.take(i + 1) =~= stream@.take(i as int).push(stream@[i as int]));
            stream@.take(i as int).lemma_filter_push(stream@[i as int], keep);
        }
        if filter.admits(&stream[i]) {
            out.push(stream[i].duplicate());
        }
        i += 1;
    }
    proof {
        assert(stream@.take(stream@.len() as int) =~= stream@);
    }
    out
}

/// Counts the records of `stream` that `filter` keeps.
pub fn count<R, F: Filter<R>>(stream: &Vec<R>, filter: &F) -> (n: usize)
    ensures
        n == stream@.filter(kept_by(*filter)).len(),
        n <= stream@.len(),
{
    let ghost keep = kept_by::<R, F>(*filter);
    let mut n: usize = 0;
    let mut i: usize = 0;
    proof {
        reveal(Seq::filter);
    }
    while i < stream.len()
        invariant
            i <= stream.len(),
            keep == kept_by::<R, F>(*filter),
            n == stream@.take(i as int).filter(keep).len(),
            n <= i,
        decreases stream.len() - i,
    {
        proof {
            assert(stream@.take(i + 1) =~= stream@.take(i as int).push(stream@[i as int]));
            stream@.take(i as int).lemma_filter_push(stream@[i as int], keep);
        }
        if filter.admits(&stream[i]) {
            n += 1;
        }
        i += 1;
    }
    proof {
        assert(stream@.take(stream@.len() as int) =~= stream@);
    }
    n
}

/// Copies of the records of `stream` that name `actor`, the most recently
/// appended first, at most `limit` of them.
pub fn recent<R: Entry>(stream: &Vec<R>, actor: &Principal, limit: u32) -> (out: Vec<R>)
    ensures
        out@ == newest(stream@, named_by::<R>(actor@), limit as nat),
        out@.len() <= limit,
        in_order_of_time(stream@) ==> latest_first(out@),
{
    let filter = NamedBy { actor };
    proof {
        lemma_same_filter(stream@, kept_by::<R, NamedBy>(filter), named_by::<R>(actor@));
    }
    scan(stream, &filter, limit)
}

/// Copies of all the records of `stream` that name `actor`, in the order in
/// which they were appended.
pub fn every<R: Entry>(stream: &Vec<R>, actor: &Principal) -> (out: Vec<R>)
    ensures
        out@ == stream@.filter(named_by::<R>(actor@)),
{
    let filter = NamedBy { actor };
    proof {
        lemma_same_filter(stream@, kept_by::<R, NamedBy>(filter), named_by::<R>(actor@));
    }
    select(stream, &filter)
}

} // verus!
