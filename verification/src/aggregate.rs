//! Aggregation of a run's results: one record per pickup date, the first
//! that was found, in ascending order of date.

use vstd::prelude::*;
use crate::date::{PickupDate, lemma_before_is_total, lemma_before_is_transitive};
use crate::record::ResultRecord;

verus! {

/// Some record of `s` carries `date`.
pub open spec fn date_occurs(s: Seq<ResultRecord>, date: PickupDate) -> bool {
    exists|j: int| 0 <= j < s.len() && #[trigger] s[j].date == date
}

/// The record at index `i` is the first of `s` with its date.
pub open spec fn first_with_date(s: Seq<ResultRecord>, i: int) -> bool {
    &&& 0 <= i < s.len()
    &&& forall|j: int| 0 <= j < i ==> #[trigger] s[j].date != s[i].date
}

/// `r` is a record of `s`, and the first of `s` with its date.
pub open spec fn is_first_of_its_date(s: Seq<ResultRecord>, r: ResultRecord) -> bool {
    exists|i: int| first_with_date(s, i) && s[i] == r
}

/// `s` without the records whose date an earlier record already carries.
pub open spec fn first_per_date(s: Seq<ResultRecord>) -> Seq<ResultRecord>
    decreases s.len(),
{
    if s.len() == 0 {
        Seq::empty()
    } else if date_occurs(s.drop_last(), s.last().date) {
        first_per_date(s.drop_last())
    } else {
        first_per_date(s.drop_last()).push(s.last())
    }
}

/// `sorted` with `r` put in behind every record that is not later than it.
pub open spec fn insert_by_date(sorted: Seq<ResultRecord>, r: ResultRecord) -> Seq<ResultRecord>
    decreases sorted.len(),
{
    if sorted.len() > 0 && r.date.before(sorted.last().date) {
        insert_by_date(sorted.drop_last(), r).push(sorted.last())
    } else {
        sorted.push(r)
    }
}

/// The records of `s` in ascending order of date; records of one date keep
/// the order they had in `s`.
pub open spec fn sorted_by_date(s: Seq<ResultRecord>) -> Seq<ResultRecord>
    decreases s.len(),
{
    if s.len() == 0 {
        Seq::empty()
    } else {
        insert_by_date(sorted_by_date(s.drop_last()), s.last())
    }
}

/// The outcome of aggregation: the first record of each date, by date.
pub open spec fn aggregated(s: Seq<ResultRecord>) -> Seq<ResultRecord> {
    sorted_by_date(first_per_date(s))
}

/// No date is later than the one that follows it.
pub open spec fn ascending(s: Seq<ResultRecord>) -> bool {
    forall|i: int, j: int| 0 <= i < j < s.len() ==> !(#[trigger] s[j]).date.before((#[trigger] s[i]).date)
}

/// No two records carry the same date.
pub open spec fn distinct_dates(s: Seq<ResultRecord>) -> bool {
    forall|i: int, j: int| 0 <= i < j < s.len() ==> (#[trigger] s[i]).date != (#[trigger] s[j]).date
}

/// Each date is strictly before the one that follows it.
pub open spec fn strictly_ascending(s: Seq<ResultRecord>) -> bool {
    forall|i: int, j: int|
        0 <= i < j < s.len() ==> (#[trigger] s[i]).date.before((#[trigger] s[j]).date)
}

/// `out` is an aggregate of `s`: its dates ascend strictly, each of its
/// records is the first of `s` with its date, and no date of `s` is missing.
pub open spec fn is_aggregate_of(out: Seq<ResultRecord>, s: Seq<ResultRecord>) -> bool {
    &&& strictly_ascending(out)
    &&& forall|k: int| 0 <= k < out.len() ==> is_first_of_its_date(s, #[trigger] out[k])
    &&& forall|i: int| 0 <= i < s.len() ==> date_occurs(out, #[trigger] s[i].date)
}

/// The place at which [`insert_by_date`] puts `r`.
pub open spec fn insert_position(sorted: Seq<ResultRecord>, r: ResultRecord) -> int
    decreases sorted.len(),
{
    if sorted.len() > 0 && r.date.before(sorted.last().date) {
        insert_position(sorted.drop_last(), r)
    } else {
        sorted.len() as int
    }
}

/// Dropping later duplicates neither adds nor loses a date.
pub proof fn lemma_first_per_date_keeps_dates(s: Seq<ResultRecord>, date: PickupDate)
    ensures
        date_occurs(first_per_date(s), date) == date_occurs(s, date),
    decreases s.len(),
{
    let out = first_per_date(s);
    if s.len() > 0 {
        let head = s.drop_last();
        let kept = first_per_date(head);
        lemma_first_per_date_keeps_dates(head, date);
        if date_occurs(s, date) {
            let j = choose|j: int| 0 <= j < s.len() && #[trigger] s[j].date == date;
            if j < head.len() {
                assert(head[j].date == date);
                let k = choose|k: int| 0 <= k < kept.len() && #[trigger] kept[k].date == date;
                assert(out[k].date == date);
            } else if date_occurs(head, s.last().date) {
                let k = choose|k: int| 0 <= k < kept.len() && #[trigger] kept[k].date == date;
                assert(out[k].date == date);
            } else {
                assert(out[kept.len() as int].date == date);
            }
            assert(date_occurs(out, date));
        }
        if date_occurs(out, date) {
            let k = choose|k: int| 0 <= k < out.len() && #[trigger] out[k].date == date;
            if k < kept.len() {
                assert(kept[k].date == date);
                let j = choose|j: int| 0 <= j < head.len() && #[trigger] head[j].date == date;
                assert(s[j].date == date);
            } else {
                assert(s[s.len() - 1].date == date);
            }
            assert(date_occurs(s, date));
        }
    } else {
        assert(out.len() == 0);
    }
}

/// No date survives twice.
pub proof fn lemma_first_per_date_is_distinct(s: Seq<ResultRecord>)
    ensures
        distinct_dates(first_per_date(s)),
    decreases s.len(),
{
    let out = first_per_date(s);
    if s.len() == 0 {
        assert(out.len() == 0);
    } else {
        let head = s.drop_last();
        let kept = first_per_date(head);
        lemma_first_per_date_is_distinct(head);
        if !date_occurs(head, s.last().date) {
            lemma_first_per_date_keeps_dates(head, s.last().date);
            assert forall|i: int, j: int| 0 <= i < j < out.len() implies (#[trigger] out[i]).date != (
            #[trigger] out[j]).date by {
                if j == kept.len() {
                    assert(kept[i].date != s.last().date);
                } else {
                    assert(kept[i].date != kept[j].date);
                }
            }
        }
    }
}

/// The first record of a date stays the first when a record is added behind.
proof fn lemma_first_of_its_date_extends(s: Seq<ResultRecord>, r: ResultRecord)
    requires
        s.len() > 0,
        is_first_of_its_date(s.drop_last(), r),
    ensures
        is_first_of_its_date(s, r),
{
    let head = s.drop_last();
    let i = choose|i: int| first_with_date(head, i) && head[i] == r;
    assert forall|j: int| 0 <= j < i implies #[trigger] s[j].date != s[i].date by {
        assert(head[j].date != head[i].date);
    }
    assert(first_with_date(s, i) && s[i] == r);
}

/// Every record that survives is the first of its date.
pub proof fn lemma_first_per_date_survivors(s: Seq<ResultRecord>)
    ensures
        forall|k: int|
            0 <= k < first_per_date(s).len() ==> is_first_of_its_date(
                s,
                #[trigger] first_per_date(s)[k],
            ),
    decreases s.len(),
{
    let out = first_per_date(s);
    if s.len() == 0 {
        assert(out.len() == 0);
    } else {
        let head = s.drop_last();
        let kept = first_per_date(head);
        lemma_first_per_date_survivors(head);
        assert forall|k: int| 0 <= k < out.len() implies is_first_of_its_date(
            s,
            #[trigger] out[k],
        ) by {
            if k < kept.len() {
                assert(out[k] == kept[k]);
                lemma_first_of_its_date_extends(s, kept[k]);
            } else {
                let i = s.len() - 1;
                assert(!date_occurs(head, s.last().date));
                assert forall|j: int| 0 <= j < i implies #[trigger] s[j].date != s[i].date by {
                    assert(head[j].date == s[j].date);
                }
                assert(first_with_date(s, i) && s[i] == out[k]);
            }
        }
    }
}

/// Where the later records all come after `r` and the one before them does
/// not, `r` goes in between.
pub proof fn lemma_insert_by_date_at(sorted: Seq<ResultRecord>, r: ResultRecord, p: int)
    requires
        0 <= p <= sorted.len(),
        forall|j: int| p <= j < sorted.len() ==> r.date.before(#[trigger] sorted[j].date),
        p > 0 ==> !r.date.before(sorted[p - 1].date),
    ensures
        insert_by_date(sorted, r) == sorted.insert(p, r),
    decreases sorted.len(),
{
    if p == sorted.len() {
        assert(sorted.push(r) =~= sorted.insert(p, r));
    } else {
        let head = sorted.drop_last();
        assert(r.date.before(sorted[sorted.len() - 1].date));
        assert forall|j: int| p <= j < head.len() implies r.date.before(#[trigger] head[j].date) by {
            assert(head[j] == sorted[j]);
        }
        lemma_insert_by_date_at(head, r, p);
        assert(head.insert(p, r).push(sorted.last()) =~= sorted.insert(p, r));
    }
}

/// [`insert_by_date`] puts `r` at [`insert_position`], in front of the
/// records of an ascending sequence that come after it, and of no others.
pub proof fn lemma_insert_position(sorted: Seq<ResultRecord>, r: ResultRecord)
    ensures
        0 <= insert_position(sorted, r) <= sorted.len(),
        insert_by_date(sorted, r) == sorted.insert(insert_position(sorted, r), r),
        forall|j: int|
            insert_position(sorted, r) <= j < sorted.len() ==> r.date.before(
                #[trigger] sorted[j].date,
            ),
        insert_position(sorted, r) > 0 ==> !r.date.before(
            sorted[insert_position(sorted, r) - 1].date,
        ),
    decreases sorted.len(),
{
    if sorted.len() > 0 && r.date.before(sorted.last().date) {
        let head = sorted.drop_last();
        lemma_insert_position(head, r);
        let p = insert_position(head, r);
        assert forall|j: int| p <= j < sorted.len() implies r.date.before(
            #[trigger] sorted[j].date,
        ) by {
            if j < head.len() {
                assert(head[j] == sorted[j]);
            }
        }
        if p > 0 {
            assert(head[p - 1] == sorted[p - 1]);
        }
        lemma_insert_by_date_at(sorted, r, p);
    } else {
        lemma_insert_by_date_at(sorted, r, sorted.len() as int);
    }
}

/// Putting a record into an ascending sequence leaves it ascending.
pub proof fn lemma_insert_keeps_ascending(sorted: Seq<ResultRecord>, r: ResultRecord)
    requires
        ascending(sorted),
    ensures
        ascending(insert_by_date(sorted, r)),
{
    lemma_insert_position(sorted, r);
    let p = insert_position(sorted, r);
    let out = sorted.insert(p, r);
    assert forall|i: int, j: int| 0 <= i < j < out.len() implies !(#[trigger] out[j]).date.before(
        (#[trigger] out[i]).date,
    ) by {
        if j == p {
            assert(out[i] == sorted[i]);
            if i < p - 1 {
                assert(!sorted[p - 1].date.before(sorted[i].date));
            }
            lemma_before_is_total(sorted[p - 1].date, sorted[i].date);
            if r.date.before(sorted[i].date) {
                lemma_before_is_transitive(r.date, sorted[i].date, sorted[p - 1].date);
            }
        } else if i == p {
            assert(out[j] == sorted[j - 1]);
            lemma_before_is_total(r.date, sorted[j - 1].date);
        } else {
            let si = if i < p { i } else { i - 1 };
            let sj = if j < p { j } else { j - 1 };
            assert(out[i] == sorted[si]);
            assert(out[j] == sorted[sj]);
        }
    }
}

/// Sorting yields an ascending sequence of the same records.
pub proof fn lemma_sorted_by_date(s: Seq<ResultRecord>)
    ensures
        ascending(sorted_by_date(s)),
        sorted_by_date(s).len() == s.len(),
        forall|r: ResultRecord| sorted_by_date(s).contains(r) == s.contains(r),
        distinct_dates(s) ==> distinct_dates(sorted_by_date(s)),
    decreases s.len(),
{
    if s.len() > 0 {
        let head = s.drop_last();
        let last = s.last();
        let inner = sorted_by_date(head);
        lemma_sorted_by_date(head);
        lemma_insert_keeps_ascending(inner, last);
        lemma_insert_position(inner, last);
        let p = insert_position(inner, last);
        let out = inner.insert(p, last);
        assert forall|r: ResultRecord| out.contains(r) == s.contains(r) by {
            if out.contains(r) {
                let k = choose|k: int| 0 <= k < out.len() && out[k] == r;
                if k == p {
                    assert(s[s.len() - 1] == r);
                } else {
                    let ik = if k < p { k } else { k - 1 };
                    assert(inner[ik] == r);
                    assert(inner.contains(r));
                    assert(head.contains(r));
                    let i = choose|i: int| 0 <= i < head.len() && head[i] == r;
                    assert(s[i] == r);
                }
            }
            if s.contains(r) {
                let i = choose|i: int| 0 <= i < s.len() && s[i] == r;
                if i == s.len() - 1 {
                    assert(out[p] == r);
                } else {
                    assert(head[i] == r);
                    assert(head.contains(r));
                    assert(inner.contains(r));
                    let k = choose|k: int| 0 <= k < inner.len() && inner[k] == r;
                    let ok = if k < p { k } else { k + 1 };
                    assert(out[ok] == r);
                }
            }
        }
        if distinct_dates(s) {
            assert(distinct_dates(head)) by {
                assert forall|i: int, j: int| 0 <= i < j < head.len() implies (#[trigger] head[i]).date
                    != (#[trigger] head[j]).date by {
                    assert(s[i].date != s[j].date);
                }
            }
            assert forall|k: int| 0 <= k < inner.len() implies (#[trigger] inner[k]).date
                != last.date by {
                assert(inner.contains(inner[k]));
                assert(head.contains(inner[k]));
                let i = choose|i: int| 0 <= i < head.len() && head[i] == inner[k];
                assert(s[i].date != s[s.len() - 1].date);
            }
            assert forall|i: int, j: int| 0 <= i < j < out.len() implies (#[trigger] out[i]).date != (
            #[trigger] out[j]).date by {
                let si = if i < p { i } else { i - 1 };
                let sj = if j < p { j } else { j - 1 };
                if i == p {
                    assert(out[j] == inner[sj]);
                } else if j == p {
                    assert(out[i] == inner[si]);
                } else {
                    assert(out[i] == inner[si]);
                    assert(out[j] == inner[sj]);
                }
            }
        }
    }
}

/// A sequence in which no date occurs twice loses nothing.
pub proof fn lemma_first_per_date_of_distinct(s: Seq<ResultRecord>)
    requires
        distinct_dates(s),
    ensures
        first_per_date(s) == s,
    decreases s.len(),
{
    if s.len() > 0 {
        let head = s.drop_last();
        assert forall|i: int, j: int| 0 <= i < j < head.len() implies (#[trigger] head[i]).date != (
        #[trigger] head[j]).date by {
            assert(s[i].date != s[j].date);
        }
        lemma_first_per_date_of_distinct(head);
        if date_occurs(head, s.last().date) {
            let j = choose|j: int| 0 <= j < head.len() && #[trigger] head[j].date == s.last().date;
            assert(s[j].date != s[s.len() - 1].date);
        }
        assert(head.push(s.last()) =~= s);
    } else {
        assert(s =~= Seq::empty());
    }
}

/// Sorting an ascending sequence changes nothing.
pub proof fn lemma_sorted_by_date_of_ascending(s: Seq<ResultRecord>)
    requires
        ascending(s),
    ensures
        sorted_by_date(s) == s,
    decreases s.len(),
{
    if s.len() > 0 {
        let head = s.drop_last();
        assert forall|i: int, j: int| 0 <= i < j < head.len() implies !(#[trigger] head[j]).date.before(
            (#[trigger] head[i]).date,
        ) by {
            assert(!s[j].date.before(s[i].date));
        }
        lemma_sorted_by_date_of_ascending(head);
        if head.len() > 0 {
            assert(!s[s.len() - 1].date.before(s[s.len() - 2].date));
        }
        assert(head.push(s.last()) =~= s);
    } else {
        assert(s =~= Seq::empty());
    }
}

/// Aggregated results are in ascending order of date, each date strictly
/// before the next.
pub proof fn lemma_aggregated_ascends(s: Seq<ResultRecord>)
    ensures
        ascending(aggregated(s)),
        strictly_ascending(aggregated(s)),
{
    let out = aggregated(s);
    lemma_first_per_date_is_distinct(s);
    lemma_sorted_by_date(first_per_date(s));
    assert forall|i: int, j: int| 0 <= i < j < out.len() implies (#[trigger] out[i]).date.before(
        (#[trigger] out[j]).date,
    ) by {
        lemma_before_is_total(out[i].date, out[j].date);
    }
}

/// Aggregated results hold every date of the input once, and for each date
/// the record that came first in the input.
pub proof fn lemma_aggregated_keeps_first_per_date(s: Seq<ResultRecord>)
    ensures
        distinct_dates(aggregated(s)),
        forall|k: int|
            0 <= k < aggregated(s).len() ==> is_first_of_its_date(s, #[trigger] aggregated(s)[k]),
        forall|i: int| 0 <= i < s.len() ==> date_occurs(aggregated(s), #[trigger] s[i].date),
{
    let kept = first_per_date(s);
    let out = aggregated(s);
    lemma_first_per_date_is_distinct(s);
    lemma_first_per_date_survivors(s);
    lemma_sorted_by_date(kept);
    assert forall|k: int| 0 <= k < out.len() implies is_first_of_its_date(s, #[trigger] out[k]) by {
        assert(out.contains(out[k]));
        assert(kept.contains(out[k]));
        let m = choose|m: int| 0 <= m < kept.len() && kept[m] == out[k];
        assert(is_first_of_its_date(s, kept[m]));
    }
    assert forall|i: int| 0 <= i < s.len() implies date_occurs(out, #[trigger] s[i].date) by {
        lemma_first_per_date_keeps_dates(s, s[i].date);
        let m = choose|m: int| 0 <= m < kept.len() && #[trigger] kept[m].date == s[i].date;
        assert(kept.contains(kept[m]));
        assert(out.contains(kept[m]));
        let k = choose|k: int| 0 <= k < out.len() && out[k] == kept[m];
        assert(out[k].date == s[i].date);
    }
}

/// Aggregating what was already aggregated changes nothing.
pub proof fn lemma_aggregated_is_idempotent(s: Seq<ResultRecord>)
    ensures
        aggregated(aggregated(s)) == aggregated(s),
{
    lemma_aggregated_ascends(s);
    lemma_aggregated_keeps_first_per_date(s);
    lemma_first_per_date_of_distinct(aggregated(s));
    lemma_sorted_by_date_of_ascending(aggregated(s));
}

/// What aggregation yields is an aggregate of its input.
pub proof fn lemma_aggregated_is_aggregate(s: Seq<ResultRecord>)
    ensures
        is_aggregate_of(aggregated(s), s),
{
    lemma_aggregated_ascends(s);
    lemma_aggregated_keeps_first_per_date(s);
}

/// Two strictly ascending sequences that hold the same dates agree on the
/// dates of their first `k` records.
proof fn lemma_same_dates_same_places(a: Seq<ResultRecord>, b: Seq<ResultRecord>, k: int)
    requires
        strictly_ascending(a),
        strictly_ascending(b),
        forall|d: PickupDate| date_occurs(a, d) == date_occurs(b, d),
        0 <= k <= a.len(),
    ensures
        k <= b.len(),
        forall|j: int| 0 <= j < k ==> (#[trigger] a[j]).date == b[j].date,
    decreases k,
{
    if k > 0 {
        lemma_same_dates_same_places(a, b, k - 1);
        let d = a[k - 1].date;
        assert(date_occurs(a, d));
        assert(date_occurs(b, d));
        let m = choose|m: int| 0 <= m < b.len() && #[trigger] b[m].date == d;
        if m < k - 1 {
            assert(a[m].date == b[m].date);
            assert(a[m].date.before(a[k - 1].date));
            lemma_before_is_total(a[m].date, d);
        } else if m > k - 1 {
            let e = b[k - 1].date;
            assert(date_occurs(b, e));
            assert(date_occurs(a, e));
            let n = choose|n: int| 0 <= n < a.len() && #[trigger] a[n].date == e;
            assert(b[k - 1].date.before(b[m].date));
            lemma_before_is_total(e, d);
            if n < k - 1 {
                assert(a[n].date == b[n].date);
                assert(b[n].date.before(b[k - 1].date));
                lemma_before_is_total(b[n].date, e);
            } else if n > k - 1 {
                assert(a[k - 1].date.before(a[n].date));
            }
        }
    }
}

/// A sequence has one aggregate only.
pub proof fn lemma_aggregate_is_unique(
    a: Seq<ResultRecord>,
    b: Seq<ResultRecord>,
    s: Seq<ResultRecord>,
)
    requires
        is_aggregate_of(a, s),
        is_aggregate_of(b, s),
    ensures
        a == b,
{
    assert forall|d: PickupDate| date_occurs(a, d) == date_occurs(b, d) by {
        if date_occurs(a, d) {
            let k = choose|k: int| 0 <= k < a.len() && #[trigger] a[k].date == d;
            assert(is_first_of_its_date(s, a[k]));
            let i = choose|i: int| first_with_date(s, i) && s[i] == a[k];
            assert(date_occurs(b, s[i].date));
        }
        if date_occurs(b, d) {
            let k = choose|k: int| 0 <= k < b.len() && #[trigger] b[k].date == d;
            assert(is_first_of_its_date(s, b[k]));
            let i = choose|i: int| first_with_date(s, i) && s[i] == b[k];
            assert(date_occurs(a, s[i].date));
        }
    }
    lemma_same_dates_same_places(a, b, a.len() as int);
    lemma_same_dates_same_places(b, a, b.len() as int);
    assert forall|k: int| 0 <= k < a.len() implies a[k] == b[k] by {
        assert(a[k].date == b[k].date);
        assert(is_first_of_its_date(s, a[k]));
        assert(is_first_of_its_date(s, b[k]));
        let i = choose|i: int| first_with_date(s, i) && s[i] == a[k];
        let j = choose|j: int| first_with_date(s, j) && s[j] == b[k];
        if i < j {
            assert(s[i].date != s[j].date);
        } else if j < i {
            assert(s[j].date != s[i].date);
        }
    }
    assert(a =~= b);
}

/// Whether one of the first `end` records carries `date`.
fn date_among(results: &Vec<ResultRecord>, end: usize, date: &PickupDate) -> (found: bool)
    requires
        end <= results.len(),
    ensures
        found == date_occurs(results@.take(end as int), *date),
{
    let mut j: usize = 0;
    while j < end
        invariant
            j <= end <= results.len(),
            forall|m: int| 0 <= m < j ==> #[trigger] results@[m].date != *date,
        decreases end - j,
    {
        if results[j].date.same_day(date) {
            assert(results@.take(end as int)[j as int].date == *date);
            return true;
        }
        j += 1;
    }
    assert forall|m: int| 0 <= m < results@.take(end as int).len() implies #[trigger] results@.take(
        end as int,
    )[m].date != *date by {
        assert(results@[m].date != *date);
    }
    false
}

/// Drops every record whose date an earlier record carries.
fn retain_first_per_date(results: &mut Vec<ResultRecord>)
    ensures
        final(results)@ == first_per_date(old(results)@),
{
    let ghost input = results@;
    let ghost done: int = 0;
    let mut i: usize = 0;
    assert(input.take(0) =~= Seq::empty());
    assert(first_per_date(input.take(0)) + input.skip(0) =~= input);
    while i < results.len()
        invariant
            0 <= done <= input.len(),
            i == first_per_date(input.take(done)).len(),
            results@ == first_per_date(input.take(done)) + input.skip(done),
        decreases input.len() - done,
    {
        let ghost seen = input.take(done);
        let ghost kept = first_per_date(seen);
        let date = results[i].date;
        assert(date == input[done].date);
        let duplicate = date_among(results, i, &date);
        proof {
            assert(results@.take(i as int) =~= kept);
            lemma_first_per_date_keeps_dates(seen, date);
            assert(input.take(done + 1).drop_last() =~= seen);
            assert(input.take(done + 1).last() == input[done]);
        }
        if duplicate {
            results.remove(i);
            assert(results@ =~= kept + input.skip(done + 1));
        } else {
            i += 1;
            assert(results@ =~= kept.push(input[done]) + input.skip(done + 1));
        }
        proof {
            done = done + 1;
        }
    }
    assert(input.take(done) =~= input);
    assert(results@ =~= first_per_date(input));
}

/// Puts the records in ascending order of date; records of one date keep
/// their order.
fn sort_by_date(results: &mut Vec<ResultRecord>)
    ensures
        final(results)@ == sorted_by_date(old(results)@),
{
    let ghost input = results@;
    let mut i: usize = 0;
    assert(input.take(0) =~= Seq::empty());
    assert(sorted_by_date(input.take(0)) + input.skip(0) =~= input);
    while i < results.len()
        invariant
            0 <= i <= input.len(),
            results@.len() == input.len(),
            results@ == sorted_by_date(input.take(i as int)) + input.skip(i as int),
            sorted_by_date(input.take(i as int)).len() == i,
        decreases input.len() - i,
    {
        let ghost front = sorted_by_date(input.take(i as int));
        let record = results.remove(i);
        assert(record == input[i as int]);
        assert(results@ =~= front + input.skip(i + 1));
        let mut p: usize = i;
        while p > 0 && record.date.is_before(&results[p - 1].date)
            invariant
                0 <= p <= i,
                i <= results@.len(),
                results@ == front + input.skip(i + 1),
                front.len() == i,
                forall|j: int| p <= j < i ==> record.date.before(#[trigger] front[j].date),
            decreases p,
        {
            assert(results@[p - 1] == front[p - 1]);
            p -= 1;
        }
        proof {
            if p > 0 {
                assert(results@[p - 1] == front[p - 1]);
            }
            lemma_insert_by_date_at(front, record, p as int);
            assert(input.take(i + 1).drop_last() =~= input.take(i as int));
            assert(input.take(i + 1).last() == input[i as int]);
        }
        results.insert(p, record);
        assert(results@ =~= front.insert(p as int, record) + input.skip(i + 1));
        i += 1;
    }
    assert(input.take(i as int) =~= input);
    assert(results@ =~= sorted_by_date(input));
}

/// Aggregates the results of a run in place: of the records that share a
/// date only the first stays, and the records that stay are put in ascending
/// order of date.
pub fn remove_duplicate_dates(results: &mut Vec<ResultRecord>)
    ensures
        final(results)@ == aggregated(old(results)@),
        is_aggregate_of(final(results)@, old(results)@),
{
    proof {
        lemma_aggregated_is_aggregate(results@);
    }
    retain_first_per_date(results);
    sort_by_date(results);
}

} // verus!
