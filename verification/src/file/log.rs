use crate::file::row::{decoded, RowView};
use crate::time::Timestamp;
use vstd::prelude::*;

verus! {

/// The records that the lines of a log hold, in the order of the lines.
/// Lines that hold no record are passed over.
pub open spec fn rows_of(lines: Seq<Seq<char>>) -> Seq<RowView>
    decreases lines.len(),
{
    if lines.len() == 0 {
        Seq::empty()
    } else {
        match decoded(lines.last()) {
            Some(row) => rows_of(lines.drop_last()).push(row),
            None => rows_of(lines.drop_last()),
        }
    }
}

/// Whether one of the records has the path `path`.
pub open spec fn has_path(rows: Seq<RowView>, path: Seq<char>) -> bool {
    exists|i: int| 0 <= i < rows.len() && (#[trigger] rows[i]).path == path
}

/// The records whose path is not `path`, in their order.
pub open spec fn without_path(rows: Seq<RowView>, path: Seq<char>) -> Seq<RowView>
    decreases rows.len(),
{
    if rows.len() == 0 {
        Seq::empty()
    } else if rows.last().path == path {
        without_path(rows.drop_last(), path)
    } else {
        without_path(rows.drop_last(), path).push(rows.last())
    }
}

/// The lines that the records are written as, in their order.
pub open spec fn lines_of(rows: Seq<RowView>) -> Seq<Seq<char>> {
    Seq::new(rows.len(), |i: int| rows[i].line())
}

/// Whether the year of every expiration has four digits, so that every
/// record is read back as it was written.
pub open spec fn all_in_text_range(rows: Seq<RowView>) -> bool {
    forall|i: int| 0 <= i < rows.len() ==> (#[trigger] rows[i]).expiration.in_text_range()
}

/// The records of a longer log are those of its first part, then those of
/// its second part.
pub proof fn lemma_rows_of_concat(first: Seq<Seq<char>>, second: Seq<Seq<char>>)
    ensures
        rows_of(first + second) == rows_of(first) + rows_of(second),
    decreases second.len(),
{
    if second.len() > 0 {
        lemma_rows_of_concat(first, second.drop_last());
        assert((first + second).drop_last() =~= first + second.drop_last());
    }
}

/// Every record read from a log has an expiration that can be held.
pub proof fn lemma_rows_of_valid(lines: Seq<Seq<char>>)
    ensures
        forall|i: int|
            0 <= i < rows_of(lines).len() ==> (#[trigger] rows_of(lines)[i]).expiration.valid(),
    decreases lines.len(),
{
    if lines.len() > 0 {
        lemma_rows_of_valid(lines.drop_last());
        let rows = rows_of(lines);
        let head = rows_of(lines.drop_last());
        assert forall|i: int| 0 <= i < rows.len() implies (
        #[trigger] rows[i]).expiration.valid() by {
            if i < head.len() {
                assert(rows[i] == head[i]);
            }
        }
    }
}

/// The records of a log of one line.
pub proof fn lemma_rows_of_single(line: Seq<char>)
    ensures
        rows_of(seq![line]) == match decoded(line) {
            Some(row) => seq![row],
            None => Seq::<RowView>::empty(),
        },
{
    assert(rows_of(seq![line].drop_last()) =~= Seq::<RowView>::empty());
}

/// A line that holds a record, put at the end of a log, puts that record at
/// the end of the records: the log then has a record of its path.
pub proof fn lemma_appended_record(lines: Seq<Seq<char>>, line: Seq<char>)
    requires
        decoded(line) is Some,
    ensures
        rows_of(lines.push(line)) == rows_of(lines).push(decoded(line)->0),
        has_path(rows_of(lines.push(line)), decoded(line)->0.path),
{
    assert(lines.push(line).drop_last() =~= lines);
    assert(rows_of(lines.push(line))[rows_of(lines).len() as int] == decoded(line)->0);
}

/// A line that holds no record changes nothing in what a log holds,
/// wherever in the log it stands.
pub proof fn lemma_line_without_record(
    before: Seq<Seq<char>>,
    line: Seq<char>,
    after: Seq<Seq<char>>,
)
    requires
        decoded(line) is None,
    ensures
        rows_of(before + seq![line] + after) == rows_of(before + after),
{
    lemma_rows_of_single(line);
    lemma_rows_of_concat(before, seq![line]);
    lemma_rows_of_concat(before + seq![line], after);
    lemma_rows_of_concat(before, after);
}

/// The sorted records with one more record put in its place: behind the
/// records that have been expired for as many days or more, before the others.
pub open spec fn insert_sorted(sorted: Seq<RowView>, row: RowView, now: Timestamp) -> Seq<RowView>
    decreases sorted.len(),
{
    if sorted.len() == 0 || sorted.last().days_expired(now) >= row.days_expired(now) {
        sorted.push(row)
    } else {
        insert_sorted(sorted.drop_last(), row, now).push(sorted.last())
    }
}

/// The records in the order of a listing at the instant `now`: the longest
/// expired first. Records that have been expired for the same number of days
/// keep the order that they have in the log.
pub open spec fn sorted_rows(rows: Seq<RowView>, now: Timestamp) -> Seq<RowView>
    decreases rows.len(),
{
    if rows.len() == 0 {
        Seq::empty()
    } else {
        insert_sorted(sorted_rows(rows.drop_last(), now), rows.last(), now)
    }
}

/// Whether no record comes before one that has been expired for more days.
pub open spec fn is_sorted(rows: Seq<RowView>, now: Timestamp) -> bool {
    forall|i: int, j: int|
        0 <= i <= j < rows.len() ==> rows[i].days_expired(now) >= rows[j].days_expired(now)
}

/// The records that have run out at the instant `now`, in their order.
pub open spec fn expired_of(rows: Seq<RowView>, now: Timestamp) -> Seq<RowView>
    decreases rows.len(),
{
    if rows.len() == 0 {
        Seq::empty()
    } else if rows.last().expired(now) {
        expired_of(rows.drop_last(), now).push(rows.last())
    } else {
        expired_of(rows.drop_last(), now)
    }
}

/// Where a record goes into sorted records: behind the last record that has
/// been expired for as many days or more.
pub proof fn lemma_insert_position(sorted: Seq<RowView>, row: RowView, now: Timestamp) -> (at: int)
    ensures
        0 <= at <= sorted.len(),
        insert_sorted(sorted, row, now) == sorted.insert(at, row),
        forall|k: int|
            at <= k < sorted.len() ==> (#[trigger] sorted[k]).days_expired(now) < row.days_expired(
                now,
            ),
        at > 0 ==> sorted[at - 1].days_expired(now) >= row.days_expired(now),
    decreases sorted.len(),
{
    if sorted.len() == 0 || sorted.last().days_expired(now) >= row.days_expired(now) {
        sorted.len() as int
    } else {
        let head = sorted.drop_last();
        let at = lemma_insert_position(head, row, now);
        assert forall|k: int| at <= k < sorted.len() implies (#[trigger] sorted[k]).days_expired(
            now,
        ) < row.days_expired(now) by {
            if k < head.len() {
                assert(sorted[k] == head[k]);
            }
        }
        at
    }
}

/// A record that is put into sorted records leaves them sorted, and is the
/// one record that they gain.
pub proof fn lemma_insert_sorted(sorted: Seq<RowView>, row: RowView, now: Timestamp)
    requires
        is_sorted(sorted, now),
    ensures
        is_sorted(insert_sorted(sorted, row, now), now),
        insert_sorted(sorted, row, now).to_multiset() == sorted.to_multiset().insert(row),
{
    let at = lemma_insert_position(sorted, row, now);
    let more = sorted.insert(at, row);
    assert(more.remove(at) =~= sorted);
    sorted.insert(at, row).to_multiset_ensures();
}

/// A listing is sorted, the longest expired first, and holds the records of
/// the log, each as often as the log does.
pub proof fn lemma_sorted_rows(rows: Seq<RowView>, now: Timestamp)
    ensures
        is_sorted(sorted_rows(rows, now), now),
        sorted_rows(rows, now).to_multiset() == rows.to_multiset(),
        sorted_rows(rows, now).len() == rows.len(),
    decreases rows.len(),
{
    if rows.len() == 0 {
        assert(sorted_rows(rows, now) =~= rows);
    } else {
        let head = rows.drop_last();
        lemma_sorted_rows(head, now);
        lemma_insert_sorted(sorted_rows(head, now), rows.last(), now);
        head.to_multiset_ensures();
        assert(head.push(rows.last()) =~= rows);
        sorted_rows(rows, now).to_multiset_ensures();
        rows.to_multiset_ensures();
    }
}

/// A log in which no line holds a record of `path` has no record of it.
pub proof fn lemma_no_record_of(lines: Seq<Seq<char>>, path: Seq<char>)
    requires
        forall|i: int|
            0 <= i < lines.len() ==> (decoded(#[trigger] lines[i]) matches Some(row) ==> row.path
                != path),
    ensures
        !has_path(rows_of(lines), path),
    decreases lines.len(),
{
    if lines.len() > 0 {
        let head = lines.drop_last();
        assert forall|i: int| 0 <= i < head.len() implies (decoded(#[trigger] head[i]) matches Some(
            row,
        ) ==> row.path != path) by {
            assert(head[i] == lines[i]);
        }
        lemma_no_record_of(head, path);
    }
}

/// What is left without the records of `path` are records of the log, none
/// of them of `path`.
pub proof fn lemma_without_path(rows: Seq<RowView>, path: Seq<char>)
    ensures
        !has_path(without_path(rows, path), path),
        without_path(rows, path).len() <= rows.len(),
        forall|i: int|
            0 <= i < without_path(rows, path).len() ==> rows.contains(
                #[trigger] without_path(rows, path)[i],
            ),
        !has_path(rows, path) ==> without_path(rows, path) == rows,
    decreases rows.len(),
{
    if rows.len() > 0 {
        let head = rows.drop_last();
        lemma_without_path(head, path);
        let kept = without_path(rows, path);
        let before = without_path(head, path);
        assert forall|i: int| 0 <= i < kept.len() implies (#[trigger] kept[i]).path != path
            && rows.contains(kept[i]) by {
            if i < before.len() {
                let k = choose|k: int| 0 <= k < head.len() && head[k] == before[i];
                assert(rows[k] == before[i]);
            }
        }
        if !has_path(rows, path) {
            assert forall|i: int| 0 <= i < head.len() implies (#[trigger] head[i]).path != path by {
                assert(head[i] == rows[i]);
            }
        }
    }
}

} // verus!
