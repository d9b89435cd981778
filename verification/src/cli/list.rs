use crate::file::log::{expired_of, sorted_rows};
use crate::file::row::{Row, RowView};
use crate::file::writer::Writer;
use crate::time::Timestamp;
use vstd::prelude::*;

verus! {

/// What the command that lists the entries is given: whether the expired
/// entries are to be removed, and whether all entries are to be listed rather
/// than the expired ones alone.
#[derive(Clone, Copy, Debug, PartialEq, Eq, Structural)]
pub struct List {
    pub remove: bool,
    pub all: bool,
}

/// One step of a listing, for the caller to carry out: a line to show, or an
/// entry to remove.
#[derive(Debug, Clone, PartialEq, Eq)]
pub enum Step {
    /// The heading over the expired entries, where these alone are listed.
    ExpiredHeading,
    /// An entry: its path, whether it has expired, and for how many days it
    /// has been expired, or how many days it has left.
    Entry { path: String, expired: bool, days: i64 },
    /// The entry of this path is to be removed, and what the path leads to.
    Remove { path: String },
    /// The hint that the expired entries can be removed.
    RemovalHint,
    /// No entry has expired; the hint that all entries can be listed.
    NothingExpired,
    /// The heading over the expired entries, where all are listed.
    YetExpiredHeading,
    /// Under that heading: no entry has expired.
    NoExpired,
    /// The heading over the entries that have not expired.
    NotExpiredHeading,
    /// Under that heading: every entry has expired.
    NoNotExpired,
}

/// A step of a listing, as plain values.
pub enum StepView {
    ExpiredHeading,
    Entry { path: Seq<char>, expired: bool, days: int },
    Remove { path: Seq<char> },
    RemovalHint,
    NothingExpired,
    YetExpiredHeading,
    NoExpired,
    NotExpiredHeading,
    NoNotExpired,
}

impl View for Step {
    type V = StepView;

    open spec fn view(&self) -> StepView {
        match self {
            Step::ExpiredHeading => StepView::ExpiredHeading,
            Step::Entry { path, expired, days } => StepView::Entry {
                path: path@,
                expired: *expired,
                days: *days as int,
            },
            Step::Remove { path } => StepView::Remove { path: path@ },
            Step::RemovalHint => StepView::RemovalHint,
            Step::NothingExpired => StepView::NothingExpired,
            Step::YetExpiredHeading => StepView::YetExpiredHeading,
            Step::NoExpired => StepView::NoExpired,
            Step::NotExpiredHeading => StepView::NotExpiredHeading,
            Step::NoNotExpired => StepView::NoNotExpired,
        }
    }
}

impl DeepView for Step {
    type V = StepView;

    open spec fn deep_view(&self) -> StepView {
        self@
    }
}

/// The records that have not run out at the instant `now`, in their order.
pub open spec fn pending_of(rows: Seq<RowView>, now: Timestamp) -> Seq<RowView>
    decreases rows.len(),
{
    if rows.len() == 0 {
        Seq::empty()
    } else if rows.last().expired(now) {
        pending_of(rows.drop_last(), now)
    } else {
        pending_of(rows.drop_last(), now).push(rows.last())
    }
}

/// How an entry is shown at the instant `now`: an expired one with the days
/// since it expired, another with the days that it has left.
pub open spec fn entry_of(row: RowView, now: Timestamp) -> StepView {
    if row.expired(now) {
        StepView::Entry { path: row.path, expired: true, days: row.days_expired(now) }
    } else {
        StepView::Entry { path: row.path, expired: false, days: -row.days_expired(now) }
    }
}

/// The steps for a run of entries: each is shown and, where `remove` is set,
/// then removed.
pub open spec fn entries_of(rows: Seq<RowView>, remove: bool, now: Timestamp) -> Seq<StepView>
    decreases rows.len(),
{
    if rows.len() == 0 {
        Seq::empty()
    } else if remove {
        entries_of(rows.drop_last(), remove, now).push(entry_of(rows.last(), now)).push(
            StepView::Remove { path: rows.last().path },
        )
    } else {
        entries_of(rows.drop_last(), remove, now).push(entry_of(rows.last(), now))
    }
}

/// The steps of a listing of the records `rows` at the instant `now`.
///
/// Where the expired entries alone are listed: their heading; then each of
/// them, the longest expired first, followed by its removal where that was
/// asked for, and the hint about removal; or, where none has expired, the
/// notice of that. Where all entries are listed, and there are any: the
/// expired ones under their heading, then the others under theirs, each part
/// with a notice where it is empty. Nothing is removed when all are listed.
pub open spec fn listing(list: List, rows: Seq<RowView>, now: Timestamp) -> Seq<StepView> {
    let sorted = sorted_rows(rows, now);
    let expired = expired_of(sorted, now);
    let pending = pending_of(sorted, now);
    if !list.all {
        if expired.len() > 0 {
            seq![StepView::ExpiredHeading] + entries_of(expired, list.remove, now)
                + seq![StepView::RemovalHint]
        } else {
            seq![StepView::ExpiredHeading, StepView::NothingExpired]
        }
    } else if sorted.len() == 0 {
        Seq::empty()
    } else {
        seq![StepView::YetExpiredHeading] + (if expired.len() > 0 {
            entries_of(expired, false, now)
        } else {
            seq![StepView::NoExpired]
        }) + seq![StepView::NotExpiredHeading] + (if pending.len() > 0 {
            entries_of(pending, false, now)
        } else {
            seq![StepView::NoNotExpired]
        })
    }
}

/// The records that have run out at the instant `now`, or those that have
/// not, in their order.
pub open spec fn chosen_of(rows: Seq<RowView>, expired: bool, now: Timestamp) -> Seq<RowView> {
    if expired {
        expired_of(rows, now)
    } else {
        pending_of(rows, now)
    }
}

/// Puts the steps for the expired, or for the other, entries of `rows` at the
/// end of `steps`, and says whether there was any such entry.
fn push_entries(
    steps: &mut Vec<Step>,
    rows: &Vec<Row>,
    expired: bool,
    remove: bool,
    now: &Timestamp,
) -> (any: bool)
    ensures
        final(steps).deep_view() == old(steps).deep_view() + entries_of(
            chosen_of(rows.deep_view(), expired, *now),
            remove,
            *now,
        ),
        any <==> chosen_of(rows.deep_view(), expired, *now).len() > 0,
{
    let ghost start = steps.deep_view();
    let mut any = false;
    let mut i: usize = 0;
    while i < rows.len()
        invariant
            i <= rows.len(),
            steps.deep_view() == start + entries_of(
                chosen_of(rows.deep_view().take(i as int), expired, *now),
                remove,
                *now,
            ),
            any <==> chosen_of(rows.deep_view().take(i as int), expired, *now).len() > 0,
        decreases rows.len() - i,
    {
        let row = &rows[i];
        let ghost shown = steps.deep_view();
        let ghost chosen = chosen_of(rows.deep_view().take(i as int), expired, *now);
        proof {
            let upto = rows.deep_view().take(i + 1);
            assert(upto.drop_last() =~= rows.deep_view().take(i as int));
        }
        let is_expired = row.is_expired_at(now);
        if is_expired == expired {
            let days = if is_expired {
                row.days_expired_at(now)
            } else {
                row.days_left_at(now)
            };
            steps.push(Step::Entry { path: row.path.clone(), expired: is_expired, days });
            if remove {
                steps.push(Step::Remove { path: row.path.clone() });
            }
            any = true;
            proof {
                assert(chosen.push(row@).drop_last() =~= chosen);
                if remove {
                    assert(steps.deep_view() =~= shown.push(entry_of(row@, *now)).push(
                        StepView::Remove { path: row.path@ },
                    ));
                } else {
                    assert(steps.deep_view() =~= shown.push(entry_of(row@, *now)));
                }
            }
        }
        i = i + 1;
    }
    proof {
        assert(rows.deep_view().take(rows.len() as int) =~= rows.deep_view());
    }
    any
}

impl List {
    /// The steps of the listing at the instant `now`, in their order.
    pub fn execute_at(&self, wrt: &Writer, now: &Timestamp) -> (r: Vec<Step>)
        ensures
            r.deep_view() == listing(*self, wrt.rows(), *now),
    {
        let rows = wrt.get_all_ordered_at(now);
        let mut steps: Vec<Step> = Vec::new();
        if !self.all {
            steps.push(Step::ExpiredHeading);
            let any = push_entries(&mut steps, &rows, true, self.remove, now);
            let ghost shown = steps.deep_view();
            if any {
                steps.push(Step::RemovalHint);
                proof {
                    assert(steps.deep_view() =~= shown + seq![StepView::RemovalHint]);
                }
            } else {
                steps.push(Step::NothingExpired);
                proof {
                    assert(steps.deep_view() =~= shown + seq![StepView::NothingExpired]);
                }
            }
        } else if rows.len() > 0 {
            steps.push(Step::YetExpiredHeading);
            let any = push_entries(&mut steps, &rows, true, false, now);
            if !any {
                let ghost shown = steps.deep_view();
                steps.push(Step::NoExpired);
                proof {
                    assert(steps.deep_view() =~= shown + seq![StepView::NoExpired]);
                }
            }
            let ghost first = steps.deep_view();
            steps.push(Step::NotExpiredHeading);
            proof {
                assert(steps.deep_view() =~= first + seq![StepView::NotExpiredHeading]);
            }
            let any = push_entries(&mut steps, &rows, false, false, now);
            if !any {
                let ghost shown = steps.deep_view();
                steps.push(Step::NoNotExpired);
                proof {
                    assert(steps.deep_view() =~= shown + seq![StepView::NoNotExpired]);
                }
            }
        }
        steps
    }

    /// The steps of the listing by the clock, in their order.
    pub fn execute(&self, wrt: &Writer) -> (r: Vec<Step>)
        ensures
            exists|now: Timestamp| now.valid() && r.deep_view() == listing(*self, wrt.rows(), now),
    {
        let now = Timestamp::now();
        self.execute_at(wrt, &now)
    }
}

} // verus!
