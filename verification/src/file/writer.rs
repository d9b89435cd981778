pub use crate::file::row::{Row, RowView};

use crate::cli::add::AddArgs;
use crate::error::ErrorKind;
use crate::file::log::{
    all_in_text_range, expired_of, has_path, is_sorted, lemma_insert_position, lemma_no_record_of,
    lemma_rows_of_concat, lemma_rows_of_single, lemma_rows_of_valid, lemma_sorted_rows, lines_of,
    rows_of, sorted_rows, without_path,
};
use crate::file::row::decoded;
use crate::file::util::{apply_home_dir, with_home};
use crate::file::HOME_FILE_CONFIG;
use crate::time::Timestamp;
use vstd::prelude::*;
use vstd::string::StringExecFns;

verus! {

/// The registry: the place of its log, and the lines of the log as they were
/// last read or written. The caller reads the lines from the log file, hands
/// them in with `load`, and writes back what an operation has changed.
pub struct Writer {
    path: String,
    lines: Vec<String>,
}

/// A single pass over the records of a log: lines that hold no record are
/// passed over.
pub struct WriterIterator<'a> {
    lines: &'a Vec<String>,
    pos: usize,
}

impl<'a> WriterIterator<'a> {
    #[verifier::type_invariant]
    spec fn in_bounds(&self) -> bool {
        self.pos <= self.lines.len()
    }

    /// The records that are still to come.
    pub closed spec fn remaining(&self) -> Seq<RowView> {
        rows_of(self.lines.deep_view().skip(self.pos as int))
    }

    /// The next record of the log; `None` when no line that is left holds
    /// one.
    pub fn next(&mut self) -> (r: Option<Row>)
        ensures
            match r {
                Some(row) => old(self).remaining() == seq![row@] + final(self).remaining(),
                None => old(self).remaining().len() == 0 && final(self).remaining().len() == 0,
            },
    {
        proof {
            use_type_invariant(&*self);
        }
        let ghost start = self.remaining();
        while self.pos < self.lines.len()
            invariant
                self.pos <= self.lines.len(),
                self.remaining() == start,
                start == old(self).remaining(),
            decreases self.lines.len() - self.pos,
        {
            let found = Row::from_file(self.lines[self.pos].as_str());
            proof {
                let log = self.lines.deep_view();
                let line = log[self.pos as int];
                let rest = log.skip(self.pos + 1);
                assert(log.skip(self.pos as int) =~= seq![line] + rest);
                lemma_rows_of_concat(seq![line], rest);
                lemma_rows_of_single(line);
            }
            self.pos = self.pos + 1;
            if let Some(row) = found {
                return Some(row);
            }
        }
        None
    }
}

impl Writer {
    /// The place of the log.
    pub closed spec fn location(&self) -> Seq<char> {
        self.path@
    }

    /// The lines of the log.
    pub closed spec fn log(&self) -> Seq<Seq<char>> {
        self.lines.deep_view()
    }

    /// The records of the log, in the order of its lines.
    pub open spec fn rows(&self) -> Seq<RowView> {
        rows_of(self.log())
    }

    /// Whether the log has a record of the path `path`.
    pub open spec fn contains(&self, path: Seq<char>) -> bool {
        has_path(self.rows(), path)
    }

    /// The registry at the usual place, with no line read yet; `None` where
    /// no home directory is known.
    pub fn new() -> (r: Option<Writer>)
        ensures
            r matches Some(w) ==> w.log().len() == 0 && exists|home: Seq<char>|
                w.location() == with_home(HOME_FILE_CONFIG@, home),
    {
        Writer::from(HOME_FILE_CONFIG)
    }

    /// The registry whose log lies at `path`, in which each `~` stands for the
    /// home directory, with no line read yet. A path without `~` is taken as
    /// it is, whether or not a home directory is known; a path with `~` gives
    /// `None` where none is known.
    pub fn from(path: &str) -> (r: Option<Writer>)
        ensures
            match r {
                Some(w) => w.log().len() == 0 && exists|home: Seq<char>|
                    w.location() == with_home(path@, home),
                None => path@.contains('~'),
            },
            !path@.contains('~') ==> (r matches Some(w) && w.location() == path@),
    {
        match apply_home_dir(path) {
            Some(path) => Some(Writer::at(path)),
            None => None,
        }
    }

    /// The registry whose log lies at `path`, taken as it is, with no line
    /// read yet.
    pub fn at(path: String) -> (w: Writer)
        ensures
            w.location() == path@,
            w.log().len() == 0,
    {
        Writer { path, lines: Vec::new() }
    }

    /// Takes the lines that were read from the log file.
    pub fn load(&mut self, lines: Vec<String>)
        ensures
            final(self).location() == old(self).location(),
            final(self).log() == lines.deep_view(),
    {
        self.lines = lines;
    }

    /// The place of the log.
    pub fn path(&self) -> (r: &String)
        ensures
            r@ == self.location(),
    {
        &self.path
    }

    /// The lines of the log.
    pub fn lines(&self) -> (r: &Vec<String>)
        ensures
            r.deep_view() == self.log(),
    {
        &self.lines
    }

    /// A pass over the records of the log.
    pub fn iter(&self) -> (r: WriterIterator<'_>)
        ensures
            r.remaining() == self.rows(),
    {
        proof {
            assert(self.lines.deep_view().skip(0) =~= self.lines.deep_view());
        }
        WriterIterator { lines: &self.lines, pos: 0 }
    }

    /// Writes the record as a line at the end of the log. Fails with
    /// `WrongFormat`, and leaves the log as it is, where the expiration of the
    /// record cannot be held.
    pub fn store_entry(&mut self, row: &Row) -> (r: Result<(), ErrorKind>)
        ensures
            final(self).location() == old(self).location(),
            match r {
                Ok(_) => {
                    &&& row.expiration.valid()
                    &&& final(self).log() == old(self).log().push(row@.line())
                    &&& !row@.line().contains('\n')
                    &&& row.expiration.in_text_range() ==> final(self).rows() == old(
                        self,
                    ).rows().push(row@)
                },
                Err(e) => {
                    &&& e == ErrorKind::WrongFormat
                    &&& !row.expiration.valid()
                    &&& final(self).log() == old(self).log()
                },
            },
    {
        match row.to_file() {
            Some(line) => {
                self.lines.push(line);
                proof {
                    assert(self.log().drop_last() =~= old(self).log());
                }
                Ok(())
            },
            None => Err(ErrorKind::WrongFormat),
        }
    }

    /// Whether the log has a record of the path. `abs_path` is the absolute
    /// form of the path, `None` where the path could not be resolved: that
    /// fails with `CantGetAbsPath`.
    pub fn check_entry(&self, abs_path: Option<&str>) -> (r: Result<bool, ErrorKind>)
        ensures
            r == match abs_path {
                Some(path) => Ok::<bool, ErrorKind>(self.contains(path@)),
                None => Err(ErrorKind::CantGetAbsPath),
            },
    {
        let path = match abs_path {
            Some(path) => String::from_str(path),
            None => return Err(ErrorKind::CantGetAbsPath),
        };
        let mut it = self.iter();
        let ghost mut seen: Seq<RowView> = Seq::empty();
        loop
            invariant
                abs_path matches Some(given) && given@ == path@,
                seen + it.remaining() == self.rows(),
                !has_path(seen, path@),
            decreases it.remaining().len(),
        {
            match it.next() {
                Some(row) => {
                    let ghost before = seen;
                    proof {
                        seen = seen.push(row@);
                    }
                    if row.path == path {
                        proof {
                            assert(self.rows()[before.len() as int] == row@);
                        }
                        return Ok(true);
                    }
                    proof {
                        assert forall|i: int| 0 <= i < seen.len() implies (#[trigger] seen[i]).path
                            != path@ by {
                            if i < before.len() {
                                assert(before[i] == seen[i]);
                            }
                        }
                    }
                },
                None => {
                    return Ok(false);
                },
            }
        }
    }

    /// The records of the log as a listing at the instant `now`: sorted, the
    /// longest expired first; records that have been expired for the same
    /// number of days keep their order.
    pub fn get_all_ordered_at(&self, now: &Timestamp) -> (r: Vec<Row>)
        ensures
            r.deep_view() == sorted_rows(self.rows(), *now),
            is_sorted(r.deep_view(), *now),
            r.deep_view().to_multiset() == self.rows().to_multiset(),
    {
        let mut out: Vec<Row> = Vec::new();
        let mut it = self.iter();
        let ghost mut seen: Seq<RowView> = Seq::empty();
        loop
            invariant
                seen + it.remaining() == self.rows(),
                out.deep_view() == sorted_rows(seen, *now),
            ensures
                out.deep_view() == sorted_rows(self.rows(), *now),
            decreases it.remaining().len(),
        {
            match it.next() {
                Some(row) => {
                    let days = row.days_expired_at(now);
                    let mut at: usize = out.len();
                    while at > 0 && out[at - 1].days_expired_at(now) < days
                        invariant
                            at <= out.len(),
                            days == row@.days_expired(*now),
                            forall|k: int|
                                at <= k < out.len() ==> (
                                #[trigger] out.deep_view()[k]).days_expired(*now) < days,
                        decreases at,
                    {
                        at = at - 1;
                    }
                    proof {
                        let sorted = out.deep_view();
                        let goes = lemma_insert_position(sorted, row@, *now);
                        if goes < at {
                            assert(sorted[at - 1].days_expired(*now) < days);
                        }
                        let before = seen;
                        seen = seen.push(row@);
                        assert(seen.drop_last() =~= before);
                    }
                    out.insert(at, row);
                },
                None => {
                    break ;
                },
            }
        }
        proof {
            lemma_sorted_rows(self.rows(), *now);
        }
        out
    }

    /// The records of the log as a listing by the clock: sorted, the longest
    /// expired first.
    pub fn get_all_ordered(&self) -> (r: Vec<Row>)
        ensures
            exists|now: Timestamp|
                now.valid() && r.deep_view() == sorted_rows(self.rows(), now) && is_sorted(
                    r.deep_view(),
                    now,
                ),
            r.deep_view().to_multiset() == self.rows().to_multiset(),
    {
        let now = Timestamp::now();
        self.get_all_ordered_at(&now)
    }

    /// The records that have run out at the instant `now`, in the order of
    /// the listing.
    pub fn get_expired_at(&self, now: &Timestamp) -> (r: Vec<Row>)
        ensures
            r.deep_view() == expired_of(sorted_rows(self.rows(), *now), *now),
    {
        let all = self.get_all_ordered_at(now);
        let mut out: Vec<Row> = Vec::new();
        let mut i: usize = 0;
        while i < all.len()
            invariant
                i <= all.len(),
                out.deep_view() == expired_of(all.deep_view().take(i as int), *now),
            decreases all.len() - i,
        {
            proof {
                let upto = all.deep_view().take(i + 1);
                assert(upto.drop_last() =~= all.deep_view().take(i as int));
            }
            if all[i].is_expired_at(now) {
                out.push(Row { path: all[i].path.clone(), expiration: all[i].expiration });
            }
            i = i + 1;
        }
        proof {
            assert(all.deep_view().take(all.len() as int) =~= all.deep_view());
        }
        out
    }

    /// The records that have run out by the clock, in the order of the
    /// listing.
    pub fn get_expired(&self) -> (r: Vec<Row>)
        ensures
            exists|now: Timestamp|
                now.valid() && r.deep_view() == expired_of(sorted_rows(self.rows(), now), now),
    {
        let now = Timestamp::now();
        self.get_expired_at(&now)
    }

    /// What `add_entry` has done, seen from outside: `before` is the registry
    /// as it was, `self` as it is, `r` what was returned, `now` the instant
    /// from which the expiration was counted.
    pub open spec fn added(
        &self,
        before: &Writer,
        add_args: &AddArgs,
        abs_path: Option<&str>,
        now: Timestamp,
        r: Result<(), ErrorKind>,
    ) -> bool {
        &&& self.location() == before.location()
        &&& match abs_path {
            None => r == Err::<(), ErrorKind>(ErrorKind::CantGetAbsPath) && self.log()
                == before.log(),
            Some(path) => match add_args.exp_date(now) {
                None => r == Err::<(), ErrorKind>(ErrorKind::InvalidTime) && self.log()
                    == before.log(),
                Some(expiration) => {
                    let row = RowView { path: path@, expiration };
                    &&& r is Ok
                    &&& self.log() == before.log().push(row.line())
                    &&& !row.line().contains('\n')
                    &&& expiration.in_text_range() ==> self.rows() == before.rows().push(row)
                        && self.contains(path@)
                },
            },
        }
    }

    /// Adds an entry for a path, to expire after the time that `add_args`
    /// gives, counted from the instant `now`: one line more at the end of the
    /// log, whether or not the log has a record of the path already.
    /// `abs_path` is the absolute form of the path, `None` where the path could
    /// not be resolved: that fails with `CantGetAbsPath`. An expiration that
    /// cannot be held fails with `InvalidTime`. A failure leaves the log as it
    /// is.
    pub fn add_entry_at(
        &mut self,
        add_args: &AddArgs,
        abs_path: Option<&str>,
        now: &Timestamp,
    ) -> (r: Result<(), ErrorKind>)
        ensures
            final(self).added(old(self), add_args, abs_path, *now, r),
    {
        let path = match abs_path {
            Some(path) => String::from_str(path),
            None => return Err(ErrorKind::CantGetAbsPath),
        };
        let expiration = match add_args.exp_date_at(now) {
            Ok(expiration) => expiration,
            Err(e) => return Err(e),
        };
        let row = Row { path, expiration };
        let stored = self.store_entry(&row);
        proof {
            if expiration.in_text_range() {
                assert(self.rows()[old(self).rows().len() as int] == row@);
            }
        }
        stored
    }

    /// Adds an entry for a path, to expire after the time that `add_args`
    /// gives, counted from the clock.
    pub fn add_entry(&mut self, add_args: &AddArgs, abs_path: Option<&str>) -> (r: Result<
        (),
        ErrorKind,
    >)
        ensures
            exists|now: Timestamp|
                now.valid() && final(self).added(old(self), add_args, abs_path, now, r),
    {
        let now = Timestamp::now();
        self.add_entry_at(add_args, abs_path, &now)
    }

    /// The object that `remove_entry` wants removed from the filesystem
    /// before it rewrites the log: the path, once the log is known to have a
    /// record of it. Fails with `CantGetAbsPath` where the path could not be
    /// resolved, and with `FileNotFound` where the log has no record of it.
    pub fn removal_target(&self, abs_path: Option<&str>) -> (r: Result<String, ErrorKind>)
        ensures
            match abs_path {
                None => r == Err::<String, ErrorKind>(ErrorKind::CantGetAbsPath),
                Some(path) => if self.contains(path@) {
                    r matches Ok(target) && target@ == path@
                } else {
                    r == Err::<String, ErrorKind>(ErrorKind::FileNotFound)
                },
            },
    {
        match abs_path {
            None => Err(ErrorKind::CantGetAbsPath),
            Some(path) => match self.check_entry(abs_path) {
                Ok(true) => Ok(String::from_str(path)),
                _ => Err(ErrorKind::FileNotFound),
            },
        }
    }

    /// Removes the records of a path: the log is rewritten with the other
    /// records, in their order, and nothing else. `abs_path` is the absolute
    /// form of the path, `None` where the path could not be resolved: that
    /// fails with `CantGetAbsPath`. A log without a record of the path fails
    /// with `FileNotFound`. `deleted` says how removing the object from the
    /// filesystem went, which the caller does once `removal_target` has named
    /// it: its failure is handed on. Every failure leaves the log as it is.
    pub fn remove_entry(&mut self, abs_path: Option<&str>, deleted: Result<(), ErrorKind>) -> (r:
        Result<(), ErrorKind>)
        ensures
            final(self).location() == old(self).location(),
            match abs_path {
                None => r == Err::<(), ErrorKind>(ErrorKind::CantGetAbsPath) && final(self).log()
                    == old(self).log(),
                Some(path) => if !old(self).contains(path@) {
                    r == Err::<(), ErrorKind>(ErrorKind::FileNotFound) && final(self).log() == old(
                        self,
                    ).log()
                } else {
                    match deleted {
                        Err(e) => r == Err::<(), ErrorKind>(e) && final(self).log() == old(
                            self,
                        ).log(),
                        Ok(_) => {
                            let kept = without_path(old(self).rows(), path@);
                            &&& r is Ok
                            &&& final(self).log() == lines_of(kept)
                            &&& forall|i: int|
                                0 <= i < kept.len() ==> !(#[trigger] final(self).log()[i]).contains(
                                    '\n',
                                )
                            &&& !final(self).contains(path@)
                            &&& all_in_text_range(kept) ==> final(self).rows() == kept
                        },
                    }
                },
            },
    {
        let path = match abs_path {
            Some(path) => String::from_str(path),
            None => return Err(ErrorKind::CantGetAbsPath),
        };
        let mut restore_rows: Vec<Row> = Vec::new();
        let mut removed = false;
        let mut it = self.iter();
        let ghost mut seen: Seq<RowView> = Seq::empty();
        proof {
            lemma_rows_of_valid(self.log());
        }
        loop
            invariant
                seen + it.remaining() == self.rows(),
                restore_rows.deep_view() == without_path(seen, path@),
                removed == has_path(seen, path@),
                forall|i: int|
                    0 <= i < self.rows().len() ==> (#[trigger] self.rows()[i]).expiration.valid(),
                forall|i: int|
                    0 <= i < restore_rows.len() ==> (#[trigger] restore_rows.deep_view()[i]).path
                        != path@ && restore_rows.deep_view()[i].expiration.valid(),
            ensures
                restore_rows.deep_view() == without_path(self.rows(), path@),
                removed == has_path(self.rows(), path@),
                forall|i: int|
                    0 <= i < restore_rows.len() ==> (#[trigger] restore_rows.deep_view()[i]).path
                        != path@ && restore_rows.deep_view()[i].expiration.valid(),
            decreases it.remaining().len(),
        {
            match it.next() {
                Some(row) => {
                    let ghost before = seen;
                    let ghost kept = restore_rows.deep_view();
                    proof {
                        seen = seen.push(row@);
                        assert(seen.drop_last() =~= before);
                        assert(self.rows()[before.len() as int] == row@);
                    }
                    if row.path != path {
                        restore_rows.push(row);
                        proof {
                            assert(restore_rows.deep_view() =~= kept.push(row@));
                            assert forall|i: int| 0 <= i < seen.len() && (#[trigger] seen[i]).path
                                == path@ implies has_path(before, path@) by {
                                assert(before[i] == seen[i]);
                            }
                        }
                    } else {
                        removed = true;
                        proof {
                            assert(seen[before.len() as int].path == path@);
                        }
                    }
                    proof {
                        if has_path(before, path@) {
                            let k = choose|k: int| 0 <= k < before.len() && before[k].path == path@;
                            assert(seen[k] == before[k]);
                        }
                    }
                },
                None => {
                    break ;
                },
            }
        }
        if !removed {
            return Err(ErrorKind::FileNotFound);
        }
        match deleted {
            Err(e) => return Err(e),
            Ok(_) => {},
        }
        let mut lines: Vec<String> = Vec::new();
        let mut i: usize = 0;
        while i < restore_rows.len()
            invariant
                i <= restore_rows.len(),
                forall|k: int|
                    0 <= k < restore_rows.len() ==> (#[trigger] restore_rows.deep_view()[k]).path
                        != path@ && restore_rows.deep_view()[k].expiration.valid(),
                lines.deep_view() == lines_of(restore_rows.deep_view().take(i as int)),
                forall|k: int|
                    0 <= k < lines.len() ==> !(#[trigger] lines.deep_view()[k]).contains('\n'),
                forall|k: int|
                    0 <= k < lines.len() ==> (decoded(#[trigger] lines.deep_view()[k]) matches Some(
                        row,
                    ) ==> row.path != path@),
                all_in_text_range(restore_rows.deep_view().take(i as int)) ==> rows_of(
                    lines.deep_view(),
                ) == restore_rows.deep_view().take(i as int),
            decreases restore_rows.len() - i,
        {
            let ghost written = lines.deep_view();
            let ghost row = restore_rows.deep_view()[i as int];
            if let Some(line) = restore_rows[i].to_file() {
                lines.push(line);
                proof {
                    assert(lines.deep_view() =~= written.push(line@));
                    assert(lines.deep_view().drop_last() =~= written);
                    let upto = restore_rows.deep_view().take(i + 1);
                    let sofar = restore_rows.deep_view().take(i as int);
                    if all_in_text_range(upto) {
                        assert(upto[i as int] == row);
                        assert forall|k: int| 0 <= k < i implies (
                        #[trigger] sofar[k]).expiration.in_text_range() by {
                            assert(upto[k] == sofar[k]);
                        }
                    }
                }
            }
            i = i + 1;
        }
        proof {
            lemma_no_record_of(lines.deep_view(), path@);
        }
        self.lines = lines;
        Ok(())
    }
}

/// Two registries with the same lines give the same listing at the same
/// instant, wherever their logs lie: reading changes nothing, and a listing
/// rests on the lines and the instant alone.
pub proof fn lemma_listing_repeats(first: Writer, second: Writer, now: Timestamp)
    requires
        first.log() == second.log(),
    ensures
        sorted_rows(first.rows(), now) == sorted_rows(second.rows(), now),
        expired_of(sorted_rows(first.rows(), now), now) == expired_of(
            sorted_rows(second.rows(), now),
            now,
        ),
{
}

} // verus!
