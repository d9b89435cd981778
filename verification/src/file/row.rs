use crate::json::{find_text, json_object, json_text, member_text, read_object, write_object};
use crate::time::{rfc3339_text, Timestamp};
use vstd::prelude::*;
use vstd::string::StringExecFns;

verus! {

/// One record of the registry: an absolute path and the instant at which it
/// expires.
#[derive(Debug, Clone, PartialEq, Eq)]
pub struct Row {
    pub path: String,
    pub expiration: Timestamp,
}

/// What a record holds, as plain values.
pub struct RowView {
    pub path: Seq<char>,
    pub expiration: Timestamp,
}

impl View for Row {
    type V = RowView;

    open spec fn view(&self) -> RowView {
        RowView { path: self.path@, expiration: self.expiration }
    }
}

impl DeepView for Row {
    type V = RowView;

    open spec fn deep_view(&self) -> RowView {
        self@
    }
}

impl RowView {
    /// The members of the JSON object that a record is written as.
    pub open spec fn members(self) -> Seq<(Seq<char>, Seq<char>)> {
        seq![
            ("path"@, self.path),
            ("expiration"@, rfc3339_text(self.expiration.secs, self.expiration.nanos)),
        ]
    }

    /// The line that a record is written as.
    pub open spec fn line(self) -> Seq<char> {
        json_text(self.members())
    }

    /// Whether the record has run out at the instant `now`.
    pub open spec fn expired(self, now: Timestamp) -> bool {
        self.expiration.before(now)
    }

    /// The whole days since the record has run out at the instant `now`;
    /// negative while it has not.
    pub open spec fn days_expired(self, now: Timestamp) -> int {
        now.days_since(self.expiration)
    }
}

/// The record that the members of a JSON object make: the members `path` and
/// `expiration` are strings, and the second names an instant that can be
/// held. `None` for any other members.
pub open spec fn row_of(members: Seq<(Seq<char>, Option<Seq<char>>)>) -> Option<RowView> {
    match (member_text(members, "path"@), member_text(members, "expiration"@)) {
        (Some(path), Some(text)) => match Timestamp::parsed(text) {
            Some(expiration) => Some(RowView { path, expiration }),
            None => None,
        },
        _ => None,
    }
}

/// The record that a line holds: the line is one JSON object, and its
/// members make a record. `None` for any other line.
pub open spec fn decoded(line: Seq<char>) -> Option<RowView> {
    match json_object(line) {
        Some(members) => row_of(members),
        None => None,
    }
}

impl Row {
    /// Makes a record from the members of a JSON object: the name of each,
    /// and its text where its value is a string. Members that make no record
    /// give `None`.
    pub fn from_members(members: &Vec<(String, Option<String>)>) -> (r: Option<Row>)
        ensures
            r.deep_view() == row_of(members.deep_view()),
    {
        let path = match find_text(members, "path") {
            Some(path) => path,
            None => return None,
        };
        let text = match find_text(members, "expiration") {
            Some(text) => text,
            None => return None,
        };
        match Timestamp::from_rfc3339(text.as_str()) {
            Some(expiration) => Some(Row { path, expiration }),
            None => None,
        }
    }

    /// Reads a record from a line of the log. A line that holds no record
    /// gives `None`.
    pub fn from_file(line: &str) -> (r: Option<Row>)
        ensures
            r.deep_view() == decoded(line@),
    {
        match read_object(line) {
            Some(members) => Row::from_members(&members),
            None => None,
        }
    }

    /// Writes the record as a line of the log; `None` where its expiration
    /// cannot be held. The line has no line break in it. Read back, it gives
    /// the same path, and the same record where the year of the expiration has
    /// four digits.
    pub fn to_file(&self) -> (r: Option<String>)
        ensures
            match r {
                Some(line) => {
                    &&& self.expiration.valid()
                    &&& line@ == self@.line()
                    &&& !line@.contains('\n')
                    &&& decoded(line@) matches Some(row) ==> row.path == self.path@
                    &&& self.expiration.in_text_range() ==> decoded(line@) == Some(self@)
                },
                None => !self.expiration.valid(),
            },
    {
        let text = match self.expiration.to_rfc3339() {
            Some(text) => text,
            None => return None,
        };
        let mut members: Vec<(String, String)> = Vec::new();
        members.push((String::from_str("path"), self.path.clone()));
        members.push((String::from_str("expiration"), text));
        proof {
            reveal_strlit("path");
            reveal_strlit("expiration");
            assert("path"@.len() != "expiration"@.len());
            assert(members.deep_view() =~= self@.members());
        }
        let line = write_object(&members);
        proof {
            let read = json_object(line@)->0;
            assert(member_text(read, members.deep_view()[0].0) == Some(self.path@));
            assert(member_text(read, members.deep_view()[1].0) == Some(text@));
        }
        Some(line)
    }

    /// Whether the record has run out at the instant `now`.
    pub fn is_expired_at(&self, now: &Timestamp) -> (r: bool)
        ensures
            r == self@.expired(*now),
    {
        self.expiration.is_before(now)
    }

    /// Whether the record has run out by the clock.
    pub fn is_expired(&self) -> (r: bool)
        ensures
            exists|now: Timestamp| now.valid() && r == self@.expired(now),
    {
        let now = Timestamp::now();
        self.is_expired_at(&now)
    }

    /// The whole days since the record has run out at the instant `now`;
    /// negative while it has not.
    pub fn days_expired_at(&self, now: &Timestamp) -> (r: i64)
        ensures
            r == self@.days_expired(*now),
    {
        now.whole_days_since(&self.expiration)
    }

    /// The whole days since the record has run out, by the clock.
    pub fn get_days_expired(&self) -> (r: i64)
        ensures
            exists|now: Timestamp| now.valid() && r == self@.days_expired(now),
    {
        let now = Timestamp::now();
        self.days_expired_at(&now)
    }

    /// The whole days that the record has left at the instant `now`; negative
    /// once it has run out.
    pub fn days_left_at(&self, now: &Timestamp) -> (r: i64)
        ensures
            r == -self@.days_expired(*now),
    {
        -self.days_expired_at(now)
    }

    /// The whole days that the record has left, by the clock.
    pub fn get_days_left(&self) -> (r: i64)
        ensures
            exists|now: Timestamp| now.valid() && r == -self@.days_expired(now),
    {
        let now = Timestamp::now();
        self.days_left_at(&now)
    }
}

} // verus!
