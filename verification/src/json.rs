use vstd::prelude::*;
use vstd::string::StringExecFns;

verus! {

/// The members of the JSON object that `serde_json::from_str` reads from
/// `text`, in the order in which `serde_json::Map` hands them out: the name of
/// each, and its text where its value is a string. `None` where `text` is not
/// one JSON object.
pub uninterp spec fn json_object(text: Seq<char>) -> Option<Seq<(Seq<char>, Option<Seq<char>>)>>;

/// The text that `serde_json::to_string` writes for the JSON object that has
/// these members, each a name and a string.
pub uninterp spec fn json_text(members: Seq<(Seq<char>, Seq<char>)>) -> Seq<char>;

/// The text of the first member called `name`, where that member is a
/// string.
pub open spec fn member_text(
    members: Seq<(Seq<char>, Option<Seq<char>>)>,
    name: Seq<char>,
) -> Option<Seq<char>>
    decreases members.len(),
{
    if members.len() == 0 {
        None
    } else if members[0].0 == name {
        members[0].1
    } else {
        member_text(members.drop_first(), name)
    }
}

/// Whether no two of the members have the same name.
pub open spec fn distinct_names(members: Seq<(Seq<char>, Seq<char>)>) -> bool {
    forall|i: int, j: int|
        0 <= i < j < members.len() ==> (#[trigger] members[i]).0 != (#[trigger] members[j]).0
}

/// Reads one JSON object with `serde_json::from_str`, as a
/// `serde_json::Value`, and hands out its members: the name of each, and its
/// text where its value is a string. The contract names the result.
#[verifier::external_body]
pub(crate) fn read_object(text: &str) -> (r: Option<Vec<(String, Option<String>)>>)
    ensures
        r.deep_view() == json_object(text@),
{
    let members = match serde_json::from_str::<serde_json::Value>(text) {
        Ok(serde_json::Value::Object(members)) => members,
        _ => return None,
    };
    let text_of = |value| match value {
        serde_json::Value::String(text) => Some(text),
        _ => None,
    };
    Some(members.into_iter().map(|(name, value)| (name, text_of(value))).collect())
}

/// Writes a JSON object of string members with `serde_json::to_string`. The
/// contract names the text, and claims of it what the outside crate is for:
/// the text is one line, and `serde_json::from_str` reads from it an object in
/// which each member that was written is found again with its text. For an
/// object whose names and values are strings the outside documentation names
/// no failure.
#[verifier::external_body]
pub(crate) fn write_object(members: &Vec<(String, String)>) -> (text: String)
    requires
        distinct_names(members.deep_view()),
    ensures
        text@ == json_text(members.deep_view()),
        !text@.contains('\n'),
        json_object(text@) is Some,
        forall|i: int|
            0 <= i < members.len() ==> member_text(
                json_object(text@)->0,
                (#[trigger] members.deep_view()[i]).0,
            ) == Some(members.deep_view()[i].1),
{
    let object: serde_json::Map<String, serde_json::Value> = members.iter().map(
        |(name, text)| (name.clone(), serde_json::Value::String(text.clone())),
    ).collect();
    serde_json::to_string(&serde_json::Value::Object(object)).unwrap_or_default()
}

/// Looks up the text of the first member called `name`.
pub fn find_text(members: &Vec<(String, Option<String>)>, name: &str) -> (r: Option<String>)
    ensures
        r.deep_view() == member_text(members.deep_view(), name@),
{
    let key = String::from_str(name);
    let mut i: usize = 0;
    proof {
        assert(members.deep_view().skip(0) =~= members.deep_view());
    }
    while i < members.len()
        invariant
            i <= members.len(),
            key@ == name@,
            member_text(members.deep_view(), name@) == member_text(
                members.deep_view().skip(i as int),
                name@,
            ),
        decreases members.len() - i,
    {
        proof {
            let rest = members.deep_view().skip(i as int);
            assert(rest.drop_first() =~= members.deep_view().skip(i + 1));
        }
        if members[i].0 == key {
            return match &members[i].1 {
                Some(text) => Some(text.clone()),
                None => None,
            };
        }
        i = i + 1;
    }
    None
}

} // verus!
