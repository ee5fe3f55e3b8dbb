//! The two calls into `serde_json`: writing a string as a JSON string, and
//! reading a JSON object into its members.

use vstd::prelude::*;

verus! {

/// `serde_json::Error`, carried from the calls below to the caller that maps it.
#[verifier::external_type_specification]
#[verifier::external_body]
pub struct ExJsonError(serde_json::Error);

/// One member of a JSON object, as far as a record reads it: the payload of a
/// string or a boolean, and only the kind of any other value.
#[derive(Debug)]
pub enum Member {
    Null,
    Flag(bool),
    Number,
    Text(String),
    List,
    Object,
}

/// A `Member` as plain values.
pub enum MemberView {
    Null,
    Flag(bool),
    Number,
    Text(Seq<char>),
    List,
    Object,
}

impl View for Member {
    type V = MemberView;

    open spec fn view(&self) -> MemberView {
        match self {
            Member::Null => MemberView::Null,
            Member::Flag(flag) => MemberView::Flag(*flag),
            Member::Number => MemberView::Number,
            Member::Text(text) => MemberView::Text(text@),
            Member::List => MemberView::List,
            Member::Object => MemberView::Object,
        }
    }
}

/// The named members of an object, each as plain values, in the order given.
pub open spec fn member_views(members: Seq<(String, Member)>) -> Seq<(Seq<char>, MemberView)> {
    members.map_values(|member: (String, Member)| (member.0@, member.1@))
}

/// The JSON string that `serde_json` writes for a text: the text between
/// double quotes, with the characters that JSON does not allow there escaped.
pub uninterp spec fn json_quoted(text: Seq<char>) -> Seq<char>;

/// The members that `serde_json` reads from a text that is one JSON object,
/// in the order in which its map hands them out, and `None` for any other
/// text.
pub uninterp spec fn json_members(text: Seq<char>) -> Option<Seq<(Seq<char>, MemberView)>>;

/// `serde_json::to_string` on a string slice. It returns a text, which is
/// the JSON string named `json_quoted`. It does not fail: the crate names a
/// failing `Serialize` impl and a map key that is no string as the causes of
/// failure, a string slice has neither, and the text is written into memory.
#[verifier::external_body]
pub(crate) fn quote(text: &str) -> (r: Result<String, serde_json::Error>)
    ensures
        r is Ok,
        r matches Ok(quoted) ==> quoted@ == json_quoted(text@),
{
    serde_json::to_string(text)
}

/// `serde_json::from_str` into a `serde_json::Map`, whose entries are then
/// handed out one by one. It returns the members named `json_members` where
/// the text is one JSON object, and the crate's error where it is not.
#[verifier::external_body]
pub(crate) fn parse_members(text: &str) -> (r: Result<Vec<(String, Member)>, serde_json::Error>)
    ensures
        match r {
            Ok(members) => json_members(text@) == Some(member_views(members@)),
            Err(_) => json_members(text@) is None,
        },
{
    let document: serde_json::Map<String, serde_json::Value> = serde_json::from_str(text)?;
    Ok(document.into_iter().map(|(name, value)| (name, match value {
        serde_json::Value::Null => Member::Null,
        serde_json::Value::Bool(flag) => Member::Flag(flag),
        serde_json::Value::Number(_) => Member::Number,
        serde_json::Value::String(text) => Member::Text(text),
        serde_json::Value::Array(_) => Member::List,
        serde_json::Value::Object(_) => Member::Object,
    })).collect())
}

} // verus!
