//! The little JSON that the console speaks: texts, objects of one level, and redaction.

use crate::text::same_text;
use vstd::prelude::*;
use vstd::string::*;

verus! {

/// The lower case hexadecimal digit for `d`.
pub open spec fn hex_digit(d: int) -> char {
    if d < 10 {
        ('0' as int + d) as char
    } else {
        ('a' as int + d - 10) as char
    }
}

/// A character as it stands in a JSON string.
pub open spec fn json_char(c: char) -> Seq<char> {
    if c == '"' || c == '\\' {
        seq!['\\', c]
    } else if c == '\u{8}' {
        seq!['\\', 'b']
    } else if c == '\u{c}' {
        seq!['\\', 'f']
    } else if c == '\n' {
        seq!['\\', 'n']
    } else if c == '\r' {
        seq!['\\', 'r']
    } else if c == '\t' {
        seq!['\\', 't']
    } else if (c as int) < 0x20 {
        seq!['\\', 'u', '0', '0', hex_digit(c as int / 16), hex_digit(c as int % 16)]
    } else {
        seq![c]
    }
}

/// The characters of a text as they stand in a JSON string.
pub open spec fn json_chars(s: Seq<char>) -> Seq<char>
    decreases s.len(),
{
    if s.len() == 0 {
        seq![]
    } else {
        json_chars(s.drop_last()) + json_char(s.last())
    }
}

/// The JSON string for a text.
pub open spec fn json_string(s: Seq<char>) -> Seq<char> {
    seq!['"'] + json_chars(s) + seq!['"']
}

/// The `Display` of `serde_json::Value::String`: the text in quotes, with quotes, backslashes and
/// control characters escaped.
#[verifier::external_body]
pub(crate) fn quote(s: &str) -> (result: String)
    ensures
        result@ == json_string(s@),
{
    serde_json::Value::String(s.to_owned()).to_string()
}

/// The members of an object: names, and the JSON texts of the values.
pub open spec fn member_views(members: Seq<(String, String)>) -> Seq<(Seq<char>, Seq<char>)> {
    members.map_values(|m: (String, String)| (m.0@, m.1@))
}

/// The members of a JSON object, written without white space.
pub open spec fn members_text(members: Seq<(Seq<char>, Seq<char>)>) -> Seq<char>
    decreases members.len(),
{
    if members.len() == 0 {
        seq![]
    } else {
        let last = json_string(members.last().0) + seq![':'] + members.last().1;
        if members.len() == 1 {
            last
        } else {
            members_text(members.drop_last()) + seq![','] + last
        }
    }
}

/// A JSON object, written without white space.
pub open spec fn object_text(members: Seq<(Seq<char>, Seq<char>)>) -> Seq<char> {
    seq!['{'] + members_text(members) + seq!['}']
}

/// Writes a JSON object without white space, given the JSON texts of its values.
pub fn write_object(members: &Vec<(String, String)>) -> (result: String)
    ensures
        result@ == object_text(member_views(members@)),
{
    let mut result = String::new();
    result.push('{');
    for i in 0..members.len()
        invariant
            result@ == seq!['{'] + members_text(member_views(members@).take(i as int)),
    {
        let ghost views = member_views(members@);
        assert(views.take(i + 1).drop_last() =~= views.take(i as int));
        assert(views.take(i + 1).last() == (members@[i as int].0@, members@[i as int].1@));
        if i > 0 {
            result.push(',');
        }
        result.append(quote(members[i].0.as_str()).as_str());
        result.push(':');
        result.append(members[i].1.as_str());
        assert(result@ =~= seq!['{'] + members_text(views.take(i + 1)));
    }
    assert(member_views(members@).take(members.len() as int) =~= member_views(members@));
    result.push('}');
    result
}

/// What a text is as a JSON document: the document written without white space and, if it is an
/// object, the names of its members and the JSON texts of their values. Nothing if the text is no
/// JSON document.
pub uninterp spec fn json_value(text: Seq<char>) -> Option<
    (Seq<char>, Option<Seq<(Seq<char>, Seq<char>)>>),
>;

/// A document and its members as texts.
pub open spec fn value_view(value: Option<(String, Option<Vec<(String, String)>>)>) -> Option<
    (Seq<char>, Option<Seq<(Seq<char>, Seq<char>)>>),
> {
    match value {
        Some((document, Some(members))) => Some((document@, Some(member_views(members@)))),
        Some((document, None)) => Some((document@, None)),
        None => None,
    }
}

/// `serde_json::from_str` into a `Value`: the `Display` of the value and, where `Value::as_object`
/// gives a map, its keys and the `Display` of its values. The `Display` of an object is that of
/// its members, in the order of the map, without white space.
#[verifier::external_body]
fn parse_value(text: &str) -> (result: Option<(String, Option<Vec<(String, String)>>)>)
    ensures
        value_view(result) == json_value(text@),
        result matches Some((document, Some(members))) ==> document@ == object_text(
            member_views(members@),
        ),
{
    let value = serde_json::from_str::<serde_json::Value>(text).ok()?;
    let members = value.as_object().map(
        |object| object.iter().map(|(name, member)| (name.clone(), member.to_string())).collect(),
    );
    Some((value.to_string(), members))
}

/// The members that are not called `name`, in their order.
pub open spec fn without(members: Seq<(Seq<char>, Seq<char>)>, name: Seq<char>) -> Seq<
    (Seq<char>, Seq<char>),
> {
    members.filter(|m: (Seq<char>, Seq<char>)| m.0 != name)
}

/// Drops the members that are called `name`.
pub fn remove_member(members: &Vec<(String, String)>, name: &str) -> (result: Vec<(String, String)>)
    ensures
        member_views(result@) == without(member_views(members@), name@),
{
    let mut result: Vec<(String, String)> = Vec::new();
    let ghost views = member_views(members@);
    let ghost keep = |m: (Seq<char>, Seq<char>)| m.0 != name@;
    proof {
        reveal(Seq::filter);
        assert(views.take(0).filter(keep) =~= member_views(result@));
    }
    for i in 0..members.len()
        invariant
            views == member_views(members@),
            keep == (|m: (Seq<char>, Seq<char>)| m.0 != name@),
            member_views(result@) == views.take(i as int).filter(keep),
    {
        proof {
            reveal(Seq::filter);
            assert(views.take(i + 1).drop_last() =~= views.take(i as int));
            assert(views.take(i + 1).last() == views[i as int]);
        }
        if !same_text(members[i].0.as_str(), name) {
            let ghost before = result@;
            result.push((members[i].0.clone(), members[i].1.clone()));
            assert(member_views(result@) =~= member_views(before).push(views[i as int]));
        }
    }
    assert(views.take(members.len() as int) =~= views);
    result
}

/// What is shown of an authentication response that is no JSON document.
pub open spec fn redaction_notice() -> Seq<char> {
    "<redacted auth response>"@
}

/// What may be shown of an authentication response, given what it is as a JSON document.
pub open spec fn redaction(
    value: Option<(Seq<char>, Option<Seq<(Seq<char>, Seq<char>)>>)>,
) -> Seq<char> {
    match value {
        Some((_, Some(members))) => object_text(without(members, "data"@)),
        Some((document, None)) => document,
        None => redaction_notice(),
    }
}

/// Redacts an authentication response, given what it is as a JSON document.
pub fn redact_parsed(value: Option<(String, Option<Vec<(String, String)>>)>) -> (result: String)
    ensures
        result@ == redaction(value_view(value)),
{
    match value {
        Some((_, Some(members))) => write_object(&remove_member(&members, "data")),
        Some((document, None)) => document,
        None => "<redacted auth response>".to_owned(),
    }
}

/// Redacts an authentication response: the member `data` of an object is dropped, and what is no
/// JSON document is not shown at all. A document without such a member is shown whole.
pub fn redact_auth_body(body: &str) -> (result: String)
    ensures
        result@ == redaction(json_value(body@)),
        json_value(body@) matches Some((document, Some(members))) ==> without(members, "data"@)
            == members ==> result@ == document,
{
    redact_parsed(parse_value(body))
}

/// A redacted object keeps every member but those called `data`, and no other.
pub proof fn redaction_drops_the_data_member(
    members: Seq<(Seq<char>, Seq<char>)>,
    member: (Seq<char>, Seq<char>),
)
    ensures
        without(members, "data"@).contains(member) <==> members.contains(member) && member.0
            != "data"@,
{
    broadcast use vstd::seq_lib::group_filter_ensures;

    let keep = |m: (Seq<char>, Seq<char>)| m.0 != "data"@;
    if without(members, "data"@).contains(member) {
        members.lemma_filter_contains_rev(keep, member);
    }
    if members.contains(member) && member.0 != "data"@ {
        let i = choose|i: int| 0 <= i < members.len() && members[i] == member;
        members.lemma_filter_contains(keep, i);
    }
}

} // verus!
