use vstd::prelude::*;
use vstd::string::StringExecFns;

verus! {

/// The text that answers a lookup whose best group is `group_name`, with the
/// group's roster already serialized as `members_json`.
pub open spec fn found_text(group_name: Seq<char>, members_json: Seq<char>) -> Seq<char> {
    "members of "@ + group_name + ": "@ + members_json
}

/// The text that answers a lookup that matched no group; it echoes the query.
pub open spec fn not_found_text(query: Seq<char>) -> Seq<char> {
    "グループ "@ + query + " は見つかりませんでした"@
}

/// Builds the answer for a found group.
pub fn found_message(group_name: &str, members_json: &str) -> (r: String)
    ensures
        r@ == found_text(group_name@, members_json@),
{
    let mut text = "members of ".to_owned();
    text.append(group_name);
    text.append(": ");
    text.append(members_json);
    text
}

/// Builds the answer for a query that matched no group.
pub fn not_found_message(query: &str) -> (r: String)
    ensures
        r@ == not_found_text(query@),
{
    let mut text = "グループ ".to_owned();
    text.append(query);
    text.append(" は見つかりませんでした");
    text
}

} // verus!
