use vstd::prelude::*;

verus! {

/// One group of the catalog, with its roster in display order.
#[derive(Debug, Clone)]
pub struct KawaiiLabGroup {
    pub name: String,
    pub name_katakana: String,
    pub common_name: String,
    pub members: Vec<KawaiiLabMember>,
}

/// One member of a group. Only `name` and `nickname` take part in matching.
#[derive(Debug, Clone)]
pub struct KawaiiLabMember {
    pub name: String,
    pub name_kana: String,
    pub nickname: String,
    pub color: String,
    pub birthday: String,
    pub from: String,
    pub height: String,
    pub blood_type: Option<String>,
}

/// The argument of a members lookup: a group name, a group alias, a member's
/// name or a member's nickname.
#[derive(Debug, Clone)]
pub struct MembersRequest {
    pub query: String,
}

} // verus!
