use crate::matcher::{
    case_sensitive_for, chars_match, field_matches, field_score, lemma_absent_char_no_match, score_field,
};
use crate::types::{KawaiiLabGroup, KawaiiLabMember};
use vstd::prelude::*;

verus! {

pub open spec fn max_int(a: int, b: int) -> int {
    if a >= b { a } else { b }
}

/// The best score that any member's name or nickname gets; zero for no members.
pub open spec fn members_score(members: Seq<KawaiiLabMember>, query: Seq<char>) -> int
    decreases members.len(),
{
    if members.len() == 0 {
        0
    } else {
        let m = members.last();
        max_int(
            members_score(members.drop_last(), query),
            max_int(field_score(m.name@, query), field_score(m.nickname@, query)),
        )
    }
}

/// A group's score: the maximum, not the sum, of the scores of its name, its
/// alias, and each member's name and nickname.
pub open spec fn group_score(g: KawaiiLabGroup, query: Seq<char>) -> int {
    max_int(
        max_int(field_score(g.name@, query), field_score(g.common_name@, query)),
        members_score(g.members@, query),
    )
}

/// Whether the query matches some member's name or nickname.
pub open spec fn member_matches(m: KawaiiLabMember, query: Seq<char>) -> bool {
    field_matches(m.name@, query) || field_matches(m.nickname@, query)
}

/// Whether the query matches any field of the group that takes part in scoring.
pub open spec fn group_matches(g: KawaiiLabGroup, query: Seq<char>) -> bool {
    field_matches(g.name@, query) || field_matches(g.common_name@, query) || exists|i: int|
        0 <= i < g.members@.len() && member_matches(#[trigger] g.members@[i], query)
}

/// What selection must return: `None` when no group scores above zero;
/// otherwise the first group, in catalog order, among those with the highest
/// score.
pub open spec fn is_best_choice(catalog: Seq<KawaiiLabGroup>, query: Seq<char>, r: Option<usize>) -> bool {
    match r {
        None => forall|j: int| 0 <= j < catalog.len() ==> group_score(#[trigger] catalog[j], query) <= 0,
        Some(i) => {
            &&& i < catalog.len()
            &&& group_score(catalog[i as int], query) > 0
            &&& forall|j: int|
                0 <= j < catalog.len() ==> group_score(#[trigger] catalog[j], query) <= group_score(catalog[i as int], query)
            &&& forall|j: int|
                0 <= j < i ==> group_score(#[trigger] catalog[j], query) < group_score(catalog[i as int], query)
        },
    }
}

/// Scores the query against a group: the best score of its name, its alias,
/// and every member's name and nickname.
pub fn score_group(group: &KawaiiLabGroup, query: &str) -> (r: i64)
    ensures
        r as int == group_score(*group, query@),
        r >= 0,
        r > 0 ==> group_matches(*group, query@),
        query@.len() == 0 ==> r == 0,
{
    let mut max_score: i64 = 0;
    let s = score_field(&group.name, query);
    if s > max_score {
        max_score = s;
    }
    let s = score_field(&group.common_name, query);
    if s > max_score {
        max_score = s;
    }
    let ghost head = max_score as int;
    let mut mscore: i64 = 0;
    let mut k: usize = 0;
    while k < group.members.len()
        invariant
            k <= group.members@.len(),
            head == max_int(field_score(group.name@, query@), field_score(group.common_name@, query@)),
            head >= 0,
            head > 0 ==> field_matches(group.name@, query@) || field_matches(group.common_name@, query@),
            mscore as int == members_score(group.members@.subrange(0, k as int), query@),
            mscore >= 0,
            mscore > 0 ==> exists|i: int| 0 <= i < k && member_matches(#[trigger] group.members@[i], query@),
            max_score as int == max_int(head, mscore as int),
            query@.len() == 0 ==> head == 0 && mscore == 0,
        decreases group.members@.len() - k,
    {
        let m = &group.members[k];
        let a = score_field(&m.name, query);
        let b = score_field(&m.nickname, query);
        assert(group.members@.subrange(0, k as int + 1).drop_last() =~= group.members@.subrange(0, k as int));
        if a > mscore {
            mscore = a;
        }
        if b > mscore {
            mscore = b;
        }
        if mscore > max_score {
            max_score = mscore;
        }
        k = k + 1;
    }
    assert(group.members@.subrange(0, group.members@.len() as int) =~= group.members@);
    max_score
}

/// Picks the group that best matches the query: the first, in catalog order,
/// of those with the highest positive score; `None` when no group scores above
/// zero, which is the case for an empty query and for a query that matches no
/// field of any group.
pub fn select_best_group(catalog: &Vec<KawaiiLabGroup>, query: &str) -> (r: Option<usize>)
    ensures
        is_best_choice(catalog@, query@, r),
        r is Some ==> group_matches(catalog@[r->0 as int], query@),
        query@.len() == 0 ==> r is None,
        (forall|j: int| 0 <= j < catalog@.len() ==> !group_matches(#[trigger] catalog@[j], query@)) ==> r is None,
{
    let mut best: Option<usize> = None;
    let mut best_score: i64 = 0;
    let mut i: usize = 0;
    while i < catalog.len()
        invariant
            i <= catalog@.len(),
            is_best_choice(catalog@.subrange(0, i as int), query@, best),
            best is None ==> best_score == 0,
            best is Some ==> best->0 < i && best_score as int == group_score(catalog@[best->0 as int], query@)
                && group_matches(catalog@[best->0 as int], query@),
            query@.len() == 0 ==> best is None,
        decreases catalog@.len() - i,
    {
        let s = score_group(&catalog[i], query);
        proof {
            assert forall|j: int| 0 <= j < i implies #[trigger] catalog@.subrange(0, i as int + 1)[j]
                == catalog@.subrange(0, i as int)[j] by {}
        }
        if s > 0 && (best.is_none() || best_score < s) {
            best = Some(i);
            best_score = s;
        }
        i = i + 1;
    }
    assert(catalog@.subrange(0, catalog@.len() as int) =~= catalog@);
    best
}

/// Every member's name and nickname score at most the members' score.
pub proof fn lemma_members_score_upper(members: Seq<KawaiiLabMember>, query: Seq<char>, k: int)
    requires
        0 <= k < members.len(),
    ensures
        field_score(members[k].name@, query) <= members_score(members, query),
        field_score(members[k].nickname@, query) <= members_score(members, query),
    decreases members.len(),
{
    if k < members.len() - 1 {
        lemma_members_score_upper(members.drop_last(), query, k);
    }
}

/// The members' score is no more than a bound that every member's name and
/// nickname stay within.
pub proof fn lemma_members_score_bounded(members: Seq<KawaiiLabMember>, query: Seq<char>, bound: int)
    requires
        bound >= 0,
        forall|k: int| 0 <= k < members.len() ==> field_score((#[trigger] members[k]).name@, query) <= bound
            && field_score(members[k].nickname@, query) <= bound,
    ensures
        members_score(members, query) <= bound,
    decreases members.len(),
{
    if members.len() > 0 {
        assert forall|k: int| 0 <= k < members.drop_last().len() implies field_score(
            (#[trigger] members.drop_last()[k]).name@,
            query,
        ) <= bound && field_score(members.drop_last()[k].nickname@, query) <= bound by {
            assert(members.drop_last()[k] == members[k]);
        }
        lemma_members_score_bounded(members.drop_last(), query, bound);
    }
}

/// Aggregation is a maximum, not a sum: a group one of whose members has a
/// nickname scoring `s` never scores below a group each of whose fields
/// (name, alias, members' names and nicknames) scores at most `s`, however
/// many members that group has.
pub proof fn lemma_max_not_sum(g1: KawaiiLabGroup, g2: KawaiiLabGroup, query: Seq<char>, k: int, s: int)
    requires
        0 <= k < g1.members@.len(),
        field_score(g1.members@[k].nickname@, query) == s,
        field_score(g2.name@, query) <= s,
        field_score(g2.common_name@, query) <= s,
        forall|j: int| 0 <= j < g2.members@.len() ==> field_score((#[trigger] g2.members@[j]).name@, query) <= s
            && field_score(g2.members@[j].nickname@, query) <= s,
    ensures
        group_score(g2, query) <= group_score(g1, query),
{
    lemma_members_score_upper(g1.members@, query, k);
    if s >= 0 {
        lemma_members_score_bounded(g2.members@, query, s);
    }
}

/// Ties go to the earlier group: of two groups with equal scores, the later
/// one is never the selection.
pub proof fn lemma_tie_goes_to_earlier(catalog: Seq<KawaiiLabGroup>, query: Seq<char>, i: int, j: int, r: Option<usize>)
    requires
        0 <= i < j < catalog.len(),
        group_score(catalog[i], query) == group_score(catalog[j], query),
        is_best_choice(catalog, query, r),
    ensures
        r is Some ==> r->0 as int != j,
{
}

/// Selection is deterministic: one catalog and one query admit one selection.
pub proof fn lemma_selection_unique(catalog: Seq<KawaiiLabGroup>, query: Seq<char>, r1: Option<usize>, r2: Option<usize>)
    requires
        is_best_choice(catalog, query, r1),
        is_best_choice(catalog, query, r2),
    ensures
        r1 == r2,
{
    if r1 is Some && r2 is Some {
        let (a, b) = (r1->0 as int, r2->0 as int);
        assert(group_score(catalog[a], query) <= group_score(catalog[b], query));
        assert(group_score(catalog[b], query) <= group_score(catalog[a], query));
        assert(!(a < b) && !(b < a));
    } else if r1 is Some {
        assert(group_score(catalog[r1->0 as int], query) <= 0);
    } else if r2 is Some {
        assert(group_score(catalog[r2->0 as int], query) <= 0);
    }
}

/// Whether no character of the field matches the query's character at `k`.
pub open spec fn char_absent(field: Seq<char>, query: Seq<char>, k: int) -> bool {
    forall|j: int| 0 <= j < field.len() ==> !chars_match(#[trigger] field[j], query[k], case_sensitive_for(query))
}

/// A query holding a character that no name, alias, member name or nickname
/// of the catalog holds matches no group, so `select_best_group` returns
/// `None` for it.
pub proof fn lemma_absent_char_unmatched(catalog: Seq<KawaiiLabGroup>, query: Seq<char>, k: int)
    requires
        0 <= k < query.len(),
        forall|i: int| 0 <= i < catalog.len() ==> {
            let g = #[trigger] catalog[i];
            &&& char_absent(g.name@, query, k)
            &&& char_absent(g.common_name@, query, k)
            &&& forall|m: int| 0 <= m < g.members@.len() ==> char_absent((#[trigger] g.members@[m]).name@, query, k)
                && char_absent(g.members@[m].nickname@, query, k)
        },
    ensures
        forall|i: int| 0 <= i < catalog.len() ==> !group_matches(#[trigger] catalog[i], query),
{
    let cs = case_sensitive_for(query);
    assert forall|i: int| 0 <= i < catalog.len() implies !group_matches(#[trigger] catalog[i], query) by {
        let g = catalog[i];
        lemma_absent_char_no_match(g.name@, query, cs, k);
        lemma_absent_char_no_match(g.common_name@, query, cs, k);
        assert forall|m: int| 0 <= m < g.members@.len() implies !member_matches(#[trigger] g.members@[m], query) by {
            lemma_absent_char_no_match(g.members@[m].name@, query, cs, k);
            lemma_absent_char_no_match(g.members@[m].nickname@, query, cs, k);
        }
    }
}

} // verus!
