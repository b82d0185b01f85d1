//! Member-list computations behind the user-information command: ordering
//! members by join time, finding a member's 1-based position, and building
//! the role-mention text.

use vstd::prelude::*;
use core::cmp::Ordering;
use crate::strutil::{lemma_concat_all_push, spec_concat_all, spec_u64_string, u64_string};

verus! {

/// How two members order by join time: by the timestamp alone, identifiers
/// untouched.
pub open spec fn spec_tuplesort(a: (u64, i64), b: (u64, i64)) -> Ordering {
    if a.1 < b.1 {
        Ordering::Less
    } else if a.1 > b.1 {
        Ordering::Greater
    } else {
        Ordering::Equal
    }
}

/// Compares two (member, join timestamp) pairs by the timestamp.
pub fn tuplesort(a: &(u64, i64), b: &(u64, i64)) -> (r: Ordering)
    ensures
        r == spec_tuplesort(*a, *b),
{
    if a.1 < b.1 {
        return Ordering::Less;
    } else if a.1 > b.1 {
        return Ordering::Greater;
    }
    return Ordering::Equal;
}

/// The index of the last entry carrying `user`, or -1 when none does.
pub open spec fn spec_last_index_of(s: Seq<(u64, i64)>, user: u64) -> int
    decreases s.len(),
{
    if s.len() == 0 {
        -1
    } else if s.last().0 == user {
        s.len() - 1
    } else {
        spec_last_index_of(s.drop_last(), user)
    }
}

/// The 1-based position of `user` in the member list, taken from the last
/// entry carrying it; 0 when the list does not hold it.
pub fn member_position(members: &Vec<(u64, i64)>, user: u64) -> (r: usize)
    ensures
        r as int == spec_last_index_of(members@, user) + 1,
{
    let mut position: usize = 0;
    let mut i: usize = 0;
    while i < members.len()
        invariant
            i <= members@.len(),
            position as int == spec_last_index_of(members@.subrange(0, i as int), user) + 1,
        decreases members@.len() - i,
    {
        proof {
            assert(members@.subrange(0, i + 1).drop_last() =~= members@.subrange(0, i as int));
            assert(members@.subrange(0, i + 1).last() == members@[i as int]);
        }
        if members[i].0 == user {
            position = i + 1;
        }
        i = i + 1;
    }
    proof {
        assert(members@.subrange(0, members@.len() as int) =~= members@);
    }
    position
}

/// The mention text of one role.
pub open spec fn spec_role_mention(id: int) -> Seq<char> {
    "<@&"@ + spec_u64_string(id) + ">\n"@
}

/// The mention lines of a list of roles, in order.
pub open spec fn spec_role_mentions(ids: Seq<u64>) -> Seq<Seq<char>> {
    Seq::new(ids.len(), |k: int| spec_role_mention(ids[k] as int))
}

/// Builds the role-mention text: one `<@&...>` mention per role, each on its
/// own line, in the given order.
pub fn role_mentions(role_ids: &Vec<u64>) -> (r: String)
    ensures
        r@ == spec_concat_all(spec_role_mentions(role_ids@)),
{
    let mut text = String::new();
    let mut i: usize = 0;
    proof {
        assert(spec_role_mentions(role_ids@).subrange(0, 0) =~= Seq::<Seq<char>>::empty());
    }
    while i < role_ids.len()
        invariant
            i <= role_ids@.len(),
            text@ == spec_concat_all(spec_role_mentions(role_ids@).subrange(0, i as int)),
        decreases role_ids@.len() - i,
    {
        let ghost mentions = spec_role_mentions(role_ids@);
        let line = String::from_str("<@&").concat(u64_string(role_ids[i]).as_str()).concat(">\n");
        text.append(line.as_str());
        proof {
            lemma_concat_all_push(mentions.subrange(0, i as int), mentions[i as int]);
            assert(mentions.subrange(0, i + 1) =~= mentions.subrange(0, i as int).push(
                mentions[i as int],
            ));
        }
        i = i + 1;
    }
    proof {
        assert(spec_role_mentions(role_ids@).subrange(0, role_ids@.len() as int)
            =~= spec_role_mentions(role_ids@));
    }
    text
}

} // verus!
