use vstd::prelude::*;

use crate::error::Error;
use crate::models::Badge;

verus! {

/// The badges of `user`, in the order of `s`.
pub open spec fn badges_of(s: Seq<Badge>, user: Seq<char>) -> Seq<Badge> {
    s.filter(|b: Badge| b.user_id@ == user)
}

/// Whether one of `groups` is that of `user`.
pub open spec fn has_group(groups: Seq<BadgeGroup>, user: Seq<char>) -> bool {
    exists|i: int| 0 <= i < groups.len() && groups[i].user_id@ == user
}

/// The badges of one user.
pub struct BadgeGroup {
    pub user_id: String,
    pub badges: Vec<Badge>,
}

proof fn lemma_badges_of_push(s: Seq<Badge>, b: Badge, user: Seq<char>)
    ensures
        badges_of(s.push(b), user) == if b.user_id@ == user {
            badges_of(s, user).push(b)
        } else {
            badges_of(s, user)
        },
{
    reveal(Seq::filter);
    assert(s.push(b).drop_last() =~= s);
}

proof fn lemma_badges_of_absent(s: Seq<Badge>, user: Seq<char>)
    requires
        forall|k: int| 0 <= k < s.len() ==> #[trigger] s[k].user_id@ != user,
    ensures
        badges_of(s, user) == Seq::<Badge>::empty(),
    decreases s.len(),
{
    reveal(Seq::filter);
    if s.len() > 0 {
        let front = s.drop_last();
        assert forall|k: int| 0 <= k < front.len() implies #[trigger] front[k].user_id@ != user by {
            assert(front[k] == s[k]);
        }
        lemma_badges_of_absent(front, user);
        assert(s.last().user_id@ != user);
        assert(s =~= front.push(s.last()));
        lemma_badges_of_push(front, s.last(), user);
    }
}

/// Groups badges by user: one group per user that has a badge, in the order
/// in which users first appear, each holding that user's badges in order.
pub fn group_badges_by_user(badges: Vec<Badge>) -> (r: Vec<BadgeGroup>)
    ensures
        forall|i: int, j: int|
            0 <= i < r@.len() && 0 <= j < r@.len() && i != j ==> r@[i].user_id@ != r@[j].user_id@,
        forall|i: int|
            0 <= i < r@.len() ==> #[trigger] r@[i].badges@ == badges_of(badges@, r@[i].user_id@),
        forall|k: int| 0 <= k < badges@.len() ==> has_group(r@, #[trigger] badges@[k].user_id@),
{
    let ghost input = badges@;
    let total: usize = badges.len();
    let mut rest = badges;
    let mut groups: Vec<BadgeGroup> = Vec::new();
    let mut n: usize = 0;
    while rest.len() > 0
        invariant
            n <= input.len(),
            input.len() == total,
            rest@ == input.skip(n as int),
            forall|i: int, j: int|
                0 <= i < groups@.len() && 0 <= j < groups@.len() && i != j ==> groups@[i].user_id@
                    != groups@[j].user_id@,
            forall|i: int|
                0 <= i < groups@.len() ==> #[trigger] groups@[i].badges@ == badges_of(
                    input.take(n as int),
                    groups@[i].user_id@,
                ),
            forall|k: int|
                #![trigger input[k]]
                0 <= k < n ==> exists|i: int|
                    #![trigger groups@[i]]
                    0 <= i < groups@.len() && groups@[i].user_id@ == input[k].user_id@,
        decreases rest@.len(),
    {
        let b = rest.remove(0);
        assert(b == input[n as int]);
        assert(rest@ =~= input.skip(n + 1));
        let ghost done = input.take(n as int);
        assert(input.take(n + 1) =~= done.push(b));
        let ghost user = b.user_id@;
        let ghost before = groups@;
        proof {
            assert forall|i: int| 0 <= i < before.len() implies #[trigger] before[i].badges@ == badges_of(
                input.take(n + 1),
                before[i].user_id@,
            ) || before[i].user_id@ == user by {
                lemma_badges_of_push(done, b, before[i].user_id@);
            }
        }
        let mut j: usize = 0;
        let mut found = false;
        while !found && j < groups.len()
            invariant
                groups@ == before,
                user == b.user_id@,
                j <= groups@.len(),
                found ==> j < groups@.len() && groups@[j as int].user_id@ == user,
                forall|i: int| 0 <= i < j ==> #[trigger] groups@[i].user_id@ != user,
            decreases groups@.len() - j + (if found { 0int } else { 1int }),
        {
            if groups[j].user_id.eq(&b.user_id) {
                found = true;
            } else {
                j += 1;
            }
        }
        if found {
            let mut g = groups.remove(j);
            proof {
                lemma_badges_of_push(done, b, user);
            }
            g.badges.push(b);
            groups.insert(j, g);
            proof {
                assert(groups@ =~= before.update(j as int, groups@[j as int]));
                assert forall|i: int| 0 <= i < groups@.len() implies #[trigger] groups@[i].badges@
                    == badges_of(input.take(n + 1), groups@[i].user_id@) by {
                    if i != j {
                        assert(groups@[i] == before[i]);
                    }
                }
                assert forall|k: int| #![trigger input[k]] 0 <= k < n + 1 implies exists|i: int|
                    #![trigger groups@[i]]
                    0 <= i < groups@.len() && groups@[i].user_id@ == input[k].user_id@ by {
                    if k == n {
                        assert(groups@[j as int].user_id@ == input[k].user_id@);
                    } else {
                        let i = choose|i: int|
#![trigger before[i]]
                            0 <= i < before.len() && before[i].user_id@ == input[k].user_id@;
                        assert(groups@[i].user_id@ == before[i].user_id@);
                    }
                }
            }
        } else {
            let owner = b.user_id.clone();
            let mut first: Vec<Badge> = Vec::new();
            first.push(b);
            proof {
                lemma_badges_of_push(done, b, user);
                assert forall|k: int| 0 <= k < done.len() implies #[trigger] done[k].user_id@ != user by {
                    if done[k].user_id@ == user {
                        assert(done[k] == input[k]);
                        let i = choose|i: int|
                            #![trigger before[i]]
                            0 <= i < before.len() && before[i].user_id@ == input[k].user_id@;
                        assert(groups@[i].user_id@ != user);
                    }
                }
                lemma_badges_of_absent(done, user);
                assert(first@ =~= Seq::<Badge>::empty().push(b));
            }
            groups.push(BadgeGroup { user_id: owner, badges: first });
            proof {
                assert forall|i: int| 0 <= i < groups@.len() implies #[trigger] groups@[i].badges@
                    == badges_of(input.take(n + 1), groups@[i].user_id@) by {
                    if i < before.len() {
                        assert(groups@[i] == before[i]);
                    }
                }
                assert forall|k: int| #![trigger input[k]] 0 <= k < n + 1 implies exists|i: int|
                    #![trigger groups@[i]]
                    0 <= i < groups@.len() && groups@[i].user_id@ == input[k].user_id@ by {
                    if k == n {
                        assert(groups@[before.len() as int].user_id@ == input[k].user_id@);
                    } else {
                        let i = choose|i: int|
#![trigger before[i]]
                            0 <= i < before.len() && before[i].user_id@ == input[k].user_id@;
                        assert(groups@[i] == before[i]);
                    }
                }
            }
        }
        n += 1;
    }
    proof {
        assert(input.take(n as int) =~= input);
        assert forall|k: int| 0 <= k < input.len() implies has_group(groups@, #[trigger] input[k].user_id@) by {
            let i = choose|i: int|
                #![trigger groups@[i]]
                0 <= i < groups@.len() && groups@[i].user_id@ == input[k].user_id@;
        }
    }
    groups
}

/// The result of a deletion that affected `rows_affected` rows: `NotFound`
/// where it removed nothing.
pub fn deletion_result(rows_affected: u64) -> (r: Result<(), Error>)
    ensures
        r is Ok <==> rows_affected != 0,
        r is Err ==> r == Err::<(), Error>(Error::NotFound),
{
    if rows_affected != 0 {
        Ok(())
    } else {
        Err(Error::NotFound)
    }
}

} // verus!
