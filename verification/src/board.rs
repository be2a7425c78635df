//! The honesty leaderboard: where a user's new score goes, and who the two
//! leading users are.
use crate::types::AccountId;
use vstd::prelude::*;

verus! {

/// The first index in `lb` that holds `user` (the length when none does).
pub open spec fn user_index(lb: Seq<(AccountId, i128)>, user: AccountId) -> int
    decreases lb.len(),
{
    if lb.len() == 0 {
        0
    } else if lb[0].0 == user {
        0
    } else {
        1 + user_index(lb.drop_first(), user)
    }
}

/// `lb` without the first entry of `user`.
pub open spec fn without_user(lb: Seq<(AccountId, i128)>, user: AccountId) -> Seq<(AccountId, i128)> {
    let i = user_index(lb, user);
    if i < lb.len() {
        lb.remove(i)
    } else {
        lb
    }
}

/// The first index whose score `score` reaches (the length when it reaches
/// none).
pub open spec fn insert_index(lb: Seq<(AccountId, i128)>, score: i128) -> int
    decreases lb.len(),
{
    if lb.len() == 0 {
        0
    } else if score >= lb[0].1 {
        0
    } else {
        1 + insert_index(lb.drop_first(), score)
    }
}

/// Where the new entry of `user` with `score` goes.
pub open spec fn board_position(lb: Seq<(AccountId, i128)>, user: AccountId, score: i128) -> int {
    insert_index(without_user(lb, user), score)
}

/// The leaderboard once the entry of `user` is replaced by `(user, score)`
/// placed before the first entry whose score `score` reaches.
pub open spec fn board_after(lb: Seq<(AccountId, i128)>, user: AccountId, score: i128) -> Seq<(AccountId, i128)> {
    let w = without_user(lb, user);
    w.insert(insert_index(w, score), (user, score))
}

/// The users of the first two entries (of the only one, when there is one).
pub open spec fn top_two(lb: Seq<(AccountId, i128)>) -> Seq<AccountId> {
    if lb.len() < 2 {
        seq![lb[0].0]
    } else {
        seq![lb[0].0, lb[1].0]
    }
}

/// Scores never increase along the board.
pub open spec fn sorted_desc(lb: Seq<(AccountId, i128)>) -> bool {
    forall|i: int, j: int| 0 <= i < j < lb.len() ==> lb[i].1 >= lb[j].1
}

/// No user has two entries.
pub open spec fn distinct_users(lb: Seq<(AccountId, i128)>) -> bool {
    forall|i: int, j: int| 0 <= i < j < lb.len() ==> lb[i].0 != lb[j].0
}

/// What `user_index` is: the first index holding `user`.
pub proof fn lemma_user_index(lb: Seq<(AccountId, i128)>, user: AccountId)
    ensures
        0 <= user_index(lb, user) <= lb.len(),
        user_index(lb, user) < lb.len() ==> lb[user_index(lb, user)].0 == user,
        forall|j: int| 0 <= j < user_index(lb, user) ==> lb[j].0 != user,
    decreases lb.len(),
{
    if lb.len() > 0 && lb[0].0 != user {
        lemma_user_index(lb.drop_first(), user);
        assert forall|j: int| 0 <= j < user_index(lb, user) implies lb[j].0 != user by {
            if j > 0 {
                assert(lb[j] == lb.drop_first()[j - 1]);
            }
        }
    }
}

/// The first index holding `user` is `user_index`.
pub proof fn lemma_user_index_is(lb: Seq<(AccountId, i128)>, user: AccountId, i: int)
    requires
        0 <= i <= lb.len(),
        forall|j: int| 0 <= j < i ==> lb[j].0 != user,
        i < lb.len() ==> lb[i].0 == user,
    ensures
        user_index(lb, user) == i,
{
    lemma_user_index(lb, user);
    let k = user_index(lb, user);
    if k < i {
        assert(lb[k].0 == user);
    } else if i < k {
        assert(lb[i].0 != user);
    }
}

/// What `insert_index` is: the first index whose score `score` reaches.
pub proof fn lemma_insert_index(lb: Seq<(AccountId, i128)>, score: i128)
    ensures
        0 <= insert_index(lb, score) <= lb.len(),
        insert_index(lb, score) < lb.len() ==> score >= lb[insert_index(lb, score)].1,
        forall|j: int| 0 <= j < insert_index(lb, score) ==> score < lb[j].1,
    decreases lb.len(),
{
    if lb.len() > 0 && score < lb[0].1 {
        lemma_insert_index(lb.drop_first(), score);
        assert forall|j: int| 0 <= j < insert_index(lb, score) implies score < lb[j].1 by {
            if j > 0 {
                assert(lb[j] == lb.drop_first()[j - 1]);
            }
        }
    }
}

/// The first index whose score `score` reaches is `insert_index`.
pub proof fn lemma_insert_index_is(lb: Seq<(AccountId, i128)>, score: i128, i: int)
    requires
        0 <= i <= lb.len(),
        forall|j: int| 0 <= j < i ==> score < lb[j].1,
        i < lb.len() ==> score >= lb[i].1,
    ensures
        insert_index(lb, score) == i,
{
    lemma_insert_index(lb, score);
    let k = insert_index(lb, score);
    if k < i {
        assert(score < lb[k].1);
    } else if i < k {
        assert(score < lb[i].1);
    }
}

/// Placing a user's new score keeps a leaderboard sorted from the highest
/// score down with one entry per user; the user's entry is `(user, score)`
/// at the returned position, and every other user keeps exactly the entries
/// they had.
pub proof fn law_board_stays_ranked(lb: Seq<(AccountId, i128)>, user: AccountId, score: i128)
    requires
        sorted_desc(lb),
        distinct_users(lb),
    ensures
        sorted_desc(board_after(lb, user, score)),
        distinct_users(board_after(lb, user, score)),
        0 <= board_position(lb, user, score) < board_after(lb, user, score).len(),
        board_after(lb, user, score)[board_position(lb, user, score)] == (user, score),
        forall|u: AccountId, s: i128|
            u != user ==> (board_after(lb, user, score).contains((u, s)) <==> lb.contains((u, s))),
        forall|s: i128| #[trigger] board_after(lb, user, score).contains((user, s)) ==> s == score,
{
    lemma_user_index(lb, user);
    let w = without_user(lb, user);
    let i = user_index(lb, user);
    assert(forall|k: int| 0 <= k < w.len() ==> w[k].0 != user) by {
        assert forall|k: int| 0 <= k < w.len() implies w[k].0 != user by {
            if i < lb.len() {
                if k < i {
                    assert(w[k] == lb[k]);
                } else {
                    assert(w[k] == lb[k + 1]);
                    assert(lb[i].0 != lb[k + 1].0);
                }
            }
        }
    }
    assert(sorted_desc(w)) by {
        assert forall|a: int, b: int| 0 <= a < b < w.len() implies w[a].1 >= w[b].1 by {
            if i < lb.len() {
                let a0 = if a < i { a } else { a + 1 };
                let b0 = if b < i { b } else { b + 1 };
                assert(w[a] == lb[a0]);
                assert(w[b] == lb[b0]);
            }
        }
    }
    assert(distinct_users(w)) by {
        assert forall|a: int, b: int| 0 <= a < b < w.len() implies w[a].0 != w[b].0 by {
            if i < lb.len() {
                let a0 = if a < i { a } else { a + 1 };
                let b0 = if b < i { b } else { b + 1 };
                assert(w[a] == lb[a0]);
                assert(w[b] == lb[b0]);
            }
        }
    }
    assert(forall|u: AccountId, s: i128| u != user ==> (w.contains((u, s)) <==> lb.contains((u, s)))) by {
        assert forall|u: AccountId, s: i128| u != user implies (w.contains((u, s)) <==> lb.contains((u, s))) by {
            if i < lb.len() {
                if w.contains((u, s)) {
                    let k = choose|k: int| 0 <= k < w.len() && w[k] == (u, s);
                    if k < i {
                        assert(lb[k] == (u, s));
                    } else {
                        assert(lb[k + 1] == (u, s));
                    }
                }
                if lb.contains((u, s)) {
                    let k = choose|k: int| 0 <= k < lb.len() && lb[k] == (u, s);
                    assert(k != i);
                    if k < i {
                        assert(w[k] == (u, s));
                    } else {
                        assert(w[k - 1] == (u, s));
                    }
                }
            }
        }
    }
    lemma_insert_index(w, score);
    let p = insert_index(w, score);
    let a = w.insert(p, (user, score));
    assert(a == board_after(lb, user, score));
    assert(sorted_desc(a)) by {
        assert forall|x: int, y: int| 0 <= x < y < a.len() implies a[x].1 >= a[y].1 by {
            if x < p && y < p {
                assert(a[x] == w[x] && a[y] == w[y]);
            } else if x < p && y == p {
                assert(a[x] == w[x]);
            } else if x < p {
                assert(a[x] == w[x] && a[y] == w[y - 1]);
            } else if x == p {
                assert(a[y] == w[y - 1]);
                assert(score >= w[p].1);
            } else {
                assert(a[x] == w[x - 1] && a[y] == w[y - 1]);
            }
        }
    }
    assert(distinct_users(a)) by {
        assert forall|x: int, y: int| 0 <= x < y < a.len() implies a[x].0 != a[y].0 by {
            if x < p && y < p {
                assert(a[x] == w[x] && a[y] == w[y]);
            } else if x < p && y == p {
                assert(a[x] == w[x]);
            } else if x < p {
                assert(a[x] == w[x] && a[y] == w[y - 1]);
            } else if x == p {
                assert(a[y] == w[y - 1]);
            } else {
                assert(a[x] == w[x - 1] && a[y] == w[y - 1]);
            }
        }
    }
    assert forall|u: AccountId, s: i128| u != user implies (a.contains((u, s)) <==> w.contains((u, s))) by {
        if a.contains((u, s)) {
            let k = choose|k: int| 0 <= k < a.len() && a[k] == (u, s);
            if k < p {
                assert(w[k] == (u, s));
            } else {
                assert(k != p);
                assert(w[k - 1] == (u, s));
            }
        }
        if w.contains((u, s)) {
            let k = choose|k: int| 0 <= k < w.len() && w[k] == (u, s);
            if k < p {
                assert(a[k] == (u, s));
            } else {
                assert(a[k + 1] == (u, s));
            }
        }
    }
    assert forall|s: i128| #[trigger] a.contains((user, s)) implies s == score by {
        let k = choose|k: int| 0 <= k < a.len() && a[k] == (user, s);
        if k < p {
            assert(a[k] == w[k]);
        } else if k > p {
            assert(a[k] == w[k - 1]);
        }
    }
}

/// The court's honest members are the leaders: after a user's new score is
/// placed, the members are the users of the first one or two entries, and
/// nobody further down has more points than they do.
pub proof fn law_court_members_lead(lb: Seq<(AccountId, i128)>, user: AccountId, score: i128)
    requires
        sorted_desc(lb),
        distinct_users(lb),
    ensures
        ({
            let b = board_after(lb, user, score);
            let t = top_two(b);
            &&& t.len() == (if b.len() < 2 { 1int } else { 2int })
            &&& forall|j: int| 0 <= j < t.len() ==> #[trigger] t[j] == b[j].0
            &&& forall|j: int, k: int| 0 <= j < t.len() && t.len() <= k < b.len() ==> #[trigger] b[j].1 >= #[trigger] b[k].1
        }),
{
    law_board_stays_ranked(lb, user, score);
}

} // verus!
