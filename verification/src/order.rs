//! The order in which task lists are sorted.

use vstd::prelude::*;
use crate::model::{SortMode, Task, TaskStatus, TaskView};
use crate::util::views;

verus! {

/// Lexicographic order on integer sequences; a proper prefix comes first.
pub open spec fn lex_lt(a: Seq<int>, b: Seq<int>) -> bool
    decreases a.len(),
{
    if a.len() == 0 || b.len() == 0 {
        a.len() < b.len()
    } else if a[0] != b[0] {
        a[0] < b[0]
    } else {
        lex_lt(a.drop_first(), b.drop_first())
    }
}

pub proof fn lemma_lex_irreflexive(a: Seq<int>)
    ensures
        !lex_lt(a, a),
    decreases a.len(),
{
    if a.len() > 0 {
        lemma_lex_irreflexive(a.drop_first());
    }
}

pub proof fn lemma_lex_asymmetric(a: Seq<int>, b: Seq<int>)
    ensures
        lex_lt(a, b) ==> !lex_lt(b, a),
    decreases a.len(),
{
    if a.len() > 0 && b.len() > 0 && a[0] == b[0] {
        lemma_lex_asymmetric(a.drop_first(), b.drop_first());
    }
}

pub proof fn lemma_lex_transitive(a: Seq<int>, b: Seq<int>, c: Seq<int>)
    ensures
        lex_lt(a, b) && lex_lt(b, c) ==> lex_lt(a, c),
    decreases a.len(),
{
    if a.len() > 0 && b.len() > 0 && c.len() > 0 {
        lemma_lex_transitive(a.drop_first(), b.drop_first(), c.drop_first());
    }
}

pub proof fn lemma_lex_total(a: Seq<int>, b: Seq<int>)
    ensures
        a != b ==> lex_lt(a, b) || lex_lt(b, a),
    decreases a.len(),
{
    if a.len() > 0 && b.len() > 0 {
        lemma_lex_total(a.drop_first(), b.drop_first());
        if a[0] == b[0] && a.drop_first() == b.drop_first() {
            assert(a.drop_first().len() == b.drop_first().len());
            assert(a.len() == b.len());
            assert forall|i: int| 0 <= i < a.len() implies a[i] == b[i] by {
                if i > 0 {
                    assert(a[i] == a.drop_first()[i - 1]);
                    assert(b[i] == b.drop_first()[i - 1]);
                }
            }
            assert(a =~= b);
        }
    } else if a.len() == 0 && b.len() == 0 {
        assert(a =~= b);
    }
}

/// Comparing after a common head is comparing the tails.
pub proof fn lemma_lex_cons(x: int, a: Seq<int>, y: int, b: Seq<int>)
    ensures
        lex_lt(seq![x] + a, seq![y] + b) == (if x != y { x < y } else { lex_lt(a, b) }),
{
    assert((seq![x] + a).drop_first() =~= a);
    assert((seq![y] + b).drop_first() =~= b);
}

/// The character codes of a text, compared as `str` compares.
pub open spec fn char_codes(s: Seq<char>) -> Seq<int> {
    s.map_values(|c: char| c as int)
}

/// The rank used by the status sort.
pub open spec fn status_rank_spec(status: TaskStatus) -> int {
    match status {
        TaskStatus::Todo => 0,
        TaskStatus::InProgress => 1,
        TaskStatus::Done => 2,
        TaskStatus::Close => 3,
    }
}

/// The primary sort key of a task under `sort`, followed by the tie-breakers
/// shared by every mode: creation time, then id.
pub open spec fn sort_key(t: TaskView, sort: SortMode) -> Seq<int> {
    let head: Seq<int> = match sort {
        SortMode::Created => seq![t.created_at.unix_nanos as int, t.sort_order as int],
        SortMode::Updated => seq![-(t.updated_at.unix_nanos as int), t.sort_order as int],
        SortMode::Status => seq![
            if t.archived { 1int } else { 0int },
            status_rank_spec(t.status),
            t.sort_order as int,
        ],
        SortMode::Manual => seq![t.sort_order as int],
    };
    head + seq![t.created_at.unix_nanos as int] + char_codes(t.id)
}

/// `a` sorts strictly before `b` under `sort`.
pub open spec fn task_lt(a: TaskView, b: TaskView, sort: SortMode) -> bool {
    lex_lt(sort_key(a, sort), sort_key(b, sort))
}

/// `a` is earlier than `b` in the progress of a task: todo, then
/// in progress, then done, then closed.
pub open spec fn earlier_status(a: TaskStatus, b: TaskStatus) -> bool {
    ||| a == TaskStatus::Todo && b != TaskStatus::Todo
    ||| a == TaskStatus::InProgress && (b == TaskStatus::Done || b == TaskStatus::Close)
    ||| a == TaskStatus::Done && b == TaskStatus::Close
}

/// Law: under the status sort, of two tasks that are both live (or both
/// archived), the one earlier in progress (todo, in progress, done,
/// closed) comes first, whatever their positions and times.
pub proof fn law_status_sort_follows_progress(a: TaskView, b: TaskView)
    requires
        a.archived == b.archived,
        earlier_status(a.status, b.status),
    ensures
        task_lt(a, b, SortMode::Status),
        !task_lt(b, a, SortMode::Status),
{
    let ax: int = if a.archived { 1int } else { 0int };
    let bx: int = if b.archived { 1int } else { 0int };
    let ta = seq![a.created_at.unix_nanos as int] + char_codes(a.id);
    let tb = seq![b.created_at.unix_nanos as int] + char_codes(b.id);
    let la = seq![status_rank_spec(a.status), a.sort_order as int] + ta;
    let lb = seq![status_rank_spec(b.status), b.sort_order as int] + tb;
    assert(sort_key(a, SortMode::Status) =~= seq![ax] + la);
    assert(sort_key(b, SortMode::Status) =~= seq![bx] + lb);
    lemma_lex_cons(ax, la, bx, lb);
    lemma_lex_cons(bx, lb, ax, la);
    assert(la =~= seq![status_rank_spec(a.status)] + (seq![a.sort_order as int] + ta));
    assert(lb =~= seq![status_rank_spec(b.status)] + (seq![b.sort_order as int] + tb));
    lemma_lex_cons(status_rank_spec(a.status), seq![a.sort_order as int] + ta, status_rank_spec(b.status), seq![b.sort_order as int] + tb);
    lemma_lex_cons(status_rank_spec(b.status), seq![b.sort_order as int] + tb, status_rank_spec(a.status), seq![a.sort_order as int] + ta);
}

/// `a` goes before `b` by the first thing `sort` looks at: creation time
/// (oldest first), last update (newest first), manual position (lowest
/// first), or, for the status sort, live before archived and then progress
/// (todo, in progress, done, closed).
pub open spec fn first_by_sort(a: TaskView, b: TaskView, sort: SortMode) -> bool {
    match sort {
        SortMode::Created => a.created_at.unix_nanos < b.created_at.unix_nanos,
        SortMode::Updated => a.updated_at.unix_nanos > b.updated_at.unix_nanos,
        SortMode::Manual => a.sort_order < b.sort_order,
        SortMode::Status => (!a.archived && b.archived) || (a.archived == b.archived && earlier_status(a.status, b.status)),
    }
}

/// Law: whatever the sort, a task that goes first by what the sort looks
/// at first sorts strictly before the other, and not after it.
pub proof fn law_sort_follows_its_first_key(a: TaskView, b: TaskView, sort: SortMode)
    requires
        first_by_sort(a, b, sort),
    ensures
        task_lt(a, b, sort),
        !task_lt(b, a, sort),
{
    let ta = seq![a.created_at.unix_nanos as int] + char_codes(a.id);
    let tb = seq![b.created_at.unix_nanos as int] + char_codes(b.id);
    match sort {
        SortMode::Created => {
            let xa = seq![a.sort_order as int] + ta;
            let xb = seq![b.sort_order as int] + tb;
            assert(sort_key(a, sort) =~= seq![a.created_at.unix_nanos as int] + xa);
            assert(sort_key(b, sort) =~= seq![b.created_at.unix_nanos as int] + xb);
            lemma_lex_cons(a.created_at.unix_nanos as int, xa, b.created_at.unix_nanos as int, xb);
            lemma_lex_cons(b.created_at.unix_nanos as int, xb, a.created_at.unix_nanos as int, xa);
        },
        SortMode::Updated => {
            let xa = seq![a.sort_order as int] + ta;
            let xb = seq![b.sort_order as int] + tb;
            assert(sort_key(a, sort) =~= seq![-(a.updated_at.unix_nanos as int)] + xa);
            assert(sort_key(b, sort) =~= seq![-(b.updated_at.unix_nanos as int)] + xb);
            lemma_lex_cons(-(a.updated_at.unix_nanos as int), xa, -(b.updated_at.unix_nanos as int), xb);
            lemma_lex_cons(-(b.updated_at.unix_nanos as int), xb, -(a.updated_at.unix_nanos as int), xa);
        },
        SortMode::Manual => {
            assert(sort_key(a, sort) =~= seq![a.sort_order as int] + ta);
            assert(sort_key(b, sort) =~= seq![b.sort_order as int] + tb);
            lemma_lex_cons(a.sort_order as int, ta, b.sort_order as int, tb);
            lemma_lex_cons(b.sort_order as int, tb, a.sort_order as int, ta);
        },
        SortMode::Status => {
            if a.archived == b.archived {
                law_status_sort_follows_progress(a, b);
            } else {
                let la = seq![status_rank_spec(a.status), a.sort_order as int] + ta;
                let lb = seq![status_rank_spec(b.status), b.sort_order as int] + tb;
                assert(sort_key(a, sort) =~= seq![0int] + la);
                assert(sort_key(b, sort) =~= seq![1int] + lb);
                lemma_lex_cons(0, la, 1, lb);
                lemma_lex_cons(1, lb, 0, la);
            }
        },
    }
}

pub fn status_rank(status: TaskStatus) -> (r: u8)
    ensures
        r as int == status_rank_spec(status),
{
    match status {
        TaskStatus::Todo => 0,
        TaskStatus::InProgress => 1,
        TaskStatus::Done => 2,
        TaskStatus::Close => 3,
    }
}

/// Compares two texts by character codes: `Some(true)` when `a` comes
/// first, `Some(false)` when `b` does, `None` when they are equal.
pub fn text_order(a: &str, b: &str) -> (r: Option<bool>)
    ensures
        r == Some(true) <==> lex_lt(char_codes(a@), char_codes(b@)),
        r == Some(false) <==> lex_lt(char_codes(b@), char_codes(a@)),
        r is None <==> a@ == b@,
{
    let n = a.unicode_len();
    let m = b.unicode_len();
    let ghost ca = char_codes(a@);
    let ghost cb = char_codes(b@);
    let mut i: usize = 0;
    assert(ca.skip(0) =~= ca);
    assert(cb.skip(0) =~= cb);
    while i < n && i < m
        invariant
            n == a@.len(),
            m == b@.len(),
            ca == char_codes(a@),
            cb == char_codes(b@),
            i <= n,
            i <= m,
            forall|j: int| 0 <= j < i ==> a@[j] == b@[j],
            lex_lt(ca, cb) == lex_lt(ca.skip(i as int), cb.skip(i as int)),
            lex_lt(cb, ca) == lex_lt(cb.skip(i as int), ca.skip(i as int)),
        decreases n - i,
    {
        let x = a.get_char(i);
        let y = b.get_char(i);
        assert(ca.skip(i as int).drop_first() =~= ca.skip(i + 1));
        assert(cb.skip(i as int).drop_first() =~= cb.skip(i + 1));
        if x != y {
            assert(ca.skip(i as int)[0] == x as int);
            assert(cb.skip(i as int)[0] == y as int);
            assert(a@[i as int] != b@[i as int]);
            return Some(x < y);
        }
        i = i + 1;
    }
    if n == m {
        assert(a@ =~= b@);
        proof {
            lemma_lex_irreflexive(ca);
        }
        None
    } else {
        assert(ca.skip(i as int).len() == n - i);
        assert(cb.skip(i as int).len() == m - i);
        assert(a@.len() != b@.len());
        Some(n < m)
    }
}

/// Whether `left` sorts strictly before `right` under `sort`.
pub fn task_precedes(left: &Task, right: &Task, sort: SortMode) -> (r: bool)
    ensures
        r == task_lt(left@, right@, sort),
{
    let ghost l = left@;
    let ghost rr = right@;
    let ghost la = seq![l.created_at.unix_nanos as int] + char_codes(l.id);
    let ghost ra = seq![rr.created_at.unix_nanos as int] + char_codes(rr.id);
    let tie = if left.created_at.unix_nanos != right.created_at.unix_nanos {
        left.created_at.unix_nanos < right.created_at.unix_nanos
    } else {
        match text_order(left.id.as_str(), right.id.as_str()) {
            Some(b) => b,
            None => false,
        }
    };
    proof {
        lemma_lex_cons(l.created_at.unix_nanos as int, char_codes(l.id), rr.created_at.unix_nanos as int, char_codes(rr.id));
        lemma_lex_irreflexive(char_codes(l.id));
        assert(tie == lex_lt(la, ra));
    }
    match sort {
        SortMode::Created => {
            proof {
                assert(sort_key(l, sort) =~= seq![l.created_at.unix_nanos as int] + (seq![l.sort_order as int] + la));
                assert(sort_key(rr, sort) =~= seq![rr.created_at.unix_nanos as int] + (seq![rr.sort_order as int] + ra));
                lemma_lex_cons(l.created_at.unix_nanos as int, seq![l.sort_order as int] + la, rr.created_at.unix_nanos as int, seq![rr.sort_order as int] + ra);
                lemma_lex_cons(l.sort_order as int, la, rr.sort_order as int, ra);
            }
            if left.created_at.unix_nanos != right.created_at.unix_nanos {
                left.created_at.unix_nanos < right.created_at.unix_nanos
            } else if left.sort_order != right.sort_order {
                left.sort_order < right.sort_order
            } else {
                tie
            }
        },
        SortMode::Updated => {
            proof {
                assert(sort_key(l, sort) =~= seq![-(l.updated_at.unix_nanos as int)] + (seq![l.sort_order as int] + la));
                assert(sort_key(rr, sort) =~= seq![-(rr.updated_at.unix_nanos as int)] + (seq![rr.sort_order as int] + ra));
                lemma_lex_cons(-(l.updated_at.unix_nanos as int), seq![l.sort_order as int] + la, -(rr.updated_at.unix_nanos as int), seq![rr.sort_order as int] + ra);
                lemma_lex_cons(l.sort_order as int, la, rr.sort_order as int, ra);
            }
            if left.updated_at.unix_nanos != right.updated_at.unix_nanos {
                left.updated_at.unix_nanos > right.updated_at.unix_nanos
            } else if left.sort_order != right.sort_order {
                left.sort_order < right.sort_order
            } else {
                tie
            }
        },
        SortMode::Status => {
            let la_arch: u8 = if left.archived { 1 } else { 0 };
            let ra_arch: u8 = if right.archived { 1 } else { 0 };
            let lr = status_rank(left.status);
            let rrk = status_rank(right.status);
            proof {
                let lt1 = seq![status_rank_spec(l.status), l.sort_order as int] + la;
                let rt1 = seq![status_rank_spec(rr.status), rr.sort_order as int] + ra;
                assert(sort_key(l, sort) =~= seq![la_arch as int] + lt1);
                assert(sort_key(rr, sort) =~= seq![ra_arch as int] + rt1);
                lemma_lex_cons(la_arch as int, lt1, ra_arch as int, rt1);
                assert(lt1 =~= seq![status_rank_spec(l.status)] + (seq![l.sort_order as int] + la));
                assert(rt1 =~= seq![status_rank_spec(rr.status)] + (seq![rr.sort_order as int] + ra));
                lemma_lex_cons(status_rank_spec(l.status), seq![l.sort_order as int] + la, status_rank_spec(rr.status), seq![rr.sort_order as int] + ra);
                lemma_lex_cons(l.sort_order as int, la, rr.sort_order as int, ra);
            }
            if la_arch != ra_arch {
                la_arch < ra_arch
            } else if lr != rrk {
                lr < rrk
            } else if left.sort_order != right.sort_order {
                left.sort_order < right.sort_order
            } else {
                tie
            }
        },
        SortMode::Manual => {
            proof {
                assert(sort_key(l, sort) =~= seq![l.sort_order as int] + la);
                assert(sort_key(rr, sort) =~= seq![rr.sort_order as int] + ra);
                lemma_lex_cons(l.sort_order as int, la, rr.sort_order as int, ra);
            }
            if left.sort_order != right.sort_order {
                left.sort_order < right.sort_order
            } else {
                tie
            }
        },
    }
}

} // verus!
