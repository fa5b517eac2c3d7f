//! The order of spaces and the choice of the space that becomes current
//! when the current one goes away.

use vstd::prelude::*;
use crate::ids::SpaceId;
use crate::model::{Space, SpaceState, SpaceView};
use crate::order::{char_codes, lemma_lex_cons, lemma_lex_irreflexive, lex_lt, text_order};
use crate::util::{opt_view, views};

verus! {

/// Spaces are ordered by position, then creation time, then id.
pub open spec fn space_key(s: SpaceView) -> Seq<int> {
    seq![s.sort_order as int, s.created_at.unix_nanos as int] + char_codes(s.id)
}

pub open spec fn space_lt(a: SpaceView, b: SpaceView) -> bool {
    lex_lt(space_key(a), space_key(b))
}

/// Whether `left` comes strictly before `right`.
pub fn space_precedes(left: &Space, right: &Space) -> (r: bool)
    ensures
        r == space_lt(left@, right@),
{
    let ghost l = left@;
    let ghost rr = right@;
    proof {
        let la = seq![l.created_at.unix_nanos as int] + char_codes(l.id);
        let ra = seq![rr.created_at.unix_nanos as int] + char_codes(rr.id);
        assert(space_key(l) =~= seq![l.sort_order as int] + la);
        assert(space_key(rr) =~= seq![rr.sort_order as int] + ra);
        lemma_lex_cons(l.sort_order as int, la, rr.sort_order as int, ra);
        lemma_lex_cons(l.created_at.unix_nanos as int, char_codes(l.id), rr.created_at.unix_nanos as int, char_codes(rr.id));
        lemma_lex_irreflexive(char_codes(l.id));
    }
    if left.sort_order != right.sort_order {
        left.sort_order < right.sort_order
    } else if left.created_at.unix_nanos != right.created_at.unix_nanos {
        left.created_at.unix_nanos < right.created_at.unix_nanos
    } else {
        match text_order(left.id.as_str(), right.id.as_str()) {
            Some(b) => b,
            None => false,
        }
    }
}

/// Where `x` goes in `r`: before the first space it comes strictly before.
pub open spec fn space_insert_pos(r: Seq<SpaceView>, x: SpaceView) -> int
    decreases r.len(),
{
    if r.len() == 0 {
        0
    } else if space_lt(x, r[0]) {
        0
    } else {
        1 + space_insert_pos(r.drop_first(), x)
    }
}

/// The stable insertion sort of spaces.
pub open spec fn sort_spaces_spec(s: Seq<SpaceView>) -> Seq<SpaceView>
    decreases s.len(),
{
    if s.len() == 0 {
        s
    } else {
        let r = sort_spaces_spec(s.drop_last());
        r.insert(space_insert_pos(r, s.last()), s.last())
    }
}

proof fn lemma_space_insert_pos_is(r: Seq<SpaceView>, x: SpaceView, p: int)
    requires
        0 <= p <= r.len(),
        forall|q: int| 0 <= q < p ==> !space_lt(x, #[trigger] r[q]),
        p < r.len() ==> space_lt(x, r[p]),
    ensures
        space_insert_pos(r, x) == p,
    decreases p,
{
    if p > 0 {
        assert(!space_lt(x, r[0]));
        assert forall|q: int| 0 <= q < p - 1 implies !space_lt(x, #[trigger] r.drop_first()[q]) by {
            assert(r.drop_first()[q] == r[q + 1]);
        }
        lemma_space_insert_pos_is(r.drop_first(), x, p - 1);
    }
}

/// Sorts spaces by position, creation time and id.
pub fn sort_spaces(spaces: Vec<Space>) -> (r: Vec<Space>)
    ensures
        views(r@) == sort_spaces_spec(views(spaces@)),
{
    let src = spaces;
    let ghost sv = views(src@);
    let mut out: Vec<Space> = Vec::new();
    let n = src.len();
    let mut i: usize = 0;
    assert(sv.take(0) =~= Seq::<SpaceView>::empty());
    assert(views(out@) =~= Seq::<SpaceView>::empty());
    while i < n
        invariant
            n == src@.len(),
            sv == views(src@),
            i <= n,
            views(out@) == sort_spaces_spec(sv.take(i as int)),
        decreases n - i,
    {
        let x = src[i].clone();
        let ghost ov = views(out@);
        let m = out.len();
        let mut p: usize = 0;
        while p < m && !space_precedes(&x, &out[p])
            invariant
                m == out@.len(),
                ov == views(out@),
                p <= m,
                forall|q: int| 0 <= q < p ==> !space_lt(x@, #[trigger] ov[q]),
            decreases m - p,
        {
            assert(ov[p as int] == out[p as int]@);
            p = p + 1;
        }
        proof {
            if p < m {
                assert(ov[p as int] == out[p as int]@);
            }
            lemma_space_insert_pos_is(ov, x@, p as int);
            assert(sv.take(i + 1).drop_last() =~= sv.take(i as int));
            assert(sv.take(i + 1).last() == x@);
        }
        out.insert(p, x);
        assert(views(out@) =~= ov.insert(p as int, sv[i as int]));
        i = i + 1;
    }
    assert(sv.take(n as int) =~= sv);
    out
}

pub proof fn lemma_sort_spaces_members(s: Seq<SpaceView>)
    ensures
        sort_spaces_spec(s).len() == s.len(),
        forall|i: int| 0 <= i < sort_spaces_spec(s).len() ==> s.contains(#[trigger] sort_spaces_spec(s)[i]),
    decreases s.len(),
{
    if s.len() > 0 {
        lemma_sort_spaces_members(s.drop_last());
        let r = sort_spaces_spec(s.drop_last());
        lemma_space_insert_pos_bounds(r, s.last());
        let p = space_insert_pos(r, s.last());
        let t = r.insert(p, s.last());
        assert forall|i: int| 0 <= i < t.len() implies s.contains(#[trigger] t[i]) by {
            if i < p {
                assert(t[i] == r[i]);
                assert(s.drop_last().contains(r[i]));
                let j = choose|j: int| 0 <= j < s.drop_last().len() && s.drop_last()[j] == r[i];
                assert(s[j] == r[i]);
            } else if i == p {
                assert(s[s.len() - 1] == t[i]);
            } else {
                assert(t[i] == r[i - 1]);
                assert(s.drop_last().contains(r[i - 1]));
                let j = choose|j: int| 0 <= j < s.drop_last().len() && s.drop_last()[j] == r[i - 1];
                assert(s[j] == r[i - 1]);
            }
        }
    }
}

proof fn lemma_space_insert_pos_bounds(r: Seq<SpaceView>, x: SpaceView)
    ensures
        0 <= space_insert_pos(r, x) <= r.len(),
    decreases r.len(),
{
    if r.len() > 0 {
        lemma_space_insert_pos_bounds(r.drop_first(), x);
    }
}

/// Law: the space made current in place of another is an active space of
/// the list, and never the excluded one.
pub proof fn law_next_active_is_active(current: Option<Seq<char>>, spaces: Seq<SpaceView>, excluding: Option<Seq<char>>)
    ensures
        next_active(current, spaces, excluding) matches Some(id) ==> (exists|i: int| 0 <= i < spaces.len()
            && #[trigger] spaces[i].id == id && spaces[i].state == SpaceState::Active) && excluding != Some(id),
{
    let f = spaces.filter(active_except(excluding));
    let act = sort_spaces_spec(f);
    lemma_sort_spaces_members(f);
    if let Some(id) = next_active(current, spaces, excluding) {
        let k: int = if current is Some && exists|p: int| is_first_space_with(act, current->0, p) && p + 1 < act.len() {
            (choose|p: int| is_first_space_with(act, current->0, p)) + 1
        } else {
            0
        };
        assert(0 <= k < act.len());
        assert(act[k].id == id);
        assert(f.contains(act[k]));
        let j = choose|j: int| 0 <= j < f.len() && f[j] == act[k];
        spaces.lemma_filter_pred(active_except(excluding), j);
        assert(f.contains(f[j]));
        spaces.lemma_filter_contains_rev(active_except(excluding), f[j]);
        let i = choose|i: int| 0 <= i < spaces.len() && spaces[i] == f[j];
        assert(spaces[i].id == id);
    }
}

// ---------------------------------------------------------------------------
// The next active space

/// Active spaces other than the excluded one.
pub open spec fn active_except(excluding: Option<Seq<char>>) -> spec_fn(SpaceView) -> bool {
    |s: SpaceView| s.state == SpaceState::Active && excluding != Some(s.id)
}

/// `p` is the first position of a space with the id.
pub open spec fn is_first_space_with(spaces: Seq<SpaceView>, id: Seq<char>, p: int) -> bool {
    &&& 0 <= p < spaces.len()
    &&& spaces[p].id == id
    &&& forall|q: int| 0 <= q < p ==> spaces[q].id != id
}

/// The space to make current: among the sorted active spaces other than the
/// excluded one, the one after the current space, else the first.
pub open spec fn next_active(current: Option<Seq<char>>, spaces: Seq<SpaceView>, excluding: Option<Seq<char>>) -> Option<Seq<char>> {
    let act = sort_spaces_spec(spaces.filter(active_except(excluding)));
    if act.len() == 0 {
        None
    } else {
        match current {
            Some(c) => if exists|p: int| is_first_space_with(act, c, p) && p + 1 < act.len() {
                Some(act[(choose|p: int| is_first_space_with(act, c, p)) + 1].id)
            } else {
                Some(act[0].id)
            },
            None => Some(act[0].id),
        }
    }
}

/// The id of the space to make current when the current one (or the
/// excluded one) leaves the active list.
pub fn next_active_space_id(current_space_id: Option<&SpaceId>, spaces: &[Space], excluding: Option<&SpaceId>) -> (r: Option<SpaceId>)
    ensures
        opt_view(r) == next_active(
            match current_space_id { Some(x) => Some(x@), None => None },
            views(spaces@),
            match excluding { Some(x) => Some(x@), None => None },
        ),
{
    let ghost cur = match current_space_id { Some(x) => Some(x@), None => None::<Seq<char>> };
    let ghost exc = match excluding { Some(x) => Some(x@), None => None::<Seq<char>> };
    let ghost tv = views(spaces@);
    let ghost pred = active_except(exc);
    let mut act: Vec<Space> = Vec::new();
    let n = spaces.len();
    let mut i: usize = 0;
    proof {
        reveal_with_fuel(Seq::<_>::filter, 1);
        assert(tv.take(0) =~= Seq::<SpaceView>::empty());
    }
    while i < n
        invariant
            n == spaces@.len(),
            tv == views(spaces@),
            pred == active_except(exc),
            exc == match excluding { Some(x) => Some(x@), None => None::<Seq<char>> },
            i <= n,
            views(act@) == tv.take(i as int).filter(pred),
        decreases n - i,
    {
        proof {
            reveal_with_fuel(Seq::<_>::filter, 1);
            assert(tv.take(i + 1).drop_last() =~= tv.take(i as int));
            assert(tv.take(i + 1).last() == tv[i as int]);
        }
        let s = &spaces[i];
        let excluded = match excluding {
            Some(e) => e.0 == s.id.0,
            None => false,
        };
        if s.state.is_active() && !excluded {
            let c = s.clone();
            let ghost before = views(act@);
            act.push(c);
            assert(views(act@) =~= before.push(tv[i as int]));
        }
        i = i + 1;
    }
    assert(tv.take(n as int) =~= tv);
    let act = sort_spaces(act);
    let ghost av = views(act@);
    assert(av == sort_spaces_spec(tv.filter(pred)));
    if act.len() == 0 {
        return None;
    }
    match current_space_id {
        Some(c) => {
            let m = act.len();
            let mut p: usize = 0;
            while p < m
                invariant
                    m == act@.len(),
                    av == views(act@),
                    av == sort_spaces_spec(tv.filter(pred)),
                    tv == views(spaces@),
                    pred == active_except(exc),
                    exc == match excluding { Some(x) => Some(x@), None => None::<Seq<char>> },
                    current_space_id == Some(c),
                    p <= m,
                    forall|q: int| 0 <= q < p ==> av[q].id != c@,
                decreases m - p,
            {
                if act[p].id.0 == c.0 {
                    assert(is_first_space_with(av, c@, p as int));
                    proof {
                        let k = choose|k: int| is_first_space_with(av, c@, k);
                        if k < p {
                            assert(av[k].id != c@);
                        } else if p < k {
                            assert(av[p as int].id != c@);
                        }
                        assert(k == p);
                        assert(av == sort_spaces_spec(tv.filter(pred)));
                    }
                    if p + 1 < m {
                        return Some(act[p + 1].id.clone());
                    } else {
                        return Some(act[0].id.clone());
                    }
                }
                p = p + 1;
            }
            assert(!exists|q: int| is_first_space_with(av, c@, q));
            Some(act[0].id.clone())
        },
        None => Some(act[0].id.clone()),
    }
}

} // verus!
