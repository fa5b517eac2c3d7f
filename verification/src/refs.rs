//! Resolving user references (full ids, short ids, slugs) to ids.

use vstd::prelude::*;
use crate::ids::{
    matches_ref_reaches_suffix, matches_ref_spec, space_prefix, task_prefix, IdError, IdErrorKind,
    SpaceId, TaskId,
};
use crate::model::{Space, SpaceView};
use crate::text::{split_once_underscore, str_eq};
use crate::util::views;
use vstd::string::*;

verus! {

#[derive(Debug)]
#[allow(inconsistent_fields)]
pub enum ReferenceError {
    InvalidId(IdError),
    AmbiguousTaskReference { input: String, matches: Vec<TaskId> },
    AmbiguousSpaceReference { input: String, matches: Vec<SpaceId> },
    TaskNotFound(String),
    SpaceNotFound(String),
}

/// What resolving a reference comes to, without payloads other than ids.
pub enum RefOutcome {
    Found(Seq<char>),
    NotFound,
    Ambiguous(Seq<Seq<char>>),
    Invalid(IdErrorKind),
}

impl ReferenceError {
    /// The error's payloads are those the resolver fills in for `reference`.
    pub open spec fn carries_input(self, reference: Seq<char>) -> bool {
        match self {
            ReferenceError::InvalidId(e) => e.value_of() == reference && e@ == crate::ids::task_id_error(e.kind_of(), reference),
            ReferenceError::AmbiguousTaskReference { input, .. } => input@ == reference,
            ReferenceError::AmbiguousSpaceReference { input, .. } => input@ == reference,
            ReferenceError::TaskNotFound(s) => s@ == reference,
            ReferenceError::SpaceNotFound(s) => s@ == reference,
        }
    }
}

pub open spec fn task_ref_outcome(r: Result<TaskId, ReferenceError>) -> RefOutcome {
    match r {
        Ok(id) => RefOutcome::Found(id@),
        Err(ReferenceError::TaskNotFound(_)) => RefOutcome::NotFound,
        Err(ReferenceError::AmbiguousTaskReference { matches, .. }) => RefOutcome::Ambiguous(views(matches@)),
        Err(ReferenceError::InvalidId(e)) => RefOutcome::Invalid(e.kind_of()),
        Err(_) => RefOutcome::NotFound,
    }
}

pub open spec fn space_ref_outcome(r: Result<SpaceId, ReferenceError>) -> RefOutcome {
    match r {
        Ok(id) => RefOutcome::Found(id@),
        Err(ReferenceError::SpaceNotFound(_)) => RefOutcome::NotFound,
        Err(ReferenceError::AmbiguousSpaceReference { matches, .. }) => RefOutcome::Ambiguous(views(matches@)),
        Err(ReferenceError::InvalidId(e)) => RefOutcome::Invalid(e.kind_of()),
        Err(_) => RefOutcome::NotFound,
    }
}

/// The ids that a reference picks out by prefix matching.
pub open spec fn prefix_matches(ids: Seq<Seq<char>>, prefix: Seq<char>, reference: Seq<char>) -> Seq<Seq<char>> {
    ids.filter(ref_matcher(prefix, reference))
}

pub open spec fn ref_matcher(prefix: Seq<char>, reference: Seq<char>) -> spec_fn(Seq<char>) -> bool {
    |id: Seq<char>| matches_ref_spec(id, prefix, reference) == Ok::<bool, IdErrorKind>(true)
}

/// Resolving a task reference among `ids`: an exact id wins; otherwise the
/// reference must be a well-formed short id matching exactly one id.
pub open spec fn resolve_task_ref_spec(reference: Seq<char>, ids: Seq<Seq<char>>) -> RefOutcome {
    if ids.contains(reference) {
        RefOutcome::Found(reference)
    } else if ids.len() == 0 {
        RefOutcome::NotFound
    } else {
        match matches_ref_spec(ids[0], task_prefix(), reference) {
            Err(k) => RefOutcome::Invalid(k),
            Ok(_) => {
                let m = prefix_matches(ids, task_prefix(), reference);
                if m.len() == 0 {
                    RefOutcome::NotFound
                } else if m.len() == 1 {
                    RefOutcome::Found(m[0])
                } else {
                    RefOutcome::Ambiguous(m)
                }
            },
        }
    }
}

/// Every id can be compared against `reference` without a panic.
pub open spec fn ids_comparable(ids: Seq<Seq<char>>, prefix: Seq<char>, reference: Seq<char>) -> bool {
    forall|i: int|
        0 <= i < ids.len() ==> (#[trigger] matches_ref_reaches_suffix(ids[i], prefix, reference)
            ==> split_once_underscore(ids[i]) is Some)
}

/// When the reference is no id, its check fails or passes alike for every id.
proof fn lemma_matches_error_uniform(a: Seq<char>, b: Seq<char>, prefix: Seq<char>, reference: Seq<char>)
    requires
        reference != a,
        reference != b,
    ensures
        matches_ref_spec(a, prefix, reference) is Err <==> matches_ref_spec(b, prefix, reference) is Err,
        matches_ref_spec(a, prefix, reference) is Err ==> matches_ref_spec(a, prefix, reference)
            == matches_ref_spec(b, prefix, reference),
{
}

/// Resolves a task reference: a full id, or a short id (`tsk_` and the
/// first 8 to 26 bytes of the ULID) matching exactly one of `ids`.
pub fn resolve_task_ref(reference: &str, ids: &[TaskId]) -> (r: Result<TaskId, ReferenceError>)
    requires
        ids_comparable(views(ids@), task_prefix(), reference@),
    ensures
        task_ref_outcome(r) == resolve_task_ref_spec(reference@, views(ids@)),
        r matches Err(e) ==> e.carries_input(reference@) && !(e is AmbiguousSpaceReference)
            && !(e is SpaceNotFound),
{
    let ghost idv = views(ids@);
    let n = ids.len();
    let mut i: usize = 0;
    while i < n
        invariant
            n == ids@.len(),
            idv == views(ids@),
            i <= n,
            forall|j: int| 0 <= j < i ==> idv[j] != reference@,
        decreases n - i,
    {
        if str_eq(ids[i].as_str(), reference) {
            assert(idv[i as int] == reference@);
            assert(idv.contains(reference@));
            return Ok(ids[i].clone());
        }
        i = i + 1;
    }
    assert(!idv.contains(reference@));
    if n == 0 {
        return Err(ReferenceError::TaskNotFound(String::from_str(reference)));
    }
    let mut matches: Vec<TaskId> = Vec::new();
    let ghost pred = ref_matcher(task_prefix(), reference@);
    let mut k: usize = 0;
    assert(idv.take(0).filter(pred) =~= Seq::<Seq<char>>::empty()) by {
        reveal_with_fuel(Seq::<_>::filter, 1);
    }
    while k < n
        invariant
            n == ids@.len(),
            n > 0,
            idv == views(ids@),
            k <= n,
            !idv.contains(reference@),
            ids_comparable(idv, task_prefix(), reference@),
            forall|j: int| 0 <= j < k ==> #[trigger] matches_ref_spec(idv[j], task_prefix(), reference@) is Ok,
            pred == ref_matcher(task_prefix(), reference@),
            views(matches@) == idv.take(k as int).filter(pred),
        decreases n - k,
    {
        assert(idv[k as int] != reference@);
        assert(idv[k as int] == ids[k as int]@);
        assert(matches_ref_reaches_suffix(idv[k as int], task_prefix(), reference@) ==> split_once_underscore(idv[k as int]) is Some);
        let m = ids[k].matches_ref(reference);
        proof {
            lemma_matches_error_uniform(idv[0], idv[k as int], task_prefix(), reference@);
            reveal_with_fuel(Seq::<_>::filter, 1);
            assert(idv.take(k + 1).drop_last() =~= idv.take(k as int));
        }
        match m {
            Ok(true) => {
                assert(pred(idv[k as int]));
                matches.push(ids[k].clone());
                assert(views(matches@) =~= idv.take(k as int).filter(pred).push(idv[k as int]));
            },
            Ok(false) => {
                assert(!pred(idv[k as int]));
            },
            Err(e) => {
                proof {
                    lemma_matches_error_uniform(idv[0], idv[k as int], task_prefix(), reference@);
                }
                return Err(ReferenceError::InvalidId(e));
            },
        }
        k = k + 1;
    }
    assert(idv.take(n as int) =~= idv);
    if matches.len() == 0 {
        Err(ReferenceError::TaskNotFound(String::from_str(reference)))
    } else if matches.len() == 1 {
        Ok(matches[0].clone())
    } else {
        Err(ReferenceError::AmbiguousTaskReference { input: String::from_str(reference), matches })
    }
}


pub open spec fn space_ids(spaces: Seq<SpaceView>) -> Seq<Seq<char>> {
    spaces.map_values(|s: SpaceView| s.id)
}

pub open spec fn slug_matcher(reference: Seq<char>) -> spec_fn(SpaceView) -> bool {
    |s: SpaceView| s.slug == reference
}

/// The ids of the spaces whose slug is `reference`, in order.
pub open spec fn slug_matches(spaces: Seq<SpaceView>, reference: Seq<char>) -> Seq<Seq<char>> {
    space_ids(spaces.filter(slug_matcher(reference)))
}

/// The ids picked out by prefix matching, or none when the reference is not
/// a well-formed short id.
pub open spec fn space_prefix_matches(spaces: Seq<SpaceView>, reference: Seq<char>) -> Seq<Seq<char>> {
    let ids = space_ids(spaces);
    if ids.len() > 0 && matches_ref_spec(ids[0], space_prefix(), reference) is Ok {
        prefix_matches(ids, space_prefix(), reference)
    } else {
        Seq::empty()
    }
}

/// Resolving a space reference: an exact id wins, then a short id matching
/// at least one id, then the slug.
pub open spec fn resolve_space_ref_spec(reference: Seq<char>, spaces: Seq<SpaceView>) -> RefOutcome {
    if space_ids(spaces).contains(reference) {
        RefOutcome::Found(reference)
    } else {
        let idm = space_prefix_matches(spaces, reference);
        if idm.len() == 1 {
            RefOutcome::Found(idm[0])
        } else if idm.len() > 1 {
            RefOutcome::Ambiguous(idm)
        } else {
            let sm = slug_matches(spaces, reference);
            if sm.len() == 0 {
                RefOutcome::NotFound
            } else if sm.len() == 1 {
                RefOutcome::Found(sm[0])
            } else {
                RefOutcome::Ambiguous(sm)
            }
        }
    }
}

/// Resolves a space reference among `spaces`: full id, short id or slug.
pub fn resolve_space_ref(reference: &str, spaces: &[Space]) -> (r: Result<SpaceId, ReferenceError>)
    requires
        ids_comparable(space_ids(views(spaces@)), space_prefix(), reference@),
    ensures
        space_ref_outcome(r) == resolve_space_ref_spec(reference@, views(spaces@)),
        r matches Err(e) ==> e.carries_input(reference@) && (e is AmbiguousSpaceReference || e is SpaceNotFound),
{
    let ghost sv = views(spaces@);
    let ghost idv = space_ids(sv);
    let n = spaces.len();
    let mut i: usize = 0;
    while i < n
        invariant
            n == spaces@.len(),
            sv == views(spaces@),
            idv == space_ids(sv),
            i <= n,
            forall|j: int| 0 <= j < i ==> idv[j] != reference@,
        decreases n - i,
    {
        if str_eq(spaces[i].id.as_str(), reference) {
            assert(idv[i as int] == reference@);
            assert(idv.contains(reference@));
            return Ok(spaces[i].id.clone());
        }
        i = i + 1;
    }
    assert(!idv.contains(reference@));
    let mut id_matches: Vec<SpaceId> = Vec::new();
    let mut failed = false;
    let ghost pred = ref_matcher(space_prefix(), reference@);
    let mut k: usize = 0;
    assert(idv.take(0).filter(pred) =~= Seq::<Seq<char>>::empty()) by {
        reveal_with_fuel(Seq::<_>::filter, 1);
    }
    while k < n && !failed
        invariant
            n == spaces@.len(),
            sv == views(spaces@),
            idv == space_ids(sv),
            k <= n,
            !idv.contains(reference@),
            ids_comparable(idv, space_prefix(), reference@),
            pred == ref_matcher(space_prefix(), reference@),
            !failed ==> forall|j: int| 0 <= j < k ==> #[trigger] matches_ref_spec(idv[j], space_prefix(), reference@) is Ok,
            !failed ==> views(id_matches@) == idv.take(k as int).filter(pred),
            failed ==> n > 0 && matches_ref_spec(idv[0], space_prefix(), reference@) is Err,
        decreases n - k,
    {
        assert(idv[k as int] != reference@);
        assert(idv[k as int] == spaces[k as int].id@);
        assert(matches_ref_reaches_suffix(idv[k as int], space_prefix(), reference@) ==> split_once_underscore(idv[k as int]) is Some);
        let m = spaces[k].id.matches_ref(reference);
        proof {
            lemma_matches_error_uniform(idv[0], idv[k as int], space_prefix(), reference@);
            reveal_with_fuel(Seq::<_>::filter, 1);
            assert(idv.take(k + 1).drop_last() =~= idv.take(k as int));
        }
        match m {
            Ok(true) => {
                assert(pred(idv[k as int]));
                id_matches.push(spaces[k].id.clone());
                assert(views(id_matches@) =~= idv.take(k as int).filter(pred).push(idv[k as int]));
            },
            Ok(false) => {
                assert(!pred(idv[k as int]));
            },
            Err(_) => {
                failed = true;
            },
        }
        k = k + 1;
    }
    if !failed {
        assert(idv.take(n as int) =~= idv);
        if id_matches.len() == 1 {
            return Ok(id_matches[0].clone());
        }
        if id_matches.len() > 1 {
            return Err(ReferenceError::AmbiguousSpaceReference { input: String::from_str(reference), matches: id_matches });
        }
    }
    let ghost spred = slug_matcher(reference@);
    let mut slug_ids: Vec<SpaceId> = Vec::new();
    let mut j: usize = 0;
    assert(sv.take(0).filter(spred) =~= Seq::<SpaceView>::empty()) by {
        reveal_with_fuel(Seq::<_>::filter, 1);
    }
    while j < n
        invariant
            n == spaces@.len(),
            sv == views(spaces@),
            j <= n,
            spred == slug_matcher(reference@),
            views(slug_ids@) == space_ids(sv.take(j as int).filter(spred)),
        decreases n - j,
    {
        proof {
            reveal_with_fuel(Seq::<_>::filter, 1);
            assert(sv.take(j + 1).drop_last() =~= sv.take(j as int));
        }
        if str_eq(spaces[j].slug.as_str(), reference) {
            assert(spred(sv[j as int]));
            let ghost before = sv.take(j as int).filter(spred);
            slug_ids.push(spaces[j].id.clone());
            assert(sv[j as int].id == spaces[j as int].id@);
            assert(space_ids(before.push(sv[j as int])) =~= space_ids(before).push(sv[j as int].id));
            assert(views(slug_ids@) =~= space_ids(before.push(sv[j as int])));
        } else {
            assert(!spred(sv[j as int]));
        }
        j = j + 1;
    }
    assert(sv.take(n as int) =~= sv);
    if slug_ids.len() == 0 {
        Err(ReferenceError::SpaceNotFound(String::from_str(reference)))
    } else if slug_ids.len() == 1 {
        Ok(slug_ids[0].clone())
    } else {
        Err(ReferenceError::AmbiguousSpaceReference { input: String::from_str(reference), matches: slug_ids })
    }
}


/// A space reference only ever resolves to the id of a listed space.
pub proof fn lemma_found_space_is_listed(reference: Seq<char>, spaces: Seq<SpaceView>)
    requires
        resolve_space_ref_spec(reference, spaces) is Found,
    ensures
        exists|i: int| 0 <= i < spaces.len() && spaces[i].id == resolve_space_ref_spec(reference, spaces)->Found_0,
{
    let ids = space_ids(spaces);
    let id = resolve_space_ref_spec(reference, spaces)->Found_0;
    if ids.contains(reference) {
        let i = choose|i: int| 0 <= i < ids.len() && ids[i] == reference;
        assert(spaces[i].id == id);
    } else {
        let idm = space_prefix_matches(spaces, reference);
        if idm.len() == 1 {
            assert(ids.len() > 0 && matches_ref_spec(ids[0], space_prefix(), reference) is Ok);
            assert(idm.contains(idm[0]));
            ids.lemma_filter_contains_rev(ref_matcher(space_prefix(), reference), idm[0]);
            let i = choose|i: int| 0 <= i < ids.len() && ids[i] == idm[0];
            assert(spaces[i].id == id);
        } else {
            let f = spaces.filter(slug_matcher(reference));
            assert(f.contains(f[0]));
            spaces.lemma_filter_contains_rev(slug_matcher(reference), f[0]);
            let i = choose|i: int| 0 <= i < spaces.len() && spaces[i] == f[0];
            assert(spaces[i].id == id);
        }
    }
}

} // verus!
