//! Prefixed ULID identifiers for spaces and tasks, and the reference
//! matching rules used to find them from user input.

use vstd::prelude::*;
use vstd::string::*;
use crate::text::{find_underscore, first_underscore, lemma_first_underscore_is, is_first_underscore, seq_starts_with, split_once_underscore, str_eq, str_starts_with, utf8_len, utf8_len_up_to};

verus! {

/// The number of suffix characters kept in a short id.
pub const MIN_SHORT_ID_SUFFIX_LEN: usize = 8;

/// The number of characters in a ULID's text form.
pub const ULID_LENGTH: usize = 26;

/// A character of Crockford's Base32 alphabet as the ulid crate decodes it:
/// digits and letters other than I, L, O and U, in either case.
pub open spec fn is_crockford_char(c: char) -> bool {
    ||| ('0' <= c && c <= '9')
    ||| ('A' <= c && c <= 'Z' && c != 'I' && c != 'L' && c != 'O' && c != 'U')
    ||| ('a' <= c && c <= 'z' && c != 'i' && c != 'l' && c != 'o' && c != 'u')
}

/// A character of the upper-case alphabet that the ulid crate encodes with.
pub open spec fn is_crockford_upper(c: char) -> bool {
    ||| ('0' <= c && c <= '9')
    ||| ('A' <= c && c <= 'Z' && c != 'I' && c != 'L' && c != 'O' && c != 'U')
}

/// Text that `ulid::Ulid::from_string` accepts.
pub open spec fn is_ulid_text(s: Seq<char>) -> bool {
    &&& s.len() == ULID_LENGTH
    &&& forall|i: int| 0 <= i < s.len() ==> #[trigger] is_crockford_char(s[i])
}

/// Calls `ulid::Ulid::new` and renders the ULID as text. The ULID mixes the
/// clock and random bits, so only its shape is stated: 26 characters of the
/// upper-case Crockford alphabet, as `base32::encode` writes them.
#[verifier::external_body]
fn fresh_ulid_text() -> (s: String)
    ensures
        s@.len() == ULID_LENGTH,
        forall|i: int| 0 <= i < s@.len() ==> #[trigger] is_crockford_upper(s@[i]),
{
    ulid::Ulid::new().to_string()
}

/// The error `ulid::Ulid::from_string` reports, carried as an opaque value.
#[verifier::external_type_specification]
#[verifier::external_body]
pub struct ExDecodeError(ulid::DecodeError);

/// Calls `ulid::Ulid::from_string`. `base32::decode` in the ulid crate accepts
/// exactly 26 bytes, each of them a Crockford character in either case, and
/// rejects everything else.
#[verifier::external_body]
fn decode_ulid(text: &str) -> (r: Result<u128, ulid::DecodeError>)
    ensures
        r is Ok <==> is_ulid_text(text@),
{
    match ulid::Ulid::from_string(text) {
        Ok(value) => Ok(value.0),
        Err(error) => Err(error),
    }
}

/// Errors raised when an id or an id reference is malformed.
#[derive(Debug, Clone, PartialEq, Eq)]
pub enum IdError {
    InvalidPrefix { kind: &'static str, value: String, expected_prefix: &'static str },
    InvalidUlid { kind: &'static str, value: String },
    InvalidReferenceLength { kind: &'static str, value: String, min: usize, max: usize },
}

/// The id of a space: `spc_` followed by a ULID.
#[derive(Debug)]
pub struct SpaceId(pub String);

/// The id of a task: `tsk_` followed by a ULID.
#[derive(Debug)]
pub struct TaskId(pub String);

impl View for SpaceId {
    type V = Seq<char>;

    open spec fn view(&self) -> Seq<char> {
        self.0@
    }
}

impl View for TaskId {
    type V = Seq<char>;

    open spec fn view(&self) -> Seq<char> {
        self.0@
    }
}

impl Clone for SpaceId {
    fn clone(&self) -> (r: Self)
        ensures
            r@ == self@,
    {
        SpaceId(self.0.clone())
    }
}

impl Clone for TaskId {
    fn clone(&self) -> (r: Self)
        ensures
            r@ == self@,
    {
        TaskId(self.0.clone())
    }
}

pub open spec fn space_prefix() -> Seq<char> {
    seq!['s', 'p', 'c']
}

pub open spec fn task_prefix() -> Seq<char> {
    seq!['t', 's', 'k']
}

pub open spec fn space_kind() -> Seq<char> {
    seq!['s', 'p', 'a', 'c', 'e']
}

pub open spec fn task_kind() -> Seq<char> {
    seq!['t', 'a', 's', 'k']
}

/// `prefix_` followed by a valid ULID text.
pub open spec fn is_long_id(s: Seq<char>, prefix: Seq<char>) -> bool {
    split_once_underscore(s) matches Some((p, suffix)) && p == prefix && is_ulid_text(suffix)
}

/// What follows the first `'_'`, or the whole text when there is none.
pub open spec fn id_suffix(s: Seq<char>) -> Seq<char> {
    match split_once_underscore(s) {
        Some((_, suffix)) => suffix,
        None => s,
    }
}

/// A short id can be cut from `s`: its suffix has at least eight characters
/// and the first eight are ASCII, so the cut falls on a character boundary.
pub open spec fn short_id_defined(s: Seq<char>) -> bool {
    &&& id_suffix(s).len() >= MIN_SHORT_ID_SUFFIX_LEN
    &&& forall|i: int|
        0 <= i < MIN_SHORT_ID_SUFFIX_LEN ==> '\0' <= #[trigger] id_suffix(s)[i] <= '\u{7f}'
}

/// The short form of an id: the prefix, `_`, and the first eight suffix characters.
pub open spec fn short_id_of(s: Seq<char>, prefix: Seq<char>) -> Seq<char> {
    prefix + seq!['_'] + id_suffix(s).subrange(0, MIN_SHORT_ID_SUFFIX_LEN as int)
}

/// The outcome of matching a reference against a full id.
pub open spec fn matches_ref_spec(full_id: Seq<char>, expected_prefix: Seq<char>, reference: Seq<char>) -> Result<bool, IdErrorKind> {
    if reference == full_id {
        Ok(true)
    } else {
        match split_once_underscore(reference) {
            None => Err(IdErrorKind::InvalidPrefix),
            Some((p, suffix)) => {
                if p != expected_prefix {
                    Err(IdErrorKind::InvalidPrefix)
                } else if !(MIN_SHORT_ID_SUFFIX_LEN <= utf8_len(suffix) <= ULID_LENGTH) {
                    Err(IdErrorKind::InvalidReferenceLength)
                } else {
                    Ok(seq_starts_with(id_suffix(full_id), suffix))
                }
            }
        }
    }
}



/// An id error with all it says: the entity (`"space"` or `"task"`), the
/// offending text, and the prefix or the bounds the text missed.
pub enum IdErrorView {
    InvalidPrefix { entity: Seq<char>, value: Seq<char>, expected_prefix: Seq<char> },
    InvalidUlid { entity: Seq<char>, value: Seq<char> },
    InvalidReferenceLength { entity: Seq<char>, value: Seq<char>, min: nat, max: nat },
}

impl View for IdError {
    type V = IdErrorView;

    open spec fn view(&self) -> IdErrorView {
        match self {
            IdError::InvalidPrefix { kind, value, expected_prefix } => IdErrorView::InvalidPrefix {
                entity: kind@,
                value: value@,
                expected_prefix: expected_prefix@,
            },
            IdError::InvalidUlid { kind, value } => IdErrorView::InvalidUlid { entity: kind@, value: value@ },
            IdError::InvalidReferenceLength { kind, value, min, max } => IdErrorView::InvalidReferenceLength {
                entity: kind@,
                value: value@,
                min: *min as nat,
                max: *max as nat,
            },
        }
    }
}

/// The error a malformed task reference `value` raises, of the given kind.
pub open spec fn task_id_error(kind: IdErrorKind, value: Seq<char>) -> IdErrorView {
    match kind {
        IdErrorKind::InvalidPrefix => IdErrorView::InvalidPrefix { entity: task_kind(), value, expected_prefix: task_prefix() },
        IdErrorKind::InvalidUlid => IdErrorView::InvalidUlid { entity: task_kind(), value },
        IdErrorKind::InvalidReferenceLength => IdErrorView::InvalidReferenceLength {
            entity: task_kind(),
            value,
            min: MIN_SHORT_ID_SUFFIX_LEN as nat,
            max: ULID_LENGTH as nat,
        },
    }
}

/// The variant of an [`IdError`], without its payload.
#[derive(Debug, Clone, Copy, PartialEq, Eq)]
pub enum IdErrorKind {
    InvalidPrefix,
    InvalidUlid,
    InvalidReferenceLength,
}

impl IdError {
    pub open spec fn kind_of(self) -> IdErrorKind {
        match self {
            IdError::InvalidPrefix { .. } => IdErrorKind::InvalidPrefix,
            IdError::InvalidUlid { .. } => IdErrorKind::InvalidUlid,
            IdError::InvalidReferenceLength { .. } => IdErrorKind::InvalidReferenceLength,
        }
    }

    /// The offending text carried by the error.
    pub open spec fn value_of(self) -> Seq<char> {
        match self {
            IdError::InvalidPrefix { value, .. } => value@,
            IdError::InvalidUlid { value, .. } => value@,
            IdError::InvalidReferenceLength { value, .. } => value@,
        }
    }

    /// The entity kind (`"space"` or `"task"`) carried by the error.
    pub open spec fn entity_of(self) -> Seq<char> {
        match self {
            IdError::InvalidPrefix { kind, .. } => kind@,
            IdError::InvalidUlid { kind, .. } => kind@,
            IdError::InvalidReferenceLength { kind, .. } => kind@,
        }
    }

    /// Whether the fixed fields of the error are those the validation fills in.
    pub open spec fn fields_well_formed(self, expected_prefix: Seq<char>) -> bool {
        match self {
            IdError::InvalidPrefix { expected_prefix: p, .. } => p@ == expected_prefix,
            IdError::InvalidUlid { .. } => true,
            IdError::InvalidReferenceLength { min, max, .. } => min == MIN_SHORT_ID_SUFFIX_LEN
                && max == ULID_LENGTH,
        }
    }
}

/// The outcome of checking that `value` is a full id with `expected_prefix`.
pub open spec fn validate_long_id_spec(value: Seq<char>, expected_prefix: Seq<char>) -> Result<(), IdErrorKind> {
    match split_once_underscore(value) {
        None => Err(IdErrorKind::InvalidPrefix),
        Some((p, suffix)) => if p != expected_prefix {
            Err(IdErrorKind::InvalidPrefix)
        } else if !is_ulid_text(suffix) {
            Err(IdErrorKind::InvalidUlid)
        } else {
            Ok(())
        },
    }
}

/// Splits `s` at its first `'_'`, returning both halves.
fn split_underscore(s: &str) -> (r: Option<(&str, &str)>)
    ensures
        r is None ==> split_once_underscore(s@) is None,
        r matches Some((a, b)) ==> split_once_underscore(s@) == Some((a@, b@)),
{
    match find_underscore(s) {
        None => None,
        Some(i) => {
            let n = s.unicode_len();
            let head = s.substring_char(0, i);
            let tail = s.substring_char(i + 1, n);
            Some((head, tail))
        },
    }
}

/// The short id of `value`, written with `prefix`.
fn short_id(value: &str, prefix: &str) -> (r: String)
    requires
        short_id_defined(value@),
    ensures
        r@ == short_id_of(value@, prefix@),
{
    let suffix = match split_underscore(value) {
        Some((_, suffix)) => suffix,
        None => value,
    };
    let head = suffix.substring_char(0, MIN_SHORT_ID_SUFFIX_LEN);
    let mut out = String::from_str(prefix);
    out.append("_");
    out.append(head);
    proof {
        reveal_strlit("_");
        assert("_"@ =~= seq!['_']);
    }
    out
}

/// Whether `value` has a short form: at least eight characters after its
/// first `_` (or in all, without one), the first eight ASCII.
pub fn short_id_available(value: &str) -> (r: bool)
    ensures
        r == short_id_defined(value@),
{
    let suffix = match split_underscore(value) {
        Some((_, suffix)) => suffix,
        None => value,
    };
    if suffix.unicode_len() < MIN_SHORT_ID_SUFFIX_LEN {
        return false;
    }
    let mut i: usize = 0;
    while i < MIN_SHORT_ID_SUFFIX_LEN
        invariant
            suffix@ == id_suffix(value@),
            suffix@.len() >= MIN_SHORT_ID_SUFFIX_LEN,
            i <= MIN_SHORT_ID_SUFFIX_LEN,
            forall|j: int| 0 <= j < i ==> '\0' <= #[trigger] id_suffix(value@)[j] <= '\u{7f}',
        decreases MIN_SHORT_ID_SUFFIX_LEN - i,
    {
        let c = suffix.get_char(i);
        if (c as u32) > 127 {
            return false;
        }
        i = i + 1;
    }
    true
}

/// Checks that `value` is `expected_prefix`, `_` and a ULID.
fn validate_long_id(value: &str, expected_prefix: &'static str, kind: &'static str) -> (r: Result<(), IdError>)
    ensures
        r matches Ok(_) ==> validate_long_id_spec(value@, expected_prefix@) is Ok,
        r matches Err(e) ==> validate_long_id_spec(value@, expected_prefix@) == Err::<(), IdErrorKind>(e.kind_of())
            && e.value_of() == value@ && e.entity_of() == kind@ && e.fields_well_formed(expected_prefix@),
{
    let (prefix, suffix) = match split_underscore(value) {
        None => {
            return Err(IdError::InvalidPrefix { kind, value: String::from_str(value), expected_prefix });
        },
        Some(parts) => parts,
    };
    if !str_eq(prefix, expected_prefix) {
        return Err(IdError::InvalidPrefix { kind, value: String::from_str(value), expected_prefix });
    }
    if decode_ulid(suffix).is_err() {
        return Err(IdError::InvalidUlid { kind, value: String::from_str(value) });
    }
    Ok(())
}

/// Whether `reference` names the id `full_id`: the full id itself, or the
/// prefix, `_` and a leading part of the suffix of 8 to 26 bytes.
fn matches_ref(full_id: &str, expected_prefix: &'static str, kind: &'static str, reference: &str) -> (r: Result<bool, IdError>)
    requires
        matches_ref_reaches_suffix(full_id@, expected_prefix@, reference@) ==> split_once_underscore(full_id@) is Some,
    ensures
        r matches Ok(b) ==> matches_ref_spec(full_id@, expected_prefix@, reference@) == Ok::<bool, IdErrorKind>(b),
        r matches Err(e) ==> matches_ref_spec(full_id@, expected_prefix@, reference@) == Err::<bool, IdErrorKind>(e.kind_of())
            && e.value_of() == reference@ && e.entity_of() == kind@ && e.fields_well_formed(expected_prefix@),
{
    if str_eq(reference, full_id) {
        return Ok(true);
    }
    let (prefix, suffix) = match split_underscore(reference) {
        None => {
            return Err(IdError::InvalidPrefix { kind, value: String::from_str(reference), expected_prefix });
        },
        Some(parts) => parts,
    };
    if !str_eq(prefix, expected_prefix) {
        return Err(IdError::InvalidPrefix { kind, value: String::from_str(reference), expected_prefix });
    }
    let in_range = match utf8_len_up_to(suffix, ULID_LENGTH) {
        Some(len) => MIN_SHORT_ID_SUFFIX_LEN <= len,
        None => false,
    };
    if !in_range {
        return Err(IdError::InvalidReferenceLength {
            kind,
            value: String::from_str(reference),
            min: MIN_SHORT_ID_SUFFIX_LEN,
            max: ULID_LENGTH,
        });
    }
    let full_suffix = match split_underscore(full_id) {
        Some((_, tail)) => tail,
        None => full_id,
    };
    Ok(str_starts_with(full_suffix, suffix))
}


/// `prefix_` followed by `ulid` is a full id with that prefix.
proof fn lemma_compose_long_id(prefix: Seq<char>, ulid: Seq<char>)
    requires
        forall|i: int| 0 <= i < prefix.len() ==> prefix[i] != '_',
        ulid.len() == ULID_LENGTH,
        forall|i: int| 0 <= i < ulid.len() ==> #[trigger] is_crockford_upper(ulid[i]),
    ensures
        is_long_id(prefix + seq!['_'] + ulid, prefix),
{
    let s = prefix + seq!['_'] + ulid;
    let k = prefix.len() as int;
    assert(is_first_underscore(s, k));
    lemma_first_underscore_is(s, k);
    assert(s.subrange(0, k) =~= prefix);
    assert(s.subrange(k + 1, s.len() as int) =~= ulid);
    assert forall|i: int| 0 <= i < ulid.len() implies #[trigger] is_crockford_char(ulid[i]) by {
        assert(is_crockford_upper(ulid[i]));
    }
}

/// Builds `prefix_<fresh ULID>`.
fn fresh_long_id(prefix: &str) -> (r: String)
    requires
        forall|i: int| 0 <= i < prefix@.len() ==> prefix@[i] != '_',
    ensures
        is_long_id(r@, prefix@),
{
    let ulid = fresh_ulid_text();
    let mut out = String::from_str(prefix);
    out.append("_");
    out.append(ulid.as_str());
    proof {
        reveal_strlit("_");
        assert("_"@ =~= seq!['_']);
        lemma_compose_long_id(prefix@, ulid@);
    }
    out
}

/// A fresh operation id: `op_` followed by a new ULID.
pub fn fresh_operation_id() -> (r: String)
    ensures
        r@.len() == 3 + ULID_LENGTH,
        r@.subrange(0, 3) == "op_"@,
        forall|i: int| 3 <= i < r@.len() ==> #[trigger] is_crockford_upper(r@[i]),
{
    let ulid = fresh_ulid_text();
    let mut out = String::from_str("op_");
    out.append(ulid.as_str());
    proof {
        reveal_strlit("op_");
        assert(out@.subrange(0, 3) =~= "op_"@);
        assert forall|i: int| 3 <= i < out@.len() implies #[trigger] is_crockford_upper(out@[i]) by {
            assert(out@[i] == ulid@[i - 3]);
        }
    }
    out
}

/// The reference reaches the comparison of suffixes, the only step that
/// needs the full id to contain `'_'`.
pub open spec fn matches_ref_reaches_suffix(full_id: Seq<char>, expected_prefix: Seq<char>, reference: Seq<char>) -> bool {
    &&& reference != full_id
    &&& split_once_underscore(reference) matches Some((p, suffix))
    &&& p == expected_prefix
    &&& MIN_SHORT_ID_SUFFIX_LEN <= utf8_len(suffix) <= ULID_LENGTH
}

impl SpaceId {
    /// A fresh id, `spc_` followed by a new ULID.
    pub fn new() -> (r: Self)
        ensures
            is_long_id(r@, space_prefix()),
    {
        proof {
            reveal_strlit("spc");
            assert("spc"@ =~= space_prefix());
        }
        SpaceId(fresh_long_id("spc"))
    }

    pub fn as_str(&self) -> (r: &str)
        ensures
            r@ == self@,
    {
        self.0.as_str()
    }

    /// `spc_` and the first eight characters of the suffix.
    pub fn short_id(&self) -> (r: String)
        requires
            short_id_defined(self@),
        ensures
            r@ == short_id_of(self@, space_prefix()),
    {
        proof {
            reveal_strlit("spc");
            assert("spc"@ =~= space_prefix());
        }
        short_id(self.as_str(), "spc")
    }

    /// Whether `value` refers to this id (see [`matches_ref_spec`]).
    pub fn matches_ref(&self, value: &str) -> (r: Result<bool, IdError>)
        requires
            matches_ref_reaches_suffix(self@, space_prefix(), value@) ==> split_once_underscore(self@) is Some,
        ensures
            r matches Ok(b) ==> matches_ref_spec(self@, space_prefix(), value@) == Ok::<bool, IdErrorKind>(b),
            r matches Err(e) ==> matches_ref_spec(self@, space_prefix(), value@) == Err::<bool, IdErrorKind>(e.kind_of())
                && e.value_of() == value@ && e.entity_of() == space_kind() && e.fields_well_formed(space_prefix()),
    {
        proof {
            reveal_strlit("spc");
            reveal_strlit("space");
            assert("spc"@ =~= space_prefix());
            assert("space"@ =~= space_kind());
        }
        matches_ref(self.as_str(), "spc", "space", value)
    }

    /// Parses a full space id, checking its prefix and its ULID.
    pub fn try_from(value: &str) -> (r: Result<Self, IdError>)
        ensures
            r matches Ok(id) ==> id@ == value@ && is_long_id(value@, space_prefix()),
            r matches Err(e) ==> validate_long_id_spec(value@, space_prefix()) == Err::<(), IdErrorKind>(e.kind_of())
                && e.value_of() == value@ && e.entity_of() == space_kind() && e.fields_well_formed(space_prefix()),
    {
        proof {
            reveal_strlit("spc");
            reveal_strlit("space");
            assert("spc"@ =~= space_prefix());
            assert("space"@ =~= space_kind());
        }
        match validate_long_id(value, "spc", "space") {
            Ok(()) => Ok(SpaceId(String::from_str(value))),
            Err(e) => Err(e),
        }
    }
}

impl TaskId {
    /// A fresh id, `tsk_` followed by a new ULID.
    pub fn new() -> (r: Self)
        ensures
            is_long_id(r@, task_prefix()),
    {
        proof {
            reveal_strlit("tsk");
            assert("tsk"@ =~= task_prefix());
        }
        TaskId(fresh_long_id("tsk"))
    }

    pub fn as_str(&self) -> (r: &str)
        ensures
            r@ == self@,
    {
        self.0.as_str()
    }

    /// `tsk_` and the first eight characters of the suffix.
    pub fn short_id(&self) -> (r: String)
        requires
            short_id_defined(self@),
        ensures
            r@ == short_id_of(self@, task_prefix()),
    {
        proof {
            reveal_strlit("tsk");
            assert("tsk"@ =~= task_prefix());
        }
        short_id(self.as_str(), "tsk")
    }

    /// Whether `value` refers to this id (see [`matches_ref_spec`]).
    pub fn matches_ref(&self, value: &str) -> (r: Result<bool, IdError>)
        requires
            matches_ref_reaches_suffix(self@, task_prefix(), value@) ==> split_once_underscore(self@) is Some,
        ensures
            r matches Ok(b) ==> matches_ref_spec(self@, task_prefix(), value@) == Ok::<bool, IdErrorKind>(b),
            r matches Err(e) ==> matches_ref_spec(self@, task_prefix(), value@) == Err::<bool, IdErrorKind>(e.kind_of())
                && e.value_of() == value@ && e.entity_of() == task_kind() && e.fields_well_formed(task_prefix()),
    {
        proof {
            reveal_strlit("tsk");
            reveal_strlit("task");
            assert("tsk"@ =~= task_prefix());
            assert("task"@ =~= task_kind());
        }
        matches_ref(self.as_str(), "tsk", "task", value)
    }

    /// Parses a full task id, checking its prefix and its ULID.
    pub fn try_from(value: &str) -> (r: Result<Self, IdError>)
        ensures
            r matches Ok(id) ==> id@ == value@ && is_long_id(value@, task_prefix()),
            r matches Err(e) ==> validate_long_id_spec(value@, task_prefix()) == Err::<(), IdErrorKind>(e.kind_of())
                && e.value_of() == value@ && e.entity_of() == task_kind() && e.fields_well_formed(task_prefix()),
    {
        proof {
            reveal_strlit("tsk");
            reveal_strlit("task");
            assert("tsk"@ =~= task_prefix());
            assert("task"@ =~= task_kind());
        }
        match validate_long_id(value, "tsk", "task") {
            Ok(()) => Ok(TaskId(String::from_str(value))),
            Err(e) => Err(e),
        }
    }
}


impl Default for SpaceId {
    fn default() -> (r: Self)
        ensures
            is_long_id(r@, space_prefix()),
    {
        SpaceId::new()
    }
}

impl Default for TaskId {
    fn default() -> (r: Self)
        ensures
            is_long_id(r@, task_prefix()),
    {
        TaskId::new()
    }
}

/// The suffix of a full id is its ULID text.
pub proof fn lemma_long_id_suffix(s: Seq<char>, prefix: Seq<char>)
    requires
        is_long_id(s, prefix),
    ensures
        is_ulid_text(id_suffix(s)),
        short_id_defined(s),
{
    let suffix = id_suffix(s);
    assert forall|i: int| 0 <= i < MIN_SHORT_ID_SUFFIX_LEN implies '\0' <= #[trigger] suffix[i] <= '\u{7f}' by {
        assert(is_crockford_char(suffix[i]));
    }
}

/// A full id is exactly a text that the validation of full ids accepts, so every
/// generated id parses back.
pub proof fn law_long_ids_parse(s: Seq<char>, prefix: Seq<char>)
    ensures
        validate_long_id_spec(s, prefix) is Ok <==> is_long_id(s, prefix),
{
}

/// A full id is matched by itself and by its own short id.
pub proof fn law_short_id_matches_its_id(s: Seq<char>, prefix: Seq<char>)
    requires
        is_long_id(s, prefix),
        forall|i: int| 0 <= i < prefix.len() ==> prefix[i] != '_',
    ensures
        matches_ref_spec(s, prefix, s) == Ok::<bool, IdErrorKind>(true),
        matches_ref_spec(s, prefix, short_id_of(s, prefix)) == Ok::<bool, IdErrorKind>(true),
{
    lemma_long_id_suffix(s, prefix);
    let short = short_id_of(s, prefix);
    if short != s {
        let head = id_suffix(s).subrange(0, MIN_SHORT_ID_SUFFIX_LEN as int);
        let k = prefix.len() as int;
        assert(is_first_underscore(short, k));
        lemma_first_underscore_is(short, k);
        assert(short.subrange(0, k) =~= prefix);
        assert(short.subrange(k + 1, short.len() as int) =~= head);
        assert(vstd::utf8::is_ascii_chars(head));
        vstd::utf8::is_ascii_chars_encode_utf8(head);
        assert(seq_starts_with(id_suffix(s), head));
    }
}

} // verus!
