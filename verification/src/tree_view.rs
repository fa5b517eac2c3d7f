//! What the interactive view shows of a task listing: collapsed subtrees,
//! the text filter, and the small labels and measures of the screen.

use vstd::prelude::*;
use vstd::string::*;
use crate::hierarchy::{collect_subtree_ids, contains_task_id, id_set, subtree_of};
use crate::ids::{short_id_defined, short_id_of, task_prefix, TaskId};
use crate::model::{SortMode, Task, TaskLogView, TaskStatus, TaskView};
use crate::queries::{TaskListEntry, TaskListEntryView};
use crate::text::{is_white_space, char_is_white_space};
use crate::util::views;

verus! {

// ---------------------------------------------------------------------------
// Labels and measures

pub open spec fn status_text(status: TaskStatus) -> Seq<char> {
    match status {
        TaskStatus::Todo => "todo"@,
        TaskStatus::InProgress => "in_progress"@,
        TaskStatus::Done => "done"@,
        TaskStatus::Close => "close"@,
    }
}

/// The name of a status.
pub fn status_label(status: TaskStatus) -> (r: &'static str)
    ensures
        r@ == status_text(status),
{
    match status {
        TaskStatus::Todo => "todo",
        TaskStatus::InProgress => "in_progress",
        TaskStatus::Done => "done",
        TaskStatus::Close => "close",
    }
}

pub open spec fn marker_text(status: TaskStatus) -> Seq<char> {
    match status {
        TaskStatus::Todo => "[ ]"@,
        TaskStatus::InProgress => "[~]"@,
        TaskStatus::Done => "[x]"@,
        TaskStatus::Close => "[c]"@,
    }
}

/// The check box drawn before a task.
pub fn status_marker(status: TaskStatus) -> (r: &'static str)
    ensures
        r@ == marker_text(status),
{
    match status {
        TaskStatus::Todo => "[ ]",
        TaskStatus::InProgress => "[~]",
        TaskStatus::Done => "[x]",
        TaskStatus::Close => "[c]",
    }
}

pub open spec fn sort_text(sort: SortMode) -> Seq<char> {
    match sort {
        SortMode::Created => "created"@,
        SortMode::Updated => "updated"@,
        SortMode::Status => "status"@,
        SortMode::Manual => "manual"@,
    }
}

/// The name of a sort mode.
pub fn sort_label(sort: SortMode) -> (r: &'static str)
    ensures
        r@ == sort_text(sort),
{
    match sort {
        SortMode::Created => "created",
        SortMode::Updated => "updated",
        SortMode::Status => "status",
        SortMode::Manual => "manual",
    }
}

/// The height of the detail panel for a screen of `total_height` rows.
pub fn detail_panel_height(total_height: u16) -> (r: u16)
    ensures
        r == (if total_height >= 26 {
            11
        } else if total_height >= 21 {
            9
        } else if total_height >= 17 {
            7
        } else if total_height >= 10 {
            total_height - 5
        } else {
            5
        }),
{
    if total_height >= 26 {
        11
    } else if total_height >= 21 {
        9
    } else if total_height >= 17 {
        7
    } else {
        let rest = if total_height >= 5 { total_height - 5 } else { 0 };
        if rest > 5 {
            rest
        } else {
            5
        }
    }
}

/// A text cut to `max_width` characters; a cut text longer than three
/// characters ends in `...`.
pub open spec fn truncated(value: Seq<char>, max_width: nat) -> Seq<char> {
    if value.len() <= max_width {
        value
    } else if max_width <= 3 {
        value.take(max_width as int)
    } else {
        value.take(max_width - 3) + "..."@
    }
}

/// Law: a truncated text never holds more than `max_width` characters, and
/// a text that fits is kept whole.
pub proof fn law_truncated_fits(value: Seq<char>, max_width: nat)
    ensures
        truncated(value, max_width).len() <= max_width,
        value.len() <= max_width ==> truncated(value, max_width) == value,
{
    reveal_strlit("...");
}

pub fn truncate_text(value: &str, max_width: usize) -> (r: String)
    ensures
        r@ == truncated(value@, max_width as nat),
{
    let n = value.unicode_len();
    if n <= max_width {
        return String::from_str(value);
    }
    if max_width <= 3 {
        let head = value.substring_char(0, max_width);
        assert(head@ =~= value@.take(max_width as int));
        return String::from_str(head);
    }
    let head = value.substring_char(0, max_width - 3);
    let mut out = String::from_str(head);
    out.append("...");
    assert(out@ =~= value@.take(max_width - 3) + "..."@);
    out
}

// ---------------------------------------------------------------------------
// Collapsed subtrees

#[derive(Debug)]
pub struct VisibleTaskEntry {
    pub task: Task,
    pub depth: usize,
    pub child_count: usize,
    pub is_expanded: bool,
}

pub struct VisibleTaskEntryView {
    pub task: TaskView,
    pub depth: nat,
    pub child_count: nat,
    pub is_expanded: bool,
}

impl View for VisibleTaskEntry {
    type V = VisibleTaskEntryView;

    open spec fn view(&self) -> VisibleTaskEntryView {
        VisibleTaskEntryView {
            task: self.task@,
            depth: self.depth as nat,
            child_count: self.child_count as nat,
            is_expanded: self.is_expanded,
        }
    }
}

/// The entries shown when only the expanded tasks show their subtrees, and
/// the depth below which entries are hidden at the end of the scan.
pub open spec fn visible_scan(entries: Seq<TaskListEntryView>, expanded: Set<Seq<char>>) -> (Seq<VisibleTaskEntryView>, Option<nat>)
    decreases entries.len(),
{
    if entries.len() == 0 {
        (Seq::empty(), None)
    } else {
        let (vis, hidden) = visible_scan(entries.drop_last(), expanded);
        let e = entries.last();
        if hidden matches Some(d) && e.depth > d {
            (vis, hidden)
        } else {
            let open = e.child_count == 0 || expanded.contains(e.task.id);
            (
                vis.push(VisibleTaskEntryView { task: e.task, depth: e.depth, child_count: e.child_count, is_expanded: open }),
                if e.child_count > 0 && !open { Some(e.depth) } else { None },
            )
        }
    }
}

/// Every entry after `a` and before `i` lies deeper than `a`: in a listing
/// in tree order, the entries up to `i` are still inside `a`'s subtree.
pub open spec fn open_below(entries: Seq<TaskListEntryView>, a: int, i: int) -> bool {
    forall|k: int| a < k < i ==> #[trigger] entries[k].depth > entries[a].depth
}

/// Entry `a` of the listing holds entry `i` in its subtree: it comes
/// first, lies higher, and every entry between them lies deeper than it.
pub open spec fn holds_in_subtree(entries: Seq<TaskListEntryView>, a: int, i: int) -> bool {
    &&& 0 <= a < i < entries.len()
    &&& entries[a].depth < entries[i].depth
    &&& open_below(entries, a, i)
}

/// A task with children that is not expanded.
pub open spec fn is_collapsed(e: TaskListEntryView, expanded: Set<Seq<char>>) -> bool {
    e.child_count > 0 && !expanded.contains(e.task.id)
}

/// Entry `i` lies in the subtree of a collapsed task.
pub open spec fn under_collapsed(entries: Seq<TaskListEntryView>, expanded: Set<Seq<char>>, i: int) -> bool {
    exists|a: int| #[trigger] holds_in_subtree(entries, a, i) && is_collapsed(entries[a], expanded)
}

/// The row of an entry: the entry, marked expanded unless collapsed.
pub open spec fn row_of(e: TaskListEntryView, expanded: Set<Seq<char>>) -> VisibleTaskEntryView {
    VisibleTaskEntryView { task: e.task, depth: e.depth, child_count: e.child_count, is_expanded: !is_collapsed(e, expanded) }
}

/// The rows of the first `m` entries of the listing that no collapsed
/// task hides, in listing order.
pub open spec fn rows_not_hidden(entries: Seq<TaskListEntryView>, expanded: Set<Seq<char>>, m: int) -> Seq<VisibleTaskEntryView>
    decreases m,
{
    if m <= 0 {
        Seq::empty()
    } else if under_collapsed(entries, expanded, m - 1) {
        rows_not_hidden(entries, expanded, m - 1)
    } else {
        rows_not_hidden(entries, expanded, m - 1).push(row_of(entries[m - 1], expanded))
    }
}

proof fn lemma_scan_rows(entries: Seq<TaskListEntryView>, expanded: Set<Seq<char>>, m: int)
    requires
        0 <= m <= entries.len(),
    ensures
        ({
            let (vis, h) = visible_scan(entries.take(m), expanded);
            &&& vis == rows_not_hidden(entries, expanded, m)
            &&& h matches Some(d) ==> exists|a: int| 0 <= a < m && #[trigger] open_below(entries, a, m)
                && is_collapsed(entries[a], expanded) && entries[a].depth == d
            &&& h matches Some(d) ==> forall|a: int| 0 <= a < m && #[trigger] open_below(entries, a, m)
                && is_collapsed(entries[a], expanded) ==> entries[a].depth >= d
            &&& h is None ==> forall|a: int| 0 <= a < m && #[trigger] open_below(entries, a, m) ==> !is_collapsed(entries[a], expanded)
            &&& m < entries.len() ==> (under_collapsed(entries, expanded, m) <==> (h matches Some(d) && entries[m].depth > d))
            &&& forall|j: int| 0 <= j < m && !under_collapsed(entries, expanded, j) ==> vis.contains(#[trigger] row_of(entries[j], expanded))
            &&& forall|x: VisibleTaskEntryView| vis.contains(x) ==> exists|j: int| 0 <= j < m && !under_collapsed(entries, expanded, j)
                && x == #[trigger] row_of(entries[j], expanded)
        }),
    decreases m,
{
    let p = entries.take(m);
    let (vis, h) = visible_scan(p, expanded);
    if m > 0 {
        let m0 = m - 1;
        lemma_scan_rows(entries, expanded, m0);
        assert(p.drop_last() =~= entries.take(m0));
        let (vis0, h0) = visible_scan(entries.take(m0), expanded);
        let e = entries[m0];
        assert(p.last() == e);
        assert forall|a: int| 0 <= a < m0 implies (#[trigger] open_below(entries, a, m)
            <==> (open_below(entries, a, m0) && entries[m0].depth > entries[a].depth)) by {
            if open_below(entries, a, m) {
                assert forall|k: int| a < k < m0 implies #[trigger] entries[k].depth > entries[a].depth by {
                    assert(a < k < m);
                }
                assert(a < m0 < m);
            }
        }
        assert(open_below(entries, m0, m));
        if h0 is Some && e.depth > h0->0 {
            assert(under_collapsed(entries, expanded, m0));
            assert(vis == vis0 && h == h0);
            let a0 = choose|a: int| 0 <= a < m0 && #[trigger] open_below(entries, a, m0)
                && is_collapsed(entries[a], expanded) && entries[a].depth == h0->0;
            assert(open_below(entries, a0, m));
        } else {
            assert(!under_collapsed(entries, expanded, m0));
            assert(vis == vis0.push(row_of(e, expanded)));
            assert forall|a: int| 0 <= a < m0 && #[trigger] open_below(entries, a, m) implies !is_collapsed(entries[a], expanded) by {
                if is_collapsed(entries[a], expanded) {
                    assert(holds_in_subtree(entries, a, m0));
                }
            }
            assert forall|j: int| 0 <= j < m && !under_collapsed(entries, expanded, j) implies vis.contains(#[trigger] row_of(entries[j], expanded)) by {
                if j < m0 {
                    assert(vis0.contains(row_of(entries[j], expanded)));
                    let q = choose|q: int| 0 <= q < vis0.len() && vis0[q] == row_of(entries[j], expanded);
                    assert(vis[q] == vis0[q]);
                } else {
                    assert(vis[vis0.len() as int] == row_of(e, expanded));
                }
            }
            assert forall|x: VisibleTaskEntryView| vis.contains(x) implies exists|j: int| 0 <= j < m && !under_collapsed(entries, expanded, j)
                && x == #[trigger] row_of(entries[j], expanded) by {
                let q = choose|q: int| 0 <= q < vis.len() && vis[q] == x;
                if q < vis0.len() {
                    assert(vis0[q] == x);
                    assert(vis0.contains(x));
                } else {
                    assert(x == row_of(entries[m0], expanded));
                }
            }
        }
    } else {
        assert(p =~= Seq::<TaskListEntryView>::empty());
    }
    if m < entries.len() {
        if under_collapsed(entries, expanded, m) {
            let a = choose|a: int| #[trigger] holds_in_subtree(entries, a, m) && is_collapsed(entries[a], expanded);
            assert(open_below(entries, a, m));
        }
        if h is Some && entries[m].depth > h->0 {
            let a0 = choose|a: int| 0 <= a < m && #[trigger] open_below(entries, a, m)
                && is_collapsed(entries[a], expanded) && entries[a].depth == h->0;
            assert(holds_in_subtree(entries, a0, m));
        }
    }
}

/// Law: a row shows exactly when no collapsed task holds it in its
/// subtree. Every entry outside the subtrees of collapsed tasks is among
/// the visible rows (so the children of an expanded task that shows are
/// shown, whatever collapsed tasks came before it), every visible row is
/// the row of such an entry, and the rows are exactly those entries, once
/// each, in listing order.
pub proof fn law_rows_show_unless_collapsed_above(entries: Seq<TaskListEntryView>, expanded: Set<Seq<char>>)
    ensures
        forall|j: int| 0 <= j < entries.len() && !under_collapsed(entries, expanded, j)
            ==> visible_scan(entries, expanded).0.contains(#[trigger] row_of(entries[j], expanded)),
        forall|x: VisibleTaskEntryView| visible_scan(entries, expanded).0.contains(x)
            ==> exists|j: int| 0 <= j < entries.len() && !under_collapsed(entries, expanded, j) && x == #[trigger] row_of(entries[j], expanded),
        visible_scan(entries, expanded).0 == rows_not_hidden(entries, expanded, entries.len() as int),
{
    lemma_scan_rows(entries, expanded, entries.len() as int);
    assert(entries.take(entries.len() as int) =~= entries);
}

/// The entries of a listing that show when collapsed tasks hide their
/// subtrees; a task without children counts as expanded.
pub fn build_visible_tasks(entries: &Vec<TaskListEntry>, expanded_ids: &Vec<TaskId>) -> (r: Vec<VisibleTaskEntry>)
    ensures
        views(r@) == visible_scan(views(entries@), id_set(expanded_ids@)).0,
        forall|j: int| 0 <= j < entries@.len() && !under_collapsed(views(entries@), id_set(expanded_ids@), j)
            ==> views(r@).contains(#[trigger] row_of(views(entries@)[j], id_set(expanded_ids@))),
        forall|x: VisibleTaskEntryView| views(r@).contains(x) ==> exists|j: int| 0 <= j < entries@.len()
            && !under_collapsed(views(entries@), id_set(expanded_ids@), j) && x == #[trigger] row_of(views(entries@)[j], id_set(expanded_ids@)),
        views(r@) == rows_not_hidden(views(entries@), id_set(expanded_ids@), entries@.len() as int),
{
    let ghost ev = views(entries@);
    let ghost ex = id_set(expanded_ids@);
    proof {
        law_rows_show_unless_collapsed_above(ev, ex);
    }
    let mut visible: Vec<VisibleTaskEntry> = Vec::new();
    let mut hidden_depth: Option<usize> = None;
    let n = entries.len();
    let mut i: usize = 0;
    assert(ev.take(0) =~= Seq::<TaskListEntryView>::empty());
    assert(views(visible@) =~= Seq::<VisibleTaskEntryView>::empty());
    while i < n
        invariant
            n == entries@.len(),
            ev == views(entries@),
            ex == id_set(expanded_ids@),
            i <= n,
            views(visible@) == visible_scan(ev.take(i as int), ex).0,
            (match hidden_depth { Some(d) => Some(d as nat), None => None::<nat> }) == visible_scan(ev.take(i as int), ex).1,
        decreases n - i,
    {
        proof {
            assert(ev.take(i + 1).drop_last() =~= ev.take(i as int));
            assert(ev.take(i + 1).last() == ev[i as int]);
            assert(ev[i as int] == entries@[i as int]@);
        }
        let entry = &entries[i];
        let skip = match hidden_depth {
            Some(d) => entry.depth > d,
            None => false,
        };
        if !skip {
            let open = entry.child_count == 0 || contains_task_id(expanded_ids, &entry.task.id);
            let ghost before = views(visible@);
            visible.push(VisibleTaskEntry { task: entry.task.clone(), depth: entry.depth, child_count: entry.child_count, is_expanded: open });
            assert(views(visible@) =~= before.push(VisibleTaskEntryView {
                task: ev[i as int].task,
                depth: ev[i as int].depth,
                child_count: ev[i as int].child_count,
                is_expanded: open,
            }));
            hidden_depth = if entry.child_count > 0 && !open { Some(entry.depth) } else { None };
        }
        i = i + 1;
    }
    assert(ev.take(n as int) =~= ev);
    visible
}

/// The position of the first shown entry of the task.
pub fn index_of_task(entries: &Vec<VisibleTaskEntry>, task_id: &TaskId) -> (r: Option<usize>)
    ensures
        match r {
            Some(i) => i < entries@.len() && entries@[i as int]@.task.id == task_id@
                && forall|j: int| 0 <= j < i ==> entries@[j]@.task.id != task_id@,
            None => forall|j: int| 0 <= j < entries@.len() ==> entries@[j]@.task.id != task_id@,
        },
{
    let n = entries.len();
    let mut i: usize = 0;
    while i < n
        invariant
            n == entries@.len(),
            i <= n,
            forall|j: int| 0 <= j < i ==> entries@[j]@.task.id != task_id@,
        decreases n - i,
    {
        if entries[i].task.id.0 == task_id.0 {
            return Some(i);
        }
        i = i + 1;
    }
    None
}

// ---------------------------------------------------------------------------
// The text filter

/// The lower-case form of a text, as `str::to_lowercase` gives it.
pub uninterp spec fn lowercase(s: Seq<char>) -> Seq<char>;

/// Calls `str::to_lowercase`, which maps every character to its Unicode
/// lower-case mapping. The mapping takes pages to state; the result is named
/// by `lowercase` and depends on the text alone.
#[verifier::external_body]
fn to_lower(s: &str) -> (r: String)
    ensures
        r@ == lowercase(s@),
{
    s.to_lowercase()
}

/// The position of the first character that is not white space, or the
/// length when there is none.
pub open spec fn lead(s: Seq<char>) -> int
    decreases s.len(),
{
    if s.len() == 0 {
        0
    } else if is_white_space(s[0]) {
        1 + lead(s.drop_first())
    } else {
        0
    }
}

/// One past the last character that is not white space, or 0.
pub open spec fn tail_end(s: Seq<char>) -> int
    decreases s.len(),
{
    if s.len() == 0 {
        0
    } else if is_white_space(s.last()) {
        tail_end(s.drop_last())
    } else {
        s.len() as int
    }
}

/// The text without white space at either end, as `str::trim` gives it.
pub open spec fn trimmed(s: Seq<char>) -> Seq<char> {
    if lead(s) >= tail_end(s) {
        Seq::empty()
    } else {
        s.subrange(lead(s), tail_end(s))
    }
}

proof fn lemma_lead_bounds(s: Seq<char>)
    ensures
        0 <= lead(s) <= s.len(),
        forall|i: int| 0 <= i < lead(s) ==> is_white_space(#[trigger] s[i]),
        lead(s) < s.len() ==> !is_white_space(s[lead(s)]),
    decreases s.len(),
{
    if s.len() > 0 && is_white_space(s[0]) {
        lemma_lead_bounds(s.drop_first());
        assert forall|i: int| 0 <= i < lead(s) implies is_white_space(#[trigger] s[i]) by {
            if i > 0 {
                assert(s[i] == s.drop_first()[i - 1]);
            }
        }
        if lead(s) < s.len() {
            assert(s[lead(s)] == s.drop_first()[lead(s) - 1]);
        }
    }
}

proof fn lemma_lead_is(s: Seq<char>, k: int)
    requires
        0 <= k <= s.len(),
        forall|i: int| 0 <= i < k ==> is_white_space(#[trigger] s[i]),
        k < s.len() ==> !is_white_space(s[k]),
    ensures
        lead(s) == k,
    decreases k,
{
    if k > 0 {
        assert(is_white_space(s[0]));
        assert forall|i: int| 0 <= i < k - 1 implies is_white_space(#[trigger] s.drop_first()[i]) by {
            assert(s.drop_first()[i] == s[i + 1]);
            assert(is_white_space(s[i + 1]));
        }
        if k - 1 < s.drop_first().len() {
            assert(s.drop_first()[k - 1] == s[k]);
        }
        lemma_lead_is(s.drop_first(), k - 1);
    }
}

proof fn lemma_tail_end_is(s: Seq<char>, k: int)
    requires
        0 <= k <= s.len(),
        forall|i: int| k <= i < s.len() ==> is_white_space(#[trigger] s[i]),
        k > 0 ==> !is_white_space(s[k - 1]),
    ensures
        tail_end(s) == k,
    decreases s.len(),
{
    if s.len() > 0 && k < s.len() {
        assert(is_white_space(s.last()));
        assert forall|i: int| k <= i < s.drop_last().len() implies is_white_space(#[trigger] s.drop_last()[i]) by {
            assert(s.drop_last()[i] == s[i]);
        }
        if k > 0 {
            assert(s.drop_last()[k - 1] == s[k - 1]);
        }
        lemma_tail_end_is(s.drop_last(), k);
    }
}

/// The text without white space at either end.
pub fn trim_text(s: &str) -> (r: String)
    ensures
        r@ == trimmed(s@),
{
    let n = s.unicode_len();
    let mut a: usize = 0;
    while a < n && char_is_white_space(s.get_char(a))
        invariant
            n == s@.len(),
            a <= n,
            forall|i: int| 0 <= i < a ==> is_white_space(#[trigger] s@[i]),
        decreases n - a,
    {
        a = a + 1;
    }
    proof {
        lemma_lead_is(s@, a as int);
    }
    let mut b: usize = n;
    while b > a && char_is_white_space(s.get_char(b - 1))
        invariant
            n == s@.len(),
            a <= b <= n,
            forall|i: int| b <= i < n ==> is_white_space(#[trigger] s@[i]),
            a < n ==> !is_white_space(s@[a as int]),
        decreases b,
    {
        b = b - 1;
    }
    proof {
        if b > a {
            lemma_tail_end_is(s@, b as int);
        } else {
            if a < n {
                assert(b == a);
                assert(!is_white_space(s@[a as int]));
                lemma_tail_end_is(s@, (a + 1) as int);
                assert(false);
            } else {
                lemma_tail_end_is(s@, 0);
                assert forall|i: int| 0 <= i < n implies is_white_space(#[trigger] s@[i]) by {
                    assert(is_white_space(s@[i]));
                }
            }
        }
    }
    if b > a {
        String::from_str(s.substring_char(a, b))
    } else {
        String::new()
    }
}

/// `needle` occurs in `hay`.
pub open spec fn occurs_in(hay: Seq<char>, needle: Seq<char>) -> bool {
    exists|i: int| 0 <= i && i + needle.len() <= hay.len() && #[trigger] hay.subrange(i, i + needle.len()) == needle
}

/// Whether `needle` occurs in `hay`.
pub fn text_contains(hay: &str, needle: &str) -> (r: bool)
    ensures
        r == occurs_in(hay@, needle@),
{
    let n = hay.unicode_len();
    let m = needle.unicode_len();
    if m > n {
        assert(!occurs_in(hay@, needle@));
        return false;
    }
    let mut i: usize = 0;
    while i <= n - m
        invariant
            n == hay@.len(),
            m == needle@.len(),
            m <= n,
            i <= n - m + 1,
            forall|k: int| 0 <= k < i ==> #[trigger] hay@.subrange(k, k + m) != needle@,
        decreases n - m + 1 - i,
    {
        let mut j: usize = 0;
        while j < m && hay.get_char(i + j) == needle.get_char(j)
            invariant
                n == hay@.len(),
                m == needle@.len(),
                i + m <= n,
                j <= m,
                forall|k: int| 0 <= k < j ==> hay@[i + k] == needle@[k],
            decreases m - j,
        {
            j = j + 1;
        }
        if j == m {
            assert(hay@.subrange(i as int, i + m) =~= needle@);
            return true;
        }
        assert(hay@.subrange(i as int, i + m)[j as int] != needle@[j as int]);
        i = i + 1;
    }
    proof {
        assert forall|k: int| 0 <= k && k + needle@.len() <= hay@.len() implies #[trigger] hay@.subrange(k, k + needle@.len()) != needle@ by {
            assert(k < i);
        }
    }
    false
}

/// Some log message of the task holds the query (in lower case).
pub open spec fn some_log_matches(logs: Seq<TaskLogView>, q: Seq<char>) -> bool {
    exists|k: int| 0 <= k < logs.len() && occurs_in(lowercase(#[trigger] logs[k].message), q)
}

/// A task matches a lower-case query when its title, id, short id, status,
/// description or a log message holds it.
pub open spec fn matches_query(t: TaskView, q: Seq<char>) -> bool {
    ||| occurs_in(lowercase(t.title), q)
    ||| occurs_in(lowercase(t.id), q)
    ||| occurs_in(lowercase(short_id_of(t.id, task_prefix())), q)
    ||| occurs_in(status_text(t.status), q)
    ||| (t.description matches Some(d) && occurs_in(lowercase(d), q))
    ||| some_log_matches(t.logs, q)
}

/// Law: a task matches a query as soon as any one of its log messages,
/// wherever it stands among them, holds the query in lower case.
pub proof fn law_any_log_message_matches(t: TaskView, q: Seq<char>, k: int)
    requires
        0 <= k < t.logs.len(),
        occurs_in(lowercase(t.logs[k].message), q),
    ensures
        matches_query(t, q),
{
    assert(some_log_matches(t.logs, q));
}

/// Law: a task matches a query whenever its title, its id, its short id,
/// its status label or its description holds the query in lower case.
pub proof fn law_each_field_matches(t: TaskView, q: Seq<char>)
    ensures
        occurs_in(lowercase(t.title), q) ==> matches_query(t, q),
        occurs_in(lowercase(t.id), q) ==> matches_query(t, q),
        occurs_in(lowercase(short_id_of(t.id, task_prefix())), q) ==> matches_query(t, q),
        occurs_in(status_text(t.status), q) ==> matches_query(t, q),
        (t.description matches Some(d) && occurs_in(lowercase(d), q)) ==> matches_query(t, q),
{
}

/// Law: a task whose title, id, short id, status label, description and
/// log messages all miss the query (in lower case) does not match it.
pub proof fn law_no_field_no_match(t: TaskView, q: Seq<char>)
    requires
        !occurs_in(lowercase(t.title), q),
        !occurs_in(lowercase(t.id), q),
        !occurs_in(lowercase(short_id_of(t.id, task_prefix())), q),
        !occurs_in(status_text(t.status), q),
        t.description matches Some(d) ==> !occurs_in(lowercase(d), q),
        forall|k: int| 0 <= k < t.logs.len() ==> !occurs_in(lowercase(#[trigger] t.logs[k].message), q),
    ensures
        !matches_query(t, q),
{
}

/// Whether the task matches a query already in lower case.
pub fn task_matches_filter(task: &Task, normalized_query: &str) -> (r: bool)
    requires
        short_id_defined(task@.id),
    ensures
        r == matches_query(task@, normalized_query@),
        forall|k: int| 0 <= k < task@.logs.len() && occurs_in(lowercase(#[trigger] task@.logs[k].message), normalized_query@) ==> r,
{
    proof {
        assert forall|k: int| 0 <= k < task@.logs.len() && occurs_in(lowercase(#[trigger] task@.logs[k].message), normalized_query@)
            implies matches_query(task@, normalized_query@) by {
            law_any_log_message_matches(task@, normalized_query@, k);
        }
    }
    if text_contains(to_lower(task.title.as_str()).as_str(), normalized_query) {
        return true;
    }
    if text_contains(to_lower(task.id.as_str()).as_str(), normalized_query) {
        return true;
    }
    if text_contains(to_lower(task.id.short_id().as_str()).as_str(), normalized_query) {
        return true;
    }
    if text_contains(status_label(task.status), normalized_query) {
        return true;
    }
    match &task.description {
        Some(d) => {
            if text_contains(to_lower(d.as_str()).as_str(), normalized_query) {
                return true;
            }
        },
        None => {},
    }
    let ghost lv = views(task.logs@);
    let n = task.logs.len();
    let mut k: usize = 0;
    while k < n
        invariant
            n == task.logs@.len(),
            lv == views(task.logs@),
            k <= n,
            forall|j: int| 0 <= j < k ==> !occurs_in(lowercase(#[trigger] lv[j].message), normalized_query@),
        decreases n - k,
    {
        if text_contains(to_lower(task.logs[k].message.as_str()).as_str(), normalized_query) {
            assert(occurs_in(lowercase(lv[k as int].message), normalized_query@));
            return true;
        }
        k = k + 1;
    }
    false
}

/// The task of the last entry with the id.
pub open spec fn entry_task(entries: Seq<TaskListEntryView>, id: Seq<char>) -> Option<TaskView>
    decreases entries.len(),
{
    if entries.len() == 0 {
        None
    } else if entries.last().task.id == id {
        Some(entries.last().task)
    } else {
        entry_task(entries.drop_last(), id)
    }
}

/// The ids met walking up from `current` until an id already included; at
/// most `fuel` steps.
pub open spec fn ancestor_walk(entries: Seq<TaskListEntryView>, inc: Set<Seq<char>>, current: Option<Seq<char>>, fuel: nat) -> Set<Seq<char>>
    decreases fuel,
{
    if fuel == 0 {
        inc
    } else {
        match current {
            None => inc,
            Some(id) => if inc.contains(id) {
                inc
            } else {
                ancestor_walk(entries, inc.insert(id), match entry_task(entries, id) {
                    Some(t) => t.parent_id,
                    None => None,
                }, (fuel - 1) as nat)
            },
        }
    }
}

pub open spec fn entry_tasks(entries: Seq<TaskListEntryView>) -> Seq<TaskView> {
    entries.map_values(|e: TaskListEntryView| e.task)
}

/// The ids kept by the filter after the entries of `upto`: each matching
/// task with its ancestors and its subtree.
pub open spec fn filter_keep(entries: Seq<TaskListEntryView>, q: Seq<char>, upto: Seq<TaskListEntryView>) -> Set<Seq<char>>
    decreases upto.len(),
{
    if upto.len() == 0 {
        Set::empty()
    } else {
        let inc = filter_keep(entries, q, upto.drop_last());
        let e = upto.last();
        if matches_query(e.task, q) {
            ancestor_walk(entries, inc, Some(e.task.id), (entries.len() + 1) as nat).union(subtree_of(entry_tasks(entries), e.task.id))
        } else {
            inc
        }
    }
}

pub open spec fn kept_by(ids: Set<Seq<char>>) -> spec_fn(TaskListEntryView) -> bool {
    |e: TaskListEntryView| ids.contains(e.task.id)
}

/// The entries the filter keeps: all of them for a blank query, else the
/// matching tasks with their ancestors and subtrees, in listing order.
pub open spec fn filtered_entries(entries: Seq<TaskListEntryView>, query: Seq<char>) -> Seq<TaskListEntryView> {
    let q = lowercase(trimmed(query));
    if q.len() == 0 {
        entries
    } else {
        entries.filter(kept_by(filter_keep(entries, q, entries)))
    }
}

proof fn lemma_walk_keeps(entries: Seq<TaskListEntryView>, inc: Set<Seq<char>>, current: Option<Seq<char>>, fuel: nat)
    ensures
        inc.subset_of(ancestor_walk(entries, inc, current, fuel)),
        fuel > 0 && current is Some ==> ancestor_walk(entries, inc, current, fuel).contains(current->0),
    decreases fuel,
{
    if fuel > 0 {
        if let Some(id) = current {
            if !inc.contains(id) {
                let next = match entry_task(entries, id) {
                    Some(t) => t.parent_id,
                    None => None,
                };
                lemma_walk_keeps(entries, inc.insert(id), next, (fuel - 1) as nat);
            }
        }
    }
}

proof fn lemma_filter_keep_grows(entries: Seq<TaskListEntryView>, q: Seq<char>, upto: Seq<TaskListEntryView>, k: int)
    requires
        0 <= k < upto.len(),
        matches_query(upto[k].task, q),
    ensures
        filter_keep(entries, q, upto).contains(upto[k].task.id),
        subtree_of(entry_tasks(entries), upto[k].task.id).subset_of(filter_keep(entries, q, upto)),
    decreases upto.len(),
{
    let prev = filter_keep(entries, q, upto.drop_last());
    let e = upto.last();
    if k == upto.len() - 1 {
        lemma_walk_keeps(entries, prev, Some(e.task.id), (entries.len() + 1) as nat);
    } else {
        assert(upto.drop_last()[k] == upto[k]);
        lemma_filter_keep_grows(entries, q, upto.drop_last(), k);
        if matches_query(e.task, q) {
            lemma_walk_keeps(entries, prev, Some(e.task.id), (entries.len() + 1) as nat);
        }
    }
}

/// Every entry whose task matches the query is kept (a blank query keeps
/// every entry).
pub proof fn law_filter_keeps_matches(entries: Seq<TaskListEntryView>, query: Seq<char>, k: int)
    requires
        0 <= k < entries.len(),
        matches_query(entries[k].task, lowercase(trimmed(query))),
    ensures
        filtered_entries(entries, query).contains(entries[k]),
{
    let q = lowercase(trimmed(query));
    if q.len() > 0 {
        lemma_filter_keep_grows(entries, q, entries, k);
        entries.lemma_filter_contains(kept_by(filter_keep(entries, q, entries)), k);
    } else {
        assert(entries.contains(entries[k]));
    }
}

fn last_entry_index(entries: &Vec<TaskListEntry>, id: &TaskId) -> (r: Option<usize>)
    ensures
        match r {
            Some(i) => i < entries@.len() && entry_task(views(entries@), id@) == Some(entries@[i as int]@.task),
            None => entry_task(views(entries@), id@) is None,
        },
{
    let ghost ev = views(entries@);
    let mut i: usize = entries.len();
    assert(ev.take(i as int) =~= ev);
    while i > 0
        invariant
            ev == views(entries@),
            i <= entries@.len(),
            entry_task(ev, id@) == entry_task(ev.take(i as int), id@),
        decreases i,
    {
        let k = i - 1;
        assert(ev.take(i as int).last() == ev[k as int]);
        assert(ev.take(i as int).drop_last() =~= ev.take(k as int));
        if entries[k].task.id.0 == id.0 {
            return Some(k);
        }
        i = k;
    }
    assert(ev.take(0) =~= Seq::<TaskListEntryView>::empty());
    None
}

fn push_new_id(ids: &mut Vec<TaskId>, id: &TaskId)
    ensures
        id_set(final(ids)@) == id_set(old(ids)@).insert(id@),
{
    if !contains_task_id(ids, id) {
        let ghost before = views(ids@);
        ids.push(id.clone());
        assert(views(ids@) =~= before.push(id@));
        proof { before.lemma_push_to_set_commute(id@); }
        assert(id_set(ids@) =~= id_set(old(ids)@).insert(id@));
    } else {
        assert(id_set(ids@).contains(id@));
        assert(id_set(ids@) =~= id_set(old(ids)@).insert(id@));
    }
}

/// Keeps the tasks that match the query, with their ancestors and their
/// subtrees; a blank query keeps every entry.
pub fn filter_task_entries(entries: &Vec<TaskListEntry>, query: &str) -> (r: Vec<TaskListEntry>)
    requires
        forall|i: int| 0 <= i < entries@.len() ==> short_id_defined(#[trigger] entries@[i]@.task.id),
    ensures
        views(r@) == filtered_entries(views(entries@), query@),
{
    let ghost ev = views(entries@);
    let normalized = to_lower(trim_text(query).as_str());
    let ghost q = normalized@;
    if normalized.unicode_len() == 0 {
        assert(crate::util::clone_keeps_view::<TaskListEntry>()) by {
            assert forall|a: TaskListEntry, b: TaskListEntry| #[trigger] vstd::pervasive::cloned(a, b) implies a@ == b@ by {
            }
        }
        return crate::util::clone_vec(entries);
    }
    let mut tasks: Vec<Task> = Vec::new();
    let n = entries.len();
    let mut t: usize = 0;
    while t < n
        invariant
            n == entries@.len(),
            ev == views(entries@),
            t <= n,
            views(tasks@) == entry_tasks(ev).take(t as int),
        decreases n - t,
    {
        let ghost before = views(tasks@);
        let x = entries[t].task.clone();
        tasks.push(x);
        assert(entry_tasks(ev)[t as int] == x@);
        assert(views(tasks@) =~= before.push(x@));
        assert(views(tasks@) =~= entry_tasks(ev).take(t + 1));
        t = t + 1;
    }
    assert(entry_tasks(ev).take(n as int) =~= entry_tasks(ev));
    let mut included: Vec<TaskId> = Vec::new();
    let mut i: usize = 0;
    assert(ev.take(0) =~= Seq::<TaskListEntryView>::empty());
    assert(id_set(included@) =~= Set::<Seq<char>>::empty());
    while i < n
        invariant
            n == entries@.len(),
            ev == views(entries@),
            views(tasks@) == entry_tasks(ev),
            q == normalized@,
            i <= n,
            forall|k: int| 0 <= k < entries@.len() ==> short_id_defined(#[trigger] entries@[k]@.task.id),
            id_set(included@) == filter_keep(ev, q, ev.take(i as int)),
        decreases n - i,
    {
        proof {
            assert(ev.take(i + 1).drop_last() =~= ev.take(i as int));
            assert(ev.take(i + 1).last() == ev[i as int]);
            assert(ev[i as int] == entries@[i as int]@);
        }
        let entry = &entries[i];
        if task_matches_filter(&entry.task, normalized.as_str()) {
            let ghost inc0 = id_set(included@);
            let mut current: Option<TaskId> = Some(entry.task.id.clone());
            let mut fuel: u128 = n as u128 + 1;
            while fuel > 0
                invariant
                    ev == views(entries@),
                    i < ev.len(),
                    ancestor_walk(ev, id_set(included@), crate::util::opt_view(current), fuel as nat)
                        == ancestor_walk(ev, inc0, Some(ev[i as int].task.id), (ev.len() + 1) as nat),
                decreases fuel,
            {
                match current {
                    None => {
                        fuel = 0;
                    },
                    Some(id) => {
                        if contains_task_id(&included, &id) {
                            fuel = 0;
                            current = Some(id);
                        } else {
                            push_new_id(&mut included, &id);
                            current = match last_entry_index(entries, &id) {
                                Some(j) => crate::model::clone_opt_task_id(&entries[j].task.parent_id),
                                None => None,
                            };
                            fuel = fuel - 1;
                        }
                    },
                }
            }
            let sub = collect_subtree_ids(tasks.as_slice(), &entry.task.id);
            let m = sub.len();
            let mut k: usize = 0;
            let ghost walked = id_set(included@);
            assert(walked == ancestor_walk(ev, inc0, Some(ev[i as int].task.id), (ev.len() + 1) as nat));
            assert(sub@.take(0) =~= Seq::<TaskId>::empty());
            assert(walked.union(id_set(sub@.take(0))) =~= walked);
            while k < m
                invariant
                    m == sub@.len(),
                    k <= m,
                    id_set(included@) == walked.union(id_set(sub@.take(k as int))),
                decreases m - k,
            {
                push_new_id(&mut included, &sub[k]);
                proof {
                    assert(views(sub@.take(k + 1)) =~= views(sub@.take(k as int)).push(sub@[k as int]@));
                    views(sub@.take(k as int)).lemma_push_to_set_commute(sub@[k as int]@);
                    assert(id_set(sub@.take(k + 1)) =~= id_set(sub@.take(k as int)).insert(sub@[k as int]@));
                    assert(id_set(included@) =~= walked.union(id_set(sub@.take(k + 1))));
                }
                k = k + 1;
            }
            assert(sub@.take(m as int) =~= sub@);
            assert(id_set(included@) == filter_keep(ev, q, ev.take(i + 1)));
        }
        i = i + 1;
    }
    assert(ev.take(n as int) =~= ev);
    let ghost keep = id_set(included@);
    let ghost pred = kept_by(keep);
    let mut out: Vec<TaskListEntry> = Vec::new();
    let mut k: usize = 0;
    proof {
        reveal_with_fuel(Seq::<_>::filter, 1);
    }
    while k < n
        invariant
            n == entries@.len(),
            ev == views(entries@),
            pred == kept_by(keep),
            keep == id_set(included@),
            k <= n,
            views(out@) == ev.take(k as int).filter(pred),
        decreases n - k,
    {
        proof {
            reveal_with_fuel(Seq::<_>::filter, 1);
            assert(ev.take(k + 1).drop_last() =~= ev.take(k as int));
            assert(ev.take(k + 1).last() == ev[k as int]);
            assert(ev[k as int] == entries@[k as int]@);
        }
        if contains_task_id(&included, &entries[k].task.id) {
            let e = entries[k].clone();
            let ghost before = views(out@);
            out.push(e);
            assert(views(out@) =~= before.push(ev[k as int]));
        }
        k = k + 1;
    }
    assert(ev.take(n as int) =~= ev);
    out
}


/// The filter keeps the whole subtree of every matching task: each entry
/// whose task lies below a matching one is kept too.
pub proof fn law_filter_keeps_subtrees(entries: Seq<TaskListEntryView>, query: Seq<char>, k: int, j: int)
    requires
        0 <= k < entries.len(),
        0 <= j < entries.len(),
        matches_query(entries[k].task, lowercase(trimmed(query))),
        subtree_of(entry_tasks(entries), entries[k].task.id).contains(entries[j].task.id),
    ensures
        filtered_entries(entries, query).contains(entries[j]),
{
    let q = lowercase(trimmed(query));
    if q.len() > 0 {
        lemma_filter_keep_grows(entries, q, entries, k);
        entries.lemma_filter_contains(kept_by(filter_keep(entries, q, entries)), j);
    } else {
        assert(entries.contains(entries[j]));
    }
}


/// The parent recorded for the listed task `x`; `None` for a root or an
/// id that is not listed.
pub open spec fn listed_parent(entries: Seq<TaskListEntryView>, x: Seq<char>) -> Option<Seq<char>> {
    match entry_task(entries, x) {
        Some(t) => t.parent_id,
        None => None,
    }
}

/// The id `n` steps up the chain of listed parents from `d` (`d` itself for
/// no step), if the chain is that long.
pub open spec fn up_from(entries: Seq<TaskListEntryView>, d: Seq<char>, n: nat) -> Option<Seq<char>>
    decreases n,
{
    if n == 0 {
        Some(d)
    } else {
        match up_from(entries, d, (n - 1) as nat) {
            Some(x) => listed_parent(entries, x),
            None => None,
        }
    }
}

/// `x` is `d` or one of its ancestors.
pub open spec fn lies_above(entries: Seq<TaskListEntryView>, d: Seq<char>, x: Seq<char>) -> bool {
    exists|n: nat| #[trigger] up_from(entries, d, n) == Some(x)
}

/// Why a non-blank query `q` keeps the task `x`: some entry of `upto`
/// matches `q`, and `x` lies in that task's subtree or on its way up to
/// the root.
pub open spec fn filter_reason(entries: Seq<TaskListEntryView>, upto: Seq<TaskListEntryView>, q: Seq<char>, x: Seq<char>) -> bool {
    exists|k: int|
        #![trigger upto[k]]
        0 <= k < upto.len() && matches_query(upto[k].task, q) && (subtree_of(entry_tasks(entries), upto[k].task.id).contains(x)
            || lies_above(entries, upto[k].task.id, x))
}

proof fn lemma_walk_explained(entries: Seq<TaskListEntryView>, inc: Set<Seq<char>>, start: Seq<char>, m: nat, fuel: nat)
    ensures
        forall|x: Seq<char>| #[trigger] ancestor_walk(entries, inc, up_from(entries, start, m), fuel).contains(x)
            ==> inc.contains(x) || lies_above(entries, start, x),
    decreases fuel,
{
    let cur = up_from(entries, start, m);
    if fuel > 0 {
        if let Some(id) = cur {
            if !inc.contains(id) {
                assert(up_from(entries, start, m + 1) == listed_parent(entries, id));
                lemma_walk_explained(entries, inc.insert(id), start, m + 1, (fuel - 1) as nat);
                assert forall|x: Seq<char>| #[trigger] ancestor_walk(entries, inc, cur, fuel).contains(x)
                    implies inc.contains(x) || lies_above(entries, start, x) by {
                    assert(ancestor_walk(entries, inc, cur, fuel) == ancestor_walk(entries, inc.insert(id), up_from(entries, start, m + 1), (fuel - 1) as nat));
                    if x == id {
                        assert(up_from(entries, start, m) == Some(x));
                    }
                }
            }
        }
    }
}

proof fn lemma_keep_explained(entries: Seq<TaskListEntryView>, q: Seq<char>, upto: Seq<TaskListEntryView>)
    ensures
        forall|x: Seq<char>| #[trigger] filter_keep(entries, q, upto).contains(x) ==> filter_reason(entries, upto, q, x),
    decreases upto.len(),
{
    if upto.len() > 0 {
        let init = upto.drop_last();
        lemma_keep_explained(entries, q, init);
        let inc = filter_keep(entries, q, init);
        let e = upto.last();
        let last = upto.len() - 1;
        assert forall|x: Seq<char>| #[trigger] filter_keep(entries, q, upto).contains(x) implies filter_reason(entries, upto, q, x) by {
            if inc.contains(x) {
                assert(filter_reason(entries, init, q, x));
                let k = choose|k: int|
                    #![trigger init[k]]
                    0 <= k < init.len() && matches_query(init[k].task, q) && (subtree_of(entry_tasks(entries), init[k].task.id).contains(x)
                        || lies_above(entries, init[k].task.id, x));
                assert(init[k] == upto[k]);
            } else {
                assert(matches_query(e.task, q));
                let fuel = (entries.len() + 1) as nat;
                assert(up_from(entries, e.task.id, 0) == Some(e.task.id));
                lemma_walk_explained(entries, inc, e.task.id, 0, fuel);
                assert(upto[last] == e);
            }
        }
    }
}

proof fn lemma_above_kept(entries: Seq<TaskListEntryView>, keep: Set<Seq<char>>, d: Seq<char>, n: nat, a: Seq<char>)
    requires
        closed_upward(entries, keep, None),
        keep.contains(d),
        up_from(entries, d, n) == Some(a),
        entry_task(entries, a) is Some,
    ensures
        keep.contains(a),
    decreases n,
{
    if n > 0 {
        let x = up_from(entries, d, (n - 1) as nat)->0;
        assert(up_from(entries, d, (n - 1) as nat) is Some);
        assert(entry_task(entries, x) is Some);
        lemma_above_kept(entries, keep, d, (n - 1) as nat, x);
        assert(parent_ok(entries, keep, x, None));
    }
}

proof fn lemma_filter_congruent(s: Seq<TaskListEntryView>, p: spec_fn(TaskListEntryView) -> bool, r: spec_fn(TaskListEntryView) -> bool)
    requires
        forall|i: int| 0 <= i < s.len() ==> p(#[trigger] s[i]) == r(s[i]),
    ensures
        s.filter(p) == s.filter(r),
    decreases s.len(),
{
    reveal(Seq::filter);
    if s.len() > 0 {
        let init = s.drop_last();
        assert forall|i: int| 0 <= i < init.len() implies p(#[trigger] init[i]) == r(init[i]) by {
            assert(init[i] == s[i]);
        }
        lemma_filter_congruent(init, p, r);
        assert(p(s[s.len() - 1]) == r(s[s.len() - 1]));
    }
}

/// What a non-blank filter keeps, stated directly: exactly the entries
/// whose task matches the query, lies in the subtree of a matching task,
/// or is an ancestor of one, in listing order. (Each task is listed once.)
pub proof fn law_filter_keeps_exactly(entries: Seq<TaskListEntryView>, query: Seq<char>)
    requires
        entry_ids_distinct(entries),
        lowercase(trimmed(query)).len() > 0,
    ensures
        filtered_entries(entries, query)
            == entries.filter(|e: TaskListEntryView| filter_reason(entries, entries, lowercase(trimmed(query)), e.task.id)),
{
    let q = lowercase(trimmed(query));
    let keep = filter_keep(entries, q, entries);
    let direct = |e: TaskListEntryView| filter_reason(entries, entries, q, e.task.id);
    lemma_keep_explained(entries, q, entries);
    lemma_filter_keep_closed(entries, q, entries);
    assert forall|j: int| 0 <= j < entries.len() implies kept_by(keep)(#[trigger] entries[j]) == direct(entries[j]) by {
        let x = entries[j].task.id;
        if direct(entries[j]) {
            let k = choose|k: int|
                #![trigger entries[k]]
                0 <= k < entries.len() && matches_query(entries[k].task, q) && (subtree_of(entry_tasks(entries), entries[k].task.id).contains(x)
                    || lies_above(entries, entries[k].task.id, x));
            lemma_filter_keep_grows(entries, q, entries, k);
            if !subtree_of(entry_tasks(entries), entries[k].task.id).contains(x) {
                let n = choose|n: nat| #[trigger] up_from(entries, entries[k].task.id, n) == Some(x);
                lemma_entry_task_at(entries, j);
                lemma_above_kept(entries, keep, entries[k].task.id, n, x);
            }
        }
    }
    lemma_filter_congruent(entries, kept_by(keep), direct);
}

/// The ids of the listed tasks.
pub open spec fn entry_ids(entries: Seq<TaskListEntryView>) -> Set<Seq<char>> {
    entry_tasks(entries).map_values(|t: TaskView| t.id).to_set()
}

/// No two entries list the same task.
pub open spec fn entry_ids_distinct(entries: Seq<TaskListEntryView>) -> bool {
    forall|a: int, b: int| 0 <= a < b < entries.len() ==> #[trigger] entries[a].task.id != #[trigger] entries[b].task.id
}

/// The listed parent of the listed task `x`, when there are both, is in
/// `inc` or is `pending`.
pub open spec fn parent_ok(entries: Seq<TaskListEntryView>, inc: Set<Seq<char>>, x: Seq<char>, pending: Option<Seq<char>>) -> bool {
    match entry_task(entries, x) {
        Some(t) => match t.parent_id {
            Some(p) => entry_task(entries, p) is Some ==> (inc.contains(p) || pending == Some(p)),
            None => true,
        },
        None => true,
    }
}

/// Every id of `inc` has its listed parent in `inc`, but for a parent that
/// is still `pending`.
pub open spec fn closed_upward(entries: Seq<TaskListEntryView>, inc: Set<Seq<char>>, pending: Option<Seq<char>>) -> bool {
    forall|x: Seq<char>| #[trigger] inc.contains(x) ==> parent_ok(entries, inc, x, pending)
}

proof fn lemma_entry_task_listed(entries: Seq<TaskListEntryView>, x: Seq<char>)
    requires
        entry_task(entries, x) is Some,
    ensures
        entry_ids(entries).contains(x),
        exists|k: int| 0 <= k < entries.len() && entries[k].task == entry_task(entries, x)->0 && entries[k].task.id == x,
    decreases entries.len(),
{
    let ids = entry_tasks(entries).map_values(|t: TaskView| t.id);
    let n = entries.len() - 1;
    if entries.last().task.id == x {
        assert(ids[n] == x);
        assert(ids.contains(x));
    } else {
        lemma_entry_task_listed(entries.drop_last(), x);
        let k = choose|k: int| 0 <= k < entries.drop_last().len() && entries.drop_last()[k].task == entry_task(entries.drop_last(), x)->0
            && entries.drop_last()[k].task.id == x;
        assert(entries[k] == entries.drop_last()[k]);
        assert(ids[k] == x);
        assert(ids.contains(x));
    }
}

proof fn lemma_entry_task_at(entries: Seq<TaskListEntryView>, k: int)
    requires
        entry_ids_distinct(entries),
        0 <= k < entries.len(),
    ensures
        entry_task(entries, entries[k].task.id) == Some(entries[k].task),
    decreases entries.len(),
{
    if k < entries.len() - 1 {
        assert(entries[k].task.id != entries[entries.len() - 1].task.id);
        let init = entries.drop_last();
        assert(init[k] == entries[k]);
        assert forall|a: int, b: int| 0 <= a < b < init.len() implies #[trigger] init[a].task.id != #[trigger] init[b].task.id by {
            assert(init[a] == entries[a] && init[b] == entries[b]);
        }
        lemma_entry_task_at(init, k);
    }
}

proof fn lemma_walk_closed(entries: Seq<TaskListEntryView>, inc: Set<Seq<char>>, cur: Option<Seq<char>>, fuel: nat)
    requires
        closed_upward(entries, inc, cur),
        fuel + inc.intersect(entry_ids(entries)).len() > entry_ids(entries).len(),
    ensures
        closed_upward(entries, ancestor_walk(entries, inc, cur, fuel), None),
    decreases fuel,
{
    broadcast use vstd::set::group_set_axioms;
    let ids = entry_ids(entries);
    vstd::seq_lib::seq_to_set_is_finite(entry_tasks(entries).map_values(|t: TaskView| t.id));
    vstd::set_lib::lemma_len_subset(inc.intersect(ids), ids);
    match cur {
        None => {
            assert(ancestor_walk(entries, inc, cur, fuel) == inc);
            assert forall|x: Seq<char>| #[trigger] inc.contains(x) implies parent_ok(entries, inc, x, None) by {
                assert(parent_ok(entries, inc, x, cur));
            }
        },
        Some(z) => {
            if inc.contains(z) {
                assert forall|x: Seq<char>| #[trigger] inc.contains(x) implies parent_ok(entries, inc, x, None) by {
                    assert(parent_ok(entries, inc, x, cur));
                }
                assert(ancestor_walk(entries, inc, cur, fuel) == inc);
            } else {
                let inc2 = inc.insert(z);
                let next = match entry_task(entries, z) {
                    Some(t) => t.parent_id,
                    None => None,
                };
                assert forall|x: Seq<char>| #[trigger] inc2.contains(x) implies parent_ok(entries, inc2, x, next) by {
                    if x != z {
                        assert(parent_ok(entries, inc, x, cur));
                    }
                }
                assert(ancestor_walk(entries, inc, cur, fuel) == ancestor_walk(entries, inc2, next, (fuel - 1) as nat));
                if next is None {
                    assert forall|x: Seq<char>| #[trigger] inc2.contains(x) implies parent_ok(entries, inc2, x, None) by {
                        assert(parent_ok(entries, inc2, x, next));
                    }
                    assert(ancestor_walk(entries, inc2, next, (fuel - 1) as nat) == inc2);
                } else {
                    lemma_entry_task_listed(entries, z);
                    assert(inc2.intersect(ids) =~= inc.intersect(ids).insert(z));
                    lemma_walk_closed(entries, inc2, next, (fuel - 1) as nat);
                }
            }
        },
    }
}

proof fn lemma_subtree_closed(entries: Seq<TaskListEntryView>, inc: Set<Seq<char>>, root: Seq<char>)
    requires
        entry_ids_distinct(entries),
        closed_upward(entries, inc, None),
        inc.contains(root),
    ensures
        closed_upward(entries, inc.union(subtree_of(entry_tasks(entries), root)), None),
{
    let tasks = entry_tasks(entries);
    let s = subtree_of(tasks, root);
    crate::lifecycle::lemma_subtree_exists(tasks, root);
    let below = Set::new(|y: Seq<char>| y == root || exists|i: int| 0 <= i < tasks.len() && tasks[i].id == y
        && (tasks[i].parent_id matches Some(p) && s.contains(p)));
    assert forall|i: int| 0 <= i < tasks.len() && (#[trigger] tasks[i].parent_id matches Some(p) && below.contains(p)) implies below.contains(tasks[i].id) by {
        if tasks[i].parent_id is Some && below.contains(tasks[i].parent_id->0) {
            let p = tasks[i].parent_id->0;
            if p != root {
                let j = choose|j: int| 0 <= j < tasks.len() && tasks[j].id == p && (tasks[j].parent_id matches Some(q) && s.contains(q));
                assert(tasks[j].parent_id matches Some(q) && s.contains(q) ==> s.contains(tasks[j].id));
            }
            assert(s.contains(p));
        }
    }
    let u = inc.union(s);
    assert forall|x: Seq<char>| #[trigger] u.contains(x) implies parent_ok(entries, u, x, None) by {
        if inc.contains(x) {
            assert(parent_ok(entries, inc, x, None));
        } else {
            assert(s.contains(x));
            assert(crate::hierarchy::below_root(tasks, root, x));
            assert(below.contains(root) && crate::hierarchy::closed_under_children(tasks, below));
            assert(below.contains(x));
            let i = choose|i: int| 0 <= i < tasks.len() && tasks[i].id == x && (tasks[i].parent_id matches Some(p) && s.contains(p));
            assert(tasks[i] == entries[i].task);
            lemma_entry_task_at(entries, i);
        }
    }
}

proof fn lemma_filter_keep_closed(entries: Seq<TaskListEntryView>, q: Seq<char>, upto: Seq<TaskListEntryView>)
    requires
        entry_ids_distinct(entries),
    ensures
        closed_upward(entries, filter_keep(entries, q, upto), None),
    decreases upto.len(),
{
    if upto.len() > 0 {
        lemma_filter_keep_closed(entries, q, upto.drop_last());
        let inc = filter_keep(entries, q, upto.drop_last());
        let e = upto.last();
        if matches_query(e.task, q) {
            let fuel = (entries.len() + 1) as nat;
            let ids = entry_ids(entries);
            let idseq = entry_tasks(entries).map_values(|t: TaskView| t.id);
            idseq.lemma_cardinality_of_set();
            assert forall|x: Seq<char>| #[trigger] inc.contains(x) implies parent_ok(entries, inc, x, Some(e.task.id)) by {
                assert(parent_ok(entries, inc, x, None));
            }
            lemma_walk_closed(entries, inc, Some(e.task.id), fuel);
            lemma_walk_keeps(entries, inc, Some(e.task.id), fuel);
            let w = ancestor_walk(entries, inc, Some(e.task.id), fuel);
            lemma_subtree_closed(entries, w, e.task.id);
        }
    }
}

/// The filter never leaves a kept task without its parent: whenever an
/// entry is kept and its parent is listed, the parent is kept too, so every
/// kept task shows with all its listed ancestors.
pub proof fn law_filter_keeps_parents(entries: Seq<TaskListEntryView>, query: Seq<char>, k: int, j: int)
    requires
        entry_ids_distinct(entries),
        0 <= k < entries.len(),
        0 <= j < entries.len(),
        filtered_entries(entries, query).contains(entries[k]),
        entries[k].task.parent_id == Some(entries[j].task.id),
    ensures
        filtered_entries(entries, query).contains(entries[j]),
{
    let q = lowercase(trimmed(query));
    if q.len() > 0 {
        let keep = filter_keep(entries, q, entries);
        let f = entries.filter(kept_by(keep));
        entries.filter_lemma(kept_by(keep));
        let i = choose|i: int| 0 <= i < f.len() && f[i] == entries[k];
        assert(kept_by(keep)(f[i]));
        lemma_filter_keep_closed(entries, q, entries);
        assert(parent_ok(entries, keep, entries[k].task.id, None));
        lemma_entry_task_at(entries, k);
        lemma_entry_task_at(entries, j);
        entries.lemma_filter_contains(kept_by(keep), j);
    } else {
        assert(entries.contains(entries[j]));
    }
}

} // verus!
