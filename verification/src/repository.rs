//! The stored data of the application, held in memory, and the layout of
//! its files. Every change is applied to the image and recorded as a write,
//! which the file-system layer carries out in order.

use vstd::prelude::*;
use vstd::string::*;
use crate::ids::{short_id_available, short_id_defined, SpaceId, TaskId};
use crate::model::{
    AppConfig, AppState, AppStateView, Space, SpaceView, Task, TaskView,
};
use crate::text::{find_underscore, split_once_underscore, str_eq, string_push};
use crate::hierarchy::{find_task, find_task_index, is_first_with, orders_bounded};
use crate::util::views;

verus! {

#[derive(Debug, Clone, Copy, PartialEq, Eq, Structural)]
pub enum TaskBucket {
    Todo,
    Archive,
}

impl TaskBucket {
    pub open spec fn name(self) -> Seq<char> {
        match self {
            TaskBucket::Todo => "todo"@,
            TaskBucket::Archive => "archive"@,
        }
    }

    /// The folder name of the bucket.
    pub fn as_str(self) -> (r: &'static str)
        ensures
            r@ == self.name(),
    {
        match self {
            TaskBucket::Todo => "todo",
            TaskBucket::Archive => "archive",
        }
    }
}

/// The bucket a task is stored in: `Archive` when archived, else `Todo`.
pub open spec fn bucket_for(archived: bool) -> TaskBucket {
    if archived {
        TaskBucket::Archive
    } else {
        TaskBucket::Todo
    }
}

#[derive(Debug)]
pub struct StoredTaskRecord {
    pub task: Task,
    pub bucket: TaskBucket,
}

pub struct RecordView {
    pub task: TaskView,
    pub bucket: TaskBucket,
}

impl View for StoredTaskRecord {
    type V = RecordView;

    open spec fn view(&self) -> RecordView {
        RecordView { task: self.task@, bucket: self.bucket }
    }
}

impl Clone for StoredTaskRecord {
    fn clone(&self) -> (r: Self)
        ensures
            r@ == self@,
    {
        StoredTaskRecord { task: self.task.clone(), bucket: self.bucket }
    }
}

/// What the application reads on start-up.
#[derive(Debug)]
pub struct RepositorySnapshot {
    pub config: AppConfig,
    pub state: AppState,
    pub spaces: Vec<Space>,
}

#[derive(Debug)]
pub enum StorageError {
    Io { path: String, message: String },
    RonSerialize { message: String },
    RonDeserialize { message: String },
    PathResolution(String),
    TaskNotFound(String),
    SpaceNotFound(String),
}

/// One change to carry out on the stored files.
#[derive(Debug)]
pub enum StorageWrite {
    Config(AppConfig),
    State(AppState),
    Space(Space),
    Task(Task),
    DeleteTask(TaskId),
    DeleteSpace(SpaceId),
}

pub enum StorageWriteView {
    Config(AppConfig),
    State(AppStateView),
    Space(SpaceView),
    Task(TaskView),
    DeleteTask(Seq<char>),
    DeleteSpace(Seq<char>),
}

impl View for StorageWrite {
    type V = StorageWriteView;

    open spec fn view(&self) -> StorageWriteView {
        match self {
            StorageWrite::Config(c) => StorageWriteView::Config(*c),
            StorageWrite::State(s) => StorageWriteView::State(s@),
            StorageWrite::Space(s) => StorageWriteView::Space(s@),
            StorageWrite::Task(t) => StorageWriteView::Task(t@),
            StorageWrite::DeleteTask(id) => StorageWriteView::DeleteTask(id@),
            StorageWrite::DeleteSpace(id) => StorageWriteView::DeleteSpace(id@),
        }
    }
}

// ---------------------------------------------------------------------------
// Views of the stored data

pub struct RepoView {
    pub config: AppConfig,
    pub state: AppStateView,
    pub spaces: Seq<SpaceView>,
    pub records: Seq<RecordView>,
    pub writes: Seq<StorageWriteView>,
}

pub open spec fn in_space_bucket(sid: Seq<char>, bucket: TaskBucket) -> spec_fn(RecordView) -> bool {
    |r: RecordView| r.task.space_id == sid && r.bucket == bucket
}

/// The records stored in a space's folder: the `todo` bucket, then `archive`.
pub open spec fn records_in_space(records: Seq<RecordView>, sid: Seq<char>) -> Seq<RecordView> {
    records.filter(in_space_bucket(sid, TaskBucket::Todo)) + records.filter(in_space_bucket(sid, TaskBucket::Archive))
}

/// The records of every listed space, space by space.
pub open spec fn all_records(spaces: Seq<SpaceView>, records: Seq<RecordView>) -> Seq<RecordView>
    decreases spaces.len(),
{
    if spaces.len() == 0 {
        Seq::empty()
    } else {
        all_records(spaces.drop_last(), records) + records_in_space(records, spaces.last().id)
    }
}

pub open spec fn record_tasks(records: Seq<RecordView>) -> Seq<TaskView> {
    records.map_values(|r: RecordView| r.task)
}

/// The tasks that the repository lists: those of the listed spaces.
pub open spec fn all_tasks(repo: RepoView) -> Seq<TaskView> {
    record_tasks(all_records(repo.spaces, repo.records))
}

pub open spec fn space_index(spaces: Seq<SpaceView>, id: Seq<char>) -> int {
    if exists|i: int| 0 <= i < spaces.len() && spaces[i].id == id {
        choose|i: int| 0 <= i < spaces.len() && spaces[i].id == id
    } else {
        -1
    }
}

pub open spec fn record_index(records: Seq<RecordView>, id: Seq<char>) -> int {
    if exists|i: int| 0 <= i < records.len() && records[i].task.id == id {
        choose|i: int| 0 <= i < records.len() && records[i].task.id == id
    } else {
        -1
    }
}

/// No two spaces, and no two task records, share an id.
pub open spec fn ids_unique(repo: RepoView) -> bool {
    &&& forall|i: int, j: int| 0 <= i < j < repo.spaces.len() ==> #[trigger] repo.spaces[i].id != #[trigger] repo.spaces[j].id
    &&& forall|i: int, j: int| 0 <= i < j < repo.records.len() ==> #[trigger] repo.records[i].task.id != #[trigger] repo.records[j].task.id
}

/// `s` with the space of the same id replaced, or `s` appended.
pub open spec fn upsert_space(spaces: Seq<SpaceView>, s: SpaceView) -> Seq<SpaceView> {
    let i = space_index(spaces, s.id);
    if i >= 0 {
        spaces.update(i, s)
    } else {
        spaces.push(s)
    }
}

/// The record of `t`, in the bucket its archived flag selects, replacing the
/// record of the same id or appended.
pub open spec fn upsert_record(records: Seq<RecordView>, t: TaskView) -> Seq<RecordView> {
    let rec = RecordView { task: t, bucket: bucket_for(t.archived) };
    let i = record_index(records, t.id);
    if i >= 0 {
        records.update(i, rec)
    } else {
        records.push(rec)
    }
}

/// The repository after a space is saved.
pub open spec fn saved_space(repo: RepoView, s: SpaceView) -> RepoView {
    RepoView { spaces: upsert_space(repo.spaces, s), writes: repo.writes.push(StorageWriteView::Space(s)), ..repo }
}

/// The repository after a task is saved.
pub open spec fn saved_task(repo: RepoView, t: TaskView) -> RepoView {
    RepoView { records: upsert_record(repo.records, t), writes: repo.writes.push(StorageWriteView::Task(t)), ..repo }
}

/// The repository after the tasks are saved one after the other.
pub open spec fn saved_tasks(repo: RepoView, ts: Seq<TaskView>) -> RepoView
    decreases ts.len(),
{
    if ts.len() == 0 {
        repo
    } else {
        saved_task(saved_tasks(repo, ts.drop_last()), ts.last())
    }
}

pub open spec fn not_task(id: Seq<char>) -> spec_fn(RecordView) -> bool {
    |r: RecordView| r.task.id != id
}

pub open spec fn not_in_space(id: Seq<char>) -> spec_fn(RecordView) -> bool {
    |r: RecordView| r.task.space_id != id
}

pub open spec fn not_space(id: Seq<char>) -> spec_fn(SpaceView) -> bool {
    |s: SpaceView| s.id != id
}


pub proof fn lemma_space_index_is(spaces: Seq<SpaceView>, id: Seq<char>, i: int)
    requires
        0 <= i < spaces.len(),
        spaces[i].id == id,
        forall|a: int, b: int| 0 <= a < b < spaces.len() ==> #[trigger] spaces[a].id != #[trigger] spaces[b].id,
    ensures
        space_index(spaces, id) == i,
{
    let k = space_index(spaces, id);
    assert(0 <= k < spaces.len() && spaces[k].id == id);
    if k < i {
        assert(spaces[k].id != spaces[i].id);
    } else if i < k {
        assert(spaces[i].id != spaces[k].id);
    }
}

pub proof fn lemma_record_index_is(records: Seq<RecordView>, id: Seq<char>, i: int)
    requires
        0 <= i < records.len(),
        records[i].task.id == id,
        forall|a: int, b: int| 0 <= a < b < records.len() ==> #[trigger] records[a].task.id != #[trigger] records[b].task.id,
    ensures
        record_index(records, id) == i,
{
    let k = record_index(records, id);
    assert(0 <= k < records.len() && records[k].task.id == id);
    if k < i {
        assert(records[k].task.id != records[i].task.id);
    } else if i < k {
        assert(records[i].task.id != records[k].task.id);
    }
}

/// Every stored id holds the `_` that separates prefix and suffix, which the
/// matching of short references relies on.
pub open spec fn ids_split(repo: RepoView) -> bool {
    &&& forall|i: int| 0 <= i < repo.spaces.len() ==> (#[trigger] split_once_underscore(repo.spaces[i].id)) is Some
    &&& forall|i: int| 0 <= i < repo.records.len() ==> (#[trigger] split_once_underscore(repo.records[i].task.id)) is Some
}

/// Every stored id has a short form, which the printed reports show.
pub open spec fn ids_printable(repo: RepoView) -> bool {
    &&& forall|i: int| 0 <= i < repo.spaces.len() ==> short_id_defined(#[trigger] repo.spaces[i].id)
    &&& forall|i: int| 0 <= i < repo.records.len() ==> short_id_defined(#[trigger] repo.records[i].task.id)
}

/// Every listed task is the task of some stored record.
pub proof fn lemma_all_records_from_records(spaces: Seq<SpaceView>, records: Seq<RecordView>)
    ensures
        forall|k: int| 0 <= k < all_records(spaces, records).len() ==> #[trigger] records.contains(all_records(spaces, records)[k]),
    decreases spaces.len(),
{
    if spaces.len() > 0 {
        lemma_all_records_from_records(spaces.drop_last(), records);
        let a = all_records(spaces.drop_last(), records);
        let sid = spaces.last().id;
        let t = records.filter(in_space_bucket(sid, TaskBucket::Todo));
        let b = records.filter(in_space_bucket(sid, TaskBucket::Archive));
        assert forall|k: int| 0 <= k < all_records(spaces, records).len() implies #[trigger] records.contains(all_records(spaces, records)[k]) by {
            let x = all_records(spaces, records)[k];
            if k < a.len() {
                assert(x == a[k]);
            } else if k < a.len() + t.len() {
                assert(x == t[k - a.len()]);
                assert(t.contains(x));
                records.lemma_filter_contains_rev(in_space_bucket(sid, TaskBucket::Todo), x);
            } else {
                assert(x == b[k - a.len() - t.len()]);
                assert(b.contains(x));
                records.lemma_filter_contains_rev(in_space_bucket(sid, TaskBucket::Archive), x);
            }
        }
    }
}

/// Every listed task is the task of a stored record, so it has a split id
/// and, when the stored positions are bounded, a bounded position.
pub proof fn lemma_all_tasks_facts(repo: RepoView)
    requires
        ids_split(repo),
    ensures
        forall|k: int| 0 <= k < all_tasks(repo).len() ==> (#[trigger] split_once_underscore(all_tasks(repo)[k].id)) is Some,
        orders_bounded(record_tasks(repo.records)) ==> orders_bounded(all_tasks(repo)),
{
    lemma_all_records_from_records(repo.spaces, repo.records);
    let ar = all_records(repo.spaces, repo.records);
    assert forall|k: int| 0 <= k < all_tasks(repo).len() implies (#[trigger] split_once_underscore(all_tasks(repo)[k].id)) is Some by {
        assert(repo.records.contains(ar[k]));
        let j = choose|j: int| 0 <= j < repo.records.len() && repo.records[j] == ar[k];
        assert(split_once_underscore(repo.records[j].task.id) is Some);
    }
    if orders_bounded(record_tasks(repo.records)) {
        assert forall|k: int| 0 <= k < all_tasks(repo).len() implies #[trigger] all_tasks(repo)[k].sort_order < i64::MAX by {
            assert(repo.records.contains(ar[k]));
            let j = choose|j: int| 0 <= j < repo.records.len() && repo.records[j] == ar[k];
            assert(record_tasks(repo.records)[j].sort_order < i64::MAX);
        }
    }
}

/// The stored data: configuration, state, spaces and task records, and the
/// writes made since it was read.
#[derive(Debug)]
pub struct Repository {
    pub config: AppConfig,
    pub state: AppState,
    pub spaces: Vec<Space>,
    pub records: Vec<StoredTaskRecord>,
    pub writes: Vec<StorageWrite>,
}

impl View for Repository {
    type V = RepoView;

    open spec fn view(&self) -> RepoView {
        RepoView {
            config: self.config,
            state: self.state@,
            spaces: views(self.spaces@),
            records: views(self.records@),
            writes: views(self.writes@),
        }
    }
}

impl Repository {
    /// The repository is well formed when ids are unique.
    pub open spec fn wf(&self) -> bool {
        ids_unique(self@)
    }

    /// An empty repository with the given configuration and state.
    pub fn new(config: AppConfig, state: AppState) -> (r: Self)
        ensures
            r.wf(),
            r@.config == config,
            r@.state == state@,
            r@.spaces.len() == 0,
            r@.records.len() == 0,
            r@.writes.len() == 0,
    {
        let r = Repository { config, state, spaces: Vec::new(), records: Vec::new(), writes: Vec::new() };
        assert(views(r.spaces@) =~= Seq::<SpaceView>::empty());
        assert(views(r.records@) =~= Seq::<RecordView>::empty());
        assert(views(r.writes@) =~= Seq::<StorageWriteView>::empty());
        r
    }

    /// Adds a space read from storage, unless one with its id is already held.
    pub fn add_stored_space(&mut self, space: Space)
        requires
            old(self).wf(),
        ensures
            final(self).wf(),
            final(self)@ == (RepoView {
                spaces: if space_index(old(self)@.spaces, space@.id) >= 0 { old(self)@.spaces } else { old(self)@.spaces.push(space@) },
                ..old(self)@
            }),
    {
        match self.find_space(&space.id) {
            Some(_) => {},
            None => {
                self.spaces.push(space);
                assert(views(self.spaces@) =~= views(old(self).spaces@).push(space@));
            },
        }
    }

    /// Adds a task record read from storage, unless one with its id is
    /// already held.
    pub fn add_stored_record(&mut self, record: StoredTaskRecord)
        requires
            old(self).wf(),
        ensures
            final(self).wf(),
            final(self)@ == (RepoView {
                records: if record_index(old(self)@.records, record@.task.id) >= 0 { old(self)@.records } else { old(self)@.records.push(record@) },
                ..old(self)@
            }),
    {
        match self.find_record(&record.task.id) {
            Some(_) => {},
            None => {
                self.records.push(record);
                assert(views(self.records@) =~= views(old(self).records@).push(record@));
            },
        }
    }

    fn find_space(&self, id: &SpaceId) -> (r: Option<usize>)
        requires
            self.wf(),
        ensures
            r matches Some(i) ==> i < self.spaces@.len() && space_index(self@.spaces, id@) == i,
            r is None ==> space_index(self@.spaces, id@) == -1,
    {
        let n = self.spaces.len();
        let mut i: usize = 0;
        while i < n
            invariant
                n == self.spaces@.len(),
                self.wf(),
                i <= n,
                forall|j: int| 0 <= j < i ==> self@.spaces[j].id != id@,
            decreases n - i,
        {
            if self.spaces[i].id.0 == id.0 {
                proof {
                    lemma_space_index_is(self@.spaces, id@, i as int);
                }
                return Some(i);
            }
            i = i + 1;
        }
        None
    }

    fn find_record(&self, id: &TaskId) -> (r: Option<usize>)
        requires
            self.wf(),
        ensures
            r matches Some(i) ==> i < self.records@.len() && record_index(self@.records, id@) == i,
            r is None ==> record_index(self@.records, id@) == -1,
    {
        let n = self.records.len();
        let mut i: usize = 0;
        while i < n
            invariant
                n == self.records@.len(),
                self.wf(),
                i <= n,
                forall|j: int| 0 <= j < i ==> self@.records[j].task.id != id@,
            decreases n - i,
        {
            if self.records[i].task.id.0 == id.0 {
                proof {
                    lemma_record_index_is(self@.records, id@, i as int);
                }
                return Some(i);
            }
            i = i + 1;
        }
        None
    }

    /// Whether every stored id holds a `_`.
    pub fn ids_well_formed(&self) -> (r: bool)
        ensures
            r == ids_split(self@),
    {
        let n = self.spaces.len();
        let mut i: usize = 0;
        while i < n
            invariant
                n == self.spaces@.len(),
                i <= n,
                forall|j: int| 0 <= j < i ==> (#[trigger] split_once_underscore(self@.spaces[j].id)) is Some,
            decreases n - i,
        {
            if find_underscore(self.spaces[i].id.0.as_str()).is_none() {
                assert(split_once_underscore(self@.spaces[i as int].id) is None);
                return false;
            }
            i = i + 1;
        }
        let m = self.records.len();
        let mut k: usize = 0;
        while k < m
            invariant
                m == self.records@.len(),
                k <= m,
                forall|j: int| 0 <= j < self@.spaces.len() ==> (#[trigger] split_once_underscore(self@.spaces[j].id)) is Some,
                forall|j: int| 0 <= j < k ==> (#[trigger] split_once_underscore(self@.records[j].task.id)) is Some,
            decreases m - k,
        {
            if find_underscore(self.records[k].task.id.0.as_str()).is_none() {
                assert(split_once_underscore(self@.records[k as int].task.id) is None);
                return false;
            }
            k = k + 1;
        }
        true
    }

    /// Whether every stored id has a short form.
    pub fn ids_printable(&self) -> (r: bool)
        ensures
            r == ids_printable(self@),
    {
        let n = self.spaces.len();
        let mut i: usize = 0;
        while i < n
            invariant
                n == self.spaces@.len(),
                i <= n,
                forall|j: int| 0 <= j < i ==> short_id_defined(#[trigger] self@.spaces[j].id),
            decreases n - i,
        {
            if !short_id_available(self.spaces[i].id.as_str()) {
                assert(!short_id_defined(self@.spaces[i as int].id));
                return false;
            }
            i = i + 1;
        }
        let m = self.records.len();
        let mut k: usize = 0;
        while k < m
            invariant
                m == self.records@.len(),
                k <= m,
                forall|j: int| 0 <= j < self@.spaces.len() ==> short_id_defined(#[trigger] self@.spaces[j].id),
                forall|j: int| 0 <= j < k ==> short_id_defined(#[trigger] self@.records[j].task.id),
            decreases m - k,
        {
            if !short_id_available(self.records[k].task.id.as_str()) {
                assert(!short_id_defined(self@.records[k as int].task.id));
                return false;
            }
            k = k + 1;
        }
        true
    }

    /// Whether no stored position is the largest `i64`.
    pub fn orders_fit(&self) -> (r: bool)
        ensures
            r == orders_bounded(record_tasks(self@.records)),
    {
        let m = self.records.len();
        let mut k: usize = 0;
        while k < m
            invariant
                m == self.records@.len(),
                k <= m,
                forall|j: int| 0 <= j < k ==> #[trigger] record_tasks(self@.records)[j].sort_order < i64::MAX,
            decreases m - k,
        {
            if self.records[k].task.sort_order == i64::MAX {
                assert(record_tasks(self@.records)[k as int].sort_order == i64::MAX);
                return false;
            }
            k = k + 1;
        }
        true
    }

    pub fn load_config(&self) -> (r: AppConfig)
        ensures
            r == self@.config,
    {
        self.config
    }

    pub fn save_config(&mut self, config: &AppConfig)
        ensures
            final(self)@ == (RepoView {
                config: *config,
                writes: old(self)@.writes.push(StorageWriteView::Config(*config)),
                ..old(self)@
            }),
    {
        self.config = *config;
        self.writes.push(StorageWrite::Config(*config));
        assert(views(self.writes@) =~= views(old(self).writes@).push(StorageWriteView::Config(*config)));
    }

    pub fn load_state(&self) -> (r: AppState)
        ensures
            r@ == self@.state,
    {
        self.state.clone()
    }

    pub fn save_state(&mut self, state: &AppState)
        ensures
            final(self)@ == (RepoView {
                state: state@,
                writes: old(self)@.writes.push(StorageWriteView::State(state@)),
                ..old(self)@
            }),
    {
        self.state = state.clone();
        self.writes.push(StorageWrite::State(state.clone()));
        assert(views(self.writes@) =~= views(old(self).writes@).push(StorageWriteView::State(state@)));
    }

    pub fn list_spaces(&self) -> (r: Vec<Space>)
        ensures
            views(r@) == self@.spaces,
    {
        assert(crate::util::clone_keeps_view::<Space>());
        crate::util::clone_vec(&self.spaces)
    }

    pub fn load_space(&self, space_id: &SpaceId) -> (r: Result<Space, StorageError>)
        requires
            self.wf(),
        ensures
            space_index(self@.spaces, space_id@) >= 0 <==> r is Ok,
            r matches Ok(s) ==> s@ == self@.spaces[space_index(self@.spaces, space_id@)],
            r matches Err(e) ==> e matches StorageError::SpaceNotFound(m) && m@ == space_id@,
    {
        match self.find_space(space_id) {
            Some(i) => Ok(self.spaces[i].clone()),
            None => Err(StorageError::SpaceNotFound(space_id.0.clone())),
        }
    }

    pub fn save_space(&mut self, space: &Space)
        requires
            old(self).wf(),
        ensures
            final(self).wf(),
            final(self)@ == saved_space(old(self)@, space@),
    {
        match self.find_space(&space.id) {
            Some(i) => {
                self.spaces.set(i, space.clone());
                assert(views(self.spaces@) =~= views(old(self).spaces@).update(i as int, space@));
            },
            None => {
                self.spaces.push(space.clone());
                assert(views(self.spaces@) =~= views(old(self).spaces@).push(space@));
            },
        }
        self.writes.push(StorageWrite::Space(space.clone()));
        assert(views(self.writes@) =~= views(old(self).writes@).push(StorageWriteView::Space(space@)));
    }

    /// The records stored in a space's folder, `todo` bucket first.
    pub fn list_task_records_in_space(&self, space_id: &SpaceId) -> (r: Vec<StoredTaskRecord>)
        ensures
            views(r@) == records_in_space(self@.records, space_id@),
    {
        let ghost rv = self@.records;
        let ghost todo = in_space_bucket(space_id@, TaskBucket::Todo);
        let ghost arch = in_space_bucket(space_id@, TaskBucket::Archive);
        let mut a: Vec<StoredTaskRecord> = Vec::new();
        let mut b: Vec<StoredTaskRecord> = Vec::new();
        let n = self.records.len();
        let mut i: usize = 0;
        assert(rv.take(0) =~= Seq::<RecordView>::empty());
        proof {
            reveal_with_fuel(Seq::<_>::filter, 1);
        }
        assert(views(a@) =~= rv.take(0).filter(todo));
        assert(views(b@) =~= rv.take(0).filter(arch));
        while i < n
            invariant
                n == self.records@.len(),
                rv == self@.records,
                i <= n,
                todo == in_space_bucket(space_id@, TaskBucket::Todo),
                arch == in_space_bucket(space_id@, TaskBucket::Archive),
                views(a@) == rv.take(i as int).filter(todo),
                views(b@) == rv.take(i as int).filter(arch),
            decreases n - i,
        {
            proof {
                reveal_with_fuel(Seq::<_>::filter, 1);
                assert(rv.take(i + 1).drop_last() =~= rv.take(i as int));
            }
            let rec = &self.records[i];
            assert(rec@ == rv[i as int]);
            if rec.task.space_id.0 == space_id.0 {
                match rec.bucket {
                    TaskBucket::Todo => {
                        a.push(rec.clone());
                        assert(views(a@) =~= rv.take(i as int).filter(todo).push(rv[i as int]));
                    },
                    TaskBucket::Archive => {
                        b.push(rec.clone());
                        assert(views(b@) =~= rv.take(i as int).filter(arch).push(rv[i as int]));
                    },
                }
            }
            i = i + 1;
        }
        assert(rv.take(n as int) =~= rv);
        let ghost av = views(a@);
        a.append(&mut b);
        assert(views(a@) =~= av + rv.filter(arch));
        a
    }

    /// The records of every listed space, space by space.
    pub fn list_all_task_records(&self) -> (r: Vec<StoredTaskRecord>)
        ensures
            views(r@) == all_records(self@.spaces, self@.records),
    {
        let mut out: Vec<StoredTaskRecord> = Vec::new();
        let n = self.spaces.len();
        let mut i: usize = 0;
        assert(self@.spaces.take(0) =~= Seq::<SpaceView>::empty());
        assert(views(out@) =~= Seq::<RecordView>::empty());
        while i < n
            invariant
                n == self.spaces@.len(),
                i <= n,
                views(out@) == all_records(self@.spaces.take(i as int), self@.records),
            decreases n - i,
        {
            let mut part = self.list_task_records_in_space(&self.spaces[i].id);
            let ghost ov = views(out@);
            let ghost pv = views(part@);
            out.append(&mut part);
            assert(self@.spaces.take(i + 1).drop_last() =~= self@.spaces.take(i as int));
            assert(self@.spaces.take(i + 1).last() == self@.spaces[i as int]);
            assert(views(out@) =~= ov + pv);
            i = i + 1;
        }
        assert(self@.spaces.take(n as int) =~= self@.spaces);
        out
    }

    pub fn list_tasks_in_space(&self, space_id: &SpaceId) -> (r: Vec<Task>)
        ensures
            views(r@) == record_tasks(records_in_space(self@.records, space_id@)),
    {
        let recs = self.list_task_records_in_space(space_id);
        tasks_of_records(recs)
    }

    pub fn list_all_tasks(&self) -> (r: Vec<Task>)
        ensures
            views(r@) == all_tasks(self@),
    {
        let recs = self.list_all_task_records();
        tasks_of_records(recs)
    }

    /// The first listed task with the id.
    pub fn load_task(&self, task_id: &TaskId) -> (r: Result<Task, StorageError>)
        ensures
            match find_task(all_tasks(self@), task_id@) {
                Some(t) => r matches Ok(x) && x@ == t,
                None => r matches Err(StorageError::TaskNotFound(m)) && m@ == task_id@,
            },
    {
        let tasks = self.list_all_tasks();
        match find_task_index(tasks.as_slice(), task_id) {
            Some(i) => Ok(tasks[i].clone()),
            None => Err(StorageError::TaskNotFound(task_id.0.clone())),
        }
    }

    /// Stores a task in the bucket its archived flag selects, replacing any
    /// earlier copy of it.
    pub fn save_task(&mut self, task: &Task)
        requires
            old(self).wf(),
        ensures
            final(self).wf(),
            final(self)@ == saved_task(old(self)@, task@),
    {
        let bucket = if task.archived { TaskBucket::Archive } else { TaskBucket::Todo };
        let rec = StoredTaskRecord { task: task.clone(), bucket };
        match self.find_record(&task.id) {
            Some(i) => {
                self.records.set(i, rec);
                assert(views(self.records@) =~= views(old(self).records@).update(i as int, RecordView { task: task@, bucket: bucket_for(task@.archived) }));
            },
            None => {
                self.records.push(rec);
                assert(views(self.records@) =~= views(old(self).records@).push(RecordView { task: task@, bucket: bucket_for(task@.archived) }));
            },
        }
        self.writes.push(StorageWrite::Task(task.clone()));
        assert(views(self.writes@) =~= views(old(self).writes@).push(StorageWriteView::Task(task@)));
    }

    /// Removes the record of a task.
    pub fn delete_task(&mut self, task_id: &TaskId)
        requires
            old(self).wf(),
        ensures
            final(self).wf(),
            final(self)@ == deleted_task(old(self)@, task_id@),
    {
        match self.find_record(task_id) {
            Some(i) => {
                self.records.remove(i);
                assert(views(self.records@) =~= views(old(self).records@).remove(i as int));
            },
            None => {},
        }
        self.writes.push(StorageWrite::DeleteTask(task_id.clone()));
        assert(views(self.writes@) =~= views(old(self).writes@).push(StorageWriteView::DeleteTask(task_id@)));
    }

    /// Removes a space's folder: the space and every task record in it.
    pub fn delete_space(&mut self, space_id: &SpaceId)
        requires
            old(self).wf(),
        ensures
            final(self).wf(),
            final(self)@ == (RepoView {
                spaces: old(self)@.spaces.filter(not_space(space_id@)),
                records: old(self)@.records.filter(not_in_space(space_id@)),
                writes: old(self)@.writes.push(StorageWriteView::DeleteSpace(space_id@)),
                ..old(self)@
            }),
    {
        let ghost sv = old(self)@.spaces;
        let ghost rv = old(self)@.records;
        let ghost ps = not_space(space_id@);
        let ghost pr = not_in_space(space_id@);
        let mut spaces: Vec<Space> = Vec::new();
        std::mem::swap(&mut spaces, &mut self.spaces);
        let mut kept_spaces: Vec<Space> = Vec::new();
        let n = spaces.len();
        let mut i: usize = 0;
        proof {
            reveal_with_fuel(Seq::<_>::filter, 1);
        }
        assert(sv.take(0) =~= Seq::<SpaceView>::empty());
        assert(views(kept_spaces@) =~= sv.take(0).filter(ps));
        while i < n
            invariant
                n == spaces@.len(),
                sv == views(spaces@),
                i <= n,
                ps == not_space(space_id@),
                views(kept_spaces@) == sv.take(i as int).filter(ps),
                forall|a: int, b: int| 0 <= a < b < sv.len() ==> #[trigger] sv[a].id != #[trigger] sv[b].id,
                forall|a: int, b: int| 0 <= a < b < kept_spaces@.len() ==> #[trigger] kept_spaces@[a]@.id != #[trigger] kept_spaces@[b]@.id,
                forall|a: int| 0 <= a < kept_spaces@.len() ==> exists|c: int| 0 <= c < i && #[trigger] kept_spaces@[a]@.id == sv[c].id,
            decreases n - i,
        {
            proof {
                reveal_with_fuel(Seq::<_>::filter, 1);
                assert(sv.take(i + 1).drop_last() =~= sv.take(i as int));
            }
            if spaces[i].id.0 != space_id.0 {
                let ghost before = kept_spaces@;
                kept_spaces.push(spaces[i].clone());
                assert(views(kept_spaces@) =~= sv.take(i as int).filter(ps).push(sv[i as int]));
                assert forall|a: int, b: int| 0 <= a < b < kept_spaces@.len() implies #[trigger] kept_spaces@[a]@.id != #[trigger] kept_spaces@[b]@.id by {
                    if b == kept_spaces@.len() - 1 {
                        let c = choose|c: int| 0 <= c < i && #[trigger] before[a]@.id == sv[c].id;
                        assert(sv[c].id != sv[i as int].id);
                    }
                }
                assert forall|a: int| 0 <= a < kept_spaces@.len() implies exists|c: int| 0 <= c < i + 1 && #[trigger] kept_spaces@[a]@.id == sv[c].id by {
                    if a < kept_spaces@.len() - 1 {
                        let c = choose|c: int| 0 <= c < i && #[trigger] before[a]@.id == sv[c].id;
                        assert(kept_spaces@[a]@.id == sv[c].id);
                    } else {
                        assert(kept_spaces@[a]@.id == sv[i as int].id);
                    }
                }
            }
            i = i + 1;
        }
        assert(sv.take(n as int) =~= sv);
        self.spaces = kept_spaces;
        let mut records: Vec<StoredTaskRecord> = Vec::new();
        std::mem::swap(&mut records, &mut self.records);
        let mut kept: Vec<StoredTaskRecord> = Vec::new();
        let m = records.len();
        let mut j: usize = 0;
        assert(rv.take(0) =~= Seq::<RecordView>::empty());
        assert(views(kept@) =~= rv.take(0).filter(pr));
        while j < m
            invariant
                m == records@.len(),
                rv == views(records@),
                j <= m,
                pr == not_in_space(space_id@),
                views(kept@) == rv.take(j as int).filter(pr),
                forall|a: int, b: int| 0 <= a < b < rv.len() ==> #[trigger] rv[a].task.id != #[trigger] rv[b].task.id,
                forall|a: int, b: int| 0 <= a < b < kept@.len() ==> #[trigger] kept@[a]@.task.id != #[trigger] kept@[b]@.task.id,
                forall|a: int| 0 <= a < kept@.len() ==> exists|c: int| 0 <= c < j && #[trigger] kept@[a]@.task.id == rv[c].task.id,
            decreases m - j,
        {
            proof {
                reveal_with_fuel(Seq::<_>::filter, 1);
                assert(rv.take(j + 1).drop_last() =~= rv.take(j as int));
            }
            if records[j].task.space_id.0 != space_id.0 {
                let ghost before = kept@;
                kept.push(records[j].clone());
                assert(views(kept@) =~= rv.take(j as int).filter(pr).push(rv[j as int]));
                assert forall|a: int, b: int| 0 <= a < b < kept@.len() implies #[trigger] kept@[a]@.task.id != #[trigger] kept@[b]@.task.id by {
                    if b == kept@.len() - 1 {
                        let c = choose|c: int| 0 <= c < j && #[trigger] before[a]@.task.id == rv[c].task.id;
                        assert(rv[c].task.id != rv[j as int].task.id);
                    }
                }
                assert forall|a: int| 0 <= a < kept@.len() implies exists|c: int| 0 <= c < j + 1 && #[trigger] kept@[a]@.task.id == rv[c].task.id by {
                    if a < kept@.len() - 1 {
                        let c = choose|c: int| 0 <= c < j && #[trigger] before[a]@.task.id == rv[c].task.id;
                        assert(kept@[a]@.task.id == rv[c].task.id);
                    } else {
                        assert(kept@[a]@.task.id == rv[j as int].task.id);
                    }
                }
            }
            j = j + 1;
        }
        assert(rv.take(m as int) =~= rv);
        self.records = kept;
        self.writes.push(StorageWrite::DeleteSpace(space_id.clone()));
        assert(views(self.writes@) =~= views(old(self).writes@).push(StorageWriteView::DeleteSpace(space_id@)));
    }
}

/// The tasks of a list of records.
pub fn tasks_of_records(records: Vec<StoredTaskRecord>) -> (r: Vec<Task>)
    ensures
        views(r@) == record_tasks(views(records@)),
{
    let mut out: Vec<Task> = Vec::new();
    let n = records.len();
    let mut i: usize = 0;
    while i < n
        invariant
            n == records@.len(),
            i <= n,
            views(out@) == record_tasks(views(records@)).take(i as int),
        decreases n - i,
    {
        let t = records[i].task.clone();
        let ghost before = out@;
        out.push(t);
        assert(record_tasks(views(records@))[i as int] == t@);
        assert(views(out@) =~= views(before).push(t@));
        assert(views(out@) =~= record_tasks(views(records@)).take(i + 1));
        i = i + 1;
    }
    assert(record_tasks(views(records@)).take(n as int) =~= record_tasks(views(records@)));
    out
}


/// A stored record of a listed space is among the records the repository
/// lists.
pub proof fn lemma_record_listed(spaces: Seq<SpaceView>, records: Seq<RecordView>, k: int, si: int)
    requires
        0 <= si < spaces.len(),
        0 <= k < records.len(),
        spaces[si].id == records[k].task.space_id,
    ensures
        all_records(spaces, records).contains(records[k]),
    decreases spaces.len(),
{
    let r = records[k];
    let a = all_records(spaces.drop_last(), records);
    let sid = spaces.last().id;
    let t = records.filter(in_space_bucket(sid, TaskBucket::Todo));
    let b = records.filter(in_space_bucket(sid, TaskBucket::Archive));
    assert(all_records(spaces, records) == a + (t + b));
    if si == spaces.len() - 1 {
        match r.bucket {
            TaskBucket::Todo => {
                records.lemma_filter_contains(in_space_bucket(sid, TaskBucket::Todo), k);
                let j = choose|j: int| 0 <= j < t.len() && t[j] == r;
                assert((a + (t + b))[a.len() + j] == r);
            },
            TaskBucket::Archive => {
                records.lemma_filter_contains(in_space_bucket(sid, TaskBucket::Archive), k);
                let j = choose|j: int| 0 <= j < b.len() && b[j] == r;
                assert((a + (t + b))[a.len() + t.len() + j] == r);
            },
        }
    } else {
        lemma_record_listed(spaces.drop_last(), records, k, si);
        let j = choose|j: int| 0 <= j < a.len() && a[j] == r;
        assert((a + (t + b))[j] == r);
    }
}

/// What a read gives back of a write: once a task of a listed space is
/// saved, loading its id gives back exactly that task.
pub proof fn law_saved_task_loads_back(repo: RepoView, t: TaskView)
    requires
        ids_unique(repo),
        space_index(repo.spaces, t.space_id) >= 0,
    ensures
        find_task(all_tasks(saved_task(repo, t)), t.id) == Some(t),
{
    let after = saved_task(repo, t);
    let recs = after.records;
    let rec = RecordView { task: t, bucket: bucket_for(t.archived) };
    let i = record_index(repo.records, t.id);
    let k: int = if i >= 0 { i } else { repo.records.len() as int };
    assert(recs[k] == rec);
    assert forall|j: int| 0 <= j < recs.len() && recs[j].task.id == t.id implies j == k by {
        if j != k {
            assert(recs[j] == repo.records[j]);
            if i < 0 {
                assert(0 <= j < repo.records.len() && repo.records[j].task.id == t.id);
            } else if j < i {
                assert(repo.records[j].task.id != repo.records[i].task.id);
            } else {
                assert(repo.records[i].task.id != repo.records[j].task.id);
            }
        }
    }
    let si = space_index(repo.spaces, t.space_id);
    lemma_record_listed(repo.spaces, recs, k, si);
    lemma_all_records_from_records(repo.spaces, recs);
    let ar = all_records(repo.spaces, recs);
    let tasks = all_tasks(after);
    assert(tasks == record_tasks(ar));
    let m = choose|m: int| 0 <= m < ar.len() && ar[m] == rec;
    assert(tasks[m] == t);
    assert forall|n: int| 0 <= n < tasks.len() && tasks[n].id == t.id implies tasks[n] == t by {
        assert(recs.contains(ar[n]));
        let j = choose|j: int| 0 <= j < recs.len() && recs[j] == ar[n];
        assert(recs[j].task.id == t.id);
    }
    lemma_first_with_exists(tasks, t.id, m);
}

/// A sequence that holds a task with the id holds a first one.
proof fn lemma_first_with_exists(tasks: Seq<TaskView>, id: Seq<char>, m: int)
    requires
        0 <= m < tasks.len(),
        tasks[m].id == id,
    ensures
        exists|f: int| is_first_with(tasks, id, f),
    decreases m,
{
    if forall|g: int| 0 <= g < m ==> tasks[g].id != id {
        assert(is_first_with(tasks, id, m));
    } else {
        let g = choose|g: int| 0 <= g < m && tasks[g].id == id;
        lemma_first_with_exists(tasks, id, g);
    }
}


/// Once a space is saved, its id finds exactly that space.
pub proof fn law_saved_space_loads_back(repo: RepoView, s: SpaceView)
    requires
        ids_unique(repo),
    ensures
        space_index(saved_space(repo, s).spaces, s.id) >= 0,
        saved_space(repo, s).spaces[space_index(saved_space(repo, s).spaces, s.id)] == s,
{
    let spaces = saved_space(repo, s).spaces;
    let i = space_index(repo.spaces, s.id);
    let k: int = if i >= 0 { i } else { repo.spaces.len() as int };
    assert(spaces[k] == s);
    assert forall|j: int| 0 <= j < spaces.len() && spaces[j].id == s.id implies j == k by {
        if j != k {
            assert(spaces[j] == repo.spaces[j]);
            if i < 0 {
                assert(0 <= j < repo.spaces.len() && repo.spaces[j].id == s.id);
            } else if j < i {
                assert(repo.spaces[j].id != repo.spaces[i].id);
            } else {
                assert(repo.spaces[i].id != repo.spaces[j].id);
            }
        }
    }
    assert(0 <= k < spaces.len() && spaces[k].id == s.id);
}

/// The repository after the record of a task is removed.
pub open spec fn deleted_task(repo: RepoView, id: Seq<char>) -> RepoView {
    RepoView {
        records: if record_index(repo.records, id) >= 0 {
            repo.records.remove(record_index(repo.records, id))
        } else {
            repo.records
        },
        writes: repo.writes.push(StorageWriteView::DeleteTask(id)),
        ..repo
    }
}

/// Once a task is deleted, loading its id finds nothing.
pub proof fn law_deleted_task_is_gone(repo: RepoView, id: Seq<char>)
    requires
        ids_unique(repo),
    ensures
        find_task(all_tasks(deleted_task(repo, id)), id) is None,
{
    let after = deleted_task(repo, id);
    let recs = after.records;
    let i = record_index(repo.records, id);
    assert forall|j: int| 0 <= j < recs.len() implies recs[j].task.id != id by {
        if i >= 0 {
            if j < i {
                assert(recs[j] == repo.records[j]);
                assert(repo.records[j].task.id != repo.records[i].task.id);
            } else {
                assert(recs[j] == repo.records[j + 1]);
                assert(repo.records[i].task.id != repo.records[j + 1].task.id);
            }
        } else {
            assert(recs[j] == repo.records[j]);
        }
    }
    lemma_all_records_from_records(repo.spaces, recs);
    let ar = all_records(repo.spaces, recs);
    let tasks = all_tasks(after);
    assert forall|n: int| 0 <= n < tasks.len() implies tasks[n].id != id by {
        assert(recs.contains(ar[n]));
    }
    crate::hierarchy::lemma_find_task_none(tasks, id);
}

} // verus!
