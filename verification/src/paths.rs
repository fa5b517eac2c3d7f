//! Where the application keeps its files, below one data root:
//! `config/config.ron`, `config/state.ron`, and for each space
//! `spaces/<space id>/space.ron` with its tasks in `todo/` and `archive/`.

use vstd::prelude::*;
use vstd::string::*;
use crate::ids::{SpaceId, TaskId};
use crate::model::Task;
use crate::text::str_eq;

verus! {

/// `part` appended to `base` as a path component: with a `/` between them
/// unless `base` is empty or already ends in `/`.
pub open spec fn path_join(base: Seq<char>, part: Seq<char>) -> Seq<char> {
    if base.len() == 0 || base.last() == '/' {
        base + part
    } else {
        base + seq!['/'] + part
    }
}

fn join(base: &str, part: &str) -> (r: String)
    ensures
        r@ == path_join(base@, part@),
{
    let n = base.unicode_len();
    let mut out = String::from_str(base);
    if n > 0 && base.get_char(n - 1) != '/' {
        out.append("/");
        proof {
            reveal_strlit("/");
            assert("/"@ =~= seq!['/']);
        }
    }
    out.append(part);
    out
}

/// The layout of the files below a data root.
#[derive(Debug)]
pub struct DataPaths {
    root: String,
}

impl DataPaths {
    pub closed spec fn root_text(&self) -> Seq<char> {
        self.root@
    }

    pub open spec fn config_dir_text(&self) -> Seq<char> {
        path_join(self.root_text(), "config"@)
    }

    pub open spec fn spaces_dir_text(&self) -> Seq<char> {
        path_join(self.root_text(), "spaces"@)
    }

    pub open spec fn space_dir_text(&self, space_id: Seq<char>) -> Seq<char> {
        path_join(self.spaces_dir_text(), space_id)
    }

    pub open spec fn bucket_dir_text(&self, space_id: Seq<char>, bucket: Seq<char>) -> Seq<char> {
        path_join(self.space_dir_text(space_id), if bucket == "archive"@ { "archive"@ } else { "todo"@ })
    }

    pub fn from_root(root: String) -> (r: Self)
        ensures
            r.root_text() == root@,
    {
        DataPaths { root }
    }

    pub fn root(&self) -> (r: &str)
        ensures
            r@ == self.root_text(),
    {
        self.root.as_str()
    }

    pub fn config_dir(&self) -> (r: String)
        ensures
            r@ == self.config_dir_text(),
    {
        join(self.root.as_str(), "config")
    }

    pub fn spaces_dir(&self) -> (r: String)
        ensures
            r@ == self.spaces_dir_text(),
    {
        join(self.root.as_str(), "spaces")
    }

    pub fn config_file(&self) -> (r: String)
        ensures
            r@ == path_join(self.config_dir_text(), "config.ron"@),
    {
        join(self.config_dir().as_str(), "config.ron")
    }

    pub fn state_file(&self) -> (r: String)
        ensures
            r@ == path_join(self.config_dir_text(), "state.ron"@),
    {
        join(self.config_dir().as_str(), "state.ron")
    }

    pub fn space_dir(&self, space_id: &SpaceId) -> (r: String)
        ensures
            r@ == self.space_dir_text(space_id@),
    {
        join(self.spaces_dir().as_str(), space_id.as_str())
    }

    pub fn space_file(&self, space_id: &SpaceId) -> (r: String)
        ensures
            r@ == path_join(self.space_dir_text(space_id@), "space.ron"@),
    {
        join(self.space_dir(space_id).as_str(), "space.ron")
    }

    pub fn space_todo_dir(&self, space_id: &SpaceId) -> (r: String)
        ensures
            r@ == path_join(self.space_dir_text(space_id@), "todo"@),
    {
        join(self.space_dir(space_id).as_str(), "todo")
    }

    pub fn space_archive_dir(&self, space_id: &SpaceId) -> (r: String)
        ensures
            r@ == path_join(self.space_dir_text(space_id@), "archive"@),
    {
        join(self.space_dir(space_id).as_str(), "archive")
    }

    /// The file of a task in a bucket: `archive/` for the bucket named
    /// `archive`, `todo/` for any other name.
    pub fn task_path_for_id(&self, space_id: &SpaceId, task_id: &TaskId, bucket: &str) -> (r: String)
        ensures
            r@ == path_join(self.bucket_dir_text(space_id@, bucket@), task_id@ + ".ron"@),
    {
        proof {
            reveal_strlit("archive");
        }
        let base = if str_eq(bucket, "archive") { self.space_archive_dir(space_id) } else { self.space_todo_dir(space_id) };
        let mut name = String::from_str(task_id.as_str());
        name.append(".ron");
        join(base.as_str(), name.as_str())
    }

    /// The file a task belongs in, by its space and its archived flag.
    pub fn task_path(&self, task: &Task) -> (r: String)
        ensures
            r@ == path_join(self.bucket_dir_text(task@.space_id, if task@.archived { "archive"@ } else { "todo"@ }), task@.id + ".ron"@),
    {
        self.task_path_for_id(&task.space_id, &task.id, task.storage_bucket())
    }
}

impl Clone for DataPaths {
    fn clone(&self) -> (r: Self)
        ensures
            r.root_text() == self.root_text(),
    {
        DataPaths { root: self.root.clone() }
    }
}

/// The repository kept in files below a data root.
#[derive(Debug)]
pub struct FilesystemRepository {
    paths: DataPaths,
}

impl FilesystemRepository {
    pub fn new(paths: DataPaths) -> (r: Self)
        ensures
            r.paths_spec().root_text() == paths.root_text(),
    {
        FilesystemRepository { paths }
    }

    pub closed spec fn paths_spec(&self) -> DataPaths {
        self.paths
    }

    pub fn paths(&self) -> (r: &DataPaths)
        ensures
            r.root_text() == self.paths_spec().root_text(),
    {
        &self.paths
    }
}

} // verus!
