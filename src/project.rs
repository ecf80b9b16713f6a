//! The project directory's layout, the editor's configuration files, and the
//! list of known projects.
use vstd::prelude::*;

verus! {

/// The project's cache directory, relative to the project directory.
pub const PROJECT_CACHE_DIR: &'static str = ".bevy";

/// The project's asset directory, relative to the project directory.
pub const PROJECT_ASSET_DIR: &'static str = "assets";

/// The processed assets, relative to the cache directory.
pub const PROJECT_IMPORTED_ASSET_DIR: &'static str = "imported";

/// `dir` extended by the relative path `part`, with a `/` between them unless
/// `dir` is empty or already ends with one.
pub open spec fn joined(dir: Seq<char>, part: Seq<char>) -> Seq<char> {
    if dir.len() == 0 || dir.last() == '/' {
        dir + part
    } else {
        dir + seq!['/'] + part
    }
}

/// Extends `dir` by the relative path `part`.
pub fn join(dir: &str, part: &str) -> (r: String)
    ensures
        r@ == joined(dir@, part@),
{
    let mut out = String::from_str(dir);
    let n = dir.unicode_len();
    if n > 0 && dir.get_char(n - 1) != '/' {
        out.append("/");
        proof {
            reveal_strlit("/");
        }
    }
    out.append(part);
    proof {
        reveal_strlit("/");
        if n > 0 {
            assert(dir@.last() == dir@[n - 1]);
        }
    }
    out
}

/// The directory of the project the editor works on.
#[derive(Clone, Debug)]
pub struct ProjectDir(pub String);

impl ProjectDir {
    /// Where the project's assets live.
    pub fn asset_dir(&self) -> (r: String)
        ensures
            r@ == joined(self.0@, PROJECT_ASSET_DIR@),
    {
        join(self.0.as_str(), PROJECT_ASSET_DIR)
    }

    /// Where the processed assets live.
    pub fn imported_asset_dir(&self) -> (r: String)
        ensures
            r@ == joined(joined(self.0@, PROJECT_CACHE_DIR@), PROJECT_IMPORTED_ASSET_DIR@),
    {
        let cache = join(self.0.as_str(), PROJECT_CACHE_DIR);
        join(cache.as_str(), PROJECT_IMPORTED_ASSET_DIR)
    }

    /// The marker directory whose presence makes a directory a project.
    pub fn cache_dir(&self) -> (r: String)
        ensures
            r@ == joined(self.0@, PROJECT_CACHE_DIR@),
    {
        join(self.0.as_str(), PROJECT_CACHE_DIR)
    }
}

/// The editor opened on a project directory.
#[derive(Clone, Debug)]
pub struct EditorPlugin {
    pub project_dir: String,
}

impl EditorPlugin {
    /// The asset directory and the processed asset directory the asset
    /// server is set up with.
    pub fn asset_paths(&self) -> (r: (String, String))
        ensures
            r.0@ == joined(self.project_dir@, PROJECT_ASSET_DIR@),
            r.1@ == joined(joined(self.project_dir@, PROJECT_CACHE_DIR@), PROJECT_IMPORTED_ASSET_DIR@),
    {
        let dir = ProjectDir(self.project_dir.clone());
        (dir.asset_dir(), dir.imported_asset_dir())
    }
}

/// The application whose configuration files are kept together.
#[derive(Clone, Copy, Debug)]
pub struct AppConfig {
    name: &'static str,
}

impl AppConfig {
    pub closed spec fn spec_name(&self) -> Seq<char> {
        self.name@
    }

    pub fn new(name: &'static str) -> (r: Self)
        ensures
            r.spec_name() == name@,
    {
        AppConfig { name }
    }

    pub fn name(&self) -> (r: &'static str)
        ensures
            r@ == self.spec_name(),
    {
        self.name
    }

    /// The file name of the configuration `file`, within the application's
    /// configuration directory.
    pub fn config_file_name(&self, file: &str) -> (r: String)
        ensures
            r@ == file@ + ".ron"@,
    {
        let mut r = String::from_str(file);
        r.append(".ron");
        r
    }

    /// The path of the configuration `file` within `config_dir`.
    pub fn get_config_path(&self, config_dir: &str, file: &str) -> (r: String)
        ensures
            r@ == joined(config_dir@, file@ + ".ron"@),
    {
        let name = self.config_file_name(file);
        join(config_dir, name.as_str())
    }
}

/// The scene last saved or loaded, kept across sessions.
#[derive(Clone, Debug, Default)]
pub struct SelectedScene {
    pub active_scene_path: Option<String>,
}

/// The project chosen in the project list, and its active scene.
#[derive(Clone, Debug, Default)]
pub struct SelectedProject {
    pub dir: Option<String>,
    pub active_scene_path: Option<String>,
}

/// Keeps the projects whose directory still exists, in order.
pub fn validate_projects(projects: &mut Vec<String>, exists: &Vec<bool>)
    requires
        old(projects)@.len() == exists@.len(),
    ensures
        final(projects)@ == kept_existing(old(projects)@, exists@),
{
    let mut out: Vec<String> = Vec::new();
    let ghost start = projects@;
    let mut i: usize = 0;
    while i < projects.len()
        invariant
            i <= start.len(),
            projects@ == start,
            start.len() == exists@.len(),
            out@ == kept_existing(start.take(i as int), exists@.take(i as int)),
        decreases start.len() - i,
    {
        proof {
            assert(start.take(i + 1).drop_last() =~= start.take(i as int));
            assert(exists@.take(i + 1).drop_last() =~= exists@.take(i as int));
        }
        if exists[i] {
            out.push(projects[i].clone());
        }
        i += 1;
    }
    proof {
        assert(start.take(start.len() as int) =~= start);
        assert(exists@.take(exists@.len() as int) =~= exists@);
    }
    *projects = out;
}

/// The projects whose directory exists, in order.
pub open spec fn kept_existing(projects: Seq<String>, exists: Seq<bool>) -> Seq<String>
    decreases projects.len(),
{
    if projects.len() == 0 || exists.len() == 0 {
        seq![]
    } else if exists.last() {
        kept_existing(projects.drop_last(), exists.drop_last()).push(projects.last())
    } else {
        kept_existing(projects.drop_last(), exists.drop_last())
    }
}


/// Whether the project list already holds `dir`.
pub fn contains_project(projects: &Vec<String>, dir: &String) -> (r: bool)
    ensures
        r == exists|i: int| 0 <= i < projects@.len() && #[trigger] projects@[i]@ == dir@,
{
    let mut i: usize = 0;
    while i < projects.len()
        invariant
            i <= projects@.len(),
            forall|k: int| 0 <= k < i ==> #[trigger] projects@[k]@ != dir@,
        decreases projects.len() - i,
    {
        if projects[i] == *dir {
            return true;
        }
        i += 1;
    }
    false
}

/// Adds a project the user picked, when the list does not hold it yet and
/// creating (or recognising) it succeeded; returns whether it was added.
pub fn register_project(projects: &mut Vec<String>, dir: String, ready: bool) -> (added: bool)
    ensures
        added == (ready && !exists|i: int| 0 <= i < old(projects)@.len() && #[trigger] old(projects)@[i]@ == dir@),
        final(projects)@ == if added {
            old(projects)@.push(dir)
        } else {
            old(projects)@
        },
{
    if ready && !contains_project(projects, &dir) {
        projects.push(dir);
        true
    } else {
        false
    }
}

/// The list after removing, one after the other, the entries at `indices`
/// (each index counts in the list as the earlier removals left it).
pub open spec fn removed_in_turn(projects: Seq<String>, indices: Seq<usize>) -> Seq<String>
    decreases indices.len(),
{
    if indices.len() == 0 {
        projects
    } else {
        removed_in_turn(projects, indices.drop_last()).remove(indices.last() as int)
    }
}

/// Whether every removal in turn names an entry of the list it applies to.
pub open spec fn removals_valid(projects: Seq<String>, indices: Seq<usize>) -> bool
    decreases indices.len(),
{
    indices.len() == 0 || (removals_valid(projects, indices.drop_last()) && (indices.last() as int)
        < removed_in_turn(projects, indices.drop_last()).len())
}

/// Removes the projects the user dismissed, in the order they were
/// dismissed, and empties the list of dismissals.
pub fn remove_projects(projects: &mut Vec<String>, to_remove: &mut Vec<usize>)
    requires
        removals_valid(old(projects)@, old(to_remove)@),
    ensures
        final(projects)@ == removed_in_turn(old(projects)@, old(to_remove)@),
        final(to_remove)@ == Seq::<usize>::empty(),
{
    let ghost start = projects@;
    let ghost idx = to_remove@;
    let mut i: usize = 0;
    while i < to_remove.len()
        invariant
            i <= idx.len(),
            to_remove@ == idx,
            removals_valid(start, idx),
            projects@ == removed_in_turn(start, idx.take(i as int)),
        decreases idx.len() - i,
    {
        proof {
            assert(idx.take(i + 1).drop_last() =~= idx.take(i as int));
            assert(idx.take(i + 1).last() == idx[i as int]);
            lemma_removals_valid_prefix(start, idx, i + 1);
        }
        projects.remove(to_remove[i]);
        i += 1;
    }
    proof {
        assert(idx.take(idx.len() as int) =~= idx);
    }
    to_remove.clear();
}

proof fn lemma_removals_valid_prefix(projects: Seq<String>, indices: Seq<usize>, n: int)
    requires
        removals_valid(projects, indices),
        0 <= n <= indices.len(),
    ensures
        removals_valid(projects, indices.take(n)),
    decreases indices.len() - n,
{
    if n < indices.len() {
        lemma_removals_valid_prefix(projects, indices.drop_last(), n);
        assert(indices.drop_last().take(n) =~= indices.take(n));
    } else {
        assert(indices.take(n) =~= indices);
    }
}

} // verus!
