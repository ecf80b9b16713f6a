//! Text generated for the companion project: the build manifest and linker
//! configuration written before a compile, and the editable manifest restored
//! after it.
use vstd::prelude::*;

use crate::text::{replace_all, replaced};

verus! {

/// One placeholder of a template and the text that takes its place.
#[derive(Debug)]
pub struct Override {
    pub pattern: String,
    pub value: String,
}

/// A template file to read, the overrides to apply to it, and the path,
/// relative to the project directory, to write the result to.
#[derive(Debug)]
pub struct TemplateJob {
    pub from: String,
    pub to: String,
    pub overrides: Vec<Override>,
}

/// The views of a list of strings.
pub open spec fn views(v: Seq<String>) -> Seq<Seq<char>> {
    v.map_values(|s: String| s@)
}

/// `text` after each override in turn.
pub open spec fn overridden(text: Seq<char>, overrides: Seq<Override>) -> Seq<char>
    decreases overrides.len(),
{
    if overrides.len() == 0 {
        text
    } else {
        replaced(
            overridden(text, overrides.drop_last()),
            overrides.last().pattern@,
            overrides.last().value@,
        )
    }
}

/// Applies the overrides to a template's text, in order.
pub fn apply_overrides(text: &str, overrides: &Vec<Override>) -> (r: String)
    ensures
        r@ == overridden(text@, overrides@),
{
    let mut out = String::from_str(text);
    let mut i: usize = 0;
    while i < overrides.len()
        invariant
            i <= overrides@.len(),
            out@ == overridden(text@, overrides@.take(i as int)),
        decreases overrides.len() - i,
    {
        proof {
            assert(overrides@.take(i + 1).drop_last() =~= overrides@.take(i as int));
            assert(overrides@.take(i + 1).last() == overrides@[i as int]);
        }
        out = replace_all(out.as_str(), overrides[i].pattern.as_str(), overrides[i].value.as_str());
        i += 1;
    }
    proof {
        assert(overrides@.take(overrides@.len() as int) =~= overrides@);
    }
    out
}

/// The crates the editor itself adds to the companion project.
pub open spec fn editor_project_dependencies() -> Seq<Seq<char>> {
    seq!["bevy_bootstrap"@]
}

/// The crates the editor itself adds to the companion project.
pub fn editor_project_dependency_names() -> (r: Vec<String>)
    ensures
        views(r@) == editor_project_dependencies(),
{
    let mut r: Vec<String> = Vec::new();
    r.push(String::from_str("bevy_bootstrap"));
    proof {
        assert(views(r@) =~= editor_project_dependencies());
    }
    r
}

/// The linker flag that points the build at a prebuilt dependency.
pub open spec fn extern_flag(dep: Seq<char>, dll_extension: Seq<char>) -> Seq<char> {
    replaced(
        replaced(
            "  \"{{dependency}}={{lib_dir}}/{{dependency}}.{{dll_extension}}\",\n"@,
            "{{dependency}}"@,
            dep,
        ),
        "{{dll_extension}}"@,
        dll_extension,
    )
}

/// The extern flags of every dependency, in order.
pub open spec fn extern_flags(deps: Seq<Seq<char>>, dll_extension: Seq<char>) -> Seq<char>
    decreases deps.len(),
{
    if deps.len() == 0 {
        seq![]
    } else {
        extern_flags(deps.drop_last(), dll_extension) + "  \"--extern\",\n"@ + extern_flag(
            deps.last(),
            dll_extension,
        )
    }
}

/// The rustflags that link the companion project against the editor's own
/// build in `lib_dir`: a search path, then one extern flag per dependency
/// (the given ones, then the editor's own).
pub open spec fn compilation_rustflags(
    deps: Seq<Seq<char>>,
    lib_dir: Seq<char>,
    dll_extension: Seq<char>,
) -> Seq<char> {
    replaced(
        "  \"-L\",\n  \"all={{lib_dir}}/deps\",\n"@ + extern_flags(
            deps + editor_project_dependencies(),
            dll_extension,
        ),
        "{{lib_dir}}"@,
        lib_dir,
    )
}

/// Whether `job` reads `from`, writes `to`, and replaces `pattern` with `value`.
pub open spec fn job_is(
    job: TemplateJob,
    from: Seq<char>,
    to: Seq<char>,
    pattern: Seq<char>,
    value: Seq<char>,
) -> bool {
    &&& job.from@ == from
    &&& job.to@ == to
    &&& job.overrides@.len() == 1
    &&& job.overrides@[0].pattern@ == pattern
    &&& job.overrides@[0].value@ == value
}

fn template_job(from: &str, to: &str, pattern: &str, value: String) -> (r: TemplateJob)
    ensures
        job_is(r, from@, to@, pattern@, value@),
{
    let mut overrides: Vec<Override> = Vec::new();
    overrides.push(Override { pattern: String::from_str(pattern), value });
    TemplateJob { from: String::from_str(from), to: String::from_str(to), overrides }
}

/// Appends `v`'s items to `out`, each as a copy.
fn extend_cloned(out: &mut Vec<String>, v: &Vec<String>)
    ensures
        views(final(out)@) == views(old(out)@) + views(v@),
{
    let ghost start = out@;
    let mut i: usize = 0;
    while i < v.len()
        invariant
            i <= v@.len(),
            views(out@) == views(start) + views(v@.take(i as int)),
        decreases v.len() - i,
    {
        let ghost prev = out@;
        out.push(v[i].clone());
        proof {
            assert(views(out@) =~= views(prev).push(v@[i as int]@));
            assert(views(v@.take(i + 1)) =~= views(v@.take(i as int)).push(v@[i as int]@));
            assert(views(out@) =~= views(start) + views(v@.take(i + 1)));
        }
        i += 1;
    }
    proof {
        assert(v@.take(v@.len() as int) =~= v@);
    }
}

/// The rustflags for a compile against the editor's build in `lib_dir`.
pub fn rustflags_for(dependencies: &Vec<String>, lib_dir: &str, dll_extension: &str) -> (r: String)
    ensures
        r@ == compilation_rustflags(views(dependencies@), lib_dir@, dll_extension@),
{
    let mut all: Vec<String> = Vec::new();
    extend_cloned(&mut all, dependencies);
    let editor_deps = editor_project_dependency_names();
    extend_cloned(&mut all, &editor_deps);
    proof {
        assert(views(all@) =~= views(dependencies@) + editor_project_dependencies());
    }
    let ghost deps = views(all@);
    let mut rustflags = String::from_str("  \"-L\",\n  \"all={{lib_dir}}/deps\",\n");
    let mut i: usize = 0;
    while i < all.len()
        invariant
            i <= all@.len(),
            deps == views(all@),
            rustflags@ == "  \"-L\",\n  \"all={{lib_dir}}/deps\",\n"@ + extern_flags(deps.take(i as int), dll_extension@),
        decreases all.len() - i,
    {
        let flag = replace_all(
            "  \"{{dependency}}={{lib_dir}}/{{dependency}}.{{dll_extension}}\",\n",
            "{{dependency}}",
            all[i].as_str(),
        );
        let flag = replace_all(flag.as_str(), "{{dll_extension}}", dll_extension);
        rustflags.append("  \"--extern\",\n");
        rustflags.append(flag.as_str());
        proof {
            assert(deps.take(i + 1).drop_last() =~= deps.take(i as int));
            assert(deps.take(i + 1).last() == all@[i as int]@);
            assert(rustflags@ =~= "  \"-L\",\n  \"all={{lib_dir}}/deps\",\n"@ + extern_flags(
                deps.take(i + 1),
                dll_extension@,
            ));
        }
        i += 1;
    }
    proof {
        assert(deps.take(deps.len() as int) =~= deps);
    }
    replace_all(rustflags.as_str(), "{{lib_dir}}", lib_dir)
}

/// The templates to write before a compile: the build manifest with no
/// dependency list, and the linker configuration with the rustflags that link
/// against the editor's build in `lib_dir`.
pub fn setup_compilation(dependencies: &Vec<String>, lib_dir: &str, dll_extension: &str) -> (r: Vec<
    TemplateJob,
>)
    ensures
        r@.len() == 2,
        job_is(r@[0], "templates/project/Cargo.toml"@, "Cargo.toml"@, "{{dependencies}}"@, seq![]),
        job_is(
            r@[1],
            "templates/project/.cargo/config.toml"@,
            ".cargo/config.toml"@,
            "{{rustflags}}"@,
            compilation_rustflags(views(dependencies@), lib_dir@, dll_extension@),
        ),
{
    let mut jobs: Vec<TemplateJob> = Vec::new();
    jobs.push(template_job("templates/project/Cargo.toml", "Cargo.toml", "{{dependencies}}", String::new()));
    let rustflags = rustflags_for(dependencies, lib_dir, dll_extension);
    jobs.push(
        template_job(
            "templates/project/.cargo/config.toml",
            ".cargo/config.toml",
            "{{rustflags}}",
            rustflags,
        ),
    );
    jobs
}

/// The manifest line that takes a dependency from the engine's repository.
pub open spec fn git_dependency_line(dep: Seq<char>) -> Seq<char> {
    replaced(
        "{{dependency}} = { git = \"https://github.com/gehud/bevy.git\", branch = \"dynamic\" }\n"@,
        "{{dependency}}"@,
        dep,
    )
}

/// The manifest entry that takes one of the editor's own crates from
/// `lib_dir` (written without a line break).
pub open spec fn path_dependency_line(dep: Seq<char>, lib_dir: Seq<char>) -> Seq<char> {
    replaced(
        replaced("{{dependency}} = { path = \"{{lib_dir}}/crates/{{dependency}}\" }"@, "{{dependency}}"@, dep),
        "{{lib_dir}}"@,
        lib_dir,
    )
}

pub open spec fn git_dependency_lines(deps: Seq<Seq<char>>) -> Seq<char>
    decreases deps.len(),
{
    if deps.len() == 0 {
        seq![]
    } else {
        git_dependency_lines(deps.drop_last()) + git_dependency_line(deps.last())
    }
}

pub open spec fn path_dependency_lines(deps: Seq<Seq<char>>, lib_dir: Seq<char>) -> Seq<char>
    decreases deps.len(),
{
    if deps.len() == 0 {
        seq![]
    } else {
        path_dependency_lines(deps.drop_last(), lib_dir) + path_dependency_line(deps.last(), lib_dir)
    }
}

/// The dependency list of the editable manifest.
pub open spec fn editing_dependencies(deps: Seq<Seq<char>>, lib_dir: Seq<char>) -> Seq<char> {
    git_dependency_lines(deps) + path_dependency_lines(editor_project_dependencies(), lib_dir)
}

/// The templates to write after a compile: the editable build manifest, with
/// the engine taken from its repository and the editor's crates from
/// `lib_dir`, and the linker configuration without rustflags.
pub fn setup_editing(dependencies: &Vec<String>, lib_dir: &str) -> (r: Vec<TemplateJob>)
    ensures
        r@.len() == 2,
        job_is(
            r@[0],
            "templates/project/Cargo.toml"@,
            "Cargo.toml"@,
            "{{dependencies}}"@,
            editing_dependencies(views(dependencies@), lib_dir@),
        ),
        job_is(r@[1], "templates/project/.cargo/config.toml"@, ".cargo/config.toml"@, "{{rustflags}}"@, seq![]),
{
    let ghost deps = views(dependencies@);
    let mut text = String::new();
    let mut i: usize = 0;
    while i < dependencies.len()
        invariant
            i <= dependencies@.len(),
            deps == views(dependencies@),
            text@ == git_dependency_lines(deps.take(i as int)),
        decreases dependencies.len() - i,
    {
        let line = replace_all(
            "{{dependency}} = { git = \"https://github.com/gehud/bevy.git\", branch = \"dynamic\" }\n",
            "{{dependency}}",
            dependencies[i].as_str(),
        );
        text.append(line.as_str());
        proof {
            assert(deps.take(i + 1).drop_last() =~= deps.take(i as int));
            assert(deps.take(i + 1).last() == dependencies@[i as int]@);
        }
        i += 1;
    }
    proof {
        assert(deps.take(deps.len() as int) =~= deps);
    }
    let editor_deps = editor_project_dependency_names();
    let ghost eds = views(editor_deps@);
    let ghost head = text@;
    let mut j: usize = 0;
    while j < editor_deps.len()
        invariant
            j <= editor_deps@.len(),
            eds == views(editor_deps@),
            text@ == head + path_dependency_lines(eds.take(j as int), lib_dir@),
        decreases editor_deps.len() - j,
    {
        let line = replace_all(
            "{{dependency}} = { path = \"{{lib_dir}}/crates/{{dependency}}\" }",
            "{{dependency}}",
            editor_deps[j].as_str(),
        );
        let line = replace_all(line.as_str(), "{{lib_dir}}", lib_dir);
        text.append(line.as_str());
        proof {
            assert(eds.take(j + 1).drop_last() =~= eds.take(j as int));
            assert(eds.take(j + 1).last() == editor_deps@[j as int]@);
            assert(text@ =~= head + path_dependency_lines(eds.take(j + 1), lib_dir@));
        }
        j += 1;
    }
    proof {
        assert(eds.take(eds.len() as int) =~= eds);
    }
    let mut jobs: Vec<TemplateJob> = Vec::new();
    jobs.push(template_job("templates/project/Cargo.toml", "Cargo.toml", "{{dependencies}}", text));
    jobs.push(
        template_job(
            "templates/project/.cargo/config.toml",
            ".cargo/config.toml",
            "{{rustflags}}",
            String::new(),
        ),
    );
    jobs
}

/// The editor's build directory as the manifests write it: with forward
/// slashes only.
pub fn normalize_lib_dir(dir: &str) -> (r: String)
    ensures
        r@ == replaced(dir@, "\\"@, "/"@),
{
    replace_all(dir, "\\", "/")
}

} // verus!
