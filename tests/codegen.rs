use bevy_editor::codegen::{
    apply_overrides, editor_project_dependency_names, normalize_lib_dir, rustflags_for,
    setup_compilation, setup_editing, Override,
};
use bevy_editor::text::{contains_str, replace_all};

#[test]
fn replace_all_matches_left_to_right() {
    assert_eq!(replace_all("aaa", "aa", "b"), "ba");
    assert_eq!(replace_all("x{{a}}y{{a}}", "{{a}}", "1"), "x1y1");
    assert_eq!(replace_all("abc", "zz", "q"), "abc");
    assert_eq!(replace_all("", "a", "b"), "");
    assert_eq!(replace_all("ab", "", "-"), "ab".replace("", "-"));
    assert_eq!(replace_all("", "", "-"), "-");
    assert_eq!(replace_all("é-é", "é", "e"), "e-e");
}

#[test]
fn contains_str_finds_substrings() {
    assert!(contains_str("transform", "form"));
    assert!(contains_str("abc", ""));
    assert!(!contains_str("ab", "abc"));
    assert!(!contains_str("abc", "ac"));
}

#[test]
fn overrides_apply_in_order() {
    let overrides = vec![
        Override { pattern: "{{a}}".to_string(), value: "{{b}}".to_string() },
        Override { pattern: "{{b}}".to_string(), value: "done".to_string() },
    ];
    assert_eq!(apply_overrides("[{{a}}]", &overrides), "[done]");
    assert_eq!(apply_overrides("same", &vec![]), "same");
}

#[test]
fn rustflags_link_against_the_editor_build() {
    let flags = rustflags_for(&vec!["bevy".to_string()], "/opt/ed", "so");
    assert_eq!(
        flags,
        "  \"-L\",\n  \"all=/opt/ed/deps\",\n  \"--extern\",\n  \"bevy=/opt/ed/bevy.so\",\n  \"--extern\",\n  \"bevy_bootstrap=/opt/ed/bevy_bootstrap.so\",\n"
    );
}

#[test]
fn compilation_templates() {
    let jobs = setup_compilation(&vec!["bevy_ecs".to_string()], "/e", "dll");
    assert_eq!(jobs.len(), 2);
    assert_eq!(jobs[0].from, "templates/project/Cargo.toml");
    assert_eq!(jobs[0].to, "Cargo.toml");
    assert_eq!(jobs[0].overrides[0].pattern, "{{dependencies}}");
    assert_eq!(jobs[0].overrides[0].value, "");
    assert_eq!(jobs[1].to, ".cargo/config.toml");
    assert_eq!(jobs[1].overrides[0].pattern, "{{rustflags}}");
    assert!(jobs[1].overrides[0].value.contains("  \"bevy_ecs=/e/bevy_ecs.dll\",\n"));
}

#[test]
fn editing_templates() {
    let jobs = setup_editing(&vec!["bevy".to_string(), "bevy_app".to_string()], "/e");
    assert_eq!(
        jobs[0].overrides[0].value,
        "bevy = { git = \"https://github.com/gehud/bevy.git\", branch = \"dynamic\" }\nbevy_app = { git = \"https://github.com/gehud/bevy.git\", branch = \"dynamic\" }\nbevy_bootstrap = { path = \"/e/crates/bevy_bootstrap\" }"
    );
    assert_eq!(jobs[1].from, "templates/project/.cargo/config.toml");
    assert_eq!(jobs[1].overrides[0].value, "");
}

#[test]
fn editor_dependencies_and_lib_dir() {
    assert_eq!(editor_project_dependency_names(), vec!["bevy_bootstrap".to_string()]);
    assert_eq!(normalize_lib_dir("C:\\work\\editor"), "C:/work/editor");
    assert_eq!(normalize_lib_dir("/usr/src"), "/usr/src");
}
