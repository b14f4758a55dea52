use venvpruner::paths::{dedup_paths, file_name, get_venv_paths, join, search_paths, venv_root_of};
use venvpruner::size::{get_dir_size, FsNode};
use venvpruner::text::{find, first_word, starts_with, strip_repeated, trim};
use venvpruner::venv::{
    build_virtualenv, build_virtualenvs, get_venvs, remaining_after, sort_by_size, total_size,
    BuildError, Candidate, VirtualEnv,
};
use venvpruner::version::{
    cfg_version, get_python_version, history_version, lib_version, output_version,
    InterpreterOutput, VersionSources,
};

fn strings(v: &[&str]) -> Vec<String> {
    v.iter().map(|s| s.to_string()).collect()
}

fn candidate(path: &str, python: bool, version: Option<&str>, size: u64) -> Candidate {
    Candidate {
        path: path.to_string(),
        python_exists: python,
        version: version.map(|v| v.to_string()),
        venv_size: size,
        venv_size_str: human_bytes::human_bytes(size as f64),
    }
}

fn env(path: &str, size: u64) -> VirtualEnv {
    match build_virtualenv(&candidate(path, true, Some("3.12.1"), size)) {
        Ok(v) => v,
        Err(_) => panic!("candidate should build"),
    }
}

fn no_sources() -> VersionSources {
    VersionSources { cfg_lines: None, lib_names: None, history_lines: None, interpreter_output: None }
}

fn walk() -> Vec<String> {
    strings(&[
        "/home/u/.virtualenvs",
        "/home/u/.virtualenvs/web",
        "/home/u/.virtualenvs/web/bin",
        "/home/u/.virtualenvs/web/bin/python",
        "/home/u/.virtualenvs/web/bin/pip",
        "/home/u/.virtualenvs/web/pyvenv.cfg",
        "/home/u/.virtualenvs/notes/python",
        "/home/u/.virtualenvs/ml/bin/python",
    ])
}

#[test]
fn test_get_venv_paths() {
    let venv_paths = get_venv_paths(&walk());
    assert!(!venv_paths.is_empty(), "No virtual environments found");
    assert_eq!(venv_paths, strings(&["/home/u/.virtualenvs/web", "/home/u/.virtualenvs/ml"]));
}

#[test]
fn test_build_virtualenv() {
    let venv_paths = get_venv_paths(&walk());
    let venv = build_virtualenv(&candidate(&venv_paths[0], true, None, 10))
        .ok()
        .expect("Failed to build virtual environment");
    assert_eq!(venv.path, venv_paths[0]);
    assert_eq!(venv.name, "web");
    assert_eq!(venv.python_path, "/home/u/.virtualenvs/web/bin/python");
    assert_eq!(venv.python_version, "Unknown");
}

#[test]
fn test_get_python_version() {
    let mut src = no_sources();
    src.lib_names = Some(strings(&["site.py", "python3.11"]));
    let python_version = get_python_version(&src).expect("Python version not found");
    assert!(!python_version.is_empty(), "Python version is empty");
    assert_eq!(python_version, "3.11");
}

#[test]
fn test_get_size() {
    let tree = FsNode::Dir {
        len: 4096,
        children: vec![FsNode::File { len: 100 }, FsNode::Dir { len: 4096, children: vec![] }],
    };
    let size = get_dir_size(&tree);
    assert!(size > 0, "Virtual environment size is zero");
    assert_eq!(size, 8292);
}

#[test]
fn test_build_all_virtualenvs() {
    let cands: Vec<Candidate> = get_venv_paths(&walk())
        .iter()
        .map(|p| candidate(p, true, Some("3.10.0"), 1))
        .collect();
    let venvs = build_virtualenvs(&cands);
    assert!(!venvs.is_empty(), "No virtual environments built");
    assert_eq!(venvs.len(), 2);
}

#[test]
fn test_get_size_human() {
    let size = get_dir_size(&FsNode::File { len: 2048 });
    let size_str = human_bytes::human_bytes(size as f64);
    assert!(!size_str.is_empty(), "Human-readable size is empty");
}

#[test]
fn symlinks_contribute_nothing() {
    let with_link = FsNode::Dir {
        len: 0,
        children: vec![FsNode::File { len: 7 }, FsNode::Symlink, FsNode::File { len: 5 }],
    };
    assert_eq!(get_dir_size(&with_link), 12);
    assert_eq!(get_dir_size(&FsNode::Symlink), 0);
}

#[test]
fn broken_symlink_and_unreadable_entries_count_zero() {
    let tree = FsNode::Dir {
        len: 0,
        children: vec![FsNode::Symlink, FsNode::Unreadable, FsNode::File { len: 3 }],
    };
    assert_eq!(get_dir_size(&tree), 3);
}

#[test]
fn file_sizes_sum_in_any_order() {
    let a = FsNode::Dir {
        len: 0,
        children: vec![FsNode::File { len: 1 }, FsNode::File { len: 20 }, FsNode::File { len: 300 }],
    };
    let b = FsNode::Dir {
        len: 0,
        children: vec![FsNode::File { len: 300 }, FsNode::File { len: 1 }, FsNode::File { len: 20 }],
    };
    assert_eq!(get_dir_size(&a), 321);
    assert_eq!(get_dir_size(&b), 321);
}

#[test]
fn size_saturates_instead_of_wrapping() {
    let tree = FsNode::Dir {
        len: 1,
        children: vec![FsNode::File { len: u64::MAX }],
    };
    assert_eq!(get_dir_size(&tree), u64::MAX);
}

#[test]
fn overlapping_roots_give_each_environment_once() {
    let roots = dedup_paths(&strings(&["/data/envs", "/home/u/.conda/envs", "/data/envs"]));
    assert_eq!(roots, strings(&["/data/envs", "/home/u/.conda/envs"]));
    let entries = strings(&[
        "/data/envs/a/bin/python",
        "/data/envs/b/bin/python",
        "/data/envs/a/bin/python",
    ]);
    assert_eq!(get_venv_paths(&entries), strings(&["/data/envs/a", "/data/envs/b"]));
}

#[test]
fn signature_needs_python_inside_bin() {
    assert_eq!(venv_root_of("/x/env/bin/python"), Some("/x/env".to_string()));
    assert_eq!(venv_root_of("/bin/python"), Some("/".to_string()));
    assert_eq!(venv_root_of("/x/env/Scripts/python"), None);
    assert_eq!(venv_root_of("/x/env/bin/python3"), None);
    assert_eq!(venv_root_of("/x/env/sbin/python"), None);
}

#[test]
fn search_paths_follow_home() {
    let paths = search_paths("/home/u");
    assert_eq!(paths.len(), 23);
    assert_eq!(paths[0], "/home/u/.local/pipx/venvs");
    assert_eq!(paths[3], "/usr/local/share/virtualenvs");
    assert_eq!(paths[22], "/opt/miniconda3/envs");
    assert_eq!(search_paths("/home/u/")[1], "/home/u/.virtualenvs");
}

#[test]
fn join_handles_separators() {
    assert_eq!(join("/a", "b"), "/a/b");
    assert_eq!(join("/a/", "b"), "/a/b");
    assert_eq!(join("", "b"), "b");
    assert_eq!(join("/a", "/c"), "/c");
}

#[test]
fn file_name_is_last_component() {
    assert_eq!(file_name("/home/u/.venvs/foo"), Some("foo".to_string()));
    assert_eq!(file_name("/"), None);
    assert_eq!(file_name("/a/.."), None);
}

#[test]
fn missing_interpreter_is_rejected() {
    match build_virtualenv(&candidate("/x/env", false, None, 0)) {
        Err(BuildError::MissingInterpreter { python_path }) => {
            assert_eq!(python_path, "/x/env/bin/python")
        }
        _ => panic!("expected a missing interpreter"),
    }
    let built = build_virtualenvs(&vec![
        candidate("/x/a", true, None, 1),
        candidate("/x/b", false, None, 2),
        candidate("/x/c", true, None, 3),
    ]);
    let names: Vec<&str> = built.iter().map(|v| v.name.as_str()).collect();
    assert_eq!(names, vec!["a", "c"]);
}

#[test]
fn nameless_candidate_is_rejected() {
    assert!(matches!(
        build_virtualenv(&candidate("/", true, None, 0)),
        Err(BuildError::InvalidName)
    ));
}

#[test]
fn config_file_wins_over_other_strategies() {
    let src = VersionSources {
        cfg_lines: Some(strings(&["home = /usr/bin", "version = 3.11.4", "x = y"])),
        lib_names: Some(strings(&["python3.9"])),
        history_lines: Some(strings(&["+conda-forge::python-3.8.1-h1"])),
        interpreter_output: Some(InterpreterOutput {
            stdout: "Python 3.7.0\n".to_string(),
            stderr: String::new(),
        }),
    };
    assert_eq!(get_python_version(&src), Some("3.11.4".to_string()));
}

#[test]
fn strategies_fall_through_in_order() {
    let mut src = no_sources();
    src.cfg_lines = Some(strings(&["home = /usr/bin"]));
    src.lib_names = Some(strings(&["python"]));
    src.history_lines = Some(strings(&["# cmd", "+defaults::python-3.9.7-h12 extra"]));
    assert_eq!(get_python_version(&src), Some("3.9.7-h12".to_string()));
    src.history_lines = None;
    src.interpreter_output =
        Some(InterpreterOutput { stdout: "  \n".to_string(), stderr: "Python 3.6.9\n".to_string() });
    assert_eq!(get_python_version(&src), Some("3.6.9".to_string()));
    src.interpreter_output = None;
    assert_eq!(get_python_version(&src), None);
}

#[test]
fn each_strategy_on_its_own() {
    assert_eq!(cfg_version(&strings(&["version =3.1", "version =   3.12.0  "])), Some("3.12.0".to_string()));
    assert_eq!(lib_version(&strings(&["pythonpython3.10"])), Some("3.10".to_string()));
    assert_eq!(lib_version(&strings(&["python", "python3.10"])), None);
    assert_eq!(history_version(&strings(&["python-"])), Some("Unknown".to_string()));
    assert_eq!(history_version(&strings(&["numpy"])), None);
    let out = InterpreterOutput { stdout: "Pypy".to_string(), stderr: "Python 3.1".to_string() };
    assert_eq!(output_version(&out), None);
}

#[test]
fn text_helpers() {
    assert_eq!(trim("\t a b \u{3000}\n"), "a b");
    assert_eq!(trim("   "), "");
    assert!(starts_with("version = 1", "version = "));
    assert!(!starts_with("ver", "version"));
    assert_eq!(find("xxpython-3", "python-"), Some(2));
    assert_eq!(find("xx", "python-"), None);
    assert_eq!(first_word("  3.9 more"), Some("3.9".to_string()));
    assert_eq!(first_word(" \t "), None);
    assert_eq!(strip_repeated("pypypy3", "py"), "3");
}

#[test]
fn one_environment_scenario() {
    let tree = FsNode::Dir {
        len: 0,
        children: vec![
            FsNode::File { len: 1_000_000 },
            FsNode::Dir { len: 0, children: vec![FsNode::File { len: 48_576 }] },
        ],
    };
    let size = get_dir_size(&tree);
    let mut src = no_sources();
    src.cfg_lines = Some(strings(&["version = 3.10.0"]));
    let version = get_python_version(&src);
    let cands = vec![Candidate {
        path: "/home/u/.venvs/foo".to_string(),
        python_exists: true,
        version,
        venv_size: size,
        venv_size_str: human_bytes::human_bytes(size as f64),
    }];
    let venvs = get_venvs(&cands);
    assert_eq!(venvs.len(), 1);
    assert_eq!(venvs[0].name, "foo");
    assert_eq!(venvs[0].python_version, "3.10.0");
    assert_eq!(venvs[0].venv_size, 1_048_576);
}

#[test]
fn empty_search_space() {
    let roots = dedup_paths(&vec![]);
    assert!(roots.is_empty());
    let venvs = get_venvs(&vec![]);
    assert!(venvs.is_empty());
    assert_eq!(total_size(&venvs), Some(0));
}

#[test]
fn results_ordered_by_size_descending() {
    let cands = vec![
        candidate("/e/small", true, None, 5),
        candidate("/e/big", true, None, 500),
        candidate("/e/mid", true, None, 50),
        candidate("/e/gone", false, None, 9999),
    ];
    let venvs = get_venvs(&cands);
    let sizes: Vec<u64> = venvs.iter().map(|v| v.venv_size).collect();
    assert_eq!(sizes, vec![500, 50, 5]);
    let sorted = sort_by_size(vec![env("/e/a", 1), env("/e/b", 3), env("/e/c", 3)]);
    assert!(sorted.windows(2).all(|w| w[0].venv_size >= w[1].venv_size));
}

#[test]
fn totals_and_overflow() {
    assert_eq!(total_size(&vec![env("/e/a", 10), env("/e/b", 32)]), Some(42));
    assert_eq!(total_size(&vec![env("/e/a", u64::MAX), env("/e/b", 1)]), None);
}

#[test]
fn deleting_two_of_three_leaves_the_third() {
    let all = vec![env("/e/a", 1), env("/e/b", 2), env("/e/c", 3)];
    let removed = vec![env("/e/a", 1), env("/e/b", 2)];
    let left = remaining_after(&all, &removed);
    assert_eq!(left.len(), 1);
    assert!(left[0] == env("/e/c", 3));
    let other_size = vec![env("/e/a", 7)];
    assert_eq!(remaining_after(&all, &other_size).len(), 3);
}

#[test]
fn describe_line() {
    let v = env("/e/web", 3);
    assert_eq!(v.describe(), format!("web - /e/web ({}) [3.12.1]", v.venv_size_str));
}
