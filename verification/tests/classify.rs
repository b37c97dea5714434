//! Classification of entry names and of directory nodes.
use repo_sweep::FsTree;
use repo_sweep::hidden;
use repo_sweep::is_git_repository;

fn file(name: &str) -> FsTree {
    FsTree::File { name: name.to_string() }
}

fn dir(name: &str, children: Vec<FsTree>) -> FsTree {
    FsTree::Dir { name: name.to_string(), children }
}

#[test]
fn test_hidden_file_is_detected() {
    let file_name = ".secret";

    assert_eq!(".secret", file_name);
    assert!(hidden(file_name));
}

#[test]
fn test_hidden_directory_is_detected() {
    let hidden_dir = dir(".secret", vec![file("foo.txt")]);
    let FsTree::Dir { name, .. } = &hidden_dir else { unreachable!() };

    assert_eq!(".secret", name);
    assert!(hidden(name));
}

#[test]
fn test_visible_file_is_detected() {
    let file_name = "visible.txt";

    assert_eq!("visible.txt", file_name);
    assert!(!hidden(file_name));
}

#[test]
fn test_visible_directory_is_detected() {
    let visible_dir = dir("visible", vec![file("foo.txt")]);
    let FsTree::Dir { name, .. } = &visible_dir else { unreachable!() };

    assert_eq!("visible", name);
    assert!(!hidden(name));
}

#[test]
fn test_git_repository_is_detected() {
    let git_dir = dir("repo", vec![dir(".git", vec![file("foo")])]);
    let FsTree::Dir { name, .. } = &git_dir else { unreachable!() };

    assert_eq!("repo", name);
    assert!(is_git_repository(Some(&git_dir)))
}

#[test]
fn test_git_repository_with_multiple_subdirs_is_detected() {
    let git_dir = dir(
        "repo",
        vec![dir(".git", vec![file("foo")]), dir("src", vec![file("foo.rs")])],
    );
    let FsTree::Dir { name, .. } = &git_dir else { unreachable!() };

    assert_eq!("repo", name);
    assert!(is_git_repository(Some(&git_dir)))
}

#[test]
fn test_not_repository_is_detected() {
    let non_git_dir = dir("not_repo", vec![dir(".fit", vec![file("foo")])]);
    let FsTree::Dir { name, .. } = &non_git_dir else { unreachable!() };

    assert_eq!("not_repo", name);
    assert!(!is_git_repository(Some(&non_git_dir)))
}

#[test]
fn test_hidden_git_repository_is_detected() {
    let hidden_git_dir = dir(".hidden", vec![dir(".git", vec![file("foo")])]);
    let FsTree::Dir { name, .. } = &hidden_git_dir else { unreachable!() };

    assert_eq!(".hidden", name);
    assert!(!is_git_repository(Some(&hidden_git_dir)))
}

#[test]
fn test_non_existent_git_dir_is_detected() {
    let non_existent_git_dir: Option<&FsTree> = None;

    assert!(non_existent_git_dir.is_none());
    assert!(!is_git_repository(non_existent_git_dir));
}

#[test]
fn test_empty_dir_is_detected() {
    let empty = dir("scratch", vec![]);

    assert!(!is_git_repository(Some(&empty)));
}

#[test]
fn test_empty_name_is_not_hidden() {
    assert!(!hidden(""));
}

#[test]
fn test_marker_must_be_a_directory() {
    let decoy = dir("repo", vec![file(".git")]);

    assert!(!is_git_repository(Some(&decoy)));
}
