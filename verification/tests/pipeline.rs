//! Discovery scenarios and the execution-and-aggregation pipeline.
use repo_sweep::ExecutionResult;
use repo_sweep::FsTree;
use repo_sweep::OutputType;
use repo_sweep::RepositoryPath;
use repo_sweep::UsageError;
use repo_sweep::discover;
use repo_sweep::get_renderer;
use repo_sweep::parse_command;
use repo_sweep::record;

fn file(name: &str) -> FsTree {
    FsTree::File { name: name.to_string() }
}

fn dir(name: &str, children: Vec<FsTree>) -> FsTree {
    FsTree::Dir { name: name.to_string(), children }
}

fn path_strings(repos: &[RepositoryPath]) -> Vec<String> {
    repos.iter().map(|r| r.path_string()).collect()
}

#[test]
fn test_discovery_yields_each_repository_once() {
    let root = dir(
        "root",
        vec![
            dir("repoA", vec![dir(".git", vec![file("HEAD")]), dir("src", vec![file("file.txt")])]),
            dir("repoB", vec![dir(".git", vec![file("HEAD")])]),
            dir("ignored", vec![file("notes.txt")]),
        ],
    );

    let repos = discover(Some(&root), "/tmp").unwrap();
    let mut paths = path_strings(&repos);
    paths.sort();

    assert_eq!(vec!["/tmp/root/repoA".to_string(), "/tmp/root/repoB".to_string()], paths);

    let mut renderer = get_renderer(OutputType::Stdin);
    for repo in &repos {
        let outcome = Ok(ExecutionResult { stdout: b"hi".to_vec() });
        let diag = record(&mut renderer, &repo.path_string(), outcome);
        assert!(diag.is_none());
    }

    assert_eq!("(/tmp/root/repoA): hi\n(/tmp/root/repoB): hi\n", renderer.render());
}

#[test]
fn test_discovery_prunes_nested_repositories() {
    let root = dir(
        "root",
        vec![dir(
            "outer",
            vec![
                dir(".git", vec![file("HEAD")]),
                dir("vendored", vec![dir(".git", vec![file("HEAD")])]),
            ],
        )],
    );

    let repos = discover(Some(&root), "/tmp").unwrap();

    assert_eq!(vec!["/tmp/root/outer".to_string()], path_strings(&repos));
}

#[test]
fn test_discovery_skips_hidden_repositories() {
    let root = dir("root", vec![dir(".secret", vec![dir(".git", vec![file("HEAD")])])]);

    let repos = discover(Some(&root), "/tmp").unwrap();

    assert!(repos.is_empty());
}

#[test]
fn test_discovery_without_markers_is_empty() {
    let root = dir(
        "root",
        vec![dir("a", vec![dir("b", vec![file("x.txt")])]), dir("c", vec![])],
    );

    let repos = discover(Some(&root), "/tmp").unwrap();

    assert!(repos.is_empty());
}

#[test]
fn test_discovery_reports_root_itself() {
    let root = dir(
        "root",
        vec![dir(".git", vec![file("HEAD")]), dir("inner", vec![dir(".git", vec![file("HEAD")])])],
    );

    let repos = discover(Some(&root), "/tmp").unwrap();

    assert_eq!(vec!["/tmp/root".to_string()], path_strings(&repos));
}

#[test]
fn test_discovery_rejects_missing_root() {
    let missing: Option<&FsTree> = None;

    assert!(matches!(discover(missing, "/tmp"), Err(UsageError::NotADirectory)));
}

#[test]
fn test_discovery_rejects_non_directory_root() {
    let plain = file("notes.txt");

    assert!(matches!(discover(Some(&plain), "/tmp"), Err(UsageError::NotADirectory)));
}

#[test]
fn test_repository_path_joins_components() {
    let repo = RepositoryPath {
        components: vec!["/tmp".to_string(), "root".to_string(), "repoA".to_string()],
    };

    assert_eq!("/tmp/root/repoA", repo.path_string());
}

#[test]
fn test_failed_run_skips_and_continues() {
    let mut renderer = get_renderer(OutputType::Stdin);
    let mut diagnostics: Vec<String> = Vec::new();

    let outcomes: Vec<(&str, Result<ExecutionResult, String>)> = vec![
        ("/w/a", Ok(ExecutionResult { stdout: b"ok\n".to_vec() })),
        ("/w/b", Err("Failed to run command".to_string())),
        ("/w/c", Ok(ExecutionResult { stdout: b"ok\n".to_vec() })),
    ];
    for (path, outcome) in outcomes {
        if let Some(diag) = record(&mut renderer, path, outcome) {
            diagnostics.push(diag);
        }
    }

    assert_eq!(vec!["Failed to run command".to_string()], diagnostics);
    assert_eq!("(/w/a): ok\n\n(/w/c): ok\n\n", renderer.render());
}

#[test]
fn test_parse_command_splits_shell_words() {
    let cmd = parse_command("git status --short").unwrap();

    assert_eq!(vec!["git".to_string(), "status".to_string(), "--short".to_string()], cmd.tokens);
}

#[test]
fn test_parse_command_honours_quoting() {
    let cmd = parse_command("git log -1 --format=\"%h %s\"").unwrap();

    assert_eq!(
        vec!["git".to_string(), "log".to_string(), "-1".to_string(), "--format=%h %s".to_string()],
        cmd.tokens
    );
}

#[test]
fn test_parse_command_rejects_mismatched_quotes() {
    assert!(matches!(parse_command("echo 'oops"), Err(UsageError::BadCommandString)));
}

#[test]
fn test_output_type_from_str() {
    assert!(matches!(OutputType::from_str("json"), Ok(OutputType::Json)));
    assert!(matches!(OutputType::from_str("stdin"), Ok(OutputType::Stdin)));
    assert_eq!(Err("Unsupported output type."), OutputType::from_str("yaml").map(|_| ()));
}
