//! The renderers: line-oriented and keyed reports.
use repo_sweep::ExecutionResult;
use repo_sweep::OutputType;
use repo_sweep::Renderer;
use repo_sweep::StdinRenderer;
use repo_sweep::get_renderer;

fn output(text: &str) -> ExecutionResult {
    ExecutionResult { stdout: text.as_bytes().to_vec() }
}

#[test]
fn test_render_stdin_empty() {
    assert_eq!("", StdinRenderer::new().render())
}

#[test]
fn test_render_stdin_non_empty() {
    let mut stdin: StdinRenderer = Default::default();
    let path = "/path/to/repo";

    stdin.log(&output("main"), path).unwrap();
    stdin.log(&output("main"), path).unwrap();

    let expected = "(/path/to/repo): main\n(/path/to/repo): main\n";

    assert_eq!(expected, stdin.render())
}

#[test]
fn test_render_is_idempotent_without_logs() {
    let renderer = get_renderer(OutputType::Stdin);

    assert_eq!(renderer.render(), renderer.render());
    assert_eq!("", renderer.render());
}

#[test]
fn test_render_keyed_empty_is_empty_container() {
    let renderer = get_renderer(OutputType::Json);

    assert_eq!("{}", renderer.render());
    assert_eq!(renderer.render(), renderer.render());
}

#[test]
fn test_render_keyed_one_pair_per_repository() {
    let mut renderer = get_renderer(OutputType::Json);

    renderer.log(&output("clean"), "/w/a").unwrap();
    renderer.log(&output("dirty"), "/w/b").unwrap();

    assert_eq!("{\"/w/a\": \"clean\", \"/w/b\": \"dirty\"}", renderer.render());
}

#[test]
fn test_render_keyed_overwrites_duplicate_key() {
    let mut renderer = get_renderer(OutputType::Json);

    renderer.log(&output("first"), "/w/a").unwrap();
    renderer.log(&output("second"), "/w/a").unwrap();

    assert_eq!("{\"/w/a\": \"second\"}", renderer.render());
}

#[test]
fn test_get_renderer_picks_the_selected_encoding() {
    assert!(matches!(get_renderer(OutputType::Stdin), Renderer::Stdin(_)));
    assert!(matches!(get_renderer(OutputType::Json), Renderer::Json(_)));
}

#[test]
fn test_stringify_decodes_output_permissively() {
    assert_eq!("main", output("main").stringify());
    let invalid = ExecutionResult { stdout: vec![0xff, 0x68, 0x69] };
    assert_eq!("\u{FFFD}hi", invalid.stringify());
}
