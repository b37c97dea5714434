//! Discovers version-controlled repositories beneath a root directory,
//! runs a command in each, and aggregates the captured output into a report.
use vstd::prelude::*;

mod discovery;
mod pipeline;
mod rendering;

pub use pipeline::CommandSpec;
pub use pipeline::parse_command;
pub use pipeline::record;
pub use pipeline::split_of;

pub use rendering::ExecutionResult;
pub use rendering::JSONRenderer;
pub use rendering::Renderer;
pub use rendering::StdinRenderer;
pub use rendering::get_renderer;
pub use rendering::keyed_log;
pub use rendering::lemma_render_zero_logs;
pub use rendering::line_of;
pub use rendering::logged;
pub use rendering::lossy_of;
pub use rendering::pair_repr;
pub use rendering::pairs_repr;
pub use rendering::renderer_wf;
pub use rendering::spec_render_keyed;
pub use rendering::spec_rendered;
pub use rendering::unique_keys;

pub use discovery::FsTree;
pub use discovery::RepositoryPath;
pub use discovery::all_below;
pub use discovery::discover;
pub use discovery::entry_name;
pub use discovery::hidden;
pub use discovery::is_ancestor_path;
pub use discovery::is_git_repository;
pub use discovery::is_marker_dir;
pub use discovery::lemma_discovery_prunes;
pub use discovery::lemma_no_repository_no_results;
pub use discovery::lemma_repository_marker_unique;
pub use discovery::no_nested_paths;
pub use discovery::node_name;
pub use discovery::repo_paths_view;
pub use discovery::spec_discover;
pub use discovery::spec_discover_children;
pub use discovery::spec_hidden;
pub use discovery::spec_is_git_repository;
pub use discovery::spec_join;
pub use discovery::strings_view;
pub use discovery::tree_has_repository;
pub use discovery::tree_wf;

verus! {

/// Selects which report encoding the renderer produces.
#[derive(Debug)]
pub enum OutputType {
    Stdin,
    Json,
}

impl OutputType {
    /// The output type a selector string names: exactly `json` or `stdin`;
    /// any other selector is rejected.
    pub fn from_str(s: &str) -> (r: Result<OutputType, &'static str>)
        ensures
            (r matches Ok(t) && t is Json) <==> s@ == "json"@,
            (r matches Ok(t) && t is Stdin) <==> s@ == "stdin"@,
            r matches Err(m) ==> m@ == "Unsupported output type."@,
    {
        proof {
            reveal_strlit("json");
            reveal_strlit("stdin");
            assert("json"@.len() != "stdin"@.len());
        }
        let given = s.to_owned();
        if given.eq(&"json".to_owned()) {
            Ok(OutputType::Json)
        } else if given.eq(&"stdin".to_owned()) {
            Ok(OutputType::Stdin)
        } else {
            Err("Unsupported output type.")
        }
    }
}

/// A fatal validation error, reported before any work starts.
#[derive(Debug)]
pub enum UsageError {
    /// The scan location does not exist or is not a directory.
    NotADirectory,
    /// The command string cannot be split into shell words.
    BadCommandString,
}

} // verus!
