//! The orchestration steps around one run: splitting the command string into
//! a command specification, and recording one repository's outcome with the
//! active renderer.
use vstd::prelude::*;
use crate::UsageError;
use crate::discovery::strings_view;
use crate::rendering::ExecutionResult;
use crate::rendering::Renderer;
use crate::rendering::logged;
use crate::rendering::renderer_wf;

verus! {

/// The words that shell-word splitting yields for the given command string,
/// or nothing when the string's quotes are mismatched.
pub uninterp spec fn split_of(s: Seq<char>) -> Option<Seq<Seq<char>>>;

/// Relies on `shellwords::split`: splits a string into words the way the
/// Bourne shell would, a pure function of the string; it errs exactly on
/// mismatched quotes.
#[verifier::external_body]
fn split_words(input: &str) -> (r: Option<Vec<String>>)
    ensures
        r is Some <==> split_of(input@) is Some,
        r matches Some(words) ==> strings_view(words@) == split_of(input@).unwrap(),
{
    shellwords::split(input).ok()
}

/// An ordered sequence of command tokens: the program name, then its
/// arguments. Immutable once constructed.
pub struct CommandSpec {
    pub tokens: Vec<String>,
}

/// Splits the command string into a command specification. Fails, before any
/// work starts, exactly when the string cannot be split as shell words.
pub fn parse_command(exec: &str) -> (r: Result<CommandSpec, UsageError>)
    ensures
        r is Ok <==> split_of(exec@) is Some,
        r matches Ok(cmd) ==> strings_view(cmd.tokens@) == split_of(exec@).unwrap(),
        r matches Err(e) ==> e == UsageError::BadCommandString,
{
    match split_words(exec) {
        Some(words) => Ok(CommandSpec { tokens: words }),
        None => Err(UsageError::BadCommandString),
    }
}

/// Feeds one repository's outcome to the renderer: a captured output is
/// logged, a failed run leaves the renderer unchanged and becomes a
/// diagnostic for the error channel. Either way the caller goes on with the
/// remaining repositories.
pub fn record(renderer: &mut Renderer, repo: &str, outcome: Result<ExecutionResult, String>) -> (diag:
    Option<String>)
    requires
        renderer_wf(*old(renderer)),
    ensures
        renderer_wf(*final(renderer)),
        outcome matches Ok(out) ==> diag is None && logged(
            *old(renderer),
            *final(renderer),
            out,
            repo@,
        ),
        outcome matches Err(e) ==> *final(renderer) == *old(renderer) && diag == Some(e),
{
    match outcome {
        Ok(out) => {
            match renderer.log(&out, repo) {
                Ok(()) => None,
                Err(message) => Some(message),
            }
        },
        Err(e) => Some(e),
    }
}

} // verus!
