//! The rules for the `GEMINI.md` context: which directory's file is used,
//! when a file's contents are accepted, and how the global and local
//! contexts are joined.
use vstd::prelude::*;
use vstd::utf8::{decode_utf8, valid_utf8};

use crate::text::string_from_utf8;

verus! {

/// The name of a context file.
pub const CONTEXT_FILENAME: &'static str = "GEMINI.md";

/// The name of the directory that marks a repository root.
pub const GIT_DIRNAME: &'static str = ".git";

/// The largest context file accepted, in bytes (1 MB).
pub const MAX_CONTEXT_BYTES: u64 = 1024 * 1024;

/// What was observed of one directory while walking up from the working
/// directory.
#[derive(Clone, Copy, Debug, PartialEq, Eq)]
pub struct DirProbe {
    /// The directory holds a regular file named `CONTEXT_FILENAME`.
    pub has_context_file: bool,
    /// The directory holds an entry named `GIT_DIRNAME`.
    pub has_git_dir: bool,
}

/// What to do after probing a directory.
#[derive(Clone, Copy, Debug, PartialEq, Eq)]
pub enum ContextStep {
    /// Use this directory's context file.
    Found,
    /// Stop: this directory is a repository root without a context file.
    Stop,
    /// Go on to the parent directory.
    Ascend,
}

/// The decision for one directory: its own context file wins; otherwise a
/// repository root ends the search; otherwise the search goes up.
pub open spec fn step_for(probe: DirProbe) -> ContextStep {
    if probe.has_context_file {
        ContextStep::Found
    } else if probe.has_git_dir {
        ContextStep::Stop
    } else {
        ContextStep::Ascend
    }
}

/// The index of the directory whose context file is used, given the probes
/// of the working directory and its ancestors in order; none when the search
/// stops at a repository root or runs out of ancestors.
pub open spec fn chosen_dir(probes: Seq<DirProbe>) -> Option<int>
    decreases probes.len(),
{
    if probes.len() == 0 {
        None
    } else {
        match step_for(probes[0]) {
            ContextStep::Found => Some(0),
            ContextStep::Stop => None,
            ContextStep::Ascend => match chosen_dir(probes.drop_first()) {
                Some(i) => Some(i + 1),
                None => None,
            },
        }
    }
}

/// The decision for one directory, as `step_for` says.
pub fn context_search_step(probe: DirProbe) -> (step: ContextStep)
    ensures
        step == step_for(probe),
{
    if probe.has_context_file {
        ContextStep::Found
    } else if probe.has_git_dir {
        ContextStep::Stop
    } else {
        ContextStep::Ascend
    }
}

/// The directory chosen is the first one holding a context file, provided no
/// earlier directory is a repository root; when there is none, every
/// directory up to the root (or to the first repository root) lacks one.
pub proof fn law_chosen_dir_is_first(probes: Seq<DirProbe>)
    ensures
        chosen_dir(probes) matches Some(i) ==> {
            &&& 0 <= i < probes.len()
            &&& probes[i].has_context_file
            &&& forall|j: int|
                0 <= j < i ==> !(#[trigger] probes[j]).has_context_file && !probes[j].has_git_dir
        },
        chosen_dir(probes) is None ==> forall|i: int|
            0 <= i < probes.len() && #[trigger] probes[i].has_context_file ==> exists|j: int|
                0 <= j < i && (#[trigger] probes[j]).has_git_dir,
    decreases probes.len(),
{
    if probes.len() > 0 {
        let rest = probes.drop_first();
        law_chosen_dir_is_first(rest);
        if !probes[0].has_context_file && !probes[0].has_git_dir {
            if let Some(k) = chosen_dir(rest) {
                assert forall|j: int| 0 <= j < k + 1 implies !(#[trigger] probes[j]).has_context_file
                    && !probes[j].has_git_dir by {
                    if j > 0 {
                        assert(probes[j] == rest[j - 1]);
                    }
                }
            } else {
                assert forall|i: int|
                    0 <= i < probes.len() && #[trigger] probes[i].has_context_file implies exists|
                    j: int,
                | 0 <= j < i && (#[trigger] probes[j]).has_git_dir by {
                    assert(probes[i] == rest[i - 1]);
                    assert(rest[i - 1].has_context_file);
                    let j0 = choose|j: int| 0 <= j < i - 1 && (#[trigger] rest[j]).has_git_dir;
                    assert(probes[j0 + 1] == rest[j0]);
                }
            }
        } else if !probes[0].has_context_file {
            assert forall|i: int|
                0 <= i < probes.len() && #[trigger] probes[i].has_context_file implies exists|j: int|
                0 <= j < i && (#[trigger] probes[j]).has_git_dir by {
                assert(probes[0].has_git_dir);
            }
        }
    }
}

/// The contents of a context file, read up to one byte past the limit: none
/// when over `MAX_CONTEXT_BYTES` or not valid UTF-8, else the decoded text.
pub fn context_from_bytes(bytes: Vec<u8>) -> (text: Option<String>)
    ensures
        text is Some <==> bytes@.len() <= MAX_CONTEXT_BYTES && valid_utf8(bytes@),
        text matches Some(t) ==> t@ == decode_utf8(bytes@),
{
    if bytes.len() as u64 > MAX_CONTEXT_BYTES {
        return None;
    }
    string_from_utf8(bytes)
}

/// The context to send: both the global and the local one, separated by a
/// blank line; either one alone; or none.
pub open spec fn combined(global: Option<Seq<char>>, local: Option<Seq<char>>) -> Option<Seq<char>> {
    match (global, local) {
        (Some(g), Some(l)) => Some(g + "\n\n"@ + l),
        (Some(g), None) => Some(g),
        (None, Some(l)) => Some(l),
        (None, None) => None,
    }
}

/// Joins the global context (`~/.gemini/GEMINI.md`) and the local one, as
/// `combined` says.
pub fn combine_contexts(global: Option<String>, local: Option<String>) -> (r: Option<String>)
    ensures
        r matches Some(t) ==> combined(opt_text(global), opt_text(local)) == Some(t@),
        r is None ==> combined(opt_text(global), opt_text(local)) is None,
{
    match (global, local) {
        (Some(g), Some(l)) => {
            let mut t = g;
            t.append("\n\n");
            t.append(l.as_str());
            Some(t)
        },
        (Some(g), None) => Some(g),
        (None, Some(l)) => Some(l),
        (None, None) => None,
    }
}

/// The text of an optional string.
pub open spec fn opt_text(s: Option<String>) -> Option<Seq<char>> {
    match s {
        Some(t) => Some(t@),
        None => None,
    }
}

} // verus!
