//! What an external command reported: the library's one view of the daemon.

use vstd::prelude::*;

verus! {

/// The outcome of running an external command to completion. A non-zero
/// exit is data here, not an error: each operation decides what it means.
pub struct CommandOutput {
    /// The command exited with status zero.
    pub success: bool,
    /// Its standard output, as text.
    pub stdout: String,
    /// Its standard error, as text.
    pub stderr: String,
}

/// The content of a `CommandOutput`.
pub struct OutputView {
    pub success: bool,
    pub stdout: Seq<char>,
    pub stderr: Seq<char>,
}

impl View for CommandOutput {
    type V = OutputView;

    open spec fn view(&self) -> OutputView {
        OutputView { success: self.success, stdout: self.stdout@, stderr: self.stderr@ }
    }
}

/// An optional text as an optional character sequence.
pub open spec fn opt_text(o: Option<String>) -> Option<Seq<char>> {
    match o {
        Some(s) => Some(s@),
        None => None,
    }
}

/// The name of the network-management daemon's command-line tool.
pub const NMCLI: &'static str = "nmcli";

/// A list of literal words as character sequences.
pub open spec fn words_view(v: Seq<String>) -> Seq<Seq<char>> {
    v.map_values(|a: String| a@)
}

} // verus!
