use vstd::prelude::*;

verus! {

/// Classification of a captured item.
///
/// The recorder currently files every completed output line under
/// `Output`; the remaining kinds are the query surface's vocabulary.
#[derive(Clone, Copy, Debug, PartialEq, Eq, Structural)]
pub enum ItemType {
    Url,
    Path,
    Command,
    Output,
    Env,
    Pid,
    Error,
    Clipboard,
    Tmux,
}

/// The storage label of an item type.
pub open spec fn label_spec(t: ItemType) -> Seq<char> {
    match t {
        ItemType::Url => "url"@,
        ItemType::Path => "path"@,
        ItemType::Command => "command"@,
        ItemType::Output => "output"@,
        ItemType::Env => "env"@,
        ItemType::Pid => "pid"@,
        ItemType::Error => "error"@,
        ItemType::Clipboard => "clipboard"@,
        ItemType::Tmux => "tmux"@,
    }
}

impl ItemType {
    /// The label under which items of this type are stored and printed.
    pub fn label(&self) -> (r: &'static str)
        ensures
            r@ == label_spec(*self),
    {
        match self {
            ItemType::Url => "url",
            ItemType::Path => "path",
            ItemType::Command => "command",
            ItemType::Output => "output",
            ItemType::Env => "env",
            ItemType::Pid => "pid",
            ItemType::Error => "error",
            ItemType::Clipboard => "clipboard",
            ItemType::Tmux => "tmux",
        }
    }
}

/// The two commands of the tool.
pub enum Commands {
    /// Spawn a shell under a PTY and record its output.
    Record { name: Option<String> },
    /// Query the captured items.
    Filter { types: Vec<ItemType>, regex: Option<String>, since: Option<String> },
}

/// The parsed command line.
pub struct Cli {
    pub command: Commands,
}

} // verus!
