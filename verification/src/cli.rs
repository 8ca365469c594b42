use vstd::prelude::*;

verus! {

/// What the program is asked to do.
pub enum Command {
    /// Start the chat interface
    Chat,
}

} // verus!
