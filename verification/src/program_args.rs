//! The run modes the program can be started in.

use vstd::prelude::*;

verus! {

/// What the program was asked to do: train into a folder, replay a saved
/// brain, or play interactively.  At most one of the three is meaningful at
/// a time; command-line parsing enforces that outside the library.
pub struct ProgramArgs {
    /// Train the brains inside this folder (new or resumed run).
    pub folder_path: Option<String>,
    /// Play the game with the brain saved at this path.
    pub brain_path: Option<String>,
    /// Play the game interactively.
    pub play: bool,
}

} // verus!
