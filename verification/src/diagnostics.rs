//! What a decision record keeps so that the judgement can be replayed offline.

use vstd::prelude::*;

verus! {

/// The inputs a judgement needs to be run again on a recorded frame.
#[derive(Debug)]
pub enum ReplayInput {
    /// The dropdown pick: the keyword and the configured group titles, as written.
    Dropdown { keyword: String, group_labels: String },
    /// A name match: the target name and whether the relaxed policy was used.
    /// Aliases are not kept: a replay runs with none.
    NameMatch { expected_name: String, relaxed: bool },
}

} // verus!
