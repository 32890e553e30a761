use vstd::prelude::*;

verus! {

/// What to do when an output path already exists. Fixed for the whole of
/// one invocation.
#[derive(Clone, Copy, Debug, PartialEq, Eq, Structural)]
pub enum QuestionPolicy {
    AlwaysYes,
    AlwaysNo,
    Ask,
}

/// The conflict resolver's verdict on overwriting one existing path.
///
/// `prompt_answer` is the interactive collaborator's reply; it is consulted
/// only under `Ask`, so the caller may pass anything under the other two
/// policies.
pub fn user_wants_to_overwrite(policy: QuestionPolicy, prompt_answer: bool) -> (r: bool)
    ensures
        r == (policy is AlwaysYes || (policy is Ask && prompt_answer)),
{
    match policy {
        QuestionPolicy::AlwaysYes => true,
        QuestionPolicy::AlwaysNo => false,
        QuestionPolicy::Ask => prompt_answer,
    }
}

/// Whether an output path is clear to write: a path where nothing exists is
/// always clear, an occupied one only when the policy allows overwriting.
/// `true` obliges the caller to remove whatever exists before writing.
pub fn clear_path_decision(path_exists: bool, policy: QuestionPolicy, prompt_answer: bool) -> (r: bool)
    ensures
        r == (!path_exists || policy is AlwaysYes || (policy is Ask && prompt_answer)),
{
    if !path_exists {
        true
    } else {
        user_wants_to_overwrite(policy, prompt_answer)
    }
}

} // verus!
