use ouch::policy::clear_path_decision;
use ouch::policy::user_wants_to_overwrite;
use ouch::policy::QuestionPolicy;

#[test]
fn always_no_refuses_existing_output() {
    // the occupied path is left alone: a refusal obliges the caller to
    // touch nothing
    assert!(!clear_path_decision(true, QuestionPolicy::AlwaysNo, false));
    assert!(!clear_path_decision(true, QuestionPolicy::AlwaysNo, true));
}

#[test]
fn always_yes_clears_existing_output() {
    assert!(clear_path_decision(true, QuestionPolicy::AlwaysYes, false));
}

#[test]
fn vacant_path_is_always_clear() {
    assert!(clear_path_decision(false, QuestionPolicy::AlwaysNo, false));
    assert!(clear_path_decision(false, QuestionPolicy::AlwaysYes, false));
    assert!(clear_path_decision(false, QuestionPolicy::Ask, false));
}

#[test]
fn ask_follows_the_prompt_answer() {
    assert!(clear_path_decision(true, QuestionPolicy::Ask, true));
    assert!(!clear_path_decision(true, QuestionPolicy::Ask, false));
}

#[test]
fn overwrite_verdict_per_policy() {
    assert!(user_wants_to_overwrite(QuestionPolicy::AlwaysYes, false));
    assert!(!user_wants_to_overwrite(QuestionPolicy::AlwaysNo, true));
    assert!(user_wants_to_overwrite(QuestionPolicy::Ask, true));
    assert!(!user_wants_to_overwrite(QuestionPolicy::Ask, false));
}
