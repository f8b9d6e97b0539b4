use kuaa::diff::{staged_diff, DiffRun};

#[test]
fn a_successful_capture_is_the_diff() {
    let run = DiffRun { success: true, output: "diff --git a/x b/x\n".to_string() };
    assert_eq!(staged_diff(Some(run)), "diff --git a/x b/x\n");
}

#[test]
fn a_successful_capture_of_nothing_is_an_empty_diff() {
    assert_eq!(staged_diff(Some(DiffRun { success: true, output: String::new() })), "");
}

#[test]
fn a_failed_capture_is_an_empty_diff() {
    let run = DiffRun { success: false, output: "fatal: not a git repository".to_string() };
    assert_eq!(staged_diff(Some(run)), "");
}

#[test]
fn a_tool_that_could_not_be_run_gives_an_empty_diff() {
    assert_eq!(staged_diff(None), "");
}
