use jellyswarrm::ui_build::{
    commit_to_build, plan_ui_build, ui_version, version_file, CommandOutput, UiPlan,
};

fn output(success: bool, stdout: &str) -> Result<CommandOutput, String> {
    Ok(CommandOutput {
        success,
        stdout: stdout.to_string(),
    })
}

fn warning(plan: UiPlan) -> Option<String> {
    match plan {
        UiPlan::Skip(warning) => Some(warning),
        UiPlan::AskCommit => None,
    }
}

#[test]
fn a_build_is_skipped_on_request_or_without_a_checkout() {
    assert_eq!(
        warning(plan_ui_build(Some("1"), "/w/ui", true, true)).as_deref(),
        Some("Skipping internal UI build (JELLYSWARRM_SKIP_UI=1)")
    );
    assert_eq!(
        warning(plan_ui_build(None, "/w/ui", true, false)).as_deref(),
        Some("UI checkout missing at /w/ui. Skipping embedded UI build.")
    );
    assert!(warning(plan_ui_build(Some("0"), "/w/ui", false, false)).is_some());
    assert!(warning(plan_ui_build(Some("0"), "/w/ui", true, true)).is_none());
    assert!(warning(plan_ui_build(None, "/w/ui", true, true)).is_none());
}

#[test]
fn a_commit_is_built_once() {
    assert_eq!(commit_to_build("abc\n", ""), Some("abc".to_string()));
    assert_eq!(commit_to_build("abc\n", "abc"), None);
    assert_eq!(commit_to_build("abc\n", "abc\n"), Some("abc".to_string()));
}

#[test]
fn the_version_file_names_version_and_commit() {
    let found = ui_version(true, output(true, "v10.10.7\n"), output(false, "abc\n"));
    assert_eq!(found.version, "10.10.7");
    assert_eq!(found.commit, "abc");
    assert_eq!(
        version_file(&found),
        "UI_VERSION=10.10.7\nUI_COMMIT=abc\n"
    );
    let stripped = ui_version(true, output(true, " vvv1v "), output(true, ""));
    assert_eq!(stripped.version, "1v");
    for unknown in [
        ui_version(false, output(true, "v1"), output(true, "abc")),
        ui_version(true, output(false, "v1"), output(true, "abc")),
        ui_version(true, Err("no git".to_string()), output(true, "abc")),
        ui_version(true, output(true, "v1"), Err("no git".to_string())),
    ] {
        assert_eq!(
            version_file(&unknown),
            "UI_VERSION=unknown\nUI_COMMIT=unknown\n"
        );
    }
}
