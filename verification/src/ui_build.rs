//! Whether the embedded web interface is built anew, and what is noted of its
//! version.
use vstd::prelude::*;
use crate::text;
use crate::text::{chars_of, same_text, trim};

verus! {

/// What a command that was run left behind.
#[derive(Debug)]
pub struct CommandOutput {
    pub success: bool,
    pub stdout: String,
}

/// How a build of the interface begins.
#[derive(Debug)]
pub enum UiPlan {
    /// It is skipped, with this warning; the version file is still written.
    Skip(String),
    /// The commit that is checked out has to be asked for.
    AskCommit,
}

/// What is noted of the interface.
#[derive(Debug)]
pub struct UiVersion {
    pub version: String,
    pub commit: String,
}

/// The warning with which a build is skipped, nothing where it is not: on
/// request, or where the interface is not checked out.
pub open spec fn skip_warning(
    skip: Option<Seq<char>>,
    ui_dir: Seq<char>,
    ui_exists: bool,
    package_exists: bool,
) -> Option<Seq<char>> {
    if skip == Some("1"@) {
        Some("Skipping internal UI build (JELLYSWARRM_SKIP_UI=1)"@)
    } else if !ui_exists || !package_exists {
        Some("UI checkout missing at "@ + ui_dir + ". Skipping embedded UI build."@)
    } else {
        None
    }
}

/// How a build of the interface begins: `skip` is the switch that asks to skip
/// it, the others say where the checkout should be and what of it is there.
pub fn plan_ui_build(
    skip: Option<&str>,
    ui_dir: &str,
    ui_exists: bool,
    package_exists: bool,
) -> (plan: UiPlan)
    ensures
        match plan {
            UiPlan::Skip(warning) => Some(warning@),
            UiPlan::AskCommit => None,
        } == skip_warning(
            match skip {
                Some(s) => Some(s@),
                None => None,
            },
            ui_dir@,
            ui_exists,
            package_exists,
        ),
{
    let asked = match skip {
        Some(s) => same_text(s, "1"),
        None => false,
    };
    if asked {
        return UiPlan::Skip("Skipping internal UI build (JELLYSWARRM_SKIP_UI=1)".to_owned());
    }
    if !ui_exists || !package_exists {
        let mut warning = "UI checkout missing at ".to_owned();
        warning.append(ui_dir);
        warning.append(". Skipping embedded UI build.");
        return UiPlan::Skip(warning);
    }
    UiPlan::AskCommit
}

/// The commit to build, where it is not the one that was built last.
pub fn commit_to_build(git_output: &str, last_built: &str) -> (commit: Option<String>)
    ensures
        match commit {
            Some(c) => c@ == text::trimmed(git_output@) && c@ != last_built@,
            None => text::trimmed(git_output@) == last_built@,
        },
{
    let current = trim(git_output);
    if same_text(current.as_str(), last_built) {
        None
    } else {
        Some(current)
    }
}

/// A text without the letters `v` that it begins with.
pub open spec fn without_leading_v(s: Seq<char>) -> Seq<char>
    decreases s.len(),
{
    if s.len() > 0 && s[0] == 'v' {
        without_leading_v(s.skip(1))
    } else {
        s
    }
}

fn strip_leading_v(text: &str) -> (stripped: String)
    ensures
        stripped@ == without_leading_v(text@),
{
    let chars = chars_of(text);
    let mut from: usize = 0;
    assert(chars@.skip(0) =~= chars@);
    while from < chars.len() && chars[from] == 'v'
        invariant
            from <= chars@.len(),
            without_leading_v(chars@) == without_leading_v(chars@.skip(from as int)),
        decreases chars@.len() - from,
    {
        assert(chars@.skip(from as int).skip(1) =~= chars@.skip(from + 1));
        from = from + 1;
    }
    let mut stripped = String::new();
    let mut i: usize = from;
    while i < chars.len()
        invariant
            from <= i <= chars@.len(),
            stripped@ == chars@.subrange(from as int, i as int),
        decreases chars@.len() - i,
    {
        stripped.push(chars[i]);
        assert(chars@.subrange(from as int, i + 1) =~= chars@.subrange(from as int, i as int).push(
            chars@[i as int],
        ));
        i = i + 1;
    }
    assert(stripped@ =~= chars@.skip(from as int));
    stripped
}

/// The version and the commit of the interface: known where it is checked out,
/// both commands ran and the first one succeeded.
pub open spec fn noted(
    ui_exists: bool,
    version: Result<CommandOutput, String>,
    commit: Result<CommandOutput, String>,
) -> (Seq<char>, Seq<char>) {
    match (version, commit) {
        (Ok(v), Ok(c)) => if ui_exists && v.success {
            (without_leading_v(text::trimmed(v.stdout@)), text::trimmed(c.stdout@))
        } else {
            ("unknown"@, "unknown"@)
        },
        _ => ("unknown"@, "unknown"@),
    }
}

/// What is noted of the interface, from the commands that describe its checkout.
pub fn ui_version(
    ui_exists: bool,
    version: Result<CommandOutput, String>,
    commit: Result<CommandOutput, String>,
) -> (found: UiVersion)
    ensures
        (found.version@, found.commit@) == noted(ui_exists, version, commit),
{
    if ui_exists {
        if let Ok(v) = version {
            if let Ok(c) = commit {
                if v.success {
                    return UiVersion {
                        version: strip_leading_v(trim(v.stdout.as_str()).as_str()),
                        commit: trim(c.stdout.as_str()),
                    };
                }
            }
        }
    }
    UiVersion { version: "unknown".to_owned(), commit: "unknown".to_owned() }
}

/// The text of the version file.
pub fn version_file(found: &UiVersion) -> (content: String)
    ensures
        content@ == "UI_VERSION="@ + found.version@ + "\nUI_COMMIT="@ + found.commit@ + "\n"@,
{
    let mut content = "UI_VERSION=".to_owned();
    content.append(found.version.as_str());
    content.append("\nUI_COMMIT=");
    content.append(found.commit.as_str());
    content.append("\n");
    content
}

} // verus!
