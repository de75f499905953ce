//! When the web interface is built, and what is noted of it.
use vstd::prelude::*;
use crate::text;
use crate::ui_build;
use crate::ui_build::CommandOutput;

verus! {

/// The interface is built exactly where nobody asked to skip it and its checkout is
/// there; where it is missing the warning says where it was looked for.
pub proof fn law_ui_is_built_where_it_is_checked_out(
    skip: Option<Seq<char>>,
    ui_dir: Seq<char>,
    ui_exists: bool,
    package_exists: bool,
)
    ensures
        ui_build::skip_warning(skip, ui_dir, ui_exists, package_exists) is None <==> skip != Some(
            "1"@,
        ) && ui_exists && package_exists,
        skip != Some("1"@) && !(ui_exists && package_exists) ==> (ui_build::skip_warning(
            skip,
            ui_dir,
            ui_exists,
            package_exists,
        ) matches Some(warning) && text::occurs(warning, ui_dir)),
        skip == Some("1"@) ==> ui_build::skip_warning(skip, ui_dir, ui_exists, package_exists)
            == ui_build::skip_warning(skip, Seq::empty(), true, true),
{
    if skip != Some("1"@) && !(ui_exists && package_exists) {
        let a = "UI checkout missing at "@;
        let b = ". Skipping embedded UI build."@;
        let warning = a + ui_dir + b;
        assert(warning.subrange(a.len() as int, (a.len() + ui_dir.len()) as int) =~= ui_dir);
        assert(text::occurs_at(warning, ui_dir, a.len() as int));
    }
}

/// The letters `v` at a version's beginning are taken off, all of them and nothing
/// else.
pub proof fn law_leading_v_is_taken_off(s: Seq<char>) -> (from: int)
    ensures
        0 <= from <= s.len(),
        ui_build::without_leading_v(s) == s.skip(from),
        forall|i: int| 0 <= i < from ==> #[trigger] s[i] == 'v',
        from < s.len() ==> s[from] != 'v',
    decreases s.len(),
{
    if s.len() > 0 && s[0] == 'v' {
        let at = law_leading_v_is_taken_off(s.skip(1));
        assert(s.skip(1).skip(at) =~= s.skip(at + 1));
        assert forall|i: int| 0 <= i < at + 1 implies #[trigger] s[i] == 'v' by {
            if i > 0 {
                assert(s.skip(1)[i - 1] == s[i]);
            }
        }
        if at < s.skip(1).len() {
            assert(s.skip(1)[at] == s[at + 1]);
        }
        at + 1
    } else {
        assert(s.skip(0) =~= s);
        0
    }
}

/// What is noted is what the commands printed, trimmed, the version without its
/// leading `v`; unknown where the checkout is missing, a command did not run or the
/// first one failed.
pub proof fn law_noted_version_is_what_was_printed(
    ui_exists: bool,
    version: Result<CommandOutput, String>,
    commit: Result<CommandOutput, String>,
)
    ensures
        ({
            let found = ui_build::noted(ui_exists, version, commit);
            &&& !ui_exists || version is Err || commit is Err ==> found == ("unknown"@, "unknown"@)
            &&& version matches Ok(v) ==> !v.success ==> found == ("unknown"@, "unknown"@)
            &&& ui_exists ==> match (version, commit) {
                (Ok(v), Ok(c)) => v.success ==> found.0 == ui_build::without_leading_v(
                    text::trimmed(v.stdout@),
                ) && found.1 == text::trimmed(c.stdout@),
                _ => true,
            }
        }),
{
}

} // verus!
