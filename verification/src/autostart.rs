//! "Start with Windows": a value under the per-user Run key of the registry.

use vstd::prelude::*;

verus! {

/// The key that lists what starts with Windows.
pub const RUN_KEY: &'static str = "Software\\Microsoft\\Windows\\CurrentVersion\\Run";

/// The name of our value under it.
pub const VALUE_NAME: &'static str = "Floaty";

/// What to do to our value under the Run key.
#[derive(Debug, Clone, PartialEq, Eq)]
pub enum RunKeyEdit {
    Write(String),
    Remove,
    Leave,
}

/// A path in double quotes, since it may contain spaces.
pub open spec fn quoted(exe: Seq<char>) -> Seq<char> {
    seq!['"'] + exe + seq!['"']
}

/// The edit that turns starting with Windows on or off while our value is
/// `present` or not.
pub open spec fn edit_for(enable: bool, exe: Seq<char>, present: bool, edit: RunKeyEdit) -> bool {
    match edit {
        RunKeyEdit::Write(value) => enable && value@ == quoted(exe),
        RunKeyEdit::Remove => !enable && present,
        RunKeyEdit::Leave => !enable && !present,
    }
}

/// Turns starting `exe` with Windows on or off.
pub fn set_enabled(enable: bool, exe: &str, present: bool) -> (r: RunKeyEdit)
    ensures
        edit_for(enable, exe@, present, r),
{
    if enable {
        proof {
            reveal_strlit("\"");
        }
        let mut value: String = "\"".to_owned();
        value.append(exe);
        value.append("\"");
        assert(value@ =~= quoted(exe@));
        RunKeyEdit::Write(value)
    } else if present {
        RunKeyEdit::Remove
    } else {
        RunKeyEdit::Leave
    }
}

/// The change that makes the registry agree with the settings.
pub open spec fn needed(enabled: bool, want: bool) -> Option<bool> {
    if enabled != want {
        Some(want)
    } else {
        None
    }
}

/// Makes the registry agree with the settings: what to pass to
/// [`set_enabled`], if anything has to change.
pub fn sync(enabled: bool, want: bool) -> (r: Option<bool>)
    ensures
        r == needed(enabled, want),
{
    if enabled != want {
        Some(want)
    } else {
        None
    }
}

/// Whether our value is there after an edit.
pub open spec fn present_after(edit: RunKeyEdit, present: bool) -> bool {
    match edit {
        RunKeyEdit::Write(_) => true,
        RunKeyEdit::Remove => false,
        RunKeyEdit::Leave => present,
    }
}

/// Once the edit is made, the registry says what was wanted, so that there is
/// nothing left to bring into agreement.
pub proof fn law_edit_settles(want: bool, exe: Seq<char>, present: bool, edit: RunKeyEdit)
    requires
        edit_for(want, exe, present, edit),
    ensures
        present_after(edit, present) == want,
{
}

/// The value that starts the program is its path, unchanged, in double
/// quotes: taking the quotes off gives the path back, spaces and all.
pub proof fn law_value_is_the_path_in_quotes(exe: Seq<char>, other: Seq<char>)
    ensures
        quoted(exe).len() == exe.len() + 2,
        quoted(exe).first() == '"',
        quoted(exe).last() == '"',
        quoted(exe).subrange(1, quoted(exe).len() - 1) == exe,
        quoted(exe) == quoted(other) ==> exe == other,
{
    assert(quoted(exe).subrange(1, quoted(exe).len() - 1) =~= exe);
    assert(quoted(other).subrange(1, quoted(other).len() - 1) =~= other);
}

/// Turning it on always writes the value, with the path as it is now; turning
/// it off never does, and removes a value only where there is one.
pub proof fn law_edits(enable: bool, exe: Seq<char>, present: bool, edit: RunKeyEdit)
    requires
        edit_for(enable, exe, present, edit),
    ensures
        edit is Write <==> enable,
        edit matches RunKeyEdit::Write(value) ==> value@.subrange(1, value@.len() - 1) == exe,
        edit is Remove <==> !enable && present,
{
    law_value_is_the_path_in_quotes(exe, exe);
}

/// The registry is edited exactly if it disagrees with the settings, and then
/// it is brought to what they want; after that there is nothing to do.
pub proof fn law_sync_settles(enabled: bool, want: bool)
    ensures
        needed(enabled, want) is None <==> enabled == want,
        needed(enabled, want) matches Some(to) ==> to == want && needed(to, want) is None,
{
}

} // verus!
