use floaty::autostart::{set_enabled, sync, RunKeyEdit, RUN_KEY, VALUE_NAME};

#[test]
fn only_a_difference_has_to_be_made_up_for() {
    assert_eq!(sync(false, true), Some(true));
    assert_eq!(sync(true, false), Some(false));
    assert_eq!(sync(true, true), None);
    assert_eq!(sync(false, false), None);
}

#[test]
fn the_path_is_quoted() {
    assert_eq!(
        set_enabled(true, r"C:\Program Files\Floaty\floaty.exe", false),
        RunKeyEdit::Write("\"C:\\Program Files\\Floaty\\floaty.exe\"".to_string())
    );
    assert_eq!(set_enabled(true, "x", true), RunKeyEdit::Write("\"x\"".to_string()));
}

#[test]
fn only_a_value_that_is_there_is_removed() {
    assert_eq!(set_enabled(false, "x", true), RunKeyEdit::Remove);
    assert_eq!(set_enabled(false, "x", false), RunKeyEdit::Leave);
}

#[test]
fn the_registry_settles() {
    for enabled in [false, true] {
        for want in [false, true] {
            let mut there = enabled;
            if let Some(w) = sync(there, want) {
                there = match set_enabled(w, "x", there) {
                    RunKeyEdit::Write(_) => true,
                    RunKeyEdit::Remove => false,
                    RunKeyEdit::Leave => there,
                };
            }
            assert_eq!(there, want);
            assert_eq!(sync(there, want), None);
        }
    }
}

#[test]
fn the_run_key_is_the_users() {
    assert_eq!(RUN_KEY, r"Software\Microsoft\Windows\CurrentVersion\Run");
    assert_eq!(VALUE_NAME, "Floaty");
}
