use floaty::config::Config;
use floaty::store::{ConfigStore, FileRead};

fn loaded() -> ConfigStore {
    ConfigStore::load("c.toml".to_string(), FileRead::Parsed(Config::default())).0
}

#[test]
fn a_missing_file_is_to_be_written() {
    let (store, write) = ConfigStore::load("dir/c.toml".to_string(), FileRead::Missing);
    assert!(write);
    assert!(store.current.same(&Config::default()));
    assert_eq!(store.path(), "dir/c.toml");
    assert_eq!(store.last_mtime, None);
}

#[test]
fn a_malformed_file_gives_defaults_and_stays() {
    let (store, write) = ConfigStore::load("c.toml".to_string(), FileRead::Malformed);
    assert!(!write);
    assert!(store.current.same(&Config::default()));
}

#[test]
fn settings_are_loaded_within_range() {
    let mut c = Config::default();
    c.active_fps = 9999;
    let (store, write) = ConfigStore::load("c.toml".to_string(), FileRead::Parsed(c));
    assert!(!write);
    assert_eq!(store.current.active_fps, 240);
}

#[test]
fn only_a_new_time_is_news() {
    let mut store = loaded();
    store.note(Some(5));
    assert!(!store.poll_reload(Some(5)));
    assert!(store.poll_reload(Some(6)));
    assert!(!store.poll_reload(Some(6)));
    assert!(store.poll_reload(None));
    assert!(!store.poll_reload(None));
}

#[test]
fn our_own_write_is_no_news() {
    let mut store = loaded();
    store.note(Some(5));
    store.current.mouse_ripples = false;
    let text = store.save(Some("body")).unwrap();
    assert!(text.starts_with("# Floaty configuration"));
    assert!(text.ends_with("\n\nbody"));
    store.note(Some(7));
    assert!(!store.poll_reload(Some(7)));
}

#[test]
fn settings_that_cannot_be_written_out_are_not_saved() {
    assert_eq!(loaded().save(None), None);
}

#[test]
fn a_reload_takes_over_what_changed() {
    let mut store = loaded();
    let mut c = Config::default();
    c.character = "fish".to_string();
    c.idle_fps = 500;
    assert!(store.accept(Some(c.duplicate())));
    assert_eq!(store.current.character, "fish");
    assert_eq!(store.current.idle_fps, 60);
    assert!(!store.accept(Some(c)));
}

#[test]
fn a_pause_is_not_written() {
    let mut store = loaded();
    store.current.enabled = false;
    store.current.mouse_ripples = false;
    let c = store.to_write();
    assert!(c.enabled && !c.mouse_ripples);
    // A file that is switched off stays so.
    let mut off = Config::default();
    off.enabled = false;
    assert!(!store.accept(Some({
        let mut c = store.current.duplicate();
        c.enabled = false;
        c
    })));
    assert!(!store.to_write().enabled);
    let (mut store, _) = ConfigStore::load("c.toml".to_string(), FileRead::Parsed(off));
    store.current.enabled = true;
    assert!(!store.to_write().enabled);
    assert!(!store.accept(None));
    assert!(!store.to_write().enabled);
}

#[test]
fn an_unreadable_reload_keeps_the_previous_settings() {
    let mut store = loaded();
    store.current.character = "boat".to_string();
    assert!(!store.accept(None));
    assert_eq!(store.current.character, "boat");
}
