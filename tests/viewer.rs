use boxviewer::{
    char_script_path, character_list, ef_script_path, pac_path, BBSLoader, BoxesWindow, MyApp,
    PacLoader, RonLoader, ScriptError,
};

const SCRIPT: &str = "beginState foo\nsprite: 'SOL_001' 3\nendState\nbeginState bar\ndmg: 1\nendState";

#[test]
fn window_starts_reset() {
    let w = BoxesWindow::new();
    assert!(w.selected.is_empty());
    assert!(w.show_state_list && w.show_state && w.box_changed);
    assert_eq!(w.states.len(), 0);
    assert_eq!(w.ef_states.len(), 0);
}

#[test]
fn collect_states_indexes_char_script() {
    let mut w = BoxesWindow::new();
    w.char_script = SCRIPT.to_string();
    assert_eq!(w.collect_states(), Ok(()));
    assert_eq!(w.states.len(), 2);
    assert_eq!(w.ef_states.len(), 0);
}

#[test]
fn collect_ef_states_reports_malformed() {
    let mut w = BoxesWindow::new();
    w.ef_script = "beginState x\n".to_string();
    assert_eq!(w.collect_ef_states(), Err(ScriptError::MalformedScript));
    assert_eq!(w.ef_states.len(), 0);
}

#[test]
fn choosing_state_and_sprite() {
    let mut w = BoxesWindow::new();
    w.char_script = SCRIPT.to_string();
    w.collect_states().unwrap();
    w.selected = "old".to_string();
    w.select_state(0);
    assert_eq!(w.current_state.0, "beginState foo");
    assert_eq!(w.current_state.1, "beginState foo\nsprite: 'SOL_001' 3\n");
    assert!(w.selected.is_empty());
    assert!(w.select_sprite("sprite: 'SOL_001' 3"));
    assert_eq!(w.selected, "SOL_001");
    assert!(w.reset_image);
    assert!(!w.select_sprite("dmg: 1"));
    assert_eq!(w.selected, "SOL_001");
}

#[test]
fn effect_list_shows_effect_states() {
    let mut w = BoxesWindow::new();
    w.ef_script = "beginState ef\nendState".to_string();
    w.collect_ef_states().unwrap();
    assert_eq!(w.visible_states().len(), 0);
    w.is_ef = true;
    assert_eq!(w.visible_states().len(), 1);
    w.select_state(0);
    assert_eq!(w.current_state.0, "beginState ef");
}

#[test]
fn reset_forgets_scripts() {
    let mut w = BoxesWindow::new();
    w.char_script = SCRIPT.to_string();
    w.collect_states().unwrap();
    w.is_gbvs = true;
    w.show_state = false;
    w.reset();
    assert!(w.char_script.is_empty());
    assert_eq!(w.states.len(), 0);
    assert!(w.show_state);
    assert!(w.is_gbvs);
}

#[test]
fn asset_paths() {
    assert_eq!(pac_path("SOL"), "pacs/COL_SOL.pac");
    assert_eq!(char_script_path("KYK"), "scripts/BBS_KYK.bbscript");
    assert_eq!(ef_script_path("KYK"), "scripts/BBS_KYKEF.bbscript");
}

#[test]
fn roster_and_defaults() {
    let list = character_list();
    assert_eq!(list.len(), 20);
    assert_eq!(list[0], "SOL");
    assert_eq!(list[19], "TST");
    let mut app = MyApp::new();
    app.begin_frame();
    assert_eq!(app.selected, "SOL");
    assert_eq!(app.ggst_file_list, list);
    assert!(!app.file_changed);
}

#[test]
fn choosing_character_starts_afresh() {
    let mut app = MyApp::new();
    app.begin_frame();
    assert!(app.collision_ready());
    assert!(!app.collision_ready());
    assert!(app.needs_char_script());
    app.accept_char_script(Some(SCRIPT.to_string()));
    assert!(!app.needs_char_script());
    assert_eq!(app.boxes_window.states.len(), 2);
    app.choose_character("MAY".to_string());
    assert!(app.file_changed && !app.loaded);
    app.begin_frame();
    assert_eq!(app.selected, "MAY");
    assert!(app.boxes_window.char_script.is_empty());
    assert!(app.needs_char_script());
}

#[test]
fn failed_scripts_are_remembered() {
    let mut app = MyApp::new();
    app.begin_frame();
    app.accept_char_script(None);
    assert!(app.char_script_failed);
    assert!(!app.needs_char_script());
    app.accept_ef_script(Some("beginState x\n".to_string()));
    assert!(app.ef_script_failed);
    assert_eq!(app.boxes_window.ef_states.len(), 0);
}

#[test]
fn loader_extensions() {
    assert_eq!(PacLoader.extensions(), &["pac"]);
    assert_eq!(BBSLoader.extensions(), &["bbscript"]);
    assert_eq!(RonLoader.extensions(), &["ron"]);
    assert_eq!(BBSLoader.load(&[1, 2, 3]).value, vec![1u8, 2, 3]);
}

#[test]
fn new_character_script_is_indexed_after_switch() {
    let mut app = MyApp::new();
    app.begin_frame();
    assert!(app.collision_ready());
    app.accept_char_script(Some(SCRIPT.to_string()));
    assert_eq!(app.boxes_window.states.len(), 2);
    // Next frame: another character is chosen while the old archive is still at hand.
    app.begin_frame();
    app.choose_character("KYK".to_string());
    assert!(!app.collision_ready());
    assert!(!app.loaded);
    // The frame after starts the viewer afresh for the new character.
    app.begin_frame();
    assert!(app.needs_char_script());
    assert_eq!(app.boxes_window.states.len(), 0);
    app.accept_char_script(Some("beginState kyk\nendState".to_string()));
    assert_eq!(app.boxes_window.states.len(), 1);
    assert!(app.collision_ready());
}

#[test]
fn selecting_sprite_keeps_scripts_and_flags() {
    let mut w = BoxesWindow::new();
    w.char_script = SCRIPT.to_string();
    w.collect_states().unwrap();
    w.select_state(0);
    w.show_state = false;
    assert!(w.select_sprite("sprite: 'SOL_001' 3"));
    assert_eq!(w.char_script, SCRIPT);
    assert_eq!(w.states.len(), 2);
    assert!(!w.show_state);
    assert_eq!(w.current_state.0, "beginState foo");
}
