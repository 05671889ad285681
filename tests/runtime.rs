use oxido::gfx::Key;
use oxido::input::{bit_from_scancode, InputState};
use oxido::reload::{ReloadError, Reloader};

/// A stand-in for a loaded module: its frame depends on the input only.
#[derive(Clone, Debug, PartialEq)]
struct Module {
    version: u32,
}

impl Module {
    fn draw(&self, input: u32) -> Vec<u8> {
        vec![self.version as u8, input as u8]
    }
}

#[test]
fn reload_is_due_only_for_a_newer_binary() {
    let r = Reloader::new(Module { version: 1 }, 10);
    assert!(!r.should_reload(Some(10)));
    assert!(!r.should_reload(Some(9)));
    assert!(!r.should_reload(None));
    assert!(r.should_reload(Some(11)));
}

#[test]
fn failed_reload_keeps_the_running_module() {
    let mut r = Reloader::new(Module { version: 1 }, 10);
    let before = r.current.draw(5);
    assert_eq!(r.finish_reload(11, Err(ReloadError::Load)), Some(ReloadError::Load));
    assert_eq!(r.current, Module { version: 1 });
    assert_eq!(r.current.draw(5), before);
    assert_eq!(r.loaded_mtime, 10);
    assert_eq!(r.failed_mtime, Some(11));
    assert_eq!(r.reload_count, 0);
    // The same binary is not tried again; the next change is.
    assert!(!r.should_reload(Some(11)));
    assert!(r.should_reload(Some(12)));
    assert_eq!(r.finish_reload(12, Err(ReloadError::Init)), Some(ReloadError::Init));
    assert_eq!(r.current.draw(5), before);
}

#[test]
fn older_replacement_after_failure_is_still_loaded() {
    let mut r = Reloader::new(Module { version: 1 }, 10);
    assert_eq!(r.finish_reload(30, Err(ReloadError::Load)), Some(ReloadError::Load));
    // A working binary whose time lies between the running one and the
    // failed one is newer than the last successful load.
    assert!(r.should_reload(Some(20)));
    assert_eq!(r.finish_reload(20, Ok(Module { version: 2 })), None);
    assert_eq!(r.current, Module { version: 2 });
    assert_eq!(r.loaded_mtime, 20);
    assert_eq!(r.failed_mtime, None);
    assert!(!r.should_reload(Some(20)));
    assert!(r.should_reload(Some(30)));
}

#[test]
fn successful_reload_swaps_the_whole_module() {
    let mut r = Reloader::new(Module { version: 1 }, 10);
    assert_eq!(r.finish_reload(20, Ok(Module { version: 2 })), None);
    assert_eq!(r.current, Module { version: 2 });
    assert_eq!(r.loaded_mtime, 20);
    assert_eq!(r.failed_mtime, None);
    assert_eq!(r.reload_count, 1);
    assert!(!r.should_reload(Some(20)));
}

#[test]
fn scancodes_map_to_buttons() {
    assert_eq!(bit_from_scancode(103), 1);
    assert_eq!(bit_from_scancode(108), 2);
    assert_eq!(bit_from_scancode(105), 4);
    assert_eq!(bit_from_scancode(106), 8);
    assert_eq!(bit_from_scancode(44), 16);
    assert_eq!(bit_from_scancode(45), 32);
    assert_eq!(bit_from_scancode(28), 64);
    assert_eq!(bit_from_scancode(42), 128);
    assert_eq!(bit_from_scancode(54), 128);
    assert_eq!(bit_from_scancode(1), 0);
}

#[test]
fn key_events_set_and_clear_bits() {
    let mut s = InputState::new();
    s.key_event(Some(Key::Up), 0, true);
    s.key_event(None, 44, true);
    assert_eq!(s.bits, 0b1_0001);
    s.key_event(Some(Key::Up), 0, false);
    assert_eq!(s.bits, 0b1_0000);
    s.key_event(None, 999, true);
    assert_eq!(s.bits, 0b1_0000);
    s.key_event(Some(Key::Select), 0, true);
    assert_eq!(s.bits, 0b1001_0000);
}

#[test]
fn losing_focus_releases_all_buttons() {
    let mut s = InputState::new();
    s.key_event(Some(Key::A), 0, true);
    s.key_event(Some(Key::Start), 0, true);
    s.focus_lost();
    assert_eq!(s.bits, 0);
}
