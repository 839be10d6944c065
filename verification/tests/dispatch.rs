//! The consumer loop's decision machine on concrete key presses: mode
//! transitions and the actions handed back to the caller.

use portwatch::dispatch::{AppAction, AppCore, KeyInput, KeyPress};
use portwatch::tracker::ExportFormat;
use portwatch::ui::ApplicationMode;
use portwatch::{PortInfo, ProcessPortState};

fn plain(code: KeyInput) -> KeyPress {
    KeyPress { code, ctrl: false, shift: false }
}

fn ctrl(code: KeyInput) -> KeyPress {
    KeyPress { code, ctrl: true, shift: false }
}

fn shift(code: KeyInput) -> KeyPress {
    KeyPress { code, ctrl: false, shift: true }
}

fn rec(port: u16, pid: u32, name: &str) -> PortInfo {
    PortInfo {
        id: format!("id-{}", pid),
        port,
        pid,
        process_name: name.to_string(),
        process_path: format!("/bin/{}", name),
        port_state: ProcessPortState::Hosting,
    }
}

#[test]
fn quit_keys_exit_from_normal_mode() {
    let mut a = AppCore::new();
    assert_eq!(a.handle_key(plain(KeyInput::Character('q'))), AppAction::Exit);
    assert_eq!(a.handle_key(plain(KeyInput::Esc)), AppAction::Exit);
    assert_eq!(a.handle_key(ctrl(KeyInput::Character('c'))), AppAction::Exit);
    assert_eq!(a.application_mode, ApplicationMode::Normal);
}

#[test]
fn help_popup_opens_and_closes() {
    let mut a = AppCore::new();
    a.handle_key(plain(KeyInput::FKey(1)));
    assert_eq!(a.application_mode, ApplicationMode::Helping);
    assert!(a.keybindings.display);
    a.handle_key(plain(KeyInput::Down));
    assert_eq!(a.keybindings.selected, Some(1));
    a.handle_key(plain(KeyInput::Esc));
    assert_eq!(a.application_mode, ApplicationMode::Normal);
    assert!(!a.keybindings.display);
}

#[test]
fn search_mode_edits_and_filters() {
    let mut a = AppCore::new();
    a.set_processes(vec![rec(80, 100, "nginx"), rec(22, 7, "sshd")]);
    assert_eq!(a.processes_filtered.len(), 2);
    a.handle_key(ctrl(KeyInput::Character('f')));
    assert_eq!(a.application_mode, ApplicationMode::Editing);
    a.handle_key(plain(KeyInput::Character('s')));
    a.handle_key(plain(KeyInput::Character('s')));
    assert_eq!(a.search.value, vec!['s', 's']);
    assert_eq!(a.processes_filtered.len(), 1);
    assert_eq!(a.processes_filtered[0].process_name, "sshd");
    a.handle_key(plain(KeyInput::Esc));
    assert_eq!(a.application_mode, ApplicationMode::Normal);
    assert_eq!(a.processes_filtered.len(), 2);
}

#[test]
fn kill_flow_names_the_pid_and_closes() {
    let mut a = AppCore::new();
    a.set_processes(vec![rec(80, 100, "nginx")]);
    a.handle_key(plain(KeyInput::Down));
    assert_eq!(a.table.selected, Some(0));
    a.handle_key(plain(KeyInput::Character('k')));
    assert_eq!(a.application_mode, ApplicationMode::Killing);
    assert!(a.kill.display);
    let action = a.handle_key(plain(KeyInput::Enter));
    assert_eq!(action, AppAction::KillPid(100));
    assert_eq!(a.application_mode, ApplicationMode::Normal);
    assert!(!a.kill.display);
}

#[test]
fn kill_flow_cancel_kills_nothing() {
    let mut a = AppCore::new();
    a.set_processes(vec![rec(80, 100, "nginx")]);
    a.handle_key(plain(KeyInput::Down));
    a.handle_key(plain(KeyInput::Character('k')));
    a.handle_key(plain(KeyInput::Right));
    let action = a.handle_key(plain(KeyInput::Enter));
    assert_eq!(action, AppAction::Nothing);
    assert_eq!(a.application_mode, ApplicationMode::Normal);
}

#[test]
fn kill_without_selection_stays_in_normal_mode() {
    let mut a = AppCore::new();
    let action = a.handle_key(plain(KeyInput::Character('k')));
    assert_eq!(action, AppAction::Nothing);
    assert_eq!(a.application_mode, ApplicationMode::Normal);
}

#[test]
fn snapshot_flow_names_the_chosen_format() {
    let mut a = AppCore::new();
    a.handle_key(plain(KeyInput::FKey(2)));
    assert_eq!(a.application_mode, ApplicationMode::Snapshotting);
    a.handle_key(plain(KeyInput::Down));
    assert_eq!(a.snapshots.selected_format, ExportFormat::Csv);
    let action = a.handle_key(plain(KeyInput::Enter));
    assert_eq!(action, AppAction::ExportSnapshot(ExportFormat::Csv));
    assert_eq!(a.application_mode, ApplicationMode::Normal);
    assert!(!a.snapshots.display);
}

#[test]
fn sorting_and_theme_keys_in_normal_mode() {
    let mut a = AppCore::new();
    a.set_processes(vec![rec(443, 2, "b"), rec(80, 1, "a")]);
    a.handle_key(plain(KeyInput::Character('1')));
    // Port was already the sort column: the direction flips.
    assert_eq!(a.table.items[0].port, 443);
    assert_eq!(a.handle_key(shift(KeyInput::Right)), AppAction::ThemeNext);
    assert_eq!(a.handle_key(shift(KeyInput::Left)), AppAction::ThemePrev);
    assert_eq!(a.handle_key(plain(KeyInput::Character('s'))), AppAction::ToggleTracking);
}

#[test]
fn remove_pid_drops_all_its_records() {
    let mut a = AppCore::new();
    a.set_processes(vec![rec(80, 100, "nginx"), rec(8080, 100, "nginx"), rec(22, 7, "sshd")]);
    a.remove_pid(100);
    assert_eq!(a.processes.len(), 1);
    assert_eq!(a.processes[0].pid, 7);
    assert_eq!(a.processes_filtered.len(), 1);
}
