//! The view state on concrete inputs: search editing, table sorting and
//! navigation, filtering, popups, keybindings, and layout helpers.

use portwatch::keybindings::{default_keybindings, Keybinding, KeybindingsComponent};
use portwatch::ui::{
    filter_processes, ApplicationMode, KillAction, KillComponent, ProcessSearchComponent,
    ProcessTableComponent, SnapshotsComponent, SortBy, SortDirection,
};
use portwatch::util::{center_str, keybindings_constraint_len_calculator};
use portwatch::tracker::ExportFormat;
use portwatch::{PortInfo, ProcessPortState};

fn rec(port: u16, pid: u32, name: &str, path: &str) -> PortInfo {
    PortInfo {
        id: format!("id-{}", pid),
        port,
        pid,
        process_name: name.to_string(),
        process_path: path.to_string(),
        port_state: ProcessPortState::Hosting,
    }
}

#[test]
fn search_editing_moves_and_deletes() {
    let mut s = ProcessSearchComponent::default();
    s.insert_char('a');
    s.insert_char('b');
    s.insert_char('c');
    assert_eq!(s.value, vec!['a', 'b', 'c']);
    assert_eq!(s.cursor_index, 3);
    s.move_cursor_left();
    s.delete_char();
    assert_eq!(s.value, vec!['a', 'c']);
    assert_eq!(s.cursor_index, 1);
    s.move_cursor_right();
    s.insert_char('d');
    assert_eq!(s.value, vec!['a', 'c', 'd']);
    s.clear();
    assert_eq!(s.value.len(), 0);
    assert_eq!(s.cursor_index, 0);
    s.toggle();
    assert!(s.display);
    s.toggle();
    assert!(!s.display);
}

#[test]
fn table_sorts_by_port_and_toggles_direction() {
    let mut t = ProcessTableComponent::default();
    t.set_items(vec![rec(443, 2, "b", "/b"), rec(80, 1, "a", "/a"), rec(8080, 3, "c", "/c")]);
    assert_eq!(t.items[0].port, 80);
    assert_eq!(t.items[1].port, 443);
    assert_eq!(t.items[2].port, 8080);
    t.set_or_toggle_sort(SortBy::Port);
    assert_eq!(t.sort_direction, SortDirection::Descending);
    assert_eq!(t.items[0].port, 8080);
    t.set_or_toggle_sort(SortBy::PID);
    assert_eq!(t.sort_by, SortBy::PID);
    assert_eq!(t.sort_direction, SortDirection::Ascending);
    assert_eq!(t.items[0].pid, 1);
}

#[test]
fn table_sorts_names_case_insensitively() {
    let mut t = ProcessTableComponent::default();
    t.set_items(vec![rec(1, 1, "Bravo", "/x"), rec(2, 2, "alpha", "/y")]);
    t.set_or_toggle_sort(SortBy::ProcessName);
    // Case-folded order puts "alpha" before "Bravo"; raw byte order would not.
    assert_eq!(t.items[0].process_name, "alpha");
    assert_eq!(t.items[1].process_name, "Bravo");
}

#[test]
fn table_navigation_wraps_and_pages() {
    let mut t = ProcessTableComponent::default();
    t.set_items(vec![rec(1, 1, "a", "/a"), rec(2, 2, "b", "/b"), rec(3, 3, "c", "/c")]);
    t.next_row();
    assert_eq!(t.selected, Some(0));
    t.next_row();
    assert_eq!(t.selected, Some(1));
    t.previous_row();
    assert_eq!(t.selected, Some(0));
    t.previous_row();
    assert_eq!(t.selected, Some(2));
    t.next_row();
    assert_eq!(t.selected, Some(0));
    t.last_row();
    assert_eq!(t.selected, Some(2));
    t.first_row();
    assert_eq!(t.selected, Some(0));
    t.visible_rows = 10;
    t.page_down();
    assert_eq!(t.selected, Some(2));
    t.page_up();
    assert_eq!(t.selected, Some(0));
}

#[test]
fn filter_matches_pid_port_and_folded_name() {
    let procs = vec![
        rec(80, 100, "NGINX", "/usr/bin/nginx"),
        rec(443, 200, "curl", "/usr/bin/curl"),
        rec(5353, 300, "avahi", "/usr/sbin/avahi"),
    ];
    let q = |s: &str| s.chars().collect::<Vec<char>>();
    let by_name = filter_processes(&procs, &q("ngi"));
    assert_eq!(by_name.len(), 1);
    assert_eq!(by_name[0].process_name, "NGINX");
    let by_pid = filter_processes(&procs, &q("200"));
    assert_eq!(by_pid.len(), 1);
    assert_eq!(by_pid[0].pid, 200);
    let by_port = filter_processes(&procs, &q("53"));
    assert_eq!(by_port.len(), 1);
    assert_eq!(by_port[0].port, 5353);
    let all = filter_processes(&procs, &q(""));
    assert_eq!(all.len(), 3);
}

#[test]
fn kill_popup_focus_and_confirm() {
    let mut k = KillComponent::default();
    assert!(!k.display);
    k.show(rec(80, 100, "web", "/bin/web"));
    assert!(k.display);
    assert_eq!(k.action, KillAction::Kill);
    k.focus_cancel();
    assert_eq!(k.action, KillAction::Cancel);
    assert!(!k.confirm());
    assert!(!k.display);
    assert!(k.item.is_none());
    k.show(rec(80, 100, "web", "/bin/web"));
    k.focus_kill();
    assert!(k.confirm());
}

#[test]
fn snapshots_popup_cycles_formats() {
    let mut s = SnapshotsComponent::default();
    assert_eq!(s.selected_format, ExportFormat::Json);
    s.next_format();
    assert_eq!(s.selected_format, ExportFormat::Csv);
    s.next_format();
    assert_eq!(s.selected_format, ExportFormat::Yaml);
    s.prev_format();
    s.prev_format();
    assert_eq!(s.selected_format, ExportFormat::Json);
    s.toggle();
    assert!(s.display);
}

#[test]
fn default_keybindings_cover_the_modes() {
    let groups = default_keybindings();
    assert_eq!(groups.len(), 4);
    assert_eq!(groups[0].mode, ApplicationMode::Helping);
    assert_eq!(groups[1].mode, ApplicationMode::Normal);
    assert_eq!(groups[1].bindings.len(), 13);
    let kb = &groups[1].bindings[0];
    assert_eq!(kb.combo(), "Esc, q, Ctrl+C");
    assert_eq!(kb.description(), "Quit the application");
    assert_eq!(kb.ref_array(), vec!["Esc, q, Ctrl+C".to_string(), "Quit the application".to_string()]);
}

#[test]
fn keybindings_component_navigates_its_rows() {
    let mut c = KeybindingsComponent::default();
    assert_eq!(c.items.len(), 31);
    c.toggle();
    assert!(c.display);
    assert_eq!(c.selected, Some(0));
    c.previous_row();
    assert_eq!(c.selected, Some(30));
    c.next_row();
    assert_eq!(c.selected, Some(0));
    c.last_row();
    assert_eq!(c.selected, Some(30));
    c.first_row();
    c.visible_rows = 7;
    c.page_down();
    assert_eq!(c.selected, Some(7));
    c.page_up();
    assert_eq!(c.selected, Some(0));
}

#[test]
fn keybinding_widths_follow_the_widest_entry() {
    let items = vec![
        Keybinding { combo: "ab", description: "x" },
        Keybinding { combo: "abcd", description: "yy\nzzz" },
    ];
    // ASCII display widths equal character counts; the widest description
    // line is "zzz".
    assert_eq!(keybindings_constraint_len_calculator(&items), (4, 3));
}

#[test]
fn center_str_pads_both_sides() {
    assert_eq!(center_str("ab", 6), "  ab  ");
    assert_eq!(center_str("abc", 6), " abc  ");
    assert_eq!(center_str("toolong", 3), "toolong");
}

#[test]
fn ref_array_lists_the_table_cells() {
    let p = rec(80, 100, "web", "/bin/web");
    let cells = p.ref_array();
    assert_eq!(
        cells,
        vec![
            "80".to_string(),
            "100".to_string(),
            "web".to_string(),
            "/bin/web".to_string(),
            "Hosting".to_string(),
        ]
    );
}
