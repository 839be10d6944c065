//! The consumer loop's decisions: one verified step from the current
//! application state and one input event to the next state and the action
//! the caller must perform (exit, kill, export, start or stop tracking,
//! change theme).  The caller runs the loop, performs the action, and
//! hands back the next event; no decision is made outside this module.

use vstd::prelude::*;
use crate::model::{records_of, PortInfo};
use crate::tracker::ExportFormat;
use crate::keybindings::KeybindingsComponent;
use crate::ui::{
    filter_processes, filtered_records, ApplicationMode, ExportAction, KillAction, KillComponent,
    ProcessSearchComponent, ProcessTableComponent, SnapshotsComponent, SortBy,
};

verus! {

/// A key, abstracted from the terminal library's own event type.
#[derive(Debug, Clone, Copy, PartialEq, Eq, Structural)]
pub enum KeyInput {
    Character(char),
    FKey(u8),
    Esc,
    Enter,
    Backspace,
    Left,
    Right,
    Up,
    Down,
    PageUp,
    PageDown,
    Other,
}

/// A key press with its modifiers.
#[derive(Debug, Clone, Copy, PartialEq, Eq, Structural)]
pub struct KeyPress {
    pub code: KeyInput,
    pub ctrl: bool,
    pub shift: bool,
}

/// What the caller must do after a step.
#[derive(Debug, Clone, Copy, PartialEq, Eq, Structural)]
pub enum AppAction {
    Nothing,
    Exit,
    KillPid(u32),
    ExportSnapshot(ExportFormat),
    ToggleTracking,
    ThemeNext,
    ThemePrev,
}

/// The interactive state the decisions range over.
#[derive(Debug)]
pub struct AppCore {
    pub application_mode: ApplicationMode,
    pub search: ProcessSearchComponent,
    pub table: ProcessTableComponent,
    pub keybindings: KeybindingsComponent,
    pub kill: KillComponent,
    pub snapshots: SnapshotsComponent,
    pub processes: Vec<PortInfo>,
    pub processes_filtered: Vec<PortInfo>,
}

/// The mode a key press leads to, from each mode.
pub open spec fn mode_after(s: AppCore, key: KeyPress) -> ApplicationMode {
    match s.application_mode {
        ApplicationMode::Normal => {
            if key.ctrl && (key.code == KeyInput::Character('f') || key.code
                == KeyInput::Character('F'))
            {
                if s.search.display {
                    ApplicationMode::Normal
                } else {
                    ApplicationMode::Editing
                }
            } else if (!key.ctrl && !key.shift && key.code == KeyInput::FKey(1)) || key.code
                == KeyInput::Character('?')
            {
                if s.keybindings.display {
                    ApplicationMode::Normal
                } else {
                    ApplicationMode::Helping
                }
            } else if !key.ctrl && !key.shift && key.code == KeyInput::FKey(2) {
                if s.snapshots.display {
                    ApplicationMode::Normal
                } else {
                    ApplicationMode::Snapshotting
                }
            } else if !key.ctrl && !key.shift && key.code == KeyInput::Character('e') {
                ApplicationMode::Editing
            } else if !key.ctrl && !key.shift && key.code == KeyInput::Character('k')
                && s.table.selected is Some && s.table.selected.unwrap()
                < s.processes_filtered.len() {
                ApplicationMode::Killing
            } else {
                ApplicationMode::Normal
            }
        },
        ApplicationMode::Helping => {
            if key.code == KeyInput::Esc || (!key.shift && key.code == KeyInput::FKey(1))
                || key.code == KeyInput::Character('?') {
                if s.keybindings.display {
                    ApplicationMode::Normal
                } else {
                    ApplicationMode::Helping
                }
            } else {
                ApplicationMode::Helping
            }
        },
        ApplicationMode::Editing => {
            match key.code {
                KeyInput::Down => ApplicationMode::Normal,
                KeyInput::Up => ApplicationMode::Normal,
                KeyInput::Esc => if s.search.display {
                    ApplicationMode::Normal
                } else {
                    ApplicationMode::Editing
                },
                _ => ApplicationMode::Editing,
            }
        },
        ApplicationMode::Killing => {
            match key.code {
                KeyInput::Enter => ApplicationMode::Normal,
                KeyInput::Esc => ApplicationMode::Normal,
                _ => ApplicationMode::Killing,
            }
        },
        ApplicationMode::Snapshotting => {
            match key.code {
                KeyInput::Esc => if s.snapshots.display {
                    ApplicationMode::Normal
                } else {
                    ApplicationMode::Snapshotting
                },
                KeyInput::FKey(2) => if s.snapshots.display {
                    ApplicationMode::Normal
                } else {
                    ApplicationMode::Snapshotting
                },
                KeyInput::Enter => if s.snapshots.display {
                    ApplicationMode::Normal
                } else {
                    ApplicationMode::Snapshotting
                },
                _ => ApplicationMode::Snapshotting,
            }
        },
    }
}

/// The action a key press asks of the caller, from each mode.
pub open spec fn action_of(s: AppCore, key: KeyPress) -> AppAction {
    match s.application_mode {
        ApplicationMode::Normal => {
            if !key.ctrl && !key.shift && (key.code == KeyInput::Character('q') || key.code
                == KeyInput::Character('Q') || key.code == KeyInput::Esc)
            {
                AppAction::Exit
            } else if key.ctrl && (key.code == KeyInput::Character('c') || key.code
                == KeyInput::Character('C'))
            {
                AppAction::Exit
            } else if !key.ctrl && !key.shift && (key.code == KeyInput::Character('s') || key.code
                == KeyInput::Character('S'))
            {
                AppAction::ToggleTracking
            } else if key.shift && key.code == KeyInput::Right {
                AppAction::ThemeNext
            } else if key.shift && key.code == KeyInput::Left {
                AppAction::ThemePrev
            } else {
                AppAction::Nothing
            }
        },
        ApplicationMode::Killing => {
            if key.code == KeyInput::Enter && s.kill.action == KillAction::Kill
                && s.kill.item is Some {
                AppAction::KillPid(s.kill.item.unwrap().pid)
            } else {
                AppAction::Nothing
            }
        },
        ApplicationMode::Snapshotting => {
            if key.code == KeyInput::Enter && s.snapshots.action == ExportAction::Export {
                AppAction::ExportSnapshot(s.snapshots.selected_format)
            } else {
                AppAction::Nothing
            }
        },
        _ => AppAction::Nothing,
    }
}

impl AppCore {
    /// A fresh application: normal mode, every component at its default,
    /// no processes yet.
    pub fn new() -> (r: Self)
        ensures
            r.application_mode == ApplicationMode::Normal,
            r.search.value@ == Seq::<char>::empty(),
            !r.search.display,
            r.table.items@.len() == 0,
            !r.kill.display,
            !r.snapshots.display,
            r.processes@.len() == 0,
            r.processes_filtered@.len() == 0,
    {
        AppCore {
            application_mode: ApplicationMode::Normal,
            search: ProcessSearchComponent::default(),
            table: ProcessTableComponent::default(),
            keybindings: KeybindingsComponent::default(),
            kill: KillComponent::default(),
            snapshots: SnapshotsComponent::default(),
            processes: Vec::new(),
            processes_filtered: Vec::new(),
        }
    }

    /// Recomputes the filtered list from the processes and the search, and
    /// hands it to the table.
    pub fn update_filtered_processes(&mut self)
        ensures
            records_of(final(self).processes_filtered@) == filtered_records(
                records_of(old(self).processes@),
                old(self).search.value@,
            ),
            records_of(final(self).table.items@).to_multiset() == records_of(
                final(self).processes_filtered@,
            ).to_multiset(),
            final(self).processes == old(self).processes,
            final(self).search == old(self).search,
            final(self).application_mode == old(self).application_mode,
    {
        self.processes_filtered = filter_processes(&self.processes, &self.search.value);
        self.table.set_items(crate::model::clone_records(&self.processes_filtered));
    }

    /// Installs a fresh snapshot and refreshes the filtered table.
    pub fn set_processes(&mut self, ports: Vec<PortInfo>)
        ensures
            final(self).processes == ports,
            records_of(final(self).processes_filtered@) == filtered_records(
                records_of(ports@),
                old(self).search.value@,
            ),
            final(self).application_mode == old(self).application_mode,
    {
        self.processes = ports;
        self.update_filtered_processes();
    }

    /// Drops every record of a killed process and refreshes the filtered
    /// table.
    pub fn remove_pid(&mut self, pid: u32)
        ensures
            records_of(final(self).processes@) == records_of(old(self).processes@).filter(
                |r: crate::model::PortRecord| r.pid != pid,
            ),
            records_of(final(self).processes_filtered@) == filtered_records(
                records_of(final(self).processes@),
                old(self).search.value@,
            ),
    {
        let mut kept: Vec<PortInfo> = Vec::new();
        let mut i: usize = 0;
        proof {
            reveal(Seq::filter);
            assert(records_of(self.processes@.take(0int)) =~= Seq::<crate::model::PortRecord>::empty());
            assert(records_of(kept@) =~= records_of(self.processes@.take(0int)).filter(
                |r: crate::model::PortRecord| r.pid != pid,
            ));
        }
        while i < self.processes.len()
            invariant
                i <= self.processes@.len(),
                records_of(kept@) == records_of(self.processes@.take(i as int)).filter(
                    |r: crate::model::PortRecord| r.pid != pid,
                ),
            decreases self.processes@.len() - i,
        {
            if self.processes[i].pid != pid {
                kept.push(self.processes[i].clone());
            }
            proof {
                reveal(Seq::filter);
                let prev = records_of(self.processes@.take(i as int));
                let now = records_of(self.processes@.take(i + 1 as int));
                assert(now =~= prev.push(self.processes@[i as int]@));
                assert(now.drop_last() =~= prev);
                assert(now.last() == self.processes@[i as int]@);
                if self.processes@[i as int]@.pid != pid {
                    assert(records_of(kept@) =~= records_of(kept@.drop_last()).push(
                        self.processes@[i as int]@,
                    ));
                }
                assert(records_of(kept@) =~= now.filter(
                    |r: crate::model::PortRecord| r.pid != pid,
                ));
            }
            i = i + 1;
        }
        proof {
            assert(self.processes@.take(self.processes@.len() as int) =~= self.processes@);
        }
        self.processes = kept;
        self.update_filtered_processes();
    }

    /// One decision step: applies the key to the state and names the
    /// action the caller must perform.  The mode afterwards is exactly
    /// [`mode_after`], the action exactly [`action_of`], and the process
    /// list is never touched here.
    pub fn handle_key(&mut self, key: KeyPress) -> (r: AppAction)
        ensures
            r == action_of(*old(self), key),
            final(self).application_mode == mode_after(*old(self), key),
            final(self).processes == old(self).processes,
    {
        let ghost s0 = *self;
        let action: AppAction;
        match self.application_mode {
            ApplicationMode::Normal => {
                action = self.handle_normal_mode_key(key);
            },
            ApplicationMode::Helping => {
                self.handle_helping_mode_key(key);
                action = AppAction::Nothing;
            },
            ApplicationMode::Editing => {
                self.handle_editing_mode_key(key);
                action = AppAction::Nothing;
            },
            ApplicationMode::Killing => {
                action = self.handle_killing_mode_key(key);
            },
            ApplicationMode::Snapshotting => {
                action = self.handle_snapshotting_mode_key(key);
            },
        }
        action
    }

    /// Normal mode: quitting, toggling views, navigation, sorting, theme
    /// cycling, and opening the kill popup for the selected row.
    fn handle_normal_mode_key(&mut self, key: KeyPress) -> (r: AppAction)
        requires
            old(self).application_mode == ApplicationMode::Normal,
        ensures
            r == action_of(*old(self), key),
            final(self).application_mode == mode_after(*old(self), key),
            final(self).processes == old(self).processes,
    {
        if !key.ctrl && !key.shift && (key.code == KeyInput::Character('q') || key.code
            == KeyInput::Character('Q') || key.code == KeyInput::Esc) {
            return AppAction::Exit;
        }
        if key.ctrl && (key.code == KeyInput::Character('c') || key.code == KeyInput::Character(
            'C',
        )) {
            return AppAction::Exit;
        }
        if key.ctrl && (key.code == KeyInput::Character('f') || key.code == KeyInput::Character(
            'F',
        )) {
            self.toggle_processes_search_display();
            return AppAction::Nothing;
        }
        if (!key.ctrl && !key.shift && key.code == KeyInput::FKey(1)) || key.code
            == KeyInput::Character('?') {
            self.toggle_keybindings_display();
            return AppAction::Nothing;
        }
        if !key.ctrl && !key.shift && key.code == KeyInput::FKey(2) {
            self.toggle_snapshotting_display();
            return AppAction::Nothing;
        }
        if !key.ctrl && !key.shift && key.code == KeyInput::Character('e') {
            self.application_mode = ApplicationMode::Editing;
            return AppAction::Nothing;
        }
        if !key.ctrl && !key.shift && (key.code == KeyInput::Character('s') || key.code
            == KeyInput::Character('S')) {
            return AppAction::ToggleTracking;
        }
        if key.shift && key.code == KeyInput::PageUp {
            self.table.first_row();
            return AppAction::Nothing;
        }
        if key.shift && key.code == KeyInput::PageDown {
            self.table.last_row();
            return AppAction::Nothing;
        }
        if !key.ctrl && !key.shift && key.code == KeyInput::PageUp {
            self.table.page_up();
            return AppAction::Nothing;
        }
        if !key.ctrl && !key.shift && key.code == KeyInput::PageDown {
            self.table.page_down();
            return AppAction::Nothing;
        }
        if !key.ctrl && !key.shift && key.code == KeyInput::Down {
            self.table.next_row();
            return AppAction::Nothing;
        }
        if !key.ctrl && !key.shift && key.code == KeyInput::Up {
            self.table.previous_row();
            return AppAction::Nothing;
        }
        if !key.ctrl && !key.shift && key.code == KeyInput::Character('k') {
            if let Some(idx) = self.table.selected {
                if idx < self.processes_filtered.len() {
                    self.kill.show(self.processes_filtered[idx].clone());
                    self.application_mode = ApplicationMode::Killing;
                }
            }
            return AppAction::Nothing;
        }
        if !key.ctrl && !key.shift && key.code == KeyInput::Character('1') {
            self.table.set_or_toggle_sort(SortBy::Port);
            return AppAction::Nothing;
        }
        if !key.ctrl && !key.shift && key.code == KeyInput::Character('2') {
            self.table.set_or_toggle_sort(SortBy::PID);
            return AppAction::Nothing;
        }
        if !key.ctrl && !key.shift && key.code == KeyInput::Character('3') {
            self.table.set_or_toggle_sort(SortBy::ProcessName);
            return AppAction::Nothing;
        }
        if !key.ctrl && !key.shift && key.code == KeyInput::Character('4') {
            self.table.set_or_toggle_sort(SortBy::ProcessPath);
            return AppAction::Nothing;
        }
        if key.shift && key.code == KeyInput::Right {
            return AppAction::ThemeNext;
        }
        if key.shift && key.code == KeyInput::Left {
            return AppAction::ThemePrev;
        }
        AppAction::Nothing
    }

    /// Help mode: closing the popup and navigating its list.
    fn handle_helping_mode_key(&mut self, key: KeyPress)
        requires
            old(self).application_mode == ApplicationMode::Helping,
        ensures
            final(self).application_mode == mode_after(*old(self), key),
            final(self).processes == old(self).processes,
            final(self).processes_filtered == old(self).processes_filtered,
    {
        if key.code == KeyInput::Esc || (!key.shift && key.code == KeyInput::FKey(1)) || key.code
            == KeyInput::Character('?') {
            self.toggle_keybindings_display();
            return ;
        }
        if key.shift && key.code == KeyInput::PageUp {
            self.keybindings.first_row();
        } else if key.shift && key.code == KeyInput::PageDown {
            self.keybindings.last_row();
        } else if !key.ctrl && !key.shift && key.code == KeyInput::PageUp {
            self.keybindings.page_up();
        } else if !key.ctrl && !key.shift && key.code == KeyInput::PageDown {
            self.keybindings.page_down();
        } else if !key.ctrl && !key.shift && key.code == KeyInput::Down {
            self.keybindings.next_row();
        } else if !key.ctrl && !key.shift && key.code == KeyInput::Up {
            self.keybindings.previous_row();
        }
    }

    /// Editing mode: typing into the search, moving its cursor, and
    /// leaving for normal mode.
    fn handle_editing_mode_key(&mut self, key: KeyPress)
        requires
            old(self).application_mode == ApplicationMode::Editing,
        ensures
            final(self).application_mode == mode_after(*old(self), key),
            final(self).processes == old(self).processes,
    {
        match key.code {
            KeyInput::Character(c) => {
                self.search.insert_char(c);
                self.update_filtered_processes();
            },
            KeyInput::Backspace => {
                self.search.delete_char();
                self.update_filtered_processes();
            },
            KeyInput::Left => self.search.move_cursor_left(),
            KeyInput::Right => self.search.move_cursor_right(),
            KeyInput::Down => {
                self.application_mode = ApplicationMode::Normal;
                self.table.next_row();
            },
            KeyInput::Up => {
                self.application_mode = ApplicationMode::Normal;
                self.table.previous_row();
            },
            KeyInput::Esc => {
                self.toggle_processes_search_display();
            },
            _ => {},
        }
    }

    /// Killing mode: moving the focus, confirming — which names the pid
    /// the caller must kill — and aborting.
    fn handle_killing_mode_key(&mut self, key: KeyPress) -> (r: AppAction)
        requires
            old(self).application_mode == ApplicationMode::Killing,
        ensures
            r == action_of(*old(self), key),
            final(self).application_mode == mode_after(*old(self), key),
            final(self).processes == old(self).processes,
            final(self).processes_filtered == old(self).processes_filtered,
    {
        match key.code {
            KeyInput::Left => {
                self.kill.focus_kill();
                AppAction::Nothing
            },
            KeyInput::Right => {
                self.kill.focus_cancel();
                AppAction::Nothing
            },
            KeyInput::Enter => {
                let target: Option<u32> = match &self.kill.item {
                    Some(item) => Some(item.pid),
                    None => None,
                };
                let confirmed = self.kill.confirm();
                self.application_mode = ApplicationMode::Normal;
                if confirmed {
                    match target {
                        Some(pid) => AppAction::KillPid(pid),
                        None => AppAction::Nothing,
                    }
                } else {
                    AppAction::Nothing
                }
            },
            KeyInput::Esc => {
                self.kill.dismiss();
                self.application_mode = ApplicationMode::Normal;
                AppAction::Nothing
            },
            _ => AppAction::Nothing,
        }
    }

    /// Snapshotting mode: closing the popup, moving the focus, cycling the
    /// format, and confirming — which names the export the caller must
    /// write.
    fn handle_snapshotting_mode_key(&mut self, key: KeyPress) -> (r: AppAction)
        requires
            old(self).application_mode == ApplicationMode::Snapshotting,
        ensures
            r == action_of(*old(self), key),
            final(self).application_mode == mode_after(*old(self), key),
            final(self).processes == old(self).processes,
            final(self).processes_filtered == old(self).processes_filtered,
    {
        match key.code {
            KeyInput::Esc => {
                self.toggle_snapshotting_display();
                AppAction::Nothing
            },
            KeyInput::FKey(2) => {
                self.toggle_snapshotting_display();
                AppAction::Nothing
            },
            KeyInput::Left => {
                self.snapshots.action = ExportAction::Export;
                AppAction::Nothing
            },
            KeyInput::Right => {
                self.snapshots.action = ExportAction::Cancel;
                AppAction::Nothing
            },
            KeyInput::Down => {
                self.snapshots.next_format();
                AppAction::Nothing
            },
            KeyInput::Up => {
                self.snapshots.prev_format();
                AppAction::Nothing
            },
            KeyInput::Enter => {
                let action = if self.snapshots.action == ExportAction::Export {
                    AppAction::ExportSnapshot(self.snapshots.selected_format)
                } else {
                    AppAction::Nothing
                };
                self.toggle_snapshotting_display();
                action
            },
            _ => AppAction::Nothing,
        }
    }

    /// Shows or hides the search, clears it, refreshes the filter, and
    /// moves between editing and normal mode accordingly.
    pub fn toggle_processes_search_display(&mut self)
        ensures
            final(self).search.display == !old(self).search.display,
            final(self).search.value@ == Seq::<char>::empty(),
            final(self).application_mode == (if final(self).search.display {
                ApplicationMode::Editing
            } else {
                ApplicationMode::Normal
            }),
            final(self).processes == old(self).processes,
            records_of(final(self).processes_filtered@) == filtered_records(
                records_of(old(self).processes@),
                Seq::<char>::empty(),
            ),
    {
        self.search.toggle();
        self.update_filtered_processes();
        if self.search.display {
            self.application_mode = ApplicationMode::Editing;
        } else {
            self.application_mode = ApplicationMode::Normal;
        }
    }

    /// Shows or hides the help popup and moves between helping and normal
    /// mode accordingly.
    pub fn toggle_keybindings_display(&mut self)
        ensures
            final(self).keybindings.display == !old(self).keybindings.display,
            final(self).application_mode == (if final(self).keybindings.display {
                ApplicationMode::Helping
            } else {
                ApplicationMode::Normal
            }),
            final(self).processes == old(self).processes,
            final(self).processes_filtered == old(self).processes_filtered,
    {
        self.keybindings.toggle();
        if self.keybindings.display {
            self.application_mode = ApplicationMode::Helping;
        } else {
            self.application_mode = ApplicationMode::Normal;
        }
    }

    /// Shows or hides the export popup and moves between snapshotting and
    /// normal mode accordingly.
    pub fn toggle_snapshotting_display(&mut self)
        ensures
            final(self).snapshots.display == !old(self).snapshots.display,
            final(self).application_mode == (if final(self).snapshots.display {
                ApplicationMode::Snapshotting
            } else {
                ApplicationMode::Normal
            }),
            final(self).processes == old(self).processes,
            final(self).processes_filtered == old(self).processes_filtered,
    {
        self.snapshots.toggle();
        if self.snapshots.display {
            self.application_mode = ApplicationMode::Snapshotting;
        } else {
            self.application_mode = ApplicationMode::Normal;
        }
    }
}

} // verus!
