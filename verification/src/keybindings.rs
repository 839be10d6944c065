//! The help popup's data and state: the key combos and their
//! descriptions, grouped by application mode, with list navigation.

use vstd::prelude::*;
use crate::ui::ApplicationMode;

verus! {

/// One key combo and what it does.
#[derive(Debug, Clone, Copy, PartialEq, Eq)]
pub struct Keybinding {
    pub combo: &'static str,
    pub description: &'static str,
}

impl Keybinding {
    /// The combo and the description, as owned strings.
    pub fn ref_array(&self) -> (r: Vec<String>)
        ensures
            r@.len() == 2,
            r@[0]@ == self.combo@,
            r@[1]@ == self.description@,
    {
        let mut r: Vec<String> = Vec::new();
        r.push(self.combo.to_owned());
        r.push(self.description.to_owned());
        r
    }

    /// The key combo.
    pub fn combo(&self) -> (r: &str)
        ensures
            r@ == self.combo@,
    {
        self.combo
    }

    /// What the combo does.
    pub fn description(&self) -> (r: &str)
        ensures
            r@ == self.description@,
    {
        self.description
    }
}

/// The keybindings of one application mode.
#[derive(Debug)]
pub struct KeybindingsGroup {
    pub mode: ApplicationMode,
    pub bindings: Vec<Keybinding>,
}

/// The full set of keybindings, grouped by mode: the help view's own
/// bindings, then normal mode, search editing, and the kill popup.
pub fn default_keybindings() -> (r: Vec<KeybindingsGroup>)
    ensures
        r@.len() == 4,
        r@[0].mode == ApplicationMode::Helping && r@[0].bindings@.len() == 4,
        r@[1].mode == ApplicationMode::Normal && r@[1].bindings@.len() == 13,
        r@[2].mode == ApplicationMode::Editing && r@[2].bindings@.len() == 6,
        r@[3].mode == ApplicationMode::Killing && r@[3].bindings@.len() == 4,
{
    let mut helping: Vec<Keybinding> = Vec::new();
    helping.push(Keybinding { combo: "Esc, F1, ?", description: "Exit help view" });
    helping.push(Keybinding { combo: "Up, Down", description: "Navigate help entries" });
    helping.push(Keybinding { combo: "Pg Up, Pg Down", description: "Page through help list" });
    helping.push(
        Keybinding {
            combo: "Shift+Pg Up, Shift+Pg Down",
            description: "Jump to start/end of help list",
        },
    );
    let mut normal: Vec<Keybinding> = Vec::new();
    normal.push(Keybinding { combo: "Esc, q, Ctrl+C", description: "Quit the application" });
    normal.push(Keybinding { combo: "Ctrl+F", description: "Toggle search input display" });
    normal.push(Keybinding { combo: "F1, ?", description: "Toggle keybindings help" });
    normal.push(Keybinding { combo: "e", description: "Enter editing mode (search)" });
    normal.push(Keybinding { combo: "Up, Down", description: "Move selection in table" });
    normal.push(Keybinding { combo: "Pg Up, Pg Down", description: "Scroll one page in table" });
    normal.push(
        Keybinding { combo: "1", description: "Sort by Port, press again to toggle direction" },
    );
    normal.push(
        Keybinding { combo: "2", description: "Sort by PID, press again to toggle direction" },
    );
    normal.push(
        Keybinding {
            combo: "3",
            description: "Sort by Process Name, press again to toggle direction",
        },
    );
    normal.push(
        Keybinding {
            combo: "4",
            description: "Sort by Process Path, press again to toggle direction",
        },
    );
    normal.push(
        Keybinding {
            combo: "Shift+Pg Up, Shift+Pg Down",
            description: "Jump to start/end of table",
        },
    );
    normal.push(
        Keybinding { combo: "k", description: "Open kill-process confirmation for selected row" },
    );
    normal.push(
        Keybinding {
            combo: "Shift+Right, Shift+Left",
            description: "Cycle through available themes",
        },
    );
    let mut editing: Vec<Keybinding> = Vec::new();
    editing.push(
        Keybinding {
            combo: "Char keys (a-z, 0-9)",
            description: "Insert character into search field",
        },
    );
    editing.push(
        Keybinding { combo: "Backspace", description: "Delete character from search field" },
    );
    editing.push(Keybinding { combo: "Left, Right", description: "Move cursor in search input" });
    editing.push(
        Keybinding { combo: "Down", description: "Submit search and move selection down" },
    );
    editing.push(Keybinding { combo: "Up", description: "Submit search and move selection up" });
    editing.push(Keybinding { combo: "Esc", description: "Exit search editing (hide input)" });
    let mut killing: Vec<Keybinding> = Vec::new();
    killing.push(Keybinding { combo: "Left", description: "Select 'Kill' action" });
    killing.push(Keybinding { combo: "Right", description: "Select 'Cancel' action" });
    killing.push(Keybinding { combo: "Enter", description: "Confirm selected kill/cancel action" });
    killing.push(Keybinding { combo: "Esc", description: "Abort kill & close confirmation" });
    let mut r: Vec<KeybindingsGroup> = Vec::new();
    r.push(KeybindingsGroup { mode: ApplicationMode::Helping, bindings: helping });
    r.push(KeybindingsGroup { mode: ApplicationMode::Normal, bindings: normal });
    r.push(KeybindingsGroup { mode: ApplicationMode::Editing, bindings: editing });
    r.push(KeybindingsGroup { mode: ApplicationMode::Killing, bindings: killing });
    r
}

/// One row of the flattened help list: a section header or an entry.
#[derive(Debug, Clone, Copy, PartialEq, Eq)]
pub enum KeybindingRow {
    Section(&'static str),
    Entry { combo: &'static str, description: &'static str },
}

impl KeybindingRow {
    /// The two cells the row shows.
    pub fn cells(&self) -> (r: (&str, &str))
        ensures
            match self {
                KeybindingRow::Section(title) => r.0@ == title@ && r.1@ == ""@,
                KeybindingRow::Entry { combo, description } => r.0@ == combo@ && r.1@
                    == description@,
            },
    {
        match self {
            KeybindingRow::Section(title) => (*title, ""),
            KeybindingRow::Entry { combo, description } => (*combo, *description),
        }
    }

    /// Whether the row is a section header.
    pub fn is_section(&self) -> (r: bool)
        ensures
            r == (self matches KeybindingRow::Section(_)),
    {
        match self {
            KeybindingRow::Section(_) => true,
            KeybindingRow::Entry { .. } => false,
        }
    }
}

/// The help popup: the flattened rows, whether it shows, the selection,
/// the scroll position, how many rows fit, and the column widths.
#[derive(Debug)]
pub struct KeybindingsComponent {
    pub items: Vec<KeybindingRow>,
    pub display: bool,
    pub selected: Option<usize>,
    pub scroll_pos: usize,
    pub visible_rows: usize,
    pub col_widths: (u16, u16),
}

impl Default for KeybindingsComponent {
    /// The hidden help popup over the default keybindings: one header per
    /// group and one row per binding.
    fn default() -> (r: Self)
        ensures
            r.items@.len() == 31,
            !r.display,
            r.selected is None,
            r.scroll_pos == 0,
            r.visible_rows == 0,
            r.col_widths == (30u16, 70u16),
    {
        let groups = default_keybindings();
        let mut items: Vec<KeybindingRow> = Vec::new();
        let mut g: usize = 0;
        while g < groups.len()
            invariant
                g <= groups@.len(),
                groups@.len() == 4,
                g >= 1 ==> groups@[0].bindings@.len() == 4,
                g >= 2 ==> groups@[1].bindings@.len() == 13,
                g >= 3 ==> groups@[2].bindings@.len() == 6,
                g >= 4 ==> groups@[3].bindings@.len() == 4,
                groups@[0].bindings@.len() == 4,
                groups@[1].bindings@.len() == 13,
                groups@[2].bindings@.len() == 6,
                groups@[3].bindings@.len() == 4,
                items@.len() == (if g == 0 {
                    0int
                } else if g == 1 {
                    5int
                } else if g == 2 {
                    19int
                } else if g == 3 {
                    26int
                } else {
                    31int
                }),
            decreases groups@.len() - g,
        {
            let header: &'static str = match groups[g].mode {
                ApplicationMode::Helping => "---- LOCAL ----",
                ApplicationMode::Normal => "---- NORMAL ----",
                ApplicationMode::Editing => "---- SEARCHING ----",
                ApplicationMode::Killing => "---- KILLING ----",
                ApplicationMode::Snapshotting => "---- SNAPSHOTTING ----",
            };
            items.push(KeybindingRow::Section(header));
            let mut b: usize = 0;
            let ghost base = items@.len();
            while b < groups[g].bindings.len()
                invariant
                    g < groups@.len(),
                    b <= groups@[g as int].bindings@.len(),
                    items@.len() == base + b,
                decreases groups@[g as int].bindings@.len() - b,
            {
                let kb = groups[g].bindings[b];
                items.push(KeybindingRow::Entry { combo: kb.combo, description: kb.description });
                b = b + 1;
            }
            g = g + 1;
        }
        KeybindingsComponent {
            items,
            display: false,
            selected: None,
            scroll_pos: 0,
            visible_rows: 0,
            col_widths: (30, 70),
        }
    }
}

/// The fields that help-list navigation never touches: rows, visibility,
/// geometry.
pub open spec fn same_help_frame(a: KeybindingsComponent, b: KeybindingsComponent) -> bool {
    a.items == b.items && a.display == b.display && a.visible_rows == b.visible_rows
        && a.col_widths == b.col_widths
}

impl KeybindingsComponent {
    /// Shows or hides the popup; opening selects the first row.
    pub fn toggle(&mut self)
        ensures
            final(self).display == !old(self).display,
            final(self).display ==> final(self).selected == Some(0usize) && final(self).scroll_pos
                == 0,
            !final(self).display ==> final(self).selected == old(self).selected && final(self).scroll_pos == old(self).scroll_pos,
            final(self).items == old(self).items,
            final(self).visible_rows == old(self).visible_rows,
            final(self).col_widths == old(self).col_widths,
    {
        self.display = !self.display;
        if self.display {
            self.selected = Some(0);
            self.scroll_pos = 0;
        }
    }

    /// Moves the selection one row down, wrapping to the top; no change on
    /// an empty list.
    pub fn next_row(&mut self)
        ensures
            same_help_frame(*final(self), *old(self)),
            old(self).items@.len() == 0 ==> *final(self) == *old(self),
            old(self).items@.len() > 0 ==> final(self).selected == (match old(self).selected {
                Some(i) => if i + 1 < old(self).items@.len() {
                    Some((i + 1) as usize)
                } else {
                    Some(0usize)
                },
                None => Some(0usize),
            }) && (final(self).selected matches Some(j) ==> final(self).scroll_pos == j),
    {
        let len = self.items.len();
        if len == 0 {
            return;
        }
        let idx = match self.selected {
            Some(i) => if i < len - 1 {
                i + 1
            } else {
                0
            },
            None => 0,
        };
        self.selected = Some(idx);
        self.scroll_pos = idx;
    }

    /// Moves the selection one row up, wrapping to the bottom; no change
    /// on an empty list.
    pub fn previous_row(&mut self)
        ensures
            same_help_frame(*final(self), *old(self)),
            old(self).items@.len() == 0 ==> *final(self) == *old(self),
            old(self).items@.len() > 0 ==> (final(self).selected matches Some(j) ==> final(self).scroll_pos == j),
            old(self).items@.len() > 0 ==> final(self).selected == (match old(self).selected {
                Some(i) => if i == 0 {
                    Some((old(self).items@.len() - 1) as usize)
                } else {
                    Some((i - 1) as usize)
                },
                None => Some(0usize),
            }),
    {
        let len = self.items.len();
        if len == 0 {
            return;
        }
        let idx = match self.selected {
            Some(i) => if i == 0 {
                len - 1
            } else {
                i - 1
            },
            None => 0,
        };
        self.selected = Some(idx);
        self.scroll_pos = idx;
    }

    /// Selects the first row, if there is one.
    pub fn first_row(&mut self)
        ensures
            same_help_frame(*final(self), *old(self)),
            old(self).items@.len() > 0 ==> final(self).selected == Some(0usize) && final(self).scroll_pos == 0,
            old(self).items@.len() == 0 ==> *final(self) == *old(self),
    {
        if self.items.len() > 0 {
            self.selected = Some(0);
            self.scroll_pos = 0;
        }
    }

    /// Selects the last row, if there is one.
    pub fn last_row(&mut self)
        ensures
            same_help_frame(*final(self), *old(self)),
            old(self).items@.len() > 0 ==> final(self).selected == Some(
                (old(self).items@.len() - 1) as usize,
            ) && final(self).scroll_pos == old(self).items@.len() - 1,
            old(self).items@.len() == 0 ==> *final(self) == *old(self),
    {
        let len = self.items.len();
        if len > 0 {
            self.selected = Some(len - 1);
            self.scroll_pos = len - 1;
        }
    }

    /// Moves the selection one page down, stopping at the last row.
    pub fn page_down(&mut self)
        ensures
            same_help_frame(*final(self), *old(self)),
            old(self).items@.len() == 0 ==> *final(self) == *old(self),
            old(self).items@.len() > 0 ==> final(self).selected == Some(
                (crate::ui::spec_min(
                    crate::ui::spec_sel(old(self).selected) + old(self).visible_rows,
                    old(self).items@.len() - 1,
                )) as usize,
            ) && (final(self).selected matches Some(j) ==> final(self).scroll_pos == j),
    {
        let len = self.items.len();
        if len == 0 {
            return;
        }
        let current = match self.selected {
            Some(i) => i,
            None => 0,
        };
        let room = len - 1;
        let new = if current >= room {
            room
        } else if self.visible_rows >= room - current {
            room
        } else {
            current + self.visible_rows
        };
        self.selected = Some(new);
        self.scroll_pos = new;
    }

    /// Moves the selection one page up, stopping at the first row.
    pub fn page_up(&mut self)
        ensures
            same_help_frame(*final(self), *old(self)),
            old(self).items@.len() == 0 ==> *final(self) == *old(self),
            old(self).items@.len() > 0 ==> final(self).selected == Some(
                (crate::ui::spec_max(
                    crate::ui::spec_sel(old(self).selected) - old(self).visible_rows,
                    0,
                )) as usize,
            ) && (final(self).selected matches Some(j) ==> final(self).scroll_pos == j),
    {
        let len = self.items.len();
        if len == 0 {
            return;
        }
        let current = match self.selected {
            Some(i) => i,
            None => 0,
        };
        let new = if current >= self.visible_rows {
            current - self.visible_rows
        } else {
            0
        };
        self.selected = Some(new);
        self.scroll_pos = new;
    }
}

} // verus!
