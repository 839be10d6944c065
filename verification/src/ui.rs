//! The state of the interactive view, kept apart from any drawing: the
//! application mode, the search input, the sortable process table, the
//! kill-confirmation popup, the export popup and the footer.  Rendering
//! reads this state; every transition here is verified.

use vstd::prelude::*;
use crate::model::{records_of, PortInfo, PortRecord};
use crate::text::dec_of;
use crate::textcmp::{
    contains_chars, contains_seq, lemma_lex_total, lemma_lex_trans, lex_le, lex_le_exec, lower_of,
    lowercase,
};
use crate::tracker::{spec_next, spec_prev, ExportFormat};

verus! {

broadcast use vstd::seq_lib::group_to_multiset_ensures, vstd::multiset::group_multiset_axioms;

/// Which input mode the application is in.
#[derive(Debug, Clone, Copy, PartialEq, Eq, Structural)]
pub enum ApplicationMode {
    Normal,
    Editing,
    Helping,
    Killing,
    Snapshotting,
}

impl Default for ApplicationMode {
    /// The application starts in normal mode.
    fn default() -> (r: Self)
        ensures
            r == ApplicationMode::Normal,
    {
        ApplicationMode::Normal
    }
}

/// The search input: its characters, the cursor position in characters,
/// and whether the input is shown.
#[derive(Debug, Clone, PartialEq, Eq)]
pub struct ProcessSearchComponent {
    pub value: Vec<char>,
    pub cursor_index: usize,
    pub display: bool,
}

impl Default for ProcessSearchComponent {
    /// An empty, hidden search input.
    fn default() -> (r: Self)
        ensures
            r.value@ == Seq::<char>::empty(),
            r.cursor_index == 0,
            !r.display,
    {
        ProcessSearchComponent { value: Vec::new(), cursor_index: 0, display: false }
    }
}

/// A cursor position clamped into `0..=len`.
pub open spec fn clamped(pos: int, len: int) -> int {
    if pos < 0 {
        0
    } else if pos > len {
        len
    } else {
        pos
    }
}

impl ProcessSearchComponent {
    /// Empties the input and resets the cursor.
    pub fn clear(&mut self)
        ensures
            final(self).value@ == Seq::<char>::empty(),
            final(self).cursor_index == 0,
            final(self).display == old(self).display,
    {
        self.value = Vec::new();
        self.cursor_index = 0;
    }

    /// Shows or hides the input; either way the input is emptied.
    pub fn toggle(&mut self)
        ensures
            final(self).display == !old(self).display,
            final(self).value@ == Seq::<char>::empty(),
            final(self).cursor_index == 0,
    {
        self.display = !self.display;
        self.clear();
    }

    /// Moves the cursor one position left, clamped into the input.
    pub fn move_cursor_left(&mut self)
        ensures
            final(self).cursor_index == clamped(
                old(self).cursor_index - 1,
                old(self).value@.len() as int,
            ),
            final(self).value == old(self).value,
            final(self).display == old(self).display,
    {
        let next = if self.cursor_index > 0 {
            self.cursor_index - 1
        } else {
            0
        };
        self.cursor_index = if next > self.value.len() {
            self.value.len()
        } else {
            next
        };
    }

    /// Moves the cursor one position right, clamped into the input.
    pub fn move_cursor_right(&mut self)
        ensures
            final(self).cursor_index == clamped(
                old(self).cursor_index + 1,
                old(self).value@.len() as int,
            ),
            final(self).value == old(self).value,
            final(self).display == old(self).display,
    {
        self.cursor_index = if self.cursor_index < self.value.len() {
            self.cursor_index + 1
        } else {
            self.value.len()
        };
    }

    /// Inserts a character at the cursor and moves the cursor right.
    pub fn insert_char(&mut self, c: char)
        ensures
            final(self).value@ == old(self).value@.insert(
                clamped(old(self).cursor_index as int, old(self).value@.len() as int),
                c,
            ),
            final(self).cursor_index == clamped(
                clamped(old(self).cursor_index as int, old(self).value@.len() as int) + 1,
                old(self).value@.len() as int + 1,
            ),
            final(self).display == old(self).display,
    {
        let idx = if self.cursor_index > self.value.len() {
            self.value.len()
        } else {
            self.cursor_index
        };
        self.value.insert(idx, c);
        self.cursor_index = idx;
        self.move_cursor_right();
    }

    /// Deletes the character before the cursor, if any, and moves the
    /// cursor left.
    pub fn delete_char(&mut self)
        ensures
            old(self).cursor_index == 0 || old(self).cursor_index > old(self).value@.len()
                ==> final(self).value == old(self).value && final(self).cursor_index == (
            if old(self).cursor_index == 0 {
                old(self).cursor_index as int
            } else {
                clamped(old(self).cursor_index - 1, old(self).value@.len() as int)
            }),
            0 < old(self).cursor_index <= old(self).value@.len() ==> final(self).value@ == old(self).value@.remove(old(self).cursor_index - 1) && final(self).cursor_index == old(self).cursor_index - 1,
            final(self).display == old(self).display,
    {
        if self.cursor_index > 0 {
            if self.cursor_index <= self.value.len() {
                self.value.remove(self.cursor_index - 1);
            }
            self.move_cursor_left();
        }
    }

    /// The input as a `String`.
    pub fn value_string(&self) -> (r: String)
        ensures
            r@ == self.value@,
    {
        crate::text::string_from_chars(&self.value)
    }
}

/// The column the table is sorted by.
#[derive(Debug, Clone, Copy, PartialEq, Eq, Structural)]
pub enum SortBy {
    Port,
    PID,
    ProcessName,
    ProcessPath,
}

impl Default for SortBy {
    /// Tables sort by port at first.
    fn default() -> (r: Self)
        ensures
            r == SortBy::Port,
    {
        SortBy::Port
    }
}

/// The direction the table is sorted in.
#[derive(Debug, Clone, Copy, PartialEq, Eq, Structural)]
pub enum SortDirection {
    Ascending,
    Descending,
}

impl Default for SortDirection {
    /// Tables sort ascending at first.
    fn default() -> (r: Self)
        ensures
            r == SortDirection::Ascending,
    {
        SortDirection::Ascending
    }
}

/// Whether `a` comes no later than `b` under the chosen column: ports and
/// pids numerically, names and paths lexicographically on their
/// lower-case forms.
pub open spec fn key_le(a: PortRecord, b: PortRecord, by: SortBy) -> bool {
    match by {
        SortBy::Port => a.port <= b.port,
        SortBy::PID => a.pid <= b.pid,
        SortBy::ProcessName => lex_le(lower_of(a.process_name), lower_of(b.process_name)),
        SortBy::ProcessPath => lex_le(lower_of(a.process_path), lower_of(b.process_path)),
    }
}

/// The table's row order: the column order, reversed when descending.
pub open spec fn row_le(a: PortRecord, b: PortRecord, by: SortBy, dir: SortDirection) -> bool {
    match dir {
        SortDirection::Ascending => key_le(a, b, by),
        SortDirection::Descending => key_le(b, a, by),
    }
}

/// The row order is total.
pub proof fn lemma_row_le_total(a: PortRecord, b: PortRecord, by: SortBy, dir: SortDirection)
    ensures
        row_le(a, b, by, dir) || row_le(b, a, by, dir),
{
    match by {
        SortBy::ProcessName => {
            lemma_lex_total(lower_of(a.process_name), lower_of(b.process_name));
        },
        SortBy::ProcessPath => {
            lemma_lex_total(lower_of(a.process_path), lower_of(b.process_path));
        },
        _ => {},
    }
}

/// The row order is transitive.
pub proof fn lemma_row_le_trans(
    a: PortRecord,
    b: PortRecord,
    c: PortRecord,
    by: SortBy,
    dir: SortDirection,
)
    requires
        row_le(a, b, by, dir),
        row_le(b, c, by, dir),
    ensures
        row_le(a, c, by, dir),
{
    match (by, dir) {
        (SortBy::ProcessName, SortDirection::Ascending) => {
            lemma_lex_trans(
                lower_of(a.process_name),
                lower_of(b.process_name),
                lower_of(c.process_name),
            );
        },
        (SortBy::ProcessName, SortDirection::Descending) => {
            lemma_lex_trans(
                lower_of(c.process_name),
                lower_of(b.process_name),
                lower_of(a.process_name),
            );
        },
        (SortBy::ProcessPath, SortDirection::Ascending) => {
            lemma_lex_trans(
                lower_of(a.process_path),
                lower_of(b.process_path),
                lower_of(c.process_path),
            );
        },
        (SortBy::ProcessPath, SortDirection::Descending) => {
            lemma_lex_trans(
                lower_of(c.process_path),
                lower_of(b.process_path),
                lower_of(a.process_path),
            );
        },
        _ => {},
    }
}

/// Decides the row order of two records.
fn row_le_exec(a: &PortInfo, b: &PortInfo, by: SortBy, dir: SortDirection) -> (r: bool)
    ensures
        r == row_le(a@, b@, by, dir),
{
    let (x, y) = match dir {
        SortDirection::Ascending => (a, b),
        SortDirection::Descending => (b, a),
    };
    match by {
        SortBy::Port => x.port <= y.port,
        SortBy::PID => x.pid <= y.pid,
        SortBy::ProcessName => {
            let lx = lowercase(x.process_name.as_str());
            let ly = lowercase(y.process_name.as_str());
            lex_le_exec(&crate::text::chars_vec(lx.as_str()), &crate::text::chars_vec(ly.as_str()))
        },
        SortBy::ProcessPath => {
            let lx = lowercase(x.process_path.as_str());
            let ly = lowercase(y.process_path.as_str());
            lex_le_exec(&crate::text::chars_vec(lx.as_str()), &crate::text::chars_vec(ly.as_str()))
        },
    }
}

/// Inserting anywhere adds exactly that element to the multiset.
proof fn lemma_insert_multiset(s: Seq<PortRecord>, k: int, x: PortRecord)
    requires
        0 <= k <= s.len(),
    ensures
        s.insert(k, x).to_multiset() == s.to_multiset().insert(x),
{
    let t = s.insert(k, x);
    assert(t.remove(k) =~= s);
    assert(t[k] == x);
    assert(t.remove(k).to_multiset() =~= t.to_multiset().remove(x));
    assert(t.contains(x));
    assert(t.to_multiset().count(x) > 0);
    assert(t.to_multiset() =~= s.to_multiset().insert(x));
}

/// The rows of `v`, sorted stably enough: the result is ordered under the
/// chosen column and direction, and holds exactly the same records.
pub fn sort_ports(v: &Vec<PortInfo>, by: SortBy, dir: SortDirection) -> (r: Vec<PortInfo>)
    ensures
        r@.len() == v@.len(),
        records_of(r@).to_multiset() == records_of(v@).to_multiset(),
        forall|m: int, n: int|
            0 <= m < n < r@.len() ==> row_le(
                #[trigger] records_of(r@)[m],
                #[trigger] records_of(r@)[n],
                by,
                dir,
            ),
{
    let mut out: Vec<PortInfo> = Vec::new();
    let mut i: usize = 0;
    proof {
        assert(records_of(v@.take(0int)) =~= Seq::<PortRecord>::empty());
        assert(records_of(out@) =~= Seq::<PortRecord>::empty());
        assert(records_of(out@).to_multiset() =~= records_of(v@.take(0int)).to_multiset());
    }
    while i < v.len()
        invariant
            i <= v@.len(),
            out@.len() == i,
            records_of(out@).to_multiset() == records_of(v@.take(i as int)).to_multiset(),
            forall|m: int, n: int|
                0 <= m < n < out@.len() ==> row_le(
                    #[trigger] records_of(out@)[m],
                    #[trigger] records_of(out@)[n],
                    by,
                    dir,
                ),
        decreases v@.len() - i,
    {
        let x = v[i].clone();
        let ghost xr = x@;
        let mut k: usize = out.len();
        while k > 0 && !row_le_exec(&out[k - 1], &x, by, dir)
            invariant
                k <= out@.len(),
                forall|m: int|
                    k <= m < out@.len() ==> !row_le(#[trigger] records_of(out@)[m], xr, by, dir),
                xr == x@,
            decreases k,
        {
            k = k - 1;
        }
        let ghost before = out@;
        out.insert(k, x);
        proof {
            let recs = records_of(before);
            let now = records_of(out@);
            assert(now =~= recs.insert(k as int, xr));
            lemma_insert_multiset(recs, k as int, xr);
            assert(records_of(v@.take(i + 1 as int)) =~= records_of(v@.take(i as int)).push(
                v@[i as int]@,
            ));
            assert(records_of(v@.take(i + 1 as int)).to_multiset() =~= records_of(
                v@.take(i as int),
            ).to_multiset().insert(xr));
            assert(now.to_multiset() == records_of(v@.take(i + 1 as int)).to_multiset());
            assert forall|m: int, n: int| 0 <= m < n < now.len() implies row_le(
                #[trigger] now[m],
                #[trigger] now[n],
                by,
                dir,
            ) by {
                if n < k {
                    assert(now[m] == recs[m] && now[n] == recs[n]);
                } else if m > k {
                    assert(now[m] == recs[m - 1] && now[n] == recs[n - 1]);
                } else if m == k {
                    assert(now[m] == xr);
                    assert(now[n] == recs[n - 1]);
                    assert(!row_le(recs[n - 1], xr, by, dir));
                    lemma_row_le_total(xr, recs[n - 1], by, dir);
                } else if n == k {
                    assert(now[n] == xr);
                    assert(now[m] == recs[m]);
                    assert(k >= 1 && row_le(recs[k - 1], xr, by, dir));
                    if m < k - 1 {
                        assert(row_le(recs[m], recs[k - 1], by, dir));
                        lemma_row_le_trans(recs[m], recs[k - 1], xr, by, dir);
                    }
                } else {
                    assert(now[m] == recs[m]);
                    assert(now[n] == recs[n - 1]);
                    assert(m < k < n);
                    assert(k >= 1 && row_le(recs[k - 1], xr, by, dir));
                    assert(!row_le(recs[n - 1], xr, by, dir));
                    lemma_row_le_total(xr, recs[n - 1], by, dir);
                    if m < k - 1 {
                        assert(row_le(recs[m], recs[k - 1], by, dir));
                        lemma_row_le_trans(recs[m], recs[k - 1], xr, by, dir);
                    }
                    lemma_row_le_trans(recs[m], xr, recs[n - 1], by, dir);
                }
            }
        }
        i = i + 1;
    }
    proof {
        assert(v@.take(v@.len() as int) =~= v@);
    }
    out
}

/// The scrollable, sortable table of processes: the rows, the selection,
/// the scroll position, how many rows fit, the column widths, and the
/// sort state.
#[derive(Debug)]
pub struct ProcessTableComponent {
    pub items: Vec<PortInfo>,
    pub selected: Option<usize>,
    pub scroll_pos: usize,
    pub visible_rows: usize,
    pub column_widths: (u16, u16, u16, u16, u16),
    pub sort_by: SortBy,
    pub sort_direction: SortDirection,
}

impl Default for ProcessTableComponent {
    /// An empty table, no selection, sorted by port ascending.
    fn default() -> (r: Self)
        ensures
            r.items@.len() == 0,
            r.selected is None,
            r.scroll_pos == 0,
            r.visible_rows == 0,
            r.column_widths == (6u16, 6u16, 23u16, 50u16, 10u16),
            r.sort_by == SortBy::Port,
            r.sort_direction == SortDirection::Ascending,
    {
        ProcessTableComponent {
            items: Vec::new(),
            selected: None,
            scroll_pos: 0,
            visible_rows: 0,
            column_widths: (6, 6, 23, 50, 10),
            sort_by: SortBy::Port,
            sort_direction: SortDirection::Ascending,
        }
    }
}

/// The fields that sorting never touches: selection, scroll, geometry.
pub open spec fn same_view_frame(a: ProcessTableComponent, b: ProcessTableComponent) -> bool {
    a.selected == b.selected && a.scroll_pos == b.scroll_pos && a.visible_rows == b.visible_rows
        && a.column_widths == b.column_widths
}

/// The fields that navigation never touches: rows, sort state, geometry.
pub open spec fn same_sort_frame(a: ProcessTableComponent, b: ProcessTableComponent) -> bool {
    a.items == b.items && a.sort_by == b.sort_by && a.sort_direction == b.sort_direction
        && a.visible_rows == b.visible_rows && a.column_widths == b.column_widths
}

/// Whether the table rows stand in the table's own order.
pub open spec fn table_sorted(t: ProcessTableComponent) -> bool {
    forall|m: int, n: int|
        0 <= m < n < t.items@.len() ==> row_le(
            #[trigger] records_of(t.items@)[m],
            #[trigger] records_of(t.items@)[n],
            t.sort_by,
            t.sort_direction,
        )
}

impl ProcessTableComponent {
    /// Replaces the rows and sorts them in the current order.
    pub fn set_items(&mut self, items: Vec<PortInfo>)
        ensures
            records_of(final(self).items@).to_multiset() == records_of(items@).to_multiset(),
            final(self).items@.len() == items@.len(),
            table_sorted(*final(self)),
            final(self).sort_by == old(self).sort_by,
            final(self).sort_direction == old(self).sort_direction,
            same_view_frame(*final(self), *old(self)),
    {
        self.items = items;
        self.sort_items();
    }

    /// Sorts the rows in the current order, keeping exactly the same
    /// records.
    pub fn sort_items(&mut self)
        ensures
            records_of(final(self).items@).to_multiset() == records_of(
                old(self).items@,
            ).to_multiset(),
            final(self).items@.len() == old(self).items@.len(),
            table_sorted(*final(self)),
            final(self).sort_by == old(self).sort_by,
            final(self).sort_direction == old(self).sort_direction,
            same_view_frame(*final(self), *old(self)),
    {
        let sorted = sort_ports(&self.items, self.sort_by, self.sort_direction);
        self.items = sorted;
    }

    /// Sorts by the column, or flips the direction when the table already
    /// sorts by it; either way the rows end up in the new order.
    pub fn set_or_toggle_sort(&mut self, by: SortBy)
        ensures
            final(self).sort_by == by,
            final(self).sort_direction == (if old(self).sort_by == by {
                if old(self).sort_direction == SortDirection::Ascending {
                    SortDirection::Descending
                } else {
                    SortDirection::Ascending
                }
            } else {
                SortDirection::Ascending
            }),
            table_sorted(*final(self)),
            records_of(final(self).items@).to_multiset() == records_of(
                old(self).items@,
            ).to_multiset(),
            same_view_frame(*final(self), *old(self)),
    {
        if self.sort_by == by {
            self.toggle_sort_direction();
        } else {
            self.set_sort_column(by);
        }
    }

    /// Sorts by the column, direction reset to ascending.
    pub fn set_sort_column(&mut self, by: SortBy)
        ensures
            final(self).sort_by == by,
            final(self).sort_direction == (if old(self).sort_by == by {
                old(self).sort_direction
            } else {
                SortDirection::Ascending
            }),
            old(self).sort_by != by ==> table_sorted(*final(self)),
            old(self).sort_by == by ==> final(self).items == old(self).items,
            records_of(final(self).items@).to_multiset() == records_of(
                old(self).items@,
            ).to_multiset(),
            same_view_frame(*final(self), *old(self)),
    {
        if self.sort_by != by {
            self.sort_by = by;
            self.sort_direction = SortDirection::Ascending;
            self.sort_items();
        }
    }

    /// Flips the sort direction and re-sorts.
    pub fn toggle_sort_direction(&mut self)
        ensures
            final(self).sort_by == old(self).sort_by,
            final(self).sort_direction == (if old(self).sort_direction
                == SortDirection::Ascending {
                SortDirection::Descending
            } else {
                SortDirection::Ascending
            }),
            table_sorted(*final(self)),
            records_of(final(self).items@).to_multiset() == records_of(
                old(self).items@,
            ).to_multiset(),
            same_view_frame(*final(self), *old(self)),
    {
        self.sort_direction = match self.sort_direction {
            SortDirection::Ascending => SortDirection::Descending,
            SortDirection::Descending => SortDirection::Ascending,
        };
        self.sort_items();
    }

    /// Moves the selection one row down, wrapping to the top; no change on
    /// an empty table with nothing selected.
    pub fn next_row(&mut self)
        ensures
            same_sort_frame(*final(self), *old(self)),
            old(self).items@.len() == 0 ==> *final(self) == *old(self),
            final(self).selected == (match old(self).selected {
                Some(i) => if i + 1 < old(self).items@.len() {
                    Some((i + 1) as usize)
                } else if old(self).items@.len() > 0 {
                    Some(0usize)
                } else {
                    old(self).selected
                },
                None => if old(self).items@.len() > 0 {
                    Some(0usize)
                } else {
                    None
                },
            }),
            old(self).items@.len() > 0 ==> (final(self).selected matches Some(i) ==> final(self).scroll_pos == i),
    {
        let len = self.items.len();
        match self.selected {
            Some(i) => {
                if len > 0 && i < len - 1 {
                    self.selected = Some(i + 1);
                    self.scroll_pos = i + 1;
                } else if len > 0 {
                    self.selected = Some(0);
                    self.scroll_pos = 0;
                }
            },
            None => {
                if len > 0 {
                    self.selected = Some(0);
                    self.scroll_pos = 0;
                }
            },
        }
    }

    /// Moves the selection one row up, wrapping to the bottom; no change
    /// on an empty table with nothing selected.
    pub fn previous_row(&mut self)
        ensures
            same_sort_frame(*final(self), *old(self)),
            final(self).selected == (match old(self).selected {
                Some(i) => if i == 0 && old(self).items@.len() > 0 {
                    Some((old(self).items@.len() - 1) as usize)
                } else if i > 0 {
                    Some((i - 1) as usize)
                } else {
                    old(self).selected
                },
                None => if old(self).items@.len() > 0 {
                    Some(0usize)
                } else {
                    None
                },
            }),
            final(self).scroll_pos as int == (match old(self).selected {
                Some(i) => if i == 0 && old(self).items@.len() > 0 {
                    old(self).items@.len() - 1
                } else if i > 0 {
                    i - 1
                } else {
                    old(self).scroll_pos as int
                },
                None => if old(self).items@.len() > 0 {
                    0int
                } else {
                    old(self).scroll_pos as int
                },
            }),
    {
        let len = self.items.len();
        match self.selected {
            Some(i) => {
                if i == 0 && len > 0 {
                    self.selected = Some(len - 1);
                    self.scroll_pos = len - 1;
                } else if i > 0 {
                    self.selected = Some(i - 1);
                    self.scroll_pos = i - 1;
                }
            },
            None => {
                if len > 0 {
                    self.selected = Some(0);
                    self.scroll_pos = 0;
                }
            },
        }
    }

    /// Selects the first row, if there is one.
    pub fn first_row(&mut self)
        ensures
            same_sort_frame(*final(self), *old(self)),
            old(self).items@.len() > 0 ==> final(self).selected == Some(0usize) && final(self).scroll_pos == 0,
            old(self).items@.len() == 0 ==> *final(self) == *old(self),
    {
        if self.items.len() > 0 {
            self.selected = Some(0);
            self.scroll_pos = 0;
        }
    }

    /// Selects the last row, if there is one.
    pub fn last_row(&mut self)
        ensures
            same_sort_frame(*final(self), *old(self)),
            old(self).items@.len() > 0 ==> final(self).selected == Some(
                (old(self).items@.len() - 1) as usize,
            ) && final(self).scroll_pos == old(self).items@.len() - 1,
            old(self).items@.len() == 0 ==> *final(self) == *old(self),
    {
        let len = self.items.len();
        if len > 0 {
            self.selected = Some(len - 1);
            self.scroll_pos = len - 1;
        }
    }

    /// Moves the selection one page down, stopping at the last row.
    pub fn page_down(&mut self)
        ensures
            same_sort_frame(*final(self), *old(self)),
            old(self).items@.len() == 0 ==> *final(self) == *old(self),
            old(self).items@.len() > 0 ==> final(self).selected == Some(
                (spec_min(
                    spec_sel(old(self).selected) + old(self).visible_rows,
                    old(self).items@.len() - 1,
                )) as usize,
            ) && final(self).scroll_pos as int == spec_min(
                spec_sel(old(self).selected) + old(self).visible_rows,
                old(self).items@.len() - 1,
            ),
    {
        let len = self.items.len();
        if len == 0 {
            return;
        }
        let current = match self.selected {
            Some(i) => i,
            None => 0,
        };
        let room = len - 1;
        let new = if current >= room {
            room
        } else if self.visible_rows >= room - current {
            room
        } else {
            current + self.visible_rows
        };
        self.selected = Some(new);
        self.scroll_pos = new;
    }

    /// Moves the selection one page up, stopping at the first row.
    pub fn page_up(&mut self)
        ensures
            same_sort_frame(*final(self), *old(self)),
            old(self).items@.len() == 0 ==> *final(self) == *old(self),
            old(self).items@.len() > 0 ==> final(self).selected == Some(
                (spec_max(spec_sel(old(self).selected) - old(self).visible_rows, 0)) as usize,
            ) && final(self).scroll_pos as int == spec_max(
                spec_sel(old(self).selected) - old(self).visible_rows,
                0,
            ),
    {
        let len = self.items.len();
        if len == 0 {
            return;
        }
        let current = match self.selected {
            Some(i) => i,
            None => 0,
        };
        let new = if current >= self.visible_rows {
            current - self.visible_rows
        } else {
            0
        };
        self.selected = Some(new);
        self.scroll_pos = new;
    }
}

/// The selected index, zero when nothing is selected.
pub open spec fn spec_sel(s: Option<usize>) -> int {
    match s {
        Some(i) => i as int,
        None => 0,
    }
}

/// The smaller of two values.
pub open spec fn spec_min(a: int, b: int) -> int {
    if a < b {
        a
    } else {
        b
    }
}

/// The larger of two values.
pub open spec fn spec_max(a: int, b: int) -> int {
    if a > b {
        a
    } else {
        b
    }
}

/// Which button the kill popup focuses.
#[derive(Debug, Clone, Copy, PartialEq, Eq, Structural)]
pub enum KillAction {
    Kill,
    Cancel,
}

impl Default for KillAction {
    /// The kill button is focused at first.
    fn default() -> (r: Self)
        ensures
            r == KillAction::Kill,
    {
        KillAction::Kill
    }
}

/// The kill-confirmation popup: whether it shows, which record it is
/// about, and which button is focused.
#[derive(Debug)]
pub struct KillComponent {
    pub display: bool,
    pub item: Option<PortInfo>,
    pub action: KillAction,
}

impl Default for KillComponent {
    /// A hidden popup about nothing, focused on kill.
    fn default() -> (r: Self)
        ensures
            !r.display,
            r.item is None,
            r.action == KillAction::Kill,
    {
        KillComponent { display: false, item: None, action: KillAction::Kill }
    }
}

impl KillComponent {
    /// Shows the popup for this record, focusing the kill button.
    pub fn show(&mut self, item: PortInfo)
        ensures
            final(self).display,
            final(self).item == Some(item),
            final(self).action == KillAction::Kill,
    {
        self.display = true;
        self.item = Some(item);
        self.action = KillAction::Kill;
    }

    /// Hides the popup and forgets its record.
    pub fn dismiss(&mut self)
        ensures
            !final(self).display,
            final(self).item is None,
            final(self).action == old(self).action,
    {
        self.display = false;
        self.item = None;
    }

    /// Focuses the kill button.
    pub fn focus_kill(&mut self)
        ensures
            final(self).action == KillAction::Kill,
            final(self).display == old(self).display,
            final(self).item == old(self).item,
    {
        self.action = KillAction::Kill;
    }

    /// Focuses the cancel button.
    pub fn focus_cancel(&mut self)
        ensures
            final(self).action == KillAction::Cancel,
            final(self).display == old(self).display,
            final(self).item == old(self).item,
    {
        self.action = KillAction::Cancel;
    }

    /// Whether the focused button was kill; either way the popup closes.
    pub fn confirm(&mut self) -> (r: bool)
        ensures
            r == (old(self).action == KillAction::Kill),
            !final(self).display,
            final(self).item is None,
    {
        let do_kill = match self.action {
            KillAction::Kill => true,
            KillAction::Cancel => false,
        };
        self.dismiss();
        do_kill
    }
}

/// Which button the export popup focuses.
#[derive(Debug, Clone, Copy, PartialEq, Eq, Structural)]
pub enum ExportAction {
    Export,
    Cancel,
}

/// The snapshot-export popup: whether it shows, which button is focused,
/// and which format is selected.
#[derive(Debug, Clone, Copy, PartialEq, Eq, Structural)]
pub struct SnapshotsComponent {
    pub display: bool,
    pub action: ExportAction,
    pub selected_format: ExportFormat,
}

impl Default for SnapshotsComponent {
    /// A hidden popup, export focused, JSON selected.
    fn default() -> (r: Self)
        ensures
            !r.display,
            r.action == ExportAction::Export,
            r.selected_format == ExportFormat::Json,
    {
        SnapshotsComponent {
            display: false,
            action: ExportAction::Export,
            selected_format: ExportFormat::Json,
        }
    }
}

impl SnapshotsComponent {
    /// Shows or hides the popup.
    pub fn toggle(&mut self)
        ensures
            final(self).display == !old(self).display,
            final(self).action == old(self).action,
            final(self).selected_format == old(self).selected_format,
    {
        self.display = !self.display;
    }

    /// Selects the next format in the cycle.
    pub fn next_format(&mut self)
        ensures
            final(self).selected_format == spec_next(old(self).selected_format),
            final(self).display == old(self).display,
            final(self).action == old(self).action,
    {
        self.selected_format = self.selected_format.next();
    }

    /// Selects the previous format in the cycle.
    pub fn prev_format(&mut self)
        ensures
            final(self).selected_format == spec_prev(old(self).selected_format),
            final(self).display == old(self).display,
            final(self).action == old(self).action,
    {
        self.selected_format = self.selected_format.prev();
    }
}

/// The footer bar: whether it shows.
#[derive(Debug, Clone, Copy, PartialEq, Eq, Structural)]
pub struct FooterComponent {
    pub display: bool,
}

impl Default for FooterComponent {
    /// The footer starts hidden.
    fn default() -> (r: Self)
        ensures
            !r.display,
    {
        FooterComponent { display: false }
    }
}

impl FooterComponent {
    /// Shows or hides the footer.
    pub fn toggle(&mut self)
        ensures
            final(self).display == !old(self).display,
    {
        self.display = !self.display;
    }
}

/// Whether a record matches a search: the lower-cased query occurs in the
/// pid's numeral, the port's numeral, or the lower-cased process name.
pub open spec fn matches_query(r: PortRecord, q: Seq<char>) -> bool {
    ||| contains_seq(dec_of(r.pid as nat), lower_of(q))
    ||| contains_seq(dec_of(r.port as nat), lower_of(q))
    ||| contains_seq(lower_of(r.process_name), lower_of(q))
}

/// The records that match the search, in their original order.
pub open spec fn filtered_records(rs: Seq<PortRecord>, q: Seq<char>) -> Seq<PortRecord> {
    rs.filter(|r: PortRecord| matches_query(r, q))
}

/// Keeps exactly the processes that match the search, in order.
pub fn filter_processes(processes: &Vec<PortInfo>, query: &Vec<char>) -> (r: Vec<PortInfo>)
    ensures
        records_of(r@) == filtered_records(records_of(processes@), query@),
{
    let q = lowercase(crate::text::string_from_chars(query).as_str());
    let qchars = crate::text::chars_vec(q.as_str());
    let mut out: Vec<PortInfo> = Vec::new();
    let mut i: usize = 0;
    proof {
        reveal(Seq::filter);
        assert(records_of(processes@.take(0int)) =~= Seq::<PortRecord>::empty());
        assert(filtered_records(Seq::<PortRecord>::empty(), query@) == Seq::<PortRecord>::empty());
        assert(records_of(out@) =~= Seq::<PortRecord>::empty());
    }
    while i < processes.len()
        invariant
            i <= processes@.len(),
            qchars@ == lower_of(query@),
            records_of(out@) == filtered_records(records_of(processes@.take(i as int)), query@),
        decreases processes@.len() - i,
    {
        let p = &processes[i];
        let mut pid_chars: Vec<char> = Vec::new();
        crate::text::append_u64(&mut pid_chars, p.pid as u64);
        let mut port_chars: Vec<char> = Vec::new();
        crate::text::append_u64(&mut port_chars, p.port as u64);
        let lname = lowercase(p.process_name.as_str());
        let name_chars = crate::text::chars_vec(lname.as_str());
        let keep = contains_chars(&pid_chars, &qchars) || contains_chars(&port_chars, &qchars)
            || contains_chars(&name_chars, &qchars);
        proof {
            assert(keep == matches_query(processes@[i as int]@, query@));
        }
        if keep {
            out.push(processes[i].clone());
        }
        proof {
            reveal(Seq::filter);
            let prev = records_of(processes@.take(i as int));
            let now = records_of(processes@.take(i + 1 as int));
            assert(now =~= prev.push(processes@[i as int]@));
            assert(now.drop_last() =~= prev);
            assert(now.last() == processes@[i as int]@);
            if keep {
                assert(records_of(out@) =~= records_of(out@.drop_last()).push(
                    processes@[i as int]@,
                ));
                assert(records_of(out@) =~= filtered_records(now, query@));
            } else {
                assert(records_of(out@) =~= filtered_records(now, query@));
            }
        }
        i = i + 1;
    }
    proof {
        assert(processes@.take(processes@.len() as int) =~= processes@);
    }
    out
}

} // verus!
