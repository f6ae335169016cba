//! Navigation state: the application lifecycle flag, the tab selector, and
//! the bounded-cyclic selection cursor shared by the table, menu and palette
//! views.

use vstd::prelude::*;

verus! {

/// Application lifecycle: `Running` until the user quits; the transition to
/// `Quitting` is one-directional and terminal.
#[derive(Default, Clone, Copy, PartialEq, Eq)]
pub enum AppState {
    #[default]
    Running,
    Quitting,
}

/// The four top-level tabs of the explorer, in display order.
#[derive(Default, Clone, Copy, PartialEq, Eq)]
pub enum SelectedTab {
    #[default]
    Tab1,
    Tab2,
    Tab3,
    Tab4,
}

impl SelectedTab {
    /// Position of the tab in display order.
    pub open spec fn spec_index(self) -> int {
        match self {
            SelectedTab::Tab1 => 0,
            SelectedTab::Tab2 => 1,
            SelectedTab::Tab3 => 2,
            SelectedTab::Tab4 => 3,
        }
    }

    /// The tab after `self`, wrapping from the last tab to the first.
    pub open spec fn spec_next(self) -> SelectedTab {
        match self {
            SelectedTab::Tab1 => SelectedTab::Tab2,
            SelectedTab::Tab2 => SelectedTab::Tab3,
            SelectedTab::Tab3 => SelectedTab::Tab4,
            SelectedTab::Tab4 => SelectedTab::Tab1,
        }
    }

    /// The tab before `self`, wrapping from the first tab to the last.
    pub open spec fn spec_previous(self) -> SelectedTab {
        match self {
            SelectedTab::Tab1 => SelectedTab::Tab4,
            SelectedTab::Tab2 => SelectedTab::Tab1,
            SelectedTab::Tab3 => SelectedTab::Tab2,
            SelectedTab::Tab4 => SelectedTab::Tab3,
        }
    }

    /// Display label of the tab.
    pub open spec fn spec_title(self) -> Seq<char> {
        match self {
            SelectedTab::Tab1 => "Data Explorer"@,
            SelectedTab::Tab2 => "Visualization"@,
            SelectedTab::Tab3 => "Statistics"@,
            SelectedTab::Tab4 => "Extras"@,
        }
    }

    /// The next tab in display order, wrapping to the first past the last:
    /// the tab index is one more bounded-cyclic counter.
    pub fn next(&self) -> (r: SelectedTab)
        ensures
            r == self.spec_next(),
            r.spec_index() == (self.spec_index() + 1) % 4,
    {
        match self {
            SelectedTab::Tab1 => SelectedTab::Tab2,
            SelectedTab::Tab2 => SelectedTab::Tab3,
            SelectedTab::Tab3 => SelectedTab::Tab4,
            SelectedTab::Tab4 => SelectedTab::Tab1,
        }
    }

    /// The previous tab in display order, wrapping to the last from the
    /// first.
    pub fn previous(&self) -> (r: SelectedTab)
        ensures
            r == self.spec_previous(),
            r.spec_index() == (self.spec_index() + 3) % 4,
    {
        match self {
            SelectedTab::Tab1 => SelectedTab::Tab4,
            SelectedTab::Tab2 => SelectedTab::Tab1,
            SelectedTab::Tab3 => SelectedTab::Tab2,
            SelectedTab::Tab4 => SelectedTab::Tab3,
        }
    }

    /// The tab's name, for the tab bar.
    pub fn title(&self) -> (r: String)
        ensures
            r@ == self.spec_title(),
    {
        match self {
            SelectedTab::Tab1 => String::from_str("Data Explorer"),
            SelectedTab::Tab2 => String::from_str("Visualization"),
            SelectedTab::Tab3 => String::from_str("Statistics"),
            SelectedTab::Tab4 => String::from_str("Extras"),
        }
    }

    /// Position of the tab in display order, for highlighting.
    pub fn index(&self) -> (r: usize)
        ensures
            r == self.spec_index(),
    {
        match self {
            SelectedTab::Tab1 => 0,
            SelectedTab::Tab2 => 1,
            SelectedTab::Tab3 => 2,
            SelectedTab::Tab4 => 3,
        }
    }
}

/// The tab-level application state machine: a lifecycle flag plus the
/// selected tab. Drawing and key handling live outside the library; they
/// call `next_tab`, `previous_tab` and `quit` and read the fields.
#[derive(Default)]
pub struct App {
    pub state: AppState,
    pub selected_tab: SelectedTab,
}

impl App {
    pub fn next_tab(&mut self)
        ensures
            final(self).selected_tab == old(self).selected_tab.spec_next(),
            final(self).state == old(self).state,
    {
        self.selected_tab = self.selected_tab.next();
    }

    pub fn previous_tab(&mut self)
        ensures
            final(self).selected_tab == old(self).selected_tab.spec_previous(),
            final(self).state == old(self).state,
    {
        self.selected_tab = self.selected_tab.previous();
    }

    pub fn quit(&mut self)
        ensures
            final(self).state == AppState::Quitting,
            final(self).selected_tab == old(self).selected_tab,
    {
        self.state = AppState::Quitting;
    }
}

/// A bounded cyclic cursor over `item_count` items.
///
/// The index stays in `[0, item_count)` whenever `item_count > 0`, and is
/// pinned to `0` when there are no items; stepping in either direction is
/// then a no-op, so an empty view can never underflow or go out of range.
pub struct SelectionState {
    pub selected_index: usize,
    pub item_count: usize,
}

impl SelectionState {
    /// The cursor is within bounds, and parked at 0 when there is nothing to
    /// select.
    pub open spec fn wf(self) -> bool {
        if self.item_count == 0 {
            self.selected_index == 0
        } else {
            self.selected_index < self.item_count
        }
    }

    pub fn new(item_count: usize) -> (r: SelectionState)
        ensures
            r.wf(),
            r.item_count == item_count,
            r.selected_index == 0,
    {
        SelectionState { selected_index: 0, item_count }
    }

    /// Step forward, wrapping to 0 past the last item; no-op when empty.
    pub fn next(&mut self)
        requires
            old(self).wf(),
        ensures
            final(self).wf(),
            final(self).item_count == old(self).item_count,
            old(self).item_count == 0 ==> final(self).selected_index == 0,
            old(self).item_count > 0 ==> final(self).selected_index == (old(
                self,
            ).selected_index + 1) % (old(self).item_count as int),
    {
        if self.item_count == 0 {
            self.selected_index = 0;
        } else if self.selected_index >= self.item_count - 1 {
            proof {
                vstd::arithmetic::div_mod::lemma_mod_self_0(self.item_count as int);
            }
            self.selected_index = 0;
        } else {
            proof {
                vstd::arithmetic::div_mod::lemma_small_mod(
                    (self.selected_index + 1) as nat,
                    self.item_count as nat,
                );
            }
            self.selected_index = self.selected_index + 1;
        }
    }

    /// Step backward, wrapping to the last item from 0; no-op when empty.
    pub fn previous(&mut self)
        requires
            old(self).wf(),
        ensures
            final(self).wf(),
            final(self).item_count == old(self).item_count,
            old(self).item_count == 0 ==> final(self).selected_index == 0,
            old(self).item_count > 0 ==> final(self).selected_index == (old(
                self,
            ).selected_index + old(self).item_count - 1) % (old(self).item_count as int),
    {
        if self.item_count == 0 {
            self.selected_index = 0;
        } else if self.selected_index == 0 {
            proof {
                vstd::arithmetic::div_mod::lemma_small_mod(
                    (self.item_count - 1) as nat,
                    self.item_count as nat,
                );
            }
            self.selected_index = self.item_count - 1;
        } else {
            proof {
                vstd::arithmetic::div_mod::lemma_mod_multiples_vanish(
                    1,
                    self.selected_index - 1,
                    self.item_count as int,
                );
                vstd::arithmetic::div_mod::lemma_small_mod(
                    (self.selected_index - 1) as nat,
                    self.item_count as nat,
                );
            }
            self.selected_index = self.selected_index - 1;
        }
    }
}

} // verus!
