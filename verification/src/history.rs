//! Session history: per tab slot, an ordered sequence of tab snapshots with
//! a cursor. Back and forward only move the cursor; a fresh navigation
//! discards everything after the cursor, appends the new tab and advances
//! to it.

use crate::tab::Tab;
use vstd::prelude::*;

verus! {

/// The history of one tab slot. At least one entry always exists and the
/// cursor always points at an entry.
#[derive(Debug)]
pub struct TabHistory {
    pub entries: Vec<Tab>,
    pub cursor: usize,
}

impl TabHistory {
    /// Well-formed: the cursor points at one of the entries.
    pub open spec fn wf(&self) -> bool {
        self.entries@.len() > 0 && self.cursor < self.entries@.len()
    }

    /// A history holding only `initial`, the cursor on it.
    pub fn new(initial: Tab) -> (r: TabHistory)
        ensures
            r.wf(),
            r.entries@ =~= seq![initial],
            r.cursor == 0,
    {
        let mut entries: Vec<Tab> = Vec::new();
        entries.push(initial);
        TabHistory { entries, cursor: 0 }
    }

    /// The entry under the cursor.
    pub fn current(&self) -> (r: &Tab)
        requires
            self.wf(),
        ensures
            *r == self.entries@[self.cursor as int],
    {
        &self.entries[self.cursor]
    }

    /// Moves the cursor one entry towards the oldest; at the oldest entry
    /// nothing moves. The entries stay untouched.
    pub fn back(&mut self)
        requires
            old(self).wf(),
        ensures
            final(self).wf(),
            final(self).entries == old(self).entries,
            final(self).cursor as int == (if old(self).cursor > 0 {
                old(self).cursor - 1
            } else {
                0int
            }),
    {
        if self.cursor > 0 {
            self.cursor = self.cursor - 1;
        }
    }

    /// Moves the cursor one entry towards the newest; at the newest entry
    /// nothing moves. The entries stay untouched.
    pub fn forward(&mut self)
        requires
            old(self).wf(),
        ensures
            final(self).wf(),
            final(self).entries == old(self).entries,
            final(self).cursor as int == (if old(self).cursor + 1 < old(self).entries@.len() {
                old(self).cursor + 1
            } else {
                old(self).cursor as int
            }),
    {
        let n = self.entries.len();
        if self.cursor < n - 1 {
            self.cursor = self.cursor + 1;
        }
    }

    /// A fresh navigation: every entry after the cursor is discarded, the
    /// new tab appended, and the cursor advanced to it.
    pub fn navigate(&mut self, t: Tab)
        requires
            old(self).wf(),
        ensures
            final(self).wf(),
            final(self).entries@ == old(self).entries@.take(old(self).cursor + 1).push(t),
            final(self).cursor == old(self).cursor + 1,
    {
        let n = self.entries.len();
        proof {
            assert(self.cursor < n);
        }
        self.entries.truncate(self.cursor + 1);
        self.entries.push(t);
        self.cursor = self.cursor + 1;
    }
}

/// Every open tab slot and which one is shown.
#[derive(Debug)]
pub struct BrowserState {
    pub tabs: Vec<TabHistory>,
    pub active: usize,
}

impl BrowserState {
    /// Well-formed: at least one slot, the active index points at one, and
    /// every slot's history is well-formed.
    pub open spec fn wf(&self) -> bool {
        &&& self.tabs@.len() > 0
        &&& self.active < self.tabs@.len()
        &&& forall|k: int| 0 <= k < self.tabs@.len() ==> (#[trigger] self.tabs@[k]).wf()
    }

    /// One slot holding `initial`, shown.
    pub fn new(initial: Tab) -> (r: BrowserState)
        ensures
            r.wf(),
            r.tabs@.len() == 1,
            r.active == 0,
            r.tabs@[0].entries@ =~= seq![initial],
            r.tabs@[0].cursor == 0,
    {
        let mut tabs: Vec<TabHistory> = Vec::new();
        tabs.push(TabHistory::new(initial));
        BrowserState { tabs, active: 0 }
    }

    /// Opens a new slot holding `initial` and shows it.
    pub fn add_tab(&mut self, initial: Tab)
        requires
            old(self).wf(),
        ensures
            final(self).wf(),
            final(self).tabs@.len() == old(self).tabs@.len() + 1,
            final(self).active == old(self).tabs@.len(),
            forall|k: int|
                0 <= k < old(self).tabs@.len() ==> final(self).tabs@[k] == old(self).tabs@[k],
            final(self).tabs@[old(self).tabs@.len() as int].entries@ =~= seq![initial],
            final(self).tabs@[old(self).tabs@.len() as int].cursor == 0,
    {
        self.active = self.tabs.len();
        self.tabs.push(TabHistory::new(initial));
    }

    /// Shows the slot at `i`.
    pub fn set_active(&mut self, i: usize)
        requires
            old(self).wf(),
            i < old(self).tabs@.len(),
        ensures
            final(self).wf(),
            final(self).tabs == old(self).tabs,
            final(self).active == i,
    {
        self.active = i;
    }

    /// The history of the shown slot.
    pub fn active_history(&self) -> (r: &TabHistory)
        requires
            self.wf(),
        ensures
            *r == self.tabs@[self.active as int],
    {
        &self.tabs[self.active]
    }

    /// Commits a completed navigation into the shown slot.
    pub fn navigate_active(&mut self, t: Tab)
        requires
            old(self).wf(),
        ensures
            final(self).wf(),
            final(self).active == old(self).active,
            final(self).tabs@.len() == old(self).tabs@.len(),
            forall|k: int|
                0 <= k < old(self).tabs@.len() && k != old(self).active ==> final(self).tabs@[k]
                    == old(self).tabs@[k],
            final(self).tabs@[old(self).active as int].entries@ == old(self).tabs@[old(
                self,
            ).active as int].entries@.take(
                old(self).tabs@[old(self).active as int].cursor + 1,
            ).push(t),
            final(self).tabs@[old(self).active as int].cursor == old(self).tabs@[old(
                self,
            ).active as int].cursor + 1,
    {
        let i = self.active;
        let mut h = self.tabs.remove(i);
        h.navigate(t);
        self.tabs.insert(i, h);
        proof {
            assert(forall|k: int|
                0 <= k < old(self).tabs@.len() && k != old(self).active ==> final(self).tabs@[k]
                    == old(self).tabs@[k]);
        }
    }

    /// Moves the shown slot one entry back.
    pub fn back_active(&mut self)
        requires
            old(self).wf(),
        ensures
            final(self).wf(),
            final(self).active == old(self).active,
            final(self).tabs@.len() == old(self).tabs@.len(),
            forall|k: int|
                0 <= k < old(self).tabs@.len() && k != old(self).active ==> final(self).tabs@[k]
                    == old(self).tabs@[k],
            final(self).tabs@[old(self).active as int].entries == old(self).tabs@[old(
                self,
            ).active as int].entries,
            final(self).tabs@[old(self).active as int].cursor as int == (if old(self).tabs@[old(
                self,
            ).active as int].cursor > 0 {
                old(self).tabs@[old(self).active as int].cursor - 1
            } else {
                0int
            }),
    {
        let i = self.active;
        let mut h = self.tabs.remove(i);
        h.back();
        self.tabs.insert(i, h);
    }

    /// Moves the shown slot one entry forward.
    pub fn forward_active(&mut self)
        requires
            old(self).wf(),
        ensures
            final(self).wf(),
            final(self).active == old(self).active,
            final(self).tabs@.len() == old(self).tabs@.len(),
            forall|k: int|
                0 <= k < old(self).tabs@.len() && k != old(self).active ==> final(self).tabs@[k]
                    == old(self).tabs@[k],
            final(self).tabs@[old(self).active as int].entries == old(self).tabs@[old(
                self,
            ).active as int].entries,
            final(self).tabs@[old(self).active as int].cursor as int == (if old(self).tabs@[old(
                self,
            ).active as int].cursor + 1 < old(self).tabs@[old(self).active as int].entries@.len() {
                old(self).tabs@[old(self).active as int].cursor + 1
            } else {
                old(self).tabs@[old(self).active as int].cursor as int
            }),
    {
        let i = self.active;
        let mut h = self.tabs.remove(i);
        h.forward();
        self.tabs.insert(i, h);
    }
}

} // verus!
