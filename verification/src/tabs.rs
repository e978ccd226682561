//! Multi-selection of tabs in the vertical tab bar, and the tab groups it expands.

use vstd::prelude::*;

verus! {

/// A tab: the pane group it shows, the tab group it belongs to, and whether it is
/// in the multi-selection.
#[derive(Clone, Copy, Debug, PartialEq, Eq)]
pub struct Tab {
    pub pane_group_id: u64,
    pub group_id: Option<u64>,
    pub in_multi_selection: bool,
}

/// A tab group and whether it is collapsed.
#[derive(Clone, Copy, Debug, PartialEq, Eq)]
pub struct TabGroup {
    pub id: u64,
    pub collapsed: bool,
}

/// The tabs of a workspace window.
#[derive(Clone, Debug)]
pub struct WorkspaceTabs {
    pub tabs: Vec<Tab>,
    pub tab_groups: Vec<TabGroup>,
    pub active_tab_index: usize,
}

/// `t` with its multi-selection flag set to `selected`.
pub open spec fn with_selection(t: Tab, selected: bool) -> Tab {
    Tab { in_multi_selection: selected, ..t }
}

/// `g` with its collapsed flag set to `collapsed`.
pub open spec fn with_collapsed(g: TabGroup, collapsed: bool) -> TabGroup {
    TabGroup { collapsed, ..g }
}

pub open spec fn min(a: int, b: int) -> int {
    if a <= b { a } else { b }
}

pub open spec fn max(a: int, b: int) -> int {
    if a <= b { b } else { a }
}

/// Whether a tab in `lo..=hi` belongs to group `id`; nothing when the range runs
/// past the last tab.
pub open spec fn range_crosses_group(tabs: Seq<Tab>, lo: int, hi: int, id: u64) -> bool {
    hi < tabs.len() && exists|i: int| lo <= i <= hi && tabs[i].group_id == Some(id)
}

/// The index of the first tab showing `pane_group_id`.
pub open spec fn tab_position(tabs: Seq<Tab>, pane_group_id: u64) -> Option<int> {
    if exists|i: int| 0 <= i < tabs.len() && tabs[i].pane_group_id == pane_group_id {
        Some(
            choose|i: int|
                0 <= i < tabs.len() && tabs[i].pane_group_id == pane_group_id && forall|k: int|
                    0 <= k < i ==> tabs[k].pane_group_id != pane_group_id,
        )
    } else {
        None
    }
}

/// `new` is `old` after selecting the tabs in `lo..=hi` and expanding the groups the
/// range crosses; everything else is kept.
pub open spec fn range_selected(old_tabs: WorkspaceTabs, new_tabs: WorkspaceTabs, lo: int, hi: int) -> bool {
    &&& new_tabs.active_tab_index == old_tabs.active_tab_index
    &&& new_tabs.tabs@.len() == old_tabs.tabs@.len()
    &&& forall|i: int|
        0 <= i < old_tabs.tabs@.len() ==> #[trigger] new_tabs.tabs@[i] == with_selection(old_tabs.tabs@[i], old_tabs.tabs@[i].in_multi_selection || (lo <= i <= hi))
    &&& new_tabs.tab_groups@.len() == old_tabs.tab_groups@.len()
    &&& forall|g: int|
        0 <= g < old_tabs.tab_groups@.len() ==> #[trigger] new_tabs.tab_groups@[g] == with_collapsed(old_tabs.tab_groups@[g], old_tabs.tab_groups@[g].collapsed && !range_crosses_group(
                old_tabs.tabs@,
                lo,
                hi,
                old_tabs.tab_groups@[g].id,
            ))
}

impl WorkspaceTabs {
    /// Clears the multi-selection on every tab.
    pub fn clear_tab_multi_selection(&mut self)
        ensures
            final(self).active_tab_index == old(self).active_tab_index,
            final(self).tab_groups@ == old(self).tab_groups@,
            final(self).tabs@.len() == old(self).tabs@.len(),
            forall|i: int|
                0 <= i < old(self).tabs@.len() ==> #[trigger] final(self).tabs@[i] == with_selection(old(self).tabs@[i], false),
    {
        let mut i: usize = 0;
        while i < self.tabs.len()
            invariant
                self.active_tab_index == old(self).active_tab_index,
                self.tab_groups@ == old(self).tab_groups@,
                self.tabs@.len() == old(self).tabs@.len(),
                i <= self.tabs@.len(),
                forall|k: int|
                    0 <= k < self.tabs@.len() ==> #[trigger] self.tabs@[k] == if k < i {
                        with_selection(old(self).tabs@[k], false)
                    } else {
                        old(self).tabs@[k]
                    },
            decreases self.tabs@.len() - i,
        {
            let mut tab = self.tabs[i];
            tab.in_multi_selection = false;
            self.tabs.set(i, tab);
            i = i + 1;
        }
    }

    /// Adds the inclusive range between `anchor_index` and `clicked_index` to the
    /// multi-selection and expands every group the range crosses (only when the
    /// whole range lies within the tabs). The selection outside the range is kept.
    pub fn set_tab_range_selection(&mut self, anchor_index: usize, clicked_index: usize)
        ensures
            range_selected(
                *old(self),
                *final(self),
                min(anchor_index as int, clicked_index as int),
                max(anchor_index as int, clicked_index as int),
            ),
    {
        let lo = if anchor_index <= clicked_index { anchor_index } else { clicked_index };
        let hi = if anchor_index <= clicked_index { clicked_index } else { anchor_index };
        let ghost old_tabs = self.tabs@;
        let n = self.tabs.len();
        let mut g: usize = 0;
        while g < self.tab_groups.len()
            invariant
                self.tabs@ == old_tabs,
                old_tabs == old(self).tabs@,
                n == old_tabs.len(),
                self.active_tab_index == old(self).active_tab_index,
                self.tab_groups@.len() == old(self).tab_groups@.len(),
                g <= self.tab_groups@.len(),
                forall|q: int|
                    0 <= q < self.tab_groups@.len() ==> #[trigger] self.tab_groups@[q] == if q < g {
                        with_collapsed(old(self).tab_groups@[q], old(self).tab_groups@[q].collapsed && !range_crosses_group(
                                old_tabs,
                                lo as int,
                                hi as int,
                                old(self).tab_groups@[q].id,
                            ))
                    } else {
                        old(self).tab_groups@[q]
                    },
            decreases self.tab_groups@.len() - g,
        {
            let mut group = self.tab_groups[g];
            if lo <= hi && hi < n && range_has_group(&self.tabs, lo, hi, group.id) {
                group.collapsed = false;
            }
            self.tab_groups.set(g, group);
            g = g + 1;
        }
        let mut i: usize = 0;
        while i < self.tabs.len()
            invariant
                old_tabs == old(self).tabs@,
                self.active_tab_index == old(self).active_tab_index,
                self.tabs@.len() == old_tabs.len(),
                i <= self.tabs@.len(),
                forall|k: int|
                    0 <= k < self.tabs@.len() ==> #[trigger] self.tabs@[k] == if k < i {
                        with_selection(old_tabs[k], old_tabs[k].in_multi_selection || (lo <= k <= hi))
                    } else {
                        old_tabs[k]
                    },
                forall|q: int|
                    0 <= q < self.tab_groups@.len() ==> #[trigger] self.tab_groups@[q] == with_collapsed(old(self).tab_groups@[q], old(self).tab_groups@[q].collapsed && !range_crosses_group(
                            old_tabs,
                            lo as int,
                            hi as int,
                            old(self).tab_groups@[q].id,
                        )),
                self.tab_groups@.len() == old(self).tab_groups@.len(),
            decreases self.tabs@.len() - i,
        {
            if lo <= i && i <= hi {
                let mut tab = self.tabs[i];
                tab.in_multi_selection = true;
                self.tabs.set(i, tab);
            }
            i = i + 1;
        }
    }

    /// Shift-click: when grouped tabs are on, selects every tab between the active tab
    /// and the first tab showing `pane_group_id` (inclusive).
    pub fn shift_select_tab_range(&mut self, pane_group_id: u64, grouped_tabs_enabled: bool)
        ensures
            (grouped_tabs_enabled && tab_position(old(self).tabs@, pane_group_id) is Some)
                ==> range_selected(
                *old(self),
                *final(self),
                min(
                    old(self).active_tab_index as int,
                    tab_position(old(self).tabs@, pane_group_id)->0,
                ),
                max(
                    old(self).active_tab_index as int,
                    tab_position(old(self).tabs@, pane_group_id)->0,
                ),
            ),
            !(grouped_tabs_enabled && tab_position(old(self).tabs@, pane_group_id) is Some)
                ==> *final(self) == *old(self),
    {
        if !grouped_tabs_enabled {
            return;
        }
        match find_tab(&self.tabs, pane_group_id) {
            Some(clicked_index) => {
                let anchor = self.active_tab_index;
                self.set_tab_range_selection(anchor, clicked_index);
            },
            None => {},
        }
    }

    /// Cmd-click: when grouped tabs are on, flips the multi-selection of the first tab
    /// showing `pane_group_id`.
    pub fn toggle_tab_multi_selection(&mut self, pane_group_id: u64, grouped_tabs_enabled: bool)
        ensures
            final(self).active_tab_index == old(self).active_tab_index,
            final(self).tab_groups@ == old(self).tab_groups@,
            (grouped_tabs_enabled && tab_position(old(self).tabs@, pane_group_id) is Some)
                ==> final(self).tabs@ == old(self).tabs@.update(
                tab_position(old(self).tabs@, pane_group_id)->0,
                with_selection(old(self).tabs@[tab_position(old(self).tabs@, pane_group_id)->0], !old(self).tabs@[tab_position(
                        old(self).tabs@,
                        pane_group_id,
                    )->0].in_multi_selection),
            ),
            !(grouped_tabs_enabled && tab_position(old(self).tabs@, pane_group_id) is Some)
                ==> final(self).tabs@ == old(self).tabs@,
    {
        if !grouped_tabs_enabled {
            return;
        }
        match find_tab(&self.tabs, pane_group_id) {
            Some(i) => {
                let mut tab = self.tabs[i];
                tab.in_multi_selection = !tab.in_multi_selection;
                self.tabs.set(i, tab);
            },
            None => {},
        }
    }
}

/// Whether a tab in `lo..=hi` belongs to group `id`.
fn range_has_group(tabs: &Vec<Tab>, lo: usize, hi: usize, id: u64) -> (r: bool)
    requires
        lo <= hi < tabs@.len(),
    ensures
        r == range_crosses_group(tabs@, lo as int, hi as int, id),
{
    let n = tabs.len();
    let mut i = lo;
    while i <= hi
        invariant
            n == tabs@.len(),
            lo <= hi < tabs@.len(),
            lo <= i <= hi + 1,
            forall|k: int| lo <= k < i ==> tabs@[k].group_id != Some(id),
        decreases hi + 1 - i,
    {
        if tabs[i].group_id == Some(id) {
            return true;
        }
        i = i + 1;
    }
    false
}

/// The index of the first tab showing `pane_group_id`.
fn find_tab(tabs: &Vec<Tab>, pane_group_id: u64) -> (r: Option<usize>)
    ensures
        match r {
            Some(i) => i < tabs@.len() && tab_position(tabs@, pane_group_id) == Some(i as int),
            None => tab_position(tabs@, pane_group_id) is None,
        },
{
    let mut i: usize = 0;
    while i < tabs.len()
        invariant
            i <= tabs@.len(),
            forall|k: int| 0 <= k < i ==> tabs@[k].pane_group_id != pane_group_id,
        decreases tabs@.len() - i,
    {
        if tabs[i].pane_group_id == pane_group_id {
            proof {
                let c = choose|c: int|
                    0 <= c < tabs@.len() && tabs@[c].pane_group_id == pane_group_id && forall|k: int|
                        0 <= k < c ==> tabs@[k].pane_group_id != pane_group_id;
                if c < i {
                    assert(tabs@[c].pane_group_id != pane_group_id);
                } else if c > i {
                    assert(tabs@[i as int].pane_group_id != pane_group_id);
                }
            }
            return Some(i);
        }
        i = i + 1;
    }
    None
}

} // verus!
