//! Command palette state: a keyboard-first action list with
//! case-insensitive substring filtering and wrap-around selection.
//! Rendering lives with the host; this module is side-effect free.

use vstd::prelude::*;
use vstd::arithmetic::div_mod::{lemma_fundamental_div_mod, lemma_mod_multiples_vanish};
use crate::strutil::{chars_vec, contains_chars, lower_of, lowercase, spec_contains, str_is_blank, spec_is_blank};

verus! {

/// Action identifiers the palette can emit; they map to host-level
/// commands.
#[derive(Clone, Copy, Debug, PartialEq, Eq, Structural)]
pub enum PaletteAction {
    ToggleTheme,
    ToggleDensity,
    ToggleHelpStrip,
    OpenUpdateBanner,
    FilterAgent,
    FilterWorkspace,
    FilterToday,
    FilterWeek,
    FilterCustomDate,
    OpenSavedViews,
    SaveViewSlot(u8),
    LoadViewSlot(u8),
    OpenBulkActions,
    ReloadIndex,
}

/// Render-ready descriptor of an action.
#[derive(Debug)]
pub struct PaletteItem {
    /// What choosing this entry does.
    pub action: PaletteAction,
    /// The entry's label.
    pub label: String,
    /// A short hint shown beside the label.
    pub hint: String,
}

/// Whether two items carry the same data.
pub open spec fn item_like(a: PaletteItem, b: PaletteItem) -> bool {
    &&& a.action == b.action
    &&& a.label@ == b.label@
    &&& a.hint@ == b.hint@
}

/// A copy of the item.
pub fn clone_item(it: &PaletteItem) -> (r: PaletteItem)
    ensures
        item_like(r, *it),
{
    PaletteItem { action: it.action, label: it.label.clone(), hint: it.hint.clone() }
}

/// A render-ready descriptor.
pub fn item(action: PaletteAction, label: &str, hint: &str) -> (r: PaletteItem)
    ensures
        r.action == action,
        r.label@ == label@,
        r.hint@ == hint@,
{
    PaletteItem { action, label: String::from_str(label), hint: String::from_str(hint) }
}

/// Whether an item matches a lowercased query: the query occurs in the
/// lowercased label or the lowercased hint.
pub open spec fn item_matches(it: PaletteItem, lq: Seq<char>) -> bool {
    spec_contains(lower_of(it.label@), lq) || spec_contains(lower_of(it.hint@), lq)
}

/// The items a lowercased query keeps, in catalog order.
pub open spec fn matching_items(items: Seq<PaletteItem>, lq: Seq<char>) -> Seq<PaletteItem> {
    items.filter(|it: PaletteItem| item_matches(it, lq))
}

proof fn lemma_matching_push(items: Seq<PaletteItem>, lq: Seq<char>, it: PaletteItem)
    ensures
        matching_items(items.push(it), lq) == if item_matches(it, lq) {
            matching_items(items, lq).push(it)
        } else {
            matching_items(items, lq)
        },
{
    reveal(Seq::filter);
    assert(items.push(it).drop_last() =~= items);
    assert(items.push(it).last() == it);
}

/// The palette's state: whether it is open, the typed query, the filtered
/// view of the catalog, the full catalog, and the selection index.
#[derive(Debug)]
pub struct PaletteState {
    pub open: bool,
    pub query: String,
    pub filtered: Vec<PaletteItem>,
    pub all_actions: Vec<PaletteItem>,
    pub selected: usize,
}

impl PaletteState {
    /// A closed palette over the given catalog, with an empty query, the
    /// whole catalog visible, and the first entry selected.
    pub fn new(actions: Vec<PaletteItem>) -> (r: PaletteState)
        ensures
            !r.open,
            r.query@.len() == 0,
            r.all_actions == actions,
            r.filtered@.len() == actions@.len(),
            forall|k: int|
                0 <= k < actions@.len() ==> item_like(#[trigger] r.filtered@[k], actions@[k]),
            r.selected == 0,
    {
        let n = actions.len();
        let mut filtered: Vec<PaletteItem> = Vec::new();
        let mut i: usize = 0;
        while i < n
            invariant
                i <= n,
                n == actions@.len(),
                filtered@.len() == i,
                forall|k: int|
                    0 <= k < i ==> item_like(#[trigger] filtered@[k], actions@[k]),
            decreases n - i,
        {
            filtered.push(clone_item(&actions[i]));
            i = i + 1;
        }
        PaletteState { open: false, query: String::new(), filtered, all_actions: actions, selected: 0 }
    }

    /// Recomputes the filtered list: a blank query shows the whole catalog;
    /// otherwise an entry stays when its lowercased label or hint contains
    /// the lowercased query. The selection is clamped to the new list.
    pub fn refilter(&mut self)
        ensures
            final(self).open == old(self).open,
            final(self).query == old(self).query,
            final(self).all_actions == old(self).all_actions,
            spec_is_blank(old(self).query@) ==> {
                &&& final(self).filtered@.len() == old(self).all_actions@.len()
                &&& forall|k: int|
                    0 <= k < final(self).filtered@.len() ==> item_like(
                        #[trigger] final(self).filtered@[k],
                        old(self).all_actions@[k],
                    )
            },
            !spec_is_blank(old(self).query@) ==> {
                let want = matching_items(old(self).all_actions@, lower_of(old(self).query@));
                &&& final(self).filtered@.len() == want.len()
                &&& forall|k: int|
                    0 <= k < final(self).filtered@.len() ==> item_like(
                        #[trigger] final(self).filtered@[k],
                        want[k],
                    )
            },
            final(self).selected == (if old(self).selected < final(self).filtered@.len() {
                old(self).selected as int
            } else if final(self).filtered@.len() == 0 {
                0
            } else {
                final(self).filtered@.len() - 1
            }),
    {
        let blank = str_is_blank(self.query.as_str());
        if blank {
            let n = self.all_actions.len();
            let mut filtered: Vec<PaletteItem> = Vec::new();
            let mut i: usize = 0;
            while i < n
                invariant
                    i <= n,
                    n == self.all_actions@.len(),
                    self.all_actions == old(self).all_actions,
                    filtered@.len() == i,
                    forall|k: int|
                        0 <= k < i ==> item_like(
                            #[trigger] filtered@[k],
                            self.all_actions@[k],
                        ),
                decreases n - i,
            {
                filtered.push(clone_item(&self.all_actions[i]));
                i = i + 1;
            }
            self.filtered = filtered;
        } else {
            let lq_s = lowercase(self.query.as_str());
            let lq = chars_vec(lq_s.as_str());
            let ghost lqv = lower_of(old(self).query@);
            let n = self.all_actions.len();
            let mut filtered: Vec<PaletteItem> = Vec::new();
            let mut i: usize = 0;
            proof {
                reveal(Seq::filter);
                assert(self.all_actions@.take(0) =~= Seq::<PaletteItem>::empty());
            }
            while i < n
                invariant
                    i <= n,
                    n == self.all_actions@.len(),
                    self.all_actions == old(self).all_actions,
                    lq@ == lqv,
                    lqv == lower_of(old(self).query@),
                    filtered@.len() == matching_items(
                        self.all_actions@.take(i as int),
                        lqv,
                    ).len(),
                    forall|k: int|
                        0 <= k < filtered@.len() ==> item_like(
                            #[trigger] filtered@[k],
                            matching_items(self.all_actions@.take(i as int), lqv)[k],
                        ),
                decreases n - i,
            {
                let it = &self.all_actions[i];
                proof {
                    assert(self.all_actions@.take(i + 1) =~= self.all_actions@.take(
                        i as int,
                    ).push(self.all_actions@[i as int]));
                    lemma_matching_push(
                        self.all_actions@.take(i as int),
                        lqv,
                        self.all_actions@[i as int],
                    );
                }
                let ll = lowercase(it.label.as_str());
                let lh = lowercase(it.hint.as_str());
                let llc = chars_vec(ll.as_str());
                let lhc = chars_vec(lh.as_str());
                if contains_chars(&llc, &lq) || contains_chars(&lhc, &lq) {
                    filtered.push(clone_item(it));
                }
                i = i + 1;
            }
            proof {
                assert(self.all_actions@.take(n as int) =~= self.all_actions@);
            }
            self.filtered = filtered;
        }
        if self.selected >= self.filtered.len() {
            let len = self.filtered.len();
            self.selected = if len == 0 {
                0
            } else {
                len - 1
            };
        }
    }

    /// The selection after moving by `delta` with wrap-around over a list
    /// of length `len`; zero on an empty list.
    pub open spec fn spec_move_selection(selected: usize, delta: isize, len: usize) -> int {
        if len == 0 {
            0
        } else {
            (selected + delta) % (len as int)
        }
    }

    /// Moves the selection by `delta`, wrapping around the filtered list.
    pub fn move_selection(&mut self, delta: isize)
        ensures
            final(self).selected == Self::spec_move_selection(
                old(self).selected,
                delta,
                old(self).filtered@.len() as usize,
            ),
            final(self).open == old(self).open,
            final(self).query == old(self).query,
            final(self).filtered == old(self).filtered,
            final(self).all_actions == old(self).all_actions,
    {
        let len = self.filtered.len();
        if len == 0 {
            self.selected = 0;
            return ;
        }
        let m: i128 = len as i128;
        let a: i128 = self.selected as i128 + delta as i128;
        // Shift into non-negative territory by a multiple of the length,
        // which cannot change the residue.
        let big: i128 = 9_223_372_036_854_775_807;
        let k: i128 = big / m + 1;
        proof {
            lemma_fundamental_div_mod(big as int, m as int);
            vstd::arithmetic::div_mod::lemma_mod_bound(big as int, m as int);
            let q = big as int / m as int;
            assert(k == q + 1);
            assert((q + 1) * m == q * m + m) by (nonlinear_arith);
            assert(q * m == m * q) by (nonlinear_arith);
            assert(k * m == big - (big as int % m as int) + m);
            assert(big < k * m <= big + m);
        }
        let shift: i128 = k * m;
        let b: i128 = a + shift;
        let r: i128 = b % m;
        proof {
            lemma_mod_multiples_vanish(k as int, a as int, m as int);
            assert(m as int * k as int + a as int == b as int) by (nonlinear_arith)
                requires b == a + k * m;
            vstd::arithmetic::div_mod::lemma_mod_bound(b as int, m as int);
        }
        self.selected = r as usize;
    }
}

/// The built-in action catalog: twelve fixed commands followed by the nine
/// save-slot / load-slot pairs. Every entry carries a non-empty label and a
/// non-empty hint.
pub fn default_actions() -> (r: Vec<PaletteItem>)
    ensures
        r@.len() == 30,
        forall|k: int|
            0 <= k < r@.len() ==> (#[trigger] r@[k]).label@.len() > 0 && r@[k].hint@.len() > 0,
        r@[0].action == PaletteAction::ToggleTheme,
        r@[1].action == PaletteAction::ToggleDensity,
        r@[2].action == PaletteAction::ToggleHelpStrip,
        r@[3].action == PaletteAction::OpenUpdateBanner,
        r@[4].action == PaletteAction::FilterAgent,
        r@[5].action == PaletteAction::FilterWorkspace,
        r@[6].action == PaletteAction::FilterToday,
        r@[7].action == PaletteAction::FilterWeek,
        r@[8].action == PaletteAction::FilterCustomDate,
        r@[9].action == PaletteAction::OpenBulkActions,
        r@[10].action == PaletteAction::ReloadIndex,
        r@[11].action == PaletteAction::OpenSavedViews,
        forall|s: int|
            0 <= s < 9 ==> (#[trigger] r@[12 + 2 * s]).action == PaletteAction::SaveViewSlot(
                (s + 1) as u8,
            ) && r@[13 + 2 * s].action == PaletteAction::LoadViewSlot((s + 1) as u8),
{
    let mut items: Vec<PaletteItem> = Vec::new();
    items.push(item(PaletteAction::ToggleTheme, "Toggle theme", "Switch light/dark"));
    items.push(item(PaletteAction::ToggleDensity, "Toggle density", "Compact/Cozy/Spacious"));
    items.push(item(PaletteAction::ToggleHelpStrip, "Toggle help strip", "Pin/unpin contextual help"));
    items.push(item(PaletteAction::OpenUpdateBanner, "Check updates", "Show update assistant"));
    items.push(item(PaletteAction::FilterAgent, "Filter: agent", "Set agent filter"));
    items.push(item(PaletteAction::FilterWorkspace, "Filter: workspace", "Set workspace filter"));
    items.push(item(PaletteAction::FilterToday, "Filter: today", "Restrict to today"));
    items.push(item(PaletteAction::FilterWeek, "Filter: last 7 days", "Restrict to week"));
    items.push(item(PaletteAction::FilterCustomDate, "Filter: date range", "Prompt for since/until"));
    items.push(item(PaletteAction::OpenBulkActions, "Bulk actions", "Open bulk menu on selection"));
    items.push(item(PaletteAction::ReloadIndex, "Reload index/view", "Refresh reader"));
    items.push(item(PaletteAction::OpenSavedViews, "Saved views", "List saved slots"));
    proof {
        reveal_strlit("Toggle theme");
        reveal_strlit("Switch light/dark");
        reveal_strlit("Toggle density");
        reveal_strlit("Compact/Cozy/Spacious");
        reveal_strlit("Toggle help strip");
        reveal_strlit("Pin/unpin contextual help");
        reveal_strlit("Check updates");
        reveal_strlit("Show update assistant");
        reveal_strlit("Filter: agent");
        reveal_strlit("Set agent filter");
        reveal_strlit("Filter: workspace");
        reveal_strlit("Set workspace filter");
        reveal_strlit("Filter: today");
        reveal_strlit("Restrict to today");
        reveal_strlit("Filter: last 7 days");
        reveal_strlit("Restrict to week");
        reveal_strlit("Filter: date range");
        reveal_strlit("Prompt for since/until");
        reveal_strlit("Bulk actions");
        reveal_strlit("Open bulk menu on selection");
        reveal_strlit("Reload index/view");
        reveal_strlit("Refresh reader");
        reveal_strlit("Saved views");
        reveal_strlit("List saved slots");
    }
    let mut slot: u8 = 1;
    while slot <= 9
        invariant
            1 <= slot <= 10,
            items@.len() == 12 + 2 * (slot - 1),
            items@[0].action == PaletteAction::ToggleTheme,
            items@[1].action == PaletteAction::ToggleDensity,
            items@[2].action == PaletteAction::ToggleHelpStrip,
            items@[3].action == PaletteAction::OpenUpdateBanner,
            items@[4].action == PaletteAction::FilterAgent,
            items@[5].action == PaletteAction::FilterWorkspace,
            items@[6].action == PaletteAction::FilterToday,
            items@[7].action == PaletteAction::FilterWeek,
            items@[8].action == PaletteAction::FilterCustomDate,
            items@[9].action == PaletteAction::OpenBulkActions,
            items@[10].action == PaletteAction::ReloadIndex,
            items@[11].action == PaletteAction::OpenSavedViews,
            forall|s: int|
                0 <= s < slot - 1 ==> (#[trigger] items@[12 + 2 * s]).action
                    == PaletteAction::SaveViewSlot((s + 1) as u8) && items@[13 + 2 * s].action
                    == PaletteAction::LoadViewSlot((s + 1) as u8),
            forall|k: int|
                0 <= k < items@.len() ==> (#[trigger] items@[k]).label@.len() > 0
                    && items@[k].hint@.len() > 0,
        decreases 10 - slot,
    {
        proof {
            reveal_strlit("Save view to slot ");
            reveal_strlit("Load view from slot ");
            reveal_strlit("Ctrl+<n>");
            reveal_strlit("Shift+<n>");
        }
        let digit = slot_digit(slot);
        items.push(
            item(
                PaletteAction::SaveViewSlot(slot),
                String::from_str("Save view to slot ").concat(digit).as_str(),
                "Ctrl+<n>",
            ),
        );
        items.push(
            item(
                PaletteAction::LoadViewSlot(slot),
                String::from_str("Load view from slot ").concat(digit).as_str(),
                "Shift+<n>",
            ),
        );
        slot = slot + 1;
    }
    items
}

/// The decimal digit of a slot number between one and nine.
fn slot_digit(slot: u8) -> (r: &'static str)
    requires
        1 <= slot <= 9,
    ensures
        r@.len() == 1,
{
    proof {
        reveal_strlit("1");
        reveal_strlit("2");
        reveal_strlit("3");
        reveal_strlit("4");
        reveal_strlit("5");
        reveal_strlit("6");
        reveal_strlit("7");
        reveal_strlit("8");
        reveal_strlit("9");
    }
    if slot == 1 {
        "1"
    } else if slot == 2 {
        "2"
    } else if slot == 3 {
        "3"
    } else if slot == 4 {
        "4"
    } else if slot == 5 {
        "5"
    } else if slot == 6 {
        "6"
    } else if slot == 7 {
        "7"
    } else if slot == 8 {
        "8"
    } else {
        "9"
    }
}

} // verus!
