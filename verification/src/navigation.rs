//! The navigation bar: the tabs that switch between the main screens.

use vstd::prelude::*;

use crate::router::{AppRoute, HnStoriesSections};

verus! {

/// Tabs shown on the left side of the navigation bar.
pub const LEFT_TABS_TITLES: [&'static str; 5] = ["Home", "Ask HN", "Show HN", "Jobs", "Settings"];

/// Tabs shown on the right side of the navigation bar.
pub const RIGHT_TABS_TITLES: [&'static str; 2] = ["Help", "Resume"];

/// All the tabs, in selection order (left to right).
pub const TABS_TITLES: [&'static str; 7] = ["Home", "Ask HN", "Show HN", "Jobs", "Settings", "Help", "Resume"];

/// Sum of the padded widths of the given titles: each title takes its number of
/// characters plus one space on each side.
pub open spec fn padded_titles_width(titles: Seq<&str>) -> nat
    decreases titles.len(),
{
    if titles.len() == 0 {
        0
    } else {
        padded_titles_width(titles.drop_last()) + titles.last()@.len() + 2
    }
}

/// Rendered width of a row of tabs: the padded titles and a one-character
/// divider between each two neighbours.
pub open spec fn rendered_tabs_width(titles: Seq<&str>) -> nat {
    padded_titles_width(titles) + if titles.len() > 0 { (titles.len() - 1) as nat } else { 0 }
}

/// Rendered width of a `Tabs` widget, which pads every title with one space
/// on each side and inserts a one-character divider in-between. The width is
/// a `u16`: it is the rendered width modulo 2^16.
pub fn tabs_width(titles: &[&str]) -> (width: u16)
    ensures
        width as nat == rendered_tabs_width(titles@) % 0x10000,
{
    let mut titles_width: u16 = 0;
    let mut i: usize = 0;
    while i < titles.len()
        invariant
            i <= titles@.len(),
            titles_width as nat == padded_titles_width(titles@.take(i as int)) % 0x10000,
        decreases titles@.len() - i,
    {
        let title_width = titles[i].unicode_len();
        let ghost previous = padded_titles_width(titles@.take(i as int));
        proof {
            assert(titles@.take(i + 1).drop_last() =~= titles@.take(i as int));
            vstd::arithmetic::div_mod::lemma_add_mod_noop(
                previous as int,
                title_width + 2,
                0x10000,
            );
            vstd::arithmetic::div_mod::lemma_add_mod_noop(title_width as int, 2, 0x10000);
            vstd::arithmetic::div_mod::lemma_mod_twice(title_width as int, 0x10000);
            vstd::arithmetic::div_mod::lemma_small_mod(2, 0x10000);
            vstd::arithmetic::div_mod::lemma_add_mod_noop(
                previous as int,
                (title_width % 0x10000) + 2,
                0x10000,
            );
        }
        let sum: u32 = titles_width as u32 + (title_width % 0x10000) as u32 + 2;
        titles_width = (sum % 0x10000) as u16;
        i = i + 1;
    }
    proof {
        assert(titles@.take(i as int) =~= titles@);
    }
    let dividers_width = titles.len().saturating_sub(1);
    proof {
        vstd::arithmetic::div_mod::lemma_add_mod_noop(
            padded_titles_width(titles@) as int,
            dividers_width as int,
            0x10000,
        );
    }
    let total: u32 = titles_width as u32 + (dividers_width % 0x10000) as u32;
    (total % 0x10000) as u16
}

/// Equality of string slices: std compares their UTF-8 bytes, which are equal
/// exactly when the strings hold the same characters. The contract states
/// that.
pub assume_specification[ <str as PartialEq>::eq ](text: &str, other: &str) -> (equal: bool)
    ensures
        equal == (text@ == other@),
;

/// Number of tabs in the navigation bar.
pub const TABS_COUNT: usize = 7;

/// Number of tabs in the left group of the navigation bar.
pub const LEFT_TABS_COUNT: usize = 5;

/// Identifier of the navigation bar among the UI components.
pub const NAVIGATION_ID: &'static str = "navigation";

/// The tab that follows tab `index`, wrapping around after the last one.
pub open spec fn next_tab(index: nat) -> nat {
    ((index + 1) % (TABS_COUNT as nat)) as nat
}

/// The tab that precedes tab `index`, wrapping around before the first one.
pub open spec fn previous_tab(index: nat) -> nat {
    if index > 0 {
        (index - 1) as nat
    } else {
        (TABS_COUNT - 1) as nat
    }
}

/// The screen that tab `index` leads to.
pub open spec fn tab_route(index: nat) -> AppRoute {
    if index == 0 {
        AppRoute::Home(HnStoriesSections::Home)
    } else if index == 1 {
        AppRoute::Home(HnStoriesSections::Ask)
    } else if index == 2 {
        AppRoute::Home(HnStoriesSections::Show)
    } else if index == 3 {
        AppRoute::Home(HnStoriesSections::Jobs)
    } else if index == 4 {
        AppRoute::Settings
    } else if index == 5 {
        AppRoute::Help
    } else {
        AppRoute::Resume
    }
}

/// The tab that stands for `route`, if it has one.
pub open spec fn route_tab(route: AppRoute) -> Option<nat> {
    match route {
        AppRoute::Home(section) => match section {
            HnStoriesSections::Home => Some(0),
            HnStoriesSections::Ask => Some(1),
            HnStoriesSections::Show => Some(2),
            HnStoriesSections::Jobs => Some(3),
        },
        AppRoute::Settings => Some(4),
        AppRoute::Help => Some(5),
        AppRoute::Resume => Some(6),
        AppRoute::Other => None,
    }
}

/// The navigation bar provides a convenient way to switch between screens
/// by either pressing the hotkey associated with the title, or by
/// directly switching tabs with the help of the arrow keys.
#[derive(Debug)]
pub struct Navigation {
    titles: Vec<&'static str>,
    selected_index: usize,
}

impl Navigation {
    #[verifier::type_invariant]
    spec fn well_formed(self) -> bool {
        &&& self.titles@ == TABS_TITLES@
        &&& self.selected_index < TABS_COUNT
    }

    /// The titles of the tabs, in selection order.
    pub closed spec fn tabs(self) -> Seq<&'static str> {
        self.titles@
    }

    /// The index of the selected tab.
    pub closed spec fn selected(self) -> nat {
        self.selected_index as nat
    }

    /// Index of the selected tab.
    pub fn selected_index(&self) -> (index: usize)
        ensures
            index == self.selected(),
            index < TABS_COUNT,
    {
        proof {
            use_type_invariant(self);
        }
        self.selected_index
    }

    /// Identifier of the navigation bar among the UI components.
    pub fn id(&self) -> (id: &'static str)
        ensures
            id == NAVIGATION_ID,
    {
        NAVIGATION_ID
    }

    /// The titles of the tabs, in selection order.
    pub fn titles(&self) -> (titles: &[&'static str])
        ensures
            titles@ == self.tabs(),
            titles@ == TABS_TITLES@,
    {
        proof {
            use_type_invariant(self);
        }
        self.titles.as_slice()
    }

    /// Select the next tab, wrapping around after the last one.
    pub fn next(&mut self)
        ensures
            final(self).selected() == next_tab(old(self).selected()),
    {
        proof {
            use_type_invariant(&*self);
        }
        self.selected_index = (self.selected_index + 1) % self.titles.len();
    }

    /// Select the previous tab, wrapping around before the first one.
    pub fn previous(&mut self)
        ensures
            final(self).selected() == previous_tab(old(self).selected()),
    {
        proof {
            use_type_invariant(&*self);
        }
        if self.selected_index > 0 {
            self.selected_index = self.selected_index - 1;
        } else {
            self.selected_index = self.titles.len() - 1;
        }
    }

    /// The screen that the selected tab leads to. Navigating there means
    /// replacing the current screen with it, and marking the main stories as
    /// loading.
    pub fn navigate_to_current_selection(&self) -> (route: AppRoute)
        ensures
            route == tab_route(self.selected()),
    {
        proof {
            use_type_invariant(self);
        }
        match self.selected_index {
            0 => AppRoute::Home(HnStoriesSections::Home),
            1 => AppRoute::Home(HnStoriesSections::Ask),
            2 => AppRoute::Home(HnStoriesSections::Show),
            3 => AppRoute::Home(HnStoriesSections::Jobs),
            4 => AppRoute::Settings,
            5 => AppRoute::Help,
            _ => AppRoute::Resume,
        }
    }
}

impl Navigation {
    /// Handle the actions active in this tick, in priority order: moving to the
    /// left, moving to the right, then selecting the current tab (only while the
    /// navigation bar, `NAVIGATION_ID`, is the component the user last
    /// interacted with).
    ///
    /// Returns whether the input was handled, and the screen to navigate to
    /// when the current tab was selected.
    pub fn handle_inputs(
        &mut self,
        navigate_left: bool,
        navigate_right: bool,
        select_item: bool,
        latest_interacted_component: Option<&str>,
    ) -> (outcome: (bool, Option<AppRoute>))
        ensures
            ({
                let navigation_focused = latest_interacted_component matches Some(id) && id@
                    == NAVIGATION_ID@;
                &&& navigate_left ==> {
                    &&& final(self).selected() == previous_tab(old(self).selected())
                    &&& outcome == (true, None::<AppRoute>)
                }
                &&& !navigate_left && navigate_right ==> {
                    &&& final(self).selected() == next_tab(old(self).selected())
                    &&& outcome == (true, None::<AppRoute>)
                }
                &&& !navigate_left && !navigate_right && select_item && navigation_focused ==> {
                    &&& final(self).selected() == old(self).selected()
                    &&& outcome == (true, Some(tab_route(old(self).selected())))
                }
                &&& !navigate_left && !navigate_right && !(select_item && navigation_focused) ==> {
                    &&& final(self).selected() == old(self).selected()
                    &&& outcome == (false, None::<AppRoute>)
                }
            }),
    {
        let navigation_focused = match latest_interacted_component {
            Some(id) => <str as PartialEq>::eq(id, NAVIGATION_ID),
            None => false,
        };
        if navigate_left {
            self.previous();
            (true, None)
        } else if navigate_right {
            self.next();
            (true, None)
        } else if select_item {
            if navigation_focused {
                (true, Some(self.navigate_to_current_selection()))
            } else {
                (false, None)
            }
        } else {
            (false, None)
        }
    }

    /// The selected tab, as an index into the left group of tabs or into the
    /// right group: the selection spans both groups, so it is rebased for the
    /// right one, and exactly one of the two is set.
    pub fn groups_selection(&self) -> (selection: (Option<usize>, Option<usize>))
        ensures
            self.selected() < LEFT_TABS_COUNT ==> selection == (
                Some(self.selected() as usize),
                None::<usize>,
            ),
            self.selected() >= LEFT_TABS_COUNT ==> selection == (
                None::<usize>,
                Some((self.selected() - LEFT_TABS_COUNT) as usize),
            ),
            selection.0 matches Some(left) ==> LEFT_TABS_TITLES@[left as int]
                == TABS_TITLES@[self.selected() as int],
            selection.1 matches Some(right) ==> RIGHT_TABS_TITLES@[right as int]
                == TABS_TITLES@[self.selected() as int],
    {
        proof {
            use_type_invariant(self);
        }
        let right_selected = self.selected_index.checked_sub(LEFT_TABS_COUNT);
        let left_selected = if right_selected.is_none() {
            Some(self.selected_index)
        } else {
            None
        };
        (left_selected, right_selected)
    }
}

/// The tab that stands for the given screen, if it has one: the tab that the
/// navigation bar underlines.
pub fn tab_index_of_route(route: &AppRoute) -> (index: Option<usize>)
    ensures
        match route_tab(*route) {
            Some(tab) => index == Some(tab as usize),
            None => index is None,
        },
{
    match route {
        AppRoute::Home(section) => match section {
            HnStoriesSections::Home => Some(0),
            HnStoriesSections::Ask => Some(1),
            HnStoriesSections::Show => Some(2),
            HnStoriesSections::Jobs => Some(3),
        },
        AppRoute::Settings => Some(4),
        AppRoute::Help => Some(5),
        AppRoute::Resume => Some(6),
        AppRoute::Other => None,
    }
}

/// The title of the tab that stands for the given screen, if it has one.
pub fn tab_title_of_route(route: &AppRoute) -> (title: Option<&'static str>)
    ensures
        match route_tab(*route) {
            Some(tab) => title == Some(TABS_TITLES@[tab as int]),
            None => title is None,
        },
{
    match tab_index_of_route(route) {
        Some(index) => Some(TABS_TITLES[index]),
        None => None,
    }
}

/// Whether tab `tab_index` is the tab of the given screen: the tab that the
/// navigation bar underlines.
pub fn is_tab_of_route(tab_index: usize, route: &AppRoute) -> (is_current: bool)
    ensures
        is_current == (route_tab(*route) == Some(tab_index as nat)),
{
    match tab_index_of_route(route) {
        Some(index) => index == tab_index,
        None => false,
    }
}

/// Moving to the next tab and then to the previous one (or the other way
/// round) comes back to the tab where it started.
pub proof fn lemma_next_and_previous_cancel(index: nat)
    requires
        index < TABS_COUNT,
    ensures
        previous_tab(next_tab(index)) == index,
        next_tab(previous_tab(index)) == index,
{
}

/// Moving to the next tab as many times as there are tabs comes back to the
/// tab where it started; so does moving to the previous one.
pub proof fn lemma_full_cycle(index: nat)
    requires
        index < TABS_COUNT,
    ensures
        next_tab(next_tab(next_tab(next_tab(next_tab(next_tab(next_tab(index)))))))
            == index,
        previous_tab(
            previous_tab(previous_tab(previous_tab(previous_tab(previous_tab(previous_tab(index)))))),
        ) == index,
{
}

/// Every tab leads to a screen that the navigation bar marks as that very tab.
pub proof fn lemma_tab_route_round_trip(index: nat)
    requires
        index < TABS_COUNT,
    ensures
        route_tab(tab_route(index)) == Some(index),
{
}

/// The left group followed by the right group lists every tab, in selection
/// order.
pub proof fn lemma_tabs_groups_match_selection_order()
    ensures
        TABS_TITLES@ == LEFT_TABS_TITLES@ + RIGHT_TABS_TITLES@,
        TABS_TITLES@.len() == TABS_COUNT,
        LEFT_TABS_TITLES@.len() == LEFT_TABS_COUNT,
{
    assert(TABS_TITLES@ =~= LEFT_TABS_TITLES@ + RIGHT_TABS_TITLES@);
}

impl Default for Navigation {
    fn default() -> (navigation: Self)
        ensures
            navigation.selected() == 0,
            navigation.tabs() == TABS_TITLES@,
    {
        Navigation { titles: vstd::slice::slice_to_vec(TABS_TITLES.as_slice()), selected_index: 0 }
    }
}

} // verus!
