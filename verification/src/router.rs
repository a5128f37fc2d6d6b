//! The screens the application can show, as far as the navigation bar needs
//! to tell them apart.

use vstd::prelude::*;

verus! {

/// The story listings offered on the home screen and its sibling tabs.
#[derive(Clone, Copy, Debug, PartialEq, Eq, Structural)]
pub enum HnStoriesSections {
    Home,
    Ask,
    Show,
    Jobs,
}

/// A screen of the application.
#[derive(Clone, Copy, Debug, PartialEq, Eq, Structural)]
pub enum AppRoute {
    /// A listing of stories.
    Home(HnStoriesSections),
    Settings,
    Help,
    /// The "resume Item reading" screen.
    Resume,
    /// Any screen without a tab of its own (an item, a comment thread, ...).
    Other,
}

} // verus!
