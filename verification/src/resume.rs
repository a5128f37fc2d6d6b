//! The "resume Item reading" screen.

use vstd::prelude::*;

use crate::breakpoints::Breakpoints;

verus! {

/// The "resume Item reading" screen of the application.
///
/// The current layout is as following:
///
/// ```md
/// ------------------------------------------
/// |              navigation                |
/// ------------------------------------------
/// |                                        |
/// |                                        |
/// |               stories                  |
/// |                                        |
/// |                                        |
/// ------------------------------------------
/// ```
#[derive(Debug)]
pub struct ResumeScreen {
    pub breakpoints: Breakpoints,
}

impl ResumeScreen {
    /// The screen with its layout: the navigation bar takes a fifth of the
    /// height, a tenth from a height of 25 on, and a twentieth from 45 on.
    pub fn new() -> (screen: Self)
        ensures
            screen.breakpoints.name == "resume_screen",
            screen.breakpoints.default_ratios@ == seq![20u16, 80u16],
            screen.breakpoints.points() == seq![
                (25u16, seq![10u16, 90u16]),
                (45u16, seq![5u16, 95u16]),
            ],
    {
        let screen = ResumeScreen {
            breakpoints: Breakpoints::new("resume_screen", &[20, 80]).breakpoint(25, &[10, 90]).breakpoint(
                45,
                &[5, 95],
            ),
        };
        assert(screen.breakpoints.points() =~= seq![
            (25u16, seq![10u16, 90u16]),
            (45u16, seq![5u16, 95u16]),
        ]);
        screen
    }
}

} // verus!
