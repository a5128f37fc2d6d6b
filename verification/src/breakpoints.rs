//! Responsive layouts: the share of the screen given to each component of a
//! screen, with other shares from given screen sizes on.

use vstd::prelude::*;

verus! {

/// The shares given to the components of a screen, with the screen size from
/// which they apply.
#[derive(Debug)]
pub struct Breakpoint {
    pub min_size: u16,
    pub ratios: Vec<u16>,
}

/// A named set of layouts for the components of one screen: the default
/// shares, and the breakpoints that replace them from a given size on.
#[derive(Debug)]
pub struct Breakpoints {
    pub name: &'static str,
    pub default_ratios: Vec<u16>,
    pub breakpoints: Vec<Breakpoint>,
}

/// A breakpoint as plain values: its minimum size and its shares.
pub open spec fn breakpoint_model(breakpoint: Breakpoint) -> (u16, Seq<u16>) {
    (breakpoint.min_size, breakpoint.ratios@)
}

impl Breakpoints {
    /// The breakpoints added so far, in order of addition.
    pub open spec fn points(self) -> Seq<(u16, Seq<u16>)> {
        self.breakpoints@.map_values(|b: Breakpoint| breakpoint_model(b))
    }

    /// A layout named `name` with the given default shares and no breakpoint.
    pub fn new(name: &'static str, default_ratios: &[u16]) -> (breakpoints: Self)
        ensures
            breakpoints.name == name,
            breakpoints.default_ratios@ == default_ratios@,
            breakpoints.points() == Seq::<(u16, Seq<u16>)>::empty(),
    {
        let breakpoints = Breakpoints {
            name,
            default_ratios: vstd::slice::slice_to_vec(default_ratios),
            breakpoints: Vec::new(),
        };
        assert(breakpoints.points() =~= Seq::<(u16, Seq<u16>)>::empty());
        breakpoints
    }

    /// The same layout, with the given shares from screen size `min_size` on.
    pub fn breakpoint(self, min_size: u16, ratios: &[u16]) -> (breakpoints: Self)
        ensures
            breakpoints.name == self.name,
            breakpoints.default_ratios@ == self.default_ratios@,
            breakpoints.points() == self.points().push((min_size, ratios@)),
    {
        let mut breakpoints = self;
        breakpoints.breakpoints.push(
            Breakpoint { min_size, ratios: vstd::slice::slice_to_vec(ratios) },
        );
        assert(breakpoints.points() =~= self.points().push((min_size, ratios@)));
        breakpoints
    }
}

} // verus!
